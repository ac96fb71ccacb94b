use sim_pool::registry::{launch_response, BodyRequest, LaunchRequest, LaunchResult, ServerState};
use sim_pool::sim::SimError;

fn body_with_movement(movement_code: Option<i64>) -> BodyRequest {
    BodyRequest {
        name: None,
        mass_micro: None,
        radius_micro: None,
        x_micro: None,
        y_micro: None,
        vx_micro: None,
        vy_micro: None,
        movement_code,
    }
}

fn minimal_request(user_id: &str) -> LaunchRequest {
    LaunchRequest {
        user_id: String::from(user_id),
        time_delta_micros: Some(10_000),
        simulation_time_micros: Some(20_000),
        collision_code: None,
        bodies: vec![body_with_movement(Some(0))],
    }
}

#[test]
fn launch_without_connect_is_refused() {
    let mut state = ServerState::new();
    let report = state.launch(&minimal_request("u1"));
    assert_eq!(report.result, LaunchResult::NotConnected);
    assert_eq!(report.displaced, None);
    let (status, body) = launch_response(&report.result);
    assert_eq!(status, 400);
    assert_eq!(
        body,
        "{\"status\":\"error\",\"message\":\"Socket is not connected\"}"
    );
    assert_eq!(state.pools.len(), 0);
}

#[test]
fn minimal_launch_installs_pool() {
    let mut state = ServerState::new();
    state.connect(String::from("u2"));
    let report = state.launch(&minimal_request("u2"));
    assert_eq!(report.result, LaunchResult::Launched(0));
    assert_eq!(report.displaced, None);
    let (status, body) = launch_response(&report.result);
    assert_eq!(status, 200);
    assert_eq!(body, "{\"status\":\"success\"}");
    assert_eq!(state.pools.len(), 1);
    assert_eq!(state.pools[0].client, "u2");
    let sim = &state.pools[0].simulation;
    assert_eq!(sim.time_delta_micros, 10_000);
    assert_eq!(sim.simulation_time_micros, 20_000);
    assert_eq!(sim.bodies.len(), 1);
    assert_eq!(sim.bodies[0].name, "Unnamed");
    assert_eq!(sim.bodies[0].mass_micro, 1_000_000);
    assert_eq!(sim.bodies[0].radius_micro, 1_000_000);
    // The pool stays installed until an explicit delete.
    let stopped = state.stop_execution_pool(&String::from("u2"));
    assert_eq!(stopped, Some(0));
    assert_eq!(state.pools.len(), 0);
}

#[test]
fn relaunch_replaces_previous_pool() {
    let mut state = ServerState::new();
    state.connect(String::from("u3"));
    let first = state.launch(&minimal_request("u3"));
    assert_eq!(first.result, LaunchResult::Launched(0));
    let mut second_request = minimal_request("u3");
    second_request.simulation_time_micros = Some(1_000_000);
    let second = state.launch(&second_request);
    // The displaced worker is handed back for joining before the new pool
    // is reported installed, and it never reappears in the registry.
    assert_eq!(second.displaced, Some(0));
    assert_eq!(second.result, LaunchResult::Launched(1));
    assert_eq!(state.pools.len(), 1);
    assert_eq!(state.pools[0].worker, 1);
}

#[test]
fn button_without_controllable_body_is_dropped() {
    let mut state = ServerState::new();
    state.connect(String::from("u4"));
    let report = state.launch(&minimal_request("u4"));
    assert_eq!(report.result, LaunchResult::Launched(0));
    assert_eq!(state.pools[0].simulation.controllable_acceleration, None);
    state.handle_button_press(&String::from("u4"), "up", true);
    assert_eq!(state.pools.len(), 1);
    assert_eq!(state.pools[0].simulation.controllable_acceleration, None);
}

#[test]
fn button_press_steers_controllable_body() {
    let mut state = ServerState::new();
    state.connect(String::from("u5"));
    let mut request = minimal_request("u5");
    request.bodies = vec![body_with_movement(Some(0)), body_with_movement(Some(2))];
    let report = state.launch(&request);
    assert_eq!(report.result, LaunchResult::Launched(0));
    let fresh = state.pools[0].simulation.controllable_acceleration.unwrap();
    assert!(!fresh.up && !fresh.down && !fresh.left && !fresh.right);
    state.handle_button_press(&String::from("u5"), "up", true);
    let acc = state.pools[0].simulation.controllable_acceleration.unwrap();
    assert!(acc.up && !acc.down && !acc.left && !acc.right);
    // A second identical press changes nothing further.
    state.handle_button_press(&String::from("u5"), "up", true);
    let again = state.pools[0].simulation.controllable_acceleration.unwrap();
    assert_eq!(again, acc);
    // Releasing clears only that flag; an unknown direction is dropped.
    state.handle_button_press(&String::from("u5"), "sideways", true);
    assert_eq!(
        state.pools[0].simulation.controllable_acceleration.unwrap(),
        acc
    );
    state.handle_button_press(&String::from("u5"), "up", false);
    let released = state.pools[0].simulation.controllable_acceleration.unwrap();
    assert!(!released.up);
}

#[test]
fn disconnect_removes_pool_then_socket() {
    let mut state = ServerState::new();
    state.connect(String::from("u6"));
    let report = state.launch(&minimal_request("u6"));
    assert_eq!(report.result, LaunchResult::Launched(0));
    let stopped = state.disconnect(&String::from("u6"));
    assert_eq!(stopped, Some(0));
    assert_eq!(state.pools.len(), 0);
    assert_eq!(state.sockets.len(), 0);
    // With the socket gone, a fresh launch is refused again.
    let after = state.launch(&minimal_request("u6"));
    assert_eq!(after.result, LaunchResult::NotConnected);
}

#[test]
fn shutdown_drain_joins_every_worker() {
    let mut state = ServerState::new();
    for name in ["a", "b", "c"] {
        state.connect(String::from(name));
        let report = state.launch(&minimal_request(name));
        assert!(matches!(report.result, LaunchResult::Launched(_)));
    }
    assert_eq!(state.pools.len(), 3);
    let stopped = state.drain();
    assert_eq!(stopped, vec![0, 1, 2]);
    assert_eq!(state.pools.len(), 0);
    assert_eq!(state.sockets.len(), 3);
}

#[test]
fn absent_fields_resolve_to_defaults() {
    let mut state = ServerState::new();
    state.connect(String::from("d1"));
    let request = LaunchRequest {
        user_id: String::from("d1"),
        time_delta_micros: None,
        simulation_time_micros: None,
        collision_code: None,
        bodies: vec![BodyRequest {
            name: None,
            mass_micro: None,
            radius_micro: None,
            x_micro: None,
            y_micro: None,
            vx_micro: None,
            vy_micro: None,
            movement_code: None,
        }],
    };
    let report = state.launch(&request);
    assert_eq!(report.result, LaunchResult::Launched(0));
    let sim = &state.pools[0].simulation;
    assert_eq!(sim.time_delta_micros, 10_000);
    assert_eq!(sim.simulation_time_micros, 120_000_000);
    assert_eq!(sim.bodies[0].name, "Unnamed");
    assert_eq!(sim.bodies[0].mass_micro, 1_000_000);
    assert_eq!(sim.bodies[0].radius_micro, 1_000_000);
    assert_eq!(sim.bodies[0].x_micro, 0);
    assert_eq!(sim.bodies[0].vy_micro, 0);
    assert_eq!(
        sim.bodies[0].movement,
        sim_pool::sim::MovementType::Static
    );
    assert_eq!(sim.collision, sim_pool::sim::CollisionType::Elastic);
}

#[test]
fn launch_without_bodies_installs_empty_simulation() {
    let mut state = ServerState::new();
    state.connect(String::from("d2"));
    let request = LaunchRequest {
        user_id: String::from("d2"),
        time_delta_micros: Some(10_000),
        simulation_time_micros: Some(20_000),
        collision_code: Some(1),
        bodies: Vec::new(),
    };
    let report = state.launch(&request);
    assert_eq!(report.result, LaunchResult::Launched(0));
    let sim = &state.pools[0].simulation;
    assert_eq!(sim.bodies.len(), 0);
    assert_eq!(sim.collision, sim_pool::sim::CollisionType::Inelastic);
    assert_eq!(sim.controllable_acceleration, None);
    assert_eq!(sim_pool::wire::update_step_payload(&sim.snapshot()), "[]");
}

#[test]
fn delete_is_idempotent() {
    let mut state = ServerState::new();
    state.connect(String::from("u7"));
    let report = state.launch(&minimal_request("u7"));
    assert_eq!(report.result, LaunchResult::Launched(0));
    assert_eq!(state.stop_execution_pool(&String::from("u7")), Some(0));
    assert_eq!(state.stop_execution_pool(&String::from("u7")), None);
    assert_eq!(state.pools.len(), 0);
}

#[test]
fn zero_time_delta_is_invalid() {
    let mut state = ServerState::new();
    state.connect(String::from("u8"));
    let mut request = minimal_request("u8");
    request.time_delta_micros = Some(0);
    let report = state.launch(&request);
    assert_eq!(
        report.result,
        LaunchResult::InvalidParameters(SimError::NonPositiveTimeDelta)
    );
    let (status, body) = launch_response(&report.result);
    assert_eq!(status, 400);
    assert_eq!(
        body,
        "{\"status\":\"error\",\"message\":\"time_delta must be positive\"}"
    );
}

#[test]
fn zero_simulation_time_is_invalid() {
    let mut state = ServerState::new();
    state.connect(String::from("u9"));
    let mut request = minimal_request("u9");
    request.simulation_time_micros = Some(0);
    let report = state.launch(&request);
    assert_eq!(
        report.result,
        LaunchResult::InvalidParameters(SimError::NonPositiveSimulationTime)
    );
}

#[test]
fn non_positive_mass_is_invalid() {
    let mut state = ServerState::new();
    state.connect(String::from("u10"));
    let mut request = minimal_request("u10");
    let mut body = body_with_movement(Some(0));
    body.mass_micro = Some(-5);
    request.bodies = vec![body];
    let report = state.launch(&request);
    assert_eq!(
        report.result,
        LaunchResult::InvalidParameters(SimError::NonPositiveMass)
    );
}

#[test]
fn non_positive_radius_is_invalid() {
    let mut state = ServerState::new();
    state.connect(String::from("u11"));
    let mut request = minimal_request("u11");
    let mut body = body_with_movement(Some(0));
    body.radius_micro = Some(0);
    request.bodies = vec![body];
    let report = state.launch(&request);
    assert_eq!(
        report.result,
        LaunchResult::InvalidParameters(SimError::NonPositiveRadius)
    );
}

#[test]
fn two_controllable_bodies_are_invalid() {
    let mut state = ServerState::new();
    state.connect(String::from("u12"));
    let mut request = minimal_request("u12");
    request.bodies = vec![body_with_movement(Some(2)), body_with_movement(Some(2))];
    let report = state.launch(&request);
    assert_eq!(
        report.result,
        LaunchResult::InvalidParameters(SimError::MultipleControllableBodies)
    );
    // The failed launch still tore down nothing and installed nothing.
    assert_eq!(state.pools.len(), 0);
}

#[test]
fn failed_relaunch_still_displaces_previous_pool() {
    let mut state = ServerState::new();
    state.connect(String::from("u13"));
    let first = state.launch(&minimal_request("u13"));
    assert_eq!(first.result, LaunchResult::Launched(0));
    let mut bad = minimal_request("u13");
    bad.time_delta_micros = Some(0);
    let second = state.launch(&bad);
    // The prior pool is torn down before the request is examined.
    assert_eq!(second.displaced, Some(0));
    assert!(matches!(second.result, LaunchResult::InvalidParameters(_)));
    assert_eq!(state.pools.len(), 0);
}
