use sim_pool::sim::{BodyDot, Direction, MovementType, CollisionType};
use sim_pool::wire::{error_body, success_body, update_step_payload};
use sim_pool::worker::WorkerState;

#[test]
fn payload_renders_exact_text() {
    let dots = vec![BodyDot {
        x_micro: 1_500_000,
        y_micro: -250_000,
        radius_micro: 1_000_000,
    }];
    let payload = update_step_payload(&dots);
    assert_eq!(
        payload,
        "[{\"0\":{\"x\":1.500000,\"y\":-0.250000,\"radius\":1.000000}}]"
    );
}

#[test]
fn payload_of_no_bodies_is_empty_array() {
    let payload = update_step_payload(&Vec::new());
    assert_eq!(payload, "[]");
}

#[test]
fn payload_parses_as_ordered_single_key_objects() {
    let dots = vec![
        BodyDot {
            x_micro: 0,
            y_micro: 0,
            radius_micro: 2_000_000,
        },
        BodyDot {
            x_micro: -7_125_000,
            y_micro: 3_000_001,
            radius_micro: 500_000,
        },
        BodyDot {
            x_micro: 42,
            y_micro: -1,
            radius_micro: 1,
        },
    ];
    let payload = update_step_payload(&dots);
    let value: serde_json::Value = serde_json::from_str(&payload).unwrap();
    let array = value.as_array().unwrap();
    assert_eq!(array.len(), dots.len());
    for (i, element) in array.iter().enumerate() {
        let object = element.as_object().unwrap();
        assert_eq!(object.len(), 1);
        let inner = object.get(&i.to_string()).unwrap().as_object().unwrap();
        assert!(inner.get("x").unwrap().is_number());
        assert!(inner.get("y").unwrap().is_number());
        assert!(inner.get("radius").unwrap().is_number());
    }
    let second = array[1].as_object().unwrap().get("1").unwrap();
    assert_eq!(second.get("x").unwrap().as_f64().unwrap(), -7.125);
    assert_eq!(second.get("y").unwrap().as_f64().unwrap(), 3.000001);
    assert_eq!(second.get("radius").unwrap().as_f64().unwrap(), 0.5);
}

#[test]
fn response_bodies_render_exact_text() {
    assert_eq!(success_body(), "{\"status\":\"success\"}");
    assert_eq!(
        error_body("mass must be positive"),
        "{\"status\":\"error\",\"message\":\"mass must be positive\"}"
    );
}

#[test]
fn worker_counters_follow_the_formulas() {
    // 1/60 s emit period over a 1 ms step: 16 steps per emit.
    let w = WorkerState::new(1_000, 100_000_000);
    assert_eq!(w.steps_per_emit, 16);
    assert_eq!(w.total_steps, 100_000);
    // A step longer than the emit period still runs once per emit.
    let slow = WorkerState::new(50_000, 100_000);
    assert_eq!(slow.steps_per_emit, 1);
    assert_eq!(slow.total_steps, 2);
}

#[test]
fn unstopped_worker_performs_exactly_the_step_budget() {
    let mut w = WorkerState::new(10_000, 20_000);
    assert_eq!(w.total_steps, 2);
    let mut performed: u64 = 0;
    while w.should_continue(false) {
        let mut in_batch: u64 = 0;
        while in_batch < w.steps_per_emit {
            if !w.try_step(false) {
                break;
            }
            performed += 1;
            in_batch += 1;
        }
    }
    assert_eq!(performed, 2);
    assert_eq!(w.step_count, 2);
    assert!(!w.try_step(false));
}

#[test]
fn stopped_worker_performs_no_further_step() {
    let mut w = WorkerState::new(10_000, 1_000_000);
    assert!(w.try_step(false));
    assert_eq!(w.step_count, 1);
    assert!(!w.try_step(true));
    assert_eq!(w.step_count, 1);
    assert!(!w.should_continue(true));
}

#[test]
fn direction_names_parse_exactly() {
    assert_eq!(Direction::parse("up"), Some(Direction::Up));
    assert_eq!(Direction::parse("down"), Some(Direction::Down));
    assert_eq!(Direction::parse("left"), Some(Direction::Left));
    assert_eq!(Direction::parse("right"), Some(Direction::Right));
    assert_eq!(Direction::parse("Up"), None);
    assert_eq!(Direction::parse(""), None);
}

#[test]
fn wire_codes_decode_to_kinds() {
    assert_eq!(MovementType::from_code(0), Some(MovementType::Static));
    assert_eq!(MovementType::from_code(1), Some(MovementType::Gravitational));
    assert_eq!(MovementType::from_code(2), Some(MovementType::Controllable));
    assert_eq!(MovementType::from_code(3), None);
    assert_eq!(CollisionType::from_code(0), Some(CollisionType::Elastic));
    assert_eq!(CollisionType::from_code(1), Some(CollisionType::Inelastic));
    assert_eq!(CollisionType::from_code(-1), None);
}
