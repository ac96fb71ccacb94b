//! The simulation model: bodies, movement kinds, collision policy, and the
//! controllable acceleration flags that steering inputs toggle.
//!
//! Physical quantities are carried in fixed-point micro-units (one millionth
//! of the base unit), so that validation and bookkeeping are exact integer
//! logic.  The floating-point integrator that advances positions is an
//! external collaborator; it receives these values converted at the boundary.

use vstd::prelude::*;

verus! {

/// How one body moves: fixed in place, under gravity alone, or steered by
/// the client's directional input.
#[derive(Clone, Copy, PartialEq, Eq, Structural, Debug)]
pub enum MovementType {
    Static,
    Gravitational,
    Controllable,
}

impl MovementType {
    /// Decodes the small-integer wire representation of a movement kind.
    pub open spec fn spec_from_code(code: i64) -> Option<MovementType> {
        if code == 0 {
            Some(MovementType::Static)
        } else if code == 1 {
            Some(MovementType::Gravitational)
        } else if code == 2 {
            Some(MovementType::Controllable)
        } else {
            None
        }
    }

    pub fn from_code(code: i64) -> (r: Option<MovementType>)
        ensures
            r == MovementType::spec_from_code(code),
    {
        if code == 0 {
            Some(MovementType::Static)
        } else if code == 1 {
            Some(MovementType::Gravitational)
        } else if code == 2 {
            Some(MovementType::Controllable)
        } else {
            None
        }
    }
}

/// How the integrator resolves contacts between bodies.
#[derive(Clone, Copy, PartialEq, Eq, Structural, Debug)]
pub enum CollisionType {
    Elastic,
    Inelastic,
}

impl CollisionType {
    /// Decodes the small-integer wire representation of a collision policy.
    pub open spec fn spec_from_code(code: i64) -> Option<CollisionType> {
        if code == 0 {
            Some(CollisionType::Elastic)
        } else if code == 1 {
            Some(CollisionType::Inelastic)
        } else {
            None
        }
    }

    pub fn from_code(code: i64) -> (r: Option<CollisionType>)
        ensures
            r == CollisionType::spec_from_code(code),
    {
        if code == 0 {
            Some(CollisionType::Elastic)
        } else if code == 1 {
            Some(CollisionType::Inelastic)
        } else {
            None
        }
    }
}

/// One of the four steering directions a client may press.
#[derive(Clone, Copy, PartialEq, Eq, Structural, Debug)]
pub enum Direction {
    Up,
    Down,
    Left,
    Right,
}

impl Direction {
    /// Decodes the wire name of a direction; anything else is unknown and
    /// will be dropped by the input handler.
    pub open spec fn spec_parse(s: Seq<char>) -> Option<Direction> {
        if s == "up"@ {
            Some(Direction::Up)
        } else if s == "down"@ {
            Some(Direction::Down)
        } else if s == "left"@ {
            Some(Direction::Left)
        } else if s == "right"@ {
            Some(Direction::Right)
        } else {
            None
        }
    }

    pub fn parse(s: &str) -> (r: Option<Direction>)
        ensures
            r == Direction::spec_parse(s@),
    {
        let owned = s.to_owned();
        if owned == String::from_str("up") {
            Some(Direction::Up)
        } else if owned == String::from_str("down") {
            Some(Direction::Down)
        } else if owned == String::from_str("left") {
            Some(Direction::Left)
        } else if owned == String::from_str("right") {
            Some(Direction::Right)
        } else {
            None
        }
    }
}

/// The four independent directional flags owned by the controllable body.
/// Opposing flags may both be set; the integrator adds their contributions.
#[derive(Clone, Copy, PartialEq, Eq, Structural, Debug)]
pub struct ControllableAcceleration {
    pub up: bool,
    pub down: bool,
    pub left: bool,
    pub right: bool,
}

impl ControllableAcceleration {
    /// All flags released: the state a fresh simulation starts in.
    pub open spec fn spec_released() -> ControllableAcceleration {
        ControllableAcceleration { up: false, down: false, left: false, right: false }
    }

    pub fn released() -> (r: ControllableAcceleration)
        ensures
            r == ControllableAcceleration::spec_released(),
    {
        ControllableAcceleration { up: false, down: false, left: false, right: false }
    }

    /// The flag state after one press or release of `dir`.
    pub open spec fn spec_with(self, dir: Direction, pressed: bool) -> ControllableAcceleration {
        match dir {
            Direction::Up => ControllableAcceleration { up: pressed, ..self },
            Direction::Down => ControllableAcceleration { down: pressed, ..self },
            Direction::Left => ControllableAcceleration { left: pressed, ..self },
            Direction::Right => ControllableAcceleration { right: pressed, ..self },
        }
    }

    pub fn set(&mut self, dir: Direction, pressed: bool)
        ensures
            *final(self) == old(self).spec_with(dir, pressed),
    {
        match dir {
            Direction::Up => self.up = pressed,
            Direction::Down => self.down = pressed,
            Direction::Left => self.left = pressed,
            Direction::Right => self.right = pressed,
        }
    }
}

/// Repeating a press or release of the same direction with the same state
/// changes nothing beyond the first delivery.
pub proof fn lemma_input_idempotent(acc: ControllableAcceleration, dir: Direction, pressed: bool)
    ensures
        acc.spec_with(dir, pressed).spec_with(dir, pressed) == acc.spec_with(dir, pressed),
{
}

/// Input idempotence: two consecutive identical `button_press` events
/// leave the simulation exactly as the first one alone does.
pub proof fn lemma_apply_input_idempotent(sim: Simulation, direction: Seq<char>, pressed: bool)
    ensures
        sim.spec_apply_input(direction, pressed).spec_apply_input(direction, pressed)
            == sim.spec_apply_input(direction, pressed),
{
    match Direction::spec_parse(direction) {
        Some(dir) => match sim.controllable_acceleration {
            Some(acc) => {
                lemma_input_idempotent(acc, dir, pressed);
            },
            None => {},
        },
        None => {},
    }
}

/// Why a launch request was rejected as invalid parameters.
#[derive(Clone, Copy, PartialEq, Eq, Structural, Debug)]
pub enum SimError {
    NonPositiveTimeDelta,
    NonPositiveSimulationTime,
    NonPositiveMass,
    NonPositiveRadius,
    MultipleControllableBodies,
}

impl SimError {
    /// The human-readable message reported in the error response body.
    pub open spec fn spec_message(self) -> Seq<char> {
        match self {
            SimError::NonPositiveTimeDelta => "time_delta must be positive"@,
            SimError::NonPositiveSimulationTime => "simulation_time must be positive"@,
            SimError::NonPositiveMass => "mass must be positive"@,
            SimError::NonPositiveRadius => "radius must be positive"@,
            SimError::MultipleControllableBodies => "at most one body may be controllable"@,
        }
    }

    pub fn message(&self) -> (r: String)
        ensures
            r@ == self.spec_message(),
    {
        match self {
            SimError::NonPositiveTimeDelta => String::from_str("time_delta must be positive"),
            SimError::NonPositiveSimulationTime => String::from_str(
                "simulation_time must be positive",
            ),
            SimError::NonPositiveMass => String::from_str("mass must be positive"),
            SimError::NonPositiveRadius => String::from_str("radius must be positive"),
            SimError::MultipleControllableBodies => String::from_str(
                "at most one body may be controllable",
            ),
        }
    }
}

/// One physical object: kinematic state in micro-units plus its movement kind.
#[derive(Clone, Debug)]
pub struct Body {
    pub name: String,
    pub mass_micro: i64,
    pub radius_micro: i64,
    pub x_micro: i64,
    pub y_micro: i64,
    pub vx_micro: i64,
    pub vy_micro: i64,
    pub movement: MovementType,
}

impl Body {
    /// A body is well formed when its mass and radius are strictly positive.
    pub open spec fn wf(self) -> bool {
        self.mass_micro > 0 && self.radius_micro > 0
    }

    /// Validates one body; rejects a non-positive mass or radius.
    pub open spec fn spec_validate(self) -> Result<Body, SimError> {
        if self.mass_micro <= 0 {
            Err(SimError::NonPositiveMass)
        } else if self.radius_micro <= 0 {
            Err(SimError::NonPositiveRadius)
        } else {
            Ok(self)
        }
    }

    pub fn new(
        name: String,
        mass_micro: i64,
        radius_micro: i64,
        x_micro: i64,
        y_micro: i64,
        vx_micro: i64,
        vy_micro: i64,
        movement: MovementType,
    ) -> (r: Result<Body, SimError>)
        ensures
            r == (Body {
                name: name,
                mass_micro,
                radius_micro,
                x_micro,
                y_micro,
                vx_micro,
                vy_micro,
                movement,
            }).spec_validate(),
            r is Ok ==> r->Ok_0.wf(),
    {
        let body = Body {
            name,
            mass_micro,
            radius_micro,
            x_micro,
            y_micro,
            vx_micro,
            vy_micro,
            movement,
        };
        if body.mass_micro <= 0 {
            Err(SimError::NonPositiveMass)
        } else if body.radius_micro <= 0 {
            Err(SimError::NonPositiveRadius)
        } else {
            Ok(body)
        }
    }
}

/// How many of the given bodies are controllable.
pub open spec fn controllable_count(bodies: Seq<Body>) -> int
    decreases bodies.len(),
{
    if bodies.len() == 0 {
        0
    } else {
        controllable_count(bodies.drop_last()) + if bodies.last().movement
            == MovementType::Controllable {
            1int
        } else {
            0int
        }
    }
}

/// The projection of one body that a snapshot carries to the client.
#[derive(Clone, Copy, PartialEq, Eq, Structural, Debug)]
pub struct BodyDot {
    pub x_micro: i64,
    pub y_micro: i64,
    pub radius_micro: i64,
}

/// Default time step when a launch request omits `time_delta` (0.01 s).
pub const DEFAULT_TIME_DELTA_MICROS: u64 = 10_000;

/// Default horizon when a launch request omits `simulation_time` (120 s).
pub const DEFAULT_SIMULATION_TIME_MICROS: u64 = 120_000_000;

/// Default mass for a body whose request omits it (1.0).
pub const DEFAULT_MASS_MICRO: i64 = 1_000_000;

/// Default radius for a body whose request omits it (1.0).
pub const DEFAULT_RADIUS_MICRO: i64 = 1_000_000;

/// The full state of one client's simulation, as far as the control logic
/// reads it.  Positions advance on the worker's integrator; the registry and
/// the input path mutate only the directional flags.
#[derive(Clone, Debug)]
pub struct Simulation {
    pub bodies: Vec<Body>,
    pub time_delta_micros: u64,
    pub simulation_time_micros: u64,
    pub collision: CollisionType,
    pub controllable_acceleration: Option<ControllableAcceleration>,
}

impl Simulation {
    /// Invariants fixed at construction: positive time step and horizon,
    /// well-formed bodies, at most one controllable body, and directional
    /// flags present exactly when a controllable body exists.
    pub open spec fn wf(self) -> bool {
        &&& self.time_delta_micros > 0
        &&& self.simulation_time_micros > 0
        &&& forall|i: int| 0 <= i < self.bodies@.len() ==> self.bodies@[i].wf()
        &&& controllable_count(self.bodies@) <= 1
        &&& (self.controllable_acceleration is Some <==> controllable_count(self.bodies@) == 1)
    }

    /// The reason construction fails, if any: the first violated invariant.
    pub open spec fn spec_validate_params(bodies: Seq<Body>, dt_micros: u64, st_micros: u64) -> Option<
        SimError,
    > {
        if dt_micros == 0 {
            Some(SimError::NonPositiveTimeDelta)
        } else if st_micros == 0 {
            Some(SimError::NonPositiveSimulationTime)
        } else if controllable_count(bodies) > 1 {
            Some(SimError::MultipleControllableBodies)
        } else {
            None
        }
    }

    /// Builds a simulation, failing with the first violated invariant.  A
    /// fresh simulation's directional flags are all released.
    pub fn new(
        bodies: Vec<Body>,
        time_delta_micros: u64,
        simulation_time_micros: u64,
        collision: CollisionType,
    ) -> (r: Result<Simulation, SimError>)
        requires
            forall|i: int| 0 <= i < bodies@.len() ==> bodies@[i].wf(),
        ensures
            (r is Err) == (Simulation::spec_validate_params(
                bodies@,
                time_delta_micros,
                simulation_time_micros,
            ) is Some),
            r is Err ==> Some(r->Err_0) == Simulation::spec_validate_params(
                bodies@,
                time_delta_micros,
                simulation_time_micros,
            ),
            r is Ok ==> {
                &&& r->Ok_0.bodies@ == bodies@
                &&& r->Ok_0.time_delta_micros == time_delta_micros
                &&& r->Ok_0.simulation_time_micros == simulation_time_micros
                &&& r->Ok_0.collision == collision
                &&& r->Ok_0.controllable_acceleration == if controllable_count(bodies@) == 1 {
                    Some(ControllableAcceleration::spec_released())
                } else {
                    Option::<ControllableAcceleration>::None
                }
                &&& r->Ok_0.wf()
            },
    {
        if time_delta_micros == 0 {
            return Err(SimError::NonPositiveTimeDelta);
        }
        if simulation_time_micros == 0 {
            return Err(SimError::NonPositiveSimulationTime);
        }
        let n: usize = count_controllable(&bodies);
        if n > 1 {
            return Err(SimError::MultipleControllableBodies);
        }
        let controllable_acceleration = if n == 1 {
            Some(ControllableAcceleration::released())
        } else {
            None
        };
        Ok(
            Simulation {
                bodies,
                time_delta_micros,
                simulation_time_micros,
                collision,
                controllable_acceleration,
            },
        )
    }

    /// The simulation after one steering event: an unknown direction, or the
    /// absence of a controllable body, leaves the state untouched.
    pub open spec fn spec_apply_input(self, direction: Seq<char>, pressed: bool) -> Simulation {
        match Direction::spec_parse(direction) {
            Some(dir) => match self.controllable_acceleration {
                Some(acc) => Simulation {
                    controllable_acceleration: Some(acc.spec_with(dir, pressed)),
                    ..self
                },
                None => self,
            },
            None => self,
        }
    }

    /// Applies one steering event; drops it silently when the direction is
    /// unknown or no body is controllable.
    pub fn apply_input(&mut self, direction: &str, pressed: bool)
        ensures
            *final(self) == old(self).spec_apply_input(direction@, pressed),
            old(self).wf() ==> final(self).wf(),
    {
        if let Some(dir) = Direction::parse(direction) {
            match self.controllable_acceleration {
                Some(acc) => {
                    let mut updated = acc;
                    updated.set(dir, pressed);
                    self.controllable_acceleration = Some(updated);
                },
                None => {},
            }
        }
    }

    /// The ordered projection of every body that a snapshot publishes.
    pub fn snapshot(&self) -> (r: Vec<BodyDot>)
        ensures
            r@.len() == self.bodies@.len(),
            forall|i: int| 0 <= i < r@.len() ==> r@[i] == self.bodies@[i].dot(),
    {
        let mut out: Vec<BodyDot> = Vec::new();
        let mut i: usize = 0;
        while i < self.bodies.len()
            invariant
                0 <= i <= self.bodies@.len(),
                out@.len() == i,
                forall|j: int| 0 <= j < i ==> out@[j] == self.bodies@[j].dot(),
            decreases self.bodies@.len() - i,
        {
            let b = &self.bodies[i];
            out.push(BodyDot { x_micro: b.x_micro, y_micro: b.y_micro, radius_micro: b.radius_micro });
            i += 1;
        }
        out
    }
}

impl Body {
    /// The snapshot projection of this body.
    pub open spec fn dot(self) -> BodyDot {
        BodyDot { x_micro: self.x_micro, y_micro: self.y_micro, radius_micro: self.radius_micro }
    }
}

/// Counts the controllable bodies in a slice.
fn count_controllable(bodies: &Vec<Body>) -> (n: usize)
    ensures
        n == controllable_count(bodies@),
{
    let mut n: usize = 0;
    let mut i: usize = 0;
    while i < bodies.len()
        invariant
            0 <= i <= bodies@.len(),
            n == controllable_count(bodies@.take(i as int)),
            n <= i,
        decreases bodies@.len() - i,
    {
        proof {
            assert(bodies@.take(i + 1).drop_last() =~= bodies@.take(i as int));
            assert(bodies@.take(i + 1).last() == bodies@[i as int]);
        }
        match bodies[i].movement {
            MovementType::Controllable => {
                n += 1;
            },
            _ => {},
        }
        i += 1;
    }
    proof {
        assert(bodies@.take(bodies@.len() as int) =~= bodies@);
    }
    n
}

} // verus!
