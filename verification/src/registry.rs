//! The pool registry and connection table: one execution pool per client at
//! most, torn down on delete, disconnect, replacement, or shutdown drain.
//!
//! Worker threads are identified by a number the registry hands out; the
//! caller owns the matching thread handle and stop signal and is told, by
//! each operation's result, which worker to signal and join.  A ghost
//! history records the observable events in order, so the teardown-before-
//! install and pool-before-socket orderings are part of the contracts.

use vstd::prelude::*;

use crate::sim::Body;
use crate::sim::CollisionType;
use crate::sim::ControllableAcceleration;
use crate::sim::MovementType;
use crate::sim::SimError;
use crate::sim::Simulation;
use crate::sim::controllable_count;
use crate::sim::DEFAULT_MASS_MICRO;
use crate::sim::DEFAULT_RADIUS_MICRO;
use crate::sim::DEFAULT_SIMULATION_TIME_MICROS;
use crate::sim::DEFAULT_TIME_DELTA_MICROS;
use crate::wire::error_body;
use crate::wire::spec_error_body;
use crate::wire::spec_success_body;
use crate::wire::success_body;

verus! {

/// One observable lifecycle event, in the order the registry performed it.
pub enum Event {
    /// A client's socket entry was installed.
    Connected(Seq<char>),
    /// A pool for the client was installed, run by the given worker.
    PoolInstalled(Seq<char>, u64),
    /// The client's pool was removed, its stop signal set, and its worker
    /// joined to completion.
    PoolStopped(Seq<char>, u64),
    /// The client's socket entry was removed.
    SocketRemoved(Seq<char>),
}

/// One client's execution pool: its simulation and the worker running it.
pub struct PoolEntry {
    pub client: String,
    pub simulation: Simulation,
    pub worker: u64,
}

/// The registry (pools) and the connection table (sockets).
pub struct ServerState {
    pub pools: Vec<PoolEntry>,
    pub sockets: Vec<String>,
    /// The next worker number to hand out; every live worker's number is
    /// below it.
    pub next_worker: u64,
    pub history: Ghost<Seq<Event>>,
}

impl ServerState {
    /// Whether some pool belongs to the given client.
    pub open spec fn has_pool(self, id: Seq<char>) -> bool {
        exists|i: int| 0 <= i < self.pools@.len() && self.pools@[i].client@ == id
    }

    /// The index of the client's pool (meaningful when `has_pool` holds).
    pub open spec fn pool_index(self, id: Seq<char>) -> int {
        choose|i: int| 0 <= i < self.pools@.len() && self.pools@[i].client@ == id
    }

    /// The client's pool (meaningful when `has_pool` holds).
    pub open spec fn pool_of(self, id: Seq<char>) -> PoolEntry {
        self.pools@[self.pool_index(id)]
    }

    /// Whether the client has a live socket entry.
    pub open spec fn has_socket(self, id: Seq<char>) -> bool {
        exists|i: int| 0 <= i < self.sockets@.len() && self.sockets@[i]@ == id
    }

    /// Registry invariants: at most one pool and one socket entry per
    /// client, pairwise-distinct worker numbers all below `next_worker`,
    /// and every pool's simulation well formed.
    pub open spec fn wf(self) -> bool {
        &&& forall|i: int, j: int|
            0 <= i < j < self.pools@.len() ==> self.pools@[i].client@ != self.pools@[j].client@
        &&& forall|i: int, j: int|
            0 <= i < j < self.sockets@.len() ==> self.sockets@[i]@ != self.sockets@[j]@
        &&& forall|i: int| 0 <= i < self.pools@.len() ==> self.pools@[i].worker < self.next_worker
        &&& forall|i: int, j: int|
            0 <= i < j < self.pools@.len() ==> self.pools@[i].worker != self.pools@[j].worker
        &&& forall|i: int| 0 <= i < self.pools@.len() ==> self.pools@[i].simulation.wf()
    }

    /// An empty server: no sockets, no pools, nothing to join.
    pub fn new() -> (s: ServerState)
        ensures
            s.wf(),
            s.pools@.len() == 0,
            s.sockets@.len() == 0,
            s.next_worker == 0,
            s.history@ == Seq::<Event>::empty(),
    {
        ServerState {
            pools: Vec::new(),
            sockets: Vec::new(),
            next_worker: 0,
            history: Ghost(Seq::empty()),
        }
    }

    /// The index of the client's pool, if any.
    fn find_pool(&self, user_id: &String) -> (r: Option<usize>)
        ensures
            match r {
                Some(i) => i < self.pools@.len() && self.pools@[i as int].client@ == user_id@,
                None => !self.has_pool(user_id@),
            },
    {
        let mut i: usize = 0;
        while i < self.pools.len()
            invariant
                0 <= i <= self.pools@.len(),
                forall|j: int| 0 <= j < i ==> self.pools@[j].client@ != user_id@,
            decreases self.pools@.len() - i,
        {
            if self.pools[i].client == *user_id {
                return Some(i);
            }
            i += 1;
        }
        None
    }

    /// The index of the client's socket entry, if any.
    fn find_socket(&self, user_id: &String) -> (r: Option<usize>)
        ensures
            match r {
                Some(i) => i < self.sockets@.len() && self.sockets@[i as int]@ == user_id@,
                None => !self.has_socket(user_id@),
            },
    {
        let mut i: usize = 0;
        while i < self.sockets.len()
            invariant
                0 <= i <= self.sockets@.len(),
                forall|j: int| 0 <= j < i ==> self.sockets@[j]@ != user_id@,
            decreases self.sockets@.len() - i,
        {
            if self.sockets[i] == *user_id {
                return Some(i);
            }
            i += 1;
        }
        None
    }

    /// Installs the socket entry for a newly connected client.
    pub fn connect(&mut self, user_id: String)
        requires
            old(self).wf(),
            !old(self).has_socket(user_id@),
        ensures
            final(self).wf(),
            final(self).sockets@ == old(self).sockets@.push(user_id),
            final(self).has_socket(user_id@),
            final(self).pools@ == old(self).pools@,
            final(self).next_worker == old(self).next_worker,
            final(self).history@ == old(self).history@.push(Event::Connected(user_id@)),
    {
        let ghost id_view = user_id@;
        self.sockets.push(user_id);
        proof {
            self.history@ = self.history@.push(Event::Connected(id_view));
            assert(final(self).sockets@.last()@ == id_view);
        }
    }

    /// Removes the client's pool if one exists: its stop signal is set and
    /// its worker — returned — is joined to completion by the caller before
    /// this operation is considered complete.  Idempotent.
    pub fn stop_execution_pool(&mut self, user_id: &String) -> (stopped: Option<u64>)
        requires
            old(self).wf(),
        ensures
            final(self).wf(),
            final(self).sockets@ == old(self).sockets@,
            final(self).next_worker == old(self).next_worker,
            !final(self).has_pool(user_id@),
            match stopped {
                Some(w) => {
                    &&& old(self).has_pool(user_id@)
                    &&& w == old(self).pool_of(user_id@).worker
                    &&& final(self).pools@ == old(self).pools@.remove(
                        old(self).pool_index(user_id@),
                    )
                    &&& final(self).history@ == old(self).history@.push(
                        Event::PoolStopped(user_id@, w),
                    )
                    &&& forall|i: int|
                        0 <= i < final(self).pools@.len() ==> final(self).pools@[i].worker != w
                },
                None => {
                    &&& !old(self).has_pool(user_id@)
                    &&& final(self).pools@ == old(self).pools@
                    &&& final(self).history@ == old(self).history@
                },
            },
            forall|id: Seq<char>|
                id != user_id@ ==> final(self).has_pool(id) == old(self).has_pool(id),
            forall|id: Seq<char>|
                id != user_id@ && old(self).has_pool(id) ==> final(self).pool_of(id) == old(
                    self,
                ).pool_of(id),
    {
        match self.find_pool(user_id) {
            Some(i) => {
                proof {
                    lemma_choose_index(*self, user_id@, i as int);
                }
                let entry = self.pools.remove(i);
                proof {
                    self.history@ = self.history@.push(
                        Event::PoolStopped(user_id@, entry.worker),
                    );
                    lemma_remove_keeps_others(old(self).pools@, i as int);
                    assert forall|id: Seq<char>|
                        id != user_id@ && old(self).has_pool(id) implies final(self).has_pool(id)
                        && final(self).pool_of(id) == old(self).pool_of(id) by {
                        let k = old(self).pool_index(id);
                        lemma_choose_index(*old(self), id, k);
                        let k2: int = if k < i {
                            k
                        } else {
                            k - 1
                        };
                        assert(final(self).pools@[k2] == old(self).pools@[k]);
                        lemma_choose_index(*final(self), id, k2);
                    }
                }
                Some(entry.worker)
            },
            None => None,
        }
    }
}

/// When a state is well formed, `pool_index` is the one index whose entry
/// belongs to the client: any witness index equals it.
pub proof fn lemma_choose_index(s: ServerState, id: Seq<char>, i: int)
    requires
        s.wf(),
        0 <= i < s.pools@.len(),
        s.pools@[i].client@ == id,
    ensures
        s.has_pool(id),
        s.pool_index(id) == i,
        s.pool_of(id) == s.pools@[i],
{
    assert(s.has_pool(id));
    let k = s.pool_index(id);
    if k != i {
        if k < i {
            assert(s.pools@[k].client@ != s.pools@[i].client@);
        } else {
            assert(s.pools@[i].client@ != s.pools@[k].client@);
        }
    }
}

/// Removing one entry leaves every other index's entry in place, shifted.
proof fn lemma_remove_keeps_others(s: Seq<PoolEntry>, i: int)
    requires
        0 <= i < s.len(),
    ensures
        s.remove(i).len() == s.len() - 1,
        forall|j: int| 0 <= j < i ==> s.remove(i)[j] == s[j],
        forall|j: int| i <= j < s.len() - 1 ==> s.remove(i)[j] == s[j + 1],
{
}

/// One body of a launch request, each field optional: an absent field
/// resolves to its documented default.
pub struct BodyRequest {
    pub name: Option<String>,
    pub mass_micro: Option<i64>,
    pub radius_micro: Option<i64>,
    pub x_micro: Option<i64>,
    pub y_micro: Option<i64>,
    pub vx_micro: Option<i64>,
    pub vy_micro: Option<i64>,
    pub movement_code: Option<i64>,
}

impl BodyRequest {
    pub open spec fn spec_mass(self) -> i64 {
        match self.mass_micro {
            Some(v) => v,
            None => DEFAULT_MASS_MICRO,
        }
    }

    pub open spec fn spec_radius(self) -> i64 {
        match self.radius_micro {
            Some(v) => v,
            None => DEFAULT_RADIUS_MICRO,
        }
    }

    pub open spec fn spec_x(self) -> i64 {
        match self.x_micro {
            Some(v) => v,
            None => 0,
        }
    }

    pub open spec fn spec_y(self) -> i64 {
        match self.y_micro {
            Some(v) => v,
            None => 0,
        }
    }

    pub open spec fn spec_vx(self) -> i64 {
        match self.vx_micro {
            Some(v) => v,
            None => 0,
        }
    }

    pub open spec fn spec_vy(self) -> i64 {
        match self.vy_micro {
            Some(v) => v,
            None => 0,
        }
    }

    /// An absent or unknown movement code resolves to a static body.
    pub open spec fn spec_movement(self) -> MovementType {
        match self.movement_code {
            Some(c) => match MovementType::spec_from_code(c) {
                Some(m) => m,
                None => MovementType::Static,
            },
            None => MovementType::Static,
        }
    }

    /// Why this body is rejected, if it is: the first violated invariant.
    pub open spec fn spec_error(self) -> Option<SimError> {
        if self.spec_mass() <= 0 {
            Some(SimError::NonPositiveMass)
        } else if self.spec_radius() <= 0 {
            Some(SimError::NonPositiveRadius)
        } else {
            None
        }
    }

    /// Relates this request to the body it resolves to.
    pub open spec fn resolves_to(self, b: Body) -> bool {
        &&& b.name@ == match self.name {
            Some(n) => n@,
            None => "Unnamed"@,
        }
        &&& b.mass_micro == self.spec_mass()
        &&& b.radius_micro == self.spec_radius()
        &&& b.x_micro == self.spec_x()
        &&& b.y_micro == self.spec_y()
        &&& b.vx_micro == self.spec_vx()
        &&& b.vy_micro == self.spec_vy()
        &&& b.movement == self.spec_movement()
    }

    /// Resolves this request's defaults and validates the resulting body.
    fn resolve(&self) -> (r: Result<Body, SimError>)
        ensures
            (r is Err) == (self.spec_error() is Some),
            r is Err ==> Some(r->Err_0) == self.spec_error(),
            r is Ok ==> self.resolves_to(r->Ok_0) && r->Ok_0.wf(),
    {
        let name = match &self.name {
            Some(n) => n.clone(),
            None => String::from_str("Unnamed"),
        };
        let mass = match self.mass_micro {
            Some(v) => v,
            None => DEFAULT_MASS_MICRO,
        };
        let radius = match self.radius_micro {
            Some(v) => v,
            None => DEFAULT_RADIUS_MICRO,
        };
        let x = match self.x_micro {
            Some(v) => v,
            None => 0,
        };
        let y = match self.y_micro {
            Some(v) => v,
            None => 0,
        };
        let vx = match self.vx_micro {
            Some(v) => v,
            None => 0,
        };
        let vy = match self.vy_micro {
            Some(v) => v,
            None => 0,
        };
        let movement = match self.movement_code {
            Some(c) => match MovementType::from_code(c) {
                Some(m) => m,
                None => MovementType::Static,
            },
            None => MovementType::Static,
        };
        Body::new(name, mass, radius, x, y, vx, vy, movement)
    }
}

/// The first rejected body's error, scanning in request order.
pub open spec fn first_body_error(brs: Seq<BodyRequest>) -> Option<SimError>
    decreases brs.len(),
{
    if brs.len() == 0 {
        None
    } else {
        match brs[0].spec_error() {
            Some(e) => Some(e),
            None => first_body_error(brs.drop_first()),
        }
    }
}

/// How many requested bodies resolve to a controllable one.
pub open spec fn controllable_request_count(brs: Seq<BodyRequest>) -> int
    decreases brs.len(),
{
    if brs.len() == 0 {
        0
    } else {
        controllable_request_count(brs.drop_last()) + if brs.last().spec_movement()
            == MovementType::Controllable {
            1int
        } else {
            0int
        }
    }
}

/// Scanning past error-free bodies does not change the first error found.
proof fn lemma_first_error_skip(brs: Seq<BodyRequest>, i: int)
    requires
        0 <= i <= brs.len(),
        forall|j: int| 0 <= j < i ==> brs[j].spec_error() is None,
    ensures
        first_body_error(brs) == first_body_error(brs.skip(i)),
    decreases i,
{
    if i > 0 {
        assert(brs[0].spec_error() is None);
        lemma_first_error_skip(brs.drop_first(), i - 1);
        assert(brs.drop_first().skip(i - 1) =~= brs.skip(i));
    } else {
        assert(brs.skip(0) =~= brs);
    }
}

/// Bodies resolved from requests carry over the controllable count.
proof fn lemma_counts_agree(brs: Seq<BodyRequest>, bodies: Seq<Body>)
    requires
        bodies.len() == brs.len(),
        forall|j: int| 0 <= j < brs.len() ==> brs[j].spec_movement() == bodies[j].movement,
    ensures
        controllable_count(bodies) == controllable_request_count(brs),
    decreases brs.len(),
{
    if brs.len() > 0 {
        lemma_counts_agree(brs.drop_last(), bodies.drop_last());
    }
}

/// Resolves and validates every requested body, failing with the first
/// body's error, in request order.
fn build_bodies(reqs: &Vec<BodyRequest>) -> (r: Result<Vec<Body>, SimError>)
    ensures
        (r is Err) == (first_body_error(reqs@) is Some),
        r is Err ==> Some(r->Err_0) == first_body_error(reqs@),
        r is Ok ==> {
            &&& r->Ok_0@.len() == reqs@.len()
            &&& forall|j: int|
                0 <= j < reqs@.len() ==> reqs@[j].resolves_to(r->Ok_0@[j]) && r->Ok_0@[j].wf()
        },
{
    let mut bodies: Vec<Body> = Vec::new();
    let mut i: usize = 0;
    while i < reqs.len()
        invariant
            0 <= i <= reqs@.len(),
            bodies@.len() == i,
            forall|j: int| 0 <= j < i ==> reqs@[j].spec_error() is None,
            forall|j: int| 0 <= j < i ==> reqs@[j].resolves_to(bodies@[j]) && bodies@[j].wf(),
        decreases reqs@.len() - i,
    {
        match reqs[i].resolve() {
            Ok(b) => {
                bodies.push(b);
            },
            Err(e) => {
                proof {
                    lemma_first_error_skip(reqs@, i as int);
                    assert(reqs@.skip(i as int)[0] == reqs@[i as int]);
                }
                return Err(e);
            },
        }
        i += 1;
    }
    proof {
        lemma_first_error_skip(reqs@, reqs@.len() as int);
    }
    Ok(bodies)
}

/// A launch request: the client identity and every tunable, each optional
/// field resolving to the simulation's documented default.
pub struct LaunchRequest {
    pub user_id: String,
    pub time_delta_micros: Option<u64>,
    pub simulation_time_micros: Option<u64>,
    pub collision_code: Option<i64>,
    pub bodies: Vec<BodyRequest>,
}

impl LaunchRequest {
    pub open spec fn spec_dt(self) -> u64 {
        match self.time_delta_micros {
            Some(v) => v,
            None => DEFAULT_TIME_DELTA_MICROS,
        }
    }

    pub open spec fn spec_horizon(self) -> u64 {
        match self.simulation_time_micros {
            Some(v) => v,
            None => DEFAULT_SIMULATION_TIME_MICROS,
        }
    }

    /// An absent or unknown collision code resolves to the default policy.
    pub open spec fn spec_collision(self) -> CollisionType {
        match self.collision_code {
            Some(c) => match CollisionType::spec_from_code(c) {
                Some(x) => x,
                None => CollisionType::Elastic,
            },
            None => CollisionType::Elastic,
        }
    }

    /// Why this request is rejected as invalid parameters, if it is: the
    /// first rejected body, then the simulation-wide invariants.
    pub open spec fn spec_error(self) -> Option<SimError> {
        match first_body_error(self.bodies@) {
            Some(e) => Some(e),
            None => if self.spec_dt() == 0 {
                Some(SimError::NonPositiveTimeDelta)
            } else if self.spec_horizon() == 0 {
                Some(SimError::NonPositiveSimulationTime)
            } else if controllable_request_count(self.bodies@) > 1 {
                Some(SimError::MultipleControllableBodies)
            } else {
                None
            },
        }
    }
}

/// How a launch request was answered.
#[derive(Clone, Copy, PartialEq, Eq, Structural, Debug)]
pub enum LaunchResult {
    /// A pool was installed, run by this worker.
    Launched(u64),
    /// The client has no live socket entry.
    NotConnected,
    /// The request violates a simulation invariant.
    InvalidParameters(SimError),
}

/// A launch's full outcome: any displaced worker — torn down first and to
/// be joined by the caller — and the decision itself.
#[derive(Clone, Copy, PartialEq, Eq, Structural, Debug)]
pub struct LaunchReport {
    pub displaced: Option<u64>,
    pub result: LaunchResult,
}

/// The simulation a successful launch installs, field by field.
pub open spec fn launched_simulation_matches(req: LaunchRequest, sim: Simulation) -> bool {
    &&& sim.time_delta_micros == req.spec_dt()
    &&& sim.simulation_time_micros == req.spec_horizon()
    &&& sim.collision == req.spec_collision()
    &&& sim.bodies@.len() == req.bodies@.len()
    &&& forall|i: int| 0 <= i < req.bodies@.len() ==> req.bodies@[i].resolves_to(sim.bodies@[i])
    &&& sim.controllable_acceleration == if controllable_request_count(req.bodies@) == 1 {
        Some(ControllableAcceleration::spec_released())
    } else {
        Option::<ControllableAcceleration>::None
    }
    &&& sim.wf()
}

impl ServerState {
    /// Serves a launch request.  Any prior pool of the client is removed
    /// and its worker joined first — before the request is even examined,
    /// and so before any new pool becomes visible.  The request is then
    /// refused when the client has no socket entry, or when a parameter
    /// violates a simulation invariant; otherwise a fresh worker number is
    /// taken and the new pool installed.
    pub fn launch(&mut self, req: &LaunchRequest) -> (r: LaunchReport)
        requires
            old(self).wf(),
            old(self).next_worker < u64::MAX,
        ensures
            final(self).wf(),
            final(self).sockets@ == old(self).sockets@,
            r.displaced == if old(self).has_pool(req.user_id@) {
                Some(old(self).pool_of(req.user_id@).worker)
            } else {
                Option::<u64>::None
            },
            r.displaced is Some ==> forall|i: int|
                0 <= i < final(self).pools@.len() ==> final(self).pools@[i].worker
                    != r.displaced->0,
            r.result == if !old(self).has_socket(req.user_id@) {
                LaunchResult::NotConnected
            } else {
                match req.spec_error() {
                    Some(e) => LaunchResult::InvalidParameters(e),
                    None => LaunchResult::Launched(old(self).next_worker),
                }
            },
            r.result is Launched ==> {
                &&& final(self).next_worker == old(self).next_worker + 1
                &&& final(self).has_pool(req.user_id@)
                &&& final(self).pool_of(req.user_id@).client@ == req.user_id@
                &&& final(self).pool_of(req.user_id@).worker == old(self).next_worker
                &&& launched_simulation_matches(*req, final(self).pool_of(req.user_id@).simulation)
                &&& final(self).history@ == spec_teardown_history(*old(self), req.user_id@).push(
                    Event::PoolInstalled(req.user_id@, old(self).next_worker),
                )
            },
            !(r.result is Launched) ==> {
                &&& final(self).next_worker == old(self).next_worker
                &&& !final(self).has_pool(req.user_id@)
                &&& final(self).history@ == spec_teardown_history(*old(self), req.user_id@)
            },
            forall|id: Seq<char>|
                id != req.user_id@ ==> final(self).has_pool(id) == old(self).has_pool(id),
            forall|id: Seq<char>|
                id != req.user_id@ && old(self).has_pool(id) ==> final(self).pool_of(id) == old(
                    self,
                ).pool_of(id),
    {
        let displaced = self.stop_execution_pool(&req.user_id);
        let connected = match self.find_socket(&req.user_id) {
            Some(_) => true,
            None => false,
        };
        if !connected {
            return LaunchReport { displaced, result: LaunchResult::NotConnected };
        }
        let bodies = match build_bodies(&req.bodies) {
            Ok(b) => b,
            Err(e) => {
                return LaunchReport { displaced, result: LaunchResult::InvalidParameters(e) };
            },
        };
        let dt = match req.time_delta_micros {
            Some(v) => v,
            None => DEFAULT_TIME_DELTA_MICROS,
        };
        let horizon = match req.simulation_time_micros {
            Some(v) => v,
            None => DEFAULT_SIMULATION_TIME_MICROS,
        };
        let collision = match req.collision_code {
            Some(c) => match CollisionType::from_code(c) {
                Some(x) => x,
                None => CollisionType::Elastic,
            },
            None => CollisionType::Elastic,
        };
        proof {
            assert forall|i: int| 0 <= i < bodies@.len() implies bodies@[i].wf()
                && bodies@[i].movement == req.bodies@[i].spec_movement() by {
                assert(req.bodies@[i].resolves_to(bodies@[i]) && bodies@[i].wf());
            }
            lemma_counts_agree(req.bodies@, bodies@);
        }
        let simulation = match Simulation::new(bodies, dt, horizon, collision) {
            Ok(s) => s,
            Err(e) => {
                return LaunchReport { displaced, result: LaunchResult::InvalidParameters(e) };
            },
        };
        let worker = self.next_worker;
        self.next_worker = worker + 1;
        let ghost mid = *self;
        let entry = PoolEntry { client: req.user_id.clone(), simulation, worker };
        self.pools.push(entry);
        proof {
            self.history@ = self.history@.push(Event::PoolInstalled(req.user_id@, worker));
            let n: int = mid.pools@.len() as int;
            assert(self.pools@[n].client@ == req.user_id@);
            lemma_choose_index(*self, req.user_id@, n);
            assert forall|id: Seq<char>|
                id != req.user_id@ && old(self).has_pool(id) implies self.has_pool(id)
                && self.pool_of(id) == old(self).pool_of(id) by {
                let k = mid.pool_index(id);
                assert(mid.has_pool(id));
                lemma_choose_index(mid, id, k);
                assert(self.pools@[k] == mid.pools@[k]);
                lemma_choose_index(*self, id, k);
            }
            assert forall|id: Seq<char>|
                id != req.user_id@ && self.has_pool(id) implies old(self).has_pool(id) by {
                let k = self.pool_index(id);
                lemma_choose_index(*self, id, k);
                assert(k != n);
                assert(self.pools@[k] == mid.pools@[k]);
                assert(mid.has_pool(id));
            }
        }
        LaunchReport { displaced, result: LaunchResult::Launched(worker) }
    }
}

impl ServerState {
    /// Applies one `button_press` event to the client's simulation.  The
    /// event is dropped silently when the client has no pool, the direction
    /// is unknown, or no body is controllable; nothing else changes.
    pub fn handle_button_press(&mut self, user_id: &String, direction: &str, pressed: bool)
        requires
            old(self).wf(),
        ensures
            final(self).wf(),
            final(self).sockets@ == old(self).sockets@,
            final(self).next_worker == old(self).next_worker,
            final(self).history@ == old(self).history@,
            old(self).has_pool(user_id@) ==> final(self).pools@ == old(self).pools@.update(
                old(self).pool_index(user_id@),
                PoolEntry {
                    simulation: old(self).pool_of(user_id@).simulation.spec_apply_input(
                        direction@,
                        pressed,
                    ),
                    ..old(self).pool_of(user_id@)
                },
            ),
            !old(self).has_pool(user_id@) ==> final(self).pools@ == old(self).pools@,
    {
        match self.find_pool(user_id) {
            Some(i) => {
                proof {
                    lemma_choose_index(*self, user_id@, i as int);
                }
                let mut entry = self.pools.remove(i);
                entry.simulation.apply_input(direction, pressed);
                self.pools.insert(i, entry);
                proof {
                    assert(self.pools@ =~= old(self).pools@.update(
                        i as int,
                        PoolEntry {
                            simulation: old(self).pools@[i as int].simulation.spec_apply_input(
                                direction@,
                                pressed,
                            ),
                            ..old(self).pools@[i as int]
                        },
                    ));
                }
            },
            None => {},
        }
    }

    /// Serves a disconnect: the client's pool is removed and its worker
    /// joined first, and only then the socket entry removed, so that any
    /// in-flight snapshot still had a destination.
    pub fn disconnect(&mut self, user_id: &String) -> (stopped: Option<u64>)
        requires
            old(self).wf(),
            old(self).has_socket(user_id@),
        ensures
            final(self).wf(),
            !final(self).has_pool(user_id@),
            !final(self).has_socket(user_id@),
            final(self).next_worker == old(self).next_worker,
            stopped == if old(self).has_pool(user_id@) {
                Some(old(self).pool_of(user_id@).worker)
            } else {
                Option::<u64>::None
            },
            final(self).sockets@.len() == old(self).sockets@.len() - 1,
            forall|id: Seq<char>|
                id != user_id@ ==> final(self).has_socket(id) == old(self).has_socket(id),
            forall|id: Seq<char>|
                id != user_id@ ==> final(self).has_pool(id) == old(self).has_pool(id),
            forall|id: Seq<char>|
                id != user_id@ && old(self).has_pool(id) ==> final(self).pool_of(id) == old(
                    self,
                ).pool_of(id),
            final(self).history@ == spec_teardown_history(*old(self), user_id@).push(
                Event::SocketRemoved(user_id@),
            ),
    {
        let stopped = self.stop_execution_pool(user_id);
        let ghost mid = *self;
        match self.find_socket(user_id) {
            Some(i) => {
                let _removed = self.sockets.remove(i);
                proof {
                    self.history@ = self.history@.push(Event::SocketRemoved(user_id@));
                    assert forall|j: int|
                        0 <= j < self.sockets@.len() implies self.sockets@[j]@ != user_id@ by {
                        if j < i {
                            assert(self.sockets@[j] == mid.sockets@[j]);
                        } else {
                            assert(self.sockets@[j] == mid.sockets@[j + 1]);
                        }
                    }
                    assert forall|id: Seq<char>|
                        id != user_id@ && old(self).has_socket(id) implies final(self).has_socket(
                        id,
                    ) by {
                        let k = choose|k: int|
                            0 <= k < mid.sockets@.len() && mid.sockets@[k]@ == id;
                        let k2: int = if k < i {
                            k
                        } else {
                            k - 1
                        };
                        assert(final(self).sockets@[k2]@ == id);
                    }
                }
            },
            None => {
                proof {
                    assert(false);
                }
            },
        }
        stopped
    }

    /// Shutdown drain: removes every pool in registry order, handing back
    /// the workers for the caller to signal and join; the process exits
    /// only after that.  Socket entries stay.
    pub fn drain(&mut self) -> (stopped: Vec<u64>)
        requires
            old(self).wf(),
        ensures
            final(self).wf(),
            final(self).pools@.len() == 0,
            final(self).sockets@ == old(self).sockets@,
            final(self).next_worker == old(self).next_worker,
            stopped@.len() == old(self).pools@.len(),
            forall|i: int| 0 <= i < stopped@.len() ==> stopped@[i] == old(self).pools@[i].worker,
            final(self).history@.len() == old(self).history@.len() + old(self).pools@.len(),
            forall|i: int|
                0 <= i < old(self).history@.len() ==> final(self).history@[i] == old(
                    self,
                ).history@[i],
            forall|i: int|
                0 <= i < old(self).pools@.len() ==> final(self).history@[old(
                    self,
                ).history@.len() + i] == Event::PoolStopped(
                    old(self).pools@[i].client@,
                    old(self).pools@[i].worker,
                ),
    {
        let mut stopped: Vec<u64> = Vec::new();
        while self.pools.len() > 0
            invariant
                self.pools@ =~= old(self).pools@.skip(stopped@.len() as int),
                stopped@.len() <= old(self).pools@.len(),
                self.sockets@ == old(self).sockets@,
                self.next_worker == old(self).next_worker,
                forall|i: int|
                    0 <= i < stopped@.len() ==> stopped@[i] == old(self).pools@[i].worker,
                self.history@.len() == old(self).history@.len() + stopped@.len(),
                forall|i: int|
                    0 <= i < old(self).history@.len() ==> self.history@[i] == old(
                        self,
                    ).history@[i],
                forall|i: int|
                    0 <= i < stopped@.len() ==> self.history@[old(self).history@.len() + i]
                        == Event::PoolStopped(
                        old(self).pools@[i].client@,
                        old(self).pools@[i].worker,
                    ),
            decreases self.pools@.len(),
        {
            let ghost k: int = stopped@.len() as int;
            let entry = self.pools.remove(0);
            stopped.push(entry.worker);
            proof {
                assert(entry == old(self).pools@[k]);
                self.history@ = self.history@.push(
                    Event::PoolStopped(entry.client@, entry.worker),
                );
                assert(self.pools@ =~= old(self).pools@.skip(k + 1));
            }
        }
        proof {
            assert(old(self).wf());
        }
        stopped
    }
}

/// Renders the HTTP answer to a launch request: status 200 with the
/// success body exactly when a pool was installed, else status 400 with
/// the error body naming the reason.
pub fn launch_response(r: &LaunchResult) -> (resp: (u16, String))
    ensures
        resp.0 == if r is Launched {
            200u16
        } else {
            400u16
        },
        r is Launched ==> resp.1@ == spec_success_body(),
        r is NotConnected ==> resp.1@ == spec_error_body("Socket is not connected"@),
        forall|e: SimError|
            *r == LaunchResult::InvalidParameters(e) ==> resp.1@ == spec_error_body(
                e.spec_message(),
            ),
{
    match r {
        LaunchResult::Launched(_) => (200, success_body()),
        LaunchResult::NotConnected => (400, error_body("Socket is not connected")),
        LaunchResult::InvalidParameters(e) => {
            let msg = e.message();
            (400, error_body(msg.as_str()))
        },
    }
}

/// Renders the HTTP answer to a delete request, which always succeeds.
pub fn delete_response() -> (resp: (u16, String))
    ensures
        resp.0 == 200u16,
        resp.1@ == spec_success_body(),
{
    (200, success_body())
}

/// The history after a launch's initial teardown: unchanged when the client
/// had no pool, else extended by the stop of the displaced worker.
pub open spec fn spec_teardown_history(s: ServerState, id: Seq<char>) -> Seq<Event> {
    if s.has_pool(id) {
        s.history@.push(Event::PoolStopped(id, s.pool_of(id).worker))
    } else {
        s.history@
    }
}

/// Replacement safety: in the history that a displacing launch appends —
/// `spec_teardown_history` followed by the installation event, exactly the
/// shape `launch` ensures — the displaced worker's teardown (stop signal
/// set, worker joined) stands strictly before the new pool's installation.
pub proof fn lemma_replacement_safety(s: ServerState, id: Seq<char>, w_new: u64)
    requires
        s.has_pool(id),
    ensures
        ({
            let h = spec_teardown_history(s, id).push(Event::PoolInstalled(id, w_new));
            &&& h.len() == s.history@.len() + 2
            &&& h[s.history@.len() as int] == Event::PoolStopped(id, s.pool_of(id).worker)
            &&& h[s.history@.len() as int + 1] == Event::PoolInstalled(id, w_new)
        }),
{
}

/// Single pool per client: a well-formed registry holds at most one entry
/// for any client identity.
pub proof fn lemma_single_pool_per_client(s: ServerState, id: Seq<char>, i: int, j: int)
    requires
        s.wf(),
        0 <= i < s.pools@.len(),
        0 <= j < s.pools@.len(),
        s.pools@[i].client@ == id,
        s.pools@[j].client@ == id,
    ensures
        i == j,
{
    if i < j {
        assert(s.pools@[i].client@ != s.pools@[j].client@);
    } else if j < i {
        assert(s.pools@[j].client@ != s.pools@[i].client@);
    }
}

} // verus!
