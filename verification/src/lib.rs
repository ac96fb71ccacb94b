//! Verified core of a multi-tenant real-time simulation server.
//!
//! Each connected client may own at most one execution pool: a simulation
//! together with a dedicated worker and a stop signal.  This crate holds the
//! decision logic of that server — pool lifecycle, worker step accounting,
//! steering-input application, parameter validation, and the wire payloads —
//! with contracts proved by Verus.  The surrounding I/O (HTTP, sockets,
//! threads, and the floating-point integrator) lives outside the library and
//! drives it through plain values: times in micro-seconds, coordinates in
//! micro-units, client identities as strings, worker threads as numbers.

pub mod registry;
pub mod sim;
pub mod wire;
pub mod worker;
