//! Copying garbage-collection plans: regions that swap source and destination
//! roles every cycle, an optional nursery evacuated every cycle, the tracing
//! step that copies each reachable object exactly once, and the cycle state
//! machine that orders prepare, tracing, weak-reference rounds and release.

pub mod copyspace;
pub mod cycle;
pub mod mutator;
pub mod plan;
pub mod scanning;
pub mod soda;
pub mod trace;
pub mod tracer;
pub mod triplespace;
pub mod util;
