//! Process supervision core for a desktop application that launches, tracks,
//! queries, and terminates external interpreter processes.
//!
//! The library holds the verified logic of the supervisor: the registry of
//! anonymous background processes, the table of named singleton roles, the
//! deterministic log-file naming of the launcher, and the decisions made by
//! each command entry point. The operating-system side (spawning a child,
//! probing it, terminating it) is performed by the host around this crate;
//! the functions here take those outcomes as arguments and are verified for
//! every outcome.

pub mod commands;
pub mod guard;
pub mod manager;
pub mod naming;
pub mod outcome;
pub mod sweep;
