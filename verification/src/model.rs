//! The runtime domain model: the rider, the world's verdicts, the session,
//! the chronicle and story progression.

pub mod journal;
pub mod rider;
pub mod session;
pub mod story;
pub mod worldstate;
