//! What happens to an output file: its status, the decision taken for it and
//! the upstream annotation attached to it.

pub mod strategy;
pub mod upstream;

pub use self::strategy::{decide, Decision, FileStatus, WriteMode};
pub use self::upstream::{Cache, Detected, Special, Upstream};
