//! The instructions of the machine.
pub mod environment;
