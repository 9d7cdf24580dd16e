//! What holds: of each call and each instruction by itself, field by field, and across calls.
pub mod environment;
pub mod instructions;
pub mod records;
pub mod text;
pub mod tracer;
pub mod values;
