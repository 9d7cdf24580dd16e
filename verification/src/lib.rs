//! Execution diagnostics for an Ethereum virtual machine.
pub mod erc7562_tracer;
pub mod errors;
pub mod gas_cost;
pub mod keyed;
pub mod laws;
pub mod memory;
pub mod opcode_handlers;
pub mod opcodes;
pub mod text;
pub mod utils;
pub mod vm;
pub mod word;
