//! The instructions that the tracer and the environment handlers know by name.
use vstd::prelude::*;

verus! {

/// An instruction.
#[derive(Clone, Copy, Debug, PartialEq, Eq, Structural)]
#[allow(clippy::upper_case_acronyms)]
pub enum Opcode {
    ADD,
    MUL,
    SUB,
    DIV,
    LT,
    GT,
    SLT,
    SGT,
    EQ,
    ISZERO,
    AND,
    OR,
    NOT,
    SHL,
    SHR,
    EXTCODESIZE,
    EXTCODECOPY,
    EXTCODEHASH,
    POP,
    SLOAD,
    SSTORE,
    GAS,
    TLOAD,
    TSTORE,
    PUSH0,
    SWAP16,
    CALL,
    CALLCODE,
    RETURN,
    DELEGATECALL,
    STATICCALL,
    REVERT,
}

/// The byte that encodes an instruction.
pub open spec fn opcode_byte(opcode: Opcode) -> u8 {
    match opcode {
        Opcode::ADD => 0x01,
        Opcode::MUL => 0x02,
        Opcode::SUB => 0x03,
        Opcode::DIV => 0x04,
        Opcode::LT => 0x10,
        Opcode::GT => 0x11,
        Opcode::SLT => 0x12,
        Opcode::SGT => 0x13,
        Opcode::EQ => 0x14,
        Opcode::ISZERO => 0x15,
        Opcode::AND => 0x16,
        Opcode::OR => 0x17,
        Opcode::NOT => 0x19,
        Opcode::SHL => 0x1B,
        Opcode::SHR => 0x1C,
        Opcode::EXTCODESIZE => 0x3B,
        Opcode::EXTCODECOPY => 0x3C,
        Opcode::EXTCODEHASH => 0x3F,
        Opcode::POP => 0x50,
        Opcode::SLOAD => 0x54,
        Opcode::SSTORE => 0x55,
        Opcode::GAS => 0x5A,
        Opcode::TLOAD => 0x5C,
        Opcode::TSTORE => 0x5D,
        Opcode::PUSH0 => 0x5F,
        Opcode::SWAP16 => 0x9F,
        Opcode::CALL => 0xF1,
        Opcode::CALLCODE => 0xF2,
        Opcode::RETURN => 0xF3,
        Opcode::DELEGATECALL => 0xF4,
        Opcode::STATICCALL => 0xFA,
        Opcode::REVERT => 0xFD,
    }
}

impl From<Opcode> for u8 {
    fn from(opcode: Opcode) -> (byte: u8) {
        match opcode {
            Opcode::ADD => 0x01,
            Opcode::MUL => 0x02,
            Opcode::SUB => 0x03,
            Opcode::DIV => 0x04,
            Opcode::LT => 0x10,
            Opcode::GT => 0x11,
            Opcode::SLT => 0x12,
            Opcode::SGT => 0x13,
            Opcode::EQ => 0x14,
            Opcode::ISZERO => 0x15,
            Opcode::AND => 0x16,
            Opcode::OR => 0x17,
            Opcode::NOT => 0x19,
            Opcode::SHL => 0x1B,
            Opcode::SHR => 0x1C,
            Opcode::EXTCODESIZE => 0x3B,
            Opcode::EXTCODECOPY => 0x3C,
            Opcode::EXTCODEHASH => 0x3F,
            Opcode::POP => 0x50,
            Opcode::SLOAD => 0x54,
            Opcode::SSTORE => 0x55,
            Opcode::GAS => 0x5A,
            Opcode::TLOAD => 0x5C,
            Opcode::TSTORE => 0x5D,
            Opcode::PUSH0 => 0x5F,
            Opcode::SWAP16 => 0x9F,
            Opcode::CALL => 0xF1,
            Opcode::CALLCODE => 0xF2,
            Opcode::RETURN => 0xF3,
            Opcode::DELEGATECALL => 0xF4,
            Opcode::STATICCALL => 0xFA,
            Opcode::REVERT => 0xFD,
        }
    }
}

impl vstd::std_specs::convert::FromSpecImpl<Opcode> for u8 {
    open spec fn obeys_from_spec() -> bool {
        true
    }

    open spec fn from_spec(opcode: Opcode) -> u8 {
        opcode_byte(opcode)
    }
}

} // verus!
