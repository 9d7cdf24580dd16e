//! The collector of validation diagnostics, call by call.
use ethrex_levm::erc7562_tracer::Erc7562FrameTracer;
use ethrex_levm::errors::{ExceptionalHalt, VMError};
use ethrex_levm::opcodes::Opcode;
use ethrex_levm::word::{Address, H256};

const SLOAD: u8 = 0x54;
const SSTORE: u8 = 0x55;
const TLOAD: u8 = 0x5C;
const TSTORE: u8 = 0x5D;
const EXTCODESIZE: u8 = 0x3B;
const EXTCODECOPY: u8 = 0x3C;
const EXTCODEHASH: u8 = 0x3F;
const ISZERO: u8 = 0x15;
const ADD: u8 = 0x01;
const CALL: u8 = 0xF1;

fn address(n: u64) -> Address {
    Address(ethereum_types::H160::from_low_u64_be(n).0)
}

fn h256(n: u64) -> H256 {
    H256(ethereum_types::H256::from_low_u64_be(n).0)
}

fn zero_value() -> H256 {
    h256(0)
}

#[test]
fn a_disabled_tracer_has_no_frames() {
    let tracer = Erc7562FrameTracer::disabled();
    assert!(!tracer.active);
    assert!(tracer.frames.is_empty());
}

#[test]
fn a_call_scope_with_no_begin_frame_produces_no_frame_entry() {
    let mut tracer = Erc7562FrameTracer::new();
    tracer.enter(address(0), address(1), &[], 1000);
    tracer.exit(500, Vec::new(), None).unwrap();
    assert!(tracer.frames.is_empty());
}

#[test]
fn two_frames_produce_two_frame_entries() {
    let mut tracer = Erc7562FrameTracer::new();
    tracer.begin_frame(0);
    tracer.enter(address(0), address(1), &[], 1000);
    tracer.exit(500, Vec::new(), None).unwrap();
    tracer.begin_frame(1);
    tracer.enter(address(0), address(2), &[], 2000);
    tracer.exit(1500, Vec::new(), None).unwrap();
    assert_eq!(tracer.frames.len(), 2);
    assert_eq!(tracer.frames[0].frame_index, 0);
    assert_eq!(tracer.frames[1].frame_index, 1);
    assert_eq!(tracer.frames[0].root.to, Some(address(1)));
    assert_eq!(tracer.frames[1].root.to, Some(address(2)));
}

#[test]
fn nested_enter_nests_into_parent_call() {
    let mut tracer = Erc7562FrameTracer::new();
    tracer.begin_frame(0);
    tracer.enter(address(0), address(1), &[], 1000);
    tracer.enter(
        address(1),
        address(2),
        &[],
        400,
    );
    tracer.exit(200, Vec::new(), None).unwrap();
    tracer.exit(500, Vec::new(), None).unwrap();
    assert_eq!(tracer.frames.len(), 1);
    assert_eq!(tracer.frames[0].root.calls.len(), 1);
    assert_eq!(
        tracer.frames[0].root.calls[0].to,
        Some(address(2))
    );
}

#[test]
fn exit_with_real_out_of_gas_error_sets_out_of_gas_flag() {
    let mut tracer = Erc7562FrameTracer::new();
    tracer.begin_frame(0);
    tracer.enter(address(0), address(1), &[], 1000);
    let err = VMError::ExceptionalHalt(ExceptionalHalt::OutOfGas).to_text();
    assert_eq!(err, "Out Of Gas");
    tracer.exit(1000, Vec::new(), Some(err)).unwrap();
    assert!(tracer.frames[0].root.out_of_gas);
}

#[test]
fn exit_with_unrelated_error_does_not_set_out_of_gas_flag() {
    let mut tracer = Erc7562FrameTracer::new();
    tracer.begin_frame(0);
    tracer.enter(address(0), address(1), &[], 1000);
    let err = VMError::ExceptionalHalt(ExceptionalHalt::StackOverflow).to_text();
    tracer.exit(1000, Vec::new(), Some(err)).unwrap();
    assert!(!tracer.frames[0].root.out_of_gas);
}

#[test]
fn exit_with_lowercase_insufficient_gas_literal_sets_out_of_gas_flag() {
    let mut tracer = Erc7562FrameTracer::new();
    tracer.begin_frame(0);
    tracer.enter(address(0), address(1), &[], 1000);
    tracer
        .exit(
            0,
            Vec::new(),
            Some("insufficient gas for frame entry access charge".to_string()),
        )
        .unwrap();
    assert!(tracer.frames[0].root.out_of_gas);
}

#[test]
fn on_opcode_counts_non_ignored_opcodes() {
    let mut tracer = Erc7562FrameTracer::new();
    tracer.begin_frame(0);
    tracer.enter(address(0), address(1), &[], 1000);
    tracer.on_opcode(0x54);
    tracer.on_opcode(0x54);
    tracer.on_opcode(0x01);
    tracer.exit(500, Vec::new(), None).unwrap();
    let used = &tracer.frames[0].root.used_opcodes;
    assert_eq!(used.get(&0x54), Some(&2));
    assert_eq!(used.get(&0x01), None);
}

#[test]
fn on_opcode_ignores_push_dup_swap_range_endpoints() {
    let mut tracer = Erc7562FrameTracer::new();
    tracer.begin_frame(0);
    tracer.enter(address(0), address(1), &[], 1000);
    tracer.on_opcode(0x5F);
    tracer.on_opcode(0x9F);
    tracer.exit(500, Vec::new(), None).unwrap();
    let used = &tracer.frames[0].root.used_opcodes;
    assert_eq!(used.get(&0x5F), None);
    assert_eq!(used.get(&0x9F), None);
}

#[test]
fn on_opcode_gas_followed_by_call_is_not_counted() {
    let mut tracer = Erc7562FrameTracer::new();
    tracer.begin_frame(0);
    tracer.enter(address(0), address(1), &[], 1000);
    tracer.on_opcode(0x5A);
    tracer.on_opcode(0xF1);
    tracer.exit(500, Vec::new(), None).unwrap();
    let used = &tracer.frames[0].root.used_opcodes;
    assert_eq!(used.get(&0x5A), None);
}

#[test]
fn on_opcode_gas_followed_by_non_call_is_counted() {
    let mut tracer = Erc7562FrameTracer::new();
    tracer.begin_frame(0);
    tracer.enter(address(0), address(1), &[], 1000);
    tracer.on_opcode(0x5A);
    tracer.on_opcode(0x01);
    tracer.exit(500, Vec::new(), None).unwrap();
    let used = &tracer.frames[0].root.used_opcodes;
    assert_eq!(used.get(&0x5A), Some(&1));
    assert_eq!(used.get(&0x01), None);
}

#[test]
fn on_opcode_gas_suppressed_before_every_call_family_opcode() {
    for call_opcode in [0xF1u8, 0xF2, 0xF4, 0xFA] {
        let mut tracer = Erc7562FrameTracer::new();
        tracer.begin_frame(0);
        tracer.enter(address(0), address(1), &[], 1000);
        tracer.on_opcode(0x5A);
        tracer.on_opcode(call_opcode);
        tracer.exit(500, Vec::new(), None).unwrap();
        let used = &tracer.frames[0].root.used_opcodes;
        assert_eq!(
            used.get(&0x5A),
            None,
            "GAS before call-family opcode {call_opcode:#x} must not be counted"
        );
    }
}

#[test]
fn on_opcode_gas_before_create_is_counted() {
    for create_opcode in [0xF0u8, 0xF5] {
        let mut tracer = Erc7562FrameTracer::new();
        tracer.begin_frame(0);
        tracer.enter(address(0), address(1), &[], 1000);
        tracer.on_opcode(0x5A);
        tracer.on_opcode(create_opcode);
        tracer.exit(500, Vec::new(), None).unwrap();
        let used = &tracer.frames[0].root.used_opcodes;
        assert_eq!(
            used.get(&0x5A),
            Some(&1),
            "GAS before {create_opcode:#x} (not a call-family opcode) must be counted"
        );
    }
}

#[test]
fn on_opcode_trailing_gas_with_no_following_opcode_is_not_counted() {
    let mut tracer = Erc7562FrameTracer::new();
    tracer.begin_frame(0);
    tracer.enter(address(0), address(1), &[], 1000);
    tracer.on_opcode(0x5A);
    tracer.exit(500, Vec::new(), None).unwrap();
    let used = &tracer.frames[0].root.used_opcodes;
    assert_eq!(used.get(&0x5A), None);
}

#[test]
fn on_opcode_gas_followed_by_return_is_not_counted() {
    let mut tracer = Erc7562FrameTracer::new();
    tracer.begin_frame(0);
    tracer.enter(address(0), address(1), &[], 1000);
    tracer.on_opcode(0x5A);
    tracer.on_opcode(0xF3);
    tracer.exit(500, Vec::new(), None).unwrap();
    let used = &tracer.frames[0].root.used_opcodes;
    assert_eq!(used.get(&0x5A), None);
}

#[test]
fn on_opcode_gas_followed_by_revert_is_not_counted() {
    let mut tracer = Erc7562FrameTracer::new();
    tracer.begin_frame(0);
    tracer.enter(address(0), address(1), &[], 1000);
    tracer.on_opcode(0x5A);
    tracer.on_opcode(0xFD);
    tracer.exit(500, Vec::new(), None).unwrap();
    let used = &tracer.frames[0].root.used_opcodes;
    assert_eq!(used.get(&0x5A), None);
}

#[test]
fn erc7562_tracer_opcode_byte_pins() {
    assert_eq!(u8::from(Opcode::PUSH0), 0x5F);
    assert_eq!(u8::from(Opcode::SWAP16), 0x9F);
    assert_eq!(u8::from(Opcode::POP), 0x50);
    assert_eq!(u8::from(Opcode::ADD), 0x01);
    assert_eq!(u8::from(Opcode::SUB), 0x03);
    assert_eq!(u8::from(Opcode::MUL), 0x02);
    assert_eq!(u8::from(Opcode::DIV), 0x04);
    assert_eq!(u8::from(Opcode::EQ), 0x14);
    assert_eq!(u8::from(Opcode::LT), 0x10);
    assert_eq!(u8::from(Opcode::GT), 0x11);
    assert_eq!(u8::from(Opcode::SLT), 0x12);
    assert_eq!(u8::from(Opcode::SGT), 0x13);
    assert_eq!(u8::from(Opcode::SHL), 0x1B);
    assert_eq!(u8::from(Opcode::SHR), 0x1C);
    assert_eq!(u8::from(Opcode::AND), 0x16);
    assert_eq!(u8::from(Opcode::OR), 0x17);
    assert_eq!(u8::from(Opcode::NOT), 0x19);
    assert_eq!(u8::from(Opcode::ISZERO), 0x15);
    assert_eq!(u8::from(Opcode::GAS), 0x5A);
    assert_eq!(u8::from(Opcode::CALL), 0xF1);
    assert_eq!(u8::from(Opcode::CALLCODE), 0xF2);
    assert_eq!(u8::from(Opcode::DELEGATECALL), 0xF4);
    assert_eq!(u8::from(Opcode::STATICCALL), 0xFA);
    assert_eq!(u8::from(Opcode::RETURN), 0xF3);
    assert_eq!(u8::from(Opcode::REVERT), 0xFD);
}

#[test]
fn on_opcode_ignores_all_16_named_arithmetic_comparison_opcodes() {
    const IGNORED_NAMED_OPCODES: [u8; 16] = [
        0x50,
        0x01,
        0x03,
        0x02,
        0x04,
        0x14,
        0x10,
        0x11,
        0x12,
        0x13,
        0x1B,
        0x1C,
        0x16,
        0x17,
        0x19,
        0x15,
    ];
    for opcode in IGNORED_NAMED_OPCODES {
        let mut tracer = Erc7562FrameTracer::new();
        tracer.begin_frame(0);
        tracer.enter(address(0), address(1), &[], 1000);
        tracer.on_opcode(opcode);
        tracer.exit(500, Vec::new(), None).unwrap();
        let used = &tracer.frames[0].root.used_opcodes;
        assert_eq!(
            used.get(&opcode),
            None,
            "opcode {opcode:#x} should be on the default ignore list"
        );
    }
}

#[test]
fn first_sload_records_original_value_second_does_not_overwrite() {
    let mut tracer = Erc7562FrameTracer::new();
    tracer.begin_frame(0);
    tracer.enter(address(0), address(1), &[], 1000);
    let slot = h256(7);
    tracer.on_storage_access(SLOAD, slot, address(1), || {
        h256(100)
    });
    tracer.on_storage_access(SLOAD, slot, address(1), || {
        h256(999)
    });
    tracer.exit(500, Vec::new(), None).unwrap();
    let reads = &tracer.frames[0].root.accessed_slots.reads;
    assert_eq!(reads.get(&slot), Some(&vec![h256(100)]));
}

#[test]
fn sload_after_sstore_does_not_record_original_value() {
    let mut tracer = Erc7562FrameTracer::new();
    tracer.begin_frame(0);
    tracer.enter(address(0), address(1), &[], 1000);
    let slot = h256(7);
    let addr = address(1);
    tracer.on_storage_access(SSTORE, slot, addr, zero_value);
    tracer.on_storage_access(SLOAD, slot, addr, || h256(999));
    tracer.exit(500, Vec::new(), None).unwrap();
    let accessed = &tracer.frames[0].root.accessed_slots;
    assert!(
        !accessed.reads.contains_key(&slot),
        "the guard must check `writes` too, not just `reads`"
    );
    assert_eq!(accessed.writes.get(&slot), Some(&1));
}

#[test]
fn sstore_increments_write_counter_every_touch() {
    let mut tracer = Erc7562FrameTracer::new();
    tracer.begin_frame(0);
    tracer.enter(address(0), address(1), &[], 1000);
    let slot = h256(3);
    let addr = address(1);
    tracer.on_storage_access(SSTORE, slot, addr, zero_value);
    tracer.on_storage_access(SSTORE, slot, addr, zero_value);
    tracer.on_storage_access(SSTORE, slot, addr, zero_value);
    tracer.exit(500, Vec::new(), None).unwrap();
    let accessed = &tracer.frames[0].root.accessed_slots;
    assert_eq!(accessed.writes.get(&slot), Some(&3));
    assert!(accessed.reads.is_empty());
}

#[test]
fn tload_increments_transient_read_counter_every_touch_no_guard() {
    let mut tracer = Erc7562FrameTracer::new();
    tracer.begin_frame(0);
    tracer.enter(address(0), address(1), &[], 1000);
    let slot = h256(9);
    let addr = address(1);
    tracer.on_storage_access(TLOAD, slot, addr, || h256(111));
    tracer.on_storage_access(TLOAD, slot, addr, || h256(222));
    tracer.exit(500, Vec::new(), None).unwrap();
    let accessed = &tracer.frames[0].root.accessed_slots;
    assert_eq!(accessed.transient_reads.get(&slot), Some(&2));
    assert!(accessed.reads.is_empty(), "TLOAD must not touch `reads`");
}

#[test]
fn tstore_increments_transient_write_counter_every_touch_no_guard() {
    let mut tracer = Erc7562FrameTracer::new();
    tracer.begin_frame(0);
    tracer.enter(address(0), address(1), &[], 1000);
    let slot = h256(11);
    let addr = address(1);
    tracer.on_storage_access(TSTORE, slot, addr, zero_value);
    tracer.on_storage_access(TSTORE, slot, addr, zero_value);
    tracer.on_storage_access(TSTORE, slot, addr, zero_value);
    tracer.exit(500, Vec::new(), None).unwrap();
    let accessed = &tracer.frames[0].root.accessed_slots;
    assert_eq!(accessed.transient_writes.get(&slot), Some(&3));
    assert!(
        accessed.writes.is_empty(),
        "TSTORE must not touch the persistent `writes` counter"
    );
}

#[test]
fn storage_and_transient_accesses_use_independent_counters() {
    let mut tracer = Erc7562FrameTracer::new();
    tracer.begin_frame(0);
    tracer.enter(address(0), address(1), &[], 1000);
    let slot = h256(42);
    let addr = address(1);
    tracer.on_storage_access(SLOAD, slot, addr, || h256(1));
    tracer.on_storage_access(SSTORE, slot, addr, zero_value);
    tracer.on_storage_access(TLOAD, slot, addr, zero_value);
    tracer.on_storage_access(TSTORE, slot, addr, zero_value);
    tracer.exit(500, Vec::new(), None).unwrap();
    let accessed = &tracer.frames[0].root.accessed_slots;
    assert_eq!(accessed.reads.get(&slot), Some(&vec![h256(1)]));
    assert_eq!(accessed.writes.get(&slot), Some(&1));
    assert_eq!(accessed.transient_reads.get(&slot), Some(&1));
    assert_eq!(accessed.transient_writes.get(&slot), Some(&1));
}

#[test]
fn on_storage_access_is_a_noop_when_disabled() {
    let mut tracer = Erc7562FrameTracer::disabled();
    tracer.begin_frame(0);
    tracer.enter(address(0), address(1), &[], 1000);
    let slot = h256(1);
    let addr = address(1);
    tracer.on_storage_access(SLOAD, slot, addr, || h256(1));
    tracer.on_storage_access(SSTORE, slot, addr, zero_value);
    tracer.on_storage_access(TLOAD, slot, addr, zero_value);
    tracer.on_storage_access(TSTORE, slot, addr, zero_value);
    assert!(tracer.frames.is_empty());
}

#[test]
fn extcodesize_immediately_followed_by_iszero_is_not_recorded() {
    let mut tracer = Erc7562FrameTracer::new();
    tracer.begin_frame(0);
    tracer.enter(address(0), address(1), &[], 1000);
    let target = address(42);
    tracer.on_opcode(EXTCODESIZE);
    tracer.on_ext_opcode(EXTCODESIZE, target);
    tracer.on_opcode(ISZERO);
    tracer.exit(500, Vec::new(), None).unwrap();
    assert!(tracer.frames[0].root.ext_code_access_info.is_empty());
}

#[test]
fn extcodesize_followed_by_non_iszero_is_recorded() {
    let mut tracer = Erc7562FrameTracer::new();
    tracer.begin_frame(0);
    tracer.enter(address(0), address(1), &[], 1000);
    let target = address(42);
    tracer.on_opcode(EXTCODESIZE);
    tracer.on_ext_opcode(EXTCODESIZE, target);
    tracer.on_opcode(ADD);
    tracer.exit(500, Vec::new(), None).unwrap();
    assert_eq!(tracer.frames[0].root.ext_code_access_info, vec![target]);
}

#[test]
fn extcodehash_is_recorded() {
    let mut tracer = Erc7562FrameTracer::new();
    tracer.begin_frame(0);
    tracer.enter(address(0), address(1), &[], 1000);
    let target = address(42);
    tracer.on_opcode(EXTCODEHASH);
    tracer.on_ext_opcode(EXTCODEHASH, target);
    tracer.on_opcode(ISZERO);
    tracer.exit(500, Vec::new(), None).unwrap();
    assert_eq!(tracer.frames[0].root.ext_code_access_info, vec![target]);
}

#[test]
fn extcodehash_followed_by_return_is_not_recorded() {
    let mut tracer = Erc7562FrameTracer::new();
    tracer.begin_frame(0);
    tracer.enter(address(0), address(1), &[], 1000);
    let target = address(42);
    tracer.on_opcode(EXTCODEHASH);
    tracer.on_ext_opcode(EXTCODEHASH, target);
    tracer.on_opcode(0xF3);
    tracer.exit(500, Vec::new(), None).unwrap();
    assert!(tracer.frames[0].root.ext_code_access_info.is_empty());
}

#[test]
fn extcodehash_followed_by_revert_is_not_recorded() {
    let mut tracer = Erc7562FrameTracer::new();
    tracer.begin_frame(0);
    tracer.enter(address(0), address(1), &[], 1000);
    let target = address(42);
    tracer.on_opcode(EXTCODEHASH);
    tracer.on_ext_opcode(EXTCODEHASH, target);
    tracer.on_opcode(0xFD);
    tracer.exit(500, Vec::new(), None).unwrap();
    assert!(tracer.frames[0].root.ext_code_access_info.is_empty());
}

#[test]
fn extcodecopy_is_recorded() {
    let mut tracer = Erc7562FrameTracer::new();
    tracer.begin_frame(0);
    tracer.enter(address(0), address(1), &[], 1000);
    let target = address(42);
    tracer.on_opcode(EXTCODECOPY);
    tracer.on_ext_opcode(EXTCODECOPY, target);
    tracer.on_opcode(ADD);
    tracer.exit(500, Vec::new(), None).unwrap();
    assert_eq!(tracer.frames[0].root.ext_code_access_info, vec![target]);
}

#[test]
fn trailing_ext_opcode_with_no_following_opcode_is_not_recorded() {
    let mut tracer = Erc7562FrameTracer::new();
    tracer.begin_frame(0);
    tracer.enter(address(0), address(1), &[], 1000);
    let target = address(42);
    tracer.on_opcode(EXTCODEHASH);
    tracer.on_ext_opcode(EXTCODEHASH, target);
    tracer.exit(500, Vec::new(), None).unwrap();
    assert!(tracer.frames[0].root.ext_code_access_info.is_empty());
}

#[test]
fn ext_access_capture_is_consumed_only_once() {
    let mut tracer = Erc7562FrameTracer::new();
    tracer.begin_frame(0);
    tracer.enter(address(0), address(1), &[], 1000);
    let first = address(1);
    let second = address(2);
    tracer.on_opcode(EXTCODEHASH);
    tracer.on_ext_opcode(EXTCODEHASH, first);
    tracer.on_opcode(ADD);
    tracer.on_opcode(EXTCODESIZE);
    tracer.on_ext_opcode(EXTCODESIZE, second);
    tracer.on_opcode(ISZERO);
    tracer.on_opcode(ADD);
    tracer.exit(500, Vec::new(), None).unwrap();
    assert_eq!(tracer.frames[0].root.ext_code_access_info, vec![first]);
}

#[test]
fn on_ext_opcode_is_a_noop_when_disabled() {
    let mut tracer = Erc7562FrameTracer::disabled();
    tracer.begin_frame(0);
    tracer.enter(address(0), address(1), &[], 1000);
    tracer.on_opcode(EXTCODESIZE);
    tracer.on_ext_opcode(EXTCODESIZE, address(42));
    tracer.on_opcode(ADD);
    assert!(tracer.frames.is_empty());
}

#[test]
fn contract_size_recorded_on_first_access() {
    let mut tracer = Erc7562FrameTracer::new();
    tracer.begin_frame(0);
    tracer.enter(address(0), address(1), &[], 1000);
    let target = address(7);
    tracer.on_contract_size_access(EXTCODESIZE, target, || 123);
    tracer.exit(500, Vec::new(), None).unwrap();
    let sizes = &tracer.frames[0].root.contract_size;
    let entry = sizes.get(&target).expect("size must be recorded");
    assert_eq!(entry.contract_size, 123);
    assert_eq!(entry.opcode, EXTCODESIZE);
}

#[test]
fn contract_size_second_access_does_not_overwrite() {
    let mut tracer = Erc7562FrameTracer::new();
    tracer.begin_frame(0);
    tracer.enter(address(0), address(1), &[], 1000);
    let target = address(7);
    tracer.on_contract_size_access(EXTCODESIZE, target, || 123);
    tracer.on_contract_size_access(CALL, target, || 999);
    tracer.exit(500, Vec::new(), None).unwrap();
    let sizes = &tracer.frames[0].root.contract_size;
    let entry = sizes.get(&target).expect("size must be recorded");
    assert_eq!(entry.contract_size, 123);
    assert_eq!(entry.opcode, EXTCODESIZE);
}

#[test]
fn contract_size_closure_not_invoked_on_repeat_access() {
    let mut tracer = Erc7562FrameTracer::new();
    tracer.begin_frame(0);
    tracer.enter(address(0), address(1), &[], 1000);
    let target = address(7);
    tracer.on_contract_size_access(EXTCODESIZE, target, || 123);
    tracer.on_contract_size_access(CALL, target, || panic!("must not be called"));
    tracer.exit(500, Vec::new(), None).unwrap();
    assert_eq!(
        tracer.frames[0].root.contract_size.get(&target).unwrap().contract_size,
        123
    );
}

#[test]
fn contract_size_tracks_multiple_addresses_independently() {
    let mut tracer = Erc7562FrameTracer::new();
    tracer.begin_frame(0);
    tracer.enter(address(0), address(1), &[], 1000);
    let a = address(1);
    let b = address(2);
    tracer.on_contract_size_access(EXTCODESIZE, a, || 10);
    tracer.on_contract_size_access(CALL, b, || 20);
    tracer.exit(500, Vec::new(), None).unwrap();
    let sizes = &tracer.frames[0].root.contract_size;
    assert_eq!(sizes.get(&a).unwrap().contract_size, 10);
    assert_eq!(sizes.get(&b).unwrap().contract_size, 20);
}

#[test]
fn on_contract_size_access_is_a_noop_when_disabled() {
    let mut tracer = Erc7562FrameTracer::disabled();
    tracer.begin_frame(0);
    tracer.enter(address(0), address(1), &[], 1000);
    tracer.on_contract_size_access(EXTCODESIZE, address(7), || {
        panic!("must not be called when disabled")
    });
    assert!(tracer.frames.is_empty());
}

#[test]
fn keccak_preimage_is_recorded() {
    let mut tracer = Erc7562FrameTracer::new();
    tracer.begin_frame(0);
    tracer.enter(address(0), address(1), &[], 1000);
    tracer.on_keccak(b"hello".to_vec());
    tracer.exit(500, Vec::new(), None).unwrap();
    assert!(tracer.keccak_preimages().contains(&b"hello".to_vec()));
}

#[test]
fn keccak_empty_preimage_is_recorded() {
    let mut tracer = Erc7562FrameTracer::new();
    tracer.begin_frame(0);
    tracer.enter(address(0), address(1), &[], 1000);
    tracer.on_keccak(Vec::new());
    tracer.exit(500, Vec::new(), None).unwrap();
    assert!(tracer.keccak_preimages().contains(&Vec::<u8>::new()));
}

#[test]
fn keccak_preimages_are_shared_across_call_frames() {
    let mut tracer = Erc7562FrameTracer::new();
    tracer.begin_frame(0);
    tracer.enter(address(0), address(1), &[], 1000);
    tracer.on_keccak(b"outer".to_vec());
    tracer.enter(
        address(1),
        address(2),
        &[],
        400,
    );
    tracer.on_keccak(b"inner".to_vec());
    tracer.exit(200, Vec::new(), None).unwrap();
    tracer.exit(500, Vec::new(), None).unwrap();
    let preimages = tracer.keccak_preimages();
    assert!(preimages.contains(&b"outer".to_vec()));
    assert!(preimages.contains(&b"inner".to_vec()));
}

#[test]
fn keccak_preimages_persist_across_frame_transaction_frames() {
    let mut tracer = Erc7562FrameTracer::new();
    tracer.begin_frame(0);
    tracer.enter(address(0), address(1), &[], 1000);
    tracer.on_keccak(b"frame-zero".to_vec());
    tracer.exit(500, Vec::new(), None).unwrap();
    tracer.begin_frame(1);
    tracer.enter(address(0), address(2), &[], 1000);
    tracer.on_keccak(b"frame-one".to_vec());
    tracer.exit(500, Vec::new(), None).unwrap();
    let preimages = tracer.keccak_preimages();
    assert!(preimages.contains(&b"frame-zero".to_vec()));
    assert!(preimages.contains(&b"frame-one".to_vec()));
}

#[test]
fn on_keccak_is_a_noop_when_disabled() {
    let mut tracer = Erc7562FrameTracer::disabled();
    tracer.on_keccak(b"hello".to_vec());
    assert!(tracer.keccak_preimages().is_empty());
}
