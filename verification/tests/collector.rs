//! The collector over several calls: scopes, frames, tallies and copies.
use ethrex_levm::erc7562_tracer::{
    is_call_family, is_ignored_opcode, AccessedSlots, Erc7562FrameTracer, FrameCallTraceFrame,
    FrameEntry, Log,
};
use ethrex_levm::errors::{ExceptionalHalt, InternalError, VMError};
use ethrex_levm::opcodes::Opcode;
use ethrex_levm::word::{Address, H256};

fn address(n: u64) -> Address {
    Address(ethereum_types::H160::from_low_u64_be(n).0)
}

fn h256(n: u64) -> H256 {
    H256(ethereum_types::H256::from_low_u64_be(n).0)
}

fn opened() -> Erc7562FrameTracer {
    let mut tracer = Erc7562FrameTracer::new();
    tracer.begin_frame(0);
    tracer.enter(address(0), address(1), &[], 1000);
    tracer
}

fn out_of_gas_after(error: &str) -> bool {
    let mut tracer = opened();
    tracer.exit(0, Vec::new(), Some(error.to_string())).unwrap();
    tracer.frames[0].root.out_of_gas
}

#[test]
fn closing_a_scope_that_is_not_open_is_refused_and_changes_nothing() {
    let mut tracer = Erc7562FrameTracer::new();
    tracer.begin_frame(0);
    assert_eq!(tracer.exit(0, Vec::new(), None), Err(InternalError::CallFrame));
    assert!(tracer.frames.is_empty());
    tracer.enter(address(0), address(1), &[], 1000);
    assert_eq!(tracer.exit(0, Vec::new(), None), Ok(()));
    assert_eq!(tracer.frames.len(), 1);
    assert_eq!(tracer.exit(0, Vec::new(), None), Err(InternalError::CallFrame));
    assert_eq!(tracer.frames.len(), 1);
}

#[test]
fn a_disabled_collector_accepts_an_unmatched_close() {
    let mut tracer = Erc7562FrameTracer::disabled();
    assert_eq!(tracer.exit(0, Vec::new(), None), Ok(()));
    assert!(!tracer.is_active());
}

#[test]
fn a_disabled_collector_ignores_every_call() {
    let mut tracer = Erc7562FrameTracer::disabled();
    tracer.begin_frame(3);
    tracer.enter(address(0), address(1), &[], 1000);
    tracer.on_opcode(0x54);
    tracer.on_ext_opcode(0x3F, address(9));
    tracer.on_storage_access(0x54, h256(1), address(1), || panic!("not asked"));
    tracer.on_contract_size_access(0x3B, address(9), || panic!("not asked"));
    tracer.on_keccak(vec![1]);
    tracer.on_opcode(0x54);
    tracer.exit(0, Vec::new(), Some("out of gas".to_string())).unwrap();
    assert!(tracer.frames().is_empty());
    assert!(tracer.keccak_preimages().is_empty());
    assert!(!tracer.active);
}

#[test]
fn a_log_leaves_no_record() {
    let mut tracer = opened();
    let log = Log { address: address(1), topics: vec![h256(5)], data: vec![1, 2, 3] };
    assert_eq!(tracer.log(&log), Ok(()));
    tracer.exit(0, Vec::new(), None).unwrap();
    assert_eq!(tracer.frames.len(), 1);
    let mut disabled = Erc7562FrameTracer::disabled();
    assert_eq!(disabled.log(&log), Ok(()));
}

#[test]
fn an_out_of_gas_text_is_found_in_any_letter_case_and_place() {
    assert!(out_of_gas_after("OUT OF GAS"));
    assert!(out_of_gas_after("frame 3 ran oUt oF gAs while it returned"));
    assert!(out_of_gas_after("Insufficient Gas"));
    assert!(!out_of_gas_after("out ofgas"));
    assert!(!out_of_gas_after("out of ga"));
    assert!(!out_of_gas_after(""));
}

#[test]
fn letters_outside_ascii_are_lowered_too() {
    assert!(out_of_gas_after("\u{00C4}RGER: OUT OF GAS"));
    // The Kelvin sign lowers to an ordinary k; neither text speaks of gas.
    assert!(!out_of_gas_after("\u{212A}"));
}

#[test]
fn of_all_errors_only_the_out_of_gas_halt_sets_the_flag() {
    let errors = [
        (VMError::ExceptionalHalt(ExceptionalHalt::StackUnderflow), false),
        (VMError::ExceptionalHalt(ExceptionalHalt::StackOverflow), false),
        (VMError::ExceptionalHalt(ExceptionalHalt::OutOfGas), true),
        (VMError::ExceptionalHalt(ExceptionalHalt::OutOfBounds), false),
        (VMError::ExceptionalHalt(ExceptionalHalt::VeryLargeNumber), false),
        (VMError::Internal(InternalError::CallFrame), false),
        (VMError::Internal(InternalError::Database), false),
    ];
    for (error, expected) in errors {
        assert_eq!(out_of_gas_after(&error.to_text()), expected, "{error:?}");
    }
}

#[test]
fn an_error_marks_the_scope_that_closes_and_no_other() {
    let mut tracer = opened();
    tracer.enter(address(1), address(2), &[], 400);
    tracer.exit(0, Vec::new(), Some("Out Of Gas".to_string())).unwrap();
    tracer.exit(0, Vec::new(), None).unwrap();
    assert!(!tracer.frames[0].root.out_of_gas);
    assert!(tracer.frames[0].root.calls[0].out_of_gas);
}

#[test]
fn scopes_nest_in_the_order_in_which_they_close() {
    let mut tracer = opened();
    tracer.enter(address(1), address(2), &[], 400);
    tracer.enter(address(2), address(3), &[], 100);
    tracer.exit(0, Vec::new(), None).unwrap();
    tracer.exit(0, Vec::new(), None).unwrap();
    tracer.enter(address(1), address(4), &[], 400);
    tracer.exit(0, Vec::new(), None).unwrap();
    tracer.exit(0, Vec::new(), None).unwrap();
    let root = &tracer.frames[0].root;
    assert_eq!(root.from, address(0));
    assert_eq!(root.calls.len(), 2);
    assert_eq!(root.calls[0].from, address(1));
    assert_eq!(root.calls[0].to, Some(address(2)));
    assert_eq!(root.calls[0].calls.len(), 1);
    assert_eq!(root.calls[0].calls[0].to, Some(address(3)));
    assert_eq!(root.calls[1].to, Some(address(4)));
    assert!(root.calls[1].calls.is_empty());
}

#[test]
fn every_frame_leaves_one_entry_and_entries_stay() {
    let mut tracer = Erc7562FrameTracer::new();
    for index in [4usize, 2, 9] {
        tracer.begin_frame(index);
        tracer.enter(address(0), address(index as u64), &[], 1000);
        tracer.exit(0, Vec::new(), None).unwrap();
    }
    let indices: Vec<usize> = tracer.frames().iter().map(|entry| entry.frame_index).collect();
    assert_eq!(indices, vec![4, 2, 9]);
    assert_eq!(tracer.frames[1].root.to, Some(address(2)));
}

#[test]
fn the_tally_counts_as_often_as_an_opcode_occurs() {
    let mut tracer = opened();
    // SLOAD GAS SLOAD GAS CALL GAS GAS ADD GAS
    for opcode in [0x54u8, 0x5A, 0x54, 0x5A, 0xF1, 0x5A, 0x5A, 0x01, 0x5A] {
        assert!(tracer.can_count_opcode(opcode));
        tracer.on_opcode(opcode);
    }
    tracer.exit(0, Vec::new(), None).unwrap();
    let used = &tracer.frames[0].root.used_opcodes;
    assert_eq!(used.get(&0x54), Some(&2));
    assert_eq!(used.get(&0xF1), Some(&1));
    assert_eq!(used.get(&0x5A), Some(&3));
    assert_eq!(used.len(), 3);
}

#[test]
fn no_ignored_opcode_is_counted_in_any_scope() {
    let mut tracer = opened();
    tracer.enter(address(1), address(2), &[], 400);
    for opcode in 0..=255u8 {
        tracer.on_opcode(opcode);
    }
    tracer.exit(0, Vec::new(), None).unwrap();
    tracer.exit(0, Vec::new(), None).unwrap();
    let used = &tracer.frames[0].root.calls[0].used_opcodes;
    for opcode in 0..=255u8 {
        let counted = !is_ignored_opcode(opcode);
        assert_eq!(used.get(&opcode), if counted { Some(&1) } else { None }, "{opcode:#x}");
    }
    assert!(tracer.frames[0].root.used_opcodes.is_empty());
}

#[test]
fn eighty_one_opcodes_are_ignored_and_four_call() {
    assert_eq!((0..=255u8).filter(|opcode| is_ignored_opcode(*opcode)).count(), 81);
    let calls: Vec<u8> = (0..=255u8).filter(|opcode| is_call_family(*opcode)).collect();
    assert_eq!(calls, vec![0xF1, 0xF2, 0xF4, 0xFA]);
    assert!(!is_ignored_opcode(u8::from(Opcode::GAS)));
    assert!(!is_ignored_opcode(0x5E));
    assert!(!is_ignored_opcode(0xA0));
}

#[test]
fn opcodes_outside_of_every_scope_are_not_counted() {
    let mut tracer = Erc7562FrameTracer::new();
    tracer.begin_frame(0);
    tracer.on_opcode(0x54);
    tracer.enter(address(0), address(1), &[], 1000);
    tracer.exit(0, Vec::new(), None).unwrap();
    assert!(tracer.frames[0].root.used_opcodes.is_empty());
}

#[test]
fn a_slot_keeps_its_first_value_through_later_touches() {
    let mut tracer = opened();
    let slot = h256(7);
    tracer.on_storage_access(0x54, slot, address(1), || h256(100));
    tracer.on_storage_access(0x55, slot, address(1), || panic!("not asked"));
    tracer.on_storage_access(0x54, slot, address(1), || panic!("not asked"));
    tracer.on_storage_access(0x54, h256(8), address(1), || h256(200));
    assert!(tracer.can_count_slot(0x55, slot));
    tracer.exit(0, Vec::new(), None).unwrap();
    let slots = &tracer.frames[0].root.accessed_slots;
    assert_eq!(slots.reads.get(&slot), Some(&vec![h256(100)]));
    assert_eq!(slots.reads.get(&h256(8)), Some(&vec![h256(200)]));
    assert_eq!(slots.reads.entries().len(), 2);
    assert_eq!(slots.writes.get(&slot), Some(&1));
}

#[test]
fn an_inner_scope_has_records_of_its_own() {
    let mut tracer = opened();
    tracer.on_storage_access(0x54, h256(7), address(1), || h256(100));
    tracer.on_contract_size_access(0x3B, address(5), || 10);
    tracer.enter(address(1), address(2), &[], 400);
    tracer.on_storage_access(0x54, h256(7), address(2), || h256(300));
    tracer.on_contract_size_access(0xF1, address(5), || 20);
    tracer.exit(0, Vec::new(), None).unwrap();
    tracer.exit(0, Vec::new(), None).unwrap();
    let root = &tracer.frames[0].root;
    assert_eq!(root.accessed_slots.reads.get(&h256(7)), Some(&vec![h256(100)]));
    assert_eq!(root.calls[0].accessed_slots.reads.get(&h256(7)), Some(&vec![h256(300)]));
    assert_eq!(root.contract_size.get(&address(5)).unwrap().contract_size, 10);
    assert_eq!(root.calls[0].contract_size.get(&address(5)).unwrap().opcode, 0xF1);
}

#[test]
fn an_opcode_that_is_no_storage_opcode_touches_no_slot() {
    let mut tracer = opened();
    tracer.on_storage_access(0x01, h256(7), address(1), || panic!("not asked"));
    tracer.exit(0, Vec::new(), None).unwrap();
    let slots = &tracer.frames[0].root.accessed_slots;
    assert!(slots.reads.is_empty());
    assert!(slots.writes.is_empty());
    assert!(slots.transient_reads.is_empty());
    assert!(slots.transient_writes.is_empty());
}

#[test]
fn a_look_at_code_is_recorded_once_for_each_look() {
    let mut tracer = opened();
    for _ in 0..2 {
        tracer.on_opcode(0x3F);
        tracer.on_ext_opcode(0x3F, address(42));
    }
    tracer.on_opcode(0x01);
    tracer.exit(0, Vec::new(), None).unwrap();
    assert_eq!(tracer.frames[0].root.ext_code_access_info, vec![address(42), address(42)]);
}

#[test]
fn what_is_hashed_twice_is_kept_once() {
    let mut tracer = opened();
    tracer.on_keccak(b"same".to_vec());
    tracer.on_keccak(b"same".to_vec());
    tracer.on_keccak(b"other".to_vec());
    assert_eq!(tracer.keccak_preimages().members().len(), 2);
    assert!(!tracer.keccak_preimages().contains(&b"sam".to_vec()));
    assert!(!tracer.keccak_preimages().is_empty());
}

#[test]
fn a_copy_holds_the_same_and_goes_its_own_way() {
    let mut tracer = opened();
    tracer.on_opcode(0x54);
    tracer.on_storage_access(0x54, h256(7), address(1), || h256(100));
    tracer.on_keccak(b"hello".to_vec());
    let mut copy = tracer.clone();
    copy.on_opcode(0x54);
    copy.exit(0, Vec::new(), None).unwrap();
    tracer.exit(0, Vec::new(), None).unwrap();
    assert_eq!(copy.frames[0].root.used_opcodes.get(&0x54), Some(&2));
    assert_eq!(tracer.frames[0].root.used_opcodes.get(&0x54), Some(&1));
    let reads = &copy.frames[0].root.accessed_slots.reads;
    assert_eq!(reads.get(&h256(7)), Some(&vec![h256(100)]));
    assert!(copy.keccak_preimages().contains(&b"hello".to_vec()));
    assert_eq!(copy.clone().frames[0].root.to, Some(address(1)));
}

#[test]
fn a_default_value_holds_nothing() {
    let tracer = Erc7562FrameTracer::default();
    assert!(!tracer.active);
    let frame = FrameCallTraceFrame::default();
    assert_eq!(frame.from, address(0));
    assert_eq!(frame.to, None);
    assert!(frame.calls.is_empty());
    assert!(!frame.out_of_gas);
    let entry = FrameEntry::default();
    assert_eq!(entry.frame_index, 0);
    assert_eq!(entry.root.to, None);
    assert!(AccessedSlots::default().reads.is_empty());
}
