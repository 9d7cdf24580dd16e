//! What each call of the collector leaves in the records, field by field.
//!
//! Opcodes are given by their bytes, and a tally by the number under each byte.
use crate::erc7562_tracer::{
    blank_frame, call_family, empty_slots, ends_frame, ext_lookback_suppressed,
    gas_lookback_suppressed, ignored_opcode, initial, FrameCallTraceFrame, FrameEntry, FrameView, TracerView,
};
use crate::laws::tracer::{occurrences, run_opcodes};
use crate::word::{Address, H256};
use vstd::prelude::*;

verus! {

/// A collector that was just made, active or not, holds nothing.
pub proof fn lemma_new_collector_holds_nothing(active: bool)
    ensures
        initial(active).active == active,
        initial(active).frames.len() == 0,
        initial(active).stack.len() == 0,
        initial(active).current is None,
        forall|preimage: Seq<u8>| !(#[trigger] initial(active).preimages.contains(preimage)),
        initial(active).last_opcode is None,
        initial(active).last_ext is None,
{
}

/// A scope is open and recorded where the collector is active and has at least one record on its
/// stack.
pub proof fn lemma_scope_is_open(tracer: TracerView)
    ensures
        tracer.in_scope() <==> tracer.active && tracer.stack.len() >= 1,
{
}

/// A record of which only the caller is known holds nothing else.
pub proof fn lemma_blank_record_holds_nothing(from: Address)
    ensures
        ({
            let record = blank_frame(from);
            &&& record.from == from
            &&& record.to is None
            &&& record.calls.len() == 0
            &&& record.slots == empty_slots()
            &&& record.ext_code.len() == 0
            &&& forall|byte: u8| !(#[trigger] record.used_opcodes.contains_key(byte))
            &&& forall|account: Address| !(#[trigger] record.contract_size.contains_key(account))
            &&& !record.out_of_gas
        }),
        forall|slot: H256| !(#[trigger] empty_slots().reads.contains_key(slot)),
        forall|slot: H256| !(#[trigger] empty_slots().writes.contains_key(slot)),
        forall|slot: H256| !(#[trigger] empty_slots().transient_reads.contains_key(slot)),
        forall|slot: H256| !(#[trigger] empty_slots().transient_writes.contains_key(slot)),
{
}

/// A record shows what its fields hold, and so do the records of the calls in it.
pub proof fn lemma_record_shows_its_fields(frame: FrameCallTraceFrame)
    ensures
        frame@.from == frame.from,
        frame@.to == frame.to,
        frame@.calls.len() == frame.calls@.len(),
        forall|i: int| 0 <= i < frame.calls@.len() ==> #[trigger] frame@.calls[i] == frame.calls@[i]@,
        forall|slot: H256| #[trigger]
            frame@.slots.reads.contains_key(slot) <==> frame.accessed_slots.reads@.contains_key(slot),
        forall|slot: H256| #[trigger]
            frame@.slots.reads.contains_key(slot) ==> frame@.slots.reads[slot]
                == frame.accessed_slots.reads@[slot]@,
        frame@.slots.writes == frame.accessed_slots.writes@,
        frame@.slots.transient_reads == frame.accessed_slots.transient_reads@,
        frame@.slots.transient_writes == frame.accessed_slots.transient_writes@,
        frame@.ext_code == frame.ext_code_access_info@,
        frame@.used_opcodes == frame.used_opcodes@,
        frame@.contract_size == frame.contract_size@,
        frame@.out_of_gas == frame.out_of_gas,
{
}

/// An entry shows its index and its tree.
pub proof fn lemma_entry_shows_its_fields(entry: FrameEntry)
    ensures
        entry@.frame_index == entry.frame_index,
        entry@.root == entry.root@,
{
}

/// The two collectors differ in their open scopes at most.
pub open spec fn same_but_stack(one: TracerView, other: TracerView) -> bool {
    &&& one.active == other.active
    &&& one.frames == other.frames
    &&& one.current == other.current
    &&& one.preimages == other.preimages
    &&& one.last_opcode == other.last_opcode
    &&& one.last_ext == other.last_ext
}

/// The scopes outside of the innermost one are the same in both, and as many.
pub open spec fn same_outer_scopes(one: TracerView, other: TracerView) -> bool {
    &&& one.stack.len() == other.stack.len()
    &&& forall|i: int| 0 <= i < one.stack.len() - 1 ==> #[trigger] one.stack[i] == other.stack[i]
}

/// The record holds all that the other does: who called whom, the calls made, the storage read and
/// written, the code looked at, the tally and the code sizes. The out-of-gas mark may differ.
pub open spec fn holds_all_of(one: FrameView, other: FrameView) -> bool {
    &&& one.from == other.from
    &&& one.to == other.to
    &&& one.calls == other.calls
    &&& one.slots.reads == other.slots.reads
    &&& one.slots.writes == other.slots.writes
    &&& one.slots.transient_reads == other.slots.transient_reads
    &&& one.slots.transient_writes == other.slots.transient_writes
    &&& one.ext_code == other.ext_code
    &&& one.used_opcodes == other.used_opcodes
    &&& one.contract_size == other.contract_size
}

/// Beginning a frame names it as the one that the next outermost scope belongs to, and nothing
/// else.
pub proof fn lemma_begin_names_the_frame(tracer: TracerView, frame_index: usize)
    ensures
        ({
            let now = tracer.begin_frame(frame_index);
            &&& now.current == if tracer.active {
                Some(frame_index)
            } else {
                tracer.current
            }
            &&& now.active == tracer.active
            &&& now.frames == tracer.frames
            &&& now.stack == tracer.stack
            &&& now.preimages == tracer.preimages
            &&& now.last_opcode == tracer.last_opcode
            &&& now.last_ext == tracer.last_ext
        }),
{
}

/// Opening a scope puts one record on top of the open ones. It names the two accounts and holds
/// nothing else.
pub proof fn lemma_enter_opens_an_empty_record(tracer: TracerView, from: Address, to: Address)
    ensures
        !tracer.active ==> tracer.enter(from, to) == tracer,
        tracer.active ==> {
            let now = tracer.enter(from, to);
            let n = tracer.stack.len() as int;
            let record = now.stack[n];
            &&& same_but_stack(now, tracer)
            &&& now.stack.len() == n + 1
            &&& forall|i: int| 0 <= i < n ==> #[trigger] now.stack[i] == tracer.stack[i]
            &&& record.from == from
            &&& record.to == Some(to)
            &&& record.calls.len() == 0
            &&& forall|slot: H256| !(#[trigger] record.slots.reads.contains_key(slot))
            &&& forall|slot: H256| !(#[trigger] record.slots.writes.contains_key(slot))
            &&& forall|slot: H256| !(#[trigger] record.slots.transient_reads.contains_key(slot))
            &&& forall|slot: H256| !(#[trigger] record.slots.transient_writes.contains_key(slot))
            &&& record.ext_code.len() == 0
            &&& forall|byte: u8| !(#[trigger] record.used_opcodes.contains_key(byte))
            &&& forall|account: Address| !(#[trigger] record.contract_size.contains_key(account))
            &&& !record.out_of_gas
        },
{
}

/// Closing a scope inside another makes its whole record the last call of the other; the mark is
/// set where it ran out of gas. The calls before it, the rest of that record, the scopes further
/// out and the reported entries stay as they are.
pub proof fn lemma_closed_scope_keeps_its_record(tracer: TracerView, out_of_gas: bool)
    requires
        tracer.active,
        tracer.stack.len() >= 2,
    ensures
        ({
            let now = tracer.exit(out_of_gas);
            let n = tracer.stack.len() as int;
            let closed = tracer.stack[n - 1];
            let parent = tracer.stack[n - 2];
            let grown = now.stack[n - 2];
            let call = grown.calls[parent.calls.len() as int];
            &&& same_but_stack(now, tracer)
            &&& now.stack.len() == n - 1
            &&& forall|i: int| 0 <= i < n - 2 ==> #[trigger] now.stack[i] == tracer.stack[i]
            &&& grown.calls.len() == parent.calls.len() + 1
            &&& forall|i: int|
                0 <= i < parent.calls.len() ==> #[trigger] grown.calls[i] == parent.calls[i]
            &&& holds_all_of(call, closed)
            &&& call == (FrameView { out_of_gas: call.out_of_gas, ..closed })
            &&& call.out_of_gas == (closed.out_of_gas || out_of_gas)
            &&& holds_all_of(FrameView { calls: parent.calls, ..grown }, parent)
            &&& grown.out_of_gas == parent.out_of_gas
        }),
{
}

/// Closing an outermost scope reports its whole record as the tree of the frame that was begun
/// last; the mark is set where it ran out of gas. Earlier entries stay. Where no frame was begun,
/// nothing is reported.
pub proof fn lemma_reported_tree_is_the_record(tracer: TracerView, out_of_gas: bool)
    requires
        tracer.active,
        tracer.stack.len() == 1,
    ensures
        ({
            let now = tracer.exit(out_of_gas);
            let closed = tracer.stack[0];
            let n = tracer.frames.len() as int;
            &&& now.active
            &&& now.stack.len() == 0
            &&& now.current == tracer.current
            &&& now.preimages == tracer.preimages
            &&& now.last_opcode == tracer.last_opcode
            &&& now.last_ext == tracer.last_ext
            &&& tracer.current is None ==> now.frames == tracer.frames
            &&& tracer.current matches Some(frame_index) ==> {
                &&& now.frames.len() == n + 1
                &&& forall|i: int| 0 <= i < n ==> #[trigger] now.frames[i] == tracer.frames[i]
                &&& now.frames[n].frame_index == frame_index
                &&& holds_all_of(now.frames[n].root, closed)
                &&& now.frames[n].root == (FrameView {
                    out_of_gas: now.frames[n].root.out_of_gas,
                    ..closed
                })
                &&& now.frames[n].root.out_of_gas == (closed.out_of_gas || out_of_gas)
            }
        }),
{
}

/// The bytes that are never counted: `0x5F` to `0x9F`, which push, duplicate and swap, and sixteen
/// others.
pub open spec fn byte_is_ignored(byte: u8) -> bool {
    ||| 0x5F <= byte <= 0x9F
    ||| 0x01 <= byte <= 0x04
    ||| 0x10 <= byte <= 0x17
    ||| byte == 0x19
    ||| byte == 0x1B
    ||| byte == 0x1C
    ||| byte == 0x50
}

/// The bytes before which a `0x5A` is not counted: the four that call, and the two that end a call
/// with data.
pub open spec fn byte_hides_gas(byte: u8) -> bool {
    ||| byte == 0xF1
    ||| byte == 0xF2
    ||| byte == 0xF4
    ||| byte == 0xFA
    ||| byte == 0xF3
    ||| byte == 0xFD
}

/// The classes of opcodes, byte by byte.
pub proof fn lemma_opcode_classes(byte: u8, looked_by: u8)
    ensures
        ignored_opcode(byte) <==> byte_is_ignored(byte),
        byte_is_ignored(byte) <==> (0x5F <= byte <= 0x9F || 0x01 <= byte <= 0x04 || 0x10 <= byte
            <= 0x17 || byte == 0x19 || byte == 0x1B || byte == 0x1C || byte == 0x50),
        call_family(byte) <==> (byte == 0xF1 || byte == 0xF2 || byte == 0xF4 || byte == 0xFA),
        ends_frame(byte) <==> (byte == 0xF3 || byte == 0xFD),
        gas_lookback_suppressed(byte) <==> byte_hides_gas(byte),
        byte_hides_gas(byte) <==> (0xF1 <= byte <= 0xF4 || byte == 0xFA || byte == 0xFD),
        ext_lookback_suppressed(looked_by, byte) <==> (byte == 0xF3 || byte == 0xFD || (byte == 0x15
            && looked_by == 0x3B)),
{
}

/// The number under a key, and zero where there is none.
pub open spec fn number_under<K>(tally: Map<K, u64>, key: K) -> int {
    if tally.contains_key(key) {
        tally[key] as int
    } else {
        0
    }
}

/// `now` is `before` with `more` added under `key`. An entry comes only with the first count.
pub open spec fn grew_by<K>(before: Map<K, u64>, now: Map<K, u64>, key: K, more: int) -> bool {
    &&& number_under(now, key) == number_under(before, key) + more
    &&& now.contains_key(key) <==> before.contains_key(key) || more > 0
}

/// How much one opcode adds under a byte: one under its own, unless that is `0x5A` or ignored; one
/// under `0x5A`, where the opcode before it was that and it does not hide it.
pub open spec fn added_by_opcode(last: Option<u8>, opcode: u8, byte: u8) -> int {
    if byte == 0x5A {
        if last == Some(0x5Au8) && !byte_hides_gas(opcode) {
            1
        } else {
            0
        }
    } else if byte == opcode && !byte_is_ignored(byte) {
        1
    } else {
        0
    }
}

/// An opcode changes the tally and the looks at code of the innermost scope alone. A pending look
/// is recorded, unless the opcode ends the call (`0xF3`, `0xFD`), or is `0x15` after a look by
/// `0x3B`. Afterwards nothing is pending, and the opcode is the last one.
pub proof fn lemma_opcode_step(tracer: TracerView, opcode: u8, byte: u8)
    requires
        tracer.active,
        tracer.stack.len() > 0,
        number_under(tracer.stack.last().used_opcodes, byte) < u64::MAX,
    ensures
        ({
            let now = tracer.on_opcode(opcode);
            let n = tracer.stack.len() - 1;
            let before = tracer.stack[n];
            let record = now.stack[n];
            &&& now.active
            &&& now.frames == tracer.frames
            &&& now.current == tracer.current
            &&& now.preimages == tracer.preimages
            &&& now.last_opcode == Some(opcode)
            &&& now.last_ext is None
            &&& same_outer_scopes(now, tracer)
            &&& grew_by(
                before.used_opcodes,
                record.used_opcodes,
                byte,
                added_by_opcode(tracer.last_opcode, opcode, byte),
            )
            &&& record.ext_code == match tracer.last_ext {
                Some((by, account)) => if opcode != 0xF3 && opcode != 0xFD && !(by == 0x3B && opcode
                    == 0x15) {
                    before.ext_code.push(account)
                } else {
                    before.ext_code
                },
                None => before.ext_code,
            }
            &&& holds_all_of(
                FrameView {
                    used_opcodes: before.used_opcodes,
                    ext_code: before.ext_code,
                    ..record
                },
                before,
            )
            &&& record.out_of_gas == before.out_of_gas
        }),
{
}

/// Where no scope is open, an opcode is remembered as the last one and recorded nowhere; a
/// collector that is off does not remember it either.
pub proof fn lemma_opcode_outside_of_scopes(tracer: TracerView, opcode: u8)
    ensures
        !tracer.active ==> tracer.on_opcode(opcode) == tracer,
        tracer.active && tracer.stack.len() == 0 ==> {
            let now = tracer.on_opcode(opcode);
            &&& now.active
            &&& now.frames == tracer.frames
            &&& now.stack.len() == 0
            &&& now.current == tracer.current
            &&& now.preimages == tracer.preimages
            &&& now.last_opcode == Some(opcode)
            &&& now.last_ext is None
        },
{
}

/// How often, in a run of opcodes, a `0x5A` is followed by a byte that does not hide it, `last`
/// being the opcode before the run.
pub open spec fn gas_uses(last: Option<u8>, opcodes: Seq<u8>) -> int
    decreases opcodes.len(),
{
    if opcodes.len() == 0 {
        0
    } else {
        let before = if opcodes.len() == 1 {
            last
        } else {
            Some(opcodes[opcodes.len() - 2])
        };
        gas_uses(last, opcodes.drop_last()) + if before == Some(0x5Au8) && !byte_hides_gas(
            opcodes.last(),
        ) {
            1int
        } else {
            0int
        }
    }
}

/// After a run of opcodes in a scope, each byte other than `0x5A` that is not ignored is counted as
/// often as it occurs; an ignored one gets no entry; `0x5A` is counted as often as a byte follows
/// it that does not hide it.
pub proof fn lemma_run_counts_by_byte(tracer: TracerView, opcodes: Seq<u8>, byte: u8)
    requires
        tracer.active,
        tracer.stack.len() > 0,
        number_under(tracer.stack.last().used_opcodes, byte) + opcodes.len() <= u64::MAX,
    ensures
        ({
            let now = run_opcodes(tracer, opcodes);
            let before = tracer.stack.last().used_opcodes;
            let tally = now.stack.last().used_opcodes;
            &&& now.active
            &&& now.stack.len() == tracer.stack.len()
            &&& now.last_opcode == if opcodes.len() == 0 {
                tracer.last_opcode
            } else {
                Some(opcodes.last())
            }
            &&& byte != 0x5A && byte_is_ignored(byte) ==> grew_by(before, tally, byte, 0)
            &&& byte != 0x5A && !byte_is_ignored(byte) ==> grew_by(
                before,
                tally,
                byte,
                occurrences(opcodes, byte) as int,
            )
            &&& byte == 0x5A ==> grew_by(
                before,
                tally,
                byte,
                gas_uses(tracer.last_opcode, opcodes),
            )
            &&& 0 <= gas_uses(tracer.last_opcode, opcodes) <= opcodes.len()
            &&& occurrences(opcodes, byte) <= opcodes.len()
        }),
    decreases opcodes.len(),
{
    if opcodes.len() > 0 {
        let earlier = opcodes.drop_last();
        lemma_run_counts_by_byte(tracer, earlier, byte);
        let middle = run_opcodes(tracer, earlier);
        lemma_opcode_step(middle, opcodes.last(), byte);
        assert(opcodes.len() > 1 ==> earlier.last() == opcodes[opcodes.len() - 2]);
    }
}

/// A collector has room for an opcode exactly where no number that the opcode adds to is at its
/// greatest value.
pub proof fn lemma_room_for_an_opcode(tracer: TracerView, opcode: u8)
    ensures
        tracer.opcode_room(opcode) <==> (tracer.active && tracer.stack.len() > 0 ==> {
            let tally = tracer.stack.last().used_opcodes;
            &&& added_by_opcode(tracer.last_opcode, opcode, 0x5A) == 1 ==> number_under(tally, 0x5Au8)
                < u64::MAX
            &&& added_by_opcode(tracer.last_opcode, opcode, opcode) == 1 && opcode != 0x5A
                ==> number_under(tally, opcode) < u64::MAX
        }),
{
}

/// A look at the code of an account is pending after it was noted, with the opcode that looked, in
/// place of what was pending.
pub proof fn lemma_look_is_pending(tracer: TracerView, opcode: u8, account: Address)
    ensures
        ({
            let now = tracer.on_ext_opcode(opcode, account);
            &&& now.last_ext == if tracer.active {
                Some((opcode, account))
            } else {
                tracer.last_ext
            }
            &&& now.active == tracer.active
            &&& now.frames == tracer.frames
            &&& now.stack == tracer.stack
            &&& now.current == tracer.current
            &&& now.preimages == tracer.preimages
            &&& now.last_opcode == tracer.last_opcode
        }),
{
}

/// The value of a slot is asked for by `0x54` alone, and exactly where the innermost scope has
/// neither read nor written the slot. It is then all that is recorded of the slot's reads, and
/// nothing else changes.
pub proof fn lemma_first_read_step(tracer: TracerView, opcode: u8, slot: H256, value: H256)
    ensures
        tracer.wants_slot_value(opcode, slot) <==> {
            &&& tracer.active
            &&& tracer.stack.len() > 0
            &&& opcode == 0x54
            &&& !tracer.stack.last().slots.reads.contains_key(slot)
            &&& !tracer.stack.last().slots.writes.contains_key(slot)
        },
        tracer.wants_slot_value(opcode, slot) ==> {
            let now = tracer.slot_read(slot, value);
            let n = tracer.stack.len() - 1;
            let before = tracer.stack[n];
            let record = now.stack[n];
            &&& same_but_stack(now, tracer)
            &&& same_outer_scopes(now, tracer)
            &&& record.slots.reads.contains_key(slot)
            &&& record.slots.reads[slot].len() == 1
            &&& record.slots.reads[slot][0] == value
            &&& forall|other: H256|
                other != slot ==> (#[trigger] record.slots.reads.contains_key(other)
                    <==> before.slots.reads.contains_key(other))
            &&& forall|other: H256|
                other != slot && #[trigger] record.slots.reads.contains_key(other)
                    ==> record.slots.reads[other] == before.slots.reads[other]
            &&& record.slots.writes == before.slots.writes
            &&& record.slots.transient_reads == before.slots.transient_reads
            &&& record.slots.transient_writes == before.slots.transient_writes
            &&& holds_all_of(FrameView { slots: before.slots, ..record }, before)
            &&& record.out_of_gas == before.out_of_gas
        },
{
}

/// A touch of a slot of which no value is asked counts one for that slot among the writes
/// (`0x55`), the transient reads (`0x5C`) or the transient writes (`0x5D`); another opcode counts
/// nothing. Nothing else changes.
pub proof fn lemma_slot_count_step(tracer: TracerView, opcode: u8, slot: H256, other: H256)
    requires
        tracer.active,
        tracer.stack.len() > 0,
        number_under(tracer.stack.last().slots.writes, other) < u64::MAX,
        number_under(tracer.stack.last().slots.transient_reads, other) < u64::MAX,
        number_under(tracer.stack.last().slots.transient_writes, other) < u64::MAX,
    ensures
        ({
            let now = tracer.slot_counted(opcode, slot);
            let n = tracer.stack.len() - 1;
            let before = tracer.stack[n];
            let record = now.stack[n];
            let one = |counts: bool|
                if counts && other == slot {
                    1int
                } else {
                    0int
                };
            &&& same_but_stack(now, tracer)
            &&& same_outer_scopes(now, tracer)
            &&& grew_by(before.slots.writes, record.slots.writes, other, one(opcode == 0x55))
            &&& grew_by(
                before.slots.transient_reads,
                record.slots.transient_reads,
                other,
                one(opcode == 0x5C),
            )
            &&& grew_by(
                before.slots.transient_writes,
                record.slots.transient_writes,
                other,
                one(opcode == 0x5D),
            )
            &&& record.slots.reads == before.slots.reads
            &&& holds_all_of(FrameView { slots: before.slots, ..record }, before)
            &&& record.out_of_gas == before.out_of_gas
        }),
{
}

/// Where no scope is open or the collector is off, a touch of a slot leaves no record. There is
/// room for a touch exactly where the number that it adds to is not at its greatest value.
pub proof fn lemma_slot_touch_elsewhere(tracer: TracerView, opcode: u8, slot: H256)
    ensures
        !(tracer.active && tracer.stack.len() > 0) ==> tracer.slot_counted(opcode, slot) == tracer,
        tracer.slot_room(opcode, slot) <==> (tracer.active && tracer.stack.len() > 0 ==> {
            let slots = tracer.stack.last().slots;
            &&& opcode == 0x55 ==> number_under(slots.writes, slot) < u64::MAX
            &&& opcode == 0x5C ==> number_under(slots.transient_reads, slot) < u64::MAX
            &&& opcode == 0x5D ==> number_under(slots.transient_writes, slot) < u64::MAX
        }),
{
}

/// The code size of an account is asked for exactly where the innermost scope has none of it. It is
/// then recorded with the opcode; other accounts, and all else, stay as they are. Where it is not
/// asked for, nothing changes.
pub proof fn lemma_code_size_step(
    tracer: TracerView,
    opcode: u8,
    account: Address,
    code_len: usize,
)
    ensures
        tracer.wants_code_size(account) <==> {
            &&& tracer.active
            &&& tracer.stack.len() > 0
            &&& !tracer.stack.last().contract_size.contains_key(account)
        },
        !tracer.wants_code_size(account) ==> tracer.code_size(opcode, account, code_len) == tracer,
        tracer.wants_code_size(account) ==> {
            let now = tracer.code_size(opcode, account, code_len);
            let n = tracer.stack.len() - 1;
            let before = tracer.stack[n];
            let record = now.stack[n];
            &&& same_but_stack(now, tracer)
            &&& same_outer_scopes(now, tracer)
            &&& record.contract_size.contains_key(account)
            &&& record.contract_size[account].contract_size == code_len
            &&& record.contract_size[account].opcode == opcode
            &&& forall|other: Address|
                other != account ==> (#[trigger] record.contract_size.contains_key(other)
                    <==> before.contract_size.contains_key(other))
            &&& forall|other: Address|
                other != account && #[trigger] record.contract_size.contains_key(other)
                    ==> record.contract_size[other] == before.contract_size[other]
            &&& holds_all_of(FrameView { contract_size: before.contract_size, ..record }, before)
            &&& record.out_of_gas == before.out_of_gas
        },
{
}

/// A preimage is added to those that were hashed before, and nothing else changes.
pub proof fn lemma_preimage_step(tracer: TracerView, preimage: Seq<u8>, other: Seq<u8>)
    ensures
        !tracer.active ==> tracer.on_keccak(preimage) == tracer,
        tracer.active ==> {
            let now = tracer.on_keccak(preimage);
            &&& now.preimages.contains(other) <==> tracer.preimages.contains(other) || other
                == preimage
            &&& now.active
            &&& now.frames == tracer.frames
            &&& now.stack == tracer.stack
            &&& now.current == tracer.current
            &&& now.last_opcode == tracer.last_opcode
            &&& now.last_ext == tracer.last_ext
        },
{
}

} // verus!
