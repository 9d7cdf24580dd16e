//! What holds of the collector over any number of calls.
use crate::erc7562_tracer::{
    ext_lookback_suppressed, gas_counts, gas_lookback_suppressed, ignored_opcode, initial,
    EntryView, FrameView, TracerView,
};
use crate::keyed::{count, counted};
use crate::opcodes::{opcode_byte, Opcode};
use crate::word::{Address, H256};
use vstd::prelude::*;

verus! {

/// A call of a collector.
pub enum Call {
    BeginFrame(usize),
    Enter(Address, Address),
    /// The end of a scope, and whether its error named an out-of-gas condition.
    Exit(bool),
    Opcode(u8),
    ExtOpcode(u8, Address),
    /// A touch of a slot, and the value that the slot held.
    StorageAccess(u8, H256, H256),
    /// A look at the code of an account, and how long that code is.
    ContractSize(u8, Address, usize),
    Keccak(Seq<u8>),
    Log,
}

/// What a collector holds after a call. A scope that is closed where none is open is refused, and
/// changes nothing.
pub open spec fn after(tracer: TracerView, call: Call) -> TracerView {
    match call {
        Call::BeginFrame(frame_index) => tracer.begin_frame(frame_index),
        Call::Enter(from, to) => tracer.enter(from, to),
        Call::Exit(out_of_gas) => if tracer.in_scope() {
            tracer.exit(out_of_gas)
        } else {
            tracer
        },
        Call::Opcode(opcode) => tracer.on_opcode(opcode),
        Call::ExtOpcode(opcode, address) => tracer.on_ext_opcode(opcode, address),
        Call::StorageAccess(opcode, slot, value) => if tracer.wants_slot_value(opcode, slot) {
            tracer.slot_read(slot, value)
        } else {
            tracer.slot_counted(opcode, slot)
        },
        Call::ContractSize(opcode, address, code_len) => tracer.code_size(
            opcode,
            address,
            code_len,
        ),
        Call::Keccak(preimage) => tracer.on_keccak(preimage),
        Call::Log => tracer,
    }
}

/// What a collector holds after a list of calls.
pub open spec fn run(tracer: TracerView, calls: Seq<Call>) -> TracerView
    decreases calls.len(),
{
    if calls.len() == 0 {
        tracer
    } else {
        after(run(tracer, calls.drop_last()), calls.last())
    }
}

/// A disabled collector stays as it is, whatever is called.
pub proof fn lemma_disabled_is_inert(tracer: TracerView, calls: Seq<Call>)
    requires
        !tracer.active,
    ensures
        run(tracer, calls) == tracer,
    decreases calls.len(),
{
    if calls.len() > 0 {
        lemma_disabled_is_inert(tracer, calls.drop_last());
    }
}

/// No call switches a collector on or off.
pub proof fn lemma_active_is_kept(tracer: TracerView, calls: Seq<Call>)
    ensures
        run(tracer, calls).active == tracer.active,
    decreases calls.len(),
{
    if calls.len() > 0 {
        lemma_active_is_kept(tracer, calls.drop_last());
    }
}

/// No frame is begun in the calls.
pub open spec fn begins_no_frame(calls: Seq<Call>) -> bool {
    forall|i: int| 0 <= i < calls.len() ==> !((#[trigger] calls[i]) is BeginFrame)
}

proof fn lemma_begins_no_frame_prefix(calls: Seq<Call>)
    requires
        begins_no_frame(calls),
        calls.len() > 0,
    ensures
        begins_no_frame(calls.drop_last()),
        !(calls.last() is BeginFrame),
{
    assert forall|i: int| 0 <= i < calls.drop_last().len() implies !((
    #[trigger] calls.drop_last()[i]) is BeginFrame) by {
        assert(calls[i] == calls.drop_last()[i]);
    }
    assert(calls[calls.len() - 1] == calls.last());
}

/// Where no frame is begun, the frame that was begun last stays the same.
pub proof fn lemma_current_frame_is_kept(tracer: TracerView, calls: Seq<Call>)
    requires
        begins_no_frame(calls),
    ensures
        run(tracer, calls).current == tracer.current,
    decreases calls.len(),
{
    if calls.len() > 0 {
        lemma_begins_no_frame_prefix(calls);
        lemma_current_frame_is_kept(tracer, calls.drop_last());
    }
}

/// A collector that is never told of a frame reports none, whatever scopes it sees: a transaction
/// that has no frames leaves no trace.
pub proof fn lemma_no_frame_begun_no_entry(active: bool, calls: Seq<Call>)
    requires
        begins_no_frame(calls),
    ensures
        run(initial(active), calls).frames == Seq::<EntryView>::empty(),
    decreases calls.len(),
{
    if calls.len() > 0 {
        lemma_begins_no_frame_prefix(calls);
        lemma_current_frame_is_kept(initial(active), calls.drop_last());
        lemma_no_frame_begun_no_entry(active, calls.drop_last());
    }
}

/// What is reported once stays reported, unchanged and in its place.
pub proof fn lemma_entries_are_final(tracer: TracerView, calls: Seq<Call>)
    ensures
        tracer.frames.is_prefix_of(run(tracer, calls).frames),
    decreases calls.len(),
{
    if calls.len() > 0 {
        lemma_entries_are_final(tracer, calls.drop_last());
        let before = run(tracer, calls.drop_last()).frames;
        let now = run(tracer, calls).frames;
        assert(now == before || now == before.push(now.last()));
        assert(tracer.frames.is_prefix_of(now));
    }
}

/// `preimage` is hashed in the calls.
pub open spec fn hashes(calls: Seq<Call>, preimage: Seq<u8>) -> bool {
    exists|i: int| 0 <= i < calls.len() && #[trigger] calls[i] == Call::Keccak(preimage)
}

/// The recorded preimages are exactly what was hashed, in whichever scope and whichever frame, and
/// of whatever length.
pub proof fn lemma_preimages_are_all_kept(tracer: TracerView, calls: Seq<Call>)
    requires
        tracer.active,
    ensures
        forall|preimage: Seq<u8>| #[trigger]
            run(tracer, calls).preimages.contains(preimage) <==> tracer.preimages.contains(preimage)
                || hashes(calls, preimage),
    decreases calls.len(),
{
    if calls.len() > 0 {
        let earlier = calls.drop_last();
        lemma_preimages_are_all_kept(tracer, earlier);
        lemma_active_is_kept(tracer, earlier);
        assert forall|preimage: Seq<u8>| #[trigger]
            run(tracer, calls).preimages.contains(preimage) <==> tracer.preimages.contains(preimage)
                || hashes(calls, preimage) by {
            assert(hashes(calls, preimage) <==> hashes(earlier, preimage) || calls.last()
                == Call::Keccak(preimage)) by {
                if hashes(earlier, preimage) {
                    let i = choose|i: int|
                        0 <= i < earlier.len() && #[trigger] earlier[i] == Call::Keccak(preimage);
                    assert(calls[i] == Call::Keccak(preimage));
                }
                if calls.last() == Call::Keccak(preimage) {
                    assert(calls[calls.len() - 1] == Call::Keccak(preimage));
                }
                if hashes(calls, preimage) {
                    let i = choose|i: int|
                        0 <= i < calls.len() && #[trigger] calls[i] == Call::Keccak(preimage);
                    if i < calls.len() - 1 {
                        assert(earlier[i] == Call::Keccak(preimage));
                    }
                }
            }
        }
    }
}

/// How many scopes the calls leave open beyond those that were.
pub open spec fn depth(calls: Seq<Call>) -> int
    decreases calls.len(),
{
    if calls.len() == 0 {
        0
    } else {
        depth(calls.drop_last()) + match calls.last() {
            Call::Enter(_, _) => 1int,
            Call::Exit(_) => -1int,
            _ => 0int,
        }
    }
}

/// The calls close every scope that they open, and no other.
pub open spec fn balanced(calls: Seq<Call>) -> bool {
    &&& depth(calls) == 0
    &&& stays_inside(calls)
}

/// The calls close no scope that they did not open.
pub open spec fn stays_inside(calls: Seq<Call>) -> bool {
    forall|i: int| 0 <= i <= calls.len() ==> depth(#[trigger] calls.take(i)) >= 0
}

/// Calls that stay inside a scope leave the scopes around it as they are, report nothing, and keep
/// who called whom; they do not mark the scope as one that ran out of gas.
proof fn lemma_inside(tracer: TracerView, calls: Seq<Call>)
    requires
        tracer.in_scope(),
        stays_inside(calls),
    ensures
        ({
            let now = run(tracer, calls);
            let n = tracer.stack.len() as int;
            &&& now.active
            &&& now.stack.len() == n + depth(calls)
            &&& now.stack.take(n - 1) == tracer.stack.take(n - 1)
            &&& now.stack[n - 1].from == tracer.stack[n - 1].from
            &&& now.stack[n - 1].to == tracer.stack[n - 1].to
            &&& now.stack[n - 1].out_of_gas == tracer.stack[n - 1].out_of_gas
            &&& tracer.stack[n - 1].calls.is_prefix_of(now.stack[n - 1].calls)
            &&& now.frames == tracer.frames
        }),
    decreases calls.len(),
{
    assert(calls.take(calls.len() as int) =~= calls);
    if calls.len() > 0 {
        let earlier = calls.drop_last();
        assert forall|i: int| 0 <= i <= earlier.len() implies depth(#[trigger] earlier.take(i))
            >= 0 by {
            assert(earlier.take(i) =~= calls.take(i));
        }
        lemma_inside(tracer, earlier);
        let before = run(tracer, earlier);
        let now = run(tracer, calls);
        let n = tracer.stack.len() as int;
        assert(depth(calls) >= 0);
        assert forall|k: int| 0 <= k < n - 1 implies now.stack[k] == #[trigger] tracer.stack[k] by {
            assert(before.stack.take(n - 1)[k] == tracer.stack.take(n - 1)[k]);
        }
        assert(now.stack.take(n - 1) =~= tracer.stack.take(n - 1));
    }
}

/// A scope that is opened, runs through calls of its own, and is closed.
pub open spec fn scope(
    tracer: TracerView,
    from: Address,
    to: Address,
    body: Seq<Call>,
    out_of_gas: bool,
) -> TracerView {
    after(run(tracer.enter(from, to), body), Call::Exit(out_of_gas))
}

/// A scope that closes inside another becomes its last call, from and to the accounts it was opened
/// with, and marked as out of gas exactly where it closed so; it holds all that was recorded in the
/// scope until then. Nothing else changes in the scopes around it, and nothing is reported.
pub proof fn lemma_inner_scope_nests(
    tracer: TracerView,
    from: Address,
    to: Address,
    body: Seq<Call>,
    out_of_gas: bool,
)
    requires
        tracer.in_scope(),
        balanced(body),
    ensures
        ({
            let now = scope(tracer, from, to, body, out_of_gas);
            let parent = tracer.stack.last();
            let call = now.stack.last().calls.last();
            &&& now.frames == tracer.frames
            &&& now.stack == tracer.stack.drop_last().push(
                FrameView { calls: parent.calls.push(call), ..parent },
            )
            &&& call == (FrameView { out_of_gas, ..run(tracer.enter(from, to), body).stack.last() })
            &&& call.from == from
            &&& call.to == Some(to)
            &&& call.out_of_gas == out_of_gas
        }),
{
    let opened = tracer.enter(from, to);
    let n = tracer.stack.len() as int;
    lemma_inside(opened, body);
    let inside = run(opened, body);
    assert(opened.stack.take(n) =~= tracer.stack);
    assert(inside.stack.drop_last() =~= inside.stack.take(n));
    let now = scope(tracer, from, to, body, out_of_gas);
    let parent = tracer.stack.last();
    let call = now.stack.last().calls.last();
    assert(inside.stack.drop_last() =~= tracer.stack);
    assert(now.stack =~= tracer.stack.update(
        n - 1,
        FrameView { calls: parent.calls.push(call), ..parent },
    ));
    assert(now.stack =~= tracer.stack.drop_last().push(
        FrameView { calls: parent.calls.push(call), ..parent },
    ));
}

/// The calls that a scope has made stay in its record, in their order, whatever happens inside the
/// scope later, and the scopes around it stay as they are.
pub proof fn lemma_closed_calls_stay(tracer: TracerView, calls: Seq<Call>)
    requires
        tracer.in_scope(),
        stays_inside(calls),
    ensures
        ({
            let now = run(tracer, calls);
            let n = tracer.stack.len() - 1;
            &&& now.stack.len() > n
            &&& forall|i: int| 0 <= i < n ==> #[trigger] now.stack[i] == tracer.stack[i]
            &&& now.stack[n].calls.len() >= tracer.stack[n].calls.len()
            &&& forall|i: int|
                0 <= i < tracer.stack[n].calls.len() ==> #[trigger] now.stack[n].calls[i]
                    == tracer.stack[n].calls[i]
        }),
{
    lemma_inside(tracer, calls);
    assert(calls.take(calls.len() as int) =~= calls);
    let now = run(tracer, calls);
    let n = tracer.stack.len() - 1;
    assert forall|i: int| 0 <= i < n implies #[trigger] now.stack[i] == tracer.stack[i] by {
        assert(now.stack.take(n)[i] == tracer.stack.take(n)[i]);
    }
    let kept = tracer.stack[n].calls;
    assert forall|i: int| 0 <= i < kept.len() implies #[trigger] now.stack[n].calls[i]
        == kept[i] by {
        assert(now.stack[n].calls.take(kept.len() as int)[i] == kept[i]);
    }
}

/// An outermost scope of a frame becomes one entry, under the index with which the frame was begun
/// and from and to the accounts that the scope was opened with, marked as out of gas exactly where
/// it closed so; it holds all that was recorded in the scope until then. No scope stays open.
pub proof fn lemma_outermost_scope_is_reported(
    tracer: TracerView,
    from: Address,
    to: Address,
    body: Seq<Call>,
    out_of_gas: bool,
)
    requires
        tracer.active,
        tracer.stack.len() == 0,
        tracer.current is Some,
        balanced(body),
        begins_no_frame(body),
    ensures
        ({
            let now = scope(tracer, from, to, body, out_of_gas);
            let entry = now.frames.last();
            &&& now.active
            &&& now.stack.len() == 0
            &&& now.frames == tracer.frames.push(entry)
            &&& entry.frame_index == tracer.current->0
            &&& entry.root == (FrameView {
                out_of_gas,
                ..run(tracer.enter(from, to), body).stack.last()
            })
            &&& entry.root.from == from
            &&& entry.root.to == Some(to)
            &&& entry.root.out_of_gas == out_of_gas
        }),
{
    let opened = tracer.enter(from, to);
    lemma_inside(opened, body);
    lemma_current_frame_is_kept(opened, body);
}

/// One frame of a transaction: its index, and the scope that it runs in.
pub struct Script {
    pub frame_index: usize,
    pub from: Address,
    pub to: Address,
    pub body: Seq<Call>,
    pub out_of_gas: bool,
}

/// The scope of the frame closes what it opens, and begins no other frame.
pub open spec fn is_frame(script: Script) -> bool {
    balanced(script.body) && begins_no_frame(script.body)
}

/// What a collector holds after the frames of a transaction.
pub open spec fn run_frames(tracer: TracerView, scripts: Seq<Script>) -> TracerView
    decreases scripts.len(),
{
    if scripts.len() == 0 {
        tracer
    } else {
        let script = scripts.last();
        scope(
            run_frames(tracer, scripts.drop_last()).begin_frame(script.frame_index),
            script.from,
            script.to,
            script.body,
            script.out_of_gas,
        )
    }
}

/// A transaction leaves exactly one entry for each of its frames, in their order.
pub proof fn lemma_one_entry_per_frame(tracer: TracerView, scripts: Seq<Script>)
    requires
        tracer.active,
        tracer.stack.len() == 0,
        forall|i: int| 0 <= i < scripts.len() ==> is_frame(#[trigger] scripts[i]),
    ensures
        ({
            let now = run_frames(tracer, scripts);
            let n = tracer.frames.len() as int;
            &&& now.active
            &&& now.stack.len() == 0
            &&& now.frames.len() == n + scripts.len()
            &&& now.frames.take(n) == tracer.frames
            &&& forall|i: int|
                0 <= i < scripts.len() ==> {
                    &&& (#[trigger] now.frames[n + i]).frame_index == scripts[i].frame_index
                    &&& now.frames[n + i].root.from == scripts[i].from
                    &&& now.frames[n + i].root.to == Some(scripts[i].to)
                    &&& now.frames[n + i].root.out_of_gas == scripts[i].out_of_gas
                }
        }),
    decreases scripts.len(),
{
    let n = tracer.frames.len() as int;
    if scripts.len() > 0 {
        let earlier = scripts.drop_last();
        let script = scripts.last();
        assert forall|i: int| 0 <= i < earlier.len() implies is_frame(#[trigger] earlier[i]) by {
            assert(earlier[i] == scripts[i]);
        }
        lemma_one_entry_per_frame(tracer, earlier);
        let before = run_frames(tracer, earlier);
        assert(is_frame(scripts[scripts.len() - 1]));
        lemma_outermost_scope_is_reported(
            before.begin_frame(script.frame_index),
            script.from,
            script.to,
            script.body,
            script.out_of_gas,
        );
        let now = run_frames(tracer, scripts);
        assert forall|i: int| 0 <= i < scripts.len() implies {
            &&& (#[trigger] now.frames[n + i]).frame_index == scripts[i].frame_index
            &&& now.frames[n + i].root.from == scripts[i].from
            &&& now.frames[n + i].root.to == Some(scripts[i].to)
            &&& now.frames[n + i].root.out_of_gas == scripts[i].out_of_gas
        } by {
            if i < earlier.len() {
                assert(now.frames[n + i] == before.frames[n + i]);
                assert(earlier[i] == scripts[i]);
            }
        }
        assert(now.frames.take(n) =~= before.frames.take(n));
    } else {
        assert(tracer.frames.take(n) =~= tracer.frames);
    }
}

/// What a collector holds after a run of opcodes.
pub open spec fn run_opcodes(tracer: TracerView, opcodes: Seq<u8>) -> TracerView
    decreases opcodes.len(),
{
    if opcodes.len() == 0 {
        tracer
    } else {
        run_opcodes(tracer, opcodes.drop_last()).on_opcode(opcodes.last())
    }
}

/// How often `opcode` occurs.
pub open spec fn occurrences(opcodes: Seq<u8>, opcode: u8) -> nat
    decreases opcodes.len(),
{
    if opcodes.len() == 0 {
        0
    } else {
        occurrences(opcodes.drop_last(), opcode) + if opcodes.last() == opcode {
            1nat
        } else {
            0nat
        }
    }
}

/// The opcode before the end of a run, `last` being the one before the run.
pub open spec fn last_of(last: Option<u8>, opcodes: Seq<u8>) -> Option<u8> {
    if opcodes.len() == 0 {
        last
    } else {
        Some(opcodes.last())
    }
}

/// How often, in a run, a `GAS` is followed by an opcode that neither calls nor ends the frame,
/// `last` being the opcode before the run.
pub open spec fn gas_reads(last: Option<u8>, opcodes: Seq<u8>) -> nat
    decreases opcodes.len(),
{
    if opcodes.len() == 0 {
        0
    } else {
        let earlier = opcodes.drop_last();
        gas_reads(last, earlier) + if gas_counts(last_of(last, earlier), opcodes.last()) {
            1nat
        } else {
            0nat
        }
    }
}

/// The tally of a scope after a run of opcodes: an opcode that is not ignored is counted as often
/// as it occurs; an ignored one is not counted; `GAS` is counted as often as an opcode follows it
/// that neither calls a contract nor ends the frame. So a `GAS` at the end is not counted.
pub proof fn lemma_tally(tracer: TracerView, opcodes: Seq<u8>, opcode: u8)
    requires
        tracer.in_scope(),
        forall|any: u8|
            #[trigger] count(tracer.stack.last().used_opcodes, any) + opcodes.len() <= u64::MAX,
    ensures
        ({
            let before = tracer.stack.last().used_opcodes;
            let now = run_opcodes(tracer, opcodes);
            let tally = now.stack.last().used_opcodes;
            &&& now.active
            &&& now.stack.len() == tracer.stack.len()
            &&& now.last_opcode == last_of(tracer.last_opcode, opcodes)
            &&& count(tally, opcode) == count(before, opcode) + (if opcode == opcode_byte(
                Opcode::GAS,
            ) {
                gas_reads(tracer.last_opcode, opcodes)
            } else if ignored_opcode(opcode) {
                0
            } else {
                occurrences(opcodes, opcode)
            })
            &&& gas_reads(tracer.last_opcode, opcodes) <= opcodes.len()
            &&& occurrences(opcodes, opcode) <= opcodes.len()
        }),
    decreases opcodes.len(),
{
    if opcodes.len() > 0 {
        let earlier = opcodes.drop_last();
        let before = tracer.stack.last().used_opcodes;
        assert forall|any: u8|
            #[trigger] count(tracer.stack.last().used_opcodes, any) + earlier.len()
                <= u64::MAX by {
            assert(count(tracer.stack.last().used_opcodes, any) + opcodes.len() <= u64::MAX);
        }
        lemma_tally(tracer, earlier, opcode);
        assert(count(tracer.stack.last().used_opcodes, opcode) + opcodes.len() <= u64::MAX);
    }
}

/// A `GAS` alone is not counted. It is counted when the next opcode comes, unless that one calls a
/// contract or ends the frame.
pub proof fn lemma_gas_lookback(tracer: TracerView, opcode: u8)
    requires
        tracer.in_scope(),
        tracer.last_opcode != Some(opcode_byte(Opcode::GAS)),
        count(tracer.stack.last().used_opcodes, opcode_byte(Opcode::GAS)) < u64::MAX,
    ensures
        ({
            let gas = opcode_byte(Opcode::GAS);
            let before = count(tracer.stack.last().used_opcodes, gas);
            let pending = tracer.on_opcode(gas);
            let settled = pending.on_opcode(opcode);
            &&& count(pending.stack.last().used_opcodes, gas) == before
            &&& count(settled.stack.last().used_opcodes, gas) == before + (
            if gas_lookback_suppressed(opcode) {
                0int
            } else {
                1int
            })
        }),
{
}

/// A look at a contract's code is recorded when the next opcode comes, unless that one ends the
/// frame or the look was `EXTCODESIZE` and the opcode is `ISZERO`. It is settled once: the opcode
/// after that records nothing.
pub proof fn lemma_ext_lookback(
    tracer: TracerView,
    looked_by: u8,
    address: Address,
    next: u8,
    later: u8,
)
    requires
        tracer.in_scope(),
    ensures
        ({
            let before = tracer.stack.last().ext_code;
            let pending = tracer.on_ext_opcode(looked_by, address);
            let settled = pending.on_opcode(next);
            &&& pending.stack == tracer.stack
            &&& settled.stack.last().ext_code == (if ext_lookback_suppressed(looked_by, next) {
                before
            } else {
                before.push(address)
            })
            &&& settled.last_ext is None
            &&& settled.on_opcode(later).stack.last().ext_code == settled.stack.last().ext_code
        }),
{
}

/// No scope is opened or closed in the calls.
pub open spec fn same_scope(calls: Seq<Call>) -> bool {
    forall|i: int|
        0 <= i < calls.len() ==> !((#[trigger] calls[i]) is Enter) && !(calls[i] is Exit)
}

proof fn lemma_same_scope_prefix(calls: Seq<Call>)
    requires
        same_scope(calls),
        calls.len() > 0,
    ensures
        same_scope(calls.drop_last()),
        !(calls.last() is Enter),
        !(calls.last() is Exit),
{
    assert forall|i: int| 0 <= i < calls.drop_last().len() implies !((
    #[trigger] calls.drop_last()[i]) is Enter) && !(calls.drop_last()[i] is Exit) by {
        assert(calls[i] == calls.drop_last()[i]);
    }
    assert(calls[calls.len() - 1] == calls.last());
}

/// What a scope keeps of a slot that it read or wrote once does not change any more: the value of
/// the first read stays, a later read overwrites nothing, and a slot that was written first keeps
/// no value.
pub proof fn lemma_first_read_is_kept(tracer: TracerView, calls: Seq<Call>, slot: H256)
    requires
        tracer.in_scope(),
        !tracer.stack.last().slot_untouched(slot),
        same_scope(calls),
    ensures
        ({
            let before = tracer.stack.last().slots;
            let now = run(tracer, calls);
            &&& now.in_scope()
            &&& !now.stack.last().slot_untouched(slot)
            &&& now.stack.last().slots.reads.contains_key(slot) == before.reads.contains_key(slot)
            &&& before.reads.contains_key(slot) ==> now.stack.last().slots.reads[slot]
                == before.reads[slot]
        }),
    decreases calls.len(),
{
    if calls.len() > 0 {
        lemma_same_scope_prefix(calls);
        lemma_first_read_is_kept(tracer, calls.drop_last(), slot);
    }
}

/// The first read of a slot that was not written keeps exactly the value that it found.
pub proof fn lemma_first_read_records(tracer: TracerView, slot: H256, value: H256)
    requires
        tracer.in_scope(),
        tracer.stack.last().slot_untouched(slot),
    ensures
        ({
            let now = after(
                tracer,
                Call::StorageAccess(opcode_byte(Opcode::SLOAD), slot, value),
            );
            &&& now.stack.last().slots.reads == tracer.stack.last().slots.reads.insert(
                slot,
                seq![value],
            )
            &&& !now.stack.last().slot_untouched(slot)
        }),
{
}

/// Every touch of a slot by `SSTORE`, `TLOAD` and `TSTORE` is counted, first or not, and each of
/// the four storage opcodes leaves the records of the three others as they are.
pub proof fn lemma_storage_records_are_independent(
    tracer: TracerView,
    opcode: u8,
    slot: H256,
    value: H256,
)
    requires
        tracer.in_scope(),
    ensures
        ({
            let before = tracer.stack.last().slots;
            let now = after(tracer, Call::StorageAccess(opcode, slot, value)).stack.last().slots;
            &&& now.reads != before.reads ==> opcode == opcode_byte(Opcode::SLOAD)
            &&& now.writes == if opcode == opcode_byte(Opcode::SSTORE) {
                counted(before.writes, slot)
            } else {
                before.writes
            }
            &&& now.transient_reads == if opcode == opcode_byte(Opcode::TLOAD) {
                counted(before.transient_reads, slot)
            } else {
                before.transient_reads
            }
            &&& now.transient_writes == if opcode == opcode_byte(Opcode::TSTORE) {
                counted(before.transient_writes, slot)
            } else {
                before.transient_writes
            }
        }),
{
}

/// The code size that a scope found first stays, with the opcode that asked first, whatever is
/// found later.
pub proof fn lemma_first_code_size_is_kept(tracer: TracerView, calls: Seq<Call>, address: Address)
    requires
        tracer.in_scope(),
        tracer.stack.last().contract_size.contains_key(address),
        same_scope(calls),
    ensures
        ({
            let now = run(tracer, calls);
            &&& now.in_scope()
            &&& now.stack.last().contract_size.contains_key(address)
            &&& now.stack.last().contract_size[address]
                == tracer.stack.last().contract_size[address]
        }),
    decreases calls.len(),
{
    if calls.len() > 0 {
        lemma_same_scope_prefix(calls);
        lemma_first_code_size_is_kept(tracer, calls.drop_last(), address);
    }
}

/// A look at one account records nothing about another.
pub proof fn lemma_code_sizes_are_independent(
    tracer: TracerView,
    opcode: u8,
    address: Address,
    code_len: usize,
    other: Address,
)
    requires
        tracer.in_scope(),
        other != address,
    ensures
        ({
            let before = tracer.stack.last().contract_size;
            let now = tracer.code_size(opcode, address, code_len).stack.last().contract_size;
            &&& now.contains_key(other) == before.contains_key(other)
            &&& before.contains_key(other) ==> now[other] == before[other]
        }),
{
}

/// No counter of a scope is above `limit`.
pub open spec fn counters_within(frame: FrameView, limit: nat) -> bool {
    &&& forall|opcode: u8| #[trigger] count(frame.used_opcodes, opcode) <= limit
    &&& forall|slot: H256| #[trigger] count(frame.slots.writes, slot) <= limit
    &&& forall|slot: H256| #[trigger] count(frame.slots.transient_reads, slot) <= limit
    &&& forall|slot: H256| #[trigger] count(frame.slots.transient_writes, slot) <= limit
}

/// No counter of an open scope is above the number of calls made so far.
proof fn lemma_counters_within_calls(active: bool, calls: Seq<Call>)
    requires
        calls.len() <= u64::MAX,
    ensures
        forall|i: int|
            0 <= i < run(initial(active), calls).stack.len() ==> counters_within(
                #[trigger] run(initial(active), calls).stack[i],
                calls.len(),
            ),
    decreases calls.len(),
{
    if calls.len() > 0 {
        lemma_counters_within_calls(active, calls.drop_last());
        let before = run(initial(active), calls.drop_last());
        let now = run(initial(active), calls);
        let limit = calls.len();
        assert forall|i: int| 0 <= i < now.stack.len() implies counters_within(
            #[trigger] now.stack[i],
            limit,
        ) by {
            if i < before.stack.len() {
                assert(counters_within(before.stack[i], (limit - 1) as nat));
                let old_frame = before.stack[i];
                let frame = now.stack[i];
                assert forall|opcode: u8| #[trigger]
                    count(frame.used_opcodes, opcode) <= limit by {
                    assert(count(old_frame.used_opcodes, opcode) <= limit - 1);
                }
                assert forall|slot: H256| #[trigger] count(frame.slots.writes, slot) <= limit by {
                    assert(count(old_frame.slots.writes, slot) <= limit - 1);
                }
                assert forall|slot: H256| #[trigger]
                    count(frame.slots.transient_reads, slot) <= limit by {
                    assert(count(old_frame.slots.transient_reads, slot) <= limit - 1);
                }
                assert forall|slot: H256| #[trigger]
                    count(frame.slots.transient_writes, slot) <= limit by {
                    assert(count(old_frame.slots.transient_writes, slot) <= limit - 1);
                }
            }
        }
    }
}

/// The counters have room for the next call as long as fewer than `u64::MAX` calls were made.
pub proof fn lemma_counters_have_room(active: bool, calls: Seq<Call>, opcode: u8, slot: H256)
    requires
        calls.len() < u64::MAX,
    ensures
        run(initial(active), calls).opcode_room(opcode),
        run(initial(active), calls).slot_room(opcode, slot),
{
    lemma_counters_within_calls(active, calls);
    let now = run(initial(active), calls);
    if now.in_scope() {
        let top = now.stack[now.stack.len() - 1];
        assert(counters_within(top, calls.len()));
        assert(count(top.used_opcodes, opcode) <= calls.len());
        assert(count(top.used_opcodes, opcode_byte(Opcode::GAS)) <= calls.len());
        assert(count(top.slots.writes, slot) <= calls.len());
        assert(count(top.slots.transient_reads, slot) <= calls.len());
        assert(count(top.slots.transient_writes, slot) <= calls.len());
    }
}

/// No ignored opcode is counted in the call or in any call that it made.
pub open spec fn counts_no_ignored(frame: FrameView) -> bool
    decreases frame,
{
    &&& forall|opcode: u8| #[trigger]
        frame.used_opcodes.contains_key(opcode) ==> !ignored_opcode(opcode)
    &&& forall|i: int|
        0 <= i < frame.calls.len() ==> counts_no_ignored(#[trigger] frame.calls[i])
}

/// Whatever is called, no ignored opcode is ever counted, in no open scope and in no tree that was
/// reported.
pub proof fn lemma_ignored_opcodes_are_never_counted(active: bool, calls: Seq<Call>)
    ensures
        ({
            let now = run(initial(active), calls);
            &&& forall|i: int|
                0 <= i < now.stack.len() ==> counts_no_ignored(#[trigger] now.stack[i])
            &&& forall|i: int|
                0 <= i < now.frames.len() ==> counts_no_ignored((#[trigger] now.frames[i]).root)
        }),
    decreases calls.len(),
{
    if calls.len() > 0 {
        lemma_ignored_opcodes_are_never_counted(active, calls.drop_last());
        let before = run(initial(active), calls.drop_last());
        let now = run(initial(active), calls);
        if before.in_scope() && calls.last() is Exit {
            let top = before.stack.last();
            let closed = FrameView {
                out_of_gas: top.out_of_gas || calls.last()->Exit_0,
                ..top
            };
            assert(counts_no_ignored(before.stack[before.stack.len() - 1]));
            assert(counts_no_ignored(closed));
            if before.stack.len() > 1 {
                let parent = before.stack[before.stack.len() - 2];
                let grown = FrameView { calls: parent.calls.push(closed), ..parent };
                assert(counts_no_ignored(parent));
                assert forall|i: int| 0 <= i < grown.calls.len() implies counts_no_ignored(
                    #[trigger] grown.calls[i],
                ) by {
                    if i < parent.calls.len() {
                        assert(counts_no_ignored(parent.calls[i]));
                    }
                }
                assert(counts_no_ignored(grown));
            }
        } else {
            assert forall|i: int| 0 <= i < now.stack.len() implies counts_no_ignored(
                #[trigger] now.stack[i],
            ) by {
                if i < before.stack.len() {
                    let frame = before.stack[i];
                    assert(counts_no_ignored(frame));
                    assert(now.stack[i].calls == frame.calls);
                }
            }
        }
    }
}

} // verus!
