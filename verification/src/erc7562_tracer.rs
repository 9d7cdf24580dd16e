//! A collector of validation diagnostics, one call tree for each frame of a frame transaction.
//!
//! It records, and forbids nothing: which opcodes a call frame used, which storage slots it
//! touched, whose code it looked at and how large that code was, and what was hashed. What a rule
//! makes of these records is the reader's affair.
use crate::errors::InternalError;
use crate::keyed::{count, counted, BytesSet, KeyMap};
use crate::opcodes::{opcode_byte, Opcode};
use crate::text::{lowercase, ascii_lowercase, names_out_of_gas, says_out_of_gas, to_lowercase};
use crate::word::{Address, H256};
use std::collections::HashMap;
use vstd::prelude::*;
use vstd::utf8::is_ascii_chars;

verus! {

broadcast use vstd::std_specs::hash::group_hash_axioms;

const PUSH0: u8 = 0x5F;

const SWAP16: u8 = 0x9F;

const POP: u8 = 0x50;

const ADD: u8 = 0x01;

const MUL: u8 = 0x02;

const SUB: u8 = 0x03;

const DIV: u8 = 0x04;

const LT: u8 = 0x10;

const GT: u8 = 0x11;

const SLT: u8 = 0x12;

const SGT: u8 = 0x13;

const EQ: u8 = 0x14;

const ISZERO: u8 = 0x15;

const AND: u8 = 0x16;

const OR: u8 = 0x17;

const NOT: u8 = 0x19;

const SHL: u8 = 0x1B;

const SHR: u8 = 0x1C;

const EXTCODESIZE: u8 = 0x3B;

const SLOAD: u8 = 0x54;

const SSTORE: u8 = 0x55;

const GAS: u8 = 0x5A;

const TLOAD: u8 = 0x5C;

const TSTORE: u8 = 0x5D;

const CALL: u8 = 0xF1;

const CALLCODE: u8 = 0xF2;

const RETURN: u8 = 0xF3;

const DELEGATECALL: u8 = 0xF4;

const STATICCALL: u8 = 0xFA;

const REVERT: u8 = 0xFD;

/// What is kept of the storage that a call frame touched.
#[derive(Debug)]
pub struct AccessedSlots {
    pub reads: KeyMap<H256, Vec<H256>>,
    pub writes: KeyMap<H256, u64>,
    pub transient_reads: KeyMap<H256, u64>,
    pub transient_writes: KeyMap<H256, u64>,
}

/// The size of a contract's code, and the opcode that first asked about it.
#[derive(Clone, Copy, Debug)]
pub struct ContractSizeWithOpcode {
    pub contract_size: usize,
    pub opcode: u8,
}

/// What is kept of one call frame, and of the calls that it made.
#[derive(Debug)]
pub struct FrameCallTraceFrame {
    pub from: Address,
    pub to: Option<Address>,
    pub calls: Vec<FrameCallTraceFrame>,
    pub accessed_slots: AccessedSlots,
    pub ext_code_access_info: Vec<Address>,
    pub used_opcodes: HashMap<u8, u64>,
    pub contract_size: KeyMap<Address, ContractSizeWithOpcode>,
    pub out_of_gas: bool,
}

/// The call tree of one frame of a frame transaction.
#[derive(Debug)]
pub struct FrameEntry {
    /// The position of the frame in its transaction.
    pub frame_index: usize,
    pub root: FrameCallTraceFrame,
}

/// What storage a call frame touched.
#[verifier::ext_equal]
pub struct SlotsView {
    pub reads: Map<H256, Seq<H256>>,
    pub writes: Map<H256, u64>,
    pub transient_reads: Map<H256, u64>,
    pub transient_writes: Map<H256, u64>,
}

/// What a call frame did.
#[verifier::ext_equal]
pub struct FrameView {
    pub from: Address,
    pub to: Option<Address>,
    pub calls: Seq<FrameView>,
    pub slots: SlotsView,
    pub ext_code: Seq<Address>,
    pub used_opcodes: Map<u8, u64>,
    pub contract_size: Map<Address, ContractSizeWithOpcode>,
    pub out_of_gas: bool,
}

impl View for AccessedSlots {
    type V = SlotsView;

    open spec fn view(&self) -> SlotsView {
        SlotsView {
            reads: self.reads@.map_values(|values: Vec<H256>| values@),
            writes: self.writes@,
            transient_reads: self.transient_reads@,
            transient_writes: self.transient_writes@,
        }
    }
}

/// The call tree that a record holds.
pub open spec fn frame_view(frame: FrameCallTraceFrame) -> FrameView
    decreases frame,
{
    FrameView {
        from: frame.from,
        to: frame.to,
        calls: Seq::new(
            frame.calls@.len(),
            |i: int|
                if 0 <= i < frame.calls@.len() {
                    frame_view(frame.calls@[i])
                } else {
                    arbitrary()
                },
        ),
        slots: frame.accessed_slots@,
        ext_code: frame.ext_code_access_info@,
        used_opcodes: frame.used_opcodes@,
        contract_size: frame.contract_size@,
        out_of_gas: frame.out_of_gas,
    }
}

impl View for FrameCallTraceFrame {
    type V = FrameView;

    open spec fn view(&self) -> FrameView {
        frame_view(*self)
    }
}

/// The call trees of a list of call frames.
pub open spec fn frame_views(frames: Seq<FrameCallTraceFrame>) -> Seq<FrameView> {
    frames.map_values(|frame: FrameCallTraceFrame| frame@)
}

/// The calls of a frame, as a list of call trees.
proof fn lemma_calls(frame: FrameCallTraceFrame)
    ensures
        frame@.calls == frame_views(frame.calls@),
{
    assert forall|i: int| 0 <= i < frame.calls@.len() implies #[trigger] frame@.calls[i]
        == frame_views(frame.calls@)[i] by {
        assert(frame@.calls[i] == frame.calls@[i]@);
    }
    assert(frame@.calls =~= frame_views(frame.calls@));
}

impl Clone for AccessedSlots {
    fn clone(&self) -> (copy: Self)
        ensures
            copy@ == self@,
    {
        let copy = AccessedSlots {
            reads: self.reads.clone(),
            writes: self.writes.clone(),
            transient_reads: self.transient_reads.clone(),
            transient_writes: self.transient_writes.clone(),
        };
        proof {
            assert forall|slot: H256| #[trigger]
                copy.reads@.contains_key(slot) implies copy.reads@[slot]@
                == self.reads@[slot]@ by {
                assert(copy.reads@[slot]@ =~= self.reads@[slot]@);
            }
            assert(copy@.reads =~= self@.reads);
            assert(copy@.writes =~= self@.writes);
            assert(copy@.transient_reads =~= self@.transient_reads);
            assert(copy@.transient_writes =~= self@.transient_writes);
        }
        copy
    }
}

impl Default for AccessedSlots {
    fn default() -> (slots: Self)
        ensures
            slots@ == empty_slots(),
    {
        let slots = AccessedSlots {
            reads: KeyMap::new(),
            writes: KeyMap::new(),
            transient_reads: KeyMap::new(),
            transient_writes: KeyMap::new(),
        };
        assert(slots@.reads =~= Map::empty());
        slots
    }
}

/// No storage touched.
pub open spec fn empty_slots() -> SlotsView {
    SlotsView {
        reads: Map::empty(),
        writes: Map::empty(),
        transient_reads: Map::empty(),
        transient_writes: Map::empty(),
    }
}

/// A call frame of which nothing is recorded yet.
pub open spec fn fresh_frame(from: Address, to: Address) -> FrameView {
    FrameView {
        from,
        to: Some(to),
        calls: Seq::empty(),
        slots: empty_slots(),
        ext_code: Seq::empty(),
        used_opcodes: Map::empty(),
        contract_size: Map::empty(),
        out_of_gas: false,
    }
}

/// A call frame of which nothing is known but where it came from.
pub open spec fn blank_frame(from: Address) -> FrameView {
    FrameView { to: None, ..fresh_frame(from, from) }
}

impl FrameCallTraceFrame {
    /// A record of a call from `from` to `to`, with nothing in it yet.
    fn open(from: Address, to: Address) -> (frame: Self)
        ensures
            frame@ == fresh_frame(from, to),
    {
        let frame = FrameCallTraceFrame {
            from,
            to: Some(to),
            calls: Vec::new(),
            accessed_slots: AccessedSlots::default(),
            ext_code_access_info: Vec::new(),
            used_opcodes: HashMap::new(),
            contract_size: KeyMap::new(),
            out_of_gas: false,
        };
        assert(frame@.calls =~= Seq::empty());
        frame
    }

    /// A copy of the call tree.
    fn copy(&self) -> (copy: Self)
        ensures
            copy@ == self@,
        decreases self,
    {
        let mut calls: Vec<FrameCallTraceFrame> = Vec::new();
        let mut i: usize = 0;
        while i < self.calls.len()
            invariant
                i <= self.calls@.len(),
                calls@.len() == i,
                forall|j: int| 0 <= j < i ==> (#[trigger] calls@[j])@ == self.calls@[j]@,
            decreases self.calls@.len() - i,
        {
            calls.push(self.calls[i].copy());
            i += 1;
        }
        let copy = FrameCallTraceFrame {
            from: self.from,
            to: self.to,
            calls,
            accessed_slots: self.accessed_slots.clone(),
            ext_code_access_info: self.ext_code_access_info.clone(),
            used_opcodes: self.used_opcodes.clone(),
            contract_size: self.contract_size.clone(),
            out_of_gas: self.out_of_gas,
        };
        proof {
            lemma_calls(copy);
            lemma_calls(*self);
            assert(frame_views(copy.calls@) =~= frame_views(self.calls@));
        }
        assert(copy@.ext_code =~= self@.ext_code);
        assert(copy@.contract_size =~= self@.contract_size);
        copy
    }
}

impl Clone for FrameCallTraceFrame {
    fn clone(&self) -> (copy: Self)
        ensures
            copy@ == self@,
    {
        self.copy()
    }
}

impl Default for FrameCallTraceFrame {
    fn default() -> (frame: Self)
        ensures
            frame@ == blank_frame(frame.from),
            forall|i: int| 0 <= i < 20 ==> frame.from.0@[i] == 0,
    {
        let frame = FrameCallTraceFrame {
            from: Address([0u8; 20]),
            to: None,
            calls: Vec::new(),
            accessed_slots: AccessedSlots::default(),
            ext_code_access_info: Vec::new(),
            used_opcodes: HashMap::new(),
            contract_size: KeyMap::new(),
            out_of_gas: false,
        };
        assert(frame@.calls =~= Seq::empty());
        frame
    }
}

/// The call tree of one frame of a frame transaction.
#[verifier::ext_equal]
pub struct EntryView {
    pub frame_index: usize,
    pub root: FrameView,
}

impl View for FrameEntry {
    type V = EntryView;

    open spec fn view(&self) -> EntryView {
        EntryView { frame_index: self.frame_index, root: self.root@ }
    }
}

impl Clone for FrameEntry {
    fn clone(&self) -> (copy: Self)
        ensures
            copy@ == self@,
    {
        FrameEntry { frame_index: self.frame_index, root: self.root.clone() }
    }
}

impl Default for FrameEntry {
    fn default() -> (entry: Self)
        ensures
            entry.frame_index == 0,
            entry@.root == blank_frame(entry.root.from),
            forall|i: int| 0 <= i < 20 ==> entry.root.from.0@[i] == 0,
    {
        FrameEntry { frame_index: 0, root: FrameCallTraceFrame::default() }
    }
}

/// The entries of a list.
pub open spec fn entry_views(entries: Seq<FrameEntry>) -> Seq<EntryView> {
    entries.map_values(|entry: FrameEntry| entry@)
}

/// The opcodes that are never counted: every push, dup and swap, and sixteen cheap ones.
pub open spec fn ignored_opcode(opcode: u8) -> bool {
    ||| opcode_byte(Opcode::PUSH0) <= opcode <= opcode_byte(Opcode::SWAP16)
    ||| opcode == opcode_byte(Opcode::POP)
    ||| opcode == opcode_byte(Opcode::ADD)
    ||| opcode == opcode_byte(Opcode::SUB)
    ||| opcode == opcode_byte(Opcode::MUL)
    ||| opcode == opcode_byte(Opcode::DIV)
    ||| opcode == opcode_byte(Opcode::EQ)
    ||| opcode == opcode_byte(Opcode::LT)
    ||| opcode == opcode_byte(Opcode::GT)
    ||| opcode == opcode_byte(Opcode::SLT)
    ||| opcode == opcode_byte(Opcode::SGT)
    ||| opcode == opcode_byte(Opcode::SHL)
    ||| opcode == opcode_byte(Opcode::SHR)
    ||| opcode == opcode_byte(Opcode::AND)
    ||| opcode == opcode_byte(Opcode::OR)
    ||| opcode == opcode_byte(Opcode::NOT)
    ||| opcode == opcode_byte(Opcode::ISZERO)
}

/// The opcodes that call another contract. Creating one is not a call.
pub open spec fn call_family(opcode: u8) -> bool {
    ||| opcode == opcode_byte(Opcode::CALL)
    ||| opcode == opcode_byte(Opcode::CALLCODE)
    ||| opcode == opcode_byte(Opcode::DELEGATECALL)
    ||| opcode == opcode_byte(Opcode::STATICCALL)
}

/// The opcodes that end a call frame and hand back data.
pub open spec fn ends_frame(opcode: u8) -> bool {
    opcode == opcode_byte(Opcode::RETURN) || opcode == opcode_byte(Opcode::REVERT)
}

/// Whether an opcode is never counted: every `PUSHx`, `DUPx` and `SWAPx`, which are one range of
/// bytes, and sixteen named ones. `GAS` is not among them: it is counted by a rule of its own.
pub fn is_ignored_opcode(opcode: u8) -> (ignored: bool)
    ensures
        ignored == ignored_opcode(opcode),
{
    (PUSH0 <= opcode && opcode <= SWAP16) || opcode == POP || opcode == ADD || opcode == SUB
        || opcode == MUL || opcode == DIV || opcode == EQ || opcode == LT || opcode == GT || opcode
        == SLT || opcode == SGT || opcode == SHL || opcode == SHR || opcode == AND || opcode == OR
        || opcode == NOT || opcode == ISZERO
}

/// Whether an opcode calls another contract: exactly `CALL`, `CALLCODE`, `DELEGATECALL` and
/// `STATICCALL`.
pub fn is_call_family(opcode: u8) -> (call: bool)
    ensures
        call == call_family(opcode),
{
    opcode == CALL || opcode == CALLCODE || opcode == DELEGATECALL || opcode == STATICCALL
}

/// Whether an opcode ends a call frame and hands back data: `RETURN` and `REVERT`.
fn is_return_or_revert(opcode: u8) -> (ends: bool)
    ensures
        ends == ends_frame(opcode),
{
    opcode == RETURN || opcode == REVERT
}

/// A `GAS` before this opcode is not counted: the opcode forwards the gas to a callee, or ends
/// the frame.
pub open spec fn gas_lookback_suppressed(opcode: u8) -> bool {
    call_family(opcode) || ends_frame(opcode)
}

/// A look at a contract's code by `looked_by` is not recorded when this opcode follows: the frame
/// ends, or the look was the idiom that asks whether there is any code.
pub open spec fn ext_lookback_suppressed(looked_by: u8, opcode: u8) -> bool {
    ||| ends_frame(opcode)
    ||| looked_by == opcode_byte(Opcode::EXTCODESIZE) && opcode == opcode_byte(Opcode::ISZERO)
}

/// A log entry that a contract emitted.
#[derive(Clone, Debug)]
pub struct Log {
    pub address: Address,
    pub topics: Vec<H256>,
    pub data: Vec<u8>,
}

/// The collector.
///
/// `disabled` makes one that ignores every call, `new` one that collects.
#[derive(Debug)]
pub struct Erc7562FrameTracer {
    pub active: bool,
    pub frames: Vec<FrameEntry>,
    /// The open call scopes of the frame that is running, the innermost last.
    call_stack: Vec<FrameCallTraceFrame>,
    /// The frame that `begin_frame` named last; none before its first call.
    current_frame_index: Option<usize>,
    /// Everything that was hashed, in whichever frame.
    keccak_preimages: BytesSet,
    last_opcode: Option<u8>,
    /// The last look at a contract's code, until the next opcode decides about it.
    last_ext_access: Option<(u8, Address)>,
}

/// What a collector holds.
#[verifier::ext_equal]
pub struct TracerView {
    pub active: bool,
    pub frames: Seq<EntryView>,
    pub stack: Seq<FrameView>,
    pub current: Option<usize>,
    pub preimages: Set<Seq<u8>>,
    pub last_opcode: Option<u8>,
    pub last_ext: Option<(u8, Address)>,
}

/// A collector that holds nothing yet.
pub open spec fn initial(active: bool) -> TracerView {
    TracerView {
        active,
        frames: Seq::empty(),
        stack: Seq::empty(),
        current: None,
        preimages: Set::empty(),
        last_opcode: None,
        last_ext: None,
    }
}

impl FrameView {
    /// The frame, after `opcode` came when the opcode before it was `last_opcode` and the look at
    /// code that was pending was `last_ext`.
    pub open spec fn on_opcode(
        self,
        opcode: u8,
        last_opcode: Option<u8>,
        last_ext: Option<(u8, Address)>,
    ) -> FrameView {
        let gas = opcode_byte(Opcode::GAS);
        let with_gas = if gas_counts(last_opcode, opcode) {
            counted(self.used_opcodes, gas)
        } else {
            self.used_opcodes
        };
        FrameView {
            ext_code: match last_ext {
                Some((looked_by, address)) if !ext_lookback_suppressed(looked_by, opcode) =>
                    self.ext_code.push(address),
                _ => self.ext_code,
            },
            used_opcodes: if opcode_counts(opcode) {
                counted(with_gas, opcode)
            } else {
                with_gas
            },
            ..self
        }
    }

    /// The frame, after a touch of a storage slot that keeps no value.
    pub open spec fn slot_counted(self, opcode: u8, slot: H256) -> FrameView {
        let slots = self.slots;
        FrameView {
            slots: if opcode == opcode_byte(Opcode::SSTORE) {
                SlotsView { writes: counted(slots.writes, slot), ..slots }
            } else if opcode == opcode_byte(Opcode::TLOAD) {
                SlotsView { transient_reads: counted(slots.transient_reads, slot), ..slots }
            } else if opcode == opcode_byte(Opcode::TSTORE) {
                SlotsView { transient_writes: counted(slots.transient_writes, slot), ..slots }
            } else {
                slots
            },
            ..self
        }
    }

    /// The frame, after the first read of a storage slot found `value`.
    pub open spec fn slot_read(self, slot: H256, value: H256) -> FrameView {
        FrameView {
            slots: SlotsView { reads: self.slots.reads.insert(slot, seq![value]), ..self.slots },
            ..self
        }
    }

    /// The storage slot was neither read nor written in this frame.
    pub open spec fn slot_untouched(self, slot: H256) -> bool {
        !self.slots.reads.contains_key(slot) && !self.slots.writes.contains_key(slot)
    }

    /// The frame, after the code of `address` was first found to be `contract_size` long.
    pub open spec fn size_recorded(
        self,
        opcode: u8,
        address: Address,
        contract_size: usize,
    ) -> FrameView {
        FrameView {
            contract_size: self.contract_size.insert(
                address,
                ContractSizeWithOpcode { contract_size, opcode },
            ),
            ..self
        }
    }

    /// The counters that `opcode` increases are below their greatest value.
    pub open spec fn opcode_room(self, opcode: u8, last_opcode: Option<u8>) -> bool {
        &&& gas_counts(last_opcode, opcode) ==> count(
            self.used_opcodes,
            opcode_byte(Opcode::GAS),
        ) < u64::MAX
        &&& opcode_counts(opcode) ==> count(self.used_opcodes, opcode) < u64::MAX
    }

    /// The counter that a touch of `slot` by `opcode` increases is below its greatest value.
    pub open spec fn slot_room(self, opcode: u8, slot: H256) -> bool {
        &&& opcode == opcode_byte(Opcode::SSTORE) ==> count(self.slots.writes, slot) < u64::MAX
        &&& opcode == opcode_byte(Opcode::TLOAD) ==> count(self.slots.transient_reads, slot)
            < u64::MAX
        &&& opcode == opcode_byte(Opcode::TSTORE) ==> count(self.slots.transient_writes, slot)
            < u64::MAX
    }
}

/// The opcode is counted when it comes.
pub open spec fn opcode_counts(opcode: u8) -> bool {
    opcode != opcode_byte(Opcode::GAS) && !ignored_opcode(opcode)
}

/// A `GAS` that came just before `opcode` is counted now.
pub open spec fn gas_counts(last_opcode: Option<u8>, opcode: u8) -> bool {
    last_opcode == Some(opcode_byte(Opcode::GAS)) && !gas_lookback_suppressed(opcode)
}

impl TracerView {
    /// A call scope is open and recorded.
    pub open spec fn in_scope(self) -> bool {
        self.active && self.stack.len() > 0
    }

    /// The collector with `frame` in place of the innermost open scope.
    pub open spec fn with_top(self, frame: FrameView) -> TracerView {
        TracerView { stack: self.stack.update(self.stack.len() - 1, frame), ..self }
    }

    pub open spec fn begin_frame(self, frame_index: usize) -> TracerView {
        if self.active {
            TracerView { current: Some(frame_index), ..self }
        } else {
            self
        }
    }

    pub open spec fn enter(self, from: Address, to: Address) -> TracerView {
        if self.active {
            TracerView { stack: self.stack.push(fresh_frame(from, to)), ..self }
        } else {
            self
        }
    }

    /// The collector after its innermost scope closed, by running out of gas or otherwise: the
    /// scope becomes a call of the one around it; an outermost one becomes the tree of the frame
    /// that was begun last, and is dropped where none was.
    pub open spec fn exit(self, out_of_gas: bool) -> TracerView
        recommends
            self.in_scope(),
    {
        let top = self.stack.last();
        let closed = FrameView { out_of_gas: top.out_of_gas || out_of_gas, ..top };
        let rest = self.stack.drop_last();
        if rest.len() > 0 {
            let parent = rest.last();
            TracerView {
                stack: rest.update(
                    rest.len() - 1,
                    FrameView { calls: parent.calls.push(closed), ..parent },
                ),
                ..self
            }
        } else {
            TracerView {
                stack: rest,
                frames: match self.current {
                    Some(frame_index) => self.frames.push(EntryView { frame_index, root: closed }),
                    None => self.frames,
                },
                ..self
            }
        }
    }

    pub open spec fn on_opcode(self, opcode: u8) -> TracerView {
        if !self.active {
            self
        } else {
            TracerView {
                stack: if self.stack.len() > 0 {
                    self.stack.update(
                        self.stack.len() - 1,
                        self.stack.last().on_opcode(opcode, self.last_opcode, self.last_ext),
                    )
                } else {
                    self.stack
                },
                last_opcode: Some(opcode),
                last_ext: None,
                ..self
            }
        }
    }

    /// The counters that `opcode` increases are below their greatest value.
    pub open spec fn opcode_room(self, opcode: u8) -> bool {
        self.in_scope() ==> self.stack.last().opcode_room(opcode, self.last_opcode)
    }

    pub open spec fn on_ext_opcode(self, opcode: u8, address: Address) -> TracerView {
        if self.active {
            TracerView { last_ext: Some((opcode, address)), ..self }
        } else {
            self
        }
    }

    /// A touch of `slot` by `opcode` is the first read of it, so that its value is recorded.
    pub open spec fn wants_slot_value(self, opcode: u8, slot: H256) -> bool {
        &&& self.in_scope()
        &&& opcode == opcode_byte(Opcode::SLOAD)
        &&& self.stack.last().slot_untouched(slot)
    }

    /// The collector after a touch of a storage slot of which no value is recorded.
    pub open spec fn slot_counted(self, opcode: u8, slot: H256) -> TracerView {
        if self.in_scope() {
            self.with_top(self.stack.last().slot_counted(opcode, slot))
        } else {
            self
        }
    }

    /// The collector after the first read of a storage slot found `value`.
    pub open spec fn slot_read(self, slot: H256, value: H256) -> TracerView {
        self.with_top(self.stack.last().slot_read(slot, value))
    }

    /// The counter that a touch of `slot` by `opcode` increases is below its greatest value.
    pub open spec fn slot_room(self, opcode: u8, slot: H256) -> bool {
        self.in_scope() ==> self.stack.last().slot_room(opcode, slot)
    }

    /// The size of the code of `address` is not recorded yet in the innermost scope.
    pub open spec fn wants_code_size(self, address: Address) -> bool {
        self.in_scope() && !self.stack.last().contract_size.contains_key(address)
    }

    /// The collector after the code of `address` was asked about by `opcode` and, where the answer
    /// was wanted, found to be `code_len` long.
    pub open spec fn code_size(self, opcode: u8, address: Address, code_len: usize) -> TracerView {
        if self.wants_code_size(address) {
            self.with_top(self.stack.last().size_recorded(opcode, address, code_len))
        } else {
            self
        }
    }

    pub open spec fn on_keccak(self, preimage: Seq<u8>) -> TracerView {
        if self.active {
            TracerView { preimages: self.preimages.insert(preimage), ..self }
        } else {
            self
        }
    }
}

impl View for Erc7562FrameTracer {
    type V = TracerView;

    closed spec fn view(&self) -> TracerView {
        TracerView {
            active: self.active,
            frames: entry_views(self.frames@),
            stack: frame_views(self.call_stack@),
            current: self.current_frame_index,
            preimages: self.keccak_preimages@,
            last_opcode: self.last_opcode,
            last_ext: self.last_ext_access,
        }
    }
}

/// A collector shows whether it is active, and its entries and open scopes one by one and in their
/// order.
proof fn lemma_collector_shows_its_entries(tracer: Erc7562FrameTracer)
    ensures
        tracer@.active == tracer.active,
        tracer@.frames.len() == tracer.frames@.len(),
        forall|i: int|
            0 <= i < tracer.frames@.len() ==> #[trigger] tracer@.frames[i] == tracer.frames@[i]@,
        tracer@.stack.len() == tracer.call_stack@.len(),
        forall|i: int|
            0 <= i < tracer.call_stack@.len() ==> #[trigger] tracer@.stack[i]
                == tracer.call_stack@[i]@,
{
}

/// An error text, if there is one, names an out-of-gas condition, in whatever letter case.
pub open spec fn out_of_gas_error(error: Option<String>) -> bool {
    match error {
        Some(text) => says_out_of_gas(lowercase(text@)),
        None => false,
    }
}

impl Erc7562FrameTracer {
    /// Whether the collector collects.
    pub fn is_active(&self) -> (active: bool)
        ensures
            active == self@.active,
    {
        self.active
    }

    /// The trees of the frames that are complete.
    pub fn frames(&self) -> (frames: &Vec<FrameEntry>)
        ensures
            entry_views(frames@) == self@.frames,
            frames@.len() == self@.frames.len(),
            forall|i: int| 0 <= i < frames@.len() ==> #[trigger] self@.frames[i] == frames@[i]@,
    {
        &self.frames
    }

    /// A collector that ignores every call.
    pub fn disabled() -> (tracer: Self)
        ensures
            tracer@ == initial(false),
    {
        Erc7562FrameTracer::empty(false)
    }

    /// A collector that is ready to collect.
    pub fn new() -> (tracer: Self)
        ensures
            tracer@ == initial(true),
    {
        Erc7562FrameTracer::empty(true)
    }

    fn empty(active: bool) -> (tracer: Self)
        ensures
            tracer@ == initial(active),
    {
        let tracer = Erc7562FrameTracer {
            active,
            frames: Vec::new(),
            call_stack: Vec::new(),
            current_frame_index: None,
            keccak_preimages: BytesSet::new(),
            last_opcode: None,
            last_ext_access: None,
        };
        assert(tracer@ =~= initial(active));
        tracer
    }

    /// Starts a frame of the transaction: the outermost scope that closes next becomes its tree.
    pub fn begin_frame(&mut self, frame_index: usize)
        ensures
            final(self)@ == old(self)@.begin_frame(frame_index),
    {
        if !self.active {
            return;
        }
        self.current_frame_index = Some(frame_index);
    }

    /// Opens a call scope. Input and gas are not recorded.
    pub fn enter(&mut self, from: Address, to: Address, _input: &[u8], _gas: u64)
        ensures
            final(self)@ == old(self)@.enter(from, to),
    {
        if !self.active {
            return;
        }
        self.call_stack.push(FrameCallTraceFrame::open(from, to));
        assert(self@ =~= old(self)@.enter(from, to));
    }

    /// Closes the innermost call scope. Gas and output are not recorded; of the error it is
    /// recorded whether its text names an out-of-gas condition, in whatever letter case.
    pub fn exit(&mut self, _gas_used: u64, _output: Vec<u8>, error: Option<String>) -> (result:
        Result<(), InternalError>)
        ensures
            !old(self)@.active ==> result is Ok && final(self)@ == old(self)@,
            old(self)@.active && old(self)@.stack.len() == 0 ==> result == Err::<(), InternalError>(
                InternalError::CallFrame,
            ) && final(self)@ == old(self)@,
            old(self)@.in_scope() ==> result is Ok && final(self)@ == old(self)@.exit(
                out_of_gas_error(error),
            ),
            old(self)@.in_scope() ==> (error matches Some(text) ==> is_ascii_chars(text@)
                ==> final(self)@ == old(self)@.exit(says_out_of_gas(ascii_lowercase(text@)))),
    {
        if !self.active {
            return Ok(());
        }
        let mut frame = match self.call_stack.pop() {
            Some(frame) => frame,
            None => {
                return Err(InternalError::CallFrame);
            },
        };
        let ghost top = frame;
        let ghost rest = self.call_stack@;
        let named = match &error {
            Some(text) => {
                let lower = to_lowercase(text.as_str());
                names_out_of_gas(lower.as_str())
            },
            None => false,
        };
        if named {
            frame.out_of_gas = true;
        }
        let ghost closed = frame;
        proof {
            lemma_calls(top);
            lemma_calls(closed);
            assert(closed@ == (FrameView { out_of_gas: top@.out_of_gas || named, ..top@ }));
            assert(old(self)@.stack.last() == top@);
            assert(frame_views(rest) =~= old(self)@.stack.drop_last());
        }
        if let Some(parent) = self.call_stack.last_mut() {
            let ghost before = *parent;
            parent.calls.push(frame);
            proof {
                lemma_calls(before);
                lemma_calls(*parent);
                assert(parent@.calls =~= before@.calls.push(closed@));
            }
        } else {
            match self.current_frame_index {
                Some(frame_index) => {
                    self.frames.push(FrameEntry { frame_index, root: frame });
                },
                None => {},
            }
        }
        assert(self@ =~= old(self)@.exit(named));
        Ok(())
    }

    /// Counts an opcode that is about to run in the innermost scope, and settles what the opcode
    /// before it left open.
    ///
    /// A `GAS` is counted late and only if what follows it neither calls a contract nor ends the
    /// frame. A look at a contract's code is recorded late too, unless the frame ends or the look
    /// was `EXTCODESIZE` and the opcode is `ISZERO`.
    pub fn on_opcode(&mut self, opcode: u8)
        requires
            old(self)@.opcode_room(opcode),
        ensures
            final(self)@ == old(self)@.on_opcode(opcode),
    {
        if !self.active {
            return;
        }
        let pending = self.last_ext_access.take();
        let gas_pending = match self.last_opcode {
            Some(last) => last == GAS,
            None => false,
        };
        let count_gas = gas_pending && !is_call_family(opcode) && !is_return_or_revert(opcode);
        let count_opcode = opcode != GAS && !is_ignored_opcode(opcode);
        let ends = is_return_or_revert(opcode);
        if let Some(frame) = self.call_stack.last_mut() {
            let ghost before = *frame;
            if let Some((looked_by, address)) = pending {
                if !ends && !(looked_by == EXTCODESIZE && opcode == ISZERO) {
                    frame.ext_code_access_info.push(address);
                }
            }
            if count_gas {
                let used = frame.used_opcodes.entry(GAS).or_insert(0);
                *used = *used + 1;
            }
            if count_opcode {
                let used = frame.used_opcodes.entry(opcode).or_insert(0);
                *used = *used + 1;
            }
            assert(frame@ =~= before@.on_opcode(opcode, old(self)@.last_opcode, old(self)@.last_ext));
        }
        self.last_opcode = Some(opcode);
        assert(self@ =~= old(self)@.on_opcode(opcode));
    }

    /// Whether the counters that `opcode` would increase are below their greatest value, as
    /// `on_opcode` requires.
    pub fn can_count_opcode(&self, opcode: u8) -> (room: bool)
        ensures
            room == self@.opcode_room(opcode),
    {
        if !self.active || self.call_stack.len() == 0 {
            return true;
        }
        let frame = &self.call_stack[self.call_stack.len() - 1];
        assert(self@.stack.last() == frame@);
        let gas_pending = match self.last_opcode {
            Some(last) => last == GAS,
            None => false,
        };
        if gas_pending && !is_call_family(opcode) && !is_return_or_revert(opcode) {
            if let Some(n) = frame.used_opcodes.get(&GAS) {
                if *n == u64::MAX {
                    return false;
                }
            }
        }
        if opcode != GAS && !is_ignored_opcode(opcode) {
            if let Some(n) = frame.used_opcodes.get(&opcode) {
                if *n == u64::MAX {
                    return false;
                }
            }
        }
        true
    }

    /// Records a touch of a storage slot in the innermost scope.
    ///
    /// `SLOAD` keeps the value that the slot held, and only if the scope neither read nor wrote
    /// the slot before: `original_value` is asked then and at no other time. `SSTORE`, `TLOAD` and
    /// `TSTORE` are each counted by slot. Other opcodes are ignored.
    pub fn on_storage_access<F: FnOnce() -> H256>(
        &mut self,
        opcode: u8,
        slot: H256,
        _address: Address,
        original_value: F,
    )
        requires
            old(self)@.slot_room(opcode, slot),
            old(self)@.wants_slot_value(opcode, slot) ==> original_value.requires(()),
        ensures
            old(self)@.wants_slot_value(opcode, slot) ==> exists|value: H256|
                original_value.ensures((), value) && #[trigger] old(self)@.slot_read(slot, value)
                    == final(self)@,
            !old(self)@.wants_slot_value(opcode, slot) ==> final(self)@ == old(self)@.slot_counted(
                opcode,
                slot,
            ),
    {
        if !self.active {
            return;
        }
        let ghost mut found: Option<H256> = None;
        if let Some(frame) = self.call_stack.last_mut() {
            let ghost before = *frame;
            if opcode == SLOAD {
                if !frame.accessed_slots.reads.contains_key(&slot)
                    && !frame.accessed_slots.writes.contains_key(&slot) {
                    let value = original_value();
                    proof {
                        found = Some(value);
                    }
                    let mut values: Vec<H256> = Vec::new();
                    values.push(value);
                    frame.accessed_slots.reads.insert(slot, values);
                    assert(values@ =~= seq![value]);
                    assert(frame@.slots.reads =~= before@.slots.reads.insert(slot, seq![value]));
                    assert(frame@ =~= before@.slot_read(slot, value));
                }
            } else if opcode == SSTORE {
                frame.accessed_slots.writes.increment(slot);
            } else if opcode == TLOAD {
                frame.accessed_slots.transient_reads.increment(slot);
            } else if opcode == TSTORE {
                frame.accessed_slots.transient_writes.increment(slot);
            }
            assert(found is None ==> frame@ =~= before@.slot_counted(opcode, slot));
            assert(old(self)@.stack.last() == before@);
        }
        proof {
            if old(self)@.wants_slot_value(opcode, slot) {
                let value = found->0;
                assert(old(self)@.slot_read(slot, value) =~= self@);
                assert(original_value.ensures((), value));
            } else {
                assert(self@ =~= old(self)@.slot_counted(opcode, slot));
            }
        }
    }

    /// Whether the counter that a touch of `slot` would increase is below its greatest value, as
    /// `on_storage_access` requires.
    pub fn can_count_slot(&self, opcode: u8, slot: H256) -> (room: bool)
        ensures
            room == self@.slot_room(opcode, slot),
    {
        if !self.active || self.call_stack.len() == 0 {
            return true;
        }
        let frame = &self.call_stack[self.call_stack.len() - 1];
        assert(self@.stack.last() == frame@);
        let seen: Option<&u64> = if opcode == SSTORE {
            frame.accessed_slots.writes.get(&slot)
        } else if opcode == TLOAD {
            frame.accessed_slots.transient_reads.get(&slot)
        } else if opcode == TSTORE {
            frame.accessed_slots.transient_writes.get(&slot)
        } else {
            None
        };
        match seen {
            Some(n) => *n < u64::MAX,
            None => true,
        }
    }

    /// Notes that `opcode` looked at the code of `address`. The next opcode decides whether that
    /// is recorded.
    pub fn on_ext_opcode(&mut self, opcode: u8, address: Address)
        ensures
            final(self)@ == old(self)@.on_ext_opcode(opcode, address),
    {
        if !self.active {
            return;
        }
        self.last_ext_access = Some((opcode, address));
    }

    /// Records how long the code of `address` is and which opcode asked, the first time that the
    /// innermost scope asks. `code_len` is asked then and at no other time.
    pub fn on_contract_size_access<F: FnOnce() -> usize>(
        &mut self,
        opcode: u8,
        address: Address,
        code_len: F,
    )
        requires
            old(self)@.wants_code_size(address) ==> code_len.requires(()),
        ensures
            old(self)@.wants_code_size(address) ==> exists|size: usize|
                code_len.ensures((), size) && #[trigger] old(self)@.code_size(opcode, address, size)
                    == final(self)@,
            !old(self)@.wants_code_size(address) ==> final(self)@ == old(self)@,
    {
        if !self.active {
            return;
        }
        let ghost mut found: Option<usize> = None;
        if let Some(frame) = self.call_stack.last_mut() {
            let ghost before = *frame;
            if !frame.contract_size.contains_key(&address) {
                let contract_size = code_len();
                proof {
                    found = Some(contract_size);
                }
                frame.contract_size.insert(
                    address,
                    ContractSizeWithOpcode { contract_size, opcode },
                );
            }
            assert(old(self)@.stack.last() == before@);
        }
        proof {
            if old(self)@.wants_code_size(address) {
                let size = found->0;
                assert(old(self)@.code_size(opcode, address, size) =~= self@);
                assert(code_len.ensures((), size));
            } else {
                assert(self@ =~= old(self)@);
            }
        }
    }

    /// Records that `preimage` was hashed.
    pub fn on_keccak(&mut self, preimage: Vec<u8>)
        ensures
            final(self)@ == old(self)@.on_keccak(preimage@),
    {
        if !self.active {
            return;
        }
        self.keccak_preimages.insert(preimage);
    }

    /// Everything that was hashed, in whichever call frame and whichever frame of the transaction.
    pub fn keccak_preimages(&self) -> (preimages: &BytesSet)
        ensures
            preimages@ == self@.preimages,
    {
        &self.keccak_preimages
    }

    /// Takes note of a log entry; none is recorded.
    pub fn log(&mut self, _log: &Log) -> (result: Result<(), InternalError>)
        ensures
            result is Ok,
            final(self)@ == old(self)@,
    {
        Ok(())
    }
}

impl Default for Erc7562FrameTracer {
    fn default() -> (tracer: Self)
        ensures
            tracer@ == initial(false),
    {
        Erc7562FrameTracer::disabled()
    }
}

impl Clone for Erc7562FrameTracer {
    fn clone(&self) -> (copy: Self)
        ensures
            copy@ == self@,
    {
        let mut frames: Vec<FrameEntry> = Vec::new();
        let mut i: usize = 0;
        while i < self.frames.len()
            invariant
                i <= self.frames@.len(),
                frames@.len() == i,
                forall|j: int| 0 <= j < i ==> (#[trigger] frames@[j])@ == self.frames@[j]@,
            decreases self.frames@.len() - i,
        {
            frames.push(self.frames[i].clone());
            i += 1;
        }
        let mut call_stack: Vec<FrameCallTraceFrame> = Vec::new();
        let mut k: usize = 0;
        while k < self.call_stack.len()
            invariant
                k <= self.call_stack@.len(),
                call_stack@.len() == k,
                forall|j: int| 0 <= j < k ==> (#[trigger] call_stack@[j])@ == self.call_stack@[j]@,
            decreases self.call_stack@.len() - k,
        {
            call_stack.push(self.call_stack[k].clone());
            k += 1;
        }
        let copy = Erc7562FrameTracer {
            active: self.active,
            frames,
            call_stack,
            current_frame_index: self.current_frame_index,
            keccak_preimages: self.keccak_preimages.clone(),
            last_opcode: self.last_opcode,
            last_ext_access: self.last_ext_access,
        };
        assert(copy@ =~= self@);
        copy
    }
}

} // verus!
