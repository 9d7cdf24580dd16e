//! The instructions that tell a program about its call, its transaction and other accounts.
//!
//! Four of them read the state. Each of these runs up to the point at which it needs an answer, and
//! hands out what it asks for; it goes on when it is given the answer. So a read is asked for only
//! once the gas for it has been paid.
use crate::erc7562_tracer::Erc7562FrameTracer;
use crate::errors::{ExceptionalHalt, OpcodeResult, VMError};
use crate::gas_cost::{access_cost, access_price, copy_cost, copy_price, AccessCost, CopyCost};
use crate::memory::{
    available, calculate_memory_size, lemma_stored_adjacent, memory_end, stored, window, zeros,
    Memory,
};
use crate::opcodes::{opcode_byte, Opcode};
use crate::utils::{range_fits, range_offset, size_offset_to_usize, u256_to_usize};
use crate::vm::{Account, Code, VMView, STACK_LIMIT, VM};
use crate::word::{address_of, be_value, word_to_address, Address, U256};
use vstd::prelude::*;

verus! {

/// How an instruction ends: what the machine holds then, and what comes of it.
#[verifier::ext_equal]
pub struct Outcome {
    pub state: VMView,
    pub result: Result<OpcodeResult, VMError>,
}

/// An instruction that halts the program, with the machine in `state`.
pub open spec fn halts(state: VMView, halt: ExceptionalHalt) -> Outcome {
    Outcome { state, result: Err(VMError::ExceptionalHalt(halt)) }
}

/// An instruction that completes, with the machine in `state`.
pub open spec fn completes(state: VMView) -> Outcome {
    Outcome { state, result: Ok(OpcodeResult::Continue) }
}

/// Putting `word` on the stack.
pub open spec fn pushes(state: VMView, word: nat) -> Outcome {
    if state.frame.stack.len() >= STACK_LIMIT {
        halts(state, ExceptionalHalt::StackOverflow)
    } else {
        completes(state.with_stack(state.frame.stack.push(word)))
    }
}

/// Paying `price` and then putting `word` on the stack.
pub open spec fn pays_and_pushes(state: VMView, price: u64, word: nat) -> Outcome {
    if price > state.frame.gas {
        halts(state, ExceptionalHalt::OutOfGas)
    } else {
        pushes(state.paid(price as nat), word)
    }
}

/// Pays `price` and then puts `word` on the stack.
fn pay_and_push(vm: &mut VM, price: u64, word: U256) -> (result: Result<OpcodeResult, VMError>)
    ensures
        (Outcome { state: final(vm)@, result }) == pays_and_pushes(old(vm)@, price, word@),
{
    vm.current_call_frame.increase_consumed_gas(price)?;
    vm.current_call_frame.stack.push(word)?;
    Ok(OpcodeResult::Continue)
}

/// What `ADDRESS` does.
pub open spec fn address_tells(state: VMView) -> Outcome {
    pays_and_pushes(state, state.env.schedule.address, be_value(state.frame.to.0@))
}

/// The `ADDRESS` instruction.
pub struct OpAddressHandler;

impl OpAddressHandler {
    /// Puts the address of the running account on the stack.
    pub fn eval(vm: &mut VM) -> (result: Result<OpcodeResult, VMError>)
        ensures
            (Outcome { state: final(vm)@, result }) == address_tells(old(vm)@),
    {
        let word = vm.current_call_frame.to.to_word();
        pay_and_push(vm, vm.env.schedule.address, word)
    }
}

/// What `ORIGIN` does.
pub open spec fn origin_tells(state: VMView) -> Outcome {
    pays_and_pushes(state, state.env.schedule.origin, be_value(state.env.origin.0@))
}

/// The `ORIGIN` instruction.
pub struct OpOriginHandler;

impl OpOriginHandler {
    /// Puts the address that the transaction came from on the stack.
    pub fn eval(vm: &mut VM) -> (result: Result<OpcodeResult, VMError>)
        ensures
            (Outcome { state: final(vm)@, result }) == origin_tells(old(vm)@),
    {
        let word = vm.env.origin.to_word();
        pay_and_push(vm, vm.env.schedule.origin, word)
    }
}

/// What `GASPRICE` does.
pub open spec fn gas_price_tells(state: VMView) -> Outcome {
    pays_and_pushes(state, state.env.schedule.gas_price, state.env.gas_price@)
}

/// The `GASPRICE` instruction.
pub struct OpGasPriceHandler;

impl OpGasPriceHandler {
    /// Puts the gas price of the transaction on the stack.
    pub fn eval(vm: &mut VM) -> (result: Result<OpcodeResult, VMError>)
        ensures
            (Outcome { state: final(vm)@, result }) == gas_price_tells(old(vm)@),
    {
        let word = vm.env.gas_price;
        pay_and_push(vm, vm.env.schedule.gas_price, word)
    }
}

/// What `CALLER` does.
pub open spec fn caller_tells(state: VMView) -> Outcome {
    pays_and_pushes(state, state.env.schedule.caller, be_value(state.frame.msg_sender.0@))
}

/// The `CALLER` instruction.
pub struct OpCallerHandler;

impl OpCallerHandler {
    /// Puts the address of the caller on the stack.
    pub fn eval(vm: &mut VM) -> (result: Result<OpcodeResult, VMError>)
        ensures
            (Outcome { state: final(vm)@, result }) == caller_tells(old(vm)@),
    {
        let word = vm.current_call_frame.msg_sender.to_word();
        pay_and_push(vm, vm.env.schedule.caller, word)
    }
}

/// What `CALLVALUE` does.
pub open spec fn call_value_tells(state: VMView) -> Outcome {
    pays_and_pushes(state, state.env.schedule.call_value, state.frame.msg_value)
}

/// The `CALLVALUE` instruction.
pub struct OpCallValueHandler;

impl OpCallValueHandler {
    /// Puts the value that came with the call on the stack.
    pub fn eval(vm: &mut VM) -> (result: Result<OpcodeResult, VMError>)
        ensures
            (Outcome { state: final(vm)@, result }) == call_value_tells(old(vm)@),
    {
        let word = vm.current_call_frame.msg_value;
        pay_and_push(vm, vm.env.schedule.call_value, word)
    }
}

/// What `CALLDATASIZE` does.
pub open spec fn call_data_size_tells(state: VMView) -> Outcome {
    pays_and_pushes(state, state.env.schedule.call_data_size, state.frame.calldata.len())
}

/// The `CALLDATASIZE` instruction.
pub struct OpCallDataSizeHandler;

impl OpCallDataSizeHandler {
    /// Puts the size of the call data on the stack.
    pub fn eval(vm: &mut VM) -> (result: Result<OpcodeResult, VMError>)
        ensures
            (Outcome { state: final(vm)@, result }) == call_data_size_tells(old(vm)@),
    {
        let word = U256::from_usize(vm.current_call_frame.calldata.len());
        pay_and_push(vm, vm.env.schedule.call_data_size, word)
    }
}

/// What `CODESIZE` does.
pub open spec fn code_size_tells(state: VMView) -> Outcome {
    pays_and_pushes(state, state.env.schedule.code_size, state.frame.code.len())
}

/// The `CODESIZE` instruction.
pub struct OpCodeSizeHandler;

impl OpCodeSizeHandler {
    /// Puts the size of the running code on the stack.
    pub fn eval(vm: &mut VM) -> (result: Result<OpcodeResult, VMError>)
        ensures
            (Outcome { state: final(vm)@, result }) == code_size_tells(old(vm)@),
    {
        let word = U256::from_usize(vm.current_call_frame.bytecode.len());
        pay_and_push(vm, vm.env.schedule.code_size, word)
    }
}

/// What `RETURNDATASIZE` does.
pub open spec fn return_data_size_tells(state: VMView) -> Outcome {
    pays_and_pushes(state, state.env.schedule.return_data_size, state.frame.return_data.len())
}

/// The `RETURNDATASIZE` instruction.
pub struct OpReturnDataSizeHandler;

impl OpReturnDataSizeHandler {
    /// Puts the size of what the last call handed back on the stack.
    pub fn eval(vm: &mut VM) -> (result: Result<OpcodeResult, VMError>)
        ensures
            (Outcome { state: final(vm)@, result }) == return_data_size_tells(old(vm)@),
    {
        let word = U256::from_usize(vm.current_call_frame.sub_return_data.len());
        pay_and_push(vm, vm.env.schedule.return_data_size, word)
    }
}

/// What `CALLDATALOAD` does: it replaces the offset on top of the stack by the 32 bytes of call
/// data from there, with zeros past the end.
pub open spec fn call_data_load(state: VMView) -> Outcome {
    let price = state.env.schedule.call_data_load;
    let paid = state.paid(price as nat);
    let stack = state.frame.stack;
    if price > state.frame.gas {
        halts(state, ExceptionalHalt::OutOfGas)
    } else if stack.len() == 0 {
        halts(paid, ExceptionalHalt::StackUnderflow)
    } else {
        completes(
            paid.with_stack(
                stack.drop_last().push(be_value(window(state.frame.calldata, stack.last(), 32))),
            ),
        )
    }
}

/// The `CALLDATALOAD` instruction.
pub struct OpCallDataLoadHandler;

impl OpCallDataLoadHandler {
    /// Replaces an offset by the word of call data there.
    pub fn eval(vm: &mut VM) -> (result: Result<OpcodeResult, VMError>)
        ensures
            (Outcome { state: final(vm)@, result }) == call_data_load(old(vm)@),
    {
        vm.current_call_frame.increase_consumed_gas(vm.env.schedule.call_data_load)?;
        let offset = vm.current_call_frame.stack.pop1()?;
        let word = match offset.to_usize() {
            Some(start) => {
                let data = available(vm.current_call_frame.calldata.as_slice(), start, 32);
                let mut bytes: [u8; 32] = [0u8; 32];
                let mut i: usize = 0;
                while i < data.len()
                    invariant
                        i <= data@.len() <= 32,
                        forall|k: int|
                            0 <= k < 32 ==> bytes@[k] == (if k < i {
                                data@[k]
                            } else {
                                0
                            }),
                    decreases data@.len() - i,
                {
                    bytes[i] = data[i];
                    i += 1;
                }
                assert(bytes@ =~= data@ + zeros((32 - data@.len()) as nat));
                U256::from_big_endian(bytes.as_slice())
            },
            None => {
                proof {
                    let part = window(vm@.frame.calldata, offset@, 32);
                    assert(vm@.frame.calldata.len() == vm.current_call_frame.calldata.len());
                    assert(part =~= zeros(32));
                    crate::word::lemma_be_value_zeros(part);
                }
                U256::zero()
            },
        };
        vm.current_call_frame.stack.push(word)?;
        Ok(OpcodeResult::Continue)
    }
}

/// Copies `len` bytes of `source` from `from`, with zeros past its end, into memory at `at`.
fn copy_into(memory: &mut Memory, at: usize, source: &[u8], from: usize, len: usize) -> (result:
    Result<(), VMError>)
    requires
        memory_end(at as nat, len as nat) <= usize::MAX,
    ensures
        result is Ok,
        final(memory)@ == stored(
            old(memory)@,
            at as nat,
            window(source@, from as nat, len as nat),
        ),
{
    if len > 0 {
        let data = available(source, from, len);
        memory.store_data(at, data)?;
        if data.len() < len {
            memory.store_zeros(at + data.len(), len - data.len())?;
        }
        proof {
            let pad = zeros((len - data@.len()) as nat);
            lemma_stored_adjacent(old(memory)@, at as nat, data@, pad);
            if data@.len() == len {
                assert(data@ + pad =~= data@);
            }
        }
    } else {
        assert(memory@ =~= stored(memory@, at as nat, window(source@, from as nat, 0)));
    }
    Ok(())
}

/// A copy into memory, as a program asks for it.
#[verifier::ext_equal]
pub struct CopyView {
    /// Where in memory the copy goes; zero where nothing is copied.
    pub at: nat,
    /// Where in the source the copy starts.
    pub from: nat,
    pub len: nat,
}

/// The memory after a copy out of `source`.
pub open spec fn copied(memory: Seq<u8>, copy: CopyView, source: Seq<u8>) -> Seq<u8> {
    stored(memory, copy.at, window(source, copy.from, copy.len))
}

/// The copy that the three words at the given depth ask for: where to, where from, how much.
pub open spec fn copy_asked(stack: Seq<nat>, depth: nat) -> CopyView {
    let top = stack.len() - 1 - depth;
    CopyView {
        at: range_offset(stack[top - 2], stack[top]),
        from: stack[top - 1],
        len: stack[top - 2],
    }
}

/// What a copy costs.
pub open spec fn price_of_copy(state: VMView, cost: CopyCost, copy: CopyView) -> nat {
    copy_price(cost, memory_end(copy.at, copy.len), state.frame.memory.len(), copy.len)
}

/// What an instruction that copies out of `source` does: it takes three words (where to, where
/// from, how much), pays for the copy and the memory, and copies, with zeros past the end.
pub open spec fn copies(state: VMView, cost: CopyCost, source: Seq<u8>) -> Outcome {
    let stack = state.frame.stack;
    let copy = copy_asked(stack, 0);
    let taken = state.with_stack(stack.take(stack.len() - 3));
    let price = price_of_copy(state, cost, copy);
    if stack.len() < 3 {
        halts(state, ExceptionalHalt::StackUnderflow)
    } else if !range_fits(copy.len, stack.last()) {
        halts(taken, ExceptionalHalt::VeryLargeNumber)
    } else if memory_end(copy.at, copy.len) > usize::MAX {
        halts(taken, ExceptionalHalt::OutOfBounds)
    } else if price > state.frame.gas {
        halts(taken, ExceptionalHalt::OutOfGas)
    } else {
        completes(taken.paid(price).with_memory(copied(state.frame.memory, copy, source)))
    }
}

/// A source offset that is too large for the machine lies past the end of every source.
proof fn lemma_window_past_end(source: Seq<u8>, from: nat, other: nat, len: nat)
    requires
        source.len() <= from,
        source.len() <= other,
    ensures
        window(source, from, len) == window(source, other, len),
{
    assert(window(source, from, len) =~= window(source, other, len));
}

/// What `CALLDATACOPY` does.
pub open spec fn call_data_copies(state: VMView) -> Outcome {
    copies(state, state.env.schedule.call_data_copy, state.frame.calldata)
}

/// The `CALLDATACOPY` instruction.
pub struct OpCallDataCopyHandler;

impl OpCallDataCopyHandler {
    /// Copies call data into memory.
    pub fn eval(vm: &mut VM) -> (result: Result<OpcodeResult, VMError>)
        ensures
            (Outcome { state: final(vm)@, result }) == call_data_copies(old(vm)@),
    {
        let (dst_offset, src_offset, len) = vm.current_call_frame.stack.pop3()?;
        let (len, dst_offset) = size_offset_to_usize(len, dst_offset)?;
        let from: usize = match src_offset.to_usize() {
            Some(from) => from,
            None => usize::MAX,
        };
        let wanted: usize = calculate_memory_size(dst_offset, len)?;
        let price: u64 = copy_cost(
            vm.env.schedule.call_data_copy,
            wanted,
            vm.current_call_frame.memory.len(),
            len,
        )?;
        vm.current_call_frame.increase_consumed_gas(price)?;
        proof {
            let source = vm@.frame.calldata;
            assert(source.len() == vm.current_call_frame.calldata.len());
            if src_offset@ > usize::MAX {
                lemma_window_past_end(source, src_offset@, from as nat, len as nat);
            }
        }
        copy_into(
            &mut vm.current_call_frame.memory,
            dst_offset,
            vm.current_call_frame.calldata.as_slice(),
            from,
            len,
        )?;
        Ok(OpcodeResult::Continue)
    }
}

/// What `CODECOPY` does.
pub open spec fn code_copies(state: VMView) -> Outcome {
    copies(state, state.env.schedule.code_copy, state.frame.code)
}

/// The `CODECOPY` instruction.
pub struct OpCodeCopyHandler;

impl OpCodeCopyHandler {
    /// Copies the running code into memory.
    pub fn eval(vm: &mut VM) -> (result: Result<OpcodeResult, VMError>)
        ensures
            (Outcome { state: final(vm)@, result }) == code_copies(old(vm)@),
    {
        let (dst_offset, src_offset, len) = vm.current_call_frame.stack.pop3()?;
        let (len, dst_offset) = size_offset_to_usize(len, dst_offset)?;
        let from: usize = match src_offset.to_usize() {
            Some(from) => from,
            None => usize::MAX,
        };
        let wanted: usize = calculate_memory_size(dst_offset, len)?;
        let price: u64 = copy_cost(
            vm.env.schedule.code_copy,
            wanted,
            vm.current_call_frame.memory.len(),
            len,
        )?;
        vm.current_call_frame.increase_consumed_gas(price)?;
        let buffer = vm.current_call_frame.bytecode.dispatch_buf();
        proof {
            if src_offset@ > usize::MAX {
                lemma_window_past_end(old(vm)@.frame.code, src_offset@, from as nat, len as nat);
            }
        }
        copy_into(&mut vm.current_call_frame.memory, dst_offset, buffer, from, len)?;
        Ok(OpcodeResult::Continue)
    }
}

/// What `RETURNDATACOPY` does: it copies like the others, but a range that reaches past the end of
/// what the last call handed back halts the program, once the copy is paid for.
pub open spec fn return_data_copies(state: VMView) -> Outcome {
    let cost = state.env.schedule.return_data_copy;
    let source = state.frame.return_data;
    let stack = state.frame.stack;
    let copy = copy_asked(stack, 0);
    let taken = state.with_stack(stack.take(stack.len() - 3));
    if stack.len() >= 3 && range_fits(copy.len, stack.last()) && copy.from > usize::MAX {
        halts(taken, ExceptionalHalt::VeryLargeNumber)
    } else if copies(state, cost, source).result is Ok && copy.from + copy.len > source.len() {
        halts(taken.paid(price_of_copy(state, cost, copy)), ExceptionalHalt::OutOfBounds)
    } else {
        copies(state, cost, source)
    }
}

/// The `RETURNDATACOPY` instruction.
pub struct OpReturnDataCopyHandler;

impl OpReturnDataCopyHandler {
    /// Copies what the last call handed back into memory.
    pub fn eval(vm: &mut VM) -> (result: Result<OpcodeResult, VMError>)
        ensures
            (Outcome { state: final(vm)@, result }) == return_data_copies(old(vm)@),
    {
        let (dst_offset, src_offset, len) = vm.current_call_frame.stack.pop3()?;
        let (len, dst_offset) = size_offset_to_usize(len, dst_offset)?;
        let from: usize = u256_to_usize(src_offset)?;
        let wanted: usize = calculate_memory_size(dst_offset, len)?;
        let price: u64 = copy_cost(
            vm.env.schedule.return_data_copy,
            wanted,
            vm.current_call_frame.memory.len(),
            len,
        )?;
        vm.current_call_frame.increase_consumed_gas(price)?;
        let have: usize = vm.current_call_frame.sub_return_data.len();
        if from > have || len > have - from {
            return Err(VMError::ExceptionalHalt(ExceptionalHalt::OutOfBounds));
        }
        copy_into(
            &mut vm.current_call_frame.memory,
            dst_offset,
            vm.current_call_frame.sub_return_data.as_slice(),
            from,
            len,
        )?;
        Ok(OpcodeResult::Continue)
    }
}

/// What reaching the account `address` costs.
pub open spec fn price_of_access(state: VMView, cost: AccessCost, address: Address) -> u64 {
    access_price(cost, !state.accessed.contains(address))
}

/// How an instruction that reads the state gets to its question: what the machine holds then, and
/// the question, or why there is none.
#[verifier::ext_equal]
pub struct Asked<Q> {
    pub state: VMView,
    pub result: Result<Q, VMError>,
}

/// An instruction that halts the program before it asks.
pub open spec fn halts_unasked<Q>(state: VMView, halt: ExceptionalHalt) -> Asked<Q> {
    Asked { state, result: Err(VMError::ExceptionalHalt(halt)) }
}

/// An instruction that asks.
pub open spec fn asks<Q>(state: VMView, question: Q) -> Asked<Q> {
    Asked { state, result: Ok(question) }
}

/// What an instruction asks for that looks at the code of an account: where the validation of a
/// transaction is watched, first whether the account may be looked at.
#[derive(Clone, Copy, Debug)]
pub enum Request<P> {
    /// Whether the account may be looked at; `after_check` takes the verdict.
    CheckTarget(P),
    /// What the state holds; the `resume` of the instruction takes the answer.
    Read(P),
}

/// The request that an instruction makes once it has paid.
pub open spec fn request<P>(state: VMView, pending: P) -> Request<P> {
    if state.observing {
        Request::CheckTarget(pending)
    } else {
        Request::Read(pending)
    }
}

/// Makes the request for `pending`.
fn make_request<P>(vm: &VM, pending: P) -> (made: Request<P>)
    ensures
        made == request(vm@, pending),
{
    if vm.validation_observer.active {
        Request::CheckTarget(pending)
    } else {
        Request::Read(pending)
    }
}

/// Goes on after the check of an account that an instruction looks at: an account that may not be
/// looked at ends the instruction with the error of the check, and nothing is read.
pub fn after_check<P>(pending: P, verdict: Result<(), VMError>) -> (result: Result<P, VMError>)
    ensures
        result == match verdict {
            Ok(_) => Ok::<P, VMError>(pending),
            Err(error) => Err(error),
        },
{
    match verdict {
        Ok(_) => Ok(pending),
        Err(error) => Err(error),
    }
}

/// The machine after it took the account that the top word names and reached it.
pub open spec fn takes_account(state: VMView, address: Address) -> VMView {
    state.with_stack(state.frame.stack.drop_last()).reached(address)
}

/// A read of an account, and nothing else.
#[derive(Clone, Copy, Debug)]
pub struct AccountRead {
    pub address: Address,
}

/// The `BALANCE` instruction.
pub struct OpBalanceHandler;

/// How `BALANCE` gets to its question.
pub open spec fn balance_asks(state: VMView) -> Asked<AccountRead> {
    let address = address_of(state.frame.stack.last());
    let taken = takes_account(state, address);
    let price = price_of_access(state, state.env.schedule.balance, address);
    if state.frame.stack.len() == 0 {
        halts_unasked(state, ExceptionalHalt::StackUnderflow)
    } else if price > state.frame.gas {
        halts_unasked(taken, ExceptionalHalt::OutOfGas)
    } else {
        asks(taken.paid(price as nat), AccountRead { address })
    }
}

/// What `BALANCE` does with the answer.
pub open spec fn balance_resumes(
    state: VMView,
    pending: AccountRead,
    account: Result<Account, VMError>,
) -> Outcome {
    match account {
        Err(error) => Outcome { state, result: Err(error) },
        Ok(account) => pushes(state.touching(pending.address), account.balance@),
    }
}

impl OpBalanceHandler {
    /// Takes an address, pays for reaching the account, and asks for the account.
    pub fn eval(vm: &mut VM) -> (result: Result<AccountRead, VMError>)
        ensures
            (Asked { state: final(vm)@, result }) == balance_asks(old(vm)@),
    {
        let address = word_to_address(vm.current_call_frame.stack.pop1()?);
        let cold = vm.substate.add_accessed_address(address);
        let price: u64 = access_cost(vm.env.schedule.balance, cold);
        vm.current_call_frame.increase_consumed_gas(price)?;
        Ok(AccountRead { address })
    }

    /// Puts the balance of the account on the stack.
    pub fn resume(vm: &mut VM, pending: AccountRead, account: Result<Account, VMError>) -> (result:
        Result<OpcodeResult, VMError>)
        ensures
            (Outcome { state: final(vm)@, result }) == balance_resumes(old(vm)@, pending, account),
    {
        let account = account?;
        vm.touch(pending.address);
        vm.current_call_frame.stack.push(account.balance)?;
        Ok(OpcodeResult::Continue)
    }
}

/// Tells the collector that `opcode` found the code of `address` to be `len` bytes long.
fn record_code_size(tracer: &mut Erc7562FrameTracer, opcode: u8, address: Address, len: usize)
    ensures
        final(tracer)@ == old(tracer)@.code_size(opcode, address, len),
{
    let known = move || -> (size: usize)
        ensures
            size == len,
        {
            len
        };
    tracer.on_contract_size_access(opcode, address, known);
}

/// The `EXTCODESIZE` instruction.
pub struct OpExtCodeSizeHandler;

/// How `EXTCODESIZE` gets to its question.
pub open spec fn ext_code_size_asks(state: VMView) -> Asked<Request<AccountRead>> {
    let address = address_of(state.frame.stack.last());
    let taken = takes_account(state, address);
    let price = price_of_access(state, state.env.schedule.ext_code_size, address);
    if state.frame.stack.len() == 0 {
        halts_unasked(state, ExceptionalHalt::StackUnderflow)
    } else if price > state.frame.gas {
        halts_unasked(taken, ExceptionalHalt::OutOfGas)
    } else {
        asks(taken.paid(price as nat), request(state, AccountRead { address }))
    }
}

/// What `EXTCODESIZE` does with the answer.
pub open spec fn ext_code_size_resumes(
    state: VMView,
    pending: AccountRead,
    code_len: Result<usize, VMError>,
) -> Outcome {
    let opcode = opcode_byte(Opcode::EXTCODESIZE);
    match code_len {
        Err(error) => Outcome { state, result: Err(error) },
        Ok(len) => pushes(
            state.with_tracer(
                state.tracer.on_ext_opcode(opcode, pending.address).code_size(
                    opcode,
                    pending.address,
                    len,
                ),
            ).touching(pending.address),
            len as nat,
        ),
    }
}

impl OpExtCodeSizeHandler {
    /// Takes an address, pays for reaching the account, and asks how long its code is.
    pub fn eval(vm: &mut VM) -> (result: Result<Request<AccountRead>, VMError>)
        ensures
            (Asked { state: final(vm)@, result }) == ext_code_size_asks(old(vm)@),
    {
        let address = word_to_address(vm.current_call_frame.stack.pop1()?);
        let cold = vm.substate.add_accessed_address(address);
        let price: u64 = access_cost(vm.env.schedule.ext_code_size, cold);
        vm.current_call_frame.increase_consumed_gas(price)?;
        Ok(make_request(vm, AccountRead { address }))
    }

    /// Puts the length of the code on the stack.
    pub fn resume(vm: &mut VM, pending: AccountRead, code_len: Result<usize, VMError>) -> (result:
        Result<OpcodeResult, VMError>)
        ensures
            (Outcome { state: final(vm)@, result }) == ext_code_size_resumes(
                old(vm)@,
                pending,
                code_len,
            ),
    {
        let len: usize = code_len?;
        let opcode: u8 = u8::from(Opcode::EXTCODESIZE);
        vm.erc7562_tracer.on_ext_opcode(opcode, pending.address);
        record_code_size(&mut vm.erc7562_tracer, opcode, pending.address, len);
        vm.touch(pending.address);
        vm.current_call_frame.stack.push(U256::from_usize(len))?;
        Ok(OpcodeResult::Continue)
    }
}

/// A read of the code of an account, and the copy of it that is to follow.
#[derive(Clone, Copy, Debug)]
pub struct ExtCodeCopyRead {
    address: Address,
    dst_offset: usize,
    src_offset: U256,
    len: usize,
}

/// A read of the code of an account, and the copy of it that is to follow.
#[verifier::ext_equal]
pub struct ExtCodeCopyView {
    pub address: Address,
    pub copy: CopyView,
}

impl View for ExtCodeCopyRead {
    type V = ExtCodeCopyView;

    closed spec fn view(&self) -> ExtCodeCopyView {
        ExtCodeCopyView {
            address: self.address,
            copy: CopyView {
                at: self.dst_offset as nat,
                from: self.src_offset@,
                len: self.len as nat,
            },
        }
    }
}

impl ExtCodeCopyRead {
    /// The range of memory ends where memory can end.
    #[verifier::type_invariant]
    spec fn ends_in_memory(self) -> bool {
        memory_end(self.dst_offset as nat, self.len as nat) <= usize::MAX
    }

    /// The account whose code is read.
    pub fn address(&self) -> (address: Address)
        ensures
            address == self@.address,
    {
        self.address
    }
}

/// A question about the code that is to be copied, by what it asks.
pub open spec fn copy_request_view(asked: Request<ExtCodeCopyRead>) -> Request<ExtCodeCopyView> {
    match asked {
        Request::CheckTarget(pending) => Request::CheckTarget(pending@),
        Request::Read(pending) => Request::Read(pending@),
    }
}

/// The `EXTCODECOPY` instruction.
pub struct OpExtCodeCopyHandler;

/// What `EXTCODECOPY` costs.
pub open spec fn price_of_ext_code_copy(state: VMView, address: Address, copy: CopyView) -> nat {
    let schedule = state.env.schedule;
    price_of_copy(
        state,
        CopyCost {
            base: price_of_access(state, schedule.ext_code_copy, address),
            per_word: schedule.ext_code_copy_per_word,
        },
        copy,
    )
}

/// How `EXTCODECOPY` gets to its question.
pub open spec fn ext_code_copy_asks(state: VMView) -> Asked<Request<ExtCodeCopyView>> {
    let stack = state.frame.stack;
    let address = address_of(stack.last());
    let copy = copy_asked(stack, 1);
    let taken = state.with_stack(stack.take(stack.len() - 4));
    let noted = taken.with_tracer(
        state.tracer.on_ext_opcode(opcode_byte(Opcode::EXTCODECOPY), address),
    );
    let price = price_of_ext_code_copy(state, address, copy);
    if stack.len() < 4 {
        halts_unasked(state, ExceptionalHalt::StackUnderflow)
    } else if !range_fits(copy.len, stack[stack.len() - 2]) {
        halts_unasked(taken, ExceptionalHalt::VeryLargeNumber)
    } else if memory_end(copy.at, copy.len) > usize::MAX {
        halts_unasked(noted, ExceptionalHalt::OutOfBounds)
    } else if price > state.frame.gas {
        halts_unasked(noted.reached(address), ExceptionalHalt::OutOfGas)
    } else {
        asks(
            noted.reached(address).paid(price).touching(address),
            request(state, ExtCodeCopyView { address, copy }),
        )
    }
}

/// What `EXTCODECOPY` does with the answer.
pub open spec fn ext_code_copy_resumes(
    state: VMView,
    pending: ExtCodeCopyView,
    code: Result<Seq<u8>, VMError>,
) -> Outcome {
    match code {
        Err(error) => Outcome { state, result: Err(error) },
        Ok(code) => completes(
            state.with_tracer(
                state.tracer.code_size(
                    opcode_byte(Opcode::EXTCODECOPY),
                    pending.address,
                    code.len() as usize,
                ),
            ).with_memory(copied(state.frame.memory, pending.copy, code)),
        ),
    }
}

/// The bytes of a code, if there is one.
pub open spec fn code_bytes(code: Result<Code, VMError>) -> Result<Seq<u8>, VMError> {
    match code {
        Ok(code) => Ok(code@),
        Err(error) => Err(error),
    }
}

impl OpExtCodeCopyHandler {
    /// Takes an address and a copy, pays for both, and asks for the code.
    pub fn eval(vm: &mut VM) -> (result: Result<Request<ExtCodeCopyRead>, VMError>)
        ensures
            (Asked {
                state: final(vm)@,
                result: match result {
                    Ok(asked) => Ok(copy_request_view(asked)),
                    Err(error) => Err(error),
                },
            }) == ext_code_copy_asks(old(vm)@),
    {
        let (address, dst_offset, src_offset, len) = vm.current_call_frame.stack.pop4()?;
        let address = word_to_address(address);
        let (len, dst_offset) = size_offset_to_usize(len, dst_offset)?;
        vm.erc7562_tracer.on_ext_opcode(u8::from(Opcode::EXTCODECOPY), address);
        let wanted: usize = calculate_memory_size(dst_offset, len)?;
        let cold = vm.substate.add_accessed_address(address);
        let cost = CopyCost {
            base: access_cost(vm.env.schedule.ext_code_copy, cold),
            per_word: vm.env.schedule.ext_code_copy_per_word,
        };
        let price: u64 = copy_cost(cost, wanted, vm.current_call_frame.memory.len(), len)?;
        vm.current_call_frame.increase_consumed_gas(price)?;
        vm.touch(address);
        let pending = ExtCodeCopyRead { address, dst_offset, src_offset, len };
        Ok(make_request(vm, pending))
    }

    /// Copies the code into memory, with zeros past its end.
    pub fn resume(vm: &mut VM, pending: ExtCodeCopyRead, code: Result<Code, VMError>) -> (result:
        Result<OpcodeResult, VMError>)
        ensures
            (Outcome { state: final(vm)@, result }) == ext_code_copy_resumes(
                old(vm)@,
                pending@,
                code_bytes(code),
            ),
    {
        proof {
            use_type_invariant(&pending);
        }
        let code = code?;
        record_code_size(
            &mut vm.erc7562_tracer,
            u8::from(Opcode::EXTCODECOPY),
            pending.address,
            code.len(),
        );
        let from: usize = match pending.src_offset.to_usize() {
            Some(from) => from,
            None => usize::MAX,
        };
        let buffer = code.dispatch_buf();
        proof {
            if pending.src_offset@ > usize::MAX {
                lemma_window_past_end(code@, pending.src_offset@, from as nat, pending.len as nat);
            }
        }
        copy_into(
            &mut vm.current_call_frame.memory,
            pending.dst_offset,
            buffer,
            from,
            pending.len,
        )?;
        Ok(OpcodeResult::Continue)
    }
}

/// The `EXTCODEHASH` instruction.
pub struct OpExtCodeHashHandler;

/// A read of the length of a code, by an instruction that has read the account already.
#[derive(Clone, Copy, Debug)]
pub struct CodeLengthRead {
    pub address: Address,
    pub account: Account,
}

/// How `EXTCODEHASH` goes on after it has read the account.
#[derive(Clone, Copy, Debug)]
pub enum HashStep {
    /// It is complete.
    Done(OpcodeResult),
    /// It asks how long the code is, for the collector alone.
    ReadCodeLength(CodeLengthRead),
}

/// How `EXTCODEHASH` gets to its question.
pub open spec fn ext_code_hash_asks(state: VMView) -> Asked<Request<AccountRead>> {
    let address = address_of(state.frame.stack.last());
    let taken = takes_account(state, address).with_tracer(
        state.tracer.on_ext_opcode(opcode_byte(Opcode::EXTCODEHASH), address),
    );
    let price = price_of_access(state, state.env.schedule.ext_code_hash, address);
    if state.frame.stack.len() == 0 {
        halts_unasked(state, ExceptionalHalt::StackUnderflow)
    } else if price > state.frame.gas {
        halts_unasked(taken, ExceptionalHalt::OutOfGas)
    } else {
        asks(taken.paid(price as nat), request(state, AccountRead { address }))
    }
}

/// What `EXTCODEHASH` ends with: the hash of the code on the stack, or zero for an empty account.
pub open spec fn ext_code_hash_ends(
    state: VMView,
    address: Address,
    account: Account,
) -> Outcome {
    pushes(
        state.touching(address),
        if account.is_empty {
            0
        } else {
            be_value(account.code_hash.0@)
        },
    )
}

/// What `EXTCODEHASH` does with the account: it completes, or, where diagnostics are collected,
/// asks for the length of the code and changes nothing.
pub open spec fn ext_code_hash_resumes(
    state: VMView,
    pending: AccountRead,
    account: Result<Account, VMError>,
) -> Asked<HashStep> {
    match account {
        Err(error) => Asked { state, result: Err(error) },
        Ok(account) => if state.tracer.active {
            asks(
                state,
                HashStep::ReadCodeLength(CodeLengthRead { address: pending.address, account }),
            )
        } else {
            let ending = ext_code_hash_ends(state, pending.address, account);
            Asked {
                state: ending.state,
                result: match ending.result {
                    Ok(done) => Ok(HashStep::Done(done)),
                    Err(error) => Err(error),
                },
            }
        },
    }
}

/// What `EXTCODEHASH` does with the length of the code.
pub open spec fn ext_code_hash_records(
    state: VMView,
    pending: CodeLengthRead,
    code_len: Result<usize, VMError>,
) -> Outcome {
    match code_len {
        Err(error) => Outcome { state, result: Err(error) },
        Ok(len) => ext_code_hash_ends(
            state.with_tracer(
                state.tracer.code_size(opcode_byte(Opcode::EXTCODEHASH), pending.address, len),
            ),
            pending.address,
            pending.account,
        ),
    }
}

impl OpExtCodeHashHandler {
    /// Takes an address, pays for reaching the account, and asks for the account.
    pub fn eval(vm: &mut VM) -> (result: Result<Request<AccountRead>, VMError>)
        ensures
            (Asked { state: final(vm)@, result }) == ext_code_hash_asks(old(vm)@),
    {
        let address = word_to_address(vm.current_call_frame.stack.pop1()?);
        vm.erc7562_tracer.on_ext_opcode(u8::from(Opcode::EXTCODEHASH), address);
        let cold = vm.substate.add_accessed_address(address);
        let price: u64 = access_cost(vm.env.schedule.ext_code_hash, cold);
        vm.current_call_frame.increase_consumed_gas(price)?;
        Ok(make_request(vm, AccountRead { address }))
    }

    /// Completes, or asks for the length of the code where diagnostics are collected.
    pub fn resume(vm: &mut VM, pending: AccountRead, account: Result<Account, VMError>) -> (result:
        Result<HashStep, VMError>)
        ensures
            (Asked { state: final(vm)@, result }) == ext_code_hash_resumes(
                old(vm)@,
                pending,
                account,
            ),
    {
        let account = account?;
        if vm.erc7562_tracer.is_active() {
            return Ok(HashStep::ReadCodeLength(CodeLengthRead { address: pending.address, account }));
        }
        let done = OpExtCodeHashHandler::finish(vm, pending.address, account)?;
        Ok(HashStep::Done(done))
    }

    /// Records the length of the code, and completes.
    pub fn resume_with_code_length(
        vm: &mut VM,
        pending: CodeLengthRead,
        code_len: Result<usize, VMError>,
    ) -> (result: Result<OpcodeResult, VMError>)
        ensures
            (Outcome { state: final(vm)@, result }) == ext_code_hash_records(
                old(vm)@,
                pending,
                code_len,
            ),
    {
        let len: usize = code_len?;
        record_code_size(
            &mut vm.erc7562_tracer,
            u8::from(Opcode::EXTCODEHASH),
            pending.address,
            len,
        );
        OpExtCodeHashHandler::finish(vm, pending.address, pending.account)
    }

    /// Puts the hash of the code on the stack, or zero for an empty account.
    fn finish(vm: &mut VM, address: Address, account: Account) -> (result: Result<
        OpcodeResult,
        VMError,
    >)
        ensures
            (Outcome { state: final(vm)@, result }) == ext_code_hash_ends(
                old(vm)@,
                address,
                account,
            ),
    {
        vm.touch(address);
        let word = if account.is_empty {
            U256::zero()
        } else {
            account.code_hash.to_word()
        };
        vm.current_call_frame.stack.push(word)?;
        Ok(OpcodeResult::Continue)
    }
}

} // verus!
