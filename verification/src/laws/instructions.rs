//! What each environment instruction leaves in the machine: word by word, byte by byte and to the
//! last unit of gas.
//!
//! The size of a range of memory is written out: `len` bytes from `at` need memory up to the next
//! multiple of 32, and `n` words of memory cost `3 * n + n * n / 512`.
use crate::errors::{ExceptionalHalt, OpcodeResult, VMError};
use crate::gas_cost::{lemma_memory_price_monotonic, AccessCost, CopyCost};
use crate::memory::{memory_end, window};
use crate::opcode_handlers::environment::{
    address_tells, balance_asks, balance_resumes, call_data_copies, call_data_load,
    call_data_size_tells, call_value_tells, caller_tells, code_bytes, code_copies, code_size_tells,
    copies, copy_request_view, ext_code_copy_asks, ext_code_copy_resumes, ext_code_hash_asks,
    ext_code_hash_records, ext_code_hash_resumes, ext_code_size_asks, ext_code_size_resumes,
    gas_price_tells, origin_tells, pays_and_pushes, price_of_copy, return_data_copies,
    return_data_size_tells, AccountRead, Asked, CodeLengthRead, CopyView, ExtCodeCopyRead,
    ExtCodeCopyView, HashStep, Outcome, Request,
};
use crate::vm::{Account, Code, VMView, VM};
use crate::word::{address_of, be_value, Address};
use vstd::prelude::*;

verus! {

/// What a machine holds is what its parts hold.
pub proof fn lemma_machine_shows_its_parts(vm: VM)
    ensures
        vm@.frame.gas == vm.current_call_frame.gas_remaining,
        vm@.frame.stack == vm.current_call_frame.stack@,
        vm@.frame.memory == vm.current_call_frame.memory@,
        vm@.frame.to == vm.current_call_frame.to,
        vm@.frame.msg_sender == vm.current_call_frame.msg_sender,
        vm@.frame.msg_value == vm.current_call_frame.msg_value@,
        vm@.frame.calldata == vm.current_call_frame.calldata@,
        vm@.frame.code == vm.current_call_frame.bytecode@,
        vm@.frame.return_data == vm.current_call_frame.sub_return_data@,
        vm@.env == vm.env,
        vm@.accessed == vm.substate.accessed_addresses@,
        vm.bal_recorder is None ==> vm@.touched is None,
        vm.bal_recorder matches Some(recorder) ==> vm@.touched == Some(
            recorder.touched_addresses@,
        ),
        vm@.observing == vm.validation_observer.active,
        vm@.tracer == vm.erc7562_tracer@,
{
}

/// A halt of the program.
pub open spec fn halted<T>(result: Result<T, VMError>, halt: ExceptionalHalt) -> bool {
    result == Err::<T, VMError>(VMError::ExceptionalHalt(halt))
}

/// The two machines run the same call in the same transaction, watched or not.
pub open spec fn same_call(one: VMView, other: VMView) -> bool {
    &&& one.frame.to == other.frame.to
    &&& one.frame.msg_sender == other.frame.msg_sender
    &&& one.frame.msg_value == other.frame.msg_value
    &&& one.frame.calldata == other.frame.calldata
    &&& one.frame.code == other.frame.code
    &&& one.frame.return_data == other.frame.return_data
    &&& one.env == other.env
    &&& one.observing == other.observing
}

/// The two machines differ in gas, stack and memory at most.
pub open spec fn same_outside(one: VMView, other: VMView) -> bool {
    &&& same_call(one, other)
    &&& one.accessed == other.accessed
    &&& one.touched == other.touched
    &&& one.tracer == other.tracer
}

/// `now` has the lowest `n` words of `before`, and no more.
pub open spec fn lowest_words(before: Seq<nat>, now: Seq<nat>, n: int) -> bool {
    &&& now.len() == n
    &&& forall|i: int| 0 <= i < n ==> #[trigger] now[i] == before[i]
}

/// `now` has the lowest `n` words of `before`, and `top` above them.
pub open spec fn lowest_words_and(before: Seq<nat>, now: Seq<nat>, n: int, top: nat) -> bool {
    &&& now.len() == n + 1
    &&& forall|i: int| 0 <= i < n ==> #[trigger] now[i] == before[i]
    &&& now[n] == top
}

/// The instruction told `word` at `price`: it completes where the price can be paid and the stack
/// holds fewer than 1024 words. There is one word more then, `word`, on top of all that were there,
/// in place; the price is gone from the gas; and nothing else is changed.
pub open spec fn told(state: VMView, done: Outcome, price: u64, word: nat) -> bool {
    let before = state.frame;
    let now = done.state.frame;
    &&& done.result is Ok <==> price <= before.gas && before.stack.len() < 1024
    &&& done.result matches Ok(goes_on) ==> {
        &&& goes_on is Continue
        &&& now.stack.len() == before.stack.len() + 1
        &&& forall|i: int| 0 <= i < before.stack.len() ==> #[trigger] now.stack[i] == before.stack[i]
        &&& now.stack[before.stack.len() as int] == word
        &&& now.gas == before.gas - price
    }
    &&& price > before.gas ==> halted(done.result, ExceptionalHalt::OutOfGas) && done.state == state
    &&& price <= before.gas && before.stack.len() >= 1024 ==> {
        &&& halted(done.result, ExceptionalHalt::StackOverflow)
        &&& now.stack == before.stack
        &&& now.gas == before.gas - price
    }
    &&& now.memory == before.memory
    &&& same_outside(done.state, state)
}

/// An instruction that tells a fact adds it on top, and takes exactly its price.
pub proof fn lemma_fact_is_added_on_top(state: VMView, price: u64, word: nat)
    ensures
        told(state, pays_and_pushes(state, price, word), price, word),
{
}

/// Which fact each of the eight instructions tells, and at which price.
pub proof fn lemma_each_instruction_tells_its_fact(state: VMView)
    ensures
        ({
            let frame = state.frame;
            let env = state.env;
            let prices = env.schedule;
            &&& told(state, address_tells(state), prices.address, be_value(frame.to.0@))
            &&& told(state, origin_tells(state), prices.origin, be_value(env.origin.0@))
            &&& told(state, gas_price_tells(state), prices.gas_price, env.gas_price@)
            &&& told(state, caller_tells(state), prices.caller, be_value(frame.msg_sender.0@))
            &&& told(state, call_value_tells(state), prices.call_value, frame.msg_value)
            &&& told(
                state,
                call_data_size_tells(state),
                prices.call_data_size,
                frame.calldata.len(),
            )
            &&& told(state, code_size_tells(state), prices.code_size, frame.code.len())
            &&& told(
                state,
                return_data_size_tells(state),
                prices.return_data_size,
                frame.return_data.len(),
            )
        }),
{
}

/// Two facts told in turn lie one above the other, over the words that were there.
pub proof fn lemma_facts_pile_up(
    state: VMView,
    first_price: u64,
    first: nat,
    second_price: u64,
    second: nat,
)
    ensures
        ({
            let one = pays_and_pushes(state, first_price, first);
            let two = pays_and_pushes(one.state, second_price, second);
            let n = state.frame.stack.len() as int;
            one.result is Ok && two.result is Ok ==> {
                &&& two.state.frame.stack.len() == n + 2
                &&& two.state.frame.stack[n] == first
                &&& two.state.frame.stack[n + 1] == second
                &&& two.state.frame.gas == state.frame.gas - first_price - second_price
            }
        }),
{
}

/// `CALLDATALOAD` replaces the offset by the number that 32 bytes of call data from there stand for,
/// zeros past the end included; the words below stay. The price is taken first.
pub proof fn lemma_load_reads_call_data(state: VMView, bytes: Seq<u8>)
    requires
        bytes.len() == 32,
        forall|k: int|
            0 <= k < 32 ==> #[trigger] bytes[k] == (if state.frame.stack.last() + k
                < state.frame.calldata.len() {
                state.frame.calldata[state.frame.stack.last() + k]
            } else {
                0
            }),
    ensures
        ({
            let done = call_data_load(state);
            let price = state.env.schedule.call_data_load;
            let before = state.frame;
            let now = done.state.frame;
            let n = before.stack.len() as int;
            &&& done.result is Ok <==> price <= before.gas && n > 0
            &&& done.result matches Ok(goes_on) ==> {
                &&& goes_on is Continue
                &&& lowest_words_and(before.stack, now.stack, n - 1, be_value(bytes))
                &&& now.gas == before.gas - price
            }
            &&& price > before.gas ==> halted(done.result, ExceptionalHalt::OutOfGas) && done.state
                == state
            &&& price <= before.gas && n == 0 ==> {
                &&& halted(done.result, ExceptionalHalt::StackUnderflow)
                &&& now.stack == before.stack
                &&& now.gas == before.gas - price
            }
            &&& now.memory == before.memory
            &&& same_outside(done.state, state)
        }),
{
    assert(bytes =~= window(state.frame.calldata, state.frame.stack.last(), 32));
}

/// The size that memory has to have for `len` bytes from `at`.
pub open spec fn needed(at: int, len: int) -> int {
    if len == 0 {
        0
    } else {
        (at + len + 31) / 32 * 32
    }
}

/// The price of a copy of `len` bytes to `at` into memory of `size` bytes: the base, a price for
/// each word that is copied, and the difference of the prices of the memory after and before.
pub open spec fn copy_costs(base: int, per_word: int, at: int, len: int, size: int) -> int {
    let new_words = (needed(at, len) + 31) / 32;
    let old_words = (size + 31) / 32;
    base + per_word * ((len + 31) / 32) + if needed(at, len) > size {
        (3 * new_words + new_words * new_words / 512) - (3 * old_words + old_words * old_words
            / 512)
    } else {
        0
    }
}

/// Memory after a copy of `len` bytes of `source` from `from` to `at`: the range holds the bytes of
/// the source, with zeros past its end; all other bytes are as they were, or zero where there were
/// none; the size is the one needed, and no smaller than before.
pub open spec fn holds_copy(
    before: Seq<u8>,
    now: Seq<u8>,
    at: int,
    from: int,
    len: int,
    source: Seq<u8>,
) -> bool {
    &&& now.len() == if needed(at, len) > before.len() {
        needed(at, len)
    } else {
        before.len() as int
    }
    &&& forall|k: int|
        #![trigger now[at + k]]
        0 <= k < len ==> now[at + k] == (if from + k < source.len() {
            source[from + k]
        } else {
            0
        })
    &&& forall|i: int|
        #![trigger now[i]]
        0 <= i < now.len() && !(len > 0 && at <= i < at + len) ==> now[i] == (if i < before.len() {
            before[i]
        } else {
            0
        })
}

proof fn lemma_price_written_out(state: VMView, cost: CopyCost, at: nat, from: nat, len: nat)
    ensures
        price_of_copy(state, cost, (CopyView { at, from, len })) == copy_costs(
            cost.base as int,
            cost.per_word as int,
            at as int,
            len as int,
            state.frame.memory.len() as int,
        ),
{
    let size = state.frame.memory.len();
    let end = memory_end(at, len);
    assert(end == needed(at as int, len as int));
    if end > size {
        lemma_memory_price_monotonic(size, end);
    }
}

/// The three words for a copy: where to, where from, how much, the first on top.
pub open spec fn three_words(stack: Seq<nat>, dst: nat, src: nat, len: nat) -> bool {
    &&& stack.len() >= 3
    &&& stack[stack.len() - 1] == dst
    &&& stack[stack.len() - 2] == src
    &&& stack[stack.len() - 3] == len
}

/// The copy can be addressed, fits into memory and can be paid.
pub open spec fn copy_can_be(state: VMView, cost: CopyCost, dst: nat, len: nat) -> bool {
    &&& len <= usize::MAX
    &&& len > 0 ==> dst <= usize::MAX
    &&& needed(dst as int, len as int) <= usize::MAX
    &&& copy_costs(
        cost.base as int,
        cost.per_word as int,
        dst as int,
        len as int,
        state.frame.memory.len() as int,
    ) <= state.frame.gas
}

/// A copy out of `source` completes exactly where it can be. The source then stands in memory, the
/// three words are gone from the stack with all others in place, and the price is gone from the
/// gas. A copy that cannot be takes the three words, and no gas.
pub open spec fn copy_done(
    state: VMView,
    done: Outcome,
    cost: CopyCost,
    source: Seq<u8>,
    dst: nat,
    src: nat,
    len: nat,
) -> bool {
    let before = state.frame;
    let now = done.state.frame;
    let size = before.memory.len() as int;
    let price = copy_costs(
        cost.base as int,
        cost.per_word as int,
        dst as int,
        len as int,
        size,
    );
    &&& done.result is Ok <==> copy_can_be(state, cost, dst, len)
    &&& done.result matches Ok(goes_on) ==> {
        &&& goes_on is Continue
        &&& holds_copy(
            before.memory,
            now.memory,
            dst as int,
            src as int,
            len as int,
            source,
        )
        &&& now.gas == before.gas - price
    }
    &&& done.result is Err ==> now.memory == before.memory && now.gas == before.gas
    &&& len > usize::MAX || (len > 0 && dst > usize::MAX) ==> halted(
        done.result,
        ExceptionalHalt::VeryLargeNumber,
    )
    &&& len <= usize::MAX && dst <= usize::MAX && needed(dst as int, len as int)
        > usize::MAX ==> halted(done.result, ExceptionalHalt::OutOfBounds)
    &&& len <= usize::MAX && (len > 0 ==> dst <= usize::MAX) && needed(
        dst as int,
        len as int,
    ) <= usize::MAX && price > before.gas ==> halted(done.result, ExceptionalHalt::OutOfGas)
    &&& lowest_words(before.stack, now.stack, before.stack.len() - 3)
    &&& same_outside(done.state, state)
}

/// An instruction that copies puts its source into memory.
pub proof fn lemma_copy_puts_source_into_memory(
    state: VMView,
    cost: CopyCost,
    source: Seq<u8>,
    dst: nat,
    src: nat,
    len: nat,
)
    requires
        three_words(state.frame.stack, dst, src, len),
    ensures
        copy_done(state, copies(state, cost, source), cost, source, dst, src, len),
{
    let at = if len == 0 {
        0
    } else {
        dst
    };
    lemma_price_written_out(state, cost, at, src, len);
}

/// `CALLDATACOPY` copies call data at its price, and `CODECOPY` the running code at its own. Where
/// one completes, each byte `k` of the range is the byte `src + k` of the source, or zero past its
/// end; each byte outside of the range is as before; and the stack has lost three words.
pub proof fn lemma_call_data_and_code_are_copied(state: VMView, dst: nat, src: nat, len: nat)
    requires
        three_words(state.frame.stack, dst, src, len),
    ensures
        copy_done(
            state,
            call_data_copies(state),
            state.env.schedule.call_data_copy,
            state.frame.calldata,
            dst,
            src,
            len,
        ),
        copy_done(
            state,
            code_copies(state),
            state.env.schedule.code_copy,
            state.frame.code,
            dst,
            src,
            len,
        ),
        ({
            let now = call_data_copies(state).state.frame.memory;
            let data = state.frame.calldata;
            call_data_copies(state).result is Ok ==> forall|k: int|
                0 <= k < len ==> #[trigger] now[dst + k] == (if src + k < data.len() {
                    data[src + k]
                } else {
                    0
                })
        }),
        ({
            let now = code_copies(state).state.frame.memory;
            let code = state.frame.code;
            code_copies(state).result is Ok ==> forall|k: int|
                0 <= k < len ==> #[trigger] now[dst + k] == (if src + k < code.len() {
                    code[src + k]
                } else {
                    0
                })
        }),
{
    let prices = state.env.schedule;
    lemma_copy_puts_source_into_memory(
        state,
        prices.call_data_copy,
        state.frame.calldata,
        dst,
        src,
        len,
    );
    lemma_copy_puts_source_into_memory(state, prices.code_copy, state.frame.code, dst, src, len);
}

/// A copy with fewer than three words on the stack is a halt that changes nothing.
pub proof fn lemma_copy_needs_three_words(state: VMView)
    requires
        state.frame.stack.len() < 3,
    ensures
        halted(call_data_copies(state).result, ExceptionalHalt::StackUnderflow),
        call_data_copies(state).state == state,
        halted(code_copies(state).result, ExceptionalHalt::StackUnderflow),
        code_copies(state).state == state,
        halted(return_data_copies(state).result, ExceptionalHalt::StackUnderflow),
        return_data_copies(state).state == state,
{
}

/// `RETURNDATACOPY` completes exactly where the copy can be, the offset into the data can be
/// addressed, and the range lies in the data. The range then stands in memory as it is. A range
/// that reaches past the end is a halt after the price was taken.
pub proof fn lemma_return_data_is_put_into_memory(state: VMView, dst: nat, src: nat, len: nat)
    requires
        three_words(state.frame.stack, dst, src, len),
    ensures
        ({
            let done = return_data_copies(state);
            let cost = state.env.schedule.return_data_copy;
            let before = state.frame;
            let now = done.state.frame;
            let price = copy_costs(
                cost.base as int,
                cost.per_word as int,
                dst as int,
                len as int,
                before.memory.len() as int,
            );
            let can_be = copy_can_be(state, cost, dst, len) && src <= usize::MAX;
            &&& done.result is Ok <==> can_be && src + len <= before.return_data.len()
            &&& done.result matches Ok(goes_on) ==> {
                &&& goes_on is Continue
                &&& holds_copy(
                    before.memory,
                    now.memory,
                    dst as int,
                    src as int,
                    len as int,
                    before.return_data,
                )
                &&& forall|k: int|
                    0 <= k < len ==> #[trigger] now.memory[dst + k] == before.return_data[src + k]
                &&& now.gas == before.gas - price
            }
            &&& done.result is Err ==> now.memory == before.memory
            &&& can_be && src + len > before.return_data.len() ==> {
                &&& halted(done.result, ExceptionalHalt::OutOfBounds)
                &&& now.gas == before.gas - price
            }
            &&& !can_be ==> now.gas == before.gas
            &&& len > usize::MAX || (len > 0 && dst > usize::MAX) || src > usize::MAX ==> halted(
                done.result,
                ExceptionalHalt::VeryLargeNumber,
            )
            &&& len <= usize::MAX && dst <= usize::MAX && src <= usize::MAX && needed(
                dst as int,
                len as int,
            ) > usize::MAX ==> halted(done.result, ExceptionalHalt::OutOfBounds)
            &&& len <= usize::MAX && (len > 0 ==> dst <= usize::MAX) && src <= usize::MAX && needed(
                dst as int,
                len as int,
            ) <= usize::MAX && price > before.gas ==> halted(done.result, ExceptionalHalt::OutOfGas)
            &&& lowest_words(before.stack, now.stack, before.stack.len() - 3)
            &&& same_outside(done.state, state)
        }),
{
    let cost = state.env.schedule.return_data_copy;
    lemma_copy_puts_source_into_memory(state, cost, state.frame.return_data, dst, src, len);
    let at = if len == 0 {
        0
    } else {
        dst
    };
    lemma_price_written_out(state, cost, at, src, len);
}

/// The account that the top word names.
pub open spec fn named_on_top(state: VMView) -> Address {
    address_of(state.frame.stack[state.frame.stack.len() - 1])
}

/// What reaching the account costs: the warm price where the transaction reached it before, and the
/// cold price where it did not.
pub open spec fn reaching_costs(state: VMView, cost: AccessCost, account: Address) -> int {
    if state.accessed.contains(account) {
        cost.warm as int
    } else {
        cost.cold as int
    }
}

/// The account is reached in `now`, and no other that was not reached before.
pub open spec fn reached_alone(before: VMView, now: VMView, account: Address) -> bool {
    forall|other: Address| #[trigger]
        now.accessed.contains(other) <==> before.accessed.contains(other) || other == account
}

/// The account is recorded as touched in `now` where touches are recorded, and no other that was
/// not recorded before.
pub open spec fn touched_alone(before: VMView, now: VMView, account: Address) -> bool {
    &&& before.touched is None ==> now.touched is None
    &&& before.touched matches Some(then) ==> {
        &&& now.touched is Some
        &&& forall|other: Address| #[trigger]
            now.touched->0.contains(other) <==> then.contains(other) || other == account
    }
}

/// What a request is about, and that it is a check exactly where the machine is watched.
pub open spec fn requests<P>(state: VMView, made: Request<P>, pending: P) -> bool {
    match made {
        Request::CheckTarget(about) => state.observing && about == pending,
        Request::Read(about) => !state.observing && about == pending,
    }
}

/// An instruction that reads an account has taken the top word and reached the account. It has paid
/// where it could, and touched nothing yet.
pub open spec fn took_account<Q>(state: VMView, asked: Asked<Q>, cost: AccessCost) -> bool {
    let account = named_on_top(state);
    let price = reaching_costs(state, cost, account);
    let before = state.frame;
    let now = asked.state.frame;
    &&& asked.result is Ok <==> price <= before.gas
    &&& asked.result is Err ==> halted(asked.result, ExceptionalHalt::OutOfGas)
    &&& now.gas == if price <= before.gas {
        before.gas - price
    } else {
        before.gas as int
    }
    &&& lowest_words(before.stack, now.stack, before.stack.len() - 1)
    &&& now.memory == before.memory
    &&& reached_alone(state, asked.state, account)
    &&& asked.state.touched == state.touched
    &&& same_call(asked.state, state)
}

/// The three instructions that take an account from the top of the stack ask about that account
/// once reaching it is paid for. `EXTCODEHASH` alone tells the collector before it has the answer.
pub proof fn lemma_account_is_asked_for(state: VMView)
    requires
        state.frame.stack.len() > 0,
    ensures
        took_account(state, balance_asks(state), state.env.schedule.balance),
        balance_asks(state).result matches Ok(pending) ==> pending.address == named_on_top(state),
        balance_asks(state).state.tracer == state.tracer,
        took_account(state, ext_code_size_asks(state), state.env.schedule.ext_code_size),
        ext_code_size_asks(state).result matches Ok(made) ==> requests(
            state,
            made,
            AccountRead { address: named_on_top(state) },
        ),
        ext_code_size_asks(state).state.tracer == state.tracer,
        took_account(state, ext_code_hash_asks(state), state.env.schedule.ext_code_hash),
        ext_code_hash_asks(state).result matches Ok(made) ==> requests(
            state,
            made,
            AccountRead { address: named_on_top(state) },
        ),
        ext_code_hash_asks(state).state.tracer == state.tracer.on_ext_opcode(
            0x3F,
            named_on_top(state),
        ),
{
}

/// Where there are too few words on the stack, nothing is asked and nothing changes.
pub proof fn lemma_questions_need_words(state: VMView)
    ensures
        state.frame.stack.len() == 0 ==> {
            &&& halted(balance_asks(state).result, ExceptionalHalt::StackUnderflow)
            &&& balance_asks(state).state == state
            &&& halted(ext_code_size_asks(state).result, ExceptionalHalt::StackUnderflow)
            &&& ext_code_size_asks(state).state == state
            &&& halted(ext_code_hash_asks(state).result, ExceptionalHalt::StackUnderflow)
            &&& ext_code_hash_asks(state).state == state
        },
        state.frame.stack.len() < 4 ==> {
            &&& halted(ext_code_copy_asks(state).result, ExceptionalHalt::StackUnderflow)
            &&& ext_code_copy_asks(state).state == state
        },
{
}

/// `word` was put on top of the stack after the account was recorded as touched, and the result is
/// `done`; a full stack is a halt, after the touch was recorded. Gas and memory stay.
pub open spec fn put_on_top<T>(
    before: VMView,
    now: VMView,
    result: Result<T, VMError>,
    done: T,
    account: Address,
    word: nat,
) -> bool {
    let n = before.frame.stack.len() as int;
    &&& n < 1024 ==> {
        &&& result == Ok::<T, VMError>(done)
        &&& lowest_words_and(before.frame.stack, now.frame.stack, n, word)
    }
    &&& n >= 1024 ==> {
        &&& halted(result, ExceptionalHalt::StackOverflow)
        &&& now.frame.stack == before.frame.stack
    }
    &&& now.frame.gas == before.frame.gas
    &&& now.frame.memory == before.frame.memory
    &&& now.accessed == before.accessed
    &&& touched_alone(before, now, account)
    &&& same_call(now, before)
}

/// What an account hashes to for a program: the number that its code hash stands for, whatever its
/// balance, and zero for an empty account.
pub open spec fn hash_of(account: Account) -> nat {
    if account.is_empty {
        0
    } else {
        be_value(account.code_hash.0@)
    }
}

/// `BALANCE` puts the balance of the answer on the stack. An answer that is an error is the result,
/// and changes nothing.
pub proof fn lemma_balance_answer(
    state: VMView,
    pending: AccountRead,
    account: Account,
    error: VMError,
)
    ensures
        put_on_top(
            state,
            balance_resumes(state, pending, Ok(account)).state,
            balance_resumes(state, pending, Ok(account)).result,
            OpcodeResult::Continue,
            pending.address,
            account.balance@,
        ),
        balance_resumes(state, pending, Ok(account)).state.tracer == state.tracer,
        balance_resumes(state, pending, Err(error)).state == state,
        balance_resumes(state, pending, Err(error)).result == Err::<OpcodeResult, VMError>(error),
{
}

/// `EXTCODESIZE` puts the length of the code on the stack, and tells the collector of its look and
/// of the length. An answer that is an error is the result, and changes nothing.
pub proof fn lemma_code_size_answer(
    state: VMView,
    pending: AccountRead,
    code_len: usize,
    error: VMError,
)
    ensures
        put_on_top(
            state,
            ext_code_size_resumes(state, pending, Ok(code_len)).state,
            ext_code_size_resumes(state, pending, Ok(code_len)).result,
            OpcodeResult::Continue,
            pending.address,
            code_len as nat,
        ),
        ext_code_size_resumes(state, pending, Ok(code_len)).state.tracer
            == state.tracer.on_ext_opcode(0x3B, pending.address).code_size(
            0x3B,
            pending.address,
            code_len,
        ),
        ext_code_size_resumes(state, pending, Err(error)).state == state,
        ext_code_size_resumes(state, pending, Err(error)).result == Err::<OpcodeResult, VMError>(
            error,
        ),
{
}

/// `EXTCODEHASH` puts the hash of the answer on the stack: at once where nothing is collected, and
/// else after it asked for the length of the code, which it tells the collector. An answer that is
/// an error is the result, and changes nothing.
pub proof fn lemma_code_hash_answer(
    state: VMView,
    pending: AccountRead,
    account: Account,
    code_len: usize,
    error: VMError,
)
    ensures
        !state.tracer.active ==> {
            let step = ext_code_hash_resumes(state, pending, Ok(account));
            &&& put_on_top(
                state,
                step.state,
                step.result,
                HashStep::Done(OpcodeResult::Continue),
                pending.address,
                hash_of(account),
            )
            &&& step.state.tracer == state.tracer
        },
        state.tracer.active ==> {
            let step = ext_code_hash_resumes(state, pending, Ok(account));
            let asked = CodeLengthRead { address: pending.address, account };
            &&& step.state == state
            &&& step.result == Ok::<HashStep, VMError>(HashStep::ReadCodeLength(asked))
        },
        ({
            let asked = CodeLengthRead { address: pending.address, account };
            let done = ext_code_hash_records(state, asked, Ok(code_len));
            let failed = ext_code_hash_records(state, asked, Err(error));
            &&& put_on_top(
                state,
                done.state,
                done.result,
                OpcodeResult::Continue,
                pending.address,
                hash_of(account),
            )
            &&& done.state.tracer == state.tracer.code_size(0x3F, pending.address, code_len)
            &&& failed.state == state
            &&& failed.result == Err::<OpcodeResult, VMError>(error)
        }),
        ext_code_hash_resumes(state, pending, Err(error)).state == state,
        ext_code_hash_resumes(state, pending, Err(error)).result == Err::<HashStep, VMError>(error),
{
}

/// An instruction that read an account has, from its question to its end, replaced the word that
/// named the account by `word`, with the words below in place; paid for reaching the account; and
/// recorded it as reached and touched.
pub open spec fn replaced(before: VMView, now: VMView, cost: AccessCost, word: nat) -> bool {
    let account = named_on_top(before);
    &&& lowest_words_and(
        before.frame.stack,
        now.frame.stack,
        before.frame.stack.len() - 1,
        word,
    )
    &&& now.frame.gas == before.frame.gas - reaching_costs(before, cost, account)
    &&& now.frame.memory == before.frame.memory
    &&& reached_alone(before, now, account)
    &&& touched_alone(before, now, account)
    &&& same_call(now, before)
}

/// The pending read that a request carries.
pub open spec fn carried<P>(made: Request<P>) -> P {
    match made {
        Request::CheckTarget(pending) => pending,
        Request::Read(pending) => pending,
    }
}

/// `EXTCODEHASH` in full, from its question through its completion: the address on top is replaced
/// by the hash of the account, whatever its balance, or by zero where the account is empty. It is
/// so whether the length of the code is asked for on the way or not.
pub proof fn lemma_code_hash_in_full(state: VMView, account: Account, code_len: usize)
    requires
        0 < state.frame.stack.len() <= 1024,
    ensures
        ext_code_hash_asks(state).result matches Ok(made) ==> {
            let cost = state.env.schedule.ext_code_hash;
            let word = if account.is_empty {
                0
            } else {
                be_value(account.code_hash.0@)
            };
            let step = ext_code_hash_resumes(
                ext_code_hash_asks(state).state,
                carried(made),
                Ok(account),
            );
            &&& carried(made).address == named_on_top(state)
            &&& step.result matches Ok(HashStep::Done(goes_on)) ==> goes_on is Continue && replaced(
                state,
                step.state,
                cost,
                word,
            )
            &&& step.result matches Ok(HashStep::ReadCodeLength(asked)) ==> {
                let done = ext_code_hash_records(step.state, asked, Ok(code_len));
                &&& asked.address == named_on_top(state)
                &&& done.result == Ok::<OpcodeResult, VMError>(OpcodeResult::Continue)
                &&& replaced(state, done.state, cost, word)
            }
            &&& step.result is Ok
            &&& (step.result->Ok_0 is ReadCodeLength) == state.tracer.active
        },
{
}

/// `BALANCE` and `EXTCODESIZE` in full, from the question through the completion.
pub proof fn lemma_account_reads_in_full(state: VMView, account: Account, code_len: usize)
    requires
        0 < state.frame.stack.len() <= 1024,
    ensures
        balance_asks(state).result matches Ok(pending) ==> {
            let done = balance_resumes(balance_asks(state).state, pending, Ok(account));
            &&& done.result == Ok::<OpcodeResult, VMError>(OpcodeResult::Continue)
            &&& replaced(state, done.state, state.env.schedule.balance, account.balance@)
        },
        ext_code_size_asks(state).result matches Ok(made) ==> {
            let done = ext_code_size_resumes(
                ext_code_size_asks(state).state,
                carried(made),
                Ok(code_len),
            );
            &&& done.result == Ok::<OpcodeResult, VMError>(OpcodeResult::Continue)
            &&& replaced(state, done.state, state.env.schedule.ext_code_size, code_len as nat)
        },
{
}

/// The four words for a copy of the code of an account, the one that names the account on top.
pub open spec fn four_words(stack: Seq<nat>, dst: nat, src: nat, len: nat) -> bool {
    &&& stack.len() >= 4
    &&& stack[stack.len() - 2] == dst
    &&& stack[stack.len() - 3] == src
    &&& stack[stack.len() - 4] == len
}

/// `EXTCODECOPY` asks for the code of the account on top exactly where the copy can be and both
/// reaching the account and copying are paid for; the account is recorded as touched then. A range
/// that cannot be addressed is refused before the collector is told of the look, and one that ends
/// outside of memory before the account is reached.
pub proof fn lemma_code_is_asked_for(state: VMView, dst: nat, src: nat, len: nat)
    requires
        four_words(state.frame.stack, dst, src, len),
    ensures
        ({
            let asked = ext_code_copy_asks(state);
            let schedule = state.env.schedule;
            let account = named_on_top(state);
            let before = state.frame;
            let now = asked.state.frame;
            let price = copy_costs(
                reaching_costs(state, schedule.ext_code_copy, account),
                schedule.ext_code_copy_per_word as int,
                dst as int,
                len as int,
                before.memory.len() as int,
            );
            let addressed = len <= usize::MAX && (len > 0 ==> dst <= usize::MAX);
            let fits = needed(dst as int, len as int) <= usize::MAX;
            &&& asked.result is Ok <==> addressed && fits && price <= before.gas
            &&& asked.result matches Ok(made) ==> {
                let about = carried(made);
                &&& requests(state, made, about)
                &&& about.address == account
                &&& about.copy.len == len
                &&& about.copy.from == src
                &&& len > 0 ==> about.copy.at == dst
                &&& len == 0 ==> about.copy.at == 0
                &&& touched_alone(state, asked.state, account)
            }
            &&& asked.result is Err ==> asked.state.touched == state.touched
            &&& !addressed ==> halted(asked.result, ExceptionalHalt::VeryLargeNumber)
            &&& addressed && !fits ==> halted(asked.result, ExceptionalHalt::OutOfBounds)
            &&& addressed && fits && price > before.gas ==> halted(
                asked.result,
                ExceptionalHalt::OutOfGas,
            )
            &&& now.gas == if asked.result is Ok {
                before.gas - price
            } else {
                before.gas as int
            }
            &&& if addressed && fits {
                reached_alone(state, asked.state, account)
            } else {
                asked.state.accessed == state.accessed
            }
            &&& asked.state.tracer == if addressed {
                state.tracer.on_ext_opcode(0x3C, account)
            } else {
                state.tracer
            }
            &&& lowest_words(before.stack, now.stack, before.stack.len() - 4)
            &&& now.memory == before.memory
            &&& same_call(asked.state, state)
        }),
{
    let account = named_on_top(state);
    let at = if len == 0 {
        0
    } else {
        dst
    };
    lemma_price_written_out(
        state,
        CopyCost {
            base: reaching_costs(state, state.env.schedule.ext_code_copy, account) as u64,
            per_word: state.env.schedule.ext_code_copy_per_word,
        },
        at,
        src,
        len,
    );
}

/// `EXTCODECOPY` puts the code that it is given into memory where it was asked to, with zeros past
/// the end of the code, and tells the collector how long the code is. An answer that is an error is
/// the result, and changes nothing.
pub proof fn lemma_code_answer(
    state: VMView,
    pending: ExtCodeCopyView,
    code: Seq<u8>,
    error: VMError,
)
    ensures
        ({
            let done = ext_code_copy_resumes(state, pending, Ok(code));
            let failed = ext_code_copy_resumes(state, pending, Err(error));
            &&& done.result == Ok::<OpcodeResult, VMError>(OpcodeResult::Continue)
            &&& holds_copy(
                state.frame.memory,
                done.state.frame.memory,
                pending.copy.at as int,
                pending.copy.from as int,
                pending.copy.len as int,
                code,
            )
            &&& done.state.frame.stack == state.frame.stack
            &&& done.state.frame.gas == state.frame.gas
            &&& done.state.accessed == state.accessed
            &&& done.state.touched == state.touched
            &&& same_call(done.state, state)
            &&& code.len() <= usize::MAX ==> done.state.tracer == state.tracer.code_size(
                0x3C,
                pending.address,
                code.len() as usize,
            )
            &&& failed.state == state
            &&& failed.result == Err::<OpcodeResult, VMError>(error)
        }),
{
}

/// `EXTCODECOPY` in full, from its question through its completion: the bytes of the code, with
/// zeros past its end, stand in the range of memory that the words on the stack name, and all other
/// bytes are as before.
pub proof fn lemma_code_copy_in_full(state: VMView, dst: nat, src: nat, len: nat, code: Seq<u8>)
    requires
        four_words(state.frame.stack, dst, src, len),
    ensures
        ext_code_copy_asks(state).result matches Ok(made) ==> {
            let done = ext_code_copy_resumes(
                ext_code_copy_asks(state).state,
                carried(made),
                Ok(code),
            );
            &&& done.result == Ok::<OpcodeResult, VMError>(OpcodeResult::Continue)
            &&& holds_copy(
                state.frame.memory,
                done.state.frame.memory,
                dst as int,
                src as int,
                len as int,
                code,
            )
            &&& lowest_words(
                state.frame.stack,
                done.state.frame.stack,
                state.frame.stack.len() - 4,
            )
        },
{
    lemma_code_is_asked_for(state, dst, src, len);
}

/// What a request for code carries, and what a code is, is shown as it is.
pub proof fn lemma_code_requests_show_what_they_carry(
    pending: ExtCodeCopyRead,
    code: Code,
    error: VMError,
)
    ensures
        copy_request_view(Request::CheckTarget(pending)) == Request::CheckTarget(pending@),
        copy_request_view(Request::Read(pending)) == Request::Read(pending@),
        code_bytes(Ok(code)) == Ok::<Seq<u8>, VMError>(code@),
        code_bytes(Err(error)) == Err::<Seq<u8>, VMError>(error),
{
}

} // verus!
