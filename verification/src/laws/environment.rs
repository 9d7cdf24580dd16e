//! What holds of the environment instructions.
use crate::erc7562_tracer::TracerView;
use crate::errors::{OpcodeResult, VMError};
use crate::gas_cost::{expansion_price, lemma_memory_price_monotonic, AccessCost, CopyCost};
use crate::memory::{memory_end, window};
use crate::opcode_handlers::environment::{
    balance_asks, balance_resumes, call_data_load, copied, copies, copy_asked, ext_code_copy_asks,
    ext_code_copy_resumes, ext_code_hash_asks, ext_code_hash_ends, ext_code_hash_records,
    ext_code_hash_resumes, ext_code_size_asks, ext_code_size_resumes, pays_and_pushes,
    price_of_access, price_of_ext_code_copy, return_data_copies, AccountRead, Asked, CodeLengthRead, CopyView, ExtCodeCopyView, HashStep, Outcome, Request,
};
use crate::vm::{Account, VMView, STACK_LIMIT};
use crate::word::{address_of, be_value, lemma_address_round_trip, Address};
use vstd::prelude::*;

verus! {

/// Reading memory back after a copy: the bytes of the range are those of the source, with zeros
/// past its end; all other bytes are as before; bytes that were added outside of the range are
/// zero.
pub proof fn lemma_copy_reads_back(memory: Seq<u8>, copy: CopyView, source: Seq<u8>, i: int)
    requires
        0 <= i < copied(memory, copy, source).len(),
    ensures
        copied(memory, copy, source)[i] == (if copy.at <= i < copy.at + copy.len {
            let k = copy.from + (i - copy.at);
            if k < source.len() {
                source[k]
            } else {
                0
            }
        } else if i < memory.len() {
            memory[i]
        } else {
            0
        }),
{
}

/// A copy never shrinks memory, makes room for its range, and grows memory by whole words.
pub proof fn lemma_copy_grows_memory(memory: Seq<u8>, copy: CopyView, source: Seq<u8>)
    ensures
        copied(memory, copy, source).len() >= memory.len(),
        copy.len > 0 ==> copied(memory, copy, source).len() >= copy.at + copy.len,
        memory.len() % 32 == 0 ==> copied(memory, copy, source).len() % 32 == 0,
{
}

/// A copy of nothing leaves memory as it is, wherever it would go.
pub proof fn lemma_empty_copy_changes_nothing(memory: Seq<u8>, copy: CopyView, source: Seq<u8>)
    requires
        copy.len == 0,
    ensures
        copied(memory, copy, source) == memory,
{
    assert(copied(memory, copy, source) =~= memory);
}

/// Memory that is paid for once is not paid for again.
pub proof fn lemma_second_copy_pays_no_memory(memory: Seq<u8>, copy: CopyView, source: Seq<u8>)
    ensures
        expansion_price(
            memory_end(copy.at, copy.len),
            copied(memory, copy, source).len(),
        ) == 0,
{
}

/// Growing memory in two steps costs as much as growing it at once.
pub proof fn lemma_memory_is_paid_by_its_size(small: nat, middle: nat, large: nat)
    requires
        small <= middle <= large,
    ensures
        expansion_price(middle, small) + expansion_price(large, middle) == expansion_price(
            large,
            small,
        ),
{
    lemma_memory_price_monotonic(small, middle);
    lemma_memory_price_monotonic(middle, large);
}

/// `RETURNDATACOPY` never makes up data: where it completes, the range lies in what the last call
/// handed back.
pub proof fn lemma_return_data_is_never_padded(state: VMView)
    requires
        return_data_copies(state).result is Ok,
    ensures
        ({
            let copy = copy_asked(state.frame.stack, 0);
            &&& copy.from + copy.len <= state.frame.return_data.len()
            &&& window(state.frame.return_data, copy.from, copy.len)
                == state.frame.return_data.subrange(copy.from as int, (copy.from + copy.len) as int)
        }),
{
    let copy = copy_asked(state.frame.stack, 0);
    assert(window(state.frame.return_data, copy.from, copy.len)
        =~= state.frame.return_data.subrange(copy.from as int, (copy.from + copy.len) as int));
}

/// The address that a program learns from `ADDRESS`, `CALLER` or `ORIGIN` is the one that it then
/// asks about.
pub proof fn lemma_pushed_address_names_account(
    state: VMView,
    price: u64,
    address: Address,
)
    requires
        pays_and_pushes(state, price, be_value(address.0@)).result is Ok,
    ensures
        address_of(pays_and_pushes(state, price, be_value(address.0@)).state.frame.stack.last())
            == address,
{
    lemma_address_round_trip(address);
}

/// Reaching an account that was reached before costs the warm price; it costs the cold price the
/// first time.
pub proof fn lemma_second_access_is_warm(state: VMView, cost: AccessCost, address: Address)
    ensures
        !state.accessed.contains(address) ==> price_of_access(state, cost, address) == cost.cold,
        price_of_access(state.reached(address), cost, address) == cost.warm,
{
}

/// What was asked for was paid for: the price was there and is gone.
pub open spec fn paid_for<Q>(state: VMView, asked: Asked<Q>, price: nat) -> bool {
    asked.result is Ok ==> price <= state.frame.gas && asked.state.frame.gas == state.frame.gas
        - price
}

/// The four instructions that read the state ask only once they have paid, and mark the account as
/// reached.
pub proof fn lemma_reads_are_paid_first(state: VMView)
    ensures
        ({
            let top = address_of(state.frame.stack.last());
            let schedule = state.env.schedule;
            &&& paid_for(
                state,
                balance_asks(state),
                price_of_access(state, schedule.balance, top) as nat,
            )
            &&& paid_for(
                state,
                ext_code_size_asks(state),
                price_of_access(state, schedule.ext_code_size, top) as nat,
            )
            &&& paid_for(
                state,
                ext_code_hash_asks(state),
                price_of_access(state, schedule.ext_code_hash, top) as nat,
            )
            &&& paid_for(
                state,
                ext_code_copy_asks(state),
                price_of_ext_code_copy(state, top, copy_asked(state.frame.stack, 1)),
            )
            &&& balance_asks(state).result is Ok ==> balance_asks(state).state.accessed.contains(
                top,
            )
            &&& ext_code_size_asks(state).result is Ok ==> ext_code_size_asks(
                state,
            ).state.accessed.contains(top)
            &&& ext_code_hash_asks(state).result is Ok ==> ext_code_hash_asks(
                state,
            ).state.accessed.contains(top)
            &&& ext_code_copy_asks(state).result is Ok ==> ext_code_copy_asks(
                state,
            ).state.accessed.contains(top)
        }),
{
}

/// An instruction that halts before it asks records no touch of an account.
pub proof fn lemma_unpaid_reads_touch_nothing(state: VMView)
    ensures
        balance_asks(state).state.touched == state.touched,
        ext_code_size_asks(state).state.touched == state.touched,
        ext_code_hash_asks(state).state.touched == state.touched,
        ext_code_copy_asks(state).result is Err ==> ext_code_copy_asks(state).state.touched
            == state.touched,
{
}

/// Where the validation of a transaction is watched, the account is checked before its code is
/// looked at; elsewhere it is not checked.
pub proof fn lemma_targets_are_checked_when_watched(state: VMView)
    ensures
        ext_code_size_asks(state).result matches Ok(asked) ==> (asked is CheckTarget)
            == state.observing,
        ext_code_hash_asks(state).result matches Ok(asked) ==> (asked is CheckTarget)
            == state.observing,
        ext_code_copy_asks(state).result matches Ok(asked) ==> (asked is CheckTarget)
            == state.observing,
{
}

/// What a request is about, whichever it is.
pub open spec fn subject<P>(asked: Request<P>) -> P {
    match asked {
        Request::CheckTarget(pending) => pending,
        Request::Read(pending) => pending,
    }
}

/// The machine in `now` has the top word of `before` replaced by `word`, and has recorded, where it
/// records, that the account which that word named was touched.
pub open spec fn answered(before: VMView, now: Outcome, word: nat) -> bool {
    &&& now.result == Ok::<OpcodeResult, VMError>(OpcodeResult::Continue)
    &&& now.state.frame.stack == before.frame.stack.drop_last().push(word)
    &&& now.state.frame.memory == before.frame.memory
    &&& now.state.touched == match before.touched {
        Some(addresses) => Some(addresses.insert(address_of(before.frame.stack.last()))),
        None => None,
    }
}

/// An instruction that asked about an account, and is told, completes: it replaces the address by
/// what was found. The stack has room, as the address left it.
pub proof fn lemma_answers_replace_the_address(
    state: VMView,
    account: Account,
    code_len: usize,
)
    requires
        state.frame.stack.len() <= STACK_LIMIT,
    ensures
        balance_asks(state).result matches Ok(pending) ==> answered(
            state,
            balance_resumes(balance_asks(state).state, pending, Ok(account)),
            account.balance@,
        ),
        ext_code_size_asks(state).result matches Ok(asked) ==> answered(
            state,
            ext_code_size_resumes(ext_code_size_asks(state).state, subject(asked), Ok(code_len)),
            code_len as nat,
        ),
        ext_code_hash_asks(state).result matches Ok(asked) ==> answered(
            state,
            ext_code_hash_ends(ext_code_hash_asks(state).state, subject(asked).address, account),
            if account.is_empty {
                0
            } else {
                be_value(account.code_hash.0@)
            },
        ),
{
}

/// `EXTCODECOPY` that asked for code, and is given it, completes: the four words are gone from the
/// stack, and memory holds the copy that they asked for.
pub proof fn lemma_given_code_is_copied(state: VMView, code: Seq<u8>)
    ensures
        ext_code_copy_asks(state).result matches Ok(asked) ==> {
            let stack = state.frame.stack;
            let done = ext_code_copy_resumes(
                ext_code_copy_asks(state).state,
                subject(asked),
                Ok(code),
            );
            &&& done.result == Ok::<OpcodeResult, VMError>(OpcodeResult::Continue)
            &&& done.state.frame.stack == stack.take(stack.len() - 4)
            &&& done.state.frame.memory == copied(state.frame.memory, copy_asked(stack, 1), code)
        },
{
}

/// What an instruction may not change: who calls whom with what, the code, the data that a call
/// handed back, and the transaction. Gas never comes back, and the stack stays within its limit.
pub open spec fn preserves(before: VMView, now: VMView) -> bool {
    &&& now.frame.to == before.frame.to
    &&& now.frame.msg_sender == before.frame.msg_sender
    &&& now.frame.msg_value == before.frame.msg_value
    &&& now.frame.calldata == before.frame.calldata
    &&& now.frame.code == before.frame.code
    &&& now.frame.return_data == before.frame.return_data
    &&& now.env == before.env
    &&& now.observing == before.observing
    &&& now.frame.gas <= before.frame.gas
    &&& before.frame.stack.len() <= STACK_LIMIT ==> now.frame.stack.len() <= STACK_LIMIT
    &&& before.accessed.subset_of(now.accessed)
}

/// Every instruction preserves what it may not change, whether it completes or halts.
pub proof fn lemma_instructions_preserve(
    state: VMView,
    price: u64,
    word: nat,
    cost: CopyCost,
    source: Seq<u8>,
)
    ensures
        preserves(state, pays_and_pushes(state, price, word).state),
        preserves(state, call_data_load(state).state),
        preserves(state, copies(state, cost, source).state),
        preserves(state, return_data_copies(state).state),
        preserves(state, balance_asks(state).state),
        preserves(state, ext_code_size_asks(state).state),
        preserves(state, ext_code_copy_asks(state).state),
        preserves(state, ext_code_hash_asks(state).state),
{
}

/// So does every instruction that goes on with an answer.
pub proof fn lemma_resumed_instructions_preserve(
    state: VMView,
    pending: AccountRead,
    account: Result<Account, VMError>,
    code_len: Result<usize, VMError>,
    copy: ExtCodeCopyView,
    code: Result<Seq<u8>, VMError>,
    length_read: CodeLengthRead,
)
    ensures
        preserves(state, balance_resumes(state, pending, account).state),
        preserves(state, ext_code_size_resumes(state, pending, code_len).state),
        preserves(state, ext_code_copy_resumes(state, copy, code).state),
        preserves(state, ext_code_hash_resumes(state, pending, account).state),
        preserves(state, ext_code_hash_records(state, length_read, code_len).state),
{
}

/// An instruction that halts leaves memory as it is.
pub proof fn lemma_halting_copies_leave_memory(state: VMView, cost: CopyCost, source: Seq<u8>)
    ensures
        copies(state, cost, source).result is Err ==> copies(state, cost, source).state.frame.memory
            == state.frame.memory,
        return_data_copies(state).result is Err ==> return_data_copies(state).state.frame.memory
            == state.frame.memory,
{
}

/// Two outcomes that differ in what was collected alone.
pub open spec fn same_but_tracer(one: Outcome, other: Outcome) -> bool {
    one.result == other.result && one.state.with_tracer(other.state.tracer) == other.state
}

/// Two questions, and the machine at that point, that differ in what was collected alone.
pub open spec fn asks_same_but_tracer<Q>(one: Asked<Q>, other: Asked<Q>) -> bool {
    one.result == other.result && one.state.with_tracer(other.state.tracer) == other.state
}

/// Collecting diagnostics changes nothing else: with another collector, every instruction asks,
/// completes and halts alike.
pub proof fn lemma_collecting_changes_nothing_else(
    state: VMView,
    tracer: TracerView,
    price: u64,
    word: nat,
    cost: CopyCost,
    source: Seq<u8>,
)
    ensures
        ({
            let other = state.with_tracer(tracer);
            &&& same_but_tracer(
                pays_and_pushes(state, price, word),
                pays_and_pushes(other, price, word),
            )
            &&& same_but_tracer(call_data_load(state), call_data_load(other))
            &&& same_but_tracer(copies(state, cost, source), copies(other, cost, source))
            &&& same_but_tracer(return_data_copies(state), return_data_copies(other))
            &&& asks_same_but_tracer(balance_asks(state), balance_asks(other))
            &&& asks_same_but_tracer(ext_code_size_asks(state), ext_code_size_asks(other))
            &&& asks_same_but_tracer(ext_code_copy_asks(state), ext_code_copy_asks(other))
            &&& asks_same_but_tracer(ext_code_hash_asks(state), ext_code_hash_asks(other))
        }),
{
}

/// Nor does it change how an instruction goes on with an answer.
pub proof fn lemma_collecting_changes_no_answer(
    state: VMView,
    tracer: TracerView,
    pending: AccountRead,
    account: Result<Account, VMError>,
    code_len: Result<usize, VMError>,
    copy: ExtCodeCopyView,
    code: Result<Seq<u8>, VMError>,
)
    ensures
        ({
            let other = state.with_tracer(tracer);
            &&& same_but_tracer(
                balance_resumes(state, pending, account),
                balance_resumes(other, pending, account),
            )
            &&& same_but_tracer(
                ext_code_size_resumes(state, pending, code_len),
                ext_code_size_resumes(other, pending, code_len),
            )
            &&& same_but_tracer(
                ext_code_copy_resumes(state, copy, code),
                ext_code_copy_resumes(other, copy, code),
            )
        }),
{
}

/// `EXTCODEHASH` reads the length of the code for the collector alone: where that read succeeds, it
/// ends as it does without a collector.
pub proof fn lemma_hash_does_not_depend_on_collecting(
    state: VMView,
    tracer: TracerView,
    pending: AccountRead,
    account: Account,
    len: usize,
)
    requires
        !state.tracer.active,
        tracer.active,
    ensures
        ({
            let other = state.with_tracer(tracer);
            let silent = ext_code_hash_resumes(state, pending, Ok(account));
            let asked = ext_code_hash_resumes(other, pending, Ok(account));
            let length_read = CodeLengthRead { address: pending.address, account };
            let traced = ext_code_hash_records(other, length_read, Ok(len));
            &&& asked.state == other
            &&& asked.result == Ok::<HashStep, VMError>(HashStep::ReadCodeLength(length_read))
            &&& traced.state.with_tracer(silent.state.tracer) == silent.state
            &&& silent.result == match traced.result {
                Ok(done) => Ok::<HashStep, VMError>(HashStep::Done(done)),
                Err(error) => Err(error),
            }
        }),
{
}

} // verus!
