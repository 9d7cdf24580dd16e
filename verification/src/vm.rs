//! The part of the machine's state that the environment instructions read and change.
use crate::erc7562_tracer::{Erc7562FrameTracer, TracerView};
use crate::errors::{ExceptionalHalt, VMError};
use crate::gas_cost::GasSchedule;
use crate::keyed::KeySet;
use crate::memory::{window, Memory};
use crate::word::{Address, H256, U256};
use vstd::prelude::*;

verus! {

/// The greatest number of words on the stack.
pub const STACK_LIMIT: usize = 1024;

/// The operand stack of a call frame, the top last.
#[derive(Debug)]
pub struct Stack {
    words: Vec<U256>,
}

/// The numbers that words stand for.
pub open spec fn word_values(words: Seq<U256>) -> Seq<nat> {
    words.map_values(|word: U256| word@)
}

impl View for Stack {
    type V = Seq<nat>;

    closed spec fn view(&self) -> Seq<nat> {
        word_values(self.words@)
    }
}

impl Stack {
    /// The stack is never larger than its limit.
    #[verifier::type_invariant]
    spec fn within_limit(self) -> bool {
        self.words@.len() <= STACK_LIMIT
    }

    /// The empty stack.
    pub fn new() -> (stack: Self)
        ensures
            stack@ == Seq::<nat>::empty(),
    {
        let stack = Stack { words: Vec::new() };
        assert(stack@ =~= Seq::<nat>::empty());
        stack
    }

    /// How many words the stack holds; never more than its limit.
    pub fn len(&self) -> (len: usize)
        ensures
            len == self@.len(),
            len <= STACK_LIMIT,
    {
        proof {
            use_type_invariant(self);
        }
        self.words.len()
    }

    /// The word that lies `depth` words below the top.
    pub fn peek(&self, depth: usize) -> (word: U256)
        requires
            depth < self@.len(),
        ensures
            word@ == self@[self@.len() - 1 - depth],
    {
        self.words[self.words.len() - 1 - depth]
    }

    /// Puts `word` on top.
    pub fn push(&mut self, word: U256) -> (result: Result<(), VMError>)
        ensures
            match result {
                Ok(_) => old(self)@.len() < STACK_LIMIT && final(self)@ == old(self)@.push(word@),
                Err(error) => {
                    &&& error == VMError::ExceptionalHalt(ExceptionalHalt::StackOverflow)
                    &&& old(self)@.len() == STACK_LIMIT
                    &&& final(self)@ == old(self)@
                },
            },
    {
        proof {
            use_type_invariant(&*self);
        }
        if self.words.len() >= STACK_LIMIT {
            return Err(VMError::ExceptionalHalt(ExceptionalHalt::StackOverflow));
        }
        let mut words: Vec<U256> = Vec::new();
        std::mem::swap(&mut words, &mut self.words);
        words.push(word);
        self.words = words;
        assert(self@ =~= old(self)@.push(word@));
        Ok(())
    }

    /// Takes `n` words from the top.
    fn drop_words(&mut self, n: usize)
        requires
            n <= old(self)@.len(),
        ensures
            final(self)@ == old(self)@.take(old(self)@.len() - n),
    {
        proof {
            use_type_invariant(&*self);
        }
        let mut words: Vec<U256> = Vec::new();
        std::mem::swap(&mut words, &mut self.words);
        let left: usize = words.len() - n;
        words.truncate(left);
        self.words = words;
        assert(self@ =~= old(self)@.take(old(self)@.len() - n));
    }

    /// Takes the top word.
    pub fn pop1(&mut self) -> (result: Result<U256, VMError>)
        ensures
            old(self)@.len() <= STACK_LIMIT,
            match result {
                Ok(word) => {
                    &&& old(self)@.len() >= 1
                    &&& word@ == old(self)@.last()
                    &&& final(self)@ == old(self)@.drop_last()
                },
                Err(error) => {
                    &&& error == VMError::ExceptionalHalt(ExceptionalHalt::StackUnderflow)
                    &&& old(self)@.len() < 1
                    &&& final(self)@ == old(self)@
                },
            },
    {
        if self.len() < 1 {
            return Err(VMError::ExceptionalHalt(ExceptionalHalt::StackUnderflow));
        }
        let word = self.peek(0);
        self.drop_words(1);
        assert(self@ =~= old(self)@.drop_last());
        Ok(word)
    }

    /// Takes the top three words, the top first.
    pub fn pop3(&mut self) -> (result: Result<(U256, U256, U256), VMError>)
        ensures
            old(self)@.len() <= STACK_LIMIT,
            match result {
                Ok((a, b, c)) => {
                    let n = old(self)@.len();
                    &&& n >= 3
                    &&& a@ == old(self)@[n - 1]
                    &&& b@ == old(self)@[n - 2]
                    &&& c@ == old(self)@[n - 3]
                    &&& final(self)@ == old(self)@.take(n - 3)
                },
                Err(error) => {
                    &&& error == VMError::ExceptionalHalt(ExceptionalHalt::StackUnderflow)
                    &&& old(self)@.len() < 3
                    &&& final(self)@ == old(self)@
                },
            },
    {
        if self.len() < 3 {
            return Err(VMError::ExceptionalHalt(ExceptionalHalt::StackUnderflow));
        }
        let words = (self.peek(0), self.peek(1), self.peek(2));
        self.drop_words(3);
        Ok(words)
    }

    /// Takes the top four words, the top first.
    pub fn pop4(&mut self) -> (result: Result<(U256, U256, U256, U256), VMError>)
        ensures
            old(self)@.len() <= STACK_LIMIT,
            match result {
                Ok((a, b, c, d)) => {
                    let n = old(self)@.len();
                    &&& n >= 4
                    &&& a@ == old(self)@[n - 1]
                    &&& b@ == old(self)@[n - 2]
                    &&& c@ == old(self)@[n - 3]
                    &&& d@ == old(self)@[n - 4]
                    &&& final(self)@ == old(self)@.take(n - 4)
                },
                Err(error) => {
                    &&& error == VMError::ExceptionalHalt(ExceptionalHalt::StackUnderflow)
                    &&& old(self)@.len() < 4
                    &&& final(self)@ == old(self)@
                },
            },
    {
        if self.len() < 4 {
            return Err(VMError::ExceptionalHalt(ExceptionalHalt::StackUnderflow));
        }
        let words = (self.peek(0), self.peek(1), self.peek(2), self.peek(3));
        self.drop_words(4);
        Ok(words)
    }
}

impl Default for Stack {
    fn default() -> (stack: Self)
        ensures
            stack@ == Seq::<nat>::empty(),
    {
        Stack::new()
    }
}

/// The code of a contract, in a buffer that goes on with zeros past its end.
#[derive(Debug)]
pub struct Code {
    buffer: Vec<u8>,
    len: usize,
}

impl View for Code {
    type V = Seq<u8>;

    closed spec fn view(&self) -> Seq<u8> {
        self.buffer@.take(self.len as int)
    }
}

impl Code {
    /// The buffer is the code and zeros after it.
    #[verifier::type_invariant]
    spec fn padded_with_zeros(self) -> bool {
        &&& self.len <= self.buffer@.len()
        &&& forall|i: int| self.len <= i < self.buffer@.len() ==> self.buffer@[i] == 0
    }

    /// The code `code`, with `padding` zeros after it in its buffer.
    pub fn new(code: Vec<u8>, padding: usize) -> (result: Self)
        ensures
            result@ == code@,
    {
        let len: usize = code.len();
        let mut buffer = code;
        let mut i: usize = 0;
        while i < padding
            invariant
                i <= padding,
                buffer@.len() == len + i,
                code@.len() == len,
                forall|k: int|
                    0 <= k < buffer@.len() ==> buffer@[k] == (if k < len {
                        code@[k]
                    } else {
                        0
                    }),
            decreases padding - i,
        {
            buffer.push(0u8);
            i += 1;
        }
        let result = Code { buffer, len };
        assert(result@ =~= code@);
        result
    }

    /// How long the code is, without the zeros after it.
    pub fn len(&self) -> (len: usize)
        ensures
            len == self@.len(),
    {
        proof {
            use_type_invariant(self);
        }
        self.len
    }

    /// The whole buffer. A range of it, continued with zeros, is that range of the code, continued
    /// with zeros.
    pub fn dispatch_buf(&self) -> (buffer: &[u8])
        ensures
            self@.len() <= buffer@.len() <= usize::MAX,
            forall|offset: nat, len: nat|
                #[trigger] window(buffer@, offset, len) == window(self@, offset, len),
    {
        proof {
            use_type_invariant(self);
            assert forall|offset: nat, len: nat|
                #[trigger] window(self.buffer@, offset, len) == window(self@, offset, len) by {
                assert(window(self.buffer@, offset, len) =~= window(self@, offset, len));
            }
        }
        assert(self.buffer@.len() == self.buffer.len());
        self.buffer.as_slice()
    }
}

/// What the state holds of an account.
#[derive(Clone, Copy, Debug)]
pub struct Account {
    pub balance: U256,
    pub code_hash: H256,
    /// The account has neither balance, nor nonce, nor code.
    pub is_empty: bool,
}

/// A running call.
#[derive(Debug)]
pub struct CallFrame {
    pub gas_remaining: u64,
    pub stack: Stack,
    pub memory: Memory,
    pub to: Address,
    pub msg_sender: Address,
    pub msg_value: U256,
    pub calldata: Vec<u8>,
    pub bytecode: Code,
    pub sub_return_data: Vec<u8>,
}

/// What a call runs on.
#[verifier::ext_equal]
pub struct CallFrameView {
    pub gas: u64,
    pub stack: Seq<nat>,
    pub memory: Seq<u8>,
    pub to: Address,
    pub msg_sender: Address,
    pub msg_value: nat,
    pub calldata: Seq<u8>,
    pub code: Seq<u8>,
    pub return_data: Seq<u8>,
}

impl View for CallFrame {
    type V = CallFrameView;

    open spec fn view(&self) -> CallFrameView {
        CallFrameView {
            gas: self.gas_remaining,
            stack: self.stack@,
            memory: self.memory@,
            to: self.to,
            msg_sender: self.msg_sender,
            msg_value: self.msg_value@,
            calldata: self.calldata@,
            code: self.bytecode@,
            return_data: self.sub_return_data@,
        }
    }
}

impl CallFrame {
    /// Pays `price`; a price that cannot be paid leaves the gas as it is.
    pub fn increase_consumed_gas(&mut self, price: u64) -> (result: Result<(), VMError>)
        ensures
            match result {
                Ok(_) => {
                    &&& price <= old(self)@.gas
                    &&& final(self)@ == (CallFrameView {
                        gas: (old(self)@.gas - price) as u64,
                        ..old(self)@
                    })
                },
                Err(error) => {
                    &&& error == VMError::ExceptionalHalt(ExceptionalHalt::OutOfGas)
                    &&& price > old(self)@.gas
                    &&& final(self)@ == old(self)@
                },
            },
    {
        if price > self.gas_remaining {
            return Err(VMError::ExceptionalHalt(ExceptionalHalt::OutOfGas));
        }
        self.gas_remaining = self.gas_remaining - price;
        Ok(())
    }
}

/// What holds for a whole transaction.
#[derive(Clone, Copy, Debug)]
pub struct Environment {
    pub origin: Address,
    pub gas_price: U256,
    pub schedule: GasSchedule,
}

/// What a transaction has reached so far.
#[derive(Debug)]
pub struct Substate {
    pub accessed_addresses: KeySet<Address>,
}

impl Substate {
    /// Marks `address` as reached, and says whether it was not before.
    pub fn add_accessed_address(&mut self, address: Address) -> (cold: bool)
        ensures
            final(self).accessed_addresses@ == old(self).accessed_addresses@.insert(address),
            cold == !old(self).accessed_addresses@.contains(address),
    {
        self.accessed_addresses.insert(address)
    }
}

/// Records which accounts a block touched.
#[derive(Debug)]
pub struct BalRecorder {
    pub touched_addresses: KeySet<Address>,
}

impl BalRecorder {
    /// Records that `address` was touched.
    pub fn record_touched_address(&mut self, address: Address)
        ensures
            final(self).touched_addresses@ == old(self).touched_addresses@.insert(address),
    {
        let _ = self.touched_addresses.insert(address);
    }
}

/// Whether a run is watched for what the validation of a transaction may not do.
#[derive(Clone, Copy, Debug)]
pub struct ValidationObserver {
    pub active: bool,
}

/// The machine.
#[derive(Debug)]
pub struct VM {
    pub current_call_frame: CallFrame,
    pub env: Environment,
    pub substate: Substate,
    pub bal_recorder: Option<BalRecorder>,
    pub validation_observer: ValidationObserver,
    pub erc7562_tracer: Erc7562FrameTracer,
}

/// What the machine holds.
#[verifier::ext_equal]
pub struct VMView {
    pub frame: CallFrameView,
    pub env: Environment,
    pub accessed: Set<Address>,
    pub touched: Option<Set<Address>>,
    pub observing: bool,
    pub tracer: TracerView,
}

impl View for VM {
    type V = VMView;

    open spec fn view(&self) -> VMView {
        VMView {
            frame: self.current_call_frame@,
            env: self.env,
            accessed: self.substate.accessed_addresses@,
            touched: match self.bal_recorder {
                Some(recorder) => Some(recorder.touched_addresses@),
                None => None,
            },
            observing: self.validation_observer.active,
            tracer: self.erc7562_tracer@,
        }
    }
}

impl VMView {
    /// The machine with `stack` as its stack.
    pub open spec fn with_stack(self, stack: Seq<nat>) -> VMView {
        VMView { frame: CallFrameView { stack, ..self.frame }, ..self }
    }

    /// The machine after it paid `price`.
    pub open spec fn paid(self, price: nat) -> VMView {
        VMView {
            frame: CallFrameView { gas: (self.frame.gas - price) as u64, ..self.frame },
            ..self
        }
    }

    /// The machine with `memory` as its memory.
    pub open spec fn with_memory(self, memory: Seq<u8>) -> VMView {
        VMView { frame: CallFrameView { memory, ..self.frame }, ..self }
    }

    /// The machine after it reached `address`.
    pub open spec fn reached(self, address: Address) -> VMView {
        VMView { accessed: self.accessed.insert(address), ..self }
    }

    /// The machine after it recorded, where it records, that `address` was touched.
    pub open spec fn touching(self, address: Address) -> VMView {
        VMView {
            touched: match self.touched {
                Some(addresses) => Some(addresses.insert(address)),
                None => None,
            },
            ..self
        }
    }

    /// The machine with `tracer` as its collector of diagnostics.
    pub open spec fn with_tracer(self, tracer: TracerView) -> VMView {
        VMView { tracer, ..self }
    }
}

impl VM {
    /// Records, where there is a recorder, that `address` was touched.
    pub fn touch(&mut self, address: Address)
        ensures
            final(self)@ == old(self)@.touching(address),
    {
        if let Some(recorder) = self.bal_recorder.as_mut() {
            recorder.record_touched_address(address);
        }
    }
}

} // verus!
