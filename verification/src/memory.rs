//! The byte-addressed memory of a call frame.
use crate::errors::{ExceptionalHalt, VMError};
use vstd::prelude::*;

verus! {

/// The number of 32-byte words that hold `size` bytes.
pub open spec fn words(size: nat) -> nat {
    (size + 31) / 32
}

/// The size that memory has to have for a range of `len` bytes from `offset` to lie in it: a whole
/// number of words, and none for an empty range.
pub open spec fn memory_end(offset: nat, len: nat) -> nat {
    if len == 0 {
        0
    } else {
        32 * words(offset + len)
    }
}

/// What memory holds after `data` was stored at `offset`: it grows by whole words, with zeros, as
/// far as the range needs, and changes in the range alone. An empty range changes nothing.
pub open spec fn stored(memory: Seq<u8>, offset: nat, data: Seq<u8>) -> Seq<u8> {
    let end = memory_end(offset, data.len());
    Seq::new(
        if end > memory.len() {
            end
        } else {
            memory.len()
        },
        |i: int|
            if offset <= i < offset + data.len() {
                data[i - offset]
            } else if i < memory.len() {
                memory[i]
            } else {
                0
            },
    )
}

/// The `len` bytes of `data` from `offset`, with zeros for what lies past its end.
pub open spec fn window(data: Seq<u8>, offset: nat, len: nat) -> Seq<u8> {
    Seq::new(
        len,
        |i: int|
            if offset + i < data.len() {
                data[offset + i]
            } else {
                0
            },
    )
}

/// `len` zero bytes.
pub open spec fn zeros(len: nat) -> Seq<u8> {
    Seq::new(len, |i: int| 0u8)
}

/// The size that memory has to have for a range of `len` bytes from `offset` to lie in it.
pub fn calculate_memory_size(offset: usize, len: usize) -> (size: Result<usize, VMError>)
    ensures
        match size {
            Ok(size) => size == memory_end(offset as nat, len as nat),
            Err(error) => error == VMError::ExceptionalHalt(ExceptionalHalt::OutOfBounds)
                && memory_end(offset as nat, len as nat) > usize::MAX,
        },
{
    if len == 0 {
        return Ok(0);
    }
    let too_large: Result<usize, VMError> = Err(
        VMError::ExceptionalHalt(ExceptionalHalt::OutOfBounds),
    );
    if len > usize::MAX - offset {
        return too_large;
    }
    let end: usize = offset + len;
    let over: usize = end % 32;
    if over == 0 {
        return Ok(end);
    }
    let fill: usize = 32 - over;
    if fill > usize::MAX - end {
        return too_large;
    }
    Ok(end + fill)
}

/// Storing two adjacent ranges one after the other is storing them at once.
pub proof fn lemma_stored_adjacent(memory: Seq<u8>, offset: nat, first: Seq<u8>, second: Seq<u8>)
    ensures
        stored(stored(memory, offset, first), offset + first.len(), second) == stored(
            memory,
            offset,
            first + second,
        ),
{
    assert(stored(stored(memory, offset, first), offset + first.len(), second) =~= stored(
        memory,
        offset,
        first + second,
    ));
}

/// The memory of a call frame.
#[derive(Clone, Debug)]
pub struct Memory {
    data: Vec<u8>,
}

impl View for Memory {
    type V = Seq<u8>;

    closed spec fn view(&self) -> Seq<u8> {
        self.data@
    }
}

impl Memory {
    /// Memory that holds nothing.
    pub fn new() -> (memory: Self)
        ensures
            memory@ == Seq::<u8>::empty(),
    {
        Memory { data: Vec::new() }
    }

    /// The size of the memory.
    pub fn len(&self) -> (len: usize)
        ensures
            len == self@.len(),
    {
        self.data.len()
    }

    /// The bytes of the memory.
    pub fn bytes(&self) -> (bytes: &Vec<u8>)
        ensures
            bytes@ == self@,
    {
        &self.data
    }

    /// Makes the memory at least `size` bytes large.
    fn grow(&mut self, size: usize)
        ensures
            final(self)@.len() == (if size > old(self)@.len() {
                size as nat
            } else {
                old(self)@.len()
            }),
            forall|i: int|
                0 <= i < final(self)@.len() ==> final(self)@[i] == (if i < old(self)@.len() {
                    old(self)@[i]
                } else {
                    0
                }),
    {
        if size > self.data.len() {
            self.data.resize(size, 0u8);
            proof {
                let before = old(self)@.len() as int;
                assert forall|i: int| 0 <= i < self@.len() implies self@[i] == (if i < before {
                    old(self)@[i]
                } else {
                    0
                }) by {
                    if i < before {
                        assert(self@.subrange(0, before)[i] == self@[i]);
                    }
                }
            }
        }
    }

    /// Stores `data` at `offset`.
    pub fn store_data(&mut self, offset: usize, data: &[u8]) -> (result: Result<(), VMError>)
        ensures
            match result {
                Ok(_) => {
                    &&& memory_end(offset as nat, data@.len()) <= usize::MAX
                    &&& final(self)@ == stored(old(self)@, offset as nat, data@)
                },
                Err(error) => {
                    &&& error == VMError::ExceptionalHalt(ExceptionalHalt::OutOfBounds)
                    &&& memory_end(offset as nat, data@.len()) > usize::MAX
                    &&& final(self)@ == old(self)@
                },
            },
    {
        let end = calculate_memory_size(offset, data.len())?;
        self.grow(end);
        let ghost grown = self@;
        assert(grown.len() == self.data.len());
        let mut i: usize = 0;
        while i < data.len()
            invariant
                i <= data@.len(),
                self@.len() == grown.len(),
                data@.len() > 0 ==> offset + data@.len() <= grown.len() <= usize::MAX,
                forall|k: int|
                    0 <= k < grown.len() ==> self@[k] == (if offset <= k < offset + i {
                        data@[k - offset]
                    } else {
                        grown[k]
                    }),
            decreases data@.len() - i,
        {
            self.data[offset + i] = data[i];
            i += 1;
        }
        assert(self@ =~= stored(old(self)@, offset as nat, data@));
        Ok(())
    }

    /// Stores `len` zeros at `offset`.
    pub fn store_zeros(&mut self, offset: usize, len: usize) -> (result: Result<(), VMError>)
        ensures
            match result {
                Ok(_) => {
                    &&& memory_end(offset as nat, len as nat) <= usize::MAX
                    &&& final(self)@ == stored(old(self)@, offset as nat, zeros(len as nat))
                },
                Err(error) => {
                    &&& error == VMError::ExceptionalHalt(ExceptionalHalt::OutOfBounds)
                    &&& memory_end(offset as nat, len as nat) > usize::MAX
                    &&& final(self)@ == old(self)@
                },
            },
    {
        let end = calculate_memory_size(offset, len)?;
        self.grow(end);
        let ghost grown = self@;
        assert(grown.len() == self.data.len());
        let mut i: usize = 0;
        while i < len
            invariant
                i <= len,
                self@.len() == grown.len(),
                len > 0 ==> offset + len <= grown.len() <= usize::MAX,
                forall|k: int|
                    0 <= k < grown.len() ==> self@[k] == (if offset <= k < offset + i {
                        0
                    } else {
                        grown[k]
                    }),
            decreases len - i,
        {
            self.data[offset + i] = 0u8;
            i += 1;
        }
        assert(self@ =~= stored(old(self)@, offset as nat, zeros(len as nat)));
        Ok(())
    }
}

impl Default for Memory {
    fn default() -> (memory: Self)
        ensures
            memory@ == Seq::<u8>::empty(),
    {
        Memory::new()
    }
}

/// The part of `data` that lies in the range of `len` bytes from `offset`.
pub open spec fn overlap(data: Seq<u8>, offset: nat, len: nat) -> Seq<u8> {
    data.take(
        if offset + len < data.len() {
            (offset + len) as int
        } else {
            data.len() as int
        },
    ).skip(
        if offset < data.len() {
            offset as int
        } else {
            data.len() as int
        },
    )
}

/// The part of `data` that lies in the range of `len` bytes from `offset`. Continued with zeros to
/// `len` bytes, it is that range of the data continued with zeros.
pub fn available<'a>(data: &'a [u8], offset: usize, len: usize) -> (part: &'a [u8])
    ensures
        part@ == overlap(data@, offset as nat, len as nat),
        part@.len() <= len,
        part@ + zeros((len - part@.len()) as nat) == window(data@, offset as nat, len as nat),
{
    let start: usize = if offset < data.len() {
        offset
    } else {
        data.len()
    };
    let stop: usize = if len < data.len() - start {
        start + len
    } else {
        data.len()
    };
    let part = vstd::slice::slice_subrange(data, start, stop);
    assert(part@ =~= overlap(data@, offset as nat, len as nat));
    assert(part@ + zeros((len - part@.len()) as nat) =~= window(data@, offset as nat, len as nat));
    part
}

} // verus!
