//! Words as sizes and offsets.
use crate::errors::{ExceptionalHalt, VMError};
use crate::word::U256;
use vstd::prelude::*;

verus! {

/// The word as a `usize`.
pub fn u256_to_usize(word: U256) -> (result: Result<usize, VMError>)
    ensures
        match result {
            Ok(n) => n == word@,
            Err(error) => error == VMError::ExceptionalHalt(ExceptionalHalt::VeryLargeNumber)
                && word@ > usize::MAX,
        },
{
    match word.to_usize() {
        Some(n) => Ok(n),
        None => Err(VMError::ExceptionalHalt(ExceptionalHalt::VeryLargeNumber)),
    }
}

/// A size and an offset small enough for the machine; the offset of an empty range may be any.
pub open spec fn range_fits(size: nat, offset: nat) -> bool {
    size <= usize::MAX && (size > 0 ==> offset <= usize::MAX)
}

/// The offset of a range, taken as zero where the range is empty.
pub open spec fn range_offset(size: nat, offset: nat) -> nat {
    if size == 0 {
        0
    } else {
        offset
    }
}

/// A size and an offset, in this order; the offset is zero where the size is.
pub fn size_offset_to_usize(size: U256, offset: U256) -> (result: Result<(usize, usize), VMError>)
    ensures
        match result {
            Ok((n, at)) => {
                &&& range_fits(size@, offset@)
                &&& n == size@
                &&& at == range_offset(size@, offset@)
            },
            Err(error) => error == VMError::ExceptionalHalt(ExceptionalHalt::VeryLargeNumber)
                && !range_fits(size@, offset@),
        },
{
    if size.is_zero() {
        return Ok((0, 0));
    }
    let n: usize = u256_to_usize(size)?;
    let at: usize = u256_to_usize(offset)?;
    Ok((n, at))
}

} // verus!
