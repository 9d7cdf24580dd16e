//! What the environment instructions cost.
use crate::errors::{ExceptionalHalt, VMError};
use crate::memory::words;
use vstd::prelude::*;

verus! {

/// The cost of reaching an account: more for the first time in a transaction.
#[derive(Clone, Copy, Debug, PartialEq, Eq, Structural)]
pub struct AccessCost {
    pub cold: u64,
    pub warm: u64,
}

/// The cost of copying into memory, apart from that of the memory itself.
#[derive(Clone, Copy, Debug, PartialEq, Eq, Structural)]
pub struct CopyCost {
    pub base: u64,
    pub per_word: u64,
}

/// The prices of one fork.
#[derive(Clone, Copy, Debug, PartialEq, Eq, Structural)]
pub struct GasSchedule {
    pub address: u64,
    pub origin: u64,
    pub gas_price: u64,
    pub caller: u64,
    pub call_value: u64,
    pub call_data_load: u64,
    pub call_data_size: u64,
    pub code_size: u64,
    pub return_data_size: u64,
    pub call_data_copy: CopyCost,
    pub code_copy: CopyCost,
    pub return_data_copy: CopyCost,
    pub balance: AccessCost,
    pub ext_code_size: AccessCost,
    pub ext_code_hash: AccessCost,
    pub ext_code_copy: AccessCost,
    pub ext_code_copy_per_word: u64,
}

impl GasSchedule {
    /// The prices that hold since the Berlin fork.
    pub fn berlin() -> (schedule: GasSchedule)
        ensures
            schedule == berlin_schedule(),
    {
        let access = AccessCost { cold: 2600, warm: 100 };
        let copy = CopyCost { base: 3, per_word: 3 };
        GasSchedule {
            address: 2,
            origin: 2,
            gas_price: 2,
            caller: 2,
            call_value: 2,
            call_data_load: 3,
            call_data_size: 2,
            code_size: 2,
            return_data_size: 2,
            call_data_copy: copy,
            code_copy: copy,
            return_data_copy: copy,
            balance: access,
            ext_code_size: access,
            ext_code_hash: access,
            ext_code_copy: access,
            ext_code_copy_per_word: 3,
        }
    }
}

/// The prices that hold since the Berlin fork.
pub open spec fn berlin_schedule() -> GasSchedule {
    let access = AccessCost { cold: 2600, warm: 100 };
    let copy = CopyCost { base: 3, per_word: 3 };
    GasSchedule {
        address: 2,
        origin: 2,
        gas_price: 2,
        caller: 2,
        call_value: 2,
        call_data_load: 3,
        call_data_size: 2,
        code_size: 2,
        return_data_size: 2,
        call_data_copy: copy,
        code_copy: copy,
        return_data_copy: copy,
        balance: access,
        ext_code_size: access,
        ext_code_hash: access,
        ext_code_copy: access,
        ext_code_copy_per_word: 3,
    }
}

/// The price of reaching an account.
pub open spec fn access_price(cost: AccessCost, cold: bool) -> u64 {
    if cold {
        cost.cold
    } else {
        cost.warm
    }
}

/// The price of reaching an account.
pub fn access_cost(cost: AccessCost, cold: bool) -> (price: u64)
    ensures
        price == access_price(cost, cold),
{
    if cold {
        cost.cold
    } else {
        cost.warm
    }
}

/// The price of having memory of `size` bytes.
pub open spec fn memory_price(size: nat) -> nat {
    3 * words(size) + words(size) * words(size) / 512
}

/// The price of memory growing from `current` bytes to at least `wanted`.
pub open spec fn expansion_price(wanted: nat, current: nat) -> nat {
    if wanted > current {
        (memory_price(wanted) - memory_price(current)) as nat
    } else {
        0
    }
}

/// The price of copying `len` bytes into memory that has to be of `wanted` bytes and is of
/// `current`.
pub open spec fn copy_price(cost: CopyCost, wanted: nat, current: nat, len: nat) -> nat {
    cost.base as nat + cost.per_word as nat * words(len) + expansion_price(wanted, current)
}

/// Larger memory costs at least as much.
pub proof fn lemma_memory_price_monotonic(small: nat, large: nat)
    requires
        small <= large,
    ensures
        memory_price(small) <= memory_price(large),
{
    let s = words(small);
    let l = words(large);
    assert(s * s <= l * l) by (nonlinear_arith)
        requires
            s <= l,
    ;
}

fn words_of(size: usize) -> (n: u128)
    ensures
        n == words(size as nat),
        n <= 0x0800_0000_0000_0000,
{
    (size as u128 + 31) / 32
}

fn memory_cost(size: usize) -> (price: u128)
    ensures
        price == memory_price(size as nat),
        price < 0x1_0000_0000_0000_0000_0000_0000_0000,
{
    let n: u128 = words_of(size);
    proof {
        assert(n * n <= 0x0800_0000_0000_0000 * 0x0800_0000_0000_0000) by (nonlinear_arith)
            requires
                0 <= n <= 0x0800_0000_0000_0000,
        ;
    }
    3 * n + n * n / 512
}

/// The price of copying `len` bytes into memory; an out-of-gas halt where no amount of gas could
/// pay it.
pub fn copy_cost(cost: CopyCost, wanted: usize, current: usize, len: usize) -> (price: Result<
    u64,
    VMError,
>)
    ensures
        match price {
            Ok(price) => price == copy_price(cost, wanted as nat, current as nat, len as nat),
            Err(error) => error == VMError::ExceptionalHalt(ExceptionalHalt::OutOfGas)
                && copy_price(cost, wanted as nat, current as nat, len as nat) > u64::MAX,
        },
{
    let n: u128 = words_of(len);
    let expansion: u128 = if wanted > current {
        proof {
            lemma_memory_price_monotonic(current as nat, wanted as nat);
        }
        memory_cost(wanted) - memory_cost(current)
    } else {
        0
    };
    proof {
        let p = cost.per_word as nat;
        let w = n as nat;
        assert(p * w <= 0xFFFF_FFFF_FFFF_FFFF * 0x0800_0000_0000_0000) by (nonlinear_arith)
            requires
                p <= 0xFFFF_FFFF_FFFF_FFFF,
                w <= 0x0800_0000_0000_0000,
        ;
    }
    let total: u128 = cost.base as u128 + cost.per_word as u128 * n + expansion;
    if total > u64::MAX as u128 {
        Err(VMError::ExceptionalHalt(ExceptionalHalt::OutOfGas))
    } else {
        Ok(total as u64)
    }
}

} // verus!
