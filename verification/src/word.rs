//! Addresses, hashes and the 256-bit machine word.
use crate::keyed::Key;
use vstd::prelude::*;

verus! {

/// A 20-byte account address.
#[derive(Clone, Copy, Debug, PartialEq, Eq)]
pub struct Address(pub [u8; 20]);

/// A 32-byte hash, storage slot or storage value.
#[derive(Clone, Copy, Debug, PartialEq, Eq)]
pub struct H256(pub [u8; 32]);

/// A 256-bit unsigned integer, as four 64-bit limbs with the least significant first.
#[derive(Clone, Copy, Debug, PartialEq, Eq)]
pub struct U256(pub [u64; 4]);

/// Two to the 64th, the weight of one limb against the next.
pub open spec fn limb_base() -> nat {
    0x1_0000_0000_0000_0000nat
}

/// Two to the 160th, the number of addresses.
pub open spec fn address_base() -> nat {
    0x1_0000_0000_0000_0000_0000_0000_0000_0000_0000_0000nat
}

/// The number that four limbs stand for, the least significant first.
pub open spec fn limbs_value(limbs: Seq<u64>) -> nat {
    limbs[0] as nat + limb_base() * (limbs[1] as nat + limb_base() * (limbs[2] as nat + limb_base()
        * (limbs[3] as nat)))
}

impl View for U256 {
    type V = nat;

    open spec fn view(&self) -> nat {
        limbs_value(self.0@)
    }
}

/// The number that a byte string stands for, the most significant byte first.
pub open spec fn be_value(bytes: Seq<u8>) -> nat
    decreases bytes.len(),
{
    if bytes.len() == 0 {
        0
    } else {
        be_value(bytes.drop_last()) * 256 + bytes.last() as nat
    }
}

/// How many byte strings of length `n` there are.
pub open spec fn pow256(n: nat) -> nat
    decreases n,
{
    if n == 0 {
        1
    } else {
        256 * pow256((n - 1) as nat)
    }
}

/// A byte string of length `n` stands for a number below `256^n`.
pub proof fn lemma_be_value_bound(bytes: Seq<u8>)
    ensures
        be_value(bytes) < pow256(bytes.len()),
    decreases bytes.len(),
{
    if bytes.len() > 0 {
        lemma_be_value_bound(bytes.drop_last());
    }
}

/// The number that a concatenation stands for.
pub proof fn lemma_be_value_concat(high: Seq<u8>, low: Seq<u8>)
    ensures
        be_value(high + low) == be_value(high) * pow256(low.len()) + be_value(low),
    decreases low.len(),
{
    if low.len() == 0 {
        assert(high + low =~= high);
        assert(be_value(high) * pow256(0) == be_value(high)) by {
            assert(pow256(0) == 1);
        }
    } else {
        lemma_be_value_concat(high, low.drop_last());
        assert((high + low).drop_last() =~= high + low.drop_last());
        assert((high + low).last() == low.last());
        let h = be_value(high);
        let p = pow256((low.len() - 1) as nat);
        assert(h * p * 256 == h * (256 * p)) by (nonlinear_arith);
    }
}

/// A string of zero bytes stands for zero.
pub proof fn lemma_be_value_zeros(bytes: Seq<u8>)
    requires
        forall|i: int| 0 <= i < bytes.len() ==> bytes[i] == 0,
    ensures
        be_value(bytes) == 0,
    decreases bytes.len(),
{
    if bytes.len() > 0 {
        lemma_be_value_zeros(bytes.drop_last());
    }
}

proof fn lemma_pow256_8()
    ensures
        pow256(8) == limb_base(),
{
    reveal_with_fuel(pow256, 9);
}

proof fn lemma_pow256_20()
    ensures
        pow256(20) == address_base(),
{
    reveal_with_fuel(pow256, 21);
}

/// A 32-byte string read as four 8-byte groups.
proof fn lemma_be_value_groups(bytes: Seq<u8>)
    requires
        bytes.len() == 32,
    ensures
        be_value(bytes) == be_value(bytes.subrange(24, 32)) + limb_base() * (be_value(
            bytes.subrange(16, 24),
        ) + limb_base() * (be_value(bytes.subrange(8, 16)) + limb_base() * be_value(
            bytes.subrange(0, 8),
        ))),
{
    lemma_pow256_8();
    let (g0, g1, g2, g3) = (
        bytes.subrange(0, 8),
        bytes.subrange(8, 16),
        bytes.subrange(16, 24),
        bytes.subrange(24, 32),
    );
    let high2 = bytes.subrange(0, 16);
    let high3 = bytes.subrange(0, 24);
    assert(g1.len() == 8 && g2.len() == 8 && g3.len() == 8);
    assert(high2 =~= g0 + g1);
    lemma_be_value_concat(g0, g1);
    assert(be_value(high2) == be_value(g0) * limb_base() + be_value(g1));
    assert(high3 =~= high2 + g2);
    lemma_be_value_concat(high2, g2);
    assert(be_value(high3) == be_value(high2) * limb_base() + be_value(g2));
    assert(bytes =~= high3 + g3);
    lemma_be_value_concat(high3, g3);
    assert(be_value(bytes) == be_value(high3) * limb_base() + be_value(g3));
}

/// The limb that the eight bytes from `start` stand for.
fn read_limb(bytes: &[u8; 32], start: usize) -> (limb: u64)
    requires
        start <= 24,
    ensures
        limb == be_value(bytes@.subrange(start as int, start + 8)),
{
    let mut limb: u64 = 0;
    let mut i: usize = 0;
    while i < 8
        invariant
            i <= 8,
            start <= 24,
            limb == be_value(bytes@.subrange(start as int, start + i)),
        decreases 8 - i,
    {
        proof {
            let next = bytes@.subrange(start as int, start + i + 1);
            assert(next.drop_last() =~= bytes@.subrange(start as int, start + i));
            lemma_be_value_bound(next);
            reveal_with_fuel(pow256, 9);
        }
        limb = limb * 256 + bytes[start + i] as u64;
        i += 1;
    }
    limb
}

/// Writes `limb` into the eight bytes from `start`.
fn write_limb(bytes: &mut [u8; 32], start: usize, limb: u64)
    requires
        start <= 24,
    ensures
        be_value(final(bytes)@.subrange(start as int, start + 8)) == limb,
        forall|i: int|
            0 <= i < 32 && !(start <= i < start + 8) ==> final(bytes)@[i] == old(bytes)@[i],
{
    let mut rest: u64 = limb;
    let mut i: usize = 8;
    assert(bytes@.subrange(start + 8, start + 8) =~= Seq::<u8>::empty());
    assert(rest * pow256(0) == rest) by {
        assert(pow256(0) == 1);
    }
    while i > 0
        invariant
            i <= 8,
            start <= 24,
            rest * pow256((8 - i) as nat) + be_value(bytes@.subrange(start + i, start + 8)) == limb,
            forall|k: int|
                0 <= k < 32 && !(start <= k < start + 8) ==> bytes@[k] == old(bytes)@[k],
        decreases i,
    {
        let ghost low = bytes@.subrange(start + i, start + 8);
        i -= 1;
        bytes[start + i] = (rest % 256) as u8;
        proof {
            let byte = (rest % 256) as u8;
            let now = bytes@.subrange(start + i, start + 8);
            assert(now =~= seq![byte] + low);
            lemma_be_value_concat(seq![byte], low);
            assert(seq![byte].drop_last() =~= Seq::<u8>::empty());
            assert(be_value(Seq::<u8>::empty()) == 0);
            assert(be_value(seq![byte]) == byte as nat);
            let p = pow256((8 - (i + 1)) as nat);
            let q = (rest / 256) as nat;
            let r = (rest % 256) as nat;
            assert(rest as nat == 256 * q + r);
            assert((256 * q + r) * p == q * (256 * p) + r * p) by (nonlinear_arith);
        }
        rest = rest / 256;
    }
    proof {
        lemma_pow256_8();
        lemma_be_value_bound(bytes@.subrange(start as int, start + 8));
        let r = rest as nat;
        if r > 0 {
            assert(r * limb_base() >= limb_base()) by (nonlinear_arith)
                requires
                    r > 0,
            ;
        }
        assert(r * limb_base() == 0 || r > 0);
    }
}

/// Calls `ethereum_types::U256::from_big_endian`. The result is the number that the bytes stand
/// for, the most significant byte first, given by its limbs. The outside function panics on more
/// than 32 bytes.
#[verifier::external_body]
fn outside_from_big_endian(bytes: &[u8]) -> (limbs: [u64; 4])
    requires
        bytes@.len() <= 32,
    ensures
        limbs_value(limbs@) == be_value(bytes@),
{
    ethereum_types::U256::from_big_endian(bytes).0
}

/// Calls the conversion `From<usize>` of `ethereum_types::U256`. The result, given by its limbs, is
/// the same number.
#[verifier::external_body]
fn outside_from_usize(n: usize) -> (limbs: [u64; 4])
    ensures
        limbs_value(limbs@) == n,
{
    ethereum_types::U256::from(n).0
}

/// Calls the conversion `TryFrom<ethereum_types::U256>` of `usize`. It gives the same number, and
/// fails on exactly the numbers that are greater than `usize::MAX`.
#[verifier::external_body]
fn outside_to_usize(limbs: [u64; 4]) -> (n: Option<usize>)
    ensures
        match n {
            Some(n) => n == limbs_value(limbs@),
            None => limbs_value(limbs@) > usize::MAX,
        },
{
    usize::try_from(ethereum_types::U256(limbs)).ok()
}

impl U256 {
    /// Zero.
    pub fn zero() -> (word: U256)
        ensures
            word@ == 0,
    {
        U256([0u64; 4])
    }

    /// The word that stands for `n`.
    pub fn from_usize(n: usize) -> (word: U256)
        ensures
            word@ == n,
    {
        U256(outside_from_usize(n))
    }

    /// The word that at most 32 bytes stand for, the most significant byte first.
    pub fn from_big_endian(bytes: &[u8]) -> (word: U256)
        requires
            bytes@.len() <= 32,
        ensures
            word@ == be_value(bytes@),
    {
        U256(outside_from_big_endian(bytes))
    }

    /// The word as a `usize`, if it is small enough for one.
    pub fn to_usize(&self) -> (n: Option<usize>)
        ensures
            match n {
                Some(n) => n == self@,
                None => self@ > usize::MAX,
            },
    {
        outside_to_usize(self.0)
    }

    /// Whether the word is zero.
    pub fn is_zero(&self) -> (zero: bool)
        ensures
            zero == (self@ == 0),
    {
        self.0[0] == 0 && self.0[1] == 0 && self.0[2] == 0 && self.0[3] == 0
    }

    /// The word that 32 bytes stand for, the most significant byte first.
    pub fn from_be_bytes(bytes: &[u8; 32]) -> (word: U256)
        ensures
            word@ == be_value(bytes@),
    {
        proof {
            lemma_be_value_groups(bytes@);
        }
        U256([read_limb(bytes, 24), read_limb(bytes, 16), read_limb(bytes, 8), read_limb(bytes, 0)])
    }

    /// The 32 bytes that stand for the word, the most significant byte first.
    pub fn to_be_bytes(&self) -> (bytes: [u8; 32])
        ensures
            be_value(bytes@) == self@,
    {
        let mut bytes: [u8; 32] = [0u8; 32];
        write_limb(&mut bytes, 24, self.0[0]);
        let ghost b0 = bytes@;
        write_limb(&mut bytes, 16, self.0[1]);
        let ghost b1 = bytes@;
        write_limb(&mut bytes, 8, self.0[2]);
        let ghost b2 = bytes@;
        write_limb(&mut bytes, 0, self.0[3]);
        proof {
            assert(bytes@.subrange(24, 32) =~= b0.subrange(24, 32));
            assert(bytes@.subrange(16, 24) =~= b1.subrange(16, 24));
            assert(bytes@.subrange(8, 16) =~= b2.subrange(8, 16));
            lemma_be_value_groups(bytes@);
        }
        bytes
    }
}

impl Address {
    /// The word whose low 20 bytes are the address and whose high 12 bytes are zero.
    pub fn to_word(&self) -> (word: U256)
        ensures
            word@ == be_value(self.0@),
    {
        let mut bytes: [u8; 32] = [0u8; 32];
        let mut i: usize = 0;
        while i < 20
            invariant
                i <= 20,
                forall|k: int| 0 <= k < 12 ==> bytes@[k] == 0,
                forall|k: int| 0 <= k < i ==> bytes@[12 + k] == self.0@[k],
            decreases 20 - i,
        {
            bytes[12 + i] = self.0[i];
            i += 1;
        }
        proof {
            let pad = bytes@.subrange(0, 12);
            assert(bytes@ =~= pad + self.0@);
            lemma_be_value_zeros(pad);
            lemma_be_value_concat(pad, self.0@);
        }
        U256::from_be_bytes(&bytes)
    }
}

impl H256 {
    /// The word that the hash stands for.
    pub fn to_word(&self) -> (word: U256)
        ensures
            word@ == be_value(self.0@),
    {
        U256::from_be_bytes(&self.0)
    }
}

/// The address that a word holds in its low 20 bytes.
pub open spec fn address_of(word: nat) -> Address {
    choose|address: Address| be_value(#[trigger] address.0@) == word % address_base()
}

/// Byte strings of one length that stand for one number are equal.
pub proof fn lemma_be_value_injective(a: Seq<u8>, b: Seq<u8>)
    requires
        a.len() == b.len(),
        be_value(a) == be_value(b),
    ensures
        a == b,
    decreases a.len(),
{
    if a.len() > 0 {
        lemma_be_value_injective(a.drop_last(), b.drop_last());
        assert(a =~= a.drop_last().push(a.last()));
        assert(b =~= b.drop_last().push(b.last()));
    } else {
        assert(a =~= b);
    }
}

/// The last `n` bytes of a number, the most significant first.
spec fn be_bytes(number: nat, n: nat) -> Seq<u8>
    decreases n,
{
    if n == 0 {
        Seq::empty()
    } else {
        be_bytes(number / 256, (n - 1) as nat).push((number % 256) as u8)
    }
}

proof fn lemma_be_bytes(number: nat, n: nat)
    ensures
        be_bytes(number, n).len() == n,
        be_value(be_bytes(number, n)) == number % pow256(n),
    decreases n,
{
    if n > 0 {
        let m = (n - 1) as nat;
        let p = pow256(m);
        lemma_be_bytes(number / 256, m);
        lemma_pow256_positive(m);
        assert(be_bytes(number, n).drop_last() =~= be_bytes(number / 256, m));
        vstd::arithmetic::div_mod::lemma_mod_breakdown(number as int, 256, p as int);
    }
}

proof fn lemma_pow256_positive(n: nat)
    ensures
        pow256(n) > 0,
    decreases n,
{
    if n > 0 {
        lemma_pow256_positive((n - 1) as nat);
    }
}

/// There is an address with any 20 bytes.
proof fn lemma_address_with(bytes: Seq<u8>, n: nat) -> (address: Address)
    requires
        bytes.len() == 20,
        n <= 20,
    ensures
        forall|i: int| 0 <= i < n ==> address.0@[i] == bytes[i],
    decreases n,
{
    if n == 0 {
        arbitrary()
    } else {
        let k = n - 1;
        let shorter = lemma_address_with(bytes, k as nat);
        Address(vstd::array::spec_array_update(shorter.0, k, bytes[k]))
    }
}

/// The address that a word holds is the one that stands for the low 160 bits of the word.
pub proof fn lemma_address_of(word: nat)
    ensures
        be_value(address_of(word).0@) == word % address_base(),
{
    let bytes = be_bytes(word, 20);
    lemma_be_bytes(word, 20);
    lemma_pow256_20();
    let witness = lemma_address_with(bytes, 20);
    assert(witness.0@ =~= bytes);
}

/// The address that is read back from the word of an address is that address.
pub proof fn lemma_address_round_trip(address: Address)
    ensures
        address_of(be_value(address.0@)) == address,
{
    let word = be_value(address.0@);
    lemma_be_value_bound(address.0@);
    lemma_pow256_20();
    vstd::arithmetic::div_mod::lemma_small_mod(word, address_base());
    lemma_address_of(word);
    lemma_be_value_injective(address_of(word).0@, address.0@);
    assert(address_of(word).0 =~= address.0);
}

/// The address that `word` holds in its low 20 bytes; the high 12 bytes are dropped.
pub fn word_to_address(word: U256) -> (address: Address)
    ensures
        be_value(address.0@) == word@ % address_base(),
        address == address_of(word@),
{
    let bytes = word.to_be_bytes();
    let mut low: [u8; 20] = [0u8; 20];
    let mut i: usize = 0;
    while i < 20
        invariant
            i <= 20,
            forall|k: int| 0 <= k < i ==> low@[k] == bytes@[12 + k],
        decreases 20 - i,
    {
        low[i] = bytes[12 + i];
        i += 1;
    }
    let address = Address(low);
    proof {
        let high = bytes@.subrange(0, 12);
        assert(bytes@ =~= high + low@);
        lemma_be_value_concat(high, low@);
        lemma_be_value_bound(low@);
        lemma_pow256_20();
        vstd::arithmetic::div_mod::lemma_fundamental_div_mod_converse_mod(
            word@ as int,
            address_base() as int,
            be_value(high) as int,
            be_value(low@) as int,
        );
        let chosen = address_of(word@);
        assert(be_value(address.0@) == word@ % address_base());
        lemma_be_value_injective(address.0@, chosen.0@);
        assert(address.0 =~= chosen.0);
    }
    address
}

impl Key for Address {
    fn same(&self, other: &Self) -> (same: bool) {
        let mut i: usize = 0;
        while i < 20
            invariant
                i <= 20,
                forall|k: int| 0 <= k < i ==> self.0@[k] == other.0@[k],
            decreases 20 - i,
        {
            if self.0[i] != other.0[i] {
                return false;
            }
            i += 1;
        }
        assert(self.0 =~= other.0);
        true
    }
}

impl Key for H256 {
    fn same(&self, other: &Self) -> (same: bool) {
        let mut i: usize = 0;
        while i < 32
            invariant
                i <= 32,
                forall|k: int| 0 <= k < i ==> self.0@[k] == other.0@[k],
            decreases 32 - i,
        {
            if self.0[i] != other.0[i] {
                return false;
            }
            i += 1;
        }
        assert(self.0 =~= other.0);
        true
    }
}

} // verus!
