//! What the numbers, byte strings, prices, tallies and texts of the library are.
use crate::erc7562_tracer::out_of_gas_error;
use crate::gas_cost::{
    access_price, berlin_schedule, copy_price, expansion_price, memory_price, AccessCost, CopyCost,
};
use crate::keyed::{count, counted, entries_map, keys_unique, listed};
use crate::memory::{memory_end, overlap, stored, window, words, zeros};
use crate::opcodes::{opcode_byte, Opcode};
use crate::text::{ascii_lower, ascii_lowercase, lowercase, occurs_in, says_out_of_gas};
use crate::utils::{range_fits, range_offset};
use crate::vm::{word_values, VMView};
use crate::word::{
    address_of, be_value, lemma_address_of, lemma_be_value_bound, lemma_be_value_concat,
    lemma_be_value_injective, pow256, Address, U256,
};
use vstd::prelude::*;

verus! {

/// A byte string stands for a number to the base of 256, the last byte for the ones.
pub proof fn lemma_bytes_are_digits(high: Seq<u8>, byte: u8)
    ensures
        be_value(Seq::<u8>::empty()) == 0,
        be_value(high.push(byte)) == 256 * be_value(high) + byte,
{
    assert(high.push(byte).drop_last() =~= high);
}

/// A word is the sum of its limbs, each weighing two to the 64th times the one before it.
pub proof fn lemma_word_is_the_sum_of_its_limbs(word: U256)
    ensures
        word@ == word.0@[0] + word.0@[1] * 0x1_0000_0000_0000_0000int + word.0@[2]
            * 0x1_0000_0000_0000_0000_0000_0000_0000_0000int + word.0@[3]
            * 0x1_0000_0000_0000_0000_0000_0000_0000_0000_0000_0000_0000_0000int,
{
}

/// The words of a stack are shown by their numbers, in their order.
pub proof fn lemma_words_show_their_numbers(words: Seq<U256>)
    ensures
        word_values(words).len() == words.len(),
        forall|i: int| 0 <= i < words.len() ==> #[trigger] word_values(words)[i] == words[i]@,
{
}

/// The address that a word names is the one whose bytes are the last twenty of the thirty-two that
/// stand for the word.
pub proof fn lemma_address_is_the_low_bytes(bytes: Seq<u8>, i: int)
    requires
        bytes.len() == 32,
        0 <= i < 20,
    ensures
        address_of(be_value(bytes)).0@[i] == bytes[12 + i],
{
    let high = bytes.subrange(0, 12);
    let low = bytes.subrange(12, 32);
    let word = be_value(bytes);
    assert(bytes =~= high + low);
    lemma_be_value_concat(high, low);
    lemma_be_value_bound(low);
    lemma_address_of(word);
    assert(pow256(20) == crate::word::address_base()) by {
        reveal_with_fuel(pow256, 21);
    }
    vstd::arithmetic::div_mod::lemma_fundamental_div_mod_converse_mod(
        word as int,
        crate::word::address_base() as int,
        be_value(high) as int,
        be_value(low) as int,
    );
    lemma_be_value_injective(address_of(word).0@, low);
}

/// The number of an address that a word names is what is left of the word modulo two to the 160th.
pub proof fn lemma_address_is_a_remainder(word: nat)
    ensures
        be_value(address_of(word).0@) == word
            % 0x1_0000_0000_0000_0000_0000_0000_0000_0000_0000_0000nat,
{
    lemma_address_of(word);
}

/// A count is the number under the key, or zero. Counting a key once more adds one under it, and
/// changes nothing under another.
pub proof fn lemma_counting<K>(counts: Map<K, u64>, key: K, other: K)
    requires
        counts.contains_key(key) ==> counts[key] < u64::MAX,
    ensures
        counts.contains_key(key) ==> count(counts, key) == counts[key],
        !counts.contains_key(key) ==> count(counts, key) == 0,
        counted(counts, key).contains_key(key),
        counts.contains_key(key) ==> counted(counts, key)[key] == counts[key] + 1,
        !counts.contains_key(key) ==> counted(counts, key)[key] == 1,
        other != key ==> (counted(counts, key).contains_key(other) <==> counts.contains_key(other)),
        other != key && counts.contains_key(other) ==> counted(counts, key)[other] == counts[other],
{
}

/// A list of entries in which no key comes twice is the map that holds each entry, and no key
/// beside those.
pub proof fn lemma_entries_are_the_map<K, V>(entries: Seq<(K, V)>, i: int, key: K)
    requires
        forall|a: int, b: int|
            0 <= a < b < entries.len() ==> (#[trigger] entries[a]).0 != (#[trigger] entries[b]).0,
        0 <= i < entries.len(),
    ensures
        keys_unique(entries),
        entries_map(entries).contains_key(entries[i].0),
        entries_map(entries)[entries[i].0] == entries[i].1,
        entries_map(entries).contains_key(key) <==> exists|j: int|
            0 <= j < entries.len() && (#[trigger] entries[j]).0 == key,
{
    crate::keyed::lemma_entry_in_map(entries, i);
}

/// The keys of a list are unique where no two places hold the same one.
pub proof fn lemma_unique_keys<K, V>(entries: Seq<(K, V)>)
    ensures
        keys_unique(entries) <==> forall|a: int, b: int|
            0 <= a < b < entries.len() ==> (#[trigger] entries[a]).0 != (#[trigger] entries[b]).0,
{
}

/// A list of byte strings holds exactly those that stand in it.
pub proof fn lemma_list_holds_its_members(members: Seq<Vec<u8>>, bytes: Seq<u8>)
    ensures
        listed(members).contains(bytes) <==> exists|i: int|
            0 <= i < members.len() && (#[trigger] members[i])@ == bytes,
{
}

/// Memory that holds a range ends at the first multiple of 32 that is not before the end of the
/// range; an empty range needs none.
pub proof fn lemma_memory_ends_at_a_word(offset: nat, len: nat)
    ensures
        32 * words(len) >= len,
        32 * words(len) < len + 32,
        len == 0 ==> memory_end(offset, len) == 0,
        len > 0 ==> {
            &&& memory_end(offset, len) % 32 == 0
            &&& memory_end(offset, len) >= offset + len
            &&& memory_end(offset, len) < offset + len + 32
        },
{
}

/// What was stored is read back, and every other byte is as before, or zero where there was none.
/// Memory grows no further than to the end of the word in which the range ends.
pub proof fn lemma_stored_is_read_back(memory: Seq<u8>, offset: nat, data: Seq<u8>, i: int)
    ensures
        ({
            let now = stored(memory, offset, data);
            &&& now.len() >= memory.len()
            &&& data.len() == 0 ==> now.len() == memory.len()
            &&& data.len() > 0 ==> now.len() >= offset + data.len()
            &&& data.len() > 0 && now.len() > memory.len() ==> now.len() % 32 == 0 && now.len()
                < offset + data.len() + 32
            &&& 0 <= i < data.len() ==> now[offset + i] == data[i]
            &&& 0 <= i < memory.len() && !(offset <= i < offset + data.len()) ==> now[i]
                == memory[i]
            &&& memory.len() <= i < now.len() && !(offset <= i < offset + data.len()) ==> now[i]
                == 0
        }),
{
}

/// A window shows the bytes of the data from its offset, and zeros past the end; the overlap shows
/// those bytes alone.
pub proof fn lemma_window_and_overlap(data: Seq<u8>, offset: nat, len: nat, i: int)
    ensures
        window(data, offset, len).len() == len,
        0 <= i < len && offset + i < data.len() ==> window(data, offset, len)[i] == data[offset + i],
        0 <= i < len && offset + i >= data.len() ==> window(data, offset, len)[i] == 0,
        zeros(len).len() == len,
        0 <= i < len ==> zeros(len)[i] == 0,
        offset >= data.len() ==> overlap(data, offset, len).len() == 0,
        offset < data.len() && offset + len <= data.len() ==> overlap(data, offset, len).len()
            == len,
        offset < data.len() < offset + len ==> overlap(data, offset, len).len() == data.len()
            - offset,
        0 <= i < overlap(data, offset, len).len() ==> overlap(data, offset, len)[i]
            == data[offset + i],
{
}

/// Prices: of reaching an account, of having memory, of growing it, and of a copy.
pub proof fn lemma_prices(
    access: AccessCost,
    copy: CopyCost,
    n: nat,
    wanted: nat,
    current: nat,
    len: nat,
)
    ensures
        access_price(access, true) == access.cold,
        access_price(access, false) == access.warm,
        memory_price(32 * n) == 3 * n + n * n / 512,
        forall|size: nat|
            32 * n < size <= 32 * (n + 1) ==> #[trigger] memory_price(size) == memory_price(
                32 * (n + 1),
            ),
        wanted <= current ==> expansion_price(wanted, current) == 0,
        wanted > current ==> expansion_price(wanted, current) + memory_price(current)
            == memory_price(wanted),
        len == 32 * n ==> copy_price(copy, wanted, current, len) == copy.base + copy.per_word * n
            + expansion_price(wanted, current),
        32 * n < len <= 32 * n + 32 ==> copy_price(copy, wanted, current, len) == copy.base
            + copy.per_word * (n + 1) + expansion_price(wanted, current),
{
    if wanted > current {
        crate::gas_cost::lemma_memory_price_monotonic(current, wanted);
    }
    assert(words(32 * n) == n);
    assert forall|size: nat| 32 * n < size <= 32 * (n + 1) implies #[trigger] memory_price(size)
        == memory_price(32 * (n + 1)) by {
        assert(words(size) == n + 1);
        assert(words(32 * (n + 1)) == n + 1);
    }
    if 32 * n < len <= 32 * n + 32 {
        assert(words(len) == n + 1);
    }
}

/// The prices since the Berlin fork.
pub proof fn lemma_berlin_prices()
    ensures
        ({
            let prices = berlin_schedule();
            &&& prices.address == 2
            &&& prices.origin == 2
            &&& prices.gas_price == 2
            &&& prices.caller == 2
            &&& prices.call_value == 2
            &&& prices.call_data_load == 3
            &&& prices.call_data_size == 2
            &&& prices.code_size == 2
            &&& prices.return_data_size == 2
            &&& prices.call_data_copy.base == 3
            &&& prices.call_data_copy.per_word == 3
            &&& prices.code_copy == prices.call_data_copy
            &&& prices.return_data_copy == prices.call_data_copy
            &&& prices.balance.cold == 2600
            &&& prices.balance.warm == 100
            &&& prices.ext_code_size == prices.balance
            &&& prices.ext_code_hash == prices.balance
            &&& prices.ext_code_copy == prices.balance
            &&& prices.ext_code_copy_per_word == 3
        }),
{
}

/// A size and an offset can be used where both fit; of an empty range the offset does not matter,
/// and counts as zero.
pub proof fn lemma_ranges(size: nat, offset: nat)
    ensures
        range_fits(0, offset),
        size > 0 ==> (range_fits(size, offset) <==> size <= usize::MAX && offset <= usize::MAX),
        range_offset(0, offset) == 0,
        size > 0 ==> range_offset(size, offset) == offset,
{
}

/// The bytes of the opcodes.
pub proof fn lemma_opcode_bytes()
    ensures
        opcode_byte(Opcode::ADD) == 0x01,
        opcode_byte(Opcode::MUL) == 0x02,
        opcode_byte(Opcode::SUB) == 0x03,
        opcode_byte(Opcode::DIV) == 0x04,
        opcode_byte(Opcode::LT) == 0x10,
        opcode_byte(Opcode::GT) == 0x11,
        opcode_byte(Opcode::SLT) == 0x12,
        opcode_byte(Opcode::SGT) == 0x13,
        opcode_byte(Opcode::EQ) == 0x14,
        opcode_byte(Opcode::ISZERO) == 0x15,
        opcode_byte(Opcode::AND) == 0x16,
        opcode_byte(Opcode::OR) == 0x17,
        opcode_byte(Opcode::NOT) == 0x19,
        opcode_byte(Opcode::SHL) == 0x1B,
        opcode_byte(Opcode::SHR) == 0x1C,
        opcode_byte(Opcode::EXTCODESIZE) == 0x3B,
        opcode_byte(Opcode::EXTCODECOPY) == 0x3C,
        opcode_byte(Opcode::EXTCODEHASH) == 0x3F,
        opcode_byte(Opcode::POP) == 0x50,
        opcode_byte(Opcode::SLOAD) == 0x54,
        opcode_byte(Opcode::SSTORE) == 0x55,
        opcode_byte(Opcode::GAS) == 0x5A,
        opcode_byte(Opcode::TLOAD) == 0x5C,
        opcode_byte(Opcode::TSTORE) == 0x5D,
        opcode_byte(Opcode::PUSH0) == 0x5F,
        opcode_byte(Opcode::SWAP16) == 0x9F,
        opcode_byte(Opcode::CALL) == 0xF1,
        opcode_byte(Opcode::CALLCODE) == 0xF2,
        opcode_byte(Opcode::RETURN) == 0xF3,
        opcode_byte(Opcode::DELEGATECALL) == 0xF4,
        opcode_byte(Opcode::STATICCALL) == 0xFA,
        opcode_byte(Opcode::REVERT) == 0xFD,
{
}

/// Recording a touch adds the account to those recorded, where touches are recorded, and changes
/// nothing else.
pub proof fn lemma_touch_is_recorded(state: VMView, account: Address, other: Address)
    ensures
        ({
            let now = state.touching(account);
            &&& state.touched is None ==> now == state
            &&& state.touched matches Some(then) ==> now.touched is Some && (
            now.touched->0.contains(other) <==> then.contains(other) || other == account)
            &&& now.frame == state.frame
            &&& now.env == state.env
            &&& now.accessed == state.accessed
            &&& now.observing == state.observing
            &&& now.tracer == state.tracer
        }),
{
}

/// A pattern occurs in a text exactly where the text is the pattern with something before it and
/// something after it.
pub proof fn lemma_occurrence_is_a_part(pattern: Seq<char>, text: Seq<char>)
    ensures
        occurs_in(pattern, text) <==> exists|before: Seq<char>, after: Seq<char>|
            text == #[trigger] (before + pattern + after),
{
    if occurs_in(pattern, text) {
        let i = choose|i: int|
            0 <= i <= text.len() - pattern.len() && #[trigger] text.subrange(i, i + pattern.len())
                == pattern;
        let before = text.take(i);
        let after = text.skip(i + pattern.len());
        assert(text =~= before + text.subrange(i, i + pattern.len()) + after);
        assert(text == before + pattern + after);
    }
    assert forall|before: Seq<char>, after: Seq<char>|
        text == #[trigger] (before + pattern + after) implies occurs_in(pattern, text) by {
        let i = before.len() as int;
        assert(text.subrange(i, i + pattern.len()) =~= pattern);
    }
}

/// A text says that gas ran out exactly where one of two phrases is a part of it.
pub proof fn lemma_texts_about_gas(text: Seq<char>)
    ensures
        says_out_of_gas(text) <==> {
            ||| exists|before: Seq<char>, after: Seq<char>|
                text == #[trigger] (before + "out of gas"@ + after)
            ||| exists|before: Seq<char>, after: Seq<char>|
                text == #[trigger] (before + "insufficient gas"@ + after)
        },
{
    lemma_occurrence_is_a_part("out of gas"@, text);
    lemma_occurrence_is_a_part("insufficient gas"@, text);
}

/// An error names an out-of-gas condition exactly where there is a text and its lowercase says so.
pub proof fn lemma_errors_about_gas(error: Option<String>)
    ensures
        error is None ==> !out_of_gas_error(error),
        error matches Some(text) ==> out_of_gas_error(error) == says_out_of_gas(lowercase(text@)),
{
}

/// The lowercase of an ASCII text is as long, has each of the 26 capitals replaced by the letter
/// that stands 32 after it, and every other character in place.
pub proof fn lemma_lowercase_letter_by_letter(text: Seq<char>, i: int)
    requires
        0 <= i < text.len(),
    ensures
        ascii_lowercase(text).len() == text.len(),
        ascii_lowercase(text)[i] == ascii_lower(text[i]),
        65 <= text[i] as int <= 90 ==> ascii_lower(text[i]) as int == text[i] as int + 32,
        !(65 <= text[i] as int <= 90) ==> ascii_lower(text[i]) == text[i],
{
}

} // verus!
