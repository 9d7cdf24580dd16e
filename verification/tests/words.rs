//! Words, memory, prices and the maps that records are kept in.
use ethrex_levm::errors::{ExceptionalHalt, VMError};
use ethrex_levm::gas_cost::{access_cost, copy_cost, AccessCost, CopyCost, GasSchedule};
use ethrex_levm::keyed::{BytesSet, KeyMap, KeySet};
use ethrex_levm::memory::{available, calculate_memory_size, Memory};
use ethrex_levm::text::names_out_of_gas;
use ethrex_levm::utils::{size_offset_to_usize, u256_to_usize};
use ethrex_levm::vm::{Code, Stack};
use ethrex_levm::word::{word_to_address, Address, H256, U256};

fn counting<const N: usize>() -> [u8; N] {
    let mut bytes = [0u8; N];
    for (i, byte) in bytes.iter_mut().enumerate() {
        *byte = i as u8 + 1;
    }
    bytes
}

const COPY: CopyCost = CopyCost { base: 3, per_word: 3 };

#[test]
fn a_word_is_read_from_big_endian_bytes() {
    let bytes = counting::<32>();
    let expected = U256([
        0x191A1B1C1D1E1F20,
        0x1112131415161718,
        0x090A0B0C0D0E0F10,
        0x0102030405060708,
    ]);
    assert_eq!(U256::from_be_bytes(&bytes), expected);
    assert_eq!(U256::from_big_endian(&bytes), expected);
    assert_eq!(expected.to_be_bytes(), bytes);
    assert_eq!(H256(bytes).to_word(), expected);
    assert_eq!(ethereum_types::U256::from_big_endian(&bytes).0, expected.0);
}

#[test]
fn fewer_bytes_are_the_low_end_of_a_word() {
    assert_eq!(U256::from_big_endian(&[1, 2]), U256([0x102, 0, 0, 0]));
    assert_eq!(U256::from_big_endian(&[]), U256::zero());
}

#[test]
fn an_address_is_the_low_twenty_bytes_of_its_word() {
    let address = Address(counting::<20>());
    let word = address.to_word();
    assert_eq!(word, U256([0x0D0E0F1011121314, 0x05060708090A0B0C, 0x01020304, 0]));
    assert_eq!(word_to_address(word), address);
    let dirty = U256([word.0[0], word.0[1], word.0[2] | 0xFFFF_FFFF_0000_0000, u64::MAX]);
    assert_eq!(word_to_address(dirty), address);
}

#[test]
fn a_word_becomes_a_size_where_it_fits() {
    assert_eq!(U256::from_usize(77), U256([77, 0, 0, 0]));
    assert_eq!(U256([77, 0, 0, 0]).to_usize(), Some(77));
    assert_eq!(U256::from_usize(usize::MAX).to_usize(), Some(usize::MAX));
    assert_eq!(U256([0, 1, 0, 0]).to_usize(), None);
    assert_eq!(U256([5, 0, 0, 1]).to_usize(), None);
    assert!(U256::zero().is_zero());
    assert!(!U256([0, 0, 0, 1]).is_zero());
    let too_large = Err(VMError::ExceptionalHalt(ExceptionalHalt::VeryLargeNumber));
    assert_eq!(u256_to_usize(U256([9, 0, 0, 0])), Ok(9));
    assert_eq!(u256_to_usize(U256([0, 0, 1, 0])), too_large);
}

#[test]
fn the_offset_of_an_empty_range_may_be_any() {
    let huge = U256([0, 0, 0, 1]);
    let too_large = Err(VMError::ExceptionalHalt(ExceptionalHalt::VeryLargeNumber));
    assert_eq!(size_offset_to_usize(U256::zero(), huge), Ok((0, 0)));
    assert_eq!(size_offset_to_usize(U256::zero(), U256::from_usize(5)), Ok((0, 0)));
    assert_eq!(size_offset_to_usize(U256::from_usize(4), U256::from_usize(5)), Ok((4, 5)));
    assert_eq!(size_offset_to_usize(U256::from_usize(4), huge), too_large);
    assert_eq!(size_offset_to_usize(huge, U256::zero()), too_large);
}

#[test]
fn memory_ends_at_whole_words() {
    let outside = Err(VMError::ExceptionalHalt(ExceptionalHalt::OutOfBounds));
    assert_eq!(calculate_memory_size(100, 0), Ok(0));
    assert_eq!(calculate_memory_size(usize::MAX, 0), Ok(0));
    assert_eq!(calculate_memory_size(0, 1), Ok(32));
    assert_eq!(calculate_memory_size(0, 32), Ok(32));
    assert_eq!(calculate_memory_size(1, 32), Ok(64));
    assert_eq!(calculate_memory_size(usize::MAX, 1), outside);
    assert_eq!(calculate_memory_size(usize::MAX - 5, 3), outside);
    assert_eq!(calculate_memory_size(usize::MAX - 63, 3), Ok(usize::MAX - 31));
}

#[test]
fn memory_grows_with_zeros_and_keeps_the_rest() {
    let mut memory = Memory::new();
    memory.store_data(30, &[1, 2, 3]).unwrap();
    assert_eq!(memory.len(), 64);
    assert_eq!(&memory.bytes()[28..34], &[0, 0, 1, 2, 3, 0]);
    memory.store_zeros(31, 1).unwrap();
    assert_eq!(&memory.bytes()[28..34], &[0, 0, 1, 0, 3, 0]);
    memory.store_data(500, &[]).unwrap();
    assert_eq!(memory.len(), 64);
    let outside = Err(VMError::ExceptionalHalt(ExceptionalHalt::OutOfBounds));
    assert_eq!(memory.store_data(usize::MAX, &[1]), outside);
    assert_eq!(memory.store_zeros(usize::MAX, 1), outside);
    assert_eq!(memory.len(), 64);
}

#[test]
fn the_available_part_of_a_range_stops_at_the_end() {
    let data = [1u8, 2, 3, 0];
    assert_eq!(available(&data, 1, 2), &[2, 3]);
    assert_eq!(available(&data, 2, 9), &[3, 0]);
    assert!(available(&data, 4, 1).is_empty());
    assert!(available(&data, usize::MAX, usize::MAX).is_empty());
}

#[test]
fn copying_is_paid_by_the_word_and_memory_by_its_square() {
    assert_eq!(copy_cost(COPY, 0, 0, 0), Ok(3));
    assert_eq!(copy_cost(COPY, 32, 0, 32), Ok(3 + 3 + 3));
    assert_eq!(copy_cost(COPY, 32, 32, 33), Ok(3 + 6));
    // 1024 words: 3 * 1024 + 1024 * 1024 / 512.
    assert_eq!(copy_cost(COPY, 32768, 0, 1), Ok(3 + 3 + 3072 + 2048));
    let half = copy_cost(COPY, 16384, 0, 0).unwrap() - 3;
    let rest = copy_cost(COPY, 32768, 16384, 0).unwrap() - 3;
    assert_eq!(half + rest, 3072 + 2048);
}

#[test]
fn a_price_that_no_gas_could_pay_is_an_out_of_gas_halt() {
    let out_of_gas = Err(VMError::ExceptionalHalt(ExceptionalHalt::OutOfGas));
    assert_eq!(copy_cost(COPY, usize::MAX - 31, 0, usize::MAX), out_of_gas);
    let dear = CopyCost { base: u64::MAX, per_word: 1 };
    assert_eq!(copy_cost(dear, 0, 0, 0), Ok(u64::MAX));
    assert_eq!(copy_cost(dear, 0, 0, 1), out_of_gas);
}

#[test]
fn the_first_access_costs_more() {
    let cost = AccessCost { cold: 2600, warm: 100 };
    assert_eq!(access_cost(cost, true), 2600);
    assert_eq!(access_cost(cost, false), 100);
    assert_eq!(GasSchedule::berlin().balance, cost);
    assert_eq!(GasSchedule::berlin().call_data_copy, COPY);
}

#[test]
fn code_goes_on_with_zeros_that_do_not_count() {
    let code = Code::new(vec![1, 2, 3], 4);
    assert_eq!(code.len(), 3);
    assert_eq!(code.dispatch_buf(), &[1, 2, 3, 0, 0, 0, 0]);
}

#[test]
fn the_stack_holds_at_most_its_limit() {
    let mut stack = Stack::new();
    let under = VMError::ExceptionalHalt(ExceptionalHalt::StackUnderflow);
    assert_eq!(stack.pop1(), Err(under));
    for n in 0..1024 {
        stack.push(U256::from_usize(n)).unwrap();
    }
    let over = Err(VMError::ExceptionalHalt(ExceptionalHalt::StackOverflow));
    assert_eq!(stack.push(U256::zero()), over);
    assert_eq!(stack.len(), 1024);
    let word = U256::from_usize;
    assert_eq!(stack.pop3(), Ok((word(1023), word(1022), word(1021))));
    assert_eq!(stack.pop4(), Ok((word(1020), word(1019), word(1018), word(1017))));
    assert_eq!(stack.pop1(), Ok(word(1016)));
    assert_eq!(stack.peek(1), word(1014));
    assert_eq!(stack.len(), 1016);
    let mut short = Stack::default();
    short.push(word(1)).unwrap();
    assert_eq!(short.pop3(), Err(under));
    assert_eq!(short.pop4(), Err(under));
    assert_eq!(short.len(), 1);
}

#[test]
fn a_map_keeps_one_value_for_each_key() {
    let mut map: KeyMap<H256, u64> = KeyMap::new();
    let key = H256(counting::<32>());
    assert!(map.is_empty());
    map.insert(key, 5);
    map.insert(key, 6);
    map.increment(key);
    map.increment(H256([0; 32]));
    assert_eq!(map.get(&key), Some(&7));
    assert_eq!(map.get(&H256([0; 32])), Some(&1));
    assert_eq!(map.get(&H256([1; 32])), None);
    assert!(map.contains_key(&key));
    assert_eq!(map.entries().len(), 2);
    assert_eq!(map.clone().get(&key), Some(&7));
}

#[test]
fn a_set_says_whether_a_key_is_new() {
    let mut set: KeySet<Address> = KeySet::new();
    assert!(set.insert(Address([1; 20])));
    assert!(!set.insert(Address([1; 20])));
    assert!(set.contains(&Address([1; 20])));
    assert!(!set.contains(&Address([2; 20])));
    let mut bytes = BytesSet::new();
    bytes.insert(vec![1]);
    bytes.insert(vec![1]);
    assert_eq!(bytes.members(), &vec![vec![1u8]]);
}

#[test]
fn a_lowercase_text_names_gas() {
    assert!(names_out_of_gas("it is out of gas now"));
    assert!(names_out_of_gas("insufficient gas"));
    assert!(!names_out_of_gas("Out Of Gas"));
    assert!(!names_out_of_gas("gas"));
}
