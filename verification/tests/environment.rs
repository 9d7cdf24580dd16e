//! The environment instructions, one by one and in turn.
use ethrex_levm::erc7562_tracer::Erc7562FrameTracer;
use ethrex_levm::errors::{ExceptionalHalt, InternalError, OpcodeResult, VMError};
use ethrex_levm::gas_cost::GasSchedule;
use ethrex_levm::keyed::KeySet;
use ethrex_levm::memory::Memory;
use ethrex_levm::opcode_handlers::environment::{
    after_check, AccountRead, HashStep, OpAddressHandler, OpBalanceHandler, OpCallDataCopyHandler,
    OpCallDataLoadHandler, OpCallDataSizeHandler, OpCallValueHandler, OpCallerHandler,
    OpCodeCopyHandler, OpCodeSizeHandler, OpExtCodeCopyHandler, OpExtCodeHashHandler,
    OpExtCodeSizeHandler, OpGasPriceHandler, OpOriginHandler, OpReturnDataCopyHandler,
    OpReturnDataSizeHandler, Request,
};
use ethrex_levm::vm::{
    Account, BalRecorder, CallFrame, Code, Environment, Stack, Substate, ValidationObserver, VM,
};
use ethrex_levm::word::{Address, H256, U256};

fn address(n: u64) -> Address {
    Address(ethereum_types::H160::from_low_u64_be(n).0)
}

fn word(n: usize) -> U256 {
    U256::from_usize(n)
}

fn halt<T>(halt: ExceptionalHalt) -> Result<T, VMError> {
    Err(VMError::ExceptionalHalt(halt))
}

const DATABASE: VMError = VMError::Internal(InternalError::Database);

const DONE: Result<OpcodeResult, VMError> = Ok(OpcodeResult::Continue);

/// A machine with the given gas and stack, the top of the stack last.
fn machine(gas: u64, stack: &[U256]) -> VM {
    let mut words = Stack::new();
    for entry in stack {
        words.push(*entry).unwrap();
    }
    VM {
        current_call_frame: CallFrame {
            gas_remaining: gas,
            stack: words,
            memory: Memory::new(),
            to: address(0xAA),
            msg_sender: address(0xBB),
            msg_value: word(77),
            calldata: (1..=40).collect(),
            bytecode: Code::new(vec![0x60, 0x01, 0x50], 33),
            sub_return_data: vec![7, 8, 9],
        },
        env: Environment {
            origin: address(0xCC),
            gas_price: U256([1, 2, 3, 4]),
            schedule: GasSchedule::berlin(),
        },
        substate: Substate { accessed_addresses: KeySet::new() },
        bal_recorder: Some(BalRecorder { touched_addresses: KeySet::new() }),
        validation_observer: ValidationObserver { active: false },
        erc7562_tracer: Erc7562FrameTracer::disabled(),
    }
}

/// A machine whose collector has an open scope.
fn traced(gas: u64, stack: &[U256]) -> VM {
    let mut vm = machine(gas, stack);
    vm.erc7562_tracer = Erc7562FrameTracer::new();
    vm.erc7562_tracer.begin_frame(0);
    vm.erc7562_tracer.enter(address(1), address(0xAA), &[], 1000);
    vm
}

fn gas(vm: &VM) -> u64 {
    vm.current_call_frame.gas_remaining
}

fn top(vm: &VM) -> U256 {
    vm.current_call_frame.stack.peek(0)
}

fn memory(vm: &VM) -> &Vec<u8> {
    vm.current_call_frame.memory.bytes()
}

fn touched(vm: &VM, address: &Address) -> bool {
    vm.bal_recorder.as_ref().unwrap().touched_addresses.contains(address)
}

fn read_of<P>(request: Request<P>) -> P {
    match request {
        Request::Read(pending) => pending,
        Request::CheckTarget(_) => panic!("no check is due"),
    }
}

fn account(balance: usize, is_empty: bool) -> Account {
    let mut hash = [0u8; 32];
    hash[0] = 0xAB;
    hash[31] = 0xCD;
    Account { balance: word(balance), code_hash: H256(hash), is_empty }
}

/// Closes the open scope, and hands out what was recorded of looks at code.
fn looks(vm: &mut VM, next: u8) -> Vec<Address> {
    vm.erc7562_tracer.on_opcode(next);
    vm.erc7562_tracer.exit(0, Vec::new(), None).unwrap();
    vm.erc7562_tracer.frames[0].root.ext_code_access_info.clone()
}

#[test]
fn simple_instructions_push_what_they_name() {
    let cases: [(fn(&mut VM) -> Result<OpcodeResult, VMError>, U256); 8] = [
        (OpAddressHandler::eval, word(0xAA)),
        (OpCallerHandler::eval, word(0xBB)),
        (OpOriginHandler::eval, word(0xCC)),
        (OpGasPriceHandler::eval, U256([1, 2, 3, 4])),
        (OpCallValueHandler::eval, word(77)),
        (OpCallDataSizeHandler::eval, word(40)),
        (OpCodeSizeHandler::eval, word(3)),
        (OpReturnDataSizeHandler::eval, word(3)),
    ];
    for (eval, expected) in cases {
        let mut vm = machine(10, &[]);
        assert_eq!(eval(&mut vm), DONE);
        assert_eq!(top(&vm), expected);
        assert_eq!(vm.current_call_frame.stack.len(), 1);
        assert_eq!(gas(&vm), 8);

        let mut poor = machine(1, &[]);
        assert_eq!(eval(&mut poor), halt(ExceptionalHalt::OutOfGas));
        assert_eq!(gas(&poor), 1);
        assert_eq!(poor.current_call_frame.stack.len(), 0);

        let mut full = machine(10, &[word(0); 1024]);
        assert_eq!(eval(&mut full), halt(ExceptionalHalt::StackOverflow));
        assert_eq!(full.current_call_frame.stack.len(), 1024);
        assert_eq!(gas(&full), 8);
    }
}

#[test]
fn an_address_is_pushed_with_its_bytes_in_order() {
    let mut vm = machine(10, &[]);
    let mut bytes = [0u8; 20];
    bytes[0] = 1;
    bytes[19] = 2;
    vm.current_call_frame.to = Address(bytes);
    OpAddressHandler::eval(&mut vm).unwrap();
    assert_eq!(top(&vm), U256([2, 0, 0x0100_0000, 0]));
}

#[test]
fn a_pushed_address_names_its_account() {
    let mut vm = machine(5000, &[]);
    vm.current_call_frame.msg_sender = Address([0xF1; 20]);
    OpCallerHandler::eval(&mut vm).unwrap();
    let pending = OpBalanceHandler::eval(&mut vm).unwrap();
    assert_eq!(pending.address, Address([0xF1; 20]));
}

#[test]
fn call_data_is_loaded_with_zeros_past_the_end() {
    let mut vm = machine(10, &[word(1)]);
    assert_eq!(OpCallDataLoadHandler::eval(&mut vm), DONE);
    let expected: Vec<u8> = (2..=33).collect();
    assert_eq!(top(&vm).to_be_bytes().to_vec(), expected);
    assert_eq!(gas(&vm), 7);

    let mut vm = machine(10, &[word(38)]);
    OpCallDataLoadHandler::eval(&mut vm).unwrap();
    let mut expected = vec![39, 40];
    expected.resize(32, 0);
    assert_eq!(top(&vm).to_be_bytes().to_vec(), expected);

    for offset in [word(40), word(usize::MAX), U256([0, 0, 0, 1])] {
        let mut vm = machine(10, &[offset]);
        OpCallDataLoadHandler::eval(&mut vm).unwrap();
        assert!(top(&vm).is_zero());
    }
}

#[test]
fn loading_call_data_pays_before_it_takes_the_offset() {
    let mut vm = machine(10, &[]);
    let result = OpCallDataLoadHandler::eval(&mut vm);
    assert_eq!(result, halt(ExceptionalHalt::StackUnderflow));
    assert_eq!(gas(&vm), 7);
    let mut poor = machine(2, &[word(0)]);
    assert_eq!(OpCallDataLoadHandler::eval(&mut poor), halt(ExceptionalHalt::OutOfGas));
    assert_eq!(poor.current_call_frame.stack.len(), 1);
    let mut full = machine(10, &[word(0); 1024]);
    assert_eq!(OpCallDataLoadHandler::eval(&mut full), DONE);
    assert_eq!(full.current_call_frame.stack.len(), 1024);
}

#[test]
fn call_data_is_copied_with_zeros_past_the_end() {
    // From 38, four bytes, to 2.
    let mut vm = machine(100, &[word(4), word(38), word(2)]);
    vm.current_call_frame.memory.store_data(0, &[0xEE; 32]).unwrap();
    assert_eq!(OpCallDataCopyHandler::eval(&mut vm), DONE);
    assert_eq!(&memory(&vm)[..8], &[0xEE, 0xEE, 39, 40, 0, 0, 0xEE, 0xEE]);
    assert_eq!(memory(&vm).len(), 32);
    assert_eq!(gas(&vm), 94);
    assert_eq!(vm.current_call_frame.stack.len(), 0);
}

#[test]
fn a_copy_grows_memory_by_whole_words_and_pays_for_it() {
    let mut vm = machine(100, &[word(33), word(0), word(32)]);
    assert_eq!(OpCallDataCopyHandler::eval(&mut vm), DONE);
    assert_eq!(memory(&vm).len(), 96);
    assert_eq!(memory(&vm)[31], 0);
    assert_eq!(memory(&vm)[32], 1);
    assert_eq!(memory(&vm)[64], 33);
    assert_eq!(memory(&vm)[65], 0);
    // 3 for the copy, 3 for each of two words, 3 for each of three words of memory.
    assert_eq!(gas(&vm), 100 - 3 - 6 - 9);
}

#[test]
fn a_copy_of_nothing_changes_no_memory() {
    let huge = U256([0, 0, 0, 1]);
    let mut vm = machine(100, &[word(0), huge, huge]);
    assert_eq!(OpCallDataCopyHandler::eval(&mut vm), DONE);
    assert_eq!(memory(&vm).len(), 0);
    assert_eq!(gas(&vm), 97);
}

#[test]
fn a_second_copy_pays_for_no_memory() {
    let arguments = [word(32), word(0), word(0)];
    let mut vm = machine(100, &[arguments, arguments].concat());
    OpCallDataCopyHandler::eval(&mut vm).unwrap();
    assert_eq!(gas(&vm), 91);
    OpCallDataCopyHandler::eval(&mut vm).unwrap();
    assert_eq!(gas(&vm), 85);
}

#[test]
fn a_copy_that_cannot_be_is_a_halt() {
    let huge = U256([0, 1, 0, 0]);
    let cases: [fn(&mut VM) -> Result<OpcodeResult, VMError>; 3] =
        [OpCallDataCopyHandler::eval, OpCodeCopyHandler::eval, OpReturnDataCopyHandler::eval];
    for eval in cases {
        let mut short = machine(100, &[word(1), word(0)]);
        assert_eq!(eval(&mut short), halt(ExceptionalHalt::StackUnderflow));
        assert_eq!(short.current_call_frame.stack.len(), 2);

        let mut long = machine(100, &[huge, word(0), word(0)]);
        assert_eq!(eval(&mut long), halt(ExceptionalHalt::VeryLargeNumber));
        let mut far = machine(100, &[word(1), word(0), huge]);
        assert_eq!(eval(&mut far), halt(ExceptionalHalt::VeryLargeNumber));

        let mut end = machine(100, &[word(1), word(0), word(usize::MAX)]);
        assert_eq!(eval(&mut end), halt(ExceptionalHalt::OutOfBounds));
        assert_eq!(gas(&end), 100);

        let mut dear = machine(8, &[word(1), word(0), word(0)]);
        assert_eq!(eval(&mut dear), halt(ExceptionalHalt::OutOfGas));
        assert_eq!(gas(&dear), 8);
        assert_eq!(memory(&dear).len(), 0);
        assert_eq!(dear.current_call_frame.stack.len(), 0);

        let mut vast = machine(u64::MAX, &[word(usize::MAX / 2), word(0), word(0)]);
        assert_eq!(eval(&mut vast), halt(ExceptionalHalt::OutOfGas));
    }
}

#[test]
fn code_is_copied_with_zeros_past_the_end() {
    let mut vm = machine(100, &[word(5), word(1), word(0)]);
    assert_eq!(OpCodeCopyHandler::eval(&mut vm), DONE);
    assert_eq!(&memory(&vm)[..6], &[0x01, 0x50, 0, 0, 0, 0]);
    assert_eq!(gas(&vm), 91);
    // An offset that no buffer reaches.
    let mut far = machine(100, &[word(2), U256([0, 0, 0, 1]), word(0)]);
    far.current_call_frame.memory.store_data(0, &[9, 9, 9]).unwrap();
    assert_eq!(OpCodeCopyHandler::eval(&mut far), DONE);
    assert_eq!(&memory(&far)[..3], &[0, 0, 9]);
}

#[test]
fn the_padding_of_code_cannot_be_told_from_zeros() {
    for padding in [0, 1, 33] {
        let mut vm = machine(100, &[word(64), word(2), word(0)]);
        vm.current_call_frame.bytecode = Code::new(vec![1, 2, 3], padding);
        OpCodeCopyHandler::eval(&mut vm).unwrap();
        assert_eq!(memory(&vm)[0], 3);
        assert!(memory(&vm)[1..].iter().all(|byte| *byte == 0));
    }
}

#[test]
fn return_data_is_copied_only_where_there_is_some() {
    let mut vm = machine(100, &[word(2), word(1), word(0)]);
    assert_eq!(OpReturnDataCopyHandler::eval(&mut vm), DONE);
    assert_eq!(&memory(&vm)[..3], &[8, 9, 0]);

    let mut past = machine(100, &[word(3), word(1), word(0)]);
    let result = OpReturnDataCopyHandler::eval(&mut past);
    assert_eq!(result, halt(ExceptionalHalt::OutOfBounds));
    // Three for the copy, three for its word and three for a word of memory are paid.
    assert_eq!(gas(&past), 91);
    assert_eq!(memory(&past).len(), 0);

    let mut at_end = machine(100, &[word(0), word(3), word(0)]);
    assert_eq!(OpReturnDataCopyHandler::eval(&mut at_end), DONE);
    let mut empty = machine(100, &[word(0), word(4), word(0)]);
    let result = OpReturnDataCopyHandler::eval(&mut empty);
    assert_eq!(result, halt(ExceptionalHalt::OutOfBounds));
    let mut wrap = machine(100, &[word(2), word(usize::MAX), word(0)]);
    let result = OpReturnDataCopyHandler::eval(&mut wrap);
    assert_eq!(result, halt(ExceptionalHalt::OutOfBounds));
    let mut large = machine(100, &[word(0), U256([0, 1, 0, 0]), word(0)]);
    let result = OpReturnDataCopyHandler::eval(&mut large);
    assert_eq!(result, halt(ExceptionalHalt::VeryLargeNumber));
    assert_eq!(gas(&large), 100);
}

#[test]
fn balance_is_paid_first_and_pushed_last() {
    let mut vm = machine(5000, &[word(0x42)]);
    let pending = OpBalanceHandler::eval(&mut vm).unwrap();
    assert_eq!(pending.address, address(0x42));
    assert_eq!(gas(&vm), 2400);
    assert!(!touched(&vm, &address(0x42)));
    let result = OpBalanceHandler::resume(&mut vm, pending, Ok(account(1234, false)));
    assert_eq!(result, DONE);
    assert_eq!(top(&vm), word(1234));
    assert!(touched(&vm, &address(0x42)));
}

#[test]
fn a_second_access_is_warm() {
    let mut vm = machine(5000, &[word(0x42), word(0x42)]);
    OpBalanceHandler::eval(&mut vm).unwrap();
    assert_eq!(gas(&vm), 2400);
    OpExtCodeSizeHandler::eval(&mut vm).unwrap();
    assert_eq!(gas(&vm), 2300);
}

#[test]
fn an_unpaid_read_is_not_asked_and_touches_nothing() {
    let mut vm = machine(2599, &[word(0x42)]);
    let result = OpBalanceHandler::eval(&mut vm);
    assert!(matches!(result, Err(VMError::ExceptionalHalt(ExceptionalHalt::OutOfGas))));
    assert_eq!(gas(&vm), 2599);
    assert!(vm.substate.accessed_addresses.contains(&address(0x42)));
    assert!(!touched(&vm, &address(0x42)));
    let mut vm = machine(2600, &[word(1), word(0), word(0), word(0x42)]);
    let result = OpExtCodeCopyHandler::eval(&mut vm);
    assert!(matches!(result, Err(VMError::ExceptionalHalt(ExceptionalHalt::OutOfGas))));
    assert!(!touched(&vm, &address(0x42)));
    assert!(vm.substate.accessed_addresses.contains(&address(0x42)));
}

#[test]
fn a_read_without_an_address_is_a_halt() {
    let under = VMError::ExceptionalHalt(ExceptionalHalt::StackUnderflow);
    assert_eq!(OpBalanceHandler::eval(&mut machine(5000, &[])).err(), Some(under));
    assert_eq!(OpExtCodeSizeHandler::eval(&mut machine(5000, &[])).err(), Some(under));
    assert_eq!(OpExtCodeHashHandler::eval(&mut machine(5000, &[])).err(), Some(under));
    let mut vm = machine(5000, &[word(1), word(2), word(3)]);
    assert_eq!(OpExtCodeCopyHandler::eval(&mut vm).err(), Some(under));
    assert_eq!(vm.current_call_frame.stack.len(), 3);
}

#[test]
fn a_failed_read_is_the_error_of_the_instruction() {
    let mut vm = traced(5000, &[word(0x42)]);
    let pending = OpBalanceHandler::eval(&mut vm).unwrap();
    assert_eq!(OpBalanceHandler::resume(&mut vm, pending, Err(DATABASE)), Err(DATABASE));
    assert_eq!(OpExtCodeSizeHandler::resume(&mut vm, pending, Err(DATABASE)), Err(DATABASE));
    assert_eq!(
        OpExtCodeHashHandler::resume(&mut vm, pending, Err(DATABASE)).err(),
        Some(DATABASE)
    );
    assert!(!touched(&vm, &address(0x42)));
    assert_eq!(vm.current_call_frame.stack.len(), 0);
    assert!(looks(&mut vm, 0x01).is_empty());
}

#[test]
fn a_machine_that_records_no_touch_goes_on_alike() {
    let mut vm = machine(5000, &[word(0x42)]);
    vm.bal_recorder = None;
    let pending = OpBalanceHandler::eval(&mut vm).unwrap();
    assert_eq!(OpBalanceHandler::resume(&mut vm, pending, Ok(account(5, false))), DONE);
    assert!(vm.bal_recorder.is_none());
    assert_eq!(top(&vm), word(5));
}

#[test]
fn ext_code_size_is_pushed_and_recorded() {
    let mut vm = traced(5000, &[word(0x42)]);
    let pending = read_of(OpExtCodeSizeHandler::eval(&mut vm).unwrap());
    assert_eq!(OpExtCodeSizeHandler::resume(&mut vm, pending, Ok(321)), DONE);
    assert_eq!(top(&vm), word(321));
    assert!(touched(&vm, &address(0x42)));
    assert_eq!(looks(&mut vm, 0x01), vec![address(0x42)]);
    let root = &vm.erc7562_tracer.frames[0].root;
    let size = root.contract_size.get(&address(0x42)).unwrap();
    assert_eq!(size.contract_size, 321);
    assert_eq!(size.opcode, 0x3B);
}

#[test]
fn the_idiom_that_asks_for_any_code_is_not_recorded() {
    let mut vm = traced(5000, &[word(0x42)]);
    let pending = read_of(OpExtCodeSizeHandler::eval(&mut vm).unwrap());
    OpExtCodeSizeHandler::resume(&mut vm, pending, Ok(0)).unwrap();
    assert!(looks(&mut vm, 0x15).is_empty());
}

#[test]
fn ext_code_is_copied_with_zeros_past_the_end() {
    let mut vm = traced(5000, &[word(4), word(1), word(3), word(0x42)]);
    let pending = read_of(OpExtCodeCopyHandler::eval(&mut vm).unwrap());
    assert_eq!(pending.address(), address(0x42));
    assert!(touched(&vm, &address(0x42)));
    // Cold access, one word copied, one word of memory.
    assert_eq!(gas(&vm), 5000 - 2600 - 3 - 3);
    let code = Code::new(vec![5, 6, 7], 33);
    assert_eq!(OpExtCodeCopyHandler::resume(&mut vm, pending, Ok(code)), DONE);
    assert_eq!(&memory(&vm)[..8], &[0, 0, 0, 6, 7, 0, 0, 0]);
    assert_eq!(looks(&mut vm, 0x15), vec![address(0x42)]);
    let root = &vm.erc7562_tracer.frames[0].root;
    assert_eq!(root.contract_size.get(&address(0x42)).unwrap().contract_size, 3);
    assert_eq!(root.contract_size.get(&address(0x42)).unwrap().opcode, 0x3C);
}

#[test]
fn ext_code_is_read_even_where_nothing_is_copied() {
    let huge = U256([0, 0, 0, 1]);
    let mut vm = traced(5000, &[word(0), huge, huge, word(0x42)]);
    let pending = read_of(OpExtCodeCopyHandler::eval(&mut vm).unwrap());
    assert_eq!(OpExtCodeCopyHandler::resume(&mut vm, pending, Err(DATABASE)), Err(DATABASE));
    let code = Code::new(vec![5], 0);
    assert_eq!(OpExtCodeCopyHandler::resume(&mut vm, pending, Ok(code)), DONE);
    assert_eq!(memory(&vm).len(), 0);
}

#[test]
fn ext_code_copy_halts_on_a_range_that_cannot_be() {
    let mut vm = traced(5000, &[U256([0, 1, 0, 0]), word(0), word(0), word(0x42)]);
    let large = VMError::ExceptionalHalt(ExceptionalHalt::VeryLargeNumber);
    assert_eq!(OpExtCodeCopyHandler::eval(&mut vm).err(), Some(large));
    assert!(looks(&mut vm, 0x01).is_empty());
    let mut vm = traced(5000, &[word(1), word(0), word(usize::MAX), word(0x42)]);
    let outside = VMError::ExceptionalHalt(ExceptionalHalt::OutOfBounds);
    assert_eq!(OpExtCodeCopyHandler::eval(&mut vm).err(), Some(outside));
    assert!(!vm.substate.accessed_addresses.contains(&address(0x42)));
    assert_eq!(looks(&mut vm, 0x01), vec![address(0x42)]);
}

#[test]
fn ext_code_hash_is_pushed_or_zero_for_an_empty_account() {
    let mut vm = machine(5000, &[word(0x42)]);
    let pending = read_of(OpExtCodeHashHandler::eval(&mut vm).unwrap());
    let step = OpExtCodeHashHandler::resume(&mut vm, pending, Ok(account(0, false)));
    assert!(matches!(step, Ok(HashStep::Done(OpcodeResult::Continue))));
    assert_eq!(top(&vm), U256([0xCD, 0, 0, 0xAB00_0000_0000_0000]));
    assert_eq!(gas(&vm), 2400);
    assert!(touched(&vm, &address(0x42)));

    let mut vm = machine(5000, &[word(0x42)]);
    let pending = read_of(OpExtCodeHashHandler::eval(&mut vm).unwrap());
    OpExtCodeHashHandler::resume(&mut vm, pending, Ok(account(0, true))).unwrap();
    assert!(top(&vm).is_zero());
}

#[test]
fn ext_code_hash_asks_for_the_length_only_where_it_is_recorded() {
    let mut vm = traced(5000, &[word(0x42)]);
    let pending = read_of(OpExtCodeHashHandler::eval(&mut vm).unwrap());
    let step = OpExtCodeHashHandler::resume(&mut vm, pending, Ok(account(0, false))).unwrap();
    let length_read = match step {
        HashStep::ReadCodeLength(length_read) => length_read,
        HashStep::Done(_) => panic!("the length is asked for"),
    };
    assert_eq!(length_read.address, address(0x42));
    assert!(!touched(&vm, &address(0x42)));
    let failed = OpExtCodeHashHandler::resume_with_code_length(&mut vm, length_read, Err(DATABASE));
    assert_eq!(failed, Err(DATABASE));
    assert!(!touched(&vm, &address(0x42)));
    let done = OpExtCodeHashHandler::resume_with_code_length(&mut vm, length_read, Ok(17));
    assert_eq!(done, DONE);
    assert_eq!(top(&vm), U256([0xCD, 0, 0, 0xAB00_0000_0000_0000]));
    assert!(touched(&vm, &address(0x42)));
    assert_eq!(looks(&mut vm, 0x01), vec![address(0x42)]);
    let root = &vm.erc7562_tracer.frames[0].root;
    assert_eq!(root.contract_size.get(&address(0x42)).unwrap().contract_size, 17);
    assert_eq!(root.contract_size.get(&address(0x42)).unwrap().opcode, 0x3F);
}

#[test]
fn a_watched_machine_asks_whether_it_may_look() {
    let mut vm = machine(9000, &[word(0x42), word(0x43)]);
    vm.validation_observer.active = true;
    let request = OpExtCodeSizeHandler::eval(&mut vm).unwrap();
    assert!(matches!(request, Request::CheckTarget(AccountRead { address: a }) if a == address(0x43)));
    let request = OpExtCodeHashHandler::eval(&mut vm).unwrap();
    assert!(matches!(request, Request::CheckTarget(AccountRead { address: a }) if a == address(0x42)));
    let mut vm = machine(9000, &[word(1), word(0), word(0), word(0x42)]);
    vm.validation_observer.active = true;
    let request = OpExtCodeCopyHandler::eval(&mut vm).unwrap();
    assert!(matches!(request, Request::CheckTarget(_)));
}

#[test]
fn a_refused_look_reads_nothing() {
    assert_eq!(after_check(5, Ok(())), Ok(5));
    let refused: Result<u8, VMError> = after_check(5, Err(DATABASE));
    assert_eq!(refused, Err(DATABASE));
}

#[test]
fn collecting_changes_nothing_else() {
    let mut results = Vec::new();
    for mut vm in [machine(9000, &[word(0x42)]), traced(9000, &[word(0x42)])] {
        let pending = read_of(OpExtCodeSizeHandler::eval(&mut vm).unwrap());
        OpExtCodeSizeHandler::resume(&mut vm, pending, Ok(9)).unwrap();
        vm.current_call_frame.stack.push(word(0x43)).unwrap();
        let pending = read_of(OpExtCodeHashHandler::eval(&mut vm).unwrap());
        let step = OpExtCodeHashHandler::resume(&mut vm, pending, Ok(account(0, false))).unwrap();
        if let HashStep::ReadCodeLength(length_read) = step {
            OpExtCodeHashHandler::resume_with_code_length(&mut vm, length_read, Ok(9)).unwrap();
        }
        results.push((gas(&vm), top(&vm), vm.current_call_frame.stack.peek(1)));
        assert!(touched(&vm, &address(0x43)));
    }
    assert_eq!(results[0], results[1]);
}
