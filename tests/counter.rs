use counter_program::address::{check_ata, keys_equal, AtaCreator};
use counter_program::error::{CounterError, DecodeError};
use counter_program::instruction::CounterInstruction;
use counter_program::processor::{
    begin_initialize, complete_initialize, process_increment_counter, process_instruction, Slot, Step,
};
use counter_program::state::CounterAccount;

const PROGRAM: [u8; 32] = [7u8; 32];
const OTHER_PROGRAM: [u8; 32] = [9u8; 32];

fn slot(key: u8, owner: [u8; 32], is_signer: bool, is_writable: bool, data: Vec<u8>) -> Slot {
    Slot { key: [key; 32], owner, is_signer, is_writable, lamports: 1_000, data }
}

fn init_accounts() -> Vec<Slot> {
    vec![
        slot(1, PROGRAM, true, true, Vec::new()),
        slot(2, [0u8; 32], false, false, Vec::new()),
        slot(3, [0u8; 32], false, true, Vec::new()),
        slot(4, [0u8; 32], true, true, Vec::new()),
        slot(5, [0u8; 32], false, false, Vec::new()),
    ]
}

fn atas() -> AtaCreator {
    AtaCreator { token_program: [11u8; 32], associated_token_program: [12u8; 32] }
}

fn stored(accounts: &Vec<Slot>) -> u64 {
    CounterAccount::try_from_slice(&accounts[0].data).expect("counter data").count
}

#[test]
fn decode_initialize_reads_little_endian_value() {
    let mut buf = vec![0u8];
    buf.extend_from_slice(&42u64.to_le_bytes());
    assert_eq!(CounterInstruction::unpack(&buf), Ok(CounterInstruction::InitializeCounter { initial_value: 42 }));
    let buf = [0u8, 8, 7, 6, 5, 4, 3, 2, 1];
    assert_eq!(
        CounterInstruction::unpack(&buf),
        Ok(CounterInstruction::InitializeCounter { initial_value: 0x0102030405060708 })
    );
}

#[test]
fn decode_increment() {
    assert_eq!(CounterInstruction::unpack(&[1]), Ok(CounterInstruction::IncrementCounter));
}

#[test]
fn decode_rejects_each_malformed_buffer() {
    assert_eq!(CounterInstruction::unpack(&[]), Err(DecodeError::Empty));
    assert_eq!(CounterInstruction::unpack(&[2]), Err(DecodeError::UnknownTag));
    assert_eq!(CounterInstruction::unpack(&[255, 0, 0]), Err(DecodeError::UnknownTag));
    assert_eq!(CounterInstruction::unpack(&[0, 1, 2, 3, 4, 5, 6, 7]), Err(DecodeError::MalformedPayload));
    assert_eq!(CounterInstruction::unpack(&[0, 1, 2, 3, 4, 5, 6, 7, 8, 9]), Err(DecodeError::MalformedPayload));
    assert_eq!(CounterInstruction::unpack(&[0]), Err(DecodeError::MalformedPayload));
    assert_eq!(CounterInstruction::unpack(&[1, 0]), Err(DecodeError::MalformedPayload));
}

#[test]
fn encode_writes_tag_and_little_endian_payload() {
    let x = CounterInstruction::InitializeCounter { initial_value: 0x0102030405060708 };
    assert_eq!(x.pack(), vec![0u8, 8, 7, 6, 5, 4, 3, 2, 1]);
    assert_eq!(CounterInstruction::IncrementCounter.pack(), vec![1u8]);
}

#[test]
fn decode_of_encode_round_trips() {
    for x in [
        CounterInstruction::InitializeCounter { initial_value: 0 },
        CounterInstruction::InitializeCounter { initial_value: 42 },
        CounterInstruction::InitializeCounter { initial_value: u64::MAX },
        CounterInstruction::IncrementCounter,
    ] {
        assert_eq!(CounterInstruction::unpack(&x.pack()), Ok(x));
    }
}

#[test]
fn counter_payload_is_eight_little_endian_bytes() {
    let c = CounterAccount { count: 0x0102030405060708 };
    assert_eq!(c.serialize(), vec![8u8, 7, 6, 5, 4, 3, 2, 1]);
    assert_eq!(CounterAccount::try_from_slice(&[8, 7, 6, 5, 4, 3, 2, 1]), Ok(c));
    assert_eq!(CounterAccount::try_from_slice(&c.serialize()), Ok(c));
}

#[test]
fn counter_payload_of_wrong_length_is_corrupt() {
    assert_eq!(CounterAccount::try_from_slice(&[]), Err(CounterError::CorruptState));
    assert_eq!(CounterAccount::try_from_slice(&[1, 2, 3, 4]), Err(CounterError::CorruptState));
    assert_eq!(CounterAccount::try_from_slice(&[0; 9]), Err(CounterError::CorruptState));
}

#[test]
fn initialize_then_increment_twice() {
    let mut accounts = init_accounts();
    let step = begin_initialize(&accounts, 42, Ok([13u8; 32])).expect("plan");
    match step {
        Step::Invoke { instruction, participants, initial_value, associated_address } => {
            assert_eq!(initial_value, 42);
            assert_eq!(associated_address, [13u8; 32]);
            assert_eq!(instruction.program_id, [5u8; 32]);
            assert!(instruction.data.is_empty());
            assert_eq!(participants, vec![0usize, 2, 3, 4]);
            let metas: Vec<([u8; 32], bool, bool)> =
                instruction.accounts.iter().map(|m| (m.key, m.is_writable, m.is_signer)).collect();
            assert_eq!(
                metas,
                vec![([1u8; 32], true, false), ([3u8; 32], true, false), ([4u8; 32], true, false), ([5u8; 32], false, false)]
            );
        }
        Step::Finished { .. } => panic!("initialization must invoke the system program"),
    }
    assert_eq!(complete_initialize(&mut accounts, 42, Ok(())), Ok(42));
    assert_eq!(accounts[0].data.len(), 8);
    assert_eq!(stored(&accounts), 42);

    match process_instruction(&PROGRAM, &atas(), &mut accounts, &[1]) {
        Ok(Step::Finished { count }) => assert_eq!(count, 43),
        _ => panic!("increment must finish"),
    }
    assert_eq!(stored(&accounts), 43);
    assert_eq!(process_increment_counter(&PROGRAM, &mut accounts), Ok(44));
    assert_eq!(stored(&accounts), 44);
    assert_eq!(accounts[0].key, [1u8; 32]);
    assert_eq!(accounts[0].lamports, 1_000);
}

#[test]
fn increment_on_foreign_owner_is_rejected() {
    let data = CounterAccount { count: 5 }.serialize();
    let mut accounts = vec![slot(1, OTHER_PROGRAM, true, true, data.clone())];
    assert_eq!(process_increment_counter(&PROGRAM, &mut accounts), Err(CounterError::IncorrectOwner));
    assert_eq!(accounts[0].data, data);
}

#[test]
fn increment_at_max_overflows_without_writing() {
    let data = CounterAccount { count: u64::MAX }.serialize();
    let mut accounts = vec![slot(1, PROGRAM, true, true, data.clone())];
    assert_eq!(process_increment_counter(&PROGRAM, &mut accounts), Err(CounterError::CounterOverflow));
    assert_eq!(accounts[0].data, data);
}

#[test]
fn increment_on_short_buffer_is_corrupt() {
    let mut accounts = vec![slot(1, PROGRAM, true, true, vec![1, 2, 3, 4])];
    assert_eq!(
        process_instruction(&PROGRAM, &atas(), &mut accounts, &[1]).err(),
        Some(CounterError::CorruptState)
    );
    assert_eq!(accounts[0].data, vec![1u8, 2, 3, 4]);
}

#[test]
fn increment_without_accounts_is_missing_account() {
    let mut accounts: Vec<Slot> = Vec::new();
    assert_eq!(process_increment_counter(&PROGRAM, &mut accounts), Err(CounterError::MissingAccount));
}

#[test]
fn process_instruction_reports_decode_errors() {
    let mut accounts = init_accounts();
    assert_eq!(
        process_instruction(&PROGRAM, &atas(), &mut accounts, &[2]).err(),
        Some(CounterError::Decode(DecodeError::UnknownTag))
    );
    assert_eq!(
        process_instruction(&PROGRAM, &atas(), &mut accounts, &[]).err(),
        Some(CounterError::Decode(DecodeError::Empty))
    );
}

#[test]
fn initialize_needs_five_accounts() {
    let mut accounts = init_accounts();
    accounts.pop();
    assert_eq!(begin_initialize(&accounts, 1, Ok([0u8; 32])).err(), Some(CounterError::MissingAccount));
    let mut buf = vec![0u8];
    buf.extend_from_slice(&1u64.to_le_bytes());
    assert_eq!(
        process_instruction(&PROGRAM, &atas(), &mut accounts, &buf).err(),
        Some(CounterError::MissingAccount)
    );
}

#[test]
fn initialize_needs_signing_writable_payer() {
    let mut accounts = init_accounts();
    accounts[3].is_signer = false;
    assert_eq!(begin_initialize(&accounts, 1, Ok([0u8; 32])).err(), Some(CounterError::MissingPrivilege));
    let mut accounts = init_accounts();
    accounts[3].is_writable = false;
    assert_eq!(begin_initialize(&accounts, 1, Ok([0u8; 32])).err(), Some(CounterError::MissingPrivilege));
}

#[test]
fn initialize_propagates_derivation_failure() {
    let accounts = init_accounts();
    assert_eq!(
        begin_initialize(&accounts, 1, Err(CounterError::DerivationExhausted)).err(),
        Some(CounterError::DerivationExhausted)
    );
}

#[test]
fn failed_invocation_is_surfaced_and_nothing_written() {
    let mut accounts = init_accounts();
    assert_eq!(complete_initialize(&mut accounts, 42, Err(7)), Err(CounterError::InvocationFailed(7)));
    assert!(accounts[0].data.is_empty());
    let mut none: Vec<Slot> = Vec::new();
    assert_eq!(complete_initialize(&mut none, 42, Ok(())), Err(CounterError::MissingAccount));
}

#[test]
fn decode_initialize_with_high_bytes() {
    let buf = [0u8, 0xff, 0, 0, 0, 0, 0, 0, 0x80];
    assert_eq!(
        CounterInstruction::unpack(&buf),
        Ok(CounterInstruction::InitializeCounter { initial_value: 0x8000_0000_0000_00ff })
    );
    let buf = [0u8, 0xff, 0xff, 0xff, 0xff, 0xff, 0xff, 0xff, 0xff];
    assert_eq!(CounterInstruction::unpack(&buf), Ok(CounterInstruction::InitializeCounter { initial_value: u64::MAX }));
}

#[test]
fn candidate_address_is_checked_against_derivation() {
    assert_eq!(check_ata(None, &[1u8; 32]), Err(CounterError::DerivationExhausted));
    assert_eq!(check_ata(Some([1u8; 32]), &[1u8; 32]), Ok(()));
    assert_eq!(check_ata(Some([1u8; 32]), &[2u8; 32]), Err(CounterError::AddressMismatch));
}

#[test]
fn keys_compare_byte_for_byte() {
    let a = [3u8; 32];
    let mut b = a;
    assert!(keys_equal(&a, &b));
    b[31] = 4;
    assert!(!keys_equal(&a, &b));
}
