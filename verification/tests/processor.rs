use hello_counter::error::Failure;
use hello_counter::process::process_instruction;
use hello_counter::record::GreetingAccount;
use hello_counter::slot::{Identity, StorageSlot};

fn identity(tag: u8) -> Identity {
    let mut bytes = [0u8; 32];
    bytes[0] = tag;
    Identity { bytes }
}

fn slot(owner: Identity, data: Vec<u8>) -> StorageSlot {
    StorageSlot { owner, data, writable: true, lamports: 0 }
}

fn counter_of(accounts: &Vec<StorageSlot>) -> u32 {
    GreetingAccount::decode(accounts[0].data.as_slice()).unwrap().counter
}

#[test]
fn test_sanity() {
    let program_id = identity(0);
    let owner = identity(0);
    let data = vec![0u8; 4];
    let instruction_data: Vec<u8> = Vec::new();
    let mut accounts = vec![slot(owner, data)];

    assert_eq!(counter_of(&accounts), 0);
    process_instruction(&program_id, &mut accounts, instruction_data.as_slice()).unwrap();
    assert_eq!(counter_of(&accounts), 1);
    process_instruction(&program_id, &mut accounts, instruction_data.as_slice()).unwrap();
    assert_eq!(counter_of(&accounts), 2);
}

#[test]
fn greeting_rewrites_the_buffer_in_place() {
    let program_id = identity(7);
    let mut accounts = vec![slot(identity(7), vec![0, 0, 0, 0])];

    let first = process_instruction(&program_id, &mut accounts, &[]);
    assert_eq!(first, Ok(()));
    assert_eq!(accounts[0].data, vec![1, 0, 0, 0]);

    let second = process_instruction(&program_id, &mut accounts, &[]);
    assert_eq!(second, Ok(()));
    assert_eq!(accounts[0].data, vec![2, 0, 0, 0]);
}

#[test]
fn foreign_owner_is_rejected_and_buffer_kept() {
    let program_id = identity(1);
    let mut accounts = vec![slot(identity(2), vec![0, 0, 0, 0])];

    let r = process_instruction(&program_id, &mut accounts, &[]);
    assert_eq!(r, Err(Failure::IncorrectOwner));
    assert_eq!(accounts[0].data, vec![0, 0, 0, 0]);
}

#[test]
fn empty_slot_list_is_rejected() {
    let program_id = identity(1);
    let mut accounts: Vec<StorageSlot> = Vec::new();

    let r = process_instruction(&program_id, &mut accounts, &[]);
    assert_eq!(r, Err(Failure::MissingAccount));
    assert!(accounts.is_empty());
}

#[test]
fn short_buffer_is_rejected_and_kept() {
    let program_id = identity(1);
    let mut accounts = vec![slot(identity(1), vec![9, 9])];

    let r = process_instruction(&program_id, &mut accounts, &[]);
    assert_eq!(r, Err(Failure::MalformedRecord));
    assert_eq!(accounts[0].data, vec![9, 9]);
}

#[test]
fn encode_uses_little_endian_layout() {
    let record = GreetingAccount { counter: 0x0102_0304 };
    assert_eq!(record.encode(), vec![0x04, 0x03, 0x02, 0x01]);
    assert_eq!(GreetingAccount { counter: 0 }.encode(), vec![0, 0, 0, 0]);
    assert_eq!(GreetingAccount { counter: u32::MAX }.encode(), vec![255, 255, 255, 255]);
}

#[test]
fn decode_inverts_encode() {
    for counter in [0u32, 1, 0x0102_0304, 0xdead_beef, u32::MAX] {
        let encoded = GreetingAccount { counter }.encode();
        let decoded = GreetingAccount::decode(encoded.as_slice()).unwrap();
        assert_eq!(decoded.counter, counter);
    }
}

#[test]
fn counter_wraps_at_the_modulus() {
    let program_id = identity(3);
    let mut accounts = vec![slot(identity(3), vec![255, 255, 255, 255])];

    let r = process_instruction(&program_id, &mut accounts, &[]);
    assert_eq!(r, Ok(()));
    assert_eq!(accounts[0].data, vec![0, 0, 0, 0]);
}

#[test]
fn bytes_past_the_record_are_preserved() {
    let program_id = identity(4);
    let mut accounts = vec![slot(identity(4), vec![5, 0, 0, 0, 9, 8, 7])];

    let r = process_instruction(&program_id, &mut accounts, &[]);
    assert_eq!(r, Ok(()));
    assert_eq!(accounts[0].data, vec![6, 0, 0, 0, 9, 8, 7]);
}

#[test]
fn payload_is_ignored() {
    let program_id = identity(5);
    let mut accounts = vec![slot(identity(5), vec![0, 0, 0, 0])];

    let r = process_instruction(&program_id, &mut accounts, &[1, 2, 3, 4, 5]);
    assert_eq!(r, Ok(()));
    assert_eq!(accounts[0].data, vec![1, 0, 0, 0]);
}

#[test]
fn only_the_first_slot_is_touched() {
    let program_id = identity(6);
    let mut accounts = vec![
        slot(identity(6), vec![0, 0, 0, 0]),
        slot(identity(9), vec![3, 0, 0, 0]),
    ];

    let r = process_instruction(&program_id, &mut accounts, &[]);
    assert_eq!(r, Ok(()));
    assert_eq!(accounts[0].data, vec![1, 0, 0, 0]);
    assert_eq!(accounts[1].data, vec![3, 0, 0, 0]);
    assert_eq!(accounts[1].owner, identity(9));
}

#[test]
fn write_into_rejects_a_buffer_shorter_than_a_record() {
    let record = GreetingAccount { counter: 11 };
    let mut buf = vec![1u8, 2, 3];
    let r = record.write_into(&mut buf);
    assert_eq!(r, Err(Failure::BufferTooSmall));
    assert_eq!(buf, vec![1, 2, 3]);
}

#[test]
fn write_into_overwrites_exactly_the_record_range() {
    let record = GreetingAccount { counter: 0x0102_0304 };
    let mut buf = vec![0u8, 0, 0, 0, 42];
    let r = record.write_into(&mut buf);
    assert_eq!(r, Ok(()));
    assert_eq!(buf, vec![0x04, 0x03, 0x02, 0x01, 42]);
}

#[test]
fn identities_compare_byte_for_byte() {
    assert!(identity(1).same_as(&identity(1)));
    assert!(!identity(1).same_as(&identity(2)));
    let mut bytes = [0u8; 32];
    bytes[31] = 1;
    assert!(!Identity { bytes }.same_as(&identity(0)));
}
