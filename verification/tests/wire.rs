use program_metadata::commands::{get_metadata_address, get_program_data_address, Accounts, Instruction, RecordClass};
use program_metadata::keys::system_program_id;
use program_metadata::wire::{instruction_accounts, instruction_data, AccountMeta};

const MODULE: [u8; 32] = [0x11; 32];
const ALICE: [u8; 32] = [0xa1; 32];
const BUFFER: [u8; 32] = [0x77; 32];
const RECORD: [u8; 32] = [0x99; 32];
const PROGRAM_DATA: [u8; 32] = [0x22; 32];

fn tag(text: &str) -> [u8; 16] {
    let mut tag = [0u8; 16];
    tag[..text.len()].copy_from_slice(text.as_bytes());
    tag
}

fn accounts() -> Accounts {
    Accounts {
        class: RecordClass::Idl,
        program: MODULE,
        signer: ALICE,
        buffer: BUFFER,
        metadata_address: RECORD,
        program_data_address: PROGRAM_DATA,
        data_type: tag("idl.json"),
        priority_fees_per_cu: 0,
    }
}

fn selector(name: &str) -> Vec<u8> {
    solana_sdk::hash::hash(format!("global:{}", name).as_bytes()).to_bytes()[..8].to_vec()
}

fn initialize() -> Instruction {
    Instruction::Initialize {
        pda: RECORD,
        signer: ALICE,
        program_id: MODULE,
        program_data: PROGRAM_DATA,
        data_type: tag("idl.json"),
        seed: RecordClass::Idl,
    }
}

fn set_buffer() -> Instruction {
    Instruction::SetBuffer { buffer: BUFFER, pda: RECORD, authority: ALICE, program_id: MODULE, program_data: PROGRAM_DATA }
}

#[test]
fn selectors_are_the_hashes_of_the_instruction_names() {
    let compressed = [1u8, 2, 3];
    let cases = [
        (initialize(), "initialize"),
        (Instruction::CreateBuffer { buffer: BUFFER, authority: ALICE, data_type: tag("t") }, "create_buffer"),
        (Instruction::WriteBuffer { buffer: BUFFER, signer: ALICE, start: 0, end: 1 }, "write_buffer"),
        (Instruction::Resize { pda: RECORD, signer: ALICE, len: 1 }, "resize"),
        (set_buffer(), "set_buffer"),
        (Instruction::CloseBuffer { buffer: BUFFER, authority: ALICE }, "close_buffer"),
    ];
    for (instruction, name) in cases {
        let data = instruction_data(&instruction, &compressed).unwrap();
        assert_eq!(data[..8].to_vec(), selector(name));
    }
}

#[test]
fn texts_and_chunks_stand_behind_their_lengths() {
    let mut expected = selector("initialize");
    expected.extend_from_slice(&[8, 0, 0, 0]);
    expected.extend_from_slice(b"idl.json");
    expected.extend_from_slice(&[3, 0, 0, 0]);
    expected.extend_from_slice(b"idl");
    assert_eq!(instruction_data(&initialize(), &[]), Some(expected));

    let mut expected = selector("create_buffer");
    expected.extend_from_slice(&[9, 0, 0, 0]);
    expected.extend_from_slice(b"meta.json");
    let create = Instruction::CreateBuffer { buffer: BUFFER, authority: ALICE, data_type: tag("meta.json") };
    assert_eq!(instruction_data(&create, &[]), Some(expected));

    let compressed = [10u8, 11, 12, 13, 14];
    let mut expected = selector("write_buffer");
    expected.extend_from_slice(&[3, 0, 0, 0, 11, 12, 13]);
    let write = Instruction::WriteBuffer { buffer: BUFFER, signer: ALICE, start: 1, end: 4 };
    assert_eq!(instruction_data(&write, &compressed), Some(expected));

    let mut expected = selector("resize");
    expected.extend_from_slice(&[0x34, 0x12]);
    let resize = Instruction::Resize { pda: RECORD, signer: ALICE, len: 0x1234 };
    assert_eq!(instruction_data(&resize, &[]), Some(expected));

    assert_eq!(instruction_data(&set_buffer(), &[]), Some(selector("set_buffer")));
    let close = Instruction::CloseBuffer { buffer: BUFFER, authority: ALICE };
    assert_eq!(instruction_data(&close, &[]), Some(selector("close_buffer")));
}

#[test]
fn there_is_no_data_for_other_programs_or_for_chunks_outside_the_blob() {
    let compressed = [10u8, 11, 12];
    assert_eq!(instruction_data(&Instruction::SetComputeUnitPrice(1), &compressed), None);
    assert_eq!(instruction_data(&Instruction::SetComputeUnitLimit(1), &compressed), None);
    let create = Instruction::CreateAccount { from: ALICE, to: BUFFER, lamports: 1, space: 2 };
    assert_eq!(instruction_data(&create, &compressed), None);
    for (start, end) in [(0, 4), (2, 1), (4, 4)] {
        let write = Instruction::WriteBuffer { buffer: BUFFER, signer: ALICE, start, end };
        assert_eq!(instruction_data(&write, &compressed), None);
    }
    let empty = Instruction::WriteBuffer { buffer: BUFFER, signer: ALICE, start: 3, end: 3 };
    let mut expected = selector("write_buffer");
    expected.extend_from_slice(&[0, 0, 0, 0]);
    assert_eq!(instruction_data(&empty, &compressed), Some(expected));
    assert!(instruction_accounts(&create, &accounts()).is_empty());
}

#[test]
fn instructions_name_their_accounts_in_order() {
    let a = accounts();
    let meta = |pubkey: [u8; 32], is_signer: bool, is_writable: bool| AccountMeta { pubkey, is_signer, is_writable };
    let system = system_program_id();
    assert_eq!(
        instruction_accounts(&initialize(), &a),
        vec![
            meta(RECORD, false, true),
            meta(ALICE, true, true),
            meta(system, false, false),
            meta(MODULE, false, false),
            meta(PROGRAM_DATA, false, false),
        ]
    );
    assert_eq!(
        instruction_accounts(&Instruction::CreateBuffer { buffer: BUFFER, authority: ALICE, data_type: tag("t") }, &a),
        vec![meta(BUFFER, false, true), meta(ALICE, true, false)]
    );
    assert_eq!(
        instruction_accounts(&Instruction::WriteBuffer { buffer: BUFFER, signer: ALICE, start: 0, end: 0 }, &a),
        vec![meta(BUFFER, false, true), meta(ALICE, true, true), meta(system, false, false)]
    );
    assert_eq!(
        instruction_accounts(&Instruction::Resize { pda: RECORD, signer: ALICE, len: 100 }, &a),
        vec![meta(RECORD, false, true), meta(ALICE, true, true), meta(system, false, false), meta(MODULE, false, false)]
    );
    assert_eq!(
        instruction_accounts(&set_buffer(), &a),
        vec![
            meta(BUFFER, false, true),
            meta(RECORD, false, true),
            meta(ALICE, true, false),
            meta(MODULE, false, false),
            meta(PROGRAM_DATA, false, false),
        ]
    );
    assert_eq!(
        instruction_accounts(&Instruction::CloseBuffer { buffer: BUFFER, authority: ALICE }, &a),
        vec![meta(BUFFER, false, true), meta(ALICE, true, true)]
    );
    assert!(get_metadata_address("idl", &MODULE).is_some() && get_program_data_address(&MODULE).is_some());
}
