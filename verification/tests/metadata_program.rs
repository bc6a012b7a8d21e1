use program_metadata::account::{Account, Rejection, Signer};
use program_metadata::keys::{bpf_loader_id, bpf_loader_upgradeable_id, erased_authority};
use program_metadata::loader::{AccountInfo, AuthorityError, ProgramData};
use program_metadata::metadata_program::{
    blank_buffer, buffer_from_account_data, buffer_to_account_data, check_commit_authority,
    close_buffer, close_metadata_account_1, close_metadata_account_2, commit, create_buffer,
    creator_record_address, initialize, initialize_with_signer_seed, plain_record_from_account_data,
    plain_record_to_account_data, record_address, record_from_account_data, record_to_account_data,
    reject, resize, resize_buffer, set_authority, set_buffer, set_up_record, write_buffer, CloseBuffer,
    CloseMetadataAccount1, CloseMetadataAccount2, CreateBuffer, Initialize, InitializeWithSignerSeed,
    MetadataAccount, MetadataAccount2, MetadataAccounts, MetadataBuffer, MetadataBufferUploadTrailingData,
    MetadataUploadTrailingData, MyError, Resize, ResizeBuffer, SetBuffer, WriteBuffer,
};
use std::io::{Read, Write};

const MODULE: [u8; 32] = [0x11; 32];
const PROGRAM_DATA: [u8; 32] = [0x22; 32];
const ALICE: [u8; 32] = [0xa1; 32];
const BOB: [u8; 32] = [0xb0; 32];
const CAROL: [u8; 32] = [0xca; 32];

fn signer(key: [u8; 32]) -> Signer {
    Signer { key, lamports: 1_000 }
}

fn module() -> AccountInfo {
    let mut data = vec![2, 0, 0, 0];
    data.extend_from_slice(&PROGRAM_DATA);
    AccountInfo { key: MODULE, owner: bpf_loader_upgradeable_id(), lamports: 1, executable: true, data }
}

fn program_data(authority: Option<[u8; 32]>) -> ProgramData {
    ProgramData { key: PROGRAM_DATA, slot: 3, upgrade_authority_address: authority }
}

fn initialize_ctx(who: [u8; 32], authority: Option<[u8; 32]>) -> Initialize {
    Initialize { pda: None, signer: signer(who), program_id: module(), program_data: program_data(authority) }
}

fn tag(text: &str) -> [u8; 16] {
    let mut tag = [0u8; 16];
    tag[..text.len()].copy_from_slice(text.as_bytes());
    tag
}

fn record(authority: [u8; 32], data_len: u32, trailing: Vec<u8>) -> Account<MetadataAccount2> {
    Account {
        key: [0x99; 32],
        lamports: 500,
        initialized: true,
        account: MetadataAccount2 { authority, data_type: tag("old"), program_id: MODULE, data_len },
        trailing,
    }
}

fn buffer(authority: [u8; 32], data_type: &str, content: &[u8], capacity: usize) -> Account<MetadataBuffer> {
    let mut trailing = content.to_vec();
    trailing.resize(capacity, 0);
    Account {
        key: [0x77; 32],
        lamports: 300,
        initialized: true,
        account: MetadataBuffer { authority, data_type: tag(data_type), data_len: content.len() as u32 },
        trailing,
    }
}

fn commit_ctx(slot: Account<MetadataAccount2>, staged: Account<MetadataBuffer>, who: [u8; 32], upgrade_authority: Option<[u8; 32]>) -> SetBuffer {
    SetBuffer {
        buffer: staged,
        pda: slot,
        authority: signer(who),
        program_id: module(),
        program_data: program_data(upgrade_authority),
    }
}

fn gzip(data: &[u8]) -> Vec<u8> {
    let mut encoder = flate2::write::GzEncoder::new(Vec::new(), flate2::Compression::default());
    encoder.write_all(data).unwrap();
    encoder.finish().unwrap()
}

fn gunzip(data: &[u8]) -> Vec<u8> {
    let mut decoder = flate2::read::GzDecoder::new(data);
    let mut out = Vec::new();
    decoder.read_to_end(&mut out).unwrap();
    out
}

#[test]
fn initialize_sets_up_an_empty_record_for_the_signer() {
    let mut ctx = initialize_ctx(ALICE, Some(ALICE));
    assert_eq!(initialize(&mut ctx, "idl.json".to_string(), "idl".to_string()), Ok(()));
    let record = ctx.pda.expect("the record exists");
    assert_eq!(record.key, record_address(&MODULE, "idl").unwrap().0);
    assert!(record.initialized);
    assert_eq!(record.account.authority, ALICE);
    assert_eq!(record.account.program_id, MODULE);
    assert_eq!(record.account.data_len, 0);
    assert_eq!(record.account.get_data_type(), "idl.json");
    assert!(record.trailing.is_empty());
    assert_eq!(ctx.signer, signer(ALICE));
}

#[test]
fn initialize_is_refused_where_the_record_exists() {
    let mut ctx = initialize_ctx(ALICE, Some(ALICE));
    assert_eq!(initialize(&mut ctx, "idl.json".to_string(), "idl".to_string()), Ok(()));
    let before = ctx.pda.clone();
    assert_eq!(
        initialize(&mut ctx, "meta.json".to_string(), "idl".to_string()),
        Err(Rejection::AccountAlreadyInUse)
    );
    assert_eq!(ctx.pda, before);
}

#[test]
fn initialize_needs_the_upgrade_authority() {
    let mut ctx = initialize_ctx(BOB, Some(ALICE));
    assert_eq!(
        initialize(&mut ctx, "idl.json".to_string(), "idl".to_string()),
        Err(Rejection::Program(MyError::WrongAuthority))
    );
    assert_eq!(ctx.pda, None);
    let mut revoked = initialize_ctx(ALICE, None);
    assert_eq!(
        initialize(&mut revoked, "idl.json".to_string(), "idl".to_string()),
        Err(Rejection::Program(MyError::WrongAuthority))
    );
}

#[test]
fn initialize_passes_on_what_the_resolver_finds() {
    let mut not_a_program = initialize_ctx(ALICE, Some(ALICE));
    not_a_program.program_id.owner = [0x55; 32];
    assert_eq!(
        initialize(&mut not_a_program, "t".to_string(), "idl".to_string()),
        Err(Rejection::Program(MyError::NotAProgram))
    );
    let mut not_executable = initialize_ctx(ALICE, Some(ALICE));
    not_executable.program_id.executable = false;
    assert_eq!(
        initialize(&mut not_executable, "t".to_string(), "idl".to_string()),
        Err(Rejection::Program(MyError::NotExecutable))
    );
    let mut undecodable = initialize_ctx(ALICE, Some(ALICE));
    undecodable.program_id.data = vec![1, 2];
    assert_eq!(
        initialize(&mut undecodable, "t".to_string(), "idl".to_string()),
        Err(Rejection::InvalidAccountData)
    );
    let mut no_program = initialize_ctx(ALICE, Some(ALICE));
    no_program.program_id.data = vec![0, 0, 0, 0];
    assert_eq!(
        initialize(&mut no_program, "t".to_string(), "idl".to_string()),
        Err(Rejection::Program(MyError::ShouldBeProgramAccount))
    );
    let mut other_data = initialize_ctx(ALICE, Some(ALICE));
    other_data.program_data.key = [0x23; 32];
    assert_eq!(
        initialize(&mut other_data, "t".to_string(), "idl".to_string()),
        Err(Rejection::Program(MyError::WrongAuthority))
    );
}

#[test]
fn initialize_accepts_a_module_of_the_plain_loader() {
    let mut ctx = initialize_ctx(ALICE, Some(ALICE));
    ctx.program_id.owner = bpf_loader_id();
    assert_eq!(initialize(&mut ctx, "t".to_string(), "idl".to_string()), Ok(()));
}

#[test]
fn initialize_refuses_a_long_data_type_and_a_long_seed() {
    let mut ctx = initialize_ctx(ALICE, Some(ALICE));
    assert_eq!(
        initialize(&mut ctx, "0123456789abcdefg".to_string(), "idl".to_string()),
        Err(Rejection::Program(MyError::DataTypeTooLong))
    );
    assert_eq!(ctx.pda, None);
    assert_eq!(
        initialize(&mut ctx, "t".to_string(), "a seed that is far too long to derive from".to_string()),
        Err(Rejection::ConstraintSeeds)
    );
    assert_eq!(ctx.pda, None);
}

#[test]
fn initialize_with_signer_seed_needs_no_authority() {
    let mut ctx = InitializeWithSignerSeed {
        pda: None,
        signer: signer(BOB),
        program_id: module(),
        program_data: program_data(Some(ALICE)),
    };
    assert_eq!(
        initialize_with_signer_seed(&mut ctx, "meta.json".to_string(), "metadata".to_string()),
        Ok(())
    );
    let record = ctx.pda.expect("the record exists");
    assert_eq!(record.key, creator_record_address(&MODULE, &BOB, "metadata").unwrap().0);
    assert_ne!(record.key, record_address(&MODULE, "metadata").unwrap().0);
    assert_eq!(record.account.authority, BOB);
    assert_eq!(record.account.program_id, MODULE);
    assert_eq!(record.account.data_len, 0);
    assert_eq!(record.account.get_data_type(), "meta.json");
}

#[test]
fn initialize_with_signer_seed_still_checks_the_module() {
    let mut ctx = InitializeWithSignerSeed {
        pda: None,
        signer: signer(BOB),
        program_id: module(),
        program_data: program_data(Some(ALICE)),
    };
    ctx.program_id.executable = false;
    assert_eq!(
        initialize_with_signer_seed(&mut ctx, "t".to_string(), "metadata".to_string()),
        Err(Rejection::Program(MyError::NotExecutable))
    );
    ctx.program_id.executable = true;
    assert_eq!(
        initialize_with_signer_seed(&mut ctx, "0123456789abcdefg".to_string(), "metadata".to_string()),
        Err(Rejection::Program(MyError::DataTypeTooLong))
    );
    assert_eq!(initialize_with_signer_seed(&mut ctx, "t".to_string(), "metadata".to_string()), Ok(()));
    assert_eq!(
        initialize_with_signer_seed(&mut ctx, "t".to_string(), "metadata".to_string()),
        Err(Rejection::AccountAlreadyInUse)
    );
}

#[test]
fn create_buffer_sets_up_a_blank_account() {
    let blank = blank_buffer([0x77; 32], 300, 60 + 10).unwrap();
    assert!(!blank.initialized);
    assert_eq!(blank.trailing, vec![0u8; 10]);
    let mut ctx = CreateBuffer { buffer: blank, authority: signer(BOB) };
    assert_eq!(create_buffer(&mut ctx, "idl.json".to_string()), Ok(()));
    assert!(ctx.buffer.initialized);
    assert_eq!(ctx.buffer.account.authority, BOB);
    assert_eq!(ctx.buffer.account.data_len, 0);
    assert_eq!(ctx.buffer.account.get_data_type(), "idl.json");
    assert_eq!(ctx.buffer.trailing, vec![0u8; 10]);
    assert_eq!(ctx.buffer.lamports, 300);
}

#[test]
fn a_blank_buffer_needs_room_for_the_header() {
    assert!(blank_buffer([0x77; 32], 0, 59).is_none());
    let smallest = blank_buffer([0x77; 32], 0, 60).unwrap();
    assert!(smallest.trailing.is_empty());
}

#[test]
fn create_buffer_refusals() {
    let mut taken = CreateBuffer { buffer: buffer(ALICE, "x", b"", 4), authority: signer(BOB) };
    let before = taken.buffer.clone();
    assert_eq!(create_buffer(&mut taken, "idl.json".to_string()), Err(Rejection::ConstraintZero));
    assert_eq!(taken.buffer, before);
    let mut erased = CreateBuffer {
        buffer: blank_buffer([0x77; 32], 0, 64).unwrap(),
        authority: signer(erased_authority()),
    };
    assert_eq!(create_buffer(&mut erased, "idl.json".to_string()), Err(Rejection::ConstraintRaw));
    assert!(!erased.buffer.initialized);
    let mut long = CreateBuffer { buffer: blank_buffer([0x77; 32], 0, 64).unwrap(), authority: signer(BOB) };
    assert_eq!(
        create_buffer(&mut long, "0123456789abcdefg".to_string()),
        Err(Rejection::Program(MyError::DataTypeTooLong))
    );
    assert!(!long.buffer.initialized);
    assert_eq!(long.buffer.account.authority, [0u8; 32]);
}

#[test]
fn write_buffer_appends_behind_the_content() {
    let mut ctx = WriteBuffer { buffer: buffer(BOB, "t", b"", 6), signer: signer(BOB) };
    assert_eq!(write_buffer(&mut ctx, vec![1, 2]), Ok(()));
    assert_eq!(ctx.buffer.account.data_len, 2);
    assert_eq!(ctx.buffer.trailing, vec![1, 2, 0, 0, 0, 0]);
    assert_eq!(write_buffer(&mut ctx, vec![3, 4, 5]), Ok(()));
    assert_eq!(ctx.buffer.account.data_len, 5);
    assert_eq!(ctx.buffer.trailing, vec![1, 2, 3, 4, 5, 0]);
    assert_eq!(write_buffer(&mut ctx, vec![]), Ok(()));
    assert_eq!(ctx.buffer.account.data_len, 5);
}

#[test]
fn appending_chunks_equals_appending_their_concatenation() {
    let chunks: Vec<Vec<u8>> = vec![vec![1, 2, 3], vec![], vec![4], vec![5, 6, 7, 8]];
    let mut one_by_one = WriteBuffer { buffer: buffer(BOB, "t", b"", 12), signer: signer(BOB) };
    for chunk in &chunks {
        assert_eq!(write_buffer(&mut one_by_one, chunk.clone()), Ok(()));
    }
    let mut at_once = WriteBuffer { buffer: buffer(BOB, "t", b"", 12), signer: signer(BOB) };
    assert_eq!(write_buffer(&mut at_once, chunks.concat()), Ok(()));
    assert_eq!(one_by_one.buffer, at_once.buffer);
    assert_eq!(one_by_one.buffer.account.data_len, 8);
    assert_eq!(one_by_one.buffer.trailing, vec![1, 2, 3, 4, 5, 6, 7, 8, 0, 0, 0, 0]);
}

#[test]
fn write_buffer_beyond_the_capacity_changes_nothing() {
    let mut ctx = WriteBuffer { buffer: buffer(BOB, "t", &[9, 9, 9], 4), signer: signer(BOB) };
    let before = ctx.buffer.clone();
    assert_eq!(write_buffer(&mut ctx, vec![1, 2]), Err(Rejection::CapacityExceeded));
    assert_eq!(ctx.buffer, before);
    assert_eq!(write_buffer(&mut ctx, vec![1]), Ok(()));
    assert_eq!(ctx.buffer.trailing, vec![9, 9, 9, 1]);
    assert_eq!(write_buffer(&mut ctx, vec![1]), Err(Rejection::CapacityExceeded));
}

#[test]
fn write_buffer_checks_the_length_before_the_capacity() {
    let mut staged = buffer(BOB, "t", b"", 4);
    staged.account.data_len = u32::MAX;
    let mut ctx = WriteBuffer { buffer: staged, signer: signer(BOB) };
    let before = ctx.buffer.clone();
    assert_eq!(write_buffer(&mut ctx, vec![1]), Err(Rejection::Overflow));
    assert_eq!(ctx.buffer, before);
}

#[test]
fn write_buffer_is_for_the_authority_of_the_buffer() {
    let mut other = WriteBuffer { buffer: buffer(BOB, "t", b"", 4), signer: signer(ALICE) };
    assert_eq!(write_buffer(&mut other, vec![1]), Err(Rejection::ConstraintRaw));
    let mut erased = WriteBuffer {
        buffer: buffer(erased_authority(), "t", b"", 4),
        signer: signer(erased_authority()),
    };
    assert_eq!(write_buffer(&mut erased, vec![1]), Err(Rejection::ConstraintRaw));
    let mut blank = WriteBuffer { buffer: blank_buffer([0x77; 32], 0, 64).unwrap(), signer: signer([0u8; 32]) };
    assert_eq!(write_buffer(&mut blank, vec![1]), Err(Rejection::AccountNotInitialized));
}

#[test]
fn resize_grows_with_zero_bytes_and_cuts() {
    let mut ctx = Resize { pda: record(ALICE, 2, vec![7, 8, 9]), signer: signer(ALICE) };
    assert_eq!(resize(&mut ctx, 92 + 5), Ok(()));
    assert_eq!(ctx.pda.trailing, vec![7, 8, 9, 0, 0]);
    assert_eq!(ctx.pda.account.data_len, 2);
    assert_eq!(resize(&mut ctx, 92 + 2), Ok(()));
    assert_eq!(ctx.pda.trailing, vec![7, 8]);
    assert_eq!(ctx.pda.account.data_len, 2);
    assert_eq!(ctx.pda.account.authority, ALICE);
    assert_eq!(ctx.pda.account.program_id, MODULE);
}

#[test]
fn a_cut_into_the_content_shortens_the_content() {
    let mut ctx = Resize { pda: record(ALICE, 3, vec![7, 8, 9, 0]), signer: signer(ALICE) };
    assert_eq!(resize(&mut ctx, 92 + 1), Ok(()));
    assert_eq!(ctx.pda.trailing, vec![7]);
    assert_eq!(ctx.pda.account.data_len, 1);
    assert_eq!(resize(&mut ctx, 92), Ok(()));
    assert!(ctx.pda.trailing.is_empty());
    assert_eq!(ctx.pda.account.data_len, 0);
    // Growing again brings no content back.
    assert_eq!(resize(&mut ctx, 92 + 4), Ok(()));
    assert_eq!(ctx.pda.trailing, vec![0, 0, 0, 0]);
    assert_eq!(ctx.pda.account.data_len, 0);
    let mut staged = ResizeBuffer { buffer: buffer(BOB, "t", &[1, 2, 3], 3), signer: signer(BOB) };
    assert_eq!(resize_buffer(&mut staged, 60 + 2), Ok(()));
    assert_eq!(staged.buffer.trailing, vec![1, 2]);
    assert_eq!(staged.buffer.account.data_len, 2);
}

#[test]
fn resize_refusals() {
    let mut other = Resize { pda: record(ALICE, 0, vec![1]), signer: signer(BOB) };
    assert_eq!(resize(&mut other, 100), Err(Rejection::ConstraintRaw));
    assert_eq!(other.pda.trailing, vec![1]);
    let mut small = Resize { pda: record(ALICE, 0, vec![1]), signer: signer(ALICE) };
    assert_eq!(resize(&mut small, 91), Err(Rejection::InvalidRealloc));
    assert_eq!(small.pda.trailing, vec![1]);
    let mut far = Resize { pda: record(ALICE, 0, vec![1]), signer: signer(ALICE) };
    assert_eq!(resize(&mut far, 92 + 1 + 10241), Err(Rejection::InvalidRealloc));
    assert_eq!(far.pda.trailing, vec![1]);
    assert_eq!(resize(&mut far, 92 + 1 + 10240), Ok(()));
    assert_eq!(far.pda.trailing.len(), 10241);
    assert!(far.pda.trailing[1..].iter().all(|byte| *byte == 0));
}

#[test]
fn resize_buffer_counts_the_header_of_a_buffer() {
    let mut ctx = ResizeBuffer { buffer: buffer(BOB, "t", &[1, 2], 2), signer: signer(BOB) };
    assert_eq!(resize_buffer(&mut ctx, 60 + 4), Ok(()));
    assert_eq!(ctx.buffer.trailing, vec![1, 2, 0, 0]);
    assert_eq!(resize_buffer(&mut ctx, 59), Err(Rejection::InvalidRealloc));
    let mut other = ResizeBuffer { buffer: buffer(BOB, "t", &[1, 2], 2), signer: signer(ALICE) };
    assert_eq!(resize_buffer(&mut other, 64), Err(Rejection::ConstraintRaw));
}

#[test]
fn set_authority_hands_the_record_over() {
    let mut ctx = MetadataAccounts { pda: record(ALICE, 1, vec![5]), authority: signer(ALICE) };
    assert_eq!(set_authority(&mut ctx, BOB), Ok(()));
    assert_eq!(ctx.pda.account.authority, BOB);
    assert_eq!(ctx.pda.account.data_len, 1);
    assert_eq!(ctx.pda.trailing, vec![5]);
    assert_eq!(set_authority(&mut ctx, CAROL), Err(Rejection::ConstraintHasOne));
    assert_eq!(ctx.pda.account.authority, BOB);
}

#[test]
fn set_authority_is_not_for_the_erased_authority() {
    let mut ctx = MetadataAccounts {
        pda: record(erased_authority(), 0, vec![]),
        authority: signer(erased_authority()),
    };
    assert_eq!(set_authority(&mut ctx, BOB), Err(Rejection::ConstraintRaw));
    assert_eq!(ctx.pda.account.authority, erased_authority());
}

#[test]
fn set_authority_never_stores_the_erased_authority() {
    let mut ctx = MetadataAccounts { pda: record(ALICE, 1, vec![5]), authority: signer(ALICE) };
    assert_eq!(set_authority(&mut ctx, erased_authority()), Err(Rejection::ConstraintRaw));
    assert_eq!(ctx.pda, record(ALICE, 1, vec![5]));
    assert_eq!(ctx.authority, signer(ALICE));
}

#[test]
fn set_buffer_copies_type_length_and_content() {
    let slot = record(ALICE, 6, vec![9, 9, 9, 9, 9, 9, 9, 9]);
    let staged = buffer(BOB, "idl.json", &[1, 2, 3], 5);
    let mut ctx = commit_ctx(slot, staged.clone(), ALICE, Some(CAROL));
    assert_eq!(set_buffer(&mut ctx), Ok(()));
    assert_eq!(ctx.pda.account.data_len, 3);
    assert_eq!(ctx.pda.account.get_data_type(), "idl.json");
    assert_eq!(ctx.pda.account.authority, ALICE);
    assert_eq!(ctx.pda.account.program_id, MODULE);
    // Bytes behind the new content are stale, not zero.
    assert_eq!(ctx.pda.trailing, vec![1, 2, 3, 9, 9, 9, 9, 9]);
    assert_eq!(ctx.buffer, staged);
}

#[test]
fn the_upgrade_authority_overrides_the_record() {
    // The record was set up by Alice; the module now belongs to Bob.
    let slot = record(ALICE, 0, vec![0; 4]);
    let mut by_bob = commit_ctx(slot, buffer(BOB, "idl.json", &[1, 2], 2), BOB, Some(BOB));
    assert_eq!(set_buffer(&mut by_bob), Ok(()));
    assert_eq!(by_bob.pda.account.authority, BOB);
    assert_eq!(by_bob.pda.account.data_len, 2);
    // Alice is neither the upgrade authority nor the record's authority now.
    let mut by_alice = commit_ctx(by_bob.pda.clone(), buffer(ALICE, "idl.json", &[7], 1), ALICE, Some(BOB));
    let before = by_alice.pda.clone();
    assert_eq!(set_buffer(&mut by_alice), Err(Rejection::Program(MyError::InvalidAuthority)));
    assert_eq!(by_alice.pda, before);
}

#[test]
fn the_record_authority_commits_without_the_upgrade_authority() {
    let slot = record(ALICE, 0, vec![0; 4]);
    let mut ctx = commit_ctx(slot, buffer(CAROL, "meta.url", &[1], 1), ALICE, None);
    assert_eq!(set_buffer(&mut ctx), Ok(()));
    assert_eq!(ctx.pda.account.authority, ALICE);
    assert_eq!(ctx.pda.account.get_data_type(), "meta.url");
}

#[test]
fn set_buffer_refusals_change_nothing() {
    let slot = record(ALICE, 2, vec![9, 9, 9]);
    let staged = buffer(BOB, "idl.json", &[1, 2, 3, 4], 4);

    let mut wrong_module = commit_ctx(slot.clone(), staged.clone(), ALICE, Some(ALICE));
    wrong_module.pda.account.program_id = [0x12; 32];
    let before = wrong_module.pda.clone();
    assert_eq!(set_buffer(&mut wrong_module), Err(Rejection::Program(MyError::WrongProgramId)));
    assert_eq!(wrong_module.pda, before);

    let mut stranger = commit_ctx(slot.clone(), staged.clone(), CAROL, Some(BOB));
    assert_eq!(set_buffer(&mut stranger), Err(Rejection::Program(MyError::InvalidAuthority)));
    assert_eq!(stranger.pda, slot);

    let mut too_small = commit_ctx(slot.clone(), staged.clone(), ALICE, Some(ALICE));
    assert_eq!(set_buffer(&mut too_small), Err(Rejection::CapacityExceeded));
    assert_eq!(too_small.pda, slot);

    let mut not_executable = commit_ctx(slot.clone(), staged.clone(), ALICE, Some(ALICE));
    not_executable.program_id.executable = false;
    assert_eq!(set_buffer(&mut not_executable), Err(Rejection::Program(MyError::NotExecutable)));

    let mut not_a_program = commit_ctx(slot.clone(), staged.clone(), ALICE, Some(ALICE));
    not_a_program.program_id.owner = [0x55; 32];
    assert_eq!(set_buffer(&mut not_a_program), Err(Rejection::Program(MyError::NotAProgram)));

    let mut buffer_state = commit_ctx(slot.clone(), staged.clone(), ALICE, Some(ALICE));
    buffer_state.program_id.data = vec![1, 0, 0, 0, 0];
    assert_eq!(set_buffer(&mut buffer_state), Err(Rejection::Program(MyError::ShouldBeProgramAccount)));

    let mut other_data = commit_ctx(slot.clone(), staged.clone(), ALICE, Some(ALICE));
    other_data.program_data.key = [0x23; 32];
    assert_eq!(set_buffer(&mut other_data), Err(Rejection::Program(MyError::WrongAuthority)));

    let mut erased = commit_ctx(record(erased_authority(), 0, vec![0; 8]), staged.clone(), erased_authority(), None);
    assert_eq!(set_buffer(&mut erased), Err(Rejection::ConstraintRaw));

    let mut overlong = staged.clone();
    overlong.account.data_len = 5;
    let mut beyond_buffer = commit_ctx(record(ALICE, 0, vec![0; 8]), overlong, ALICE, None);
    assert_eq!(set_buffer(&mut beyond_buffer), Err(Rejection::CapacityExceeded));
    assert_eq!(beyond_buffer.pda, record(ALICE, 0, vec![0; 8]));
}

#[test]
fn commit_authority_cases() {
    let header = MetadataAccount2 { authority: ALICE, data_type: tag("t"), program_id: MODULE, data_len: 0 };
    assert_eq!(check_commit_authority(&header, &MODULE, &BOB, Ok(Some(BOB))), Ok(BOB));
    assert_eq!(check_commit_authority(&header, &MODULE, &ALICE, Ok(Some(BOB))), Ok(ALICE));
    assert_eq!(check_commit_authority(&header, &MODULE, &ALICE, Ok(None)), Ok(ALICE));
    assert_eq!(
        check_commit_authority(&header, &MODULE, &CAROL, Ok(Some(BOB))),
        Err(Rejection::Program(MyError::InvalidAuthority))
    );
    assert_eq!(
        check_commit_authority(&header, &[0x12; 32], &ALICE, Ok(Some(ALICE))),
        Err(Rejection::Program(MyError::WrongProgramId))
    );
    assert_eq!(
        check_commit_authority(&header, &MODULE, &ALICE, Err(AuthorityError::InvalidAccountData)),
        Err(Rejection::InvalidAccountData)
    );
    assert_eq!(reject(AuthorityError::NotAProgram), Rejection::Program(MyError::NotAProgram));
    assert_eq!(reject(AuthorityError::NotExecutable), Rejection::Program(MyError::NotExecutable));
    assert_eq!(
        reject(AuthorityError::ShouldBeProgramAccount),
        Rejection::Program(MyError::ShouldBeProgramAccount)
    );
    assert_eq!(reject(AuthorityError::WrongAuthority), Rejection::Program(MyError::WrongAuthority));
}

#[test]
fn close_refunds_the_deposit_to_the_authority() {
    let mut ctx = CloseMetadataAccount2 { metadata_account: Some(record(ALICE, 1, vec![5])), authority: signer(ALICE) };
    assert_eq!(close_metadata_account_2(&mut ctx), Ok(()));
    assert_eq!(ctx.metadata_account, None);
    assert_eq!(ctx.authority, Signer { key: ALICE, lamports: 1_500 });
    assert_eq!(close_metadata_account_2(&mut ctx), Err(Rejection::AccountNotInitialized));
}

#[test]
fn close_is_strict_about_the_authority() {
    // Bob is the module's upgrade authority, but the record names Alice.
    let mut ctx = CloseMetadataAccount2 { metadata_account: Some(record(ALICE, 1, vec![5])), authority: signer(BOB) };
    assert_eq!(close_metadata_account_2(&mut ctx), Err(Rejection::ConstraintRaw));
    assert_eq!(ctx.metadata_account, Some(record(ALICE, 1, vec![5])));
    assert_eq!(ctx.authority, signer(BOB));
}

#[test]
fn close_rejects_the_erased_authority_even_where_it_is_stored() {
    let erased = erased_authority();
    let mut slot = CloseMetadataAccount2 { metadata_account: Some(record(erased, 0, vec![])), authority: signer(erased) };
    assert_eq!(close_metadata_account_2(&mut slot), Err(Rejection::ConstraintRaw));
    assert!(slot.metadata_account.is_some());
    let mut staged = CloseBuffer { buffer: Some(buffer(erased, "t", b"", 0)), authority: signer(erased) };
    assert_eq!(close_buffer(&mut staged), Err(Rejection::ConstraintRaw));
    assert!(staged.buffer.is_some());
    let plain = Account {
        key: [0x98; 32],
        lamports: 1,
        initialized: true,
        account: MetadataAccount { authority: erased, data_type: tag("t"), data_len: 0 },
        trailing: vec![],
    };
    let mut old = CloseMetadataAccount1 { metadata_account: Some(plain), authority: signer(erased) };
    assert_eq!(close_metadata_account_1(&mut old), Err(Rejection::ConstraintRaw));
    assert!(old.metadata_account.is_some());
}

#[test]
fn close_buffer_and_close_plain_record() {
    let mut staged = CloseBuffer { buffer: Some(buffer(BOB, "t", &[1], 1)), authority: signer(BOB) };
    assert_eq!(close_buffer(&mut staged), Ok(()));
    assert_eq!(staged.buffer, None);
    assert_eq!(staged.authority.lamports, 1_300);
    let plain = Account {
        key: [0x98; 32],
        lamports: 40,
        initialized: true,
        account: MetadataAccount { authority: CAROL, data_type: tag("t"), data_len: 0 },
        trailing: vec![],
    };
    let mut old = CloseMetadataAccount1 { metadata_account: Some(plain), authority: signer(CAROL) };
    assert_eq!(close_metadata_account_1(&mut old), Ok(()));
    assert_eq!(old.metadata_account, None);
    assert_eq!(old.authority.lamports, 1_040);
}

#[test]
fn close_does_not_overflow_the_balance() {
    let mut rich = signer(BOB);
    rich.lamports = u64::MAX - 299;
    let mut staged = CloseBuffer { buffer: Some(buffer(BOB, "t", &[1], 1)), authority: rich };
    assert_eq!(close_buffer(&mut staged), Err(Rejection::Overflow));
    assert!(staged.buffer.is_some());
    assert_eq!(staged.authority, rich);
    staged.authority.lamports = u64::MAX - 300;
    assert_eq!(close_buffer(&mut staged), Ok(()));
    assert_eq!(staged.authority.lamports, u64::MAX);
}

#[test]
fn trailing_windows_read_and_write_in_place() {
    let mut slot = record(ALICE, 0, vec![1, 2, 3]);
    assert_eq!(MetadataUploadTrailingData::trailing_data(&slot), &[1, 2, 3]);
    MetadataUploadTrailingData::trailing_data_mut(&mut slot)[1] = 9;
    assert_eq!(slot.trailing, vec![1, 9, 3]);
    let mut staged = buffer(BOB, "t", &[4, 5], 2);
    assert_eq!(MetadataBufferUploadTrailingData::trailing_data(&staged), &[4, 5]);
    MetadataBufferUploadTrailingData::trailing_data_mut(&mut staged)[0] = 6;
    assert_eq!(staged.trailing, vec![6, 5]);
}

#[test]
fn records_are_laid_out_as_the_ledger_holds_them() {
    let slot = record(ALICE, 2, vec![7, 8, 9]);
    let bytes = record_to_account_data(&slot);
    assert_eq!(bytes.len(), 92 + 3);
    assert_eq!(&bytes[0..8], &solana_sdk::hash::hash(b"account:MetadataAccount2").to_bytes()[..8]);
    assert_eq!(&bytes[8..40], &ALICE);
    assert_eq!(&bytes[40..56], &tag("old"));
    assert_eq!(&bytes[56..88], &MODULE);
    assert_eq!(&bytes[88..92], &[2, 0, 0, 0]);
    assert_eq!(&bytes[92..], &[7, 8, 9]);
    assert_eq!(record_from_account_data(slot.key, slot.lamports, &bytes), Some(slot));
    assert_eq!(record_from_account_data([0; 32], 0, &bytes[..91]), None);
    let mut foreign = bytes.clone();
    foreign[0] ^= 1;
    assert_eq!(record_from_account_data([0; 32], 0, &foreign), None);
}

#[test]
fn buffers_are_laid_out_without_a_module() {
    let mut staged = buffer(BOB, "idl.json", &[1, 2, 3], 4);
    staged.account.data_len = 0x01020304;
    let bytes = buffer_to_account_data(&staged);
    assert_eq!(bytes.len(), 60 + 4);
    assert_eq!(&bytes[0..8], &solana_sdk::hash::hash(b"account:MetadataBuffer").to_bytes()[..8]);
    assert_eq!(&bytes[8..40], &BOB);
    assert_eq!(&bytes[40..56], &tag("idl.json"));
    assert_eq!(&bytes[56..60], &[4, 3, 2, 1]);
    assert_eq!(&bytes[60..], &[1, 2, 3, 0]);
    assert_eq!(buffer_from_account_data(staged.key, staged.lamports, &bytes), Some(staged));
    let blank = blank_buffer([0x77; 32], 5, 62).unwrap();
    let zero = buffer_to_account_data(&blank);
    assert_eq!(zero, vec![0u8; 62]);
    assert_eq!(buffer_from_account_data([0x77; 32], 5, &zero), Some(blank));
}

#[test]
fn plain_records_have_a_tag_of_their_own() {
    let plain = Account {
        key: [0x98; 32],
        lamports: 40,
        initialized: true,
        account: MetadataAccount { authority: CAROL, data_type: tag("meta.json"), data_len: 1 },
        trailing: vec![0xab],
    };
    let bytes = plain_record_to_account_data(&plain);
    assert_eq!(&bytes[0..8], &solana_sdk::hash::hash(b"account:MetadataAccount").to_bytes()[..8]);
    assert_eq!(&bytes[56..60], &[1, 0, 0, 0]);
    assert_eq!(bytes.len(), 61);
    assert_eq!(plain_record_from_account_data(plain.key, plain.lamports, &bytes), Some(plain));
    assert_eq!(buffer_from_account_data([0; 32], 0, &bytes), None);
}

#[test]
fn upload_then_larger_upload_by_the_upgrade_authority() {
    // Module M with upgrade authority A; A uploads {"version":1} as idl.json.
    let mut setup = initialize_ctx(ALICE, Some(ALICE));
    assert_eq!(initialize(&mut setup, "idl.json".to_string(), "idl".to_string()), Ok(()));
    let mut slot = setup.pda.unwrap();
    let mut authority = signer(ALICE);
    let first = br#"{"version":1}"#.to_vec();
    let mut second = br#"{"version":2,"instructions":["#.to_vec();
    for i in 0..4000u32 {
        second.extend_from_slice(i.wrapping_mul(2654435761).to_string().as_bytes());
        second.push(b',');
    }
    second.extend_from_slice(b"0]}");
    let mut growth_steps_of_second = 0;
    for (round, blob) in [first, second].into_iter().enumerate() {
        let compressed = gzip(&blob);
        let mut create = CreateBuffer {
            buffer: blank_buffer([0x70 + round as u8; 32], 10, 60 + compressed.len()).unwrap(),
            authority,
        };
        assert_eq!(create_buffer(&mut create, "idl.json".to_string()), Ok(()));
        let mut write = WriteBuffer { buffer: create.buffer, signer: authority };
        for chunk in compressed.chunks(900) {
            assert_eq!(write_buffer(&mut write, chunk.to_vec()), Ok(()));
        }
        assert_eq!(write.buffer.account.data_len as usize, compressed.len());
        // Too small before it is resized.
        let target = 92 + compressed.len();
        let mut grow = Resize { pda: slot, signer: authority };
        let mut size = 92 + grow.pda.trailing.len();
        let mut steps = 0;
        while size < target {
            size = std::cmp::min(size + 10240, target);
            assert_eq!(resize(&mut grow, size as u16), Ok(()));
            steps += 1;
        }
        if round == 1 {
            growth_steps_of_second = steps;
        }
        let mut commit = commit_ctx(grow.pda, write.buffer, ALICE, Some(ALICE));
        assert_eq!(set_buffer(&mut commit), Ok(()));
        let mut close = CloseBuffer { buffer: Some(commit.buffer), authority };
        assert_eq!(close_buffer(&mut close), Ok(()));
        assert_eq!(close.buffer, None);
        authority = close.authority;
        slot = commit.pda;
        assert_eq!(slot.account.get_data_type(), "idl.json");
        assert_eq!(slot.account.authority, ALICE);
        let stored = &slot.trailing[..slot.account.data_len as usize];
        assert_eq!(gunzip(stored), blob);
    }
    assert!(growth_steps_of_second >= 1);
    assert_eq!(authority.lamports, 1_020);
}

#[test]
fn a_record_is_set_up_at_the_address_it_is_given() {
    let mut slot = None;
    assert_eq!(
        set_up_record(&mut slot, Some([0x42; 32]), Ok(Some(ALICE)), true, &ALICE, &MODULE, "idl.json"),
        Ok(())
    );
    let record = slot.clone().unwrap();
    assert_eq!(record.key, [0x42; 32]);
    assert_eq!(record.lamports, 0);
    assert!(record.initialized);
    assert_eq!(
        record.account,
        MetadataAccount2 { authority: ALICE, data_type: tag("idl.json"), program_id: MODULE, data_len: 0 }
    );
    assert!(record.trailing.is_empty());
    assert_eq!(
        set_up_record(&mut slot, Some([0x42; 32]), Ok(Some(ALICE)), true, &ALICE, &MODULE, "idl.json"),
        Err(Rejection::AccountAlreadyInUse)
    );
    assert_eq!(slot, Some(record));
}

#[test]
fn set_up_record_refusals_in_their_order() {
    let mut slot = None;
    // No address at all: before anything else.
    assert_eq!(
        set_up_record(&mut slot, None, Err(AuthorityError::NotAProgram), true, &ALICE, &MODULE, "0123456789abcdefg"),
        Err(Rejection::ConstraintSeeds)
    );
    assert_eq!(
        set_up_record(&mut slot, Some([1; 32]), Err(AuthorityError::NotAProgram), true, &ALICE, &MODULE, "0123456789abcdefg"),
        Err(Rejection::Program(MyError::NotAProgram))
    );
    assert_eq!(
        set_up_record(&mut slot, Some([1; 32]), Ok(Some(BOB)), true, &ALICE, &MODULE, "0123456789abcdefg"),
        Err(Rejection::Program(MyError::WrongAuthority))
    );
    assert_eq!(
        set_up_record(&mut slot, Some([1; 32]), Ok(Some(BOB)), false, &ALICE, &MODULE, "0123456789abcdefg"),
        Err(Rejection::Program(MyError::DataTypeTooLong))
    );
    assert_eq!(
        set_up_record(&mut slot, Some([1; 32]), Ok(None), true, &ALICE, &MODULE, "t"),
        Err(Rejection::Program(MyError::WrongAuthority))
    );
    assert_eq!(slot, None);
    assert_eq!(set_up_record(&mut slot, Some([1; 32]), Ok(None), false, &ALICE, &MODULE, "t"), Ok(()));
    assert_eq!(slot.unwrap().account.authority, ALICE);
}

#[test]
fn commit_takes_what_the_resolver_found() {
    let slot = record(ALICE, 0, vec![0; 4]);
    let mut ctx = commit_ctx(slot.clone(), buffer(BOB, "meta.json", &[1, 2], 2), BOB, None);
    assert_eq!(commit(&mut ctx, Ok(Some(BOB))), Ok(()));
    assert_eq!(ctx.pda.account.authority, BOB);
    assert_eq!(ctx.pda.account.get_data_type(), "meta.json");
    assert_eq!(ctx.pda.account.data_len, 2);
    assert_eq!(ctx.pda.trailing, vec![1, 2, 0, 0]);

    let mut refused = commit_ctx(slot.clone(), buffer(BOB, "t", &[1, 2], 2), BOB, Some(BOB));
    assert_eq!(commit(&mut refused, Ok(Some(CAROL))), Err(Rejection::Program(MyError::InvalidAuthority)));
    assert_eq!(
        commit(&mut refused, Err(AuthorityError::NotExecutable)),
        Err(Rejection::Program(MyError::NotExecutable))
    );
    assert_eq!(refused.pda, slot);
}

#[test]
fn the_data_type_is_copied_byte_for_byte() {
    let slot = record(ALICE, 0, vec![0; 4]);
    // A byte behind the first zero byte, and bytes that are no text at all.
    for tag_bytes in [tag("a\0b"), [0xff; 16], [0; 16], tag("0123456789abcdef")] {
        let mut staged = buffer(ALICE, "", &[1], 1);
        staged.account.data_type = tag_bytes;
        let mut ctx = commit_ctx(slot.clone(), staged, ALICE, None);
        assert_eq!(set_buffer(&mut ctx), Ok(()));
        assert_eq!(ctx.pda.account.data_type, tag_bytes);
        assert_eq!(ctx.buffer.account.data_type, tag_bytes);
    }
    let mut made = CreateBuffer { buffer: blank_buffer([0x77; 32], 300, 61).unwrap(), authority: signer(ALICE) };
    assert_eq!(create_buffer(&mut made, "a\0b".to_string()), Ok(()));
    let mut ctx = commit_ctx(slot.clone(), made.buffer, ALICE, None);
    assert_eq!(set_buffer(&mut ctx), Ok(()));
    assert_eq!(ctx.pda.account.data_type, tag("a\0b"));
}

#[test]
fn the_erased_authority_sets_up_no_record() {
    let erased = erased_authority();
    let mut ctx = initialize_ctx(erased, Some(erased));
    assert_eq!(
        initialize(&mut ctx, "idl.json".to_string(), "idl".to_string()),
        Err(Rejection::ConstraintRaw)
    );
    assert_eq!(ctx.pda, None);
    let mut own = InitializeWithSignerSeed {
        pda: None,
        signer: signer(erased),
        program_id: module(),
        program_data: program_data(Some(ALICE)),
    };
    assert_eq!(
        initialize_with_signer_seed(&mut own, "idl.json".to_string(), "idl".to_string()),
        Err(Rejection::ConstraintRaw)
    );
    assert_eq!(own.pda, None);
    let mut slot = None;
    assert_eq!(
        set_up_record(&mut slot, Some([1; 32]), Ok(Some(erased)), true, &erased, &MODULE, "t"),
        Err(Rejection::ConstraintRaw)
    );
    assert_eq!(slot, None);
}

#[test]
fn record_kind_tags_are_the_hashes_of_the_account_names() {
    let expected = |name: &str| solana_sdk::hash::hash(format!("account:{}", name).as_bytes()).to_bytes()[..8].to_vec();
    let slot = record(ALICE, 0, vec![]);
    assert_eq!(record_to_account_data(&slot)[..8].to_vec(), expected("MetadataAccount2"));
    let staged = buffer(BOB, "t", &[], 0);
    assert_eq!(buffer_to_account_data(&staged)[..8].to_vec(), expected("MetadataBuffer"));
    let plain = Account {
        key: [0x98; 32],
        lamports: 40,
        initialized: true,
        account: MetadataAccount { authority: CAROL, data_type: tag("t"), data_len: 0 },
        trailing: vec![],
    };
    assert_eq!(plain_record_to_account_data(&plain)[..8].to_vec(), expected("MetadataAccount"));
    assert_eq!(
        expected("MetadataAccount2"),
        vec![217, 197, 213, 23, 62, 14, 230, 192]
    );
}

#[test]
fn the_erased_authority_is_refused_last() {
    let erased = erased_authority();
    // A module that no loader owns.
    let mut stray = initialize_ctx(erased, Some(erased));
    stray.program_id.owner = [0x5e; 32];
    assert_eq!(
        initialize(&mut stray, "idl.json".to_string(), "idl".to_string()),
        Err(Rejection::Program(MyError::NotAProgram))
    );
    assert_eq!(stray.pda, None);
    // A module whose upgrade authority is somebody else, or nobody.
    let mut other = initialize_ctx(erased, Some(ALICE));
    assert_eq!(
        initialize(&mut other, "idl.json".to_string(), "idl".to_string()),
        Err(Rejection::Program(MyError::WrongAuthority))
    );
    assert_eq!(other.pda, None);
    let mut frozen = initialize_ctx(erased, None);
    assert_eq!(
        initialize(&mut frozen, "idl.json".to_string(), "idl".to_string()),
        Err(Rejection::Program(MyError::WrongAuthority))
    );
    // The upgrade authority itself, with a data type of seventeen bytes.
    let mut long = initialize_ctx(erased, Some(erased));
    assert_eq!(
        initialize(&mut long, "0123456789abcdefg".to_string(), "idl".to_string()),
        Err(Rejection::Program(MyError::DataTypeTooLong))
    );
    assert_eq!(long.pda, None);
    let mut own = InitializeWithSignerSeed {
        pda: None,
        signer: signer(erased),
        program_id: module(),
        program_data: program_data(Some(ALICE)),
    };
    assert_eq!(
        initialize_with_signer_seed(&mut own, "0123456789abcdefg".to_string(), "idl".to_string()),
        Err(Rejection::Program(MyError::DataTypeTooLong))
    );
    assert_eq!(own.pda, None);
    // Step by step, on the outcomes of the steps before.
    let mut slot = None;
    let at = Some([1; 32]);
    assert_eq!(
        set_up_record(&mut slot, None, Ok(Some(erased)), true, &erased, &MODULE, "t"),
        Err(Rejection::ConstraintSeeds)
    );
    assert_eq!(
        set_up_record(&mut slot, at, Err(AuthorityError::NotExecutable), true, &erased, &MODULE, "t"),
        Err(Rejection::Program(MyError::NotExecutable))
    );
    assert_eq!(
        set_up_record(&mut slot, at, Ok(Some(BOB)), true, &erased, &MODULE, "t"),
        Err(Rejection::Program(MyError::WrongAuthority))
    );
    assert_eq!(
        set_up_record(&mut slot, at, Ok(Some(erased)), true, &erased, &MODULE, "0123456789abcdefg"),
        Err(Rejection::Program(MyError::DataTypeTooLong))
    );
    assert_eq!(
        set_up_record(&mut slot, at, Ok(Some(erased)), true, &erased, &MODULE, "0123456789abcdef"),
        Err(Rejection::ConstraintRaw)
    );
    assert_eq!(slot, None);
}
