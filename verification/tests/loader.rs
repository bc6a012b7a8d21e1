use program_metadata::keys::{bpf_loader_deprecated_id, bpf_loader_id, bpf_loader_upgradeable_id};
use program_metadata::loader::{
    read_program_data, read_program_data_from_state, resolve_authority, resolve_authority_from_state,
    AccountInfo, ProgramDataError,
    AuthorityError, LoaderState, ProgramData,
};

const PROGRAM_DATA: [u8; 32] = [0x22; 32];
const AUTHORITY: [u8; 32] = [0x33; 32];

fn program_state(program_data: [u8; 32]) -> Vec<u8> {
    let mut data = vec![2, 0, 0, 0];
    data.extend_from_slice(&program_data);
    data
}

fn module(owner: [u8; 32], executable: bool, data: Vec<u8>) -> AccountInfo {
    AccountInfo { key: [0x11; 32], owner, lamports: 1, executable, data }
}

fn program_data(authority: Option<[u8; 32]>) -> ProgramData {
    ProgramData { key: PROGRAM_DATA, slot: 7, upgrade_authority_address: authority }
}

#[test]
fn resolves_the_upgrade_authority_of_a_program() {
    let target = module(bpf_loader_upgradeable_id(), true, program_state(PROGRAM_DATA));
    assert_eq!(resolve_authority(&target, &program_data(Some(AUTHORITY))), Ok(Some(AUTHORITY)));
}

#[test]
fn resolves_an_absent_authority() {
    let target = module(bpf_loader_upgradeable_id(), true, program_state(PROGRAM_DATA));
    assert_eq!(resolve_authority(&target, &program_data(None)), Ok(None));
}

#[test]
fn the_state_is_decoded_as_the_loader_encodes_it() {
    let state = solana_sdk::bpf_loader_upgradeable::UpgradeableLoaderState::Program {
        programdata_address: solana_sdk::pubkey::Pubkey::new_from_array(PROGRAM_DATA),
    };
    let data = solana_sdk::bpf_loader_upgradeable::UpgradeableLoaderState::size_of_program();
    let mut bytes = program_state(PROGRAM_DATA);
    assert_eq!(bytes.len(), data);
    // Bytes behind the state do not matter.
    bytes.extend_from_slice(&[0xee; 10]);
    let target = module(bpf_loader_upgradeable_id(), true, bytes);
    assert_eq!(resolve_authority(&target, &program_data(Some(AUTHORITY))), Ok(Some(AUTHORITY)));
    assert!(matches!(
        state,
        solana_sdk::bpf_loader_upgradeable::UpgradeableLoaderState::Program { .. }
    ));
}

#[test]
fn any_of_the_three_loaders_may_own_the_module() {
    for owner in [bpf_loader_upgradeable_id(), bpf_loader_id(), bpf_loader_deprecated_id()] {
        let target = module(owner, true, program_state(PROGRAM_DATA));
        assert_eq!(resolve_authority(&target, &program_data(Some(AUTHORITY))), Ok(Some(AUTHORITY)));
    }
}

#[test]
fn an_account_that_no_loader_owns_is_not_a_program() {
    let target = module([0x44; 32], true, program_state(PROGRAM_DATA));
    assert_eq!(
        resolve_authority(&target, &program_data(Some(AUTHORITY))),
        Err(AuthorityError::NotAProgram)
    );
}

#[test]
fn the_owner_is_checked_before_the_flag() {
    let target = module([0x44; 32], false, vec![]);
    assert_eq!(
        resolve_authority(&target, &program_data(Some(AUTHORITY))),
        Err(AuthorityError::NotAProgram)
    );
}

#[test]
fn a_module_must_be_executable() {
    let target = module(bpf_loader_upgradeable_id(), false, program_state(PROGRAM_DATA));
    assert_eq!(
        resolve_authority(&target, &program_data(Some(AUTHORITY))),
        Err(AuthorityError::NotExecutable)
    );
}

#[test]
fn bytes_that_hold_no_state_are_invalid() {
    for data in [vec![], vec![2, 0, 0], vec![9, 0, 0, 0], vec![2, 0, 0, 0, 1, 2, 3]] {
        let target = module(bpf_loader_upgradeable_id(), true, data);
        assert_eq!(
            resolve_authority(&target, &program_data(Some(AUTHORITY))),
            Err(AuthorityError::InvalidAccountData)
        );
    }
}

#[test]
fn other_states_than_program_are_refused() {
    let uninitialized = vec![0, 0, 0, 0];
    let mut buffer = vec![1, 0, 0, 0, 1];
    buffer.extend_from_slice(&AUTHORITY);
    let buffer_without_authority = vec![1, 0, 0, 0, 0];
    let mut data = vec![3, 0, 0, 0];
    data.extend_from_slice(&7u64.to_le_bytes());
    data.push(1);
    data.extend_from_slice(&AUTHORITY);
    for bytes in [uninitialized, buffer, buffer_without_authority, data] {
        let target = module(bpf_loader_upgradeable_id(), true, bytes);
        assert_eq!(
            resolve_authority(&target, &program_data(Some(AUTHORITY))),
            Err(AuthorityError::ShouldBeProgramAccount)
        );
    }
}

#[test]
fn the_program_must_point_at_the_program_data_account() {
    let target = module(bpf_loader_upgradeable_id(), true, program_state([0x55; 32]));
    assert_eq!(
        resolve_authority(&target, &program_data(Some(AUTHORITY))),
        Err(AuthorityError::WrongAuthority)
    );
}

#[test]
fn resolving_changes_nothing() {
    let target = module(bpf_loader_upgradeable_id(), true, program_state(PROGRAM_DATA));
    let data = program_data(Some(AUTHORITY));
    let first = resolve_authority(&target, &data);
    let second = resolve_authority(&target, &data);
    assert_eq!(first, second);
    assert_eq!(target.data, program_state(PROGRAM_DATA));
    assert_eq!(data, program_data(Some(AUTHORITY)));
}

#[test]
fn resolution_from_a_decoded_state() {
    let data = program_data(Some(AUTHORITY));
    let program = LoaderState::Program { programdata_address: PROGRAM_DATA };
    assert_eq!(resolve_authority_from_state(true, true, Some(program), &data), Ok(Some(AUTHORITY)));
    assert_eq!(
        resolve_authority_from_state(false, true, Some(program), &data),
        Err(AuthorityError::NotAProgram)
    );
    assert_eq!(
        resolve_authority_from_state(true, false, Some(program), &data),
        Err(AuthorityError::NotExecutable)
    );
    assert_eq!(
        resolve_authority_from_state(true, true, None, &data),
        Err(AuthorityError::InvalidAccountData)
    );
    assert_eq!(
        resolve_authority_from_state(true, true, Some(LoaderState::Uninitialized), &data),
        Err(AuthorityError::ShouldBeProgramAccount)
    );
    assert_eq!(
        resolve_authority_from_state(
            true,
            true,
            Some(LoaderState::Buffer { authority_address: Some(AUTHORITY) }),
            &data
        ),
        Err(AuthorityError::ShouldBeProgramAccount)
    );
    assert_eq!(
        resolve_authority_from_state(
            true,
            true,
            Some(LoaderState::ProgramData { slot: 1, upgrade_authority_address: None }),
            &data
        ),
        Err(AuthorityError::ShouldBeProgramAccount)
    );
    assert_eq!(
        resolve_authority_from_state(
            true,
            true,
            Some(LoaderState::Program { programdata_address: [0x66; 32] }),
            &data
        ),
        Err(AuthorityError::WrongAuthority)
    );
}


fn program_data_bytes(slot: u64, authority: Option<[u8; 32]>) -> Vec<u8> {
    let mut data = vec![3, 0, 0, 0];
    data.extend_from_slice(&slot.to_le_bytes());
    match authority {
        Some(key) => {
            data.push(1);
            data.extend_from_slice(&key);
        }
        None => data.push(0),
    }
    data
}

#[test]
fn program_data_is_read_from_the_account_of_the_loader() {
    let mut account = module(bpf_loader_upgradeable_id(), false, program_data_bytes(0x0102, Some(AUTHORITY)));
    account.key = PROGRAM_DATA;
    assert_eq!(
        read_program_data(&account),
        Ok(ProgramData { key: PROGRAM_DATA, slot: 0x0102, upgrade_authority_address: Some(AUTHORITY) })
    );
    account.data = program_data_bytes(9, None);
    account.data.extend_from_slice(&[0xab; 100]);
    assert_eq!(
        read_program_data(&account),
        Ok(ProgramData { key: PROGRAM_DATA, slot: 9, upgrade_authority_address: None })
    );
}

#[test]
fn program_data_refusals() {
    let foreign = module(bpf_loader_id(), false, program_data_bytes(1, None));
    assert_eq!(read_program_data(&foreign), Err(ProgramDataError::WrongOwner));
    let program = module(bpf_loader_upgradeable_id(), true, program_state(PROGRAM_DATA));
    assert_eq!(read_program_data(&program), Err(ProgramDataError::NotProgramData));
    let cut = module(bpf_loader_upgradeable_id(), false, vec![3, 0, 0, 0, 1]);
    assert_eq!(read_program_data(&cut), Err(ProgramDataError::InvalidAccountData));
    let odd_option = module(bpf_loader_upgradeable_id(), false, {
        let mut data = program_data_bytes(1, Some(AUTHORITY));
        data[12] = 2;
        data
    });
    assert_eq!(read_program_data(&odd_option), Err(ProgramDataError::InvalidAccountData));
    assert_eq!(
        read_program_data_from_state([1; 32], &bpf_loader_upgradeable_id(), Some(LoaderState::Uninitialized)),
        Err(ProgramDataError::NotProgramData)
    );
    assert_eq!(
        read_program_data_from_state(
            [1; 32],
            &bpf_loader_upgradeable_id(),
            Some(LoaderState::ProgramData { slot: 4, upgrade_authority_address: None })
        ),
        Ok(ProgramData { key: [1; 32], slot: 4, upgrade_authority_address: None })
    );
}
