//! Who may upgrade a module: the state that the upgradeable loader keeps in a
//! module's accounts, and the resolution of a module's upgrade authority.

use crate::keys::{
    bpf_loader_upgradeable_id, is_bpf_loader_upgradeable, is_loader, is_recognized_loader, same_key,
    Pubkey,
};
use anchor_lang::prelude::UpgradeableLoaderState;
use vstd::prelude::*;

verus! {

/// An account as an instruction sees it when it asks for no particular type.
pub struct AccountInfo {
    pub key: Pubkey,
    pub owner: Pubkey,
    pub lamports: u64,
    pub executable: bool,
    pub data: Vec<u8>,
}

/// The program-data account of an upgradeable module.
#[derive(Clone, Copy, Debug, PartialEq, Eq)]
pub struct ProgramData {
    pub key: Pubkey,
    pub slot: u64,
    /// `None` once the authority has been revoked for good.
    pub upgrade_authority_address: Option<Pubkey>,
}

/// What the upgradeable loader stores at the start of an account it owns.
#[derive(Clone, Copy, Debug, PartialEq, Eq)]
pub enum LoaderState {
    Uninitialized,
    Buffer { authority_address: Option<Pubkey> },
    Program { programdata_address: Pubkey },
    ProgramData { slot: u64, upgrade_authority_address: Option<Pubkey> },
}

/// Why no upgrade authority could be resolved.
#[derive(Clone, Copy, Debug, PartialEq, Eq)]
pub enum AuthorityError {
    /// The account is owned by none of the loaders.
    NotAProgram,
    /// The account is not marked executable.
    NotExecutable,
    /// The account's bytes hold no loader state.
    InvalidAccountData,
    /// The loader state is not that of a program account.
    ShouldBeProgramAccount,
    /// The program account points at another program-data account.
    WrongAuthority,
}

/// The loader state that the bytes of an account decode to, or `None` where
/// they decode to none.
pub uninterp spec fn loader_state(data: Seq<u8>) -> Option<LoaderState>;

/// What is known of the state that bytes decode to: bytes that start with
/// the tag 2, as four bytes with the little end first, and hold thirty-two
/// bytes more, are the state of a program account that points at the
/// program-data account with those thirty-two bytes as its address. Bytes
/// behind them do not matter.
pub open spec fn decodes_program(data: Seq<u8>, state: Option<LoaderState>) -> bool {
    data.len() >= 36 && data.subrange(0, 4) == seq![2u8, 0u8, 0u8, 0u8] ==> (state matches Some(
        LoaderState::Program { programdata_address },
    ) && programdata_address@ == data.subrange(4, 36))
}

/// Calls anchor-lang's `UpgradeableLoaderState::try_deserialize_unchecked`,
/// which hands the bytes to bincode. The contract claims that the outcome is a
/// function of the bytes alone and names it [`loader_state`]; the variants are
/// carried over one for one, and every failure of the decoder becomes `None`.
/// It also claims the one case that the resolver goes on with, as bincode
/// reads it with integers of fixed width, the little end first, and with
/// bytes left over allowed: the tag 2 and a key of thirty-two bytes are a
/// program account's state.
#[verifier::external_body]
pub(crate) fn decode_loader_state(data: &[u8]) -> (state: Option<LoaderState>)
    ensures
        state == loader_state(data@),
        decodes_program(data@, state),
{
    let mut rest = data;
    match anchor_lang::AccountDeserialize::try_deserialize_unchecked(&mut rest) {
        Ok(UpgradeableLoaderState::Uninitialized) => Some(LoaderState::Uninitialized),
        Ok(UpgradeableLoaderState::Buffer { authority_address: a }) => Some(
            LoaderState::Buffer { authority_address: a.map(|key| key.to_bytes()) },
        ),
        Ok(UpgradeableLoaderState::Program { programdata_address: p }) => Some(
            LoaderState::Program { programdata_address: p.to_bytes() },
        ),
        Ok(UpgradeableLoaderState::ProgramData { slot, upgrade_authority_address: a }) => Some(
            LoaderState::ProgramData { slot, upgrade_authority_address: a.map(|key| key.to_bytes()) },
        ),
        Err(_) => None,
    }
}

/// The upgrade authority of a module, read from `program_data`, given
/// whether a loader owns the module's account, whether the account is
/// executable, and what its bytes decode to.
///
/// The checks come in this order: a loader owns the account; the account is
/// executable; its state decodes; the state is that of a program; the program
/// points at `program_data`. The authority itself may be absent.
pub open spec fn resolved_from(
    owned_by_loader: bool,
    executable: bool,
    state: Option<LoaderState>,
    program_data: ProgramData,
) -> Result<Option<Pubkey>, AuthorityError> {
    if !owned_by_loader {
        Err(AuthorityError::NotAProgram)
    } else if !executable {
        Err(AuthorityError::NotExecutable)
    } else {
        match state {
            None => Err(AuthorityError::InvalidAccountData),
            Some(LoaderState::Program { programdata_address }) => {
                if programdata_address == program_data.key {
                    Ok(program_data.upgrade_authority_address)
                } else {
                    Err(AuthorityError::WrongAuthority)
                }
            },
            Some(_) => Err(AuthorityError::ShouldBeProgramAccount),
        }
    }
}

/// The upgrade authority of the module whose account has the given owner,
/// flag and decoded state, where any of the three loaders may own it.
pub open spec fn resolved_authority(
    owner: Pubkey,
    executable: bool,
    state: Option<LoaderState>,
    program_data: ProgramData,
) -> Result<Option<Pubkey>, AuthorityError> {
    resolved_from(is_recognized_loader(owner), executable, state, program_data)
}

/// Resolves the upgrade authority from what is known of a module's account:
/// whether a loader owns it, whether it is executable, and the loader state
/// that its bytes were decoded to.
pub fn resolve_authority_from_state(
    owned_by_loader: bool,
    executable: bool,
    state: Option<LoaderState>,
    program_data: &ProgramData,
) -> (resolved: Result<Option<Pubkey>, AuthorityError>)
    ensures
        resolved == resolved_from(owned_by_loader, executable, state, *program_data),
{
    if !owned_by_loader {
        return Err(AuthorityError::NotAProgram);
    }
    if !executable {
        return Err(AuthorityError::NotExecutable);
    }
    match state {
        None => Err(AuthorityError::InvalidAccountData),
        Some(LoaderState::Program { programdata_address }) => {
            if same_key(&programdata_address, &program_data.key) {
                Ok(program_data.upgrade_authority_address)
            } else {
                Err(AuthorityError::WrongAuthority)
            }
        },
        Some(_) => Err(AuthorityError::ShouldBeProgramAccount),
    }
}

/// Resolves the upgrade authority of the module at `target`. Nothing is
/// changed; the outcome depends on the two accounts alone.
pub fn resolve_authority(target: &AccountInfo, program_data: &ProgramData) -> (resolved: Result<
    Option<Pubkey>,
    AuthorityError,
>)
    ensures
        resolved == resolved_authority(
            target.owner,
            target.executable,
            loader_state(target.data@),
            *program_data,
        ),
        decodes_program(target.data@, loader_state(target.data@)),
{
    let state = decode_loader_state(target.data.as_slice());
    resolve_authority_from_state(is_loader(&target.owner), target.executable, state, program_data)
}

/// Why an account is not the program-data account of a module.
#[derive(Clone, Copy, Debug, PartialEq, Eq)]
pub enum ProgramDataError {
    /// The upgradeable loader does not own the account.
    WrongOwner,
    /// The account's bytes hold no loader state.
    InvalidAccountData,
    /// The loader state is not that of a program-data account.
    NotProgramData,
}

/// The program-data account at `key`, from its owner and the loader state
/// that its bytes decode to.
pub open spec fn program_data_from(key: Pubkey, owner: Pubkey, state: Option<LoaderState>) -> Result<
    ProgramData,
    ProgramDataError,
> {
    if !is_bpf_loader_upgradeable(owner) {
        Err(ProgramDataError::WrongOwner)
    } else {
        match state {
            None => Err(ProgramDataError::InvalidAccountData),
            Some(LoaderState::ProgramData { slot, upgrade_authority_address }) => Ok(
                ProgramData { key, slot, upgrade_authority_address },
            ),
            Some(_) => Err(ProgramDataError::NotProgramData),
        }
    }
}

/// Reads a program-data account from its owner and from the loader state
/// that its bytes were decoded to.
pub fn read_program_data_from_state(key: Pubkey, owner: &Pubkey, state: Option<LoaderState>) -> (read:
    Result<ProgramData, ProgramDataError>)
    ensures
        read == program_data_from(key, *owner, state),
{
    let loader = bpf_loader_upgradeable_id();
    if !same_key(owner, &loader) {
        return Err(ProgramDataError::WrongOwner);
    }
    match state {
        None => Err(ProgramDataError::InvalidAccountData),
        Some(LoaderState::ProgramData { slot, upgrade_authority_address }) => Ok(
            ProgramData { key, slot, upgrade_authority_address },
        ),
        Some(_) => Err(ProgramDataError::NotProgramData),
    }
}

/// Reads the program-data account of a module: the slot of its last
/// deployment and its upgrade authority, if it has one.
pub fn read_program_data(account: &AccountInfo) -> (read: Result<ProgramData, ProgramDataError>)
    ensures
        read == program_data_from(account.key, account.owner, loader_state(account.data@)),
{
    let state = decode_loader_state(account.data.as_slice());
    read_program_data_from_state(account.key, &account.owner, state)
}

} // verus!
