//! The metadata program: records that describe an executable module, the
//! buffers in which new content is staged, and the instructions that set up,
//! fill, resize, commit and close them.

use crate::account::{
    append_bytes, close_refusal, closed_for, key_at, kind_of, lemma_replace_payload, lemma_total_len,
    reallocate, total_len,
    clamped, record_kind, resize_refusal, resize_to, resized, tag_at, write_at, written, zeros,
    Account, AccountView, Content, Rejection, Signer,
};
use crate::data_type::{lossy_text, read_tag, tag_of, text_of, write_tag};
use crate::keys::{find_program_address, is_erased, is_erased_authority, is_some_key, program_address, same_key, seeds_view, Pubkey};
use crate::loader::{
    decodes_program, loader_state, resolve_authority, resolved_authority, AccountInfo, AuthorityError,
    ProgramData,
};
use vstd::bytes::{
    lemma_auto_spec_u32_to_from_le_bytes, spec_u32_to_le_bytes, u32_from_le_bytes, u32_to_le_bytes,
};
use vstd::prelude::*;
use vstd::slice::{slice_subrange, slice_to_vec};
use vstd::string::StringSliceAdditionalSpecFns;
use vstd::utf8::{decode_utf8, encode_utf8, valid_utf8};

verus! {

/// The errors of the program's own.
#[derive(Clone, Copy, Debug, PartialEq, Eq)]
pub enum MyError {
    /// Only the upgrade authority of a module may set up its record; also,
    /// the module's program account points at another program-data account.
    WrongAuthority,
    /// The module's account is not executable.
    NotExecutable,
    /// The module's account is owned by none of the loaders.
    NotAProgram,
    /// The module's account is not a program account.
    ShouldBeProgramAccount,
    /// The data type has more than sixteen bytes.
    DataTypeTooLong,
    /// The signer is neither the module's upgrade authority nor the record's.
    InvalidAuthority,
    /// The record describes another module.
    WrongProgramId,
}

/// The data type of an interface description that is stored as JSON.
pub const DATA_TYPE_IDL_JSON: &'static str = "idl.json";

/// The data type of a link to an interface description.
pub const DATA_TYPE_IDL_URL: &'static str = "idl.url";

/// The data type of metadata that is stored as JSON.
pub const DATA_TYPE_META_JSON: &'static str = "meta.json";

/// The data type of a link to metadata.
pub const DATA_TYPE_META_URL: &'static str = "meta.url";

/// The bytes of the authority in a header.
pub const PUBKEY_LENGTH: u64 = 32;

/// The bytes of the module in a header.
pub const PROGRAM_ID_LENGTH: u64 = 32;

/// The bytes of the length in a header.
pub const U32_LENGTH: u64 = 4;

/// The bytes of the data type in a header.
pub const DATA_TYPE_LENGTH: u64 = 16;

/// The bytes of a metadata record before its trailing payload: the
/// record-kind tag, the authority, the data type, the module and the length.
pub const METADATA_ACCOUNT_SIZE: u64 = PUBKEY_LENGTH + PROGRAM_ID_LENGTH + U32_LENGTH
    + DATA_TYPE_LENGTH + 8;

/// The bytes of a buffer, or of a record that names no module, before the
/// trailing payload.
pub const METADATA_BUFFER_SIZE: u64 = PUBKEY_LENGTH + U32_LENGTH + DATA_TYPE_LENGTH + 8;

/// The program's address, `pmetaypqG6SiB47xMigYVMAkuHDWeSDXcv3zzDrJJvA`.
pub open spec fn program_key() -> Seq<u8> {
    seq![
        12u8, 60, 201, 162, 115, 14, 173, 160, 12, 254, 32, 152, 190, 91, 74, 88,
        74, 159, 172, 179, 218, 47, 222, 66, 106, 178, 210, 230, 59, 89, 102, 103,
    ]
}

/// The program's address.
pub fn id() -> (key: Pubkey)
    ensures
        key@ == program_key(),
{
    let key = [
        12u8, 60, 201, 162, 115, 14, 173, 160, 12, 254, 32, 152, 190, 91, 74, 88,
        74, 159, 172, 179, 218, 47, 222, 66, 106, 178, 210, 230, 59, 89, 102, 103,
    ];
    assert(key@ =~= program_key());
    key
}

/// The header of a record that describes the module `program_id`.
#[derive(Clone, Copy, Debug, PartialEq, Eq)]
pub struct MetadataAccount2 {
    /// Who may write the record.
    pub authority: Pubkey,
    pub data_type: [u8; 16],
    pub program_id: Pubkey,
    /// How many of the trailing bytes are content.
    pub data_len: u32,
}

/// The header of a buffer, in which content is staged. Its authority is
/// whoever set it up.
#[derive(Clone, Copy, Debug, PartialEq, Eq)]
pub struct MetadataBuffer {
    pub authority: Pubkey,
    pub data_type: [u8; 16],
    pub data_len: u32,
}

/// The header of a record that names no module.
#[derive(Clone, Copy, Debug, PartialEq, Eq)]
pub struct MetadataAccount {
    pub authority: Pubkey,
    pub data_type: [u8; 16],
    pub data_len: u32,
}

impl MetadataAccount2 {
    /// Sets the data type, zero-padded. A text of more than sixteen bytes is
    /// refused, and the tag stays as it is.
    pub fn set_data_type(&mut self, data_type: &str) -> (done: Result<(), MyError>)
        ensures
            done is Ok <==> data_type.spec_bytes().len() <= 16,
            done is Err ==> done == Err::<(), MyError>(MyError::DataTypeTooLong) && *final(self) == *old(
                self,
            ),
            done is Ok ==> final(self).data_type@ == tag_of(data_type.spec_bytes()),
            final(self).authority == old(self).authority,
            final(self).program_id == old(self).program_id,
            final(self).data_len == old(self).data_len,
    {
        if write_tag(&mut self.data_type, data_type) {
            Ok(())
        } else {
            Err(MyError::DataTypeTooLong)
        }
    }

    /// The data type: the tag's bytes before the first zero byte, as text.
    pub fn get_data_type(&self) -> (text: String)
        ensures
            text@ == lossy_text(text_of(self.data_type@)),
            valid_utf8(text_of(self.data_type@)) ==> text@ == decode_utf8(text_of(self.data_type@)),
    {
        read_tag(&self.data_type)
    }
}

impl MetadataBuffer {
    /// Sets the data type, zero-padded. A text of more than sixteen bytes is
    /// refused, and the tag stays as it is.
    pub fn set_data_type(&mut self, data_type: &str) -> (done: Result<(), MyError>)
        ensures
            done is Ok <==> data_type.spec_bytes().len() <= 16,
            done is Err ==> done == Err::<(), MyError>(MyError::DataTypeTooLong) && *final(self) == *old(
                self,
            ),
            done is Ok ==> final(self).data_type@ == tag_of(data_type.spec_bytes()),
            final(self).authority == old(self).authority,
            final(self).data_len == old(self).data_len,
    {
        if write_tag(&mut self.data_type, data_type) {
            Ok(())
        } else {
            Err(MyError::DataTypeTooLong)
        }
    }

    /// The data type: the tag's bytes before the first zero byte, as text.
    pub fn get_data_type(&self) -> (text: String)
        ensures
            text@ == lossy_text(text_of(self.data_type@)),
            valid_utf8(text_of(self.data_type@)) ==> text@ == decode_utf8(text_of(self.data_type@)),
    {
        read_tag(&self.data_type)
    }
}

/// The trailing bytes of a record, as a window that can be read or written
/// but not made longer or shorter.
pub trait MetadataUploadTrailingData {
    fn trailing_data(&self) -> &[u8];

    fn trailing_data_mut(&mut self) -> &mut [u8];
}

impl MetadataUploadTrailingData for Account<MetadataAccount2> {
    fn trailing_data(&self) -> (bytes: &[u8])
        ensures
            bytes@ == self.trailing@,
    {
        self.trailing.as_slice()
    }

    fn trailing_data_mut(&mut self) -> (bytes: &mut [u8])
        ensures
            bytes@ == old(self).trailing@,
            final(self).trailing@ == final(bytes)@,
            final(self).key == old(self).key,
            final(self).lamports == old(self).lamports,
            final(self).initialized == old(self).initialized,
            final(self).account == old(self).account,
    {
        self.trailing.as_mut_slice()
    }
}

/// The trailing bytes of a buffer, as a window that can be read or written
/// but not made longer or shorter.
pub trait MetadataBufferUploadTrailingData {
    fn trailing_data(&self) -> &[u8];

    fn trailing_data_mut(&mut self) -> &mut [u8];
}

impl MetadataBufferUploadTrailingData for Account<MetadataBuffer> {
    fn trailing_data(&self) -> (bytes: &[u8])
        ensures
            bytes@ == self.trailing@,
    {
        self.trailing.as_slice()
    }

    fn trailing_data_mut(&mut self) -> (bytes: &mut [u8])
        ensures
            bytes@ == old(self).trailing@,
            final(self).trailing@ == final(bytes)@,
            final(self).key == old(self).key,
            final(self).lamports == old(self).lamports,
            final(self).initialized == old(self).initialized,
            final(self).account == old(self).account,
    {
        self.trailing.as_mut_slice()
    }
}


/// The rejection that an error of the resolver becomes.
pub open spec fn rejection_of(error: AuthorityError) -> Rejection<MyError> {
    match error {
        AuthorityError::NotAProgram => Rejection::Program(MyError::NotAProgram),
        AuthorityError::NotExecutable => Rejection::Program(MyError::NotExecutable),
        AuthorityError::InvalidAccountData => Rejection::InvalidAccountData,
        AuthorityError::ShouldBeProgramAccount => Rejection::Program(MyError::ShouldBeProgramAccount),
        AuthorityError::WrongAuthority => Rejection::Program(MyError::WrongAuthority),
    }
}

/// Turns an error of the resolver into the rejection of an instruction.
pub fn reject(error: AuthorityError) -> (rejection: Rejection<MyError>)
    ensures
        rejection == rejection_of(error),
{
    match error {
        AuthorityError::NotAProgram => Rejection::Program(MyError::NotAProgram),
        AuthorityError::NotExecutable => Rejection::Program(MyError::NotExecutable),
        AuthorityError::InvalidAccountData => Rejection::InvalidAccountData,
        AuthorityError::ShouldBeProgramAccount => Rejection::Program(MyError::ShouldBeProgramAccount),
        AuthorityError::WrongAuthority => Rejection::Program(MyError::WrongAuthority),
    }
}

/// What the resolver makes of the module of an instruction.
pub open spec fn module_authority(program_id: AccountInfo, program_data: ProgramData) -> Result<
    Option<Pubkey>,
    AuthorityError,
> {
    resolved_authority(
        program_id.owner,
        program_id.executable,
        loader_state(program_id.data@),
        program_data,
    )
}

/// The seeds of the record of class `seed` that describes `module`.
pub open spec fn record_seeds(module: Seq<u8>, seed: Seq<u8>) -> Seq<Seq<u8>> {
    seq![module, seed]
}

/// The seeds of the record of class `seed` that `creator` keeps on `module`.
pub open spec fn creator_record_seeds(module: Seq<u8>, creator: Seq<u8>, seed: Seq<u8>) -> Seq<Seq<u8>> {
    seq![module, creator, seed]
}

/// The address of the record of class `seed` that describes `module`, should
/// there be one.
pub open spec fn record_key(module: Seq<u8>, seed: Seq<u8>) -> Option<Seq<u8>> {
    match program_address(record_seeds(module, seed), program_key()) {
        Some((key, _)) => Some(key),
        None => None,
    }
}

/// The address of the record of class `seed` that `creator` keeps on
/// `module`, should there be one.
pub open spec fn creator_record_key(module: Seq<u8>, creator: Seq<u8>, seed: Seq<u8>) -> Option<Seq<u8>> {
    match program_address(creator_record_seeds(module, creator, seed), program_key()) {
        Some((key, _)) => Some(key),
        None => None,
    }
}

/// The address of the record of class `seed` that describes `module`, with
/// its bump seed.
pub fn record_address(module: &Pubkey, seed: &str) -> (found: Option<(Pubkey, u8)>)
    ensures
        match found {
            Some((key, bump)) => program_address(record_seeds(module@, seed.spec_bytes()), program_key())
                == Some((key@, bump)),
            None => program_address(record_seeds(module@, seed.spec_bytes()), program_key()) is None,
        },
{
    let mut seeds: Vec<Vec<u8>> = Vec::new();
    seeds.push(slice_to_vec(module.as_slice()));
    seeds.push(slice_to_vec(seed.as_bytes()));
    assert(seeds_view(&seeds) =~= record_seeds(module@, seed.spec_bytes()));
    let program = id();
    find_program_address(&seeds, &program)
}

/// The address of the record of class `seed` that `creator` keeps on
/// `module`, with its bump seed.
pub fn creator_record_address(module: &Pubkey, creator: &Pubkey, seed: &str) -> (found: Option<
    (Pubkey, u8),
>)
    ensures
        match found {
            Some((key, bump)) => program_address(
                creator_record_seeds(module@, creator@, seed.spec_bytes()),
                program_key(),
            ) == Some((key@, bump)),
            None => program_address(
                creator_record_seeds(module@, creator@, seed.spec_bytes()),
                program_key(),
            ) is None,
        },
{
    let mut seeds: Vec<Vec<u8>> = Vec::new();
    seeds.push(slice_to_vec(module.as_slice()));
    seeds.push(slice_to_vec(creator.as_slice()));
    seeds.push(slice_to_vec(seed.as_bytes()));
    assert(seeds_view(&seeds) =~= creator_record_seeds(module@, creator@, seed.spec_bytes()));
    let program = id();
    find_program_address(&seeds, &program)
}

/// The accounts of `initialize`. `pda` is what the ledger holds at the
/// record's address: nothing, before the record is set up.
pub struct Initialize {
    pub pda: Option<Account<MetadataAccount2>>,
    pub signer: Signer,
    /// The module that the record is to describe.
    pub program_id: AccountInfo,
    pub program_data: ProgramData,
}

/// The accounts of `initialize_with_signer_seed`.
pub struct InitializeWithSignerSeed {
    pub pda: Option<Account<MetadataAccount2>>,
    pub signer: Signer,
    pub program_id: AccountInfo,
    pub program_data: ProgramData,
}

/// The accounts of `set_authority`.
pub struct MetadataAccounts {
    pub pda: Account<MetadataAccount2>,
    pub authority: Signer,
}

/// The accounts of `resize`.
pub struct Resize {
    pub pda: Account<MetadataAccount2>,
    pub signer: Signer,
}

/// The accounts of `resize_buffer`.
pub struct ResizeBuffer {
    pub buffer: Account<MetadataBuffer>,
    pub signer: Signer,
}

/// The accounts of `create_buffer`. `buffer` is a blank account.
pub struct CreateBuffer {
    pub buffer: Account<MetadataBuffer>,
    pub authority: Signer,
}

/// The accounts of `close_metadata_account_2`. The record is gone once the
/// instruction is done.
pub struct CloseMetadataAccount2 {
    pub metadata_account: Option<Account<MetadataAccount2>>,
    pub authority: Signer,
}

/// The accounts of `close_metadata_account_1`.
pub struct CloseMetadataAccount1 {
    pub metadata_account: Option<Account<MetadataAccount>>,
    pub authority: Signer,
}

/// The accounts of `close_buffer`.
pub struct CloseBuffer {
    pub buffer: Option<Account<MetadataBuffer>>,
    pub authority: Signer,
}

/// The accounts of `write_buffer`.
pub struct WriteBuffer {
    pub buffer: Account<MetadataBuffer>,
    pub signer: Signer,
}

/// The accounts of `set_buffer`. Anyone may have filled the buffer; the
/// module's upgrade authority or the record's authority commits it.
pub struct SetBuffer {
    pub buffer: Account<MetadataBuffer>,
    pub pda: Account<MetadataAccount2>,
    pub authority: Signer,
    pub program_id: AccountInfo,
    pub program_data: ProgramData,
}

/// A blank account of `space` bytes at `key`, as the ledger allocates it for
/// a buffer: every byte is zero, and no record is set up in it. `None` where
/// `space` leaves no room for the header.
pub fn blank_buffer(key: Pubkey, lamports: u64, space: usize) -> (blank: Option<Account<MetadataBuffer>>)
    ensures
        blank is Some <==> space >= METADATA_BUFFER_SIZE,
        blank matches Some(account) ==> {
            &&& account.key == key
            &&& account.lamports == lamports
            &&& !account.initialized
            &&& is_erased_authority(account.account.authority)
            &&& account.account.data_type@ == zeros(16)
            &&& account.account.data_len == 0
            &&& account.trailing@ == zeros((space - METADATA_BUFFER_SIZE) as nat)
        },
{
    if space < METADATA_BUFFER_SIZE as usize {
        return None;
    }
    let authority = [0u8; 32];
    let data_type = [0u8; 16];
    assert(authority@ =~= zeros(32));
    assert(data_type@ =~= zeros(16));
    let mut trailing: Vec<u8> = Vec::new();
    resize_to(&mut trailing, space - METADATA_BUFFER_SIZE as usize);
    assert(trailing@ =~= zeros((space - METADATA_BUFFER_SIZE) as nat));
    Some(
        Account {
            key,
            lamports,
            initialized: false,
            account: MetadataBuffer { authority, data_type, data_len: 0 },
            trailing,
        },
    )
}

/// Why a record is not set up for `signer`, if it is not: whether an
/// address could be derived for it, whether there is an account at the
/// address, what the resolver found for the module, whether the signer must
/// be the module's upgrade authority, and whether the data type has sixteen
/// bytes at most. The erased authority sets up nothing: where nothing else
/// stands against the record, the signer's key does, at the point where it
/// would be written as the authority.
pub open spec fn set_up_refusal(
    derived: bool,
    present: bool,
    resolved: Result<Option<Pubkey>, AuthorityError>,
    signer: Pubkey,
    check_authority: bool,
    data_type_fits: bool,
) -> Option<Rejection<MyError>> {
    if !derived {
        Some(Rejection::ConstraintSeeds)
    } else if present {
        Some(Rejection::AccountAlreadyInUse)
    } else if resolved is Err {
        Some(rejection_of(resolved->Err_0))
    } else if check_authority && resolved != Ok::<Option<Pubkey>, AuthorityError>(Some(signer)) {
        Some(Rejection::Program(MyError::WrongAuthority))
    } else if !data_type_fits {
        Some(Rejection::Program(MyError::DataTypeTooLong))
    } else if is_erased_authority(signer) {
        Some(Rejection::ConstraintRaw)
    } else {
        None
    }
}

/// The record that is set up at `address` for `module` on behalf of
/// `signer`: it names the signer as its authority and holds no content.
pub open spec fn is_new_record(
    record: AccountView<MetadataAccount2>,
    address: Seq<u8>,
    module: Pubkey,
    signer: Pubkey,
    data_type: Seq<u8>,
) -> bool {
    &&& record.key@ == address
    &&& record.lamports == 0
    &&& record.initialized
    &&& record.account.authority == signer
    &&& record.account.data_type@ == tag_of(data_type)
    &&& record.account.program_id == module
    &&& record.account.data_len == 0
    &&& record.trailing == Seq::<u8>::empty()
}

/// Sets up a record at `address`, the address that was derived for it, given
/// what the resolver found for the module. Where `check_authority`, the
/// signer must be the module's upgrade authority.
pub fn set_up_record(
    pda: &mut Option<Account<MetadataAccount2>>,
    address: Option<Pubkey>,
    resolved: Result<Option<Pubkey>, AuthorityError>,
    check_authority: bool,
    signer: &Pubkey,
    module: &Pubkey,
    data_type: &str,
) -> (done: Result<(), Rejection<MyError>>)
    ensures
        match set_up_refusal(
            address is Some,
            *old(pda) is Some,
            resolved,
            *signer,
            check_authority,
            data_type.spec_bytes().len() <= 16,
        ) {
            Some(rejection) => done matches Err(e) && e == rejection && *final(pda) == *old(pda),
            None => {
                &&& done is Ok
                &&& *final(pda) matches Some(record) && is_new_record(
                    record@,
                    address.unwrap()@,
                    *module,
                    *signer,
                    data_type.spec_bytes(),
                )
            },
        },
        done is Ok ==> (*final(pda) matches Some(record) && record_is_sound(record@)),
        is_erased_authority(*signer) ==> done is Err && *final(pda) == *old(pda),
{
    let key = match address {
        Some(key) => key,
        None => {
            return Err(Rejection::ConstraintSeeds);
        },
    };
    if pda.is_some() {
        return Err(Rejection::AccountAlreadyInUse);
    }
    let authority = match resolved {
        Ok(authority) => authority,
        Err(error) => {
            return Err(reject(error));
        },
    };
    if check_authority && !is_some_key(&authority, signer) {
        return Err(Rejection::Program(MyError::WrongAuthority));
    }
    let mut account = MetadataAccount2 {
        authority: *signer,
        data_type: [0u8; 16],
        program_id: *module,
        data_len: 0,
    };
    match account.set_data_type(data_type) {
        Ok(()) => {},
        Err(error) => {
            return Err(Rejection::Program(error));
        },
    }
    if is_erased(signer) {
        return Err(Rejection::ConstraintRaw);
    }
    *pda = Some(Account { key, lamports: 0, initialized: true, account, trailing: Vec::new() });
    Ok(())
}

/// Why `initialize` turns an instruction down, if it does.
pub open spec fn initialize_refusal(ctx: Initialize, data_type: Seq<u8>, seed: Seq<u8>) -> Option<
    Rejection<MyError>,
> {
    set_up_refusal(
        record_key(ctx.program_id.key@, seed) is Some,
        ctx.pda is Some,
        module_authority(ctx.program_id, ctx.program_data),
        ctx.signer.key,
        true,
        data_type.len() <= 16,
    )
}

/// Sets up the record of class `seed` that describes the module
/// `ctx.program_id`, at the address that the module and the seed derive.
///
/// There must be no account at that address yet, and the signer must be the
/// module's upgrade authority, with a key that is not the erased authority.
/// The new record names the signer as its authority and holds no content.
pub fn initialize(ctx: &mut Initialize, data_type: String, seed: String) -> (done: Result<
    (),
    Rejection<MyError>,
>)
    ensures
        match initialize_refusal(*old(ctx), encode_utf8(data_type@), encode_utf8(seed@)) {
            Some(rejection) => done matches Err(e) && e == rejection && *final(ctx) == *old(ctx),
            None => {
                &&& done is Ok
                &&& final(ctx).pda matches Some(record) && is_new_record(
                    record@,
                    record_key(old(ctx).program_id.key@, encode_utf8(seed@)).unwrap(),
                    old(ctx).program_id.key,
                    old(ctx).signer.key,
                    encode_utf8(data_type@),
                )
                &&& final(ctx).signer == old(ctx).signer
                &&& final(ctx).program_id == old(ctx).program_id
                &&& final(ctx).program_data == old(ctx).program_data
            },
        },
        done is Ok ==> (final(ctx).pda matches Some(record) && record_is_sound(record@)),
        is_erased_authority(old(ctx).signer.key) ==> done is Err && final(ctx).pda == old(ctx).pda,
        decodes_program(old(ctx).program_id.data@, loader_state(old(ctx).program_id.data@)),
{
    let address = match record_address(&ctx.program_id.key, seed.as_str()) {
        Some((key, _)) => Some(key),
        None => None,
    };
    let resolved = resolve_authority(&ctx.program_id, &ctx.program_data);
    let signer = ctx.signer.key;
    let module = ctx.program_id.key;
    set_up_record(&mut ctx.pda, address, resolved, true, &signer, &module, data_type.as_str())
}

/// Why `initialize_with_signer_seed` turns an instruction down, if it does.
pub open spec fn initialize_with_signer_seed_refusal(
    ctx: InitializeWithSignerSeed,
    data_type: Seq<u8>,
    seed: Seq<u8>,
) -> Option<Rejection<MyError>> {
    set_up_refusal(
        creator_record_key(ctx.program_id.key@, ctx.signer.key@, seed) is Some,
        ctx.pda is Some,
        module_authority(ctx.program_id, ctx.program_data),
        ctx.signer.key,
        false,
        data_type.len() <= 16,
    )
}

/// Sets up the record of class `seed` that the signer keeps on the module
/// `ctx.program_id`, at the address that the module, the signer and the seed
/// derive.
///
/// The signer need not be the module's upgrade authority: its own key is part
/// of the address, so no two signers meet at one record. Its key must not be
/// the erased authority, and the module must still be a program whose
/// program-data account is `ctx.program_data`.
pub fn initialize_with_signer_seed(
    ctx: &mut InitializeWithSignerSeed,
    data_type: String,
    seed: String,
) -> (done: Result<(), Rejection<MyError>>)
    ensures
        match initialize_with_signer_seed_refusal(
            *old(ctx),
            encode_utf8(data_type@),
            encode_utf8(seed@),
        ) {
            Some(rejection) => done matches Err(e) && e == rejection && *final(ctx) == *old(ctx),
            None => {
                &&& done is Ok
                &&& final(ctx).pda matches Some(record) && is_new_record(
                    record@,
                    creator_record_key(
                        old(ctx).program_id.key@,
                        old(ctx).signer.key@,
                        encode_utf8(seed@),
                    ).unwrap(),
                    old(ctx).program_id.key,
                    old(ctx).signer.key,
                    encode_utf8(data_type@),
                )
                &&& final(ctx).signer == old(ctx).signer
                &&& final(ctx).program_id == old(ctx).program_id
                &&& final(ctx).program_data == old(ctx).program_data
            },
        },
        done is Ok ==> (final(ctx).pda matches Some(record) && record_is_sound(record@)),
        is_erased_authority(old(ctx).signer.key) ==> done is Err && final(ctx).pda == old(ctx).pda,
        decodes_program(old(ctx).program_id.data@, loader_state(old(ctx).program_id.data@)),
{
    let address = match creator_record_address(&ctx.program_id.key, &ctx.signer.key, seed.as_str()) {
        Some((key, _)) => Some(key),
        None => None,
    };
    let resolved = resolve_authority(&ctx.program_id, &ctx.program_data);
    let signer = ctx.signer.key;
    let module = ctx.program_id.key;
    set_up_record(&mut ctx.pda, address, resolved, false, &signer, &module, data_type.as_str())
}

/// Why `write_buffer` turns an instruction down, if it does.
pub open spec fn write_buffer_refusal(
    buffer: AccountView<MetadataBuffer>,
    signer: Pubkey,
    data: Seq<u8>,
) -> Option<Rejection<MyError>> {
    if !buffer.initialized {
        Some(Rejection::AccountNotInitialized)
    } else if buffer.account.authority != signer || is_erased_authority(signer) {
        Some(Rejection::ConstraintRaw)
    } else if buffer.account.data_len + data.len() > u32::MAX {
        Some(Rejection::Overflow)
    } else if buffer.account.data_len + data.len() > buffer.trailing.len() {
        Some(Rejection::CapacityExceeded)
    } else {
        None
    }
}

/// The content of a buffer: its trailing bytes, and how many of them count.
pub open spec fn buffer_content(buffer: AccountView<MetadataBuffer>) -> Content {
    Content { data_len: buffer.account.data_len as nat, trailing: buffer.trailing }
}

/// The content of a record: its trailing bytes, and how many of them count.
pub open spec fn record_content(record: AccountView<MetadataAccount2>) -> Content {
    Content { data_len: record.account.data_len as nat, trailing: record.trailing }
}

/// What holds of a record between transactions: its content is within the
/// bytes that are allocated for it, and its authority is a key that can sign,
/// not the erased authority.
pub open spec fn record_is_sound(record: AccountView<MetadataAccount2>) -> bool {
    &&& record.initialized
    &&& record_content(record).fits()
    &&& !is_erased_authority(record.account.authority)
}

/// What holds of a buffer between transactions, as of a record.
pub open spec fn buffer_is_sound(buffer: AccountView<MetadataBuffer>) -> bool {
    &&& buffer.initialized
    &&& buffer_content(buffer).fits()
    &&& !is_erased_authority(buffer.account.authority)
}

/// The buffer after `data` was appended to its content.
pub open spec fn appended(buffer: AccountView<MetadataBuffer>, data: Seq<u8>) -> AccountView<
    MetadataBuffer,
> {
    let after = buffer_content(buffer).append(data);
    AccountView {
        account: MetadataBuffer { data_len: after.data_len as u32, ..buffer.account },
        trailing: after.trailing,
        ..buffer
    }
}

/// Appends `data` to the content of the buffer: the bytes go behind those
/// that are there, and the length grows by their number.
///
/// The signer must be the buffer's authority. Content that would not fit the
/// bytes that are allocated for the buffer is refused, and the buffer then
/// stays as it was.
pub fn write_buffer(ctx: &mut WriteBuffer, data: Vec<u8>) -> (done: Result<(), Rejection<MyError>>)
    ensures
        match write_buffer_refusal(old(ctx).buffer@, old(ctx).signer.key, data@) {
            Some(rejection) => done matches Err(e) && e == rejection && *final(ctx) == *old(ctx),
            None => {
                &&& done is Ok
                &&& final(ctx).buffer@ == appended(old(ctx).buffer@, data@)
                &&& final(ctx).signer == old(ctx).signer
            },
        },
        old(ctx).buffer.account.data_len + data@.len() > old(ctx).buffer.trailing@.len() ==> done is Err
            && *final(ctx) == *old(ctx),
        done is Ok ==> buffer_is_sound(final(ctx).buffer@),
{
    if !ctx.buffer.initialized {
        return Err(Rejection::AccountNotInitialized);
    }
    if !same_key(&ctx.buffer.account.authority, &ctx.signer.key) || is_erased(&ctx.signer.key) {
        return Err(Rejection::ConstraintRaw);
    }
    let prev_len: usize = ctx.buffer.account.data_len as usize;
    if data.len() > (u32::MAX - ctx.buffer.account.data_len) as usize {
        return Err(Rejection::Overflow);
    }
    let added: u32 = data.len() as u32;
    let new_len: usize = prev_len + data.len();
    if new_len > ctx.buffer.trailing.len() {
        return Err(Rejection::CapacityExceeded);
    }
    let bytes = ctx.buffer.trailing_data_mut();
    write_at(bytes, prev_len, data.as_slice());
    ctx.buffer.account.data_len = ctx.buffer.account.data_len + added;
    Ok(())
}

/// The buffer after `signer` has appended the chunks one after the other;
/// `None` where one of them is turned down.
pub open spec fn appended_all(
    buffer: AccountView<MetadataBuffer>,
    signer: Pubkey,
    chunks: Seq<Seq<u8>>,
) -> Option<AccountView<MetadataBuffer>>
    decreases chunks.len(),
{
    if chunks.len() == 0 {
        Some(buffer)
    } else if write_buffer_refusal(buffer, signer, chunks.first()) is Some {
        None
    } else {
        appended_all(appended(buffer, chunks.first()), signer, chunks.drop_first())
    }
}

/// Appending is associative: where the chunks laid end to end can be
/// appended at once, they can be appended one after the other, and the buffer
/// ends up the same, byte for byte; its length has grown by the sum of the
/// chunks' lengths.
pub proof fn lemma_write_buffer_is_associative(
    buffer: AccountView<MetadataBuffer>,
    signer: Pubkey,
    chunks: Seq<Seq<u8>>,
)
    requires
        write_buffer_refusal(buffer, signer, chunks.flatten()) is None,
    ensures
        appended_all(buffer, signer, chunks) == Some(appended(buffer, chunks.flatten())),
        appended(buffer, chunks.flatten()).account.data_len == buffer.account.data_len + total_len(
            chunks,
        ),
    decreases chunks.len(),
{
    lemma_total_len(chunks);
    if chunks.len() == 0 {
        assert(chunks.flatten() =~= Seq::<u8>::empty());
        assert(appended(buffer, Seq::<u8>::empty()).trailing =~= buffer.trailing);
    } else {
        let first = chunks.first();
        let rest = chunks.drop_first();
        lemma_total_len(rest);
        assert(chunks.flatten() =~= first + rest.flatten());
        let next = appended(buffer, first);
        lemma_write_buffer_is_associative(next, signer, rest);
        assert(appended(next, rest.flatten()).trailing =~= appended(
            buffer,
            first + rest.flatten(),
        ).trailing);
    }
}

/// Why `create_buffer` turns an instruction down, if it does.
pub open spec fn create_buffer_refusal(
    buffer: AccountView<MetadataBuffer>,
    authority: Pubkey,
    data_type_fits: bool,
) -> Option<Rejection<MyError>> {
    if buffer.initialized {
        Some(Rejection::ConstraintZero)
    } else if is_erased_authority(authority) {
        Some(Rejection::ConstraintRaw)
    } else if !data_type_fits {
        Some(Rejection::Program(MyError::DataTypeTooLong))
    } else {
        None
    }
}

/// The buffer that is set up in a blank account for `authority`, with the
/// data type whose tag is `data_type`: it holds no content yet.
pub open spec fn created(
    buffer: AccountView<MetadataBuffer>,
    authority: Pubkey,
    data_type: [u8; 16],
) -> AccountView<MetadataBuffer> {
    AccountView {
        initialized: true,
        account: MetadataBuffer { authority, data_type, data_len: 0 },
        ..buffer
    }
}

/// Sets up a buffer in a blank account. Its authority is the signer, whoever
/// that is, but for the erased authority; the buffer is bound to no record
/// and holds no content yet.
pub fn create_buffer(ctx: &mut CreateBuffer, data_type: String) -> (done: Result<(), Rejection<MyError>>)
    ensures
        match create_buffer_refusal(
            old(ctx).buffer@,
            old(ctx).authority.key,
            encode_utf8(data_type@).len() <= 16,
        ) {
            Some(rejection) => done matches Err(e) && e == rejection && *final(ctx) == *old(ctx),
            None => {
                &&& done is Ok
                &&& final(ctx).buffer.account.data_type@ == tag_of(encode_utf8(data_type@))
                &&& final(ctx).buffer@ == created(
                    old(ctx).buffer@,
                    old(ctx).authority.key,
                    final(ctx).buffer.account.data_type,
                )
                &&& final(ctx).authority == old(ctx).authority
            },
        },
        done is Ok ==> buffer_is_sound(final(ctx).buffer@),
{
    if ctx.buffer.initialized {
        return Err(Rejection::ConstraintZero);
    }
    if is_erased(&ctx.authority.key) {
        return Err(Rejection::ConstraintRaw);
    }
    let mut account = ctx.buffer.account;
    account.authority = ctx.authority.key;
    account.data_len = 0;
    match account.set_data_type(data_type.as_str()) {
        Ok(()) => {},
        Err(error) => {
            return Err(Rejection::Program(error));
        },
    }
    ctx.buffer.account = account;
    ctx.buffer.initialized = true;
    Ok(())
}

/// What `close_refusal` looks at in the record of `close_metadata_account_2`.
pub open spec fn closing_2(account: Option<Account<MetadataAccount2>>) -> Option<(bool, Pubkey, u64)> {
    match account {
        None => None,
        Some(a) => Some((a.initialized, a.account.authority, a.lamports)),
    }
}

/// What `close_refusal` looks at in the record of `close_metadata_account_1`.
pub open spec fn closing_1(account: Option<Account<MetadataAccount>>) -> Option<(bool, Pubkey, u64)> {
    match account {
        None => None,
        Some(a) => Some((a.initialized, a.account.authority, a.lamports)),
    }
}

/// What `close_refusal` looks at in the buffer of `close_buffer`.
pub open spec fn closing_buffer(account: Option<Account<MetadataBuffer>>) -> Option<(bool, Pubkey, u64)> {
    match account {
        None => None,
        Some(a) => Some((a.initialized, a.account.authority, a.lamports)),
    }
}

/// Closes a record: the account is gone, and its deposit goes to the signer.
///
/// The signer must be the authority that the record names. That it is the
/// module's upgrade authority does not help; and the erased authority closes
/// nothing, even where a record names it.
pub fn close_metadata_account_2(ctx: &mut CloseMetadataAccount2) -> (done: Result<
    (),
    Rejection<MyError>,
>)
    ensures
        match close_refusal::<MyError>(closing_2(old(ctx).metadata_account), old(ctx).authority) {
            Some(rejection) => done matches Err(e) && e == rejection && *final(ctx) == *old(ctx),
            None => {
                &&& done is Ok
                &&& final(ctx).metadata_account is None
                &&& final(ctx).authority.key == old(ctx).authority.key
                &&& final(ctx).authority.lamports == old(ctx).authority.lamports + old(
                    ctx,
                ).metadata_account.unwrap().lamports
            },
        },
        is_erased_authority(old(ctx).authority.key) ==> done is Err,
{
    let refund = match &ctx.metadata_account {
        None => {
            return Err(Rejection::AccountNotInitialized);
        },
        Some(a) => closed_for(a.initialized, &a.account.authority, a.lamports, &ctx.authority),
    };
    match refund {
        Err(rejection) => Err(rejection),
        Ok(lamports) => {
            ctx.metadata_account = None;
            ctx.authority.lamports = lamports;
            Ok(())
        },
    }
}

/// Closes a record that names no module: the account is gone, and its
/// deposit goes to the signer, who must be the record's authority.
pub fn close_metadata_account_1(ctx: &mut CloseMetadataAccount1) -> (done: Result<
    (),
    Rejection<MyError>,
>)
    ensures
        match close_refusal::<MyError>(closing_1(old(ctx).metadata_account), old(ctx).authority) {
            Some(rejection) => done matches Err(e) && e == rejection && *final(ctx) == *old(ctx),
            None => {
                &&& done is Ok
                &&& final(ctx).metadata_account is None
                &&& final(ctx).authority.key == old(ctx).authority.key
                &&& final(ctx).authority.lamports == old(ctx).authority.lamports + old(
                    ctx,
                ).metadata_account.unwrap().lamports
            },
        },
        is_erased_authority(old(ctx).authority.key) ==> done is Err,
{
    let refund = match &ctx.metadata_account {
        None => {
            return Err(Rejection::AccountNotInitialized);
        },
        Some(a) => closed_for(a.initialized, &a.account.authority, a.lamports, &ctx.authority),
    };
    match refund {
        Err(rejection) => Err(rejection),
        Ok(lamports) => {
            ctx.metadata_account = None;
            ctx.authority.lamports = lamports;
            Ok(())
        },
    }
}

/// Closes a buffer: the account is gone, and its deposit goes to the signer,
/// who must be the buffer's authority.
pub fn close_buffer(ctx: &mut CloseBuffer) -> (done: Result<(), Rejection<MyError>>)
    ensures
        match close_refusal::<MyError>(closing_buffer(old(ctx).buffer), old(ctx).authority) {
            Some(rejection) => done matches Err(e) && e == rejection && *final(ctx) == *old(ctx),
            None => {
                &&& done is Ok
                &&& final(ctx).buffer is None
                &&& final(ctx).authority.key == old(ctx).authority.key
                &&& final(ctx).authority.lamports == old(ctx).authority.lamports + old(
                    ctx,
                ).buffer.unwrap().lamports
            },
        },
        is_erased_authority(old(ctx).authority.key) ==> done is Err,
{
    let refund = match &ctx.buffer {
        None => {
            return Err(Rejection::AccountNotInitialized);
        },
        Some(a) => closed_for(a.initialized, &a.account.authority, a.lamports, &ctx.authority),
    };
    match refund {
        Err(rejection) => Err(rejection),
        Ok(lamports) => {
            ctx.buffer = None;
            ctx.authority.lamports = lamports;
            Ok(())
        },
    }
}

/// The record after it was given `len` bytes in all: content that the new
/// size leaves no room for no longer counts.
pub open spec fn resized_to(record: AccountView<MetadataAccount2>, len: u16) -> AccountView<
    MetadataAccount2,
> {
    AccountView {
        account: MetadataAccount2 {
            data_len: clamped(record.account.data_len, (len - METADATA_ACCOUNT_SIZE) as nat),
            ..record.account
        },
        trailing: resized(record.trailing, (len - METADATA_ACCOUNT_SIZE) as nat),
        ..record
    }
}

/// Gives the record `len` bytes in all, the header included: trailing bytes
/// beyond that are cut, new ones are zero. Authority, data type and module
/// stay as they are; the length of the content too, unless the cut goes into
/// the content, which then ends where the record ends.
///
/// The signer must be the record's authority. One instruction grows an
/// account by [`MAX_PERMITTED_DATA_INCREASE`] bytes at most.
pub fn resize(ctx: &mut Resize, len: u16) -> (done: Result<(), Rejection<MyError>>)
    ensures
        match resize_refusal::<MyError>(
            old(ctx).pda.initialized,
            old(ctx).pda.account.authority,
            old(ctx).pda.trailing@.len(),
            METADATA_ACCOUNT_SIZE as nat,
            old(ctx).signer.key,
            len,
        ) {
            Some(rejection) => done matches Err(e) && e == rejection && *final(ctx) == *old(ctx),
            None => {
                &&& done is Ok
                &&& final(ctx).pda@ == resized_to(old(ctx).pda@, len)
                &&& final(ctx).signer == old(ctx).signer
            },
        },
        done is Ok && record_is_sound(old(ctx).pda@) ==> record_is_sound(final(ctx).pda@),
{
    let authority = ctx.pda.account.authority;
    reallocate(
        ctx.pda.initialized,
        &authority,
        &mut ctx.pda.account.data_len,
        &mut ctx.pda.trailing,
        METADATA_ACCOUNT_SIZE as usize,
        &ctx.signer.key,
        len,
    )
}

/// Gives the buffer `len` bytes in all, the header included, as [`resize`]
/// does for a record.
pub fn resize_buffer(ctx: &mut ResizeBuffer, len: u16) -> (done: Result<(), Rejection<MyError>>)
    ensures
        match resize_refusal::<MyError>(
            old(ctx).buffer.initialized,
            old(ctx).buffer.account.authority,
            old(ctx).buffer.trailing@.len(),
            METADATA_BUFFER_SIZE as nat,
            old(ctx).signer.key,
            len,
        ) {
            Some(rejection) => done matches Err(e) && e == rejection && *final(ctx) == *old(ctx),
            None => {
                &&& done is Ok
                &&& final(ctx).buffer@ == (AccountView {
                    account: MetadataBuffer {
                        data_len: clamped(
                            old(ctx).buffer.account.data_len,
                            (len - METADATA_BUFFER_SIZE) as nat,
                        ),
                        ..old(ctx).buffer.account
                    },
                    trailing: resized(
                        old(ctx).buffer.trailing@,
                        (len - METADATA_BUFFER_SIZE) as nat,
                    ),
                    ..old(ctx).buffer@
                })
                &&& final(ctx).signer == old(ctx).signer
            },
        },
        done is Ok && buffer_is_sound(old(ctx).buffer@) ==> buffer_is_sound(final(ctx).buffer@),
{
    let authority = ctx.buffer.account.authority;
    reallocate(
        ctx.buffer.initialized,
        &authority,
        &mut ctx.buffer.account.data_len,
        &mut ctx.buffer.trailing,
        METADATA_BUFFER_SIZE as usize,
        &ctx.signer.key,
        len,
    )
}

/// Why `set_authority` turns an instruction down, if it does.
pub open spec fn set_authority_refusal(ctx: MetadataAccounts, new_authority: Pubkey) -> Option<
    Rejection<MyError>,
> {
    if !ctx.pda.initialized {
        Some(Rejection::AccountNotInitialized)
    } else if ctx.pda.account.authority != ctx.authority.key {
        Some(Rejection::ConstraintHasOne)
    } else if is_erased_authority(ctx.authority.key) || is_erased_authority(new_authority) {
        Some(Rejection::ConstraintRaw)
    } else {
        None
    }
}

/// Names `new_authority` as the record's authority. The signer must be the
/// authority that the record names now, and the erased authority is neither
/// taken as the signer nor as the new authority.
pub fn set_authority(ctx: &mut MetadataAccounts, new_authority: Pubkey) -> (done: Result<
    (),
    Rejection<MyError>,
>)
    ensures
        match set_authority_refusal(*old(ctx), new_authority) {
            Some(rejection) => done matches Err(e) && e == rejection && *final(ctx) == *old(ctx),
            None => {
                &&& done is Ok
                &&& final(ctx).pda@ == (AccountView {
                    account: MetadataAccount2 { authority: new_authority, ..old(ctx).pda.account },
                    ..old(ctx).pda@
                })
                &&& final(ctx).authority == old(ctx).authority
            },
        },
        done is Ok && record_is_sound(old(ctx).pda@) ==> record_is_sound(final(ctx).pda@),
{
    if !ctx.pda.initialized {
        return Err(Rejection::AccountNotInitialized);
    }
    if !same_key(&ctx.pda.account.authority, &ctx.authority.key) {
        return Err(Rejection::ConstraintHasOne);
    }
    if is_erased(&ctx.authority.key) || is_erased(&new_authority) {
        return Err(Rejection::ConstraintRaw);
    }
    ctx.pda.account.authority = new_authority;
    Ok(())
}

/// Who may commit to `record`, which must describe `module`: the module's
/// upgrade authority as `resolved` gives it, or else the authority that the
/// record names. Where the caller may, the record names the caller from then
/// on.
pub open spec fn commit_authority(
    record: MetadataAccount2,
    module: Pubkey,
    caller: Pubkey,
    resolved: Result<Option<Pubkey>, AuthorityError>,
) -> Result<Pubkey, Rejection<MyError>> {
    if record.program_id != module {
        Err(Rejection::Program(MyError::WrongProgramId))
    } else {
        match resolved {
            Err(error) => Err(rejection_of(error)),
            Ok(authority) => {
                if authority == Some(caller) || record.authority == caller {
                    Ok(caller)
                } else {
                    Err(Rejection::Program(MyError::InvalidAuthority))
                }
            },
        }
    }
}

/// Decides who may commit to `record`, from what the resolver found.
pub fn check_commit_authority(
    record: &MetadataAccount2,
    module: &Pubkey,
    caller: &Pubkey,
    resolved: Result<Option<Pubkey>, AuthorityError>,
) -> (allowed: Result<Pubkey, Rejection<MyError>>)
    ensures
        allowed == commit_authority(*record, *module, *caller, resolved),
{
    if !same_key(&record.program_id, module) {
        return Err(Rejection::Program(MyError::WrongProgramId));
    }
    match resolved {
        Err(error) => Err(reject(error)),
        Ok(authority) => {
            if is_some_key(&authority, caller) || same_key(&record.authority, caller) {
                Ok(*caller)
            } else {
                Err(Rejection::Program(MyError::InvalidAuthority))
            }
        },
    }
}

/// Why a buffer is not committed to a record, if it is not: `module` is the
/// module that the instruction names, `caller` the signer, and `resolved`
/// what the resolver found for the module.
pub open spec fn commit_refusal(
    buffer: AccountView<MetadataBuffer>,
    pda: AccountView<MetadataAccount2>,
    module: Pubkey,
    caller: Pubkey,
    resolved: Result<Option<Pubkey>, AuthorityError>,
) -> Option<Rejection<MyError>> {
    let allowed = commit_authority(pda.account, module, caller, resolved);
    if !buffer.initialized || !pda.initialized {
        Some(Rejection::AccountNotInitialized)
    } else if is_erased_authority(caller) {
        Some(Rejection::ConstraintRaw)
    } else if allowed is Err {
        Some(allowed->Err_0)
    } else if buffer.account.data_len > buffer.trailing.len() {
        Some(Rejection::CapacityExceeded)
    } else if buffer.account.data_len > pda.trailing.len() {
        Some(Rejection::CapacityExceeded)
    } else {
        None
    }
}

/// The record after `caller` has committed `buffer` to it: it names the
/// caller, has the buffer's data type and length, and starts with the
/// buffer's content; trailing bytes behind that are as they were.
pub open spec fn committed(
    pda: AccountView<MetadataAccount2>,
    buffer: AccountView<MetadataBuffer>,
    caller: Pubkey,
) -> AccountView<MetadataAccount2> {
    AccountView {
        account: MetadataAccount2 {
            authority: caller,
            data_type: buffer.account.data_type,
            program_id: pda.account.program_id,
            data_len: buffer.account.data_len,
        },
        trailing: written(
            pda.trailing,
            0,
            buffer.trailing.subrange(0, buffer.account.data_len as int),
        ),
        ..pda
    }
}

/// Commits the buffer to the record, given what the resolver found for the
/// module.
pub fn commit(ctx: &mut SetBuffer, resolved: Result<Option<Pubkey>, AuthorityError>) -> (done: Result<
    (),
    Rejection<MyError>,
>)
    ensures
        match commit_refusal(
            old(ctx).buffer@,
            old(ctx).pda@,
            old(ctx).program_id.key,
            old(ctx).authority.key,
            resolved,
        ) {
            Some(rejection) => done matches Err(e) && e == rejection && *final(ctx) == *old(ctx),
            None => {
                &&& done is Ok
                &&& final(ctx).pda@ == committed(
                    old(ctx).pda@,
                    old(ctx).buffer@,
                    old(ctx).authority.key,
                )
                &&& final(ctx).buffer == old(ctx).buffer
                &&& final(ctx).authority == old(ctx).authority
                &&& final(ctx).program_id == old(ctx).program_id
                &&& final(ctx).program_data == old(ctx).program_data
            },
        },
        done is Err ==> *final(ctx) == *old(ctx),
        done is Ok ==> {
            &&& record_is_sound(final(ctx).pda@)
            &&& record_content(final(ctx).pda@).payload() == buffer_content(old(ctx).buffer@).payload()
        },
{
    if !ctx.buffer.initialized || !ctx.pda.initialized {
        return Err(Rejection::AccountNotInitialized);
    }
    if is_erased(&ctx.authority.key) {
        return Err(Rejection::ConstraintRaw);
    }
    let authority = match check_commit_authority(
        &ctx.pda.account,
        &ctx.program_id.key,
        &ctx.authority.key,
        resolved,
    ) {
        Ok(authority) => authority,
        Err(rejection) => {
            return Err(rejection);
        },
    };
    let buffer_len: usize = ctx.buffer.account.data_len as usize;
    if buffer_len > ctx.buffer.trailing.len() {
        return Err(Rejection::CapacityExceeded);
    }
    if buffer_len > ctx.pda.trailing.len() {
        return Err(Rejection::CapacityExceeded);
    }
    proof {
        lemma_replace_payload(ctx.pda.trailing@, buffer_content(ctx.buffer@).payload());
    }
    let source = slice_subrange(ctx.buffer.trailing_data(), 0, buffer_len);
    let target = ctx.pda.trailing_data_mut();
    write_at(target, 0, source);
    ctx.pda.account.authority = authority;
    ctx.pda.account.data_type = ctx.buffer.account.data_type;
    ctx.pda.account.data_len = ctx.buffer.account.data_len;
    Ok(())
}

/// Why `set_buffer` turns an instruction down, if it does.
pub open spec fn set_buffer_refusal(ctx: SetBuffer) -> Option<Rejection<MyError>> {
    commit_refusal(
        ctx.buffer@,
        ctx.pda@,
        ctx.program_id.key,
        ctx.authority.key,
        module_authority(ctx.program_id, ctx.program_data),
    )
}

/// Commits the buffer to the record: its data type, its length and its
/// content replace those of the record, all of them or none.
///
/// The record must describe the module `ctx.program_id`. The signer must be
/// the module's upgrade authority, as it is now, or the authority that the
/// record names; in both cases the record names the signer afterwards. The
/// record must have room for the content: trailing bytes of the record beyond
/// the new length stay as they are. The data type is copied byte for byte.
pub fn set_buffer(ctx: &mut SetBuffer) -> (done: Result<(), Rejection<MyError>>)
    ensures
        match set_buffer_refusal(*old(ctx)) {
            Some(rejection) => done matches Err(e) && e == rejection && *final(ctx) == *old(ctx),
            None => {
                &&& done is Ok
                &&& final(ctx).pda@ == committed(
                    old(ctx).pda@,
                    old(ctx).buffer@,
                    old(ctx).authority.key,
                )
                &&& final(ctx).pda.account.data_type == old(ctx).buffer.account.data_type
                &&& final(ctx).buffer == old(ctx).buffer
                &&& final(ctx).authority == old(ctx).authority
                &&& final(ctx).program_id == old(ctx).program_id
                &&& final(ctx).program_data == old(ctx).program_data
            },
        },
        done is Err ==> *final(ctx) == *old(ctx),
        done is Ok ==> {
            &&& record_is_sound(final(ctx).pda@)
            &&& record_content(final(ctx).pda@).payload() == buffer_content(old(ctx).buffer@).payload()
        },
        decodes_program(old(ctx).program_id.data@, loader_state(old(ctx).program_id.data@)),
{
    let resolved = resolve_authority(&ctx.program_id, &ctx.program_data);
    commit(ctx, resolved)
}

/// The module's upgrade authority overrides the record's authority: when the
/// upgrade authority has changed since the record was set up, a commit by the
/// new authority goes through wherever there is room for the content, whoever
/// the record names, and the record then names the new authority; after
/// that, a commit by the old one is turned down as one by an invalid
/// authority.
pub proof fn lemma_privileged_override(
    buffer: AccountView<MetadataBuffer>,
    pda: AccountView<MetadataAccount2>,
    module: Pubkey,
    old_authority: Pubkey,
    new_authority: Pubkey,
)
    requires
        buffer.initialized,
        pda.initialized,
        pda.account.program_id == module,
        old_authority != new_authority,
        !is_erased_authority(old_authority),
        !is_erased_authority(new_authority),
        buffer.account.data_len <= buffer.trailing.len(),
        buffer.account.data_len <= pda.trailing.len(),
    ensures
        commit_refusal(buffer, pda, module, new_authority, Ok(Some(new_authority))) is None,
        committed(pda, buffer, new_authority).account.authority == new_authority,
        commit_refusal(
            buffer,
            committed(pda, buffer, new_authority),
            module,
            old_authority,
            Ok(Some(new_authority)),
        ) == Some(Rejection::<MyError>::Program(MyError::InvalidAuthority)),
{
}

/// Without the module's upgrade authority, only the authority that the
/// record names commits: it does wherever there is room for the content, and
/// the record goes on naming it; anyone else is turned down as an invalid
/// authority.
pub proof fn lemma_commit_needs_authority(
    buffer: AccountView<MetadataBuffer>,
    pda: AccountView<MetadataAccount2>,
    caller: Pubkey,
    resolved: Option<Pubkey>,
)
    requires
        buffer.initialized,
        pda.initialized,
        !is_erased_authority(caller),
        resolved != Some(caller),
        buffer.account.data_len <= buffer.trailing.len(),
        buffer.account.data_len <= pda.trailing.len(),
    ensures
        pda.account.authority == caller ==> commit_refusal(
            buffer,
            pda,
            pda.account.program_id,
            caller,
            Ok(resolved),
        ) is None && committed(pda, buffer, caller).account.authority == pda.account.authority,
        pda.account.authority != caller ==> commit_refusal(
            buffer,
            pda,
            pda.account.program_id,
            caller,
            Ok(resolved),
        ) == Some(Rejection::<MyError>::Program(MyError::InvalidAuthority)),
{
}

/// The record-kind tag of a record that describes a module.
pub open spec fn record_discriminator() -> Seq<u8> {
    seq![217u8, 197, 213, 23, 62, 14, 230, 192]
}

/// The bytes of a record that describes a module on the ledger: the record-kind tag, which is zero
/// in a blank account; the authority; the data type; the module; the length, little end first; the
/// trailing bytes.
pub open spec fn record_data(account: AccountView<MetadataAccount2>) -> Seq<u8> {
    record_kind(account.initialized, record_discriminator()) + account.account.authority@ + account.account.data_type@ + account.account.program_id@
        + spec_u32_to_le_bytes(account.account.data_len) + account.trailing
}

/// The record-kind tag of a record that describes a module, as it stands in an account: the tag
/// once it is set, or eight zero bytes.
fn record_kind_tag(initialized: bool) -> (tag: [u8; 8])
    ensures
        tag@ == record_kind(initialized, record_discriminator()),
        initialized ==> tag@ != zeros(8),
{
    if initialized {
        let tag = [217u8, 197, 213, 23, 62, 14, 230, 192];
        assert(tag@ =~= record_discriminator());
        assert(tag@[0] != zeros(8)[0]);
        tag
    } else {
        let tag = [0u8; 8];
        assert(tag@ =~= zeros(8));
        tag
    }
}

/// The bytes of a record that describes a module on the ledger.
pub fn record_to_account_data(account: &Account<MetadataAccount2>) -> (data: Vec<u8>)
    ensures
        data@ == record_data(account@),
{
    let mut data: Vec<u8> = Vec::new();
    let tag = record_kind_tag(account.initialized);
    append_bytes(&mut data, tag.as_slice());
    append_bytes(&mut data, account.account.authority.as_slice());
    append_bytes(&mut data, account.account.data_type.as_slice());
    append_bytes(&mut data, account.account.program_id.as_slice());
    let data_len = u32_to_le_bytes(account.account.data_len);
    append_bytes(&mut data, data_len.as_slice());
    append_bytes(&mut data, account.trailing.as_slice());
    data
}

/// A record that describes a module at `key` whose bytes on the ledger are `data`; `None` where
/// the bytes are fewer than the header, or start with another record-kind
/// tag.
pub fn record_from_account_data(key: Pubkey, lamports: u64, data: &[u8]) -> (account: Option<
    Account<MetadataAccount2>,
>)
    ensures
        account is Some <==> data@.len() >= METADATA_ACCOUNT_SIZE && (data@.subrange(0, 8)
            == record_discriminator() || data@.subrange(0, 8) == zeros(8)),
        account matches Some(a) ==> a.key == key && a.lamports == lamports && record_data(a@)
            == data@,
{
    if data.len() < METADATA_ACCOUNT_SIZE as usize {
        return None;
    }
    let tag = record_kind_tag(true);
    let initialized = match kind_of(data, &tag) {
        Some(initialized) => initialized,
        None => {
            return None;
        },
    };
    let account = Account {
        key,
        lamports,
        initialized,
        account: MetadataAccount2 {
            authority: key_at(data, 8),
            data_type: tag_at(data, 40),
            program_id: key_at(data, 56),
            data_len: u32_from_le_bytes(slice_subrange(data, 88, 92)),
        },
        trailing: slice_to_vec(slice_subrange(data, 92, data.len())),
    };
    proof {
        lemma_auto_spec_u32_to_from_le_bytes();
        assert(record_data(account@) =~= data@);
    }
    Some(account)
}

/// The record-kind tag of a buffer.
pub open spec fn buffer_discriminator() -> Seq<u8> {
    seq![123u8, 121, 190, 46, 245, 204, 102, 54]
}

/// The bytes of a buffer on the ledger: the record-kind tag, which is zero
/// in a blank account; the authority; the data type; the length, little end first; the
/// trailing bytes.
pub open spec fn buffer_data(account: AccountView<MetadataBuffer>) -> Seq<u8> {
    record_kind(account.initialized, buffer_discriminator()) + account.account.authority@ + account.account.data_type@
        + spec_u32_to_le_bytes(account.account.data_len) + account.trailing
}

/// The record-kind tag of a buffer, as it stands in an account: the tag
/// once it is set, or eight zero bytes.
fn buffer_kind_tag(initialized: bool) -> (tag: [u8; 8])
    ensures
        tag@ == record_kind(initialized, buffer_discriminator()),
        initialized ==> tag@ != zeros(8),
{
    if initialized {
        let tag = [123u8, 121, 190, 46, 245, 204, 102, 54];
        assert(tag@ =~= buffer_discriminator());
        assert(tag@[0] != zeros(8)[0]);
        tag
    } else {
        let tag = [0u8; 8];
        assert(tag@ =~= zeros(8));
        tag
    }
}

/// The bytes of a buffer on the ledger.
pub fn buffer_to_account_data(account: &Account<MetadataBuffer>) -> (data: Vec<u8>)
    ensures
        data@ == buffer_data(account@),
{
    let mut data: Vec<u8> = Vec::new();
    let tag = buffer_kind_tag(account.initialized);
    append_bytes(&mut data, tag.as_slice());
    append_bytes(&mut data, account.account.authority.as_slice());
    append_bytes(&mut data, account.account.data_type.as_slice());
    let data_len = u32_to_le_bytes(account.account.data_len);
    append_bytes(&mut data, data_len.as_slice());
    append_bytes(&mut data, account.trailing.as_slice());
    data
}

/// A buffer at `key` whose bytes on the ledger are `data`; `None` where
/// the bytes are fewer than the header, or start with another record-kind
/// tag.
pub fn buffer_from_account_data(key: Pubkey, lamports: u64, data: &[u8]) -> (account: Option<
    Account<MetadataBuffer>,
>)
    ensures
        account is Some <==> data@.len() >= METADATA_BUFFER_SIZE && (data@.subrange(0, 8)
            == buffer_discriminator() || data@.subrange(0, 8) == zeros(8)),
        account matches Some(a) ==> a.key == key && a.lamports == lamports && buffer_data(a@)
            == data@,
{
    if data.len() < METADATA_BUFFER_SIZE as usize {
        return None;
    }
    let tag = buffer_kind_tag(true);
    let initialized = match kind_of(data, &tag) {
        Some(initialized) => initialized,
        None => {
            return None;
        },
    };
    let account = Account {
        key,
        lamports,
        initialized,
        account: MetadataBuffer {
            authority: key_at(data, 8),
            data_type: tag_at(data, 40),
            data_len: u32_from_le_bytes(slice_subrange(data, 56, 60)),
        },
        trailing: slice_to_vec(slice_subrange(data, 60, data.len())),
    };
    proof {
        lemma_auto_spec_u32_to_from_le_bytes();
        assert(buffer_data(account@) =~= data@);
    }
    Some(account)
}

/// The record-kind tag of a record that names no module.
pub open spec fn plain_record_discriminator() -> Seq<u8> {
    seq![32u8, 224, 226, 224, 77, 64, 109, 234]
}

/// The bytes of a record that names no module on the ledger: the record-kind tag, which is zero
/// in a blank account; the authority; the data type; the length, little end first; the
/// trailing bytes.
pub open spec fn plain_record_data(account: AccountView<MetadataAccount>) -> Seq<u8> {
    record_kind(account.initialized, plain_record_discriminator()) + account.account.authority@ + account.account.data_type@
        + spec_u32_to_le_bytes(account.account.data_len) + account.trailing
}

/// The record-kind tag of a record that names no module, as it stands in an account: the tag
/// once it is set, or eight zero bytes.
fn plain_record_kind_tag(initialized: bool) -> (tag: [u8; 8])
    ensures
        tag@ == record_kind(initialized, plain_record_discriminator()),
        initialized ==> tag@ != zeros(8),
{
    if initialized {
        let tag = [32u8, 224, 226, 224, 77, 64, 109, 234];
        assert(tag@ =~= plain_record_discriminator());
        assert(tag@[0] != zeros(8)[0]);
        tag
    } else {
        let tag = [0u8; 8];
        assert(tag@ =~= zeros(8));
        tag
    }
}

/// The bytes of a record that names no module on the ledger.
pub fn plain_record_to_account_data(account: &Account<MetadataAccount>) -> (data: Vec<u8>)
    ensures
        data@ == plain_record_data(account@),
{
    let mut data: Vec<u8> = Vec::new();
    let tag = plain_record_kind_tag(account.initialized);
    append_bytes(&mut data, tag.as_slice());
    append_bytes(&mut data, account.account.authority.as_slice());
    append_bytes(&mut data, account.account.data_type.as_slice());
    let data_len = u32_to_le_bytes(account.account.data_len);
    append_bytes(&mut data, data_len.as_slice());
    append_bytes(&mut data, account.trailing.as_slice());
    data
}

/// A record that names no module at `key` whose bytes on the ledger are `data`; `None` where
/// the bytes are fewer than the header, or start with another record-kind
/// tag.
pub fn plain_record_from_account_data(key: Pubkey, lamports: u64, data: &[u8]) -> (account: Option<
    Account<MetadataAccount>,
>)
    ensures
        account is Some <==> data@.len() >= METADATA_BUFFER_SIZE && (data@.subrange(0, 8)
            == plain_record_discriminator() || data@.subrange(0, 8) == zeros(8)),
        account matches Some(a) ==> a.key == key && a.lamports == lamports && plain_record_data(a@)
            == data@,
{
    if data.len() < METADATA_BUFFER_SIZE as usize {
        return None;
    }
    let tag = plain_record_kind_tag(true);
    let initialized = match kind_of(data, &tag) {
        Some(initialized) => initialized,
        None => {
            return None;
        },
    };
    let account = Account {
        key,
        lamports,
        initialized,
        account: MetadataAccount {
            authority: key_at(data, 8),
            data_type: tag_at(data, 40),
            data_len: u32_from_le_bytes(slice_subrange(data, 56, 60)),
        },
        trailing: slice_to_vec(slice_subrange(data, 60, data.len())),
    };
    proof {
        lemma_auto_spec_u32_to_from_le_bytes();
        assert(plain_record_data(account@) =~= data@);
    }
    Some(account)
}

} // verus!
