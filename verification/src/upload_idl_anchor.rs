//! The interface-description program: one record per module and seed, which
//! holds the module's compressed interface description, and the buffers in
//! which a new description is staged.

use crate::account::{
    append_bytes, close_refusal, closed_for, key_at, kind_of, lemma_replace_payload, lemma_total_len,
    reallocate, total_len,
    clamped, record_kind, resize_refusal, resize_to, resized,
    write_at, written, zeros, Account, AccountView, Content, Rejection, Signer,
};
use crate::keys::{
    find_program_address, is_erased, is_erased_authority, is_some_key,
    program_address, same_key, seeds_view, Pubkey,
};
use crate::loader::{
    decodes_program, loader_state, resolve_authority, resolved_authority, AccountInfo, AuthorityError,
    ProgramData,
};
use vstd::bytes::{
    lemma_auto_spec_u32_to_from_le_bytes, spec_u32_to_le_bytes, u32_from_le_bytes, u32_to_le_bytes,
};
use vstd::prelude::*;
use vstd::slice::{slice_subrange, slice_to_vec};
use vstd::string::StringSliceAdditionalSpecFns;
use vstd::utf8::encode_utf8;

verus! {

/// The errors of the program's own.
#[derive(Clone, Copy, Debug, PartialEq, Eq)]
pub enum MyError {
    /// Only the upgrade authority of a module may set up its record; also,
    /// the module's program account points at another program-data account.
    WrongAuthority,
    /// The module's account is not executable.
    NotExecutable,
    /// The module's account is owned by none of the loaders.
    NotAProgram,
    /// The module's account is not a program account.
    ShouldBeProgramAccount,
}

/// The bytes of a record before its trailing payload: the record-kind tag,
/// the authority and the length.
pub const IDL_ACCOUNT_SIZE: usize = 44;

/// The program's address, `idLB41CuMPpWZmQGGxpsxbyGDWWzono4JnFLJxQakrE`.
pub open spec fn program_key() -> Seq<u8> {
    seq![
        10u8, 169, 228, 108, 174, 110, 223, 17, 226, 101, 107, 50, 173, 245, 128, 105,
        231, 213, 62, 110, 159, 139, 170, 110, 163, 89, 92, 174, 212, 118, 94, 235,
    ]
}

/// The program's address.
pub fn id() -> (key: Pubkey)
    ensures
        key@ == program_key(),
{
    let key = [
        10u8, 169, 228, 108, 174, 110, 223, 17, 226, 101, 107, 50, 173, 245, 128, 105,
        231, 213, 62, 110, 159, 139, 170, 110, 163, 89, 92, 174, 212, 118, 94, 235,
    ];
    assert(key@ =~= program_key());
    key
}

/// The header of a record or of a buffer.
#[derive(Clone, Copy, Debug, PartialEq, Eq)]
pub struct IdlAccount {
    /// Who may write the record.
    pub authority: Pubkey,
    /// How many of the trailing bytes are content.
    pub data_len: u32,
}

/// The trailing bytes of a record or buffer, as a window that can be read or
/// written but not made longer or shorter.
pub trait IdlUploadTrailingData {
    fn trailing_data(&self) -> &[u8];

    fn trailing_data_mut(&mut self) -> &mut [u8];
}

impl IdlUploadTrailingData for Account<IdlAccount> {
    fn trailing_data(&self) -> (bytes: &[u8])
        ensures
            bytes@ == self.trailing@,
    {
        self.trailing.as_slice()
    }

    fn trailing_data_mut(&mut self) -> (bytes: &mut [u8])
        ensures
            bytes@ == old(self).trailing@,
            final(self).trailing@ == final(bytes)@,
            final(self).key == old(self).key,
            final(self).lamports == old(self).lamports,
            final(self).initialized == old(self).initialized,
            final(self).account == old(self).account,
    {
        self.trailing.as_mut_slice()
    }
}

/// The rejection that an error of the resolver becomes.
pub open spec fn rejection_of(error: AuthorityError) -> Rejection<MyError> {
    match error {
        AuthorityError::NotAProgram => Rejection::Program(MyError::NotAProgram),
        AuthorityError::NotExecutable => Rejection::Program(MyError::NotExecutable),
        AuthorityError::InvalidAccountData => Rejection::InvalidAccountData,
        AuthorityError::ShouldBeProgramAccount => Rejection::Program(MyError::ShouldBeProgramAccount),
        AuthorityError::WrongAuthority => Rejection::Program(MyError::WrongAuthority),
    }
}

/// Turns an error of the resolver into the rejection of an instruction.
pub fn reject(error: AuthorityError) -> (rejection: Rejection<MyError>)
    ensures
        rejection == rejection_of(error),
{
    match error {
        AuthorityError::NotAProgram => Rejection::Program(MyError::NotAProgram),
        AuthorityError::NotExecutable => Rejection::Program(MyError::NotExecutable),
        AuthorityError::InvalidAccountData => Rejection::InvalidAccountData,
        AuthorityError::ShouldBeProgramAccount => Rejection::Program(MyError::ShouldBeProgramAccount),
        AuthorityError::WrongAuthority => Rejection::Program(MyError::WrongAuthority),
    }
}

/// What the resolver makes of the module of an instruction.
pub open spec fn module_authority(program_id: AccountInfo, program_data: ProgramData) -> Result<
    Option<Pubkey>,
    AuthorityError,
> {
    resolved_authority(
        program_id.owner,
        program_id.executable,
        loader_state(program_id.data@),
        program_data,
    )
}

/// The seeds of the record of class `seed` that describes `module`.
pub open spec fn record_seeds(seed: Seq<u8>, module: Seq<u8>) -> Seq<Seq<u8>> {
    seq![seed, module]
}

/// The address of the record of class `seed` that describes `module`, should
/// there be one.
pub open spec fn record_key(seed: Seq<u8>, module: Seq<u8>) -> Option<Seq<u8>> {
    match program_address(record_seeds(seed, module), program_key()) {
        Some((key, _)) => Some(key),
        None => None,
    }
}

/// The address of the record of class `seed` that describes `module`.
pub fn record_address(seed: &str, module: &Pubkey) -> (found: Option<Pubkey>)
    ensures
        match found {
            Some(key) => record_key(seed.spec_bytes(), module@) == Some(key@),
            None => record_key(seed.spec_bytes(), module@) is None,
        },
{
    let mut seeds: Vec<Vec<u8>> = Vec::new();
    seeds.push(slice_to_vec(seed.as_bytes()));
    seeds.push(slice_to_vec(module.as_slice()));
    assert(seeds_view(&seeds) =~= record_seeds(seed.spec_bytes(), module@));
    let program = id();
    match find_program_address(&seeds, &program) {
        Some((key, _)) => Some(key),
        None => None,
    }
}

/// The accounts of `initialize`. `idl` is what the ledger holds at the
/// record's address: nothing, before the record is set up.
pub struct Initialize {
    pub idl: Option<Account<IdlAccount>>,
    pub signer: Signer,
    /// The module that the record is to describe.
    pub program_id: AccountInfo,
    pub program_data: ProgramData,
}

/// The accounts of `resize`.
pub struct Resize {
    pub idl: Account<IdlAccount>,
    pub signer: Signer,
    pub program_id: Pubkey,
}

/// The accounts of `create_buffer`. `buffer` is a blank account.
pub struct IdlCreateBuffer {
    pub buffer: Account<IdlAccount>,
    pub authority: Signer,
}

/// The accounts of `close_buffer`. The buffer is gone once the instruction is
/// done.
pub struct IdlCloseBuffer {
    pub buffer: Option<Account<IdlAccount>>,
    pub authority: Signer,
}

/// The accounts of `write_buffer`.
pub struct WriteBuffer {
    pub buffer: Account<IdlAccount>,
    pub signer: Signer,
}

/// The accounts of `set_buffer`.
pub struct IdlSetBuffer {
    pub buffer: Account<IdlAccount>,
    pub idl: Account<IdlAccount>,
    pub authority: Signer,
    pub program_id: Pubkey,
}

/// What holds of a record or buffer between transactions: its content is
/// within the bytes that are allocated for it, and its authority is a key
/// that can sign, not the erased authority.
pub open spec fn is_sound(account: AccountView<IdlAccount>) -> bool {
    &&& account.initialized
    &&& content(account).fits()
    &&& !is_erased_authority(account.account.authority)
}

/// A blank account of `space` bytes at `key`, as the ledger allocates it:
/// every byte is zero, and no record is set up in it. `None` where `space`
/// leaves no room for the header.
pub fn blank_account(key: Pubkey, lamports: u64, space: usize) -> (blank: Option<Account<IdlAccount>>)
    ensures
        blank is Some <==> space >= IDL_ACCOUNT_SIZE,
        blank matches Some(account) ==> {
            &&& account.key == key
            &&& account.lamports == lamports
            &&& !account.initialized
            &&& is_erased_authority(account.account.authority)
            &&& account.account.data_len == 0
            &&& account.trailing@ == zeros((space - IDL_ACCOUNT_SIZE) as nat)
        },
{
    if space < IDL_ACCOUNT_SIZE {
        return None;
    }
    let authority = [0u8; 32];
    assert(authority@ =~= zeros(32));
    let mut trailing: Vec<u8> = Vec::new();
    resize_to(&mut trailing, space - IDL_ACCOUNT_SIZE);
    assert(trailing@ =~= zeros((space - IDL_ACCOUNT_SIZE) as nat));
    Some(
        Account {
            key,
            lamports,
            initialized: false,
            account: IdlAccount { authority, data_len: 0 },
            trailing,
        },
    )
}

/// Why a record is not set up for `signer`, if it is not: whether an
/// address could be derived for it, whether there is an account at the
/// address, and what the resolver found for the module. The erased authority
/// sets up nothing: where nothing else stands against the record, the
/// signer's key does, at the point where it would be written as the
/// authority.
pub open spec fn set_up_refusal(
    derived: bool,
    present: bool,
    resolved: Result<Option<Pubkey>, AuthorityError>,
    signer: Pubkey,
) -> Option<Rejection<MyError>> {
    if !derived {
        Some(Rejection::ConstraintSeeds)
    } else if present {
        Some(Rejection::AccountAlreadyInUse)
    } else if resolved is Err {
        Some(rejection_of(resolved->Err_0))
    } else if resolved != Ok::<Option<Pubkey>, AuthorityError>(Some(signer)) {
        Some(Rejection::Program(MyError::WrongAuthority))
    } else if is_erased_authority(signer) {
        Some(Rejection::ConstraintRaw)
    } else {
        None
    }
}

/// The record that is set up at `address` on behalf of `signer`: it names
/// the signer as its authority and holds no content.
pub open spec fn is_new_record(record: AccountView<IdlAccount>, address: Seq<u8>, signer: Pubkey) -> bool {
    &&& record.key@ == address
    &&& record.lamports == 0
    &&& record.initialized
    &&& record.account.authority == signer
    &&& record.account.data_len == 0
    &&& record.trailing == Seq::<u8>::empty()
}

/// Sets up a record at `address`, the address that was derived for it, given
/// what the resolver found for the module: the signer must be the module's
/// upgrade authority.
pub fn set_up_record(
    idl: &mut Option<Account<IdlAccount>>,
    address: Option<Pubkey>,
    resolved: Result<Option<Pubkey>, AuthorityError>,
    signer: &Pubkey,
) -> (done: Result<(), Rejection<MyError>>)
    ensures
        match set_up_refusal(address is Some, *old(idl) is Some, resolved, *signer) {
            Some(rejection) => done matches Err(e) && e == rejection && *final(idl) == *old(idl),
            None => {
                &&& done is Ok
                &&& *final(idl) matches Some(record) && is_new_record(
                    record@,
                    address.unwrap()@,
                    *signer,
                )
            },
        },
        done is Ok ==> (*final(idl) matches Some(record) && is_sound(record@)),
        is_erased_authority(*signer) ==> done is Err && *final(idl) == *old(idl),
{
    let key = match address {
        Some(key) => key,
        None => {
            return Err(Rejection::ConstraintSeeds);
        },
    };
    if idl.is_some() {
        return Err(Rejection::AccountAlreadyInUse);
    }
    let authority = match resolved {
        Ok(authority) => authority,
        Err(error) => {
            return Err(reject(error));
        },
    };
    if !is_some_key(&authority, signer) {
        return Err(Rejection::Program(MyError::WrongAuthority));
    }
    if is_erased(signer) {
        return Err(Rejection::ConstraintRaw);
    }
    *idl = Some(
        Account {
            key,
            lamports: 0,
            initialized: true,
            account: IdlAccount { authority: *signer, data_len: 0 },
            trailing: Vec::new(),
        },
    );
    Ok(())
}

/// Why `initialize` turns an instruction down, if it does.
pub open spec fn initialize_refusal(ctx: Initialize, seed: Seq<u8>) -> Option<Rejection<MyError>> {
    set_up_refusal(
        record_key(seed, ctx.program_id.key@) is Some,
        ctx.idl is Some,
        module_authority(ctx.program_id, ctx.program_data),
        ctx.signer.key,
    )
}

/// Sets up the record of class `seed` that describes the module
/// `ctx.program_id`, at the address that the seed and the module derive.
///
/// There must be no account at that address yet, and the signer must be the
/// module's upgrade authority, with a key that is not the erased authority.
/// The new record names the signer as its authority and holds no content.
pub fn initialize(ctx: &mut Initialize, seed: String) -> (done: Result<(), Rejection<MyError>>)
    ensures
        match initialize_refusal(*old(ctx), encode_utf8(seed@)) {
            Some(rejection) => done matches Err(e) && e == rejection && *final(ctx) == *old(ctx),
            None => {
                &&& done is Ok
                &&& final(ctx).idl matches Some(record) && is_new_record(
                    record@,
                    record_key(encode_utf8(seed@), old(ctx).program_id.key@).unwrap(),
                    old(ctx).signer.key,
                )
                &&& final(ctx).signer == old(ctx).signer
                &&& final(ctx).program_id == old(ctx).program_id
                &&& final(ctx).program_data == old(ctx).program_data
            },
        },
        done is Ok ==> (final(ctx).idl matches Some(record) && is_sound(record@)),
        is_erased_authority(old(ctx).signer.key) ==> done is Err && final(ctx).idl == old(ctx).idl,
        decodes_program(old(ctx).program_id.data@, loader_state(old(ctx).program_id.data@)),
{
    let address = record_address(seed.as_str(), &ctx.program_id.key);
    let resolved = resolve_authority(&ctx.program_id, &ctx.program_data);
    let signer = ctx.signer.key;
    set_up_record(&mut ctx.idl, address, resolved, &signer)
}

/// Why `write_buffer` turns an instruction down, if it does.
pub open spec fn write_buffer_refusal(
    buffer: AccountView<IdlAccount>,
    signer: Pubkey,
    idl_data: Seq<u8>,
) -> Option<Rejection<MyError>> {
    if !buffer.initialized {
        Some(Rejection::AccountNotInitialized)
    } else if buffer.account.authority != signer || is_erased_authority(signer) {
        Some(Rejection::ConstraintRaw)
    } else if buffer.account.data_len + idl_data.len() > u32::MAX {
        Some(Rejection::Overflow)
    } else if buffer.account.data_len + idl_data.len() > buffer.trailing.len() {
        Some(Rejection::CapacityExceeded)
    } else {
        None
    }
}

/// The content of an account: its trailing bytes, and how many of them
/// count.
pub open spec fn content(account: AccountView<IdlAccount>) -> Content {
    Content { data_len: account.account.data_len as nat, trailing: account.trailing }
}

/// The buffer after `idl_data` was appended to its content.
pub open spec fn appended(buffer: AccountView<IdlAccount>, idl_data: Seq<u8>) -> AccountView<IdlAccount> {
    let after = content(buffer).append(idl_data);
    AccountView {
        account: IdlAccount { data_len: after.data_len as u32, ..buffer.account },
        trailing: after.trailing,
        ..buffer
    }
}

/// Appends `idl_data` to the content of the buffer: the bytes go behind those
/// that are there, and the length grows by their number.
///
/// The signer must be the buffer's authority. Content that would not fit the
/// bytes that are allocated for the buffer is refused, and the buffer then
/// stays as it was.
pub fn write_buffer(ctx: &mut WriteBuffer, idl_data: Vec<u8>) -> (done: Result<(), Rejection<MyError>>)
    ensures
        match write_buffer_refusal(old(ctx).buffer@, old(ctx).signer.key, idl_data@) {
            Some(rejection) => done matches Err(e) && e == rejection && *final(ctx) == *old(ctx),
            None => {
                &&& done is Ok
                &&& final(ctx).buffer@ == appended(old(ctx).buffer@, idl_data@)
                &&& final(ctx).signer == old(ctx).signer
            },
        },
        old(ctx).buffer.account.data_len + idl_data@.len() > old(ctx).buffer.trailing@.len() ==> done is Err
            && *final(ctx) == *old(ctx),
        done is Ok ==> is_sound(final(ctx).buffer@),
{
    if !ctx.buffer.initialized {
        return Err(Rejection::AccountNotInitialized);
    }
    if !same_key(&ctx.buffer.account.authority, &ctx.signer.key) || is_erased(&ctx.signer.key) {
        return Err(Rejection::ConstraintRaw);
    }
    let prev_len: usize = ctx.buffer.account.data_len as usize;
    if idl_data.len() > (u32::MAX - ctx.buffer.account.data_len) as usize {
        return Err(Rejection::Overflow);
    }
    let added: u32 = idl_data.len() as u32;
    let new_len: usize = prev_len + idl_data.len();
    if new_len > ctx.buffer.trailing.len() {
        return Err(Rejection::CapacityExceeded);
    }
    let bytes = ctx.buffer.trailing_data_mut();
    write_at(bytes, prev_len, idl_data.as_slice());
    ctx.buffer.account.data_len = ctx.buffer.account.data_len + added;
    Ok(())
}

/// The buffer after `signer` has appended the chunks one after the other;
/// `None` where one of them is turned down.
pub open spec fn appended_all(
    buffer: AccountView<IdlAccount>,
    signer: Pubkey,
    chunks: Seq<Seq<u8>>,
) -> Option<AccountView<IdlAccount>>
    decreases chunks.len(),
{
    if chunks.len() == 0 {
        Some(buffer)
    } else if write_buffer_refusal(buffer, signer, chunks.first()) is Some {
        None
    } else {
        appended_all(appended(buffer, chunks.first()), signer, chunks.drop_first())
    }
}

/// Appending is associative: where the chunks laid end to end can be
/// appended at once, they can be appended one after the other, and the buffer
/// ends up the same, byte for byte; its length has grown by the sum of the
/// chunks' lengths.
pub proof fn lemma_write_buffer_is_associative(
    buffer: AccountView<IdlAccount>,
    signer: Pubkey,
    chunks: Seq<Seq<u8>>,
)
    requires
        write_buffer_refusal(buffer, signer, chunks.flatten()) is None,
    ensures
        appended_all(buffer, signer, chunks) == Some(appended(buffer, chunks.flatten())),
        appended(buffer, chunks.flatten()).account.data_len == buffer.account.data_len + total_len(
            chunks,
        ),
    decreases chunks.len(),
{
    lemma_total_len(chunks);
    if chunks.len() == 0 {
        assert(chunks.flatten() =~= Seq::<u8>::empty());
        assert(appended(buffer, Seq::<u8>::empty()).trailing =~= buffer.trailing);
    } else {
        let first = chunks.first();
        let rest = chunks.drop_first();
        lemma_total_len(rest);
        assert(chunks.flatten() =~= first + rest.flatten());
        let next = appended(buffer, first);
        lemma_write_buffer_is_associative(next, signer, rest);
        assert(appended(next, rest.flatten()).trailing =~= appended(
            buffer,
            first + rest.flatten(),
        ).trailing);
    }
}

/// Why `create_buffer` turns an instruction down, if it does.
pub open spec fn create_buffer_refusal(buffer: AccountView<IdlAccount>, authority: Pubkey) -> Option<
    Rejection<MyError>,
> {
    if buffer.initialized {
        Some(Rejection::ConstraintZero)
    } else if is_erased_authority(authority) {
        Some(Rejection::ConstraintRaw)
    } else {
        None
    }
}

/// The buffer that `create_buffer` sets up in a blank account for
/// `authority`: it holds no content yet.
pub open spec fn created(buffer: AccountView<IdlAccount>, authority: Pubkey) -> AccountView<IdlAccount> {
    AccountView { initialized: true, account: IdlAccount { authority, data_len: 0 }, ..buffer }
}

/// Sets up a buffer in a blank account. Its authority is the signer.
pub fn create_buffer(ctx: &mut IdlCreateBuffer) -> (done: Result<(), Rejection<MyError>>)
    ensures
        match create_buffer_refusal(old(ctx).buffer@, old(ctx).authority.key) {
            Some(rejection) => done matches Err(e) && e == rejection && *final(ctx) == *old(ctx),
            None => {
                &&& done is Ok
                &&& final(ctx).buffer@ == created(old(ctx).buffer@, old(ctx).authority.key)
                &&& final(ctx).authority == old(ctx).authority
            },
        },
        done is Ok ==> is_sound(final(ctx).buffer@),
{
    if ctx.buffer.initialized {
        return Err(Rejection::ConstraintZero);
    }
    if is_erased(&ctx.authority.key) {
        return Err(Rejection::ConstraintRaw);
    }
    ctx.buffer.account.authority = ctx.authority.key;
    ctx.buffer.account.data_len = 0;
    ctx.buffer.initialized = true;
    Ok(())
}

/// What `close_refusal` looks at in the buffer of `close_buffer`.
pub open spec fn closing(account: Option<Account<IdlAccount>>) -> Option<(bool, Pubkey, u64)> {
    match account {
        None => None,
        Some(a) => Some((a.initialized, a.account.authority, a.lamports)),
    }
}

/// Closes a buffer: the account is gone, and its deposit goes to the signer,
/// who must be the buffer's authority. The erased authority closes nothing.
pub fn close_buffer(ctx: &mut IdlCloseBuffer) -> (done: Result<(), Rejection<MyError>>)
    ensures
        match close_refusal::<MyError>(closing(old(ctx).buffer), old(ctx).authority) {
            Some(rejection) => done matches Err(e) && e == rejection && *final(ctx) == *old(ctx),
            None => {
                &&& done is Ok
                &&& final(ctx).buffer is None
                &&& final(ctx).authority.key == old(ctx).authority.key
                &&& final(ctx).authority.lamports == old(ctx).authority.lamports + old(
                    ctx,
                ).buffer.unwrap().lamports
            },
        },
        is_erased_authority(old(ctx).authority.key) ==> done is Err,
{
    let refund = match &ctx.buffer {
        None => {
            return Err(Rejection::AccountNotInitialized);
        },
        Some(a) => closed_for(a.initialized, &a.account.authority, a.lamports, &ctx.authority),
    };
    match refund {
        Err(rejection) => Err(rejection),
        Ok(lamports) => {
            ctx.buffer = None;
            ctx.authority.lamports = lamports;
            Ok(())
        },
    }
}

/// Why a record is not resized, if it is not: `seeds_match` says whether
/// the record is at the address that the seed and the module derive.
pub open spec fn resize_instruction_refusal(
    idl: AccountView<IdlAccount>,
    signer: Pubkey,
    seeds_match: bool,
    len: u16,
) -> Option<Rejection<MyError>> {
    if !seeds_match {
        Some(Rejection::ConstraintSeeds)
    } else {
        resize_refusal::<MyError>(
            idl.initialized,
            idl.account.authority,
            idl.trailing.len(),
            IDL_ACCOUNT_SIZE as nat,
            signer,
            len,
        )
    }
}

/// The record after it was given `len` bytes in all: content that the new
/// size leaves no room for no longer counts.
pub open spec fn resized_to(record: AccountView<IdlAccount>, len: u16) -> AccountView<IdlAccount> {
    AccountView {
        account: IdlAccount {
            data_len: clamped(record.account.data_len, (len - IDL_ACCOUNT_SIZE) as nat),
            ..record.account
        },
        trailing: resized(record.trailing, (len - IDL_ACCOUNT_SIZE) as nat),
        ..record
    }
}

/// Gives the record `len` bytes in all, where it is at `address`, the address
/// that was derived for it.
pub fn resize_at(ctx: &mut Resize, len: u16, address: Option<Pubkey>) -> (done: Result<
    (),
    Rejection<MyError>,
>)
    ensures
        match resize_instruction_refusal(
            old(ctx).idl@,
            old(ctx).signer.key,
            address == Some(old(ctx).idl.key),
            len,
        ) {
            Some(rejection) => done matches Err(e) && e == rejection && *final(ctx) == *old(ctx),
            None => {
                &&& done is Ok
                &&& final(ctx).idl@ == resized_to(old(ctx).idl@, len)
                &&& final(ctx).signer == old(ctx).signer
                &&& final(ctx).program_id == old(ctx).program_id
            },
        },
        done is Ok && is_sound(old(ctx).idl@) ==> is_sound(final(ctx).idl@),
{
    if !is_some_key(&address, &ctx.idl.key) {
        return Err(Rejection::ConstraintSeeds);
    }
    let authority = ctx.idl.account.authority;
    reallocate(
        ctx.idl.initialized,
        &authority,
        &mut ctx.idl.account.data_len,
        &mut ctx.idl.trailing,
        IDL_ACCOUNT_SIZE,
        &ctx.signer.key,
        len,
    )
}

/// Gives the record of class `seed` `len` bytes in all, the header included:
/// trailing bytes beyond that are cut, new ones are zero. The authority stays
/// as it is; the length of the content too, unless the cut goes into the
/// content, which then ends where the record ends.
///
/// The signer must be the record's authority. One instruction grows an
/// account by 10240 bytes at most.
pub fn resize(ctx: &mut Resize, len: u16, seed: String) -> (done: Result<(), Rejection<MyError>>)
    ensures
        match resize_instruction_refusal(
            old(ctx).idl@,
            old(ctx).signer.key,
            record_key(encode_utf8(seed@), old(ctx).program_id@) == Some(old(ctx).idl.key@),
            len,
        ) {
            Some(rejection) => done matches Err(e) && e == rejection && *final(ctx) == *old(ctx),
            None => {
                &&& done is Ok
                &&& final(ctx).idl@ == resized_to(old(ctx).idl@, len)
                &&& final(ctx).signer == old(ctx).signer
                &&& final(ctx).program_id == old(ctx).program_id
            },
        },
        done is Ok && is_sound(old(ctx).idl@) ==> is_sound(final(ctx).idl@),
{
    let address = record_address(seed.as_str(), &ctx.program_id);
    proof {
        if let Some(key) = address {
            if key@ == ctx.idl.key@ {
                assert(key =~= ctx.idl.key);
            }
        }
    }
    resize_at(ctx, len, address)
}

/// Why a buffer is not committed to a record, if it is not: `seeds_match`
/// says whether the record is at the address that the seed and the module
/// derive.
pub open spec fn set_buffer_refusal(
    buffer: AccountView<IdlAccount>,
    idl: AccountView<IdlAccount>,
    authority: Pubkey,
    seeds_match: bool,
) -> Option<Rejection<MyError>> {
    if !buffer.initialized || !idl.initialized {
        Some(Rejection::AccountNotInitialized)
    } else if idl.account.authority != authority {
        Some(Rejection::ConstraintHasOne)
    } else if !seeds_match {
        Some(Rejection::ConstraintSeeds)
    } else if is_erased_authority(authority) {
        Some(Rejection::ConstraintRaw)
    } else if buffer.account.data_len > buffer.trailing.len() {
        Some(Rejection::CapacityExceeded)
    } else if buffer.account.data_len > idl.trailing.len() {
        Some(Rejection::CapacityExceeded)
    } else {
        None
    }
}

/// The record after the content of `buffer` was committed to it.
pub open spec fn committed(record: AccountView<IdlAccount>, buffer: AccountView<IdlAccount>) -> AccountView<
    IdlAccount,
> {
    AccountView {
        account: IdlAccount { data_len: buffer.account.data_len, ..record.account },
        trailing: written(
            record.trailing,
            0,
            buffer.trailing.subrange(0, buffer.account.data_len as int),
        ),
        ..record
    }
}

/// Commits the buffer to the record, where the record is at `address`, the
/// address that was derived for it.
pub fn set_buffer_at(ctx: &mut IdlSetBuffer, address: Option<Pubkey>) -> (done: Result<
    (),
    Rejection<MyError>,
>)
    ensures
        match set_buffer_refusal(
            old(ctx).buffer@,
            old(ctx).idl@,
            old(ctx).authority.key,
            address == Some(old(ctx).idl.key),
        ) {
            Some(rejection) => done matches Err(e) && e == rejection && *final(ctx) == *old(ctx),
            None => {
                &&& done is Ok
                &&& final(ctx).idl@ == committed(old(ctx).idl@, old(ctx).buffer@)
                &&& final(ctx).buffer == old(ctx).buffer
                &&& final(ctx).authority == old(ctx).authority
                &&& final(ctx).program_id == old(ctx).program_id
            },
        },
        done is Err ==> *final(ctx) == *old(ctx),
        done is Ok ==> {
            &&& is_sound(final(ctx).idl@)
            &&& content(final(ctx).idl@).payload() == content(old(ctx).buffer@).payload()
        },
{
    if !ctx.buffer.initialized || !ctx.idl.initialized {
        return Err(Rejection::AccountNotInitialized);
    }
    if !same_key(&ctx.idl.account.authority, &ctx.authority.key) {
        return Err(Rejection::ConstraintHasOne);
    }
    if !is_some_key(&address, &ctx.idl.key) {
        return Err(Rejection::ConstraintSeeds);
    }
    if is_erased(&ctx.authority.key) {
        return Err(Rejection::ConstraintRaw);
    }
    let buffer_len: usize = ctx.buffer.account.data_len as usize;
    if buffer_len > ctx.buffer.trailing.len() {
        return Err(Rejection::CapacityExceeded);
    }
    if buffer_len > ctx.idl.trailing.len() {
        return Err(Rejection::CapacityExceeded);
    }
    proof {
        lemma_replace_payload(ctx.idl.trailing@, content(ctx.buffer@).payload());
    }
    let source = slice_subrange(ctx.buffer.trailing_data(), 0, buffer_len);
    let target = ctx.idl.trailing_data_mut();
    write_at(target, 0, source);
    ctx.idl.account.data_len = ctx.buffer.account.data_len;
    Ok(())
}

/// Commits the buffer to the record of class `seed`: its length and its
/// content replace those of the record, both or neither.
///
/// The signer must be the authority of the record; whose the buffer is does
/// not matter. The record must have room for the content: trailing bytes of
/// the record beyond the new length stay as they are.
pub fn set_buffer(ctx: &mut IdlSetBuffer, seed: String) -> (done: Result<(), Rejection<MyError>>)
    ensures
        match set_buffer_refusal(
            old(ctx).buffer@,
            old(ctx).idl@,
            old(ctx).authority.key,
            record_key(encode_utf8(seed@), old(ctx).program_id@) == Some(old(ctx).idl.key@),
        ) {
            Some(rejection) => done matches Err(e) && e == rejection && *final(ctx) == *old(ctx),
            None => {
                &&& done is Ok
                &&& final(ctx).idl@ == committed(old(ctx).idl@, old(ctx).buffer@)
                &&& final(ctx).buffer == old(ctx).buffer
                &&& final(ctx).authority == old(ctx).authority
                &&& final(ctx).program_id == old(ctx).program_id
            },
        },
        done is Err ==> *final(ctx) == *old(ctx),
        done is Ok ==> {
            &&& is_sound(final(ctx).idl@)
            &&& content(final(ctx).idl@).payload() == content(old(ctx).buffer@).payload()
        },
{
    let address = record_address(seed.as_str(), &ctx.program_id);
    proof {
        if let Some(key) = address {
            if key@ == ctx.idl.key@ {
                assert(key =~= ctx.idl.key);
            }
        }
    }
    set_buffer_at(ctx, address)
}

/// The record-kind tag of a record or buffer of this program.
pub open spec fn discriminator() -> Seq<u8> {
    seq![140u8, 36, 166, 2, 103, 197, 33, 164]
}

/// The bytes of an account on the ledger: the record-kind tag, which is zero
/// in a blank account; the authority; the length, little end first; the
/// trailing bytes.
pub open spec fn account_data(account: AccountView<IdlAccount>) -> Seq<u8> {
    record_kind(account.initialized, discriminator()) + account.account.authority@
        + spec_u32_to_le_bytes(account.account.data_len) + account.trailing
}

/// The record-kind tag, as it stands in an account: a tag that is set, or
/// eight zero bytes.
fn kind_tag(initialized: bool) -> (tag: [u8; 8])
    ensures
        tag@ == record_kind(initialized, discriminator()),
        initialized ==> tag@ != zeros(8),
{
    if initialized {
        let tag = [140u8, 36, 166, 2, 103, 197, 33, 164];
        assert(tag@ =~= discriminator());
        assert(tag@[0] != zeros(8)[0]);
        tag
    } else {
        let tag = [0u8; 8];
        assert(tag@ =~= zeros(8));
        tag
    }
}

/// The bytes of an account on the ledger.
pub fn to_account_data(account: &Account<IdlAccount>) -> (data: Vec<u8>)
    ensures
        data@ == account_data(account@),
{
    let mut data: Vec<u8> = Vec::new();
    let tag = kind_tag(account.initialized);
    append_bytes(&mut data, tag.as_slice());
    append_bytes(&mut data, account.account.authority.as_slice());
    let data_len = u32_to_le_bytes(account.account.data_len);
    append_bytes(&mut data, data_len.as_slice());
    append_bytes(&mut data, account.trailing.as_slice());
    data
}

/// Whether `data` are the bytes of an account of this program: long enough
/// for the header, with the record-kind tag of this program or with none.
pub open spec fn is_account_data(data: Seq<u8>) -> bool {
    &&& data.len() >= IDL_ACCOUNT_SIZE
    &&& (data.subrange(0, 8) == discriminator() || data.subrange(0, 8) == zeros(8))
}

/// The account at `key` whose bytes on the ledger are `data`; `None` where
/// they are not the bytes of an account of this program.
pub fn from_account_data(key: Pubkey, lamports: u64, data: &[u8]) -> (account: Option<
    Account<IdlAccount>,
>)
    ensures
        account is Some <==> is_account_data(data@),
        account matches Some(a) ==> a.key == key && a.lamports == lamports && account_data(a@)
            == data@,
{
    if data.len() < IDL_ACCOUNT_SIZE {
        return None;
    }
    let tag = kind_tag(true);
    let initialized = match kind_of(data, &tag) {
        Some(initialized) => initialized,
        None => {
            return None;
        },
    };
    let account = Account {
        key,
        lamports,
        initialized,
        account: IdlAccount {
            authority: key_at(data, 8),
            data_len: u32_from_le_bytes(slice_subrange(data, 40, 44)),
        },
        trailing: slice_to_vec(slice_subrange(data, 44, data.len())),
    };
    proof {
        lemma_auto_spec_u32_to_from_le_bytes();
        assert(account_data(account@) =~= data@);
    }
    Some(account)
}

} // verus!
