//! The driver of an upload or a download: what to ask of the ledger and what
//! to send to it, step by step, for a blob and a module.
//!
//! Nothing here talks to the ledger. The caller does: it performs the action
//! that the driver names, and hands back what came of it.

use crate::codec::{gunzip, gzip, gzip_decode, gzip_encode};
use crate::keys::{
    bpf_loader_upgradeable_id, bpf_loader_upgradeable_key, find_program_address, parse_key, parsed_key,
    program_address, seeds_view, Pubkey,
};
use crate::data_type::{lemma_tag_round_trip, tag_of, text_of, write_tag};
use crate::metadata_program::{
    record_address, record_key, DATA_TYPE_IDL_JSON, DATA_TYPE_META_JSON,
};
use vstd::bytes::{spec_u32_from_le_bytes, u32_from_le_bytes};
use vstd::prelude::*;
use vstd::slice::{slice_subrange, slice_to_vec};
use vstd::string::{is_ascii, is_ascii_spec_bytes, StringSliceAdditionalSpecFns};
use vstd::utf8::{decode_utf8, valid_utf8};

verus! {

/// The seed of the records that hold interface descriptions.
pub const IDL_SEED: &'static str = "idl";

/// The seed of the records that hold free-form metadata.
pub const METADATA_SEED: &'static str = "metadata";

/// Where the payload starts in a record's bytes: the bytes of a record's
/// header. A buffer is allocated with as many bytes and those of the blob, so
/// that a record of the buffer's size has room for the blob.
pub const METADATA_OFFSET: usize = 92;

/// The most that one transaction appends to a buffer, in bytes.
pub const CHUNK_SIZE: u16 = 900;

/// The most by which one instruction grows a record, in bytes.
pub const MAX_RESIZE_STEP: u16 = 10240;

/// How often a read is tried after a transaction before it is given up.
pub const READ_ATTEMPTS: u32 = 10;

/// How long to wait before a read is tried again, in seconds.
pub const READ_RETRY_DELAY_SECS: u64 = 2;

/// The two classes of records that a module may have.
#[derive(Clone, Copy, Debug, PartialEq, Eq)]
pub enum RecordClass {
    Idl,
    Metadata,
}

impl RecordClass {
    /// The seed that tells the class apart in a record's address.
    pub open spec fn spec_seed(self) -> &'static str {
        match self {
            RecordClass::Idl => IDL_SEED,
            RecordClass::Metadata => METADATA_SEED,
        }
    }

    /// The seed that tells the class apart in a record's address.
    #[verifier::when_used_as_spec(spec_seed)]
    pub fn seed(self) -> (seed: &'static str)
        ensures
            seed == self.spec_seed(),
    {
        match self {
            RecordClass::Idl => IDL_SEED,
            RecordClass::Metadata => METADATA_SEED,
        }
    }

    /// The data type of what is uploaded to a record of the class.
    pub open spec fn spec_data_type(self) -> &'static str {
        match self {
            RecordClass::Idl => DATA_TYPE_IDL_JSON,
            RecordClass::Metadata => DATA_TYPE_META_JSON,
        }
    }

    /// The data type of what is uploaded to a record of the class.
    #[verifier::when_used_as_spec(spec_data_type)]
    pub fn data_type(self) -> (data_type: &'static str)
        ensures
            data_type == self.spec_data_type(),
    {
        match self {
            RecordClass::Idl => DATA_TYPE_IDL_JSON,
            RecordClass::Metadata => DATA_TYPE_META_JSON,
        }
    }
}

/// Why an upload stopped.
#[derive(Clone, Copy, Debug, PartialEq, Eq)]
pub enum UploadError {
    /// The file could not be read.
    FileUnreadable,
    /// The request for the URL failed.
    FetchFailed,
    /// The URL answered with a status that is no success.
    HttpStatus(u16),
    /// The body of the answer could not be read.
    BodyUnreadable,
    /// The module's address is no key.
    InvalidProgramId,
    /// No address can be derived for the record or the program data.
    NoAddress,
    /// The simulation of a transaction failed.
    SimulationFailed,
    /// The compute units of a transaction do not fit their type.
    ComputeBudgetOverflow,
    /// The compressor failed.
    CompressionFailed,
    /// The record cannot be given the size that it needs: a record has
    /// 65535 bytes at most.
    SizeOverflow,
    /// The deposit for the buffer could not be learnt.
    RentUnavailable,
    /// A transaction was not confirmed.
    SendFailed,
    /// An account did not show after the last attempt.
    AccountUnavailable,
    /// An answer came that the step at hand does not expect.
    UnexpectedEvent,
}

/// Why a download stopped.
#[derive(Clone, Copy, Debug, PartialEq, Eq)]
pub enum DownloadError {
    /// The module's address is no key.
    InvalidProgramId,
    /// No address can be derived for the record.
    NoAddress,
    /// The record could not be read.
    AccountUnavailable,
    /// The record is shorter than its header, or than the content it claims.
    Truncated,
    /// The content is no gzip stream.
    Corrupt,
}

/// An instruction of a transaction. The system program, and the program that
/// a new account is assigned to, are always the same and are left out.
#[derive(Clone, Copy, Debug, PartialEq, Eq)]
pub enum Instruction {
    /// What to pay per compute unit, in micro-lamports.
    SetComputeUnitPrice(u64),
    /// The most compute units that the transaction may use.
    SetComputeUnitLimit(u32),
    /// Allocates the blank account `to` of `space` bytes, paid by `from`.
    CreateAccount { from: Pubkey, to: Pubkey, lamports: u64, space: u64 },
    /// Sets up the record `pda` of the module `program_id`, with the data
    /// type whose tag is `data_type`.
    Initialize {
        pda: Pubkey,
        signer: Pubkey,
        program_id: Pubkey,
        program_data: Pubkey,
        data_type: [u8; 16],
        seed: RecordClass,
    },
    /// Sets up a buffer in the blank account `buffer`, with the data type
    /// whose tag is `data_type`.
    CreateBuffer { buffer: Pubkey, authority: Pubkey, data_type: [u8; 16] },
    /// Appends the bytes from `start` up to `end` of the compressed blob.
    WriteBuffer { buffer: Pubkey, signer: Pubkey, start: usize, end: usize },
    /// Gives the record `pda` `len` bytes in all.
    Resize { pda: Pubkey, signer: Pubkey, len: u16 },
    /// Commits the buffer to the record `pda` of the module `program_id`.
    SetBuffer { buffer: Pubkey, pda: Pubkey, authority: Pubkey, program_id: Pubkey, program_data: Pubkey },
    /// Closes the buffer; its deposit goes to `authority`.
    CloseBuffer { buffer: Pubkey, authority: Pubkey },
}

/// The address of the record of class `seed` that describes the module
/// `program_pubkey`, or `None` where none can be derived.
pub fn get_metadata_address(seed: &str, program_pubkey: &Pubkey) -> (address: Option<Pubkey>)
    ensures
        match address {
            Some(key) => record_key(program_pubkey@, seed.spec_bytes()) == Some(key@),
            None => record_key(program_pubkey@, seed.spec_bytes()) is None,
        },
{
    match record_address(program_pubkey, seed) {
        Some((key, _)) => Some(key),
        None => None,
    }
}

/// The address of the program-data account of an upgradeable module, should
/// there be one.
pub open spec fn program_data_key(module: Seq<u8>) -> Option<Seq<u8>> {
    match program_address(seq![module], bpf_loader_upgradeable_key()) {
        Some((key, _)) => Some(key),
        None => None,
    }
}

/// The address of the program-data account of the module `program_pubkey`.
pub fn get_program_data_address(program_pubkey: &Pubkey) -> (address: Option<Pubkey>)
    ensures
        match address {
            Some(key) => program_data_key(program_pubkey@) == Some(key@),
            None => program_data_key(program_pubkey@) is None,
        },
{
    let mut seeds: Vec<Vec<u8>> = Vec::new();
    seeds.push(slice_to_vec(program_pubkey.as_slice()));
    assert(seeds_view(&seeds) =~= seq![program_pubkey@]);
    let loader = bpf_loader_upgradeable_id();
    match find_program_address(&seeds, &loader) {
        Some((key, _)) => Some(key),
        None => None,
    }
}

/// Where the chunk that starts at `offset` ends, in a blob of `len` bytes:
/// [`CHUNK_SIZE`] bytes on, or at the blob's end where that is nearer.
pub open spec fn chunk_end(offset: nat, len: nat) -> nat {
    if offset >= len {
        len
    } else if len - offset > CHUNK_SIZE {
        offset + CHUNK_SIZE as nat
    } else {
        len
    }
}

/// The chunks of `data` from `offset` on, in the order in which they are
/// written.
pub open spec fn chunks_from(data: Seq<u8>, offset: nat) -> Seq<Seq<u8>>
    decreases data.len() - offset,
{
    if offset >= data.len() {
        Seq::empty()
    } else {
        seq![data.subrange(offset as int, chunk_end(offset, data.len()) as int)] + chunks_from(
            data,
            chunk_end(offset, data.len()),
        )
    }
}

/// The sizes that a record is given one after the other to grow it from
/// `current` bytes to `target` bytes, no step beyond [`MAX_RESIZE_STEP`].
pub open spec fn growth_steps(current: nat, target: nat) -> Seq<nat>
    decreases target - current,
{
    if current >= target {
        Seq::empty()
    } else if target - current > MAX_RESIZE_STEP {
        seq![current + MAX_RESIZE_STEP as nat] + growth_steps(current + MAX_RESIZE_STEP as nat, target)
    } else {
        seq![target]
    }
}

/// The sizes that a record of `record_size` bytes is given one after the
/// other so that it has the `buffer_size` bytes of the buffer: one step down,
/// or as many steps up as it takes.
pub open spec fn resize_steps(record_size: nat, buffer_size: nat) -> Seq<nat> {
    if buffer_size < record_size {
        seq![buffer_size]
    } else {
        growth_steps(record_size, buffer_size)
    }
}

/// Whether every size on the way from `record_size` to `buffer_size` can be
/// written into a resize instruction, whose length has sixteen bits.
pub open spec fn steps_fit(record_size: nat, buffer_size: nat) -> bool {
    buffer_size == record_size || buffer_size <= u16::MAX
}

/// The length that a resize instruction carries for a size.
pub open spec fn resize_len(size: nat) -> u16
    recommends
        size <= u16::MAX,
{
    size as u16
}

/// The fixed parts of the instructions of one upload.
#[derive(Clone, Copy, Debug, PartialEq, Eq)]
pub struct Accounts {
    pub class: RecordClass,
    /// The module that the record describes.
    pub program: Pubkey,
    /// Who pays and signs; the authority of the record and of the buffer.
    pub signer: Pubkey,
    /// The address of the buffer, fresh for this upload.
    pub buffer: Pubkey,
    /// The address of the record.
    pub metadata_address: Pubkey,
    /// The address of the module's program-data account.
    pub program_data_address: Pubkey,
    /// The tag of the data type of what is uploaded.
    pub data_type: [u8; 16],
    pub priority_fees_per_cu: u64,
}

impl Accounts {
    /// The instruction that sets up the record.
    pub open spec fn initialize_instruction(self) -> Instruction {
        Instruction::Initialize {
            pda: self.metadata_address,
            signer: self.signer,
            program_id: self.program,
            program_data: self.program_data_address,
            data_type: self.data_type,
            seed: self.class,
        }
    }

    /// The instruction that gives the record `size` bytes.
    pub open spec fn resize_instruction(self, size: nat) -> Instruction {
        Instruction::Resize { pda: self.metadata_address, signer: self.signer, len: resize_len(size) }
    }

    /// The instruction that commits the buffer to the record.
    pub open spec fn set_buffer_instruction(self) -> Instruction {
        Instruction::SetBuffer {
            buffer: self.buffer,
            pda: self.metadata_address,
            authority: self.signer,
            program_id: self.program,
            program_data: self.program_data_address,
        }
    }

    /// The transaction that sets up the record, with `units` compute units.
    pub open spec fn initialize_transaction(self, units: u32) -> Seq<Instruction> {
        seq![
            Instruction::SetComputeUnitPrice(self.priority_fees_per_cu),
            Instruction::SetComputeUnitLimit(units),
            self.initialize_instruction(),
        ]
    }

    /// The transaction that allocates the buffer with `space` bytes and the
    /// deposit `rent`, and sets it up.
    pub open spec fn create_buffer_transaction(self, rent: u64, space: u64) -> Seq<Instruction> {
        seq![
            Instruction::SetComputeUnitPrice(self.priority_fees_per_cu),
            Instruction::SetComputeUnitLimit(5000),
            Instruction::CreateAccount { from: self.signer, to: self.buffer, lamports: rent, space: space },
            Instruction::CreateBuffer {
                buffer: self.buffer,
                authority: self.signer,
                data_type: self.data_type,
            },
        ]
    }

    /// The transaction that appends the chunk from `start` to `end`.
    pub open spec fn write_buffer_transaction(self, start: usize, end: usize) -> Seq<Instruction> {
        seq![
            Instruction::SetComputeUnitPrice(self.priority_fees_per_cu),
            Instruction::SetComputeUnitLimit(3000),
            Instruction::WriteBuffer { buffer: self.buffer, signer: self.signer, start: start, end: end },
        ]
    }

    /// The last transaction: the record of `record_size` bytes is given the
    /// `buffer_size` bytes of the buffer, the buffer is committed to it, and
    /// the buffer is closed. Empty where a size on the way cannot be written
    /// into a resize instruction.
    pub open spec fn set_and_close_buffer_transaction(self, record_size: nat, buffer_size: nat) -> Seq<
        Instruction,
    > {
        if !steps_fit(record_size, buffer_size) {
            Seq::empty()
        } else {
            seq![
                Instruction::SetComputeUnitPrice(self.priority_fees_per_cu),
                Instruction::SetComputeUnitLimit(200000),
            ] + resize_steps(record_size, buffer_size).map(
                |i: int, size: nat| self.resize_instruction(size),
            ) + seq![
                self.set_buffer_instruction(),
                Instruction::CloseBuffer { buffer: self.buffer, authority: self.signer },
            ]
        }
    }
}

/// The transaction that sets up the record, with `units` compute units.
pub fn initialize(accounts: &Accounts, units: u32) -> (transaction: Vec<Instruction>)
    ensures
        transaction@ == accounts.initialize_transaction(units),
{
    let mut transaction: Vec<Instruction> = Vec::new();
    transaction.push(Instruction::SetComputeUnitPrice(accounts.priority_fees_per_cu));
    transaction.push(Instruction::SetComputeUnitLimit(units));
    transaction.push(
        Instruction::Initialize {
            pda: accounts.metadata_address,
            signer: accounts.signer,
            program_id: accounts.program,
            program_data: accounts.program_data_address,
            data_type: accounts.data_type,
            seed: accounts.class,
        },
    );
    assert(transaction@ =~= accounts.initialize_transaction(units));
    transaction
}

/// The transaction that allocates the buffer with `space` bytes and the
/// deposit `rent`, and sets it up.
pub fn create_buffer(accounts: &Accounts, rent: u64, space: u64) -> (transaction: Vec<Instruction>)
    ensures
        transaction@ == accounts.create_buffer_transaction(rent, space),
{
    let mut transaction: Vec<Instruction> = Vec::new();
    transaction.push(Instruction::SetComputeUnitPrice(accounts.priority_fees_per_cu));
    transaction.push(Instruction::SetComputeUnitLimit(5000));
    transaction.push(
        Instruction::CreateAccount {
            from: accounts.signer,
            to: accounts.buffer,
            lamports: rent,
            space,
        },
    );
    transaction.push(
        Instruction::CreateBuffer {
            buffer: accounts.buffer,
            authority: accounts.signer,
            data_type: accounts.data_type,
        },
    );
    assert(transaction@ =~= accounts.create_buffer_transaction(rent, space));
    transaction
}

/// Where the chunk that starts at `offset` ends, in a blob of `len` bytes.
pub fn next_chunk_end(offset: usize, len: usize) -> (end: usize)
    ensures
        end == chunk_end(offset as nat, len as nat),
{
    if offset >= len {
        len
    } else if len - offset > CHUNK_SIZE as usize {
        offset + CHUNK_SIZE as usize
    } else {
        len
    }
}

/// The transaction that appends the chunk that starts at `offset`, of a
/// compressed blob of `len` bytes.
pub fn write_buffer(accounts: &Accounts, offset: usize, len: usize) -> (transaction: Vec<Instruction>)
    ensures
        transaction@ == accounts.write_buffer_transaction(
            offset,
            chunk_end(offset as nat, len as nat) as usize,
        ),
{
    let end = next_chunk_end(offset, len);
    let mut transaction: Vec<Instruction> = Vec::new();
    transaction.push(Instruction::SetComputeUnitPrice(accounts.priority_fees_per_cu));
    transaction.push(Instruction::SetComputeUnitLimit(3000));
    transaction.push(
        Instruction::WriteBuffer { buffer: accounts.buffer, signer: accounts.signer, start: offset, end },
    );
    assert(transaction@ =~= accounts.write_buffer_transaction(offset, end));
    transaction
}

/// The last transaction of an upload, which gives the record of
/// `record_size` bytes the `target_size` bytes of the buffer, commits and
/// closes; empty where a size on the way cannot be written into a resize
/// instruction.
pub fn last_transaction(accounts: &Accounts, record_size: usize, target_size: usize) -> (instructions:
    Vec<Instruction>)
    ensures
        instructions@ == accounts.set_and_close_buffer_transaction(
            record_size as nat,
            target_size as nat,
        ),
{
    let mut instructions: Vec<Instruction> = Vec::new();
    if target_size != record_size && target_size > u16::MAX as usize {
        return instructions;
    }
    instructions.push(Instruction::SetComputeUnitPrice(accounts.priority_fees_per_cu));
    instructions.push(Instruction::SetComputeUnitLimit(200000));
    let ghost head = instructions@;
    let ghost steps = resize_steps(record_size as nat, target_size as nat);
    let ghost resize = |i: int, size: nat| accounts.resize_instruction(size);
    if target_size < record_size {
        instructions.push(
            Instruction::Resize {
                pda: accounts.metadata_address,
                signer: accounts.signer,
                len: target_size as u16,
            },
        );
        assert(instructions@ =~= head + steps.map(resize));
    } else {
        let mut current_size: usize = record_size;
        let ghost mut done: Seq<nat> = Seq::empty();
        assert(instructions@ =~= head + done.map(resize));
        while current_size < target_size
            invariant
                current_size <= target_size,
                record_size <= current_size,
                steps_fit(record_size as nat, target_size as nat),
                resize == |i: int, size: nat| accounts.resize_instruction(size),
                instructions@ == head + done.map(resize),
                steps == growth_steps(record_size as nat, target_size as nat),
                steps == done + growth_steps(current_size as nat, target_size as nat),
            decreases target_size - current_size,
        {
            let next_size: usize = if target_size - current_size > MAX_RESIZE_STEP as usize {
                current_size + MAX_RESIZE_STEP as usize
            } else {
                target_size
            };
            instructions.push(
                Instruction::Resize {
                    pda: accounts.metadata_address,
                    signer: accounts.signer,
                    len: next_size as u16,
                },
            );
            proof {
                let rest = growth_steps(next_size as nat, target_size as nat);
                assert(growth_steps(current_size as nat, target_size as nat) =~= seq![next_size as nat]
                    + rest);
                assert(done.push(next_size as nat) + rest =~= done + (seq![next_size as nat] + rest));
                assert(done.push(next_size as nat).map(resize) =~= done.map(resize).push(
                    accounts.resize_instruction(next_size as nat),
                ));
                done = done.push(next_size as nat);
            }
            current_size = next_size;
        }
        assert(steps =~= done);
    }
    instructions.push(
        Instruction::SetBuffer {
            buffer: accounts.buffer,
            pda: accounts.metadata_address,
            authority: accounts.signer,
            program_id: accounts.program,
            program_data: accounts.program_data_address,
        },
    );
    instructions.push(Instruction::CloseBuffer { buffer: accounts.buffer, authority: accounts.signer });
    assert(instructions@ =~= accounts.set_and_close_buffer_transaction(
        record_size as nat,
        target_size as nat,
    ));
    instructions
}

/// The last transaction of an upload, for a record of `idl_account_size`
/// bytes and a buffer of `buffer_account_size` bytes.
///
/// A record that is larger than the buffer is cut to the buffer's size in one
/// step. One that is smaller grows to it in steps of [`MAX_RESIZE_STEP`] bytes
/// at most, the smallest size first. Then the buffer is committed and closed:
/// all of it in one transaction, so that all of it happens or nothing.
///
/// There is no transaction where a size on the way has more than the sixteen
/// bits of a resize instruction's length: then nothing is to be sent.
pub fn set_and_close_buffer(
    accounts: &Accounts,
    idl_account_size: usize,
    buffer_account_size: usize,
) -> (instructions: Option<Vec<Instruction>>)
    ensures
        match instructions {
            Some(transaction) => steps_fit(idl_account_size as nat, buffer_account_size as nat)
                && transaction@ == accounts.set_and_close_buffer_transaction(
                idl_account_size as nat,
                buffer_account_size as nat,
            ),
            None => !steps_fit(idl_account_size as nat, buffer_account_size as nat),
        },
{
    if buffer_account_size != idl_account_size && buffer_account_size > u16::MAX as usize {
        None
    } else {
        Some(last_transaction(accounts, idl_account_size, buffer_account_size))
    }
}

/// What a read that failed leads to.
#[derive(Clone, Copy, Debug, PartialEq, Eq)]
pub enum Retry {
    /// Wait `delay_secs` seconds and read again; `attempts` reads have failed.
    Again { attempts: u32, delay_secs: u64 },
    /// The last attempt has failed.
    GiveUp,
}

/// What follows when a read fails after `attempts` reads have failed before
/// it, where `max_attempts` reads are made at most.
pub open spec fn retry_after(attempts: u32, max_attempts: u32, retry_delay_secs: u64) -> Retry {
    if attempts + 1 >= max_attempts {
        Retry::GiveUp
    } else {
        Retry::Again { attempts: (attempts + 1) as u32, delay_secs: retry_delay_secs }
    }
}

/// Decides what follows when a read of an account has failed: another read
/// after a fixed delay, until `max_attempts` reads have failed.
pub fn get_account_with_retry(attempts: u32, max_attempts: u32, retry_delay_secs: u64) -> (next: Retry)
    ensures
        next == retry_after(attempts, max_attempts, retry_delay_secs),
{
    if max_attempts == 0 || attempts >= max_attempts - 1 {
        Retry::GiveUp
    } else {
        Retry::Again { attempts: attempts + 1, delay_secs: retry_delay_secs }
    }
}

/// Where an upload stands: what was asked of the ledger last.
#[derive(Clone, Copy, Debug, PartialEq, Eq)]
pub enum Phase {
    /// Whether there is an account at the record's address.
    Probing,
    /// A simulation of the transaction that sets up the record.
    Simulating,
    /// The transaction that sets up the record, with `units` compute units.
    Initializing { units: u32 },
    /// The deposit for a buffer of `space` bytes.
    Renting { space: usize },
    /// The transaction that allocates and sets up the buffer.
    Creating { rent: u64, space: usize },
    /// The transaction that appends the chunk that starts at `offset`.
    Writing { offset: usize },
    /// The record, to learn its size; `attempts` reads have failed.
    ReadingRecord { attempts: u32 },
    /// The buffer, to learn its size; `attempts` reads have failed.
    ReadingBuffer { record_size: usize, attempts: u32 },
    /// The last transaction, for a record of `record_size` bytes and a
    /// buffer of `buffer_size` bytes.
    Committing { record_size: usize, buffer_size: usize },
    /// The upload is done.
    Done,
    /// The upload has failed.
    Failed(UploadError),
}

/// What came of the action that the driver named.
#[derive(Clone, Copy, Debug, PartialEq, Eq)]
pub enum Event {
    /// The account is there, with `size` bytes.
    Account { size: usize },
    /// The simulation ran and used so many compute units, if it says.
    Simulated { units_consumed: Option<u64> },
    /// The deposit that the ledger asks for.
    Rent { lamports: u64 },
    /// The transaction is confirmed.
    Confirmed,
    /// The request failed; for a read: the account did not show.
    Failed,
}

/// What the caller is to do next.
#[derive(Clone, Copy, Debug, PartialEq, Eq)]
pub enum Action {
    /// Wait `delay_secs` seconds, then read the account at `address` once.
    GetAccount { address: Pubkey, delay_secs: u64 },
    /// Simulate the transaction at hand, signed by the signer.
    Simulate,
    /// Ask for the deposit that frees `space` bytes of rent.
    GetRent { space: usize },
    /// Send the transaction at hand and wait until it is confirmed. The
    /// signer signs, and the buffer too where `buffer_signs`.
    Send { buffer_signs: bool },
    /// Nothing: the upload is done or has failed.
    Stop,
}

/// The phase that follows the simulation: the compute units that it used,
/// cut to thirty-two bits, and two hundred more.
pub open spec fn budgeted(units_consumed: Option<u64>) -> Phase {
    let used: int = match units_consumed {
        Some(units) => (units % 0x1_0000_0000) as int,
        None => 0int,
    };
    if used + 200 > u32::MAX {
        Phase::Failed(UploadError::ComputeBudgetOverflow)
    } else {
        Phase::Initializing { units: (used + 200) as u32 }
    }
}

/// The phase that follows a read that failed.
pub open spec fn reread(attempts: u32, again: spec_fn(u32) -> Phase) -> Phase {
    match retry_after(attempts, READ_ATTEMPTS, READ_RETRY_DELAY_SECS) {
        Retry::Again { attempts, delay_secs } => again(attempts),
        Retry::GiveUp => Phase::Failed(UploadError::AccountUnavailable),
    }
}

/// Whether the event ends the part of the upload that sets up the record, so
/// that the blob is compressed next.
pub open spec fn starts_buffer(phase: Phase, event: Event) -> bool {
    ||| phase is Probing && event is Account
    ||| phase is Initializing && event is Confirmed
}

/// The phase that follows `phase` on `event`, where the blob is not
/// compressed next; `compressed_len` is the length of the compressed blob.
pub open spec fn next_phase(phase: Phase, event: Event, compressed_len: nat) -> Phase {
    match (phase, event) {
        (Phase::Done, _) => phase,
        (Phase::Failed(_), _) => phase,
        (Phase::Probing, Event::Failed) => Phase::Simulating,
        (Phase::Simulating, Event::Simulated { units_consumed }) => budgeted(units_consumed),
        (Phase::Simulating, Event::Failed) => Phase::Failed(UploadError::SimulationFailed),
        (Phase::Initializing { .. }, Event::Failed) => Phase::Failed(UploadError::SendFailed),
        (Phase::Renting { space }, Event::Rent { lamports }) => Phase::Creating { rent: lamports, space },
        (Phase::Renting { .. }, Event::Failed) => Phase::Failed(UploadError::RentUnavailable),
        (Phase::Creating { .. }, Event::Confirmed) => if compressed_len == 0 {
            Phase::ReadingRecord { attempts: 0 }
        } else {
            Phase::Writing { offset: 0 }
        },
        (Phase::Creating { .. }, Event::Failed) => Phase::Failed(UploadError::SendFailed),
        (Phase::Writing { offset }, Event::Confirmed) => if chunk_end(offset as nat, compressed_len)
            < compressed_len {
            Phase::Writing { offset: chunk_end(offset as nat, compressed_len) as usize }
        } else {
            Phase::ReadingRecord { attempts: 0 }
        },
        (Phase::Writing { .. }, Event::Failed) => Phase::Failed(UploadError::SendFailed),
        (Phase::ReadingRecord { .. }, Event::Account { size }) => Phase::ReadingBuffer {
            record_size: size,
            attempts: 0,
        },
        (Phase::ReadingRecord { attempts }, Event::Failed) => reread(
            attempts,
            |attempts: u32| Phase::ReadingRecord { attempts },
        ),
        (Phase::ReadingBuffer { record_size, .. }, Event::Account { size }) => if steps_fit(
            record_size as nat,
            size as nat,
        ) {
            Phase::Committing { record_size, buffer_size: size }
        } else {
            Phase::Failed(UploadError::SizeOverflow)
        },
        (Phase::ReadingBuffer { record_size, attempts }, Event::Failed) => reread(
            attempts,
            |attempts: u32| Phase::ReadingBuffer { record_size, attempts },
        ),
        (Phase::Committing { .. }, Event::Confirmed) => Phase::Done,
        (Phase::Committing { .. }, Event::Failed) => Phase::Failed(UploadError::SendFailed),
        _ => Phase::Failed(UploadError::UnexpectedEvent),
    }
}

/// The transaction to simulate or send in `phase`, for a compressed blob of
/// `compressed_len` bytes; empty in a phase that sends none.
pub open spec fn phase_transaction(accounts: Accounts, phase: Phase, compressed_len: nat) -> Seq<
    Instruction,
> {
    match phase {
        Phase::Simulating => accounts.initialize_transaction(200000),
        Phase::Initializing { units } => accounts.initialize_transaction(units),
        Phase::Creating { rent, space } => accounts.create_buffer_transaction(rent, space as u64),
        Phase::Writing { offset } => accounts.write_buffer_transaction(
            offset,
            chunk_end(offset as nat, compressed_len) as usize,
        ),
        Phase::Committing { record_size, buffer_size } => accounts.set_and_close_buffer_transaction(
            record_size as nat,
            buffer_size as nat,
        ),
        _ => Seq::empty(),
    }
}

/// How long to wait before a read, after `attempts` reads have failed.
pub open spec fn read_delay(attempts: u32) -> u64 {
    if attempts == 0 {
        0
    } else {
        READ_RETRY_DELAY_SECS
    }
}

/// One upload of a blob to the record of a module: the accounts, the blob,
/// and how far the upload has come.
pub struct Upload {
    pub accounts: Accounts,
    /// The blob.
    pub data: Vec<u8>,
    /// The compressed blob; empty until the record is known to be set up.
    pub compressed: Vec<u8>,
    pub phase: Phase,
}

impl Upload {
    /// An upload of `data` that has not asked anything yet.
    pub fn new(accounts: Accounts, data: Vec<u8>) -> (upload: Upload)
        ensures
            upload.accounts == accounts,
            upload.data == data,
            upload.compressed@ == Seq::<u8>::empty(),
            upload.phase == Phase::Probing,
    {
        Upload { accounts, data, compressed: Vec::new(), phase: Phase::Probing }
    }

    /// What the caller is to do in the phase at hand.
    pub open spec fn spec_action(&self) -> Action {
        match self.phase {
            Phase::Probing => Action::GetAccount { address: self.accounts.metadata_address, delay_secs: 0 },
            Phase::Simulating => Action::Simulate,
            Phase::Initializing { .. } => Action::Send { buffer_signs: false },
            Phase::Renting { space } => Action::GetRent { space },
            Phase::Creating { .. } => Action::Send { buffer_signs: true },
            Phase::Writing { .. } => Action::Send { buffer_signs: false },
            Phase::ReadingRecord { attempts } => Action::GetAccount {
                address: self.accounts.metadata_address,
                delay_secs: read_delay(attempts),
            },
            Phase::ReadingBuffer { attempts, .. } => Action::GetAccount {
                address: self.accounts.buffer,
                delay_secs: read_delay(attempts),
            },
            Phase::Committing { .. } => Action::Send { buffer_signs: false },
            Phase::Done => Action::Stop,
            Phase::Failed(_) => Action::Stop,
        }
    }

    /// The transaction to simulate or send in the phase at hand; empty in a
    /// phase that sends none.
    pub open spec fn spec_transaction(&self) -> Seq<Instruction> {
        phase_transaction(self.accounts, self.phase, self.compressed@.len())
    }

    /// What the caller is to do next.
    pub fn action(&self) -> (action: Action)
        ensures
            action == self.spec_action(),
    {
        match self.phase {
            Phase::Probing => Action::GetAccount { address: self.accounts.metadata_address, delay_secs: 0 },
            Phase::Simulating => Action::Simulate,
            Phase::Initializing { .. } => Action::Send { buffer_signs: false },
            Phase::Renting { space } => Action::GetRent { space },
            Phase::Creating { .. } => Action::Send { buffer_signs: true },
            Phase::Writing { .. } => Action::Send { buffer_signs: false },
            Phase::ReadingRecord { attempts } => Action::GetAccount {
                address: self.accounts.metadata_address,
                delay_secs: if attempts == 0 {
                    0
                } else {
                    READ_RETRY_DELAY_SECS
                },
            },
            Phase::ReadingBuffer { attempts, .. } => Action::GetAccount {
                address: self.accounts.buffer,
                delay_secs: if attempts == 0 {
                    0
                } else {
                    READ_RETRY_DELAY_SECS
                },
            },
            Phase::Committing { .. } => Action::Send { buffer_signs: false },
            Phase::Done => Action::Stop,
            Phase::Failed(_) => Action::Stop,
        }
    }

    /// The transaction that the action at hand simulates or sends.
    pub fn transaction(&self) -> (transaction: Vec<Instruction>)
        ensures
            transaction@ == self.spec_transaction(),
    {
        match self.phase {
            Phase::Simulating => initialize(&self.accounts, 200000),
            Phase::Initializing { units } => initialize(&self.accounts, units),
            Phase::Creating { rent, space } => create_buffer(&self.accounts, rent, space as u64),
            Phase::Writing { offset } => write_buffer(&self.accounts, offset, self.compressed.len()),
            Phase::Committing { record_size, buffer_size } => last_transaction(
                &self.accounts,
                record_size,
                buffer_size,
            ),
            _ => Vec::new(),
        }
    }

    /// Takes in the compressed blob, `None` where the compressor failed, and
    /// asks for the deposit of a buffer that holds the header and the
    /// compressed blob.
    ///
    /// A blob that no record can hold ends the upload here, before anything
    /// is sent for the buffer: a record never has more bytes than the sixteen
    /// bits of a resize instruction's length can say.
    pub fn buffer_started(&mut self, compressed: Option<Vec<u8>>)
        ensures
            final(self).accounts == old(self).accounts,
            final(self).data == old(self).data,
            match compressed {
                None => {
                    &&& final(self).phase == Phase::Failed(UploadError::CompressionFailed)
                    &&& final(self).compressed == old(self).compressed
                },
                Some(bytes) => if bytes@.len() + METADATA_OFFSET > u16::MAX {
                    &&& final(self).phase == Phase::Failed(UploadError::SizeOverflow)
                    &&& final(self).compressed == old(self).compressed
                } else {
                    &&& final(self).phase == Phase::Renting {
                        space: (bytes@.len() + METADATA_OFFSET) as usize,
                    }
                    &&& final(self).compressed == bytes
                },
            },
    {
        match compressed {
            None => {
                self.phase = Phase::Failed(UploadError::CompressionFailed);
            },
            Some(compressed) => {
                if compressed.len() > u16::MAX as usize - METADATA_OFFSET {
                    self.phase = Phase::Failed(UploadError::SizeOverflow);
                } else {
                    self.phase = Phase::Renting { space: compressed.len() + METADATA_OFFSET };
                    self.compressed = compressed;
                }
            },
        }
    }

    /// Compresses the blob and asks for the deposit of a buffer that holds
    /// the header and the compressed blob.
    fn start_buffer(&mut self)
        ensures
            final(self).accounts == old(self).accounts,
            final(self).data == old(self).data,
            final(self).starts_buffer_from(*old(self)),
    {
        let compressed = gzip_encode(self.data.as_slice());
        self.buffer_started(compressed)
    }

    /// `self` is what `before` becomes when the blob is compressed. Where
    /// the compressor fails, the upload has failed with `CompressionFailed`;
    /// where no record can hold the gzip stream of the blob, with
    /// `SizeOverflow`; else the upload has that stream and asks for the
    /// deposit of a buffer of that many bytes and the header.
    pub open spec fn starts_buffer_from(&self, before: Upload) -> bool {
        match gzip(before.data@) {
            None => {
                &&& self.phase == Phase::Failed(UploadError::CompressionFailed)
                &&& self.compressed == before.compressed
            },
            Some(stream) => if stream.len() + METADATA_OFFSET > u16::MAX {
                &&& self.phase == Phase::Failed(UploadError::SizeOverflow)
                &&& self.compressed == before.compressed
            } else {
                &&& self.phase == Phase::Renting { space: (stream.len() + METADATA_OFFSET) as usize }
                &&& self.compressed@ == stream
            },
        }
    }

    /// Takes in what came of the last action, and moves on to the next
    /// phase.
    ///
    /// The steps are: see whether the record is there, and set it up if it is
    /// not; compress the blob; allocate a buffer for it; append the blob
    /// chunk by chunk, each chunk once the one before is confirmed; read the
    /// sizes of record and buffer, with some patience; resize, commit and
    /// close in one transaction. A request that fails ends the upload, but
    /// for the first probe, whose failure means that the record is yet to be
    /// set up, and for the reads of the sizes, which are tried again.
    pub fn on_event(&mut self, event: Event)
        ensures
            final(self).accounts == old(self).accounts,
            final(self).data == old(self).data,
            starts_buffer(old(self).phase, event) ==> final(self).starts_buffer_from(*old(self)),
            !starts_buffer(old(self).phase, event) ==> {
                &&& final(self).compressed == old(self).compressed
                &&& final(self).phase == next_phase(old(self).phase, event, old(self).compressed@.len())
            },
    {
        let len: usize = self.compressed.len();
        match (self.phase, event) {
            (Phase::Done, _) => {},
            (Phase::Failed(_), _) => {},
            (Phase::Probing, Event::Account { .. }) => {
                self.start_buffer();
            },
            (Phase::Probing, Event::Failed) => {
                self.phase = Phase::Simulating;
            },
            (Phase::Simulating, Event::Simulated { units_consumed }) => {
                let used: u32 = match units_consumed {
                    Some(units) => (units % 0x1_0000_0000) as u32,
                    None => 0,
                };
                if used > u32::MAX - 200 {
                    self.phase = Phase::Failed(UploadError::ComputeBudgetOverflow);
                } else {
                    self.phase = Phase::Initializing { units: used + 200 };
                }
            },
            (Phase::Simulating, Event::Failed) => {
                self.phase = Phase::Failed(UploadError::SimulationFailed);
            },
            (Phase::Initializing { .. }, Event::Confirmed) => {
                self.start_buffer();
            },
            (Phase::Initializing { .. }, Event::Failed) => {
                self.phase = Phase::Failed(UploadError::SendFailed);
            },
            (Phase::Renting { space }, Event::Rent { lamports }) => {
                self.phase = Phase::Creating { rent: lamports, space };
            },
            (Phase::Renting { .. }, Event::Failed) => {
                self.phase = Phase::Failed(UploadError::RentUnavailable);
            },
            (Phase::Creating { .. }, Event::Confirmed) => {
                if len == 0 {
                    self.phase = Phase::ReadingRecord { attempts: 0 };
                } else {
                    self.phase = Phase::Writing { offset: 0 };
                }
            },
            (Phase::Creating { .. }, Event::Failed) => {
                self.phase = Phase::Failed(UploadError::SendFailed);
            },
            (Phase::Writing { offset }, Event::Confirmed) => {
                let end = next_chunk_end(offset, len);
                if end < len {
                    self.phase = Phase::Writing { offset: end };
                } else {
                    self.phase = Phase::ReadingRecord { attempts: 0 };
                }
            },
            (Phase::Writing { .. }, Event::Failed) => {
                self.phase = Phase::Failed(UploadError::SendFailed);
            },
            (Phase::ReadingRecord { .. }, Event::Account { size }) => {
                self.phase = Phase::ReadingBuffer { record_size: size, attempts: 0 };
            },
            (Phase::ReadingRecord { attempts }, Event::Failed) => {
                match get_account_with_retry(attempts, READ_ATTEMPTS, READ_RETRY_DELAY_SECS) {
                    Retry::Again { attempts, .. } => {
                        self.phase = Phase::ReadingRecord { attempts };
                    },
                    Retry::GiveUp => {
                        self.phase = Phase::Failed(UploadError::AccountUnavailable);
                    },
                }
            },
            (Phase::ReadingBuffer { record_size, .. }, Event::Account { size }) => {
                if size != record_size && size > u16::MAX as usize {
                    self.phase = Phase::Failed(UploadError::SizeOverflow);
                } else {
                    self.phase = Phase::Committing { record_size, buffer_size: size };
                }
            },
            (Phase::ReadingBuffer { record_size, attempts }, Event::Failed) => {
                match get_account_with_retry(attempts, READ_ATTEMPTS, READ_RETRY_DELAY_SECS) {
                    Retry::Again { attempts, .. } => {
                        self.phase = Phase::ReadingBuffer { record_size, attempts };
                    },
                    Retry::GiveUp => {
                        self.phase = Phase::Failed(UploadError::AccountUnavailable);
                    },
                }
            },
            (Phase::Committing { .. }, Event::Confirmed) => {
                self.phase = Phase::Done;
            },
            (Phase::Committing { .. }, Event::Failed) => {
                self.phase = Phase::Failed(UploadError::SendFailed);
            },
            _ => {
                self.phase = Phase::Failed(UploadError::UnexpectedEvent);
            },
        }
    }
}

/// The data types of the two classes fit the tag of a record.
pub proof fn lemma_data_type_fits(class: RecordClass)
    ensures
        class.spec_data_type().spec_bytes().len() <= 16,
{
    reveal_strlit("idl.json");
    reveal_strlit("meta.json");
    assert(is_ascii(DATA_TYPE_IDL_JSON));
    assert(is_ascii(DATA_TYPE_META_JSON));
    is_ascii_spec_bytes(DATA_TYPE_IDL_JSON);
    is_ascii_spec_bytes(DATA_TYPE_META_JSON);
}

/// The data types of the two classes are read back from their tags as they
/// are: the record of an upload says what was uploaded to it.
pub proof fn lemma_data_type_reads_back(class: RecordClass)
    ensures
        valid_utf8(text_of(tag_of(class.spec_data_type().spec_bytes()))),
        decode_utf8(text_of(tag_of(class.spec_data_type().spec_bytes()))) == class.spec_data_type()@,
{
    reveal_strlit("idl.json");
    reveal_strlit("meta.json");
    assert(is_ascii(DATA_TYPE_IDL_JSON));
    assert(is_ascii(DATA_TYPE_META_JSON));
    is_ascii_spec_bytes(DATA_TYPE_IDL_JSON);
    is_ascii_spec_bytes(DATA_TYPE_META_JSON);
    lemma_tag_round_trip(class.spec_data_type());
}

/// The upload that starts for a module whose address parses to `program`
/// (or to nothing), or why none starts.
pub open spec fn upload_started(
    upload_data: Vec<u8>,
    program: Option<Seq<u8>>,
    signer: Pubkey,
    buffer: Pubkey,
    priority_fees_per_cu: u64,
    class: RecordClass,
    started: Result<Upload, UploadError>,
) -> bool {
    match program {
        None => started matches Err(e) && e == UploadError::InvalidProgramId,
        Some(module) => {
            if record_key(module, class.spec_seed().spec_bytes()) is None || program_data_key(module)
                is None {
                started matches Err(e) && e == UploadError::NoAddress
            } else {
                started matches Ok(upload) && {
                    &&& upload.accounts.class == class
                    &&& upload.accounts.program@ == module
                    &&& upload.accounts.signer == signer
                    &&& upload.accounts.buffer == buffer
                    &&& Some(upload.accounts.metadata_address@) == record_key(
                        module,
                        class.spec_seed().spec_bytes(),
                    )
                    &&& upload.accounts.data_type@ == tag_of(class.spec_data_type().spec_bytes())
                    &&& Some(upload.accounts.program_data_address@) == program_data_key(module)
                    &&& upload.accounts.priority_fees_per_cu == priority_fees_per_cu
                    &&& upload.data == upload_data
                    &&& upload.compressed@ == Seq::<u8>::empty()
                    &&& upload.phase == Phase::Probing
                }
            }
        },
    }
}

/// Starts the upload of `upload_data` to the record of class `class` of the
/// module `program_id`. `signer` pays and becomes the authority; `buffer` is
/// the address of a new account, which the caller chose.
pub fn upload_data_from_bytes(
    upload_data: Vec<u8>,
    program_id: &str,
    signer: Pubkey,
    buffer: Pubkey,
    priority_fees_per_cu: u64,
    class: RecordClass,
) -> (started: Result<Upload, UploadError>)
    ensures
        upload_started(
            upload_data,
            parsed_key(program_id@),
            signer,
            buffer,
            priority_fees_per_cu,
            class,
            started,
        ),
{
    let program = match parse_key(program_id) {
        Some(program) => program,
        None => {
            return Err(UploadError::InvalidProgramId);
        },
    };
    let metadata_address = match get_metadata_address(class.seed(), &program) {
        Some(address) => address,
        None => {
            return Err(UploadError::NoAddress);
        },
    };
    let program_data_address = match get_program_data_address(&program) {
        Some(address) => address,
        None => {
            return Err(UploadError::NoAddress);
        },
    };
    let mut data_type = [0u8; 16];
    proof {
        lemma_data_type_fits(class);
    }
    let fits = write_tag(&mut data_type, class.data_type());
    assert(fits);
    let accounts = Accounts {
        class,
        program,
        signer,
        buffer,
        metadata_address,
        program_data_address,
        data_type,
        priority_fees_per_cu,
    };
    Ok(Upload::new(accounts, upload_data))
}

/// Starts the upload of the content of a file, as it was read: `None` where
/// the file could not be read.
pub fn upload_data_by_file_path(
    file: Option<Vec<u8>>,
    program_id: &str,
    signer: Pubkey,
    buffer: Pubkey,
    priority_fees_per_cu: u64,
    class: RecordClass,
) -> (started: Result<Upload, UploadError>)
    ensures
        match file {
            None => started matches Err(e) && e == UploadError::FileUnreadable,
            Some(upload_data) => upload_started(
                upload_data,
                parsed_key(program_id@),
                signer,
                buffer,
                priority_fees_per_cu,
                class,
                started,
            ),
        },
{
    match file {
        None => Err(UploadError::FileUnreadable),
        Some(upload_data) => upload_data_from_bytes(
            upload_data,
            program_id,
            signer,
            buffer,
            priority_fees_per_cu,
            class,
        ),
    }
}

/// Starts the upload of an interface description from the content of a
/// file.
pub fn upload_idl_by_file_path(
    file: Option<Vec<u8>>,
    program_id: &str,
    signer: Pubkey,
    buffer: Pubkey,
    priority_fees_per_cu: u64,
) -> (started: Result<Upload, UploadError>)
    ensures
        match file {
            None => started matches Err(e) && e == UploadError::FileUnreadable,
            Some(upload_data) => upload_started(
                upload_data,
                parsed_key(program_id@),
                signer,
                buffer,
                priority_fees_per_cu,
                RecordClass::Idl,
                started,
            ),
        },
{
    upload_data_by_file_path(file, program_id, signer, buffer, priority_fees_per_cu, RecordClass::Idl)
}

/// Starts the upload of metadata from the content of a file.
pub fn upload_metadata_by_file_path(
    file: Option<Vec<u8>>,
    program_id: &str,
    signer: Pubkey,
    buffer: Pubkey,
    priority_fees_per_cu: u64,
) -> (started: Result<Upload, UploadError>)
    ensures
        match file {
            None => started matches Err(e) && e == UploadError::FileUnreadable,
            Some(upload_data) => upload_started(
                upload_data,
                parsed_key(program_id@),
                signer,
                buffer,
                priority_fees_per_cu,
                RecordClass::Metadata,
                started,
            ),
        },
{
    upload_data_by_file_path(
        file,
        program_id,
        signer,
        buffer,
        priority_fees_per_cu,
        RecordClass::Metadata,
    )
}

/// The answer to a request for a URL.
pub struct Response {
    /// The status code.
    pub status: u16,
    /// The body; `None` where it could not be read.
    pub body: Option<Vec<u8>>,
}

/// The body of the answer, or why there is none.
pub open spec fn fetched(response: Option<Response>) -> Result<Vec<u8>, UploadError> {
    match response {
        None => Err(UploadError::FetchFailed),
        Some(response) => {
            if !(200 <= response.status < 300) {
                Err(UploadError::HttpStatus(response.status))
            } else {
                match response.body {
                    None => Err(UploadError::BodyUnreadable),
                    Some(body) => Ok(body),
                }
            }
        },
    }
}

/// Takes the blob from the answer to a request for a URL: `None` where the
/// request failed. Only a status from 200 to 299 is a success.
pub fn fetch_data_from_url(response: Option<Response>) -> (body: Result<Vec<u8>, UploadError>)
    ensures
        body == fetched(response),
{
    match response {
        None => Err(UploadError::FetchFailed),
        Some(response) => {
            if response.status < 200 || response.status >= 300 {
                Err(UploadError::HttpStatus(response.status))
            } else {
                match response.body {
                    None => Err(UploadError::BodyUnreadable),
                    Some(body) => Ok(body),
                }
            }
        },
    }
}

/// Starts the upload of an interface description from the answer to a
/// request for a URL.
pub fn upload_idl_by_url(
    response: Option<Response>,
    program_id: &str,
    signer: Pubkey,
    buffer: Pubkey,
    priority_fees_per_cu: u64,
) -> (started: Result<Upload, UploadError>)
    ensures
        match fetched(response) {
            Err(error) => started matches Err(e) && e == error,
            Ok(upload_data) => upload_started(
                upload_data,
                parsed_key(program_id@),
                signer,
                buffer,
                priority_fees_per_cu,
                RecordClass::Idl,
                started,
            ),
        },
{
    match fetch_data_from_url(response) {
        Err(error) => Err(error),
        Ok(upload_data) => upload_data_from_bytes(
            upload_data,
            program_id,
            signer,
            buffer,
            priority_fees_per_cu,
            RecordClass::Idl,
        ),
    }
}

/// Starts the upload of metadata from the answer to a request for a URL.
pub fn upload_metadata_by_url(
    response: Option<Response>,
    program_id: &str,
    signer: Pubkey,
    buffer: Pubkey,
    priority_fees_per_cu: u64,
) -> (started: Result<Upload, UploadError>)
    ensures
        match fetched(response) {
            Err(error) => started matches Err(e) && e == error,
            Ok(upload_data) => upload_started(
                upload_data,
                parsed_key(program_id@),
                signer,
                buffer,
                priority_fees_per_cu,
                RecordClass::Metadata,
                started,
            ),
        },
{
    match fetch_data_from_url(response) {
        Err(error) => Err(error),
        Ok(upload_data) => upload_data_from_bytes(
            upload_data,
            program_id,
            signer,
            buffer,
            priority_fees_per_cu,
            RecordClass::Metadata,
        ),
    }
}

/// The content that the bytes of a record hold: as many bytes behind the
/// header as the length at its end says, little end first. `None` where the
/// bytes are fewer than the header, or than the header and the content.
pub open spec fn stored_payload(account_data: Seq<u8>) -> Option<Seq<u8>> {
    if account_data.len() < METADATA_OFFSET {
        None
    } else {
        let data_len = spec_u32_from_le_bytes(
            account_data.subrange(METADATA_OFFSET - 4, METADATA_OFFSET as int),
        );
        if METADATA_OFFSET + data_len > account_data.len() {
            None
        } else {
            Some(account_data.subrange(METADATA_OFFSET as int, METADATA_OFFSET + data_len))
        }
    }
}

/// The content that the bytes of a record hold.
pub fn payload(account_data: &[u8]) -> (content: Option<Vec<u8>>)
    ensures
        match content {
            Some(bytes) => stored_payload(account_data@) == Some(bytes@),
            None => stored_payload(account_data@) is None,
        },
{
    if account_data.len() < METADATA_OFFSET {
        return None;
    }
    let data_length: u32 = u32_from_le_bytes(
        slice_subrange(account_data, METADATA_OFFSET - 4, METADATA_OFFSET),
    );
    if data_length as usize > account_data.len() - METADATA_OFFSET {
        return None;
    }
    let compressed = slice_subrange(
        account_data,
        METADATA_OFFSET,
        METADATA_OFFSET + data_length as usize,
    );
    Some(slice_to_vec(compressed))
}

/// The blob that the content `compressed` of a record stands for.
pub open spec fn decoded(compressed: Seq<u8>) -> Result<Seq<u8>, DownloadError> {
    match gunzip(compressed) {
        None => Err(DownloadError::Corrupt),
        Some(blob) => Ok(blob),
    }
}

/// The blob that a download gives for what was read at the record's
/// address: `None` where nothing could be read.
pub open spec fn downloaded(account_data: Option<Seq<u8>>) -> Result<Seq<u8>, DownloadError> {
    match account_data {
        None => Err(DownloadError::AccountUnavailable),
        Some(bytes) => match stored_payload(bytes) {
            None => Err(DownloadError::Truncated),
            Some(compressed) => decoded(compressed),
        },
    }
}

/// A download: the address to read the record at.
#[derive(Clone, Copy, Debug, PartialEq, Eq)]
pub struct Download {
    pub metadata_address: Pubkey,
}

impl Download {
    /// Restores the blob from the bytes that were read at the record's
    /// address: `None` where nothing could be read.
    pub fn finish(&self, account_data: Option<Vec<u8>>) -> (blob: Result<Vec<u8>, DownloadError>)
        ensures
            match downloaded(
                match account_data {
                    Some(bytes) => Some(bytes@),
                    None => None,
                },
            ) {
                Ok(bytes) => blob matches Ok(b) && b@ == bytes,
                Err(error) => blob matches Err(e) && e == error,
            },
    {
        let bytes = match account_data {
            Some(bytes) => bytes,
            None => {
                return Err(DownloadError::AccountUnavailable);
            },
        };
        let compressed = match payload(bytes.as_slice()) {
            Some(compressed) => compressed,
            None => {
                return Err(DownloadError::Truncated);
            },
        };
        match gzip_decode(compressed.as_slice()) {
            Some(blob) => Ok(blob),
            None => Err(DownloadError::Corrupt),
        }
    }
}

/// The download that starts for a module whose address parses to `program`
/// (or to nothing) and for the seed `seed`, or why none starts.
pub open spec fn download_started(program: Option<Seq<u8>>, seed: Seq<u8>) -> Result<Seq<u8>, DownloadError> {
    match program {
        None => Err(DownloadError::InvalidProgramId),
        Some(module) => match record_key(module, seed) {
            None => Err(DownloadError::NoAddress),
            Some(address) => Ok(address),
        },
    }
}

/// Starts the download of the record with the seed `seed` of the module
/// `program_id`: says where to read it.
pub fn download_data_to_file(program_id: &str, seed: &str) -> (started: Result<Download, DownloadError>)
    ensures
        match download_started(parsed_key(program_id@), seed.spec_bytes()) {
            Ok(address) => started matches Ok(download) && download.metadata_address@ == address,
            Err(error) => started matches Err(e) && e == error,
        },
{
    let program = match parse_key(program_id) {
        Some(program) => program,
        None => {
            return Err(DownloadError::InvalidProgramId);
        },
    };
    match get_metadata_address(seed, &program) {
        Some(metadata_address) => Ok(Download { metadata_address }),
        None => Err(DownloadError::NoAddress),
    }
}

/// Starts the download of the interface description of the module
/// `program_id`.
pub fn download_idl_to_file(program_id: &str) -> (started: Result<Download, DownloadError>)
    ensures
        match download_started(parsed_key(program_id@), IDL_SEED.spec_bytes()) {
            Ok(address) => started matches Ok(download) && download.metadata_address@ == address,
            Err(error) => started matches Err(e) && e == error,
        },
{
    download_data_to_file(program_id, IDL_SEED)
}

/// Starts the download of the metadata of the module `program_id`.
pub fn download_metadata_to_file(program_id: &str) -> (started: Result<Download, DownloadError>)
    ensures
        match download_started(parsed_key(program_id@), METADATA_SEED.spec_bytes()) {
            Ok(address) => started matches Ok(download) && download.metadata_address@ == address,
            Err(error) => started matches Err(e) && e == error,
        },
{
    download_data_to_file(program_id, METADATA_SEED)
}

/// The chunks of a blob are the blob, cut up: laid end to end in the order
/// in which they are written, they give the blob back. No chunk is empty or
/// longer than [`CHUNK_SIZE`], and there are as many as it takes and no more.
pub proof fn lemma_chunks_cover(data: Seq<u8>, offset: nat)
    requires
        offset <= data.len(),
    ensures
        chunks_from(data, offset).flatten() == data.subrange(offset as int, data.len() as int),
        chunks_from(data, offset).len() == (data.len() - offset + CHUNK_SIZE - 1) / (CHUNK_SIZE as int),
        forall|i: int|
            0 <= i < chunks_from(data, offset).len() ==> 0 < (#[trigger] chunks_from(
                data,
                offset,
            )[i]).len() <= CHUNK_SIZE,
    decreases data.len() - offset,
{
    let chunks = chunks_from(data, offset);
    if offset >= data.len() {
        assert(chunks.flatten() =~= data.subrange(offset as int, data.len() as int));
    } else {
        let end = chunk_end(offset, data.len());
        let first = data.subrange(offset as int, end as int);
        let rest = chunks_from(data, end);
        lemma_chunks_cover(data, end);
        assert(chunks.first() == first);
        assert(chunks.drop_first() =~= rest);
        assert(chunks.flatten() =~= first + rest.flatten());
        assert(first + rest.flatten() =~= data.subrange(offset as int, data.len() as int));
        assert forall|i: int| 0 <= i < chunks.len() implies 0 < (#[trigger] chunks[i]).len()
            <= CHUNK_SIZE by {
            if i > 0 {
                assert(chunks[i] == rest[i - 1]);
            }
        }
    }
}

/// A record grows in as few steps as the bound on one step allows: the sizes
/// go up, no step is longer than [`MAX_RESIZE_STEP`], and the last size is the
/// one aimed at. A record that is smaller than the buffer takes one step at
/// least.
pub proof fn lemma_growth_steps(current: nat, target: nat)
    requires
        current <= target,
    ensures
        growth_steps(current, target).len() == (target - current + MAX_RESIZE_STEP - 1) / (
        MAX_RESIZE_STEP as int),
        forall|i: int|
            0 <= i < growth_steps(current, target).len() ==> {
                let before = if i == 0 {
                    current
                } else {
                    growth_steps(current, target)[i - 1]
                };
                before < (#[trigger] growth_steps(current, target)[i]) <= before + MAX_RESIZE_STEP
            },
        current < target ==> growth_steps(current, target).len() >= 1 && growth_steps(
            current,
            target,
        ).last() == target,
    decreases target - current,
{
    let steps = growth_steps(current, target);
    if current < target && target - current > MAX_RESIZE_STEP {
        let next = current + MAX_RESIZE_STEP as nat;
        let rest = growth_steps(next, target);
        lemma_growth_steps(next, target);
        assert(steps =~= seq![next] + rest);
        assert forall|i: int| 0 <= i < steps.len() implies {
            let before = if i == 0 {
                current
            } else {
                steps[i - 1]
            };
            before < (#[trigger] steps[i]) <= before + MAX_RESIZE_STEP
        } by {
            if i > 0 {
                assert(steps[i] == rest[i - 1]);
                if i > 1 {
                    assert(steps[i - 1] == rest[i - 2]);
                }
            }
        }
        assert(steps.last() == rest.last());
    }
}

/// The transactions that append a blob of `len` bytes from `offset` on, one
/// for each chunk.
pub open spec fn write_transactions(accounts: Accounts, len: nat, offset: nat) -> Seq<Seq<Instruction>>
    decreases len - offset,
{
    if offset >= len {
        Seq::empty()
    } else {
        seq![
            accounts.write_buffer_transaction(offset as usize, chunk_end(offset, len) as usize),
        ] + write_transactions(accounts, len, chunk_end(offset, len))
    }
}

/// The transactions of an upload once the record is there: one that
/// allocates and sets up the buffer, one for each chunk of the compressed
/// blob of `len` bytes, and one that resizes, commits and closes.
pub open spec fn upload_transactions(
    accounts: Accounts,
    len: nat,
    rent: u64,
    record_size: nat,
    buffer_size: nat,
) -> Seq<Seq<Instruction>> {
    seq![accounts.create_buffer_transaction(rent, (METADATA_OFFSET + len) as u64)]
        + write_transactions(accounts, len, 0) + seq![
        accounts.set_and_close_buffer_transaction(record_size, buffer_size),
    ]
}

/// What comes of the action of `phase` when every request succeeds: the
/// ledger asks the deposit `rent`, and shows the record with `record_size`
/// bytes and the buffer with `buffer_size` bytes.
pub open spec fn success(phase: Phase, rent: u64, record_size: usize, buffer_size: usize) -> Event {
    match phase {
        Phase::Renting { .. } => Event::Rent { lamports: rent },
        Phase::ReadingRecord { .. } => Event::Account { size: record_size },
        Phase::ReadingBuffer { .. } => Event::Account { size: buffer_size },
        _ => Event::Confirmed,
    }
}

/// A bound on the actions that are left from `phase` on, once the blob of
/// `len` bytes is compressed.
pub open spec fn actions_left(phase: Phase, len: usize) -> nat {
    match phase {
        Phase::Renting { .. } => (len + 6) as nat,
        Phase::Creating { .. } => (len + 5) as nat,
        Phase::Writing { offset } => if offset < len {
            (len - offset + 4) as nat
        } else {
            4
        },
        Phase::ReadingRecord { .. } => 3,
        Phase::ReadingBuffer { .. } => 2,
        Phase::Committing { .. } => 1,
        _ => 0,
    }
}

/// The transactions that the driver sends from `phase` on until it stops,
/// when every request succeeds.
pub open spec fn sent_from(
    accounts: Accounts,
    phase: Phase,
    len: usize,
    rent: u64,
    record_size: usize,
    buffer_size: usize,
) -> Seq<Seq<Instruction>>
    decreases actions_left(phase, len),
{
    if actions_left(phase, len) == 0 {
        Seq::empty()
    } else {
        let next = next_phase(phase, success(phase, rent, record_size, buffer_size), len as nat);
        let rest = sent_from(accounts, next, len, rent, record_size, buffer_size);
        if phase_transaction(accounts, phase, len as nat).len() == 0 {
            rest
        } else {
            seq![phase_transaction(accounts, phase, len as nat)] + rest
        }
    }
}

/// Once the chunks are written, the driver reads the two sizes and sends the
/// last transaction, and nothing after it.
proof fn lemma_sent_after_writing(
    accounts: Accounts,
    len: usize,
    rent: u64,
    record_size: usize,
    buffer_size: usize,
)
    requires
        steps_fit(record_size as nat, buffer_size as nat),
    ensures
        sent_from(
            accounts,
            Phase::ReadingRecord { attempts: 0 },
            len,
            rent,
            record_size,
            buffer_size,
        ) == seq![
            accounts.set_and_close_buffer_transaction(record_size as nat, buffer_size as nat),
        ],
{
    reveal_with_fuel(sent_from, 5);
    let last = accounts.set_and_close_buffer_transaction(record_size as nat, buffer_size as nat);
    assert(last.len() > 0);
    assert(seq![last] + Seq::<Seq<Instruction>>::empty() =~= seq![last]);
}

/// While chunks are left, the driver sends them one after the other, each
/// once the one before is confirmed, and then the last transaction.
proof fn lemma_sent_while_writing(
    accounts: Accounts,
    len: usize,
    offset: usize,
    rent: u64,
    record_size: usize,
    buffer_size: usize,
)
    requires
        offset < len,
        steps_fit(record_size as nat, buffer_size as nat),
    ensures
        sent_from(accounts, Phase::Writing { offset }, len, rent, record_size, buffer_size)
            == write_transactions(accounts, len as nat, offset as nat) + seq![
            accounts.set_and_close_buffer_transaction(record_size as nat, buffer_size as nat),
        ],
    decreases len - offset,
{
    let end = chunk_end(offset as nat, len as nat);
    let write = accounts.write_buffer_transaction(offset, end as usize);
    let last = seq![
        accounts.set_and_close_buffer_transaction(record_size as nat, buffer_size as nat),
    ];
    assert(write.len() > 0);
    if end < len {
        lemma_sent_while_writing(accounts, len, end as usize, rent, record_size, buffer_size);
        assert(seq![write] + (write_transactions(accounts, len as nat, end) + last) =~= (seq![write]
            + write_transactions(accounts, len as nat, end)) + last);
    } else {
        lemma_sent_after_writing(accounts, len, rent, record_size, buffer_size);
        assert(write_transactions(accounts, len as nat, end) =~= Seq::<Seq<Instruction>>::empty());
        assert(seq![write] + last =~= (seq![write] + Seq::<Seq<Instruction>>::empty()) + last);
    }
}

/// What the driver sends: once the blob of `len` bytes is compressed and
/// every request succeeds, the driver sends the transaction that sets up the
/// buffer, then one transaction for each chunk in order, then the last
/// transaction, and stops.
pub proof fn lemma_driver_sends(
    accounts: Accounts,
    len: usize,
    rent: u64,
    record_size: usize,
    buffer_size: usize,
)
    requires
        len + METADATA_OFFSET <= usize::MAX,
        steps_fit(record_size as nat, buffer_size as nat),
    ensures
        sent_from(
            accounts,
            Phase::Renting { space: (len + METADATA_OFFSET) as usize },
            len,
            rent,
            record_size,
            buffer_size,
        ) == upload_transactions(accounts, len as nat, rent, record_size as nat, buffer_size as nat),
{
    let space = (len + METADATA_OFFSET) as usize;
    let create = accounts.create_buffer_transaction(rent, space as u64);
    let last = seq![
        accounts.set_and_close_buffer_transaction(record_size as nat, buffer_size as nat),
    ];
    assert(create.len() > 0);
    reveal_with_fuel(sent_from, 3);
    if len == 0 {
        lemma_sent_after_writing(accounts, len, rent, record_size, buffer_size);
        assert(write_transactions(accounts, 0, 0) =~= Seq::<Seq<Instruction>>::empty());
        assert(seq![create] + last =~= seq![create] + Seq::<Seq<Instruction>>::empty() + last);
    } else {
        lemma_sent_while_writing(accounts, len, 0, rent, record_size, buffer_size);
        assert(seq![create] + (write_transactions(accounts, len as nat, 0) + last) =~= seq![create]
            + write_transactions(accounts, len as nat, 0) + last);
    }
}

} // verus!
