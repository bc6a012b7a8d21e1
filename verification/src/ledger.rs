//! The ledger as an upload sees it: the record, the buffer, and who pays;
//! what the ledger makes of the transactions of an upload, each of them
//! whole or not at all.
//!
//! This is a model for stating what an upload achieves. It is made of the
//! contracts of the metadata program; nothing here runs.

use crate::account::{close_refusal, lemma_replace_payload, resize_refusal, resized, zeros, AccountView, Signer};
use crate::codec::{gunzip, gzip};
use crate::commands::{
    chunk_end, decoded, downloaded, growth_steps, lemma_driver_sends, resize_len, resize_steps,
    sent_from, stored_payload, upload_transactions, write_transactions, Accounts, DownloadError,
    Instruction, Phase, RecordClass, MAX_RESIZE_STEP, METADATA_OFFSET,
};
use crate::keys::{is_erased_authority, Pubkey};
use crate::loader::AuthorityError;
use crate::metadata_program::{
    appended, buffer_content, commit_refusal, committed, create_buffer_refusal, created,
    record_content, record_data, record_key, resized_to, set_up_refusal, write_buffer_refusal,
    MetadataAccount2, MetadataBuffer, MyError, METADATA_ACCOUNT_SIZE, METADATA_BUFFER_SIZE,
};
use vstd::bytes::{lemma_auto_spec_u32_to_from_le_bytes, spec_u32_to_le_bytes};
use vstd::prelude::*;
use vstd::string::StringSliceAdditionalSpecFns;

verus! {

/// What an upload touches on the ledger.
pub struct Ledger {
    /// The account at the record's address, if there is one.
    pub record: Option<AccountView<MetadataAccount2>>,
    /// The account at the buffer's address, if there is one.
    pub buffer: Option<AccountView<MetadataBuffer>>,
    /// Who signs and pays.
    pub payer: Signer,
    /// What the resolver finds for the module.
    pub resolved: Result<Option<Pubkey>, AuthorityError>,
}

/// The header of a blank account: all of its bytes are zero.
pub open spec fn zero_header() -> MetadataBuffer {
    MetadataBuffer {
        authority: vstd::array::spec_array_fill_for_copy_type::<u8, 32>(0u8),
        data_type: vstd::array::spec_array_fill_for_copy_type::<u8, 16>(0u8),
        data_len: 0,
    }
}

/// The blank account of `space` bytes that the ledger allocates at `key`.
pub open spec fn blank(key: Pubkey, lamports: u64, space: nat) -> AccountView<MetadataBuffer> {
    AccountView {
        key,
        lamports,
        initialized: false,
        account: zero_header(),
        trailing: zeros((space - METADATA_BUFFER_SIZE) as nat),
    }
}

/// The record that is set up at `pda` for `module` on behalf of `signer`.
pub open spec fn new_record(pda: Pubkey, signer: Pubkey, module: Pubkey, data_type: [u8; 16]) -> AccountView<
    MetadataAccount2,
> {
    AccountView {
        key: pda,
        lamports: 0,
        initialized: true,
        account: MetadataAccount2 { authority: signer, data_type, program_id: module, data_len: 0 },
        trailing: Seq::empty(),
    }
}

/// Whether `pda` is the address of the record of class `seed` of `module`.
pub open spec fn is_record_address(seed: RecordClass, module: Pubkey, pda: Pubkey) -> bool {
    record_key(module@, seed.spec_seed().spec_bytes()) == Some(pda@)
}

/// The ledger after one instruction of a transaction that the payer signed;
/// `None` where the instruction is turned down. `compressed` is the blob that
/// the chunks are taken from.
pub open spec fn apply(ledger: Ledger, instruction: Instruction, compressed: Seq<u8>) -> Option<Ledger> {
    match instruction {
        Instruction::SetComputeUnitPrice(_) => Some(ledger),
        Instruction::SetComputeUnitLimit(_) => Some(ledger),
        Instruction::CreateAccount { from, to, lamports, space } => {
            if from != ledger.payer.key || ledger.buffer is Some || ledger.payer.lamports < lamports
                || space < METADATA_BUFFER_SIZE {
                None
            } else {
                Some(
                    Ledger {
                        buffer: Some(blank(to, lamports, space as nat)),
                        payer: Signer {
                            key: ledger.payer.key,
                            lamports: (ledger.payer.lamports - lamports) as u64,
                        },
                        ..ledger
                    },
                )
            }
        },
        Instruction::Initialize { pda, signer, program_id, program_data, data_type, seed } => {
            if signer != ledger.payer.key || !is_record_address(seed, program_id, pda)
                || set_up_refusal(true, ledger.record is Some, ledger.resolved, signer, true, true)
                is Some {
                None
            } else {
                Some(Ledger { record: Some(new_record(pda, signer, program_id, data_type)), ..ledger })
            }
        },
        Instruction::CreateBuffer { buffer, authority, data_type } => {
            match ledger.buffer {
                Some(account) => {
                    if account.key != buffer || authority != ledger.payer.key
                        || create_buffer_refusal(account, authority, true) is Some {
                        None
                    } else {
                        Some(Ledger { buffer: Some(created(account, authority, data_type)), ..ledger })
                    }
                },
                None => None,
            }
        },
        Instruction::WriteBuffer { buffer, signer, start, end } => {
            match ledger.buffer {
                Some(account) => {
                    if account.key != buffer || signer != ledger.payer.key || !(start <= end
                        <= compressed.len()) || write_buffer_refusal(
                        account,
                        signer,
                        compressed.subrange(start as int, end as int),
                    ) is Some {
                        None
                    } else {
                        Some(
                            Ledger {
                                buffer: Some(
                                    appended(account, compressed.subrange(start as int, end as int)),
                                ),
                                ..ledger
                            },
                        )
                    }
                },
                None => None,
            }
        },
        Instruction::Resize { pda, signer, len } => {
            match ledger.record {
                Some(record) => {
                    if record.key != pda || signer != ledger.payer.key || resize_refusal::<MyError>(
                        record.initialized,
                        record.account.authority,
                        record.trailing.len(),
                        METADATA_ACCOUNT_SIZE as nat,
                        signer,
                        len,
                    ) is Some {
                        None
                    } else {
                        Some(Ledger { record: Some(resized_to(record, len)), ..ledger })
                    }
                },
                None => None,
            }
        },
        Instruction::SetBuffer { buffer, pda, authority, program_id, program_data } => {
            match (ledger.buffer, ledger.record) {
                (Some(staged), Some(record)) => {
                    if staged.key != buffer || record.key != pda || authority != ledger.payer.key
                        || commit_refusal(staged, record, program_id, authority, ledger.resolved)
                        is Some {
                        None
                    } else {
                        Some(Ledger { record: Some(committed(record, staged, authority)), ..ledger })
                    }
                },
                _ => None,
            }
        },
        Instruction::CloseBuffer { buffer, authority } => {
            match ledger.buffer {
                Some(account) => {
                    if account.key != buffer || authority != ledger.payer.key || close_refusal::<
                        MyError,
                    >(
                        Some((account.initialized, account.account.authority, account.lamports)),
                        ledger.payer,
                    ) is Some {
                        None
                    } else {
                        Some(
                            Ledger {
                                buffer: None,
                                payer: Signer {
                                    key: ledger.payer.key,
                                    lamports: (ledger.payer.lamports + account.lamports) as u64,
                                },
                                ..ledger
                            },
                        )
                    }
                },
                None => None,
            }
        },
    }
}

/// The ledger after the instructions of `transaction` from the `i`th on;
/// `None` where one of them is turned down.
pub open spec fn run_from(ledger: Ledger, transaction: Seq<Instruction>, i: nat, compressed: Seq<u8>) -> Option<
    Ledger,
>
    decreases transaction.len() - i,
{
    if i >= transaction.len() {
        Some(ledger)
    } else {
        match apply(ledger, transaction[i as int], compressed) {
            None => None,
            Some(next) => run_from(next, transaction, i + 1, compressed),
        }
    }
}

/// The ledger after a transaction: all of its instructions have taken
/// effect, or none has.
pub open spec fn send(ledger: Ledger, transaction: Seq<Instruction>, compressed: Seq<u8>) -> Ledger {
    match run_from(ledger, transaction, 0, compressed) {
        Some(after) => after,
        None => ledger,
    }
}

/// Whether the ledger confirms the transaction.
pub open spec fn confirms(ledger: Ledger, transaction: Seq<Instruction>, compressed: Seq<u8>) -> bool {
    run_from(ledger, transaction, 0, compressed) is Some
}

/// The ledger after the transactions from the `i`th on were sent one after
/// the other; `None` where one of them is not confirmed.
pub open spec fn send_all_from(
    ledger: Ledger,
    transactions: Seq<Seq<Instruction>>,
    i: nat,
    compressed: Seq<u8>,
) -> Option<Ledger>
    decreases transactions.len() - i,
{
    if i >= transactions.len() {
        Some(ledger)
    } else if !confirms(ledger, transactions[i as int], compressed) {
        None
    } else {
        send_all_from(send(ledger, transactions[i as int], compressed), transactions, i + 1, compressed)
    }
}

/// The bytes that a record takes on the ledger.
pub open spec fn size_of(record: AccountView<MetadataAccount2>) -> nat {
    (METADATA_OFFSET + record.trailing.len()) as nat
}

/// The ledger after an upload of the compressed blob `compressed` to a record
/// that is there: the buffer is allocated with the deposit `rent` and set up,
/// the chunks are appended, and the last transaction gives the record the
/// size of the buffer, commits and closes. `None` where there is no record,
/// or where a transaction is not confirmed.
pub open spec fn after_upload(ledger: Ledger, accounts: Accounts, compressed: Seq<u8>, rent: u64) -> Option<
    Ledger,
> {
    match ledger.record {
        None => None,
        Some(record) => send_all_from(
            ledger,
            upload_transactions(
                accounts,
                compressed.len(),
                rent,
                size_of(record),
                (METADATA_OFFSET + compressed.len()) as nat,
            ),
            0,
            compressed,
        ),
    }
}

/// Whether an upload with `accounts` can go through on the ledger: the
/// record is there, at its address, for the module and with the signer as its
/// authority; the resolver finds the module; there is no account at the
/// buffer's address; and the signer pays, with a key that is not the erased
/// authority.
pub open spec fn ready(ledger: Ledger, accounts: Accounts) -> bool {
    &&& ledger.record matches Some(record) && {
        &&& record.initialized
        &&& record.key == accounts.metadata_address
        &&& record.account.authority == accounts.signer
        &&& record.account.program_id == accounts.program
    }
    &&& ledger.resolved is Ok
    &&& ledger.buffer is None
    &&& ledger.payer.key == accounts.signer
    &&& !is_erased_authority(accounts.signer)
}

/// The bytes of a record whose content fits hold that content: what a
/// download takes from them is the record's payload.
pub proof fn lemma_stored_payload(record: AccountView<MetadataAccount2>)
    requires
        record_content(record).fits(),
    ensures
        stored_payload(record_data(record)) == Some(record_content(record).payload()),
{
    lemma_auto_spec_u32_to_from_le_bytes();
    let data = record_data(record);
    let length = spec_u32_to_le_bytes(record.account.data_len);
    assert(length.len() == 4);
    assert(record.account.authority@.len() == 32);
    assert(record.account.data_type@.len() == 16);
    assert(record.account.program_id@.len() == 32);
    assert(data.subrange(METADATA_OFFSET - 4, METADATA_OFFSET as int) =~= length);
    assert(data.subrange(METADATA_OFFSET as int, METADATA_OFFSET + record.account.data_len)
        =~= record_content(record).payload());
}

/// The record after `signer` has given it the sizes `sizes` one after the
/// other, one instruction for each; `None` where one of them is turned down.
spec fn record_resized(record: AccountView<MetadataAccount2>, signer: Pubkey, sizes: Seq<nat>) -> Option<
    AccountView<MetadataAccount2>,
>
    decreases sizes.len(),
{
    if sizes.len() == 0 {
        Some(record)
    } else {
        let len = resize_len(sizes.first());
        if resize_refusal::<MyError>(
            record.initialized,
            record.account.authority,
            record.trailing.len(),
            METADATA_ACCOUNT_SIZE as nat,
            signer,
            len,
        ) is Some {
            None
        } else {
            record_resized(resized_to(record, len), signer, sizes.drop_first())
        }
    }
}

/// `after` is `before` but for its trailing bytes, which are cut or
/// zero-filled to `capacity` bytes, and for the length of its content.
spec fn is_resized(
    after: AccountView<MetadataAccount2>,
    before: AccountView<MetadataAccount2>,
    capacity: nat,
) -> bool {
    &&& after.trailing == resized(before.trailing, capacity)
    &&& after.key == before.key
    &&& after.lamports == before.lamports
    &&& after.initialized == before.initialized
    &&& after.account.authority == before.account.authority
    &&& after.account.data_type == before.account.data_type
    &&& after.account.program_id == before.account.program_id
}

/// Resizing a record in the steps that an upload plans gives it the size
/// that was aimed at: no step is turned down, the bytes that stay are as they
/// were, and new ones are zero.
proof fn lemma_record_resized(record: AccountView<MetadataAccount2>, signer: Pubkey, target: nat)
    requires
        record.initialized,
        record.account.authority == signer,
        METADATA_OFFSET <= target <= u16::MAX,
    ensures
        record_resized(record, signer, resize_steps(size_of(record), target)) matches Some(after)
            && is_resized(after, record, (target - METADATA_OFFSET) as nat),
    decreases target - size_of(record),
{
    let size = size_of(record);
    let steps = resize_steps(size, target);
    let capacity = (target - METADATA_OFFSET) as nat;
    if target < size {
        let len = resize_len(target);
        assert(len == target);
        assert(steps.first() == target);
        assert(steps.drop_first() =~= Seq::<nat>::empty());
        let next = resized_to(record, len);
        assert(record_resized(next, signer, steps.drop_first()) == Some(next));
    } else if size == target {
        assert(steps =~= Seq::<nat>::empty());
        assert(record.trailing =~= resized(record.trailing, capacity));
    } else {
        let step: nat = if target - size > MAX_RESIZE_STEP {
            size + MAX_RESIZE_STEP as nat
        } else {
            target
        };
        let len = resize_len(step);
        assert(len == step);
        assert(steps.first() == step);
        let next = resized_to(record, len);
        assert(size_of(next) == step);
        assert(steps.drop_first() =~= resize_steps(step, target)) by {
            if target - size > MAX_RESIZE_STEP {
                assert(steps =~= seq![step] + growth_steps(step, target));
            } else {
                assert(steps =~= seq![step]);
            }
        }
        lemma_record_resized(next, signer, target);
        assert(resized(next.trailing, capacity) =~= resized(record.trailing, capacity));
    }
}

/// The header of a blank account names the erased authority and no content.
pub proof fn lemma_zero_header()
    ensures
        is_erased_authority(zero_header().authority),
        zero_header().data_type@ == zeros(16),
        zero_header().data_len == 0,
{
    broadcast use vstd::array::group_array_axioms;

    assert(zero_header().authority@ =~= Seq::new(32, |i: int| 0u8));
    assert(zero_header().data_type@ =~= zeros(16));
}

/// The instructions of a transaction behind the first `i` take effect on
/// what the first `i` have left.
proof fn lemma_run_split(
    ledger: Ledger,
    head: Seq<Instruction>,
    tail: Seq<Instruction>,
    i: nat,
    compressed: Seq<u8>,
)
    requires
        i <= head.len(),
    ensures
        run_from(ledger, head + tail, i, compressed) == match run_from(ledger, head, i, compressed) {
            Some(middle) => run_from(middle, tail, 0, compressed),
            None => None,
        },
    decreases head.len() - i,
{
    if i < head.len() {
        assert((head + tail)[i as int] == head[i as int]);
        match apply(ledger, head[i as int], compressed) {
            Some(next) => {
                lemma_run_split(next, head, tail, i + 1, compressed);
            },
            None => {},
        }
    } else {
        lemma_run_shift(ledger, head, tail, 0, compressed);
    }
}

/// Instructions ahead of the place where a run starts do not matter.
proof fn lemma_run_shift(
    ledger: Ledger,
    head: Seq<Instruction>,
    tail: Seq<Instruction>,
    i: nat,
    compressed: Seq<u8>,
)
    requires
        i <= tail.len(),
    ensures
        run_from(ledger, head + tail, head.len() + i, compressed) == run_from(
            ledger,
            tail,
            i,
            compressed,
        ),
    decreases tail.len() - i,
{
    if i < tail.len() {
        assert((head + tail)[(head.len() + i) as int] == tail[i as int]);
        match apply(ledger, tail[i as int], compressed) {
            Some(next) => {
                lemma_run_shift(next, head, tail, i + 1, compressed);
            },
            None => {},
        }
    }
}

/// The chunks of a blob, sent one transaction after the other, fill a buffer
/// that was allocated for the blob: each transaction is confirmed, and
/// record and payer stay as they are.
proof fn lemma_send_writes(ledger: Ledger, accounts: Accounts, data: Seq<u8>, offset: nat)
    requires
        ledger.payer.key == accounts.signer,
        ledger.buffer matches Some(buffer) && {
            &&& buffer.key == accounts.buffer
            &&& buffer.initialized
            &&& buffer.account.authority == accounts.signer
            &&& buffer.account.data_len == offset
            &&& buffer.trailing.len() >= data.len()
            &&& buffer.trailing.subrange(0, offset as int) == data.subrange(0, offset as int)
        },
        !is_erased_authority(accounts.signer),
        offset <= data.len() <= u16::MAX,
    ensures
        send_all_from(ledger, write_transactions(accounts, data.len(), offset), 0, data) == Some(
            Ledger {
                buffer: Some(
                    AccountView {
                        account: MetadataBuffer {
                            data_len: data.len() as u32,
                            ..ledger.buffer.unwrap().account
                        },
                        trailing: data + ledger.buffer.unwrap().trailing.subrange(
                            data.len() as int,
                            ledger.buffer.unwrap().trailing.len() as int,
                        ),
                        ..ledger.buffer.unwrap()
                    },
                ),
                ..ledger
            },
        ),
    decreases data.len() - offset,
{
    let buffer = ledger.buffer.unwrap();
    let transactions = write_transactions(accounts, data.len(), offset);
    if offset < data.len() {
        let end = chunk_end(offset, data.len());
        let first = accounts.write_buffer_transaction(offset as usize, end as usize);
        let rest = write_transactions(accounts, data.len(), end);
        let chunk = data.subrange(offset as int, end as int);
        let next = Ledger { buffer: Some(appended(buffer, chunk)), ..ledger };
        assert(transactions[0] == first);
        reveal_with_fuel(run_from, 4);
        assert(run_from(ledger, first, 0, data) == Some(next));
        assert(appended(buffer, chunk).trailing.subrange(0, end as int) =~= data.subrange(
            0,
            end as int,
        )) by {
            assert forall|j: int| 0 <= j < end implies appended(buffer, chunk).trailing[j]
                == data[j] by {
                if j < offset {
                    assert(buffer.trailing.subrange(0, offset as int)[j] == data.subrange(
                        0,
                        offset as int,
                    )[j]);
                }
            }
        }
        lemma_send_writes(next, accounts, data, end);
        assert(appended(buffer, chunk).trailing.subrange(
            data.len() as int,
            buffer.trailing.len() as int,
        ) =~= buffer.trailing.subrange(data.len() as int, buffer.trailing.len() as int));
        lemma_send_all_shift(next, seq![first], rest, 0, data);
        assert(send_all_from(ledger, transactions, 0, data) == send_all_from(
            next,
            seq![first] + rest,
            1,
            data,
        ));
    } else {
        assert(data =~= data.subrange(0, offset as int));
        assert(buffer.trailing =~= buffer.trailing.subrange(0, offset as int)
            + buffer.trailing.subrange(data.len() as int, buffer.trailing.len() as int));
    }
}

/// The transactions behind the first `i` are sent to what the first `i`
/// have left.
proof fn lemma_send_all_split(
    ledger: Ledger,
    head: Seq<Seq<Instruction>>,
    tail: Seq<Seq<Instruction>>,
    i: nat,
    compressed: Seq<u8>,
)
    requires
        i <= head.len(),
    ensures
        send_all_from(ledger, head + tail, i, compressed) == match send_all_from(
            ledger,
            head,
            i,
            compressed,
        ) {
            Some(middle) => send_all_from(middle, tail, 0, compressed),
            None => None,
        },
    decreases head.len() - i,
{
    if i < head.len() {
        assert((head + tail)[i as int] == head[i as int]);
        if confirms(ledger, head[i as int], compressed) {
            lemma_send_all_split(send(ledger, head[i as int], compressed), head, tail, i + 1, compressed);
        }
    } else {
        lemma_send_all_shift(ledger, head, tail, 0, compressed);
    }
}

/// Transactions ahead of the place where sending starts do not matter.
proof fn lemma_send_all_shift(
    ledger: Ledger,
    head: Seq<Seq<Instruction>>,
    tail: Seq<Seq<Instruction>>,
    i: nat,
    compressed: Seq<u8>,
)
    requires
        i <= tail.len(),
    ensures
        send_all_from(ledger, head + tail, head.len() + i, compressed) == send_all_from(
            ledger,
            tail,
            i,
            compressed,
        ),
    decreases tail.len() - i,
{
    if i < tail.len() {
        assert((head + tail)[(head.len() + i) as int] == tail[i as int]);
        if confirms(ledger, tail[i as int], compressed) {
            lemma_send_all_shift(
                send(ledger, tail[i as int], compressed),
                head,
                tail,
                i + 1,
                compressed,
            );
        }
    }
}

/// The resize instructions of the last transaction take effect one after the
/// other as long as none is turned down; buffer and payer stay as they are.
proof fn lemma_run_resizes(
    ledger: Ledger,
    accounts: Accounts,
    sizes: Seq<nat>,
    i: nat,
    compressed: Seq<u8>,
)
    requires
        i <= sizes.len(),
        ledger.payer.key == accounts.signer,
        ledger.record matches Some(record) && record.key == accounts.metadata_address,
    ensures
        run_from(
            ledger,
            sizes.map(|j: int, size: nat| accounts.resize_instruction(size)),
            i,
            compressed,
        ) == match record_resized(ledger.record.unwrap(), accounts.signer, sizes.skip(i as int)) {
            Some(record) => Some(Ledger { record: Some(record), ..ledger }),
            None => None,
        },
    decreases sizes.len() - i,
{
    let record = ledger.record.unwrap();
    let instructions = sizes.map(|j: int, size: nat| accounts.resize_instruction(size));
    let rest = sizes.skip(i as int);
    if i < sizes.len() {
        assert(rest.first() == sizes[i as int]);
        assert(rest.drop_first() =~= sizes.skip((i + 1) as int));
        assert(instructions[i as int] == accounts.resize_instruction(sizes[i as int]));
        match apply(ledger, instructions[i as int], compressed) {
            Some(next) => {
                lemma_run_resizes(next, accounts, sizes, i + 1, compressed);
            },
            None => {},
        }
    } else {
        assert(rest =~= Seq::<nat>::empty());
    }
}

/// The last transaction, taken apart: the two instructions on compute units,
/// the resize instructions, and the commit and the close.
proof fn lemma_last_transaction_parts(accounts: Accounts, record_size: nat, buffer_size: nat)
    requires
        buffer_size == record_size || buffer_size <= u16::MAX,
    ensures
        accounts.set_and_close_buffer_transaction(record_size, buffer_size) == seq![
            Instruction::SetComputeUnitPrice(accounts.priority_fees_per_cu),
            Instruction::SetComputeUnitLimit(200000),
        ] + resize_steps(record_size, buffer_size).map(
            |j: int, size: nat| accounts.resize_instruction(size),
        ) + seq![
            accounts.set_buffer_instruction(),
            Instruction::CloseBuffer { buffer: accounts.buffer, authority: accounts.signer },
        ],
{
}

/// The first transaction of an upload to a record that is there allocates
/// the buffer and sets it up for the signer.
proof fn lemma_buffer_set_up(ledger: Ledger, accounts: Accounts, compressed: Seq<u8>, rent: u64)
    requires
        ledger.buffer is None,
        ledger.payer.key == accounts.signer,
        ledger.payer.lamports >= rent,
        !is_erased_authority(accounts.signer),
        METADATA_OFFSET + compressed.len() <= u16::MAX,
    ensures
        run_from(
            ledger,
            accounts.create_buffer_transaction(rent, (METADATA_OFFSET + compressed.len()) as u64),
            0,
            compressed,
        ) == Some(
            Ledger {
                buffer: Some(
                    created(
                        blank(accounts.buffer, rent, (METADATA_OFFSET + compressed.len()) as nat),
                        accounts.signer,
                        accounts.data_type,
                    ),
                ),
                payer: Signer {
                    key: accounts.signer,
                    lamports: (ledger.payer.lamports - rent) as u64,
                },
                ..ledger
            },
        ),
{
    lemma_zero_header();
    reveal_with_fuel(run_from, 5);
}

/// The last transaction of an upload, for a buffer that was allocated with
/// the bytes of a record's header and those of the compressed blob, and that
/// holds the blob: the record is given the size of the buffer, takes over
/// data type and content of the buffer, and the buffer is closed.
proof fn lemma_committed_and_closed(ledger: Ledger, accounts: Accounts, compressed: Seq<u8>)
    requires
        ledger.record matches Some(record) && {
            &&& record.initialized
            &&& record.key == accounts.metadata_address
            &&& record.account.authority == accounts.signer
            &&& record.account.program_id == accounts.program
        },
        ledger.buffer matches Some(buffer) && {
            &&& buffer.initialized
            &&& buffer.key == accounts.buffer
            &&& buffer.account.authority == accounts.signer
            &&& buffer.account.data_len == compressed.len()
            &&& buffer.trailing.len() >= compressed.len()
            &&& buffer.trailing.subrange(0, compressed.len() as int) == compressed
        },
        ledger.resolved is Ok,
        ledger.payer.key == accounts.signer,
        ledger.payer.lamports + ledger.buffer.unwrap().lamports <= u64::MAX,
        !is_erased_authority(accounts.signer),
        METADATA_OFFSET + compressed.len() <= u16::MAX,
    ensures
        run_from(
            ledger,
            accounts.set_and_close_buffer_transaction(
                size_of(ledger.record.unwrap()),
                (METADATA_OFFSET + compressed.len()) as nat,
            ),
            0,
            compressed,
        ) == Some(
            Ledger {
                record: Some(
                    committed(
                        AccountView {
                            trailing: resized(ledger.record.unwrap().trailing, compressed.len()),
                            ..ledger.record.unwrap()
                        },
                        ledger.buffer.unwrap(),
                        accounts.signer,
                    ),
                ),
                buffer: None,
                payer: Signer {
                    key: accounts.signer,
                    lamports: (ledger.payer.lamports + ledger.buffer.unwrap().lamports) as u64,
                },
                ..ledger
            },
        ),
{
    let record = ledger.record.unwrap();
    let staged = ledger.buffer.unwrap();
    let target = (METADATA_OFFSET + compressed.len()) as nat;
    let head = seq![
        Instruction::SetComputeUnitPrice(accounts.priority_fees_per_cu),
        Instruction::SetComputeUnitLimit(200000),
    ];
    let sizes = resize_steps(size_of(record), target);
    let resizes = sizes.map(|j: int, size: nat| accounts.resize_instruction(size));
    let tail = seq![
        accounts.set_buffer_instruction(),
        Instruction::CloseBuffer { buffer: accounts.buffer, authority: accounts.signer },
    ];
    lemma_last_transaction_parts(accounts, size_of(record), target);
    lemma_record_resized(record, accounts.signer, target);
    assert(sizes.skip(0) =~= sizes);
    lemma_run_resizes(ledger, accounts, sizes, 0, compressed);
    let grown_record = record_resized(record, accounts.signer, sizes).unwrap();
    let grown = Ledger { record: Some(grown_record), ..ledger };
    assert(run_from(ledger, head, 0, compressed) == Some(ledger)) by {
        reveal_with_fuel(run_from, 3);
    }
    lemma_run_split(ledger, head, resizes, 0, compressed);
    assert(run_from(ledger, head + resizes, 0, compressed) == Some(grown));
    assert(committed(grown_record, staged, accounts.signer) == committed(
        AccountView { trailing: resized(record.trailing, compressed.len()), ..record },
        staged,
        accounts.signer,
    ));
    assert(run_from(grown, tail, 0, compressed) == Some(
        Ledger {
            record: Some(committed(grown_record, staged, accounts.signer)),
            buffer: None,
            payer: Signer {
                key: accounts.signer,
                lamports: (ledger.payer.lamports + staged.lamports) as u64,
            },
            ..ledger
        },
    )) by {
        reveal_with_fuel(run_from, 3);
    }
    lemma_run_split(ledger, head + resizes, tail, 0, compressed);
}

/// An upload to a record that is there goes through on the ledger, and
/// leaves the compressed blob as the record's content: every transaction is
/// confirmed; the bytes of the record hold exactly the blob that was sent,
/// under the data type of the upload; the buffer is gone, and its deposit is
/// back with the payer.
///
/// The signer must be the record's authority, and must have the deposit for
/// the buffer. The compressed blob and the header must fit the sixteen bits
/// of a resize instruction's length.
pub proof fn lemma_upload_on_ledger(ledger: Ledger, accounts: Accounts, compressed: Seq<u8>, rent: u64)
    requires
        ready(ledger, accounts),
        ledger.payer.lamports >= rent,
        METADATA_OFFSET + compressed.len() <= u16::MAX,
    ensures
        after_upload(ledger, accounts, compressed, rent) matches Some(after) && {
            &&& after.record matches Some(record) && {
                &&& stored_payload(record_data(record)) == Some(compressed)
                &&& record_content(record).payload() == compressed
                &&& record.account.data_type == accounts.data_type
                &&& record.account.authority == accounts.signer
                &&& record.account.program_id == accounts.program
                &&& record.key == accounts.metadata_address
                &&& record.initialized
            }
            &&& after.buffer is None
            &&& after.payer == ledger.payer
            &&& after.resolved == ledger.resolved
        },
{
    let record = ledger.record.unwrap();
    let space = (METADATA_OFFSET + compressed.len()) as nat;
    let target = space;

    // The buffer is allocated and set up.
    let create = accounts.create_buffer_transaction(rent, space as u64);
    lemma_buffer_set_up(ledger, accounts, compressed, rent);
    let allocated = send(ledger, create, compressed);
    let fresh = allocated.buffer.unwrap();
    lemma_zero_header();

    // The chunks fill it.
    let writes = write_transactions(accounts, compressed.len(), 0);
    assert(fresh.trailing.subrange(0, 0) =~= compressed.subrange(0, 0));
    lemma_send_writes(allocated, accounts, compressed, 0);
    let staged = AccountView {
        account: MetadataBuffer { data_len: compressed.len() as u32, ..fresh.account },
        trailing: compressed + fresh.trailing.subrange(
            compressed.len() as int,
            fresh.trailing.len() as int,
        ),
        ..fresh
    };
    assert(staged.trailing.subrange(0, compressed.len() as int) =~= compressed);
    let filled = Ledger { buffer: Some(staged), ..allocated };

    // The last transaction resizes, commits and closes.
    let last = accounts.set_and_close_buffer_transaction(size_of(record), target);
    lemma_committed_and_closed(filled, accounts, compressed);
    let after = send(filled, last, compressed);
    let stored = after.record.unwrap();
    assert(record_content(stored).payload() =~= compressed);
    lemma_stored_payload(stored);

    // One after the other.
    assert(send_all_from(ledger, seq![create], 0, compressed) == Some(allocated)) by {
        reveal_with_fuel(send_all_from, 2);
    }
    assert(send_all_from(filled, seq![last], 0, compressed) == Some(after)) by {
        reveal_with_fuel(send_all_from, 2);
    }
    lemma_send_all_split(ledger, seq![create], writes, 0, compressed);
    lemma_send_all_split(ledger, seq![create] + writes, seq![last], 0, compressed);
}

/// The last transaction of an upload is all or nothing for the record: once
/// it is sent, the record is as it was, or it holds the content of the buffer
/// in full, under the buffer's data type.
pub proof fn lemma_commit_is_atomic(
    ledger: Ledger,
    accounts: Accounts,
    record_size: nat,
    buffer_size: nat,
    compressed: Seq<u8>,
)
    requires
        ledger.payer.key == accounts.signer,
        ledger.record matches Some(record) && record.key == accounts.metadata_address,
        ledger.buffer is Some,
    ensures
        ({
            let after = send(
                ledger,
                accounts.set_and_close_buffer_transaction(record_size, buffer_size),
                compressed,
            );
            ||| after == ledger
            ||| after.record matches Some(record) && {
                &&& record_content(record).fits()
                &&& record_content(record).payload() == buffer_content(
                    ledger.buffer.unwrap(),
                ).payload()
                &&& record.account.data_type == ledger.buffer.unwrap().account.data_type
            }
        }),
{
    let last = accounts.set_and_close_buffer_transaction(record_size, buffer_size);
    if buffer_size == record_size || buffer_size <= u16::MAX {
        let head = seq![
            Instruction::SetComputeUnitPrice(accounts.priority_fees_per_cu),
            Instruction::SetComputeUnitLimit(200000),
        ];
        let sizes = resize_steps(record_size, buffer_size);
        let resizes = sizes.map(|j: int, size: nat| accounts.resize_instruction(size));
        let tail = seq![
            accounts.set_buffer_instruction(),
            Instruction::CloseBuffer { buffer: accounts.buffer, authority: accounts.signer },
        ];
        lemma_last_transaction_parts(accounts, record_size, buffer_size);
        assert(run_from(ledger, head, 0, compressed) == Some(ledger)) by {
            reveal_with_fuel(run_from, 3);
        }
        assert(sizes.skip(0) =~= sizes);
        lemma_run_resizes(ledger, accounts, sizes, 0, compressed);
        lemma_run_split(ledger, head, resizes, 0, compressed);
        lemma_run_split(ledger, head + resizes, tail, 0, compressed);
        match run_from(ledger, head + resizes, 0, compressed) {
            Some(grown) => {
                let staged = ledger.buffer.unwrap();
                let record = grown.record.unwrap();
                reveal_with_fuel(run_from, 3);
                if run_from(grown, tail, 0, compressed) is Some {
                    lemma_replace_payload(record.trailing, buffer_content(staged).payload());
                }
            },
            None => {},
        }
    } else {
        assert(last =~= Seq::<Instruction>::empty());
    }
}

/// Round trip: a download after the upload of a blob gives what the decoder
/// makes of the gzip stream of the blob. Where the decoder makes the blob of
/// it, the download gives back the blob.
pub proof fn lemma_download_after_upload(ledger: Ledger, accounts: Accounts, blob: Seq<u8>, rent: u64)
    requires
        ready(ledger, accounts),
        ledger.payer.lamports >= rent,
        gzip(blob) matches Some(stream) && METADATA_OFFSET + stream.len() <= u16::MAX,
    ensures
        after_upload(ledger, accounts, gzip(blob)->Some_0, rent) matches Some(after) && after.record matches Some(
            record,
        ) && {
            &&& downloaded(Some(record_data(record))) == decoded(gzip(blob)->Some_0)
            &&& gunzip(gzip(blob)->Some_0) == Some(blob) ==> downloaded(Some(record_data(record))) == Ok::<
                Seq<u8>,
                DownloadError,
            >(blob)
        },
{
    lemma_upload_on_ledger(ledger, accounts, gzip(blob)->Some_0, rent);
}

/// Where there is no record yet, the module's upgrade authority sets it up
/// with the first transaction of an upload: the record is there afterwards,
/// names the signer as its authority, has the data type of the upload, holds
/// no content, and is ready for the rest of the upload.
pub proof fn lemma_initialize_on_ledger(ledger: Ledger, accounts: Accounts, units: u32)
    requires
        ledger.record is None,
        ledger.buffer is None,
        ledger.resolved == Ok::<Option<Pubkey>, AuthorityError>(Some(accounts.signer)),
        ledger.payer.key == accounts.signer,
        !is_erased_authority(accounts.signer),
        is_record_address(accounts.class, accounts.program, accounts.metadata_address),
    ensures
        confirms(ledger, accounts.initialize_transaction(units), Seq::empty()),
        send(ledger, accounts.initialize_transaction(units), Seq::empty()) == (Ledger {
            record: Some(
                new_record(
                    accounts.metadata_address,
                    accounts.signer,
                    accounts.program,
                    accounts.data_type,
                ),
            ),
            ..ledger
        }),
        ready(send(ledger, accounts.initialize_transaction(units), Seq::empty()), accounts),
{
    reveal_with_fuel(run_from, 4);
}

/// A first upload by the module's upgrade authority goes through: the
/// record is set up, and then holds the compressed blob under the data type
/// of the upload.
pub proof fn lemma_first_upload_on_ledger(
    ledger: Ledger,
    accounts: Accounts,
    compressed: Seq<u8>,
    units: u32,
    rent: u64,
)
    requires
        ledger.record is None,
        ledger.buffer is None,
        ledger.resolved == Ok::<Option<Pubkey>, AuthorityError>(Some(accounts.signer)),
        ledger.payer.key == accounts.signer,
        ledger.payer.lamports >= rent,
        !is_erased_authority(accounts.signer),
        is_record_address(accounts.class, accounts.program, accounts.metadata_address),
        METADATA_OFFSET + compressed.len() <= u16::MAX,
    ensures
        confirms(ledger, accounts.initialize_transaction(units), Seq::empty()),
        after_upload(
            send(ledger, accounts.initialize_transaction(units), Seq::empty()),
            accounts,
            compressed,
            rent,
        ) matches Some(after) && after.record matches Some(record) && {
            &&& stored_payload(record_data(record)) == Some(compressed)
            &&& record.account.data_type == accounts.data_type
            &&& record.account.authority == accounts.signer
            &&& after.buffer is None
        },
{
    lemma_initialize_on_ledger(ledger, accounts, units);
    lemma_upload_on_ledger(
        send(ledger, accounts.initialize_transaction(units), Seq::empty()),
        accounts,
        compressed,
        rent,
    );
}

/// What the driver achieves: the transactions that the driver sends once
/// the blob is compressed, when the ledger confirms each of them and shows
/// the sizes that record and buffer have, leave the compressed blob as the
/// record's content, under the data type of the upload.
pub proof fn lemma_driver_uploads(ledger: Ledger, accounts: Accounts, compressed: Seq<u8>, rent: u64)
    requires
        ready(ledger, accounts),
        size_of(ledger.record.unwrap()) <= usize::MAX,
        ledger.payer.lamports >= rent,
        METADATA_OFFSET + compressed.len() <= u16::MAX,
    ensures
        send_all_from(
            ledger,
            sent_from(
                accounts,
                Phase::Renting { space: (compressed.len() + METADATA_OFFSET) as usize },
                compressed.len() as usize,
                rent,
                size_of(ledger.record.unwrap()) as usize,
                (METADATA_OFFSET + compressed.len()) as usize,
            ),
            0,
            compressed,
        ) matches Some(after) && after.record matches Some(record) && {
            &&& stored_payload(record_data(record)) == Some(compressed)
            &&& record.account.data_type == accounts.data_type
            &&& after.buffer is None
            &&& after.payer == ledger.payer
        },
{
    lemma_driver_sends(
        accounts,
        compressed.len() as usize,
        rent,
        size_of(ledger.record.unwrap()) as usize,
        (METADATA_OFFSET + compressed.len()) as usize,
    );
    lemma_upload_on_ledger(ledger, accounts, compressed, rent);
}

} // verus!
