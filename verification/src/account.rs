//! Records on the ledger: a typed header followed by a trailing payload, the
//! signer of an instruction, and the reasons for which an instruction is
//! turned down.

use crate::keys::{is_erased, is_erased_authority, same_key, Pubkey};
use vstd::prelude::*;

verus! {

/// The most by which one instruction may grow an account, in bytes.
pub const MAX_PERMITTED_DATA_INCREASE: usize = 10240;

/// An account that signed the transaction.
#[derive(Clone, Copy, Debug, PartialEq, Eq)]
pub struct Signer {
    pub key: Pubkey,
    pub lamports: u64,
}

/// An account that holds a record: the header `account`, and after it the
/// trailing bytes, whose number is the capacity that is allocated for the
/// payload.
///
/// An account that was allocated and zero-filled, and in which no record has
/// been set up yet, has `initialized == false`.
#[derive(Clone, Debug, PartialEq, Eq)]
pub struct Account<T> {
    pub key: Pubkey,
    /// The deposit that the account holds.
    pub lamports: u64,
    pub initialized: bool,
    pub account: T,
    pub trailing: Vec<u8>,
}

/// An [`Account`] with its trailing bytes as a sequence.
pub struct AccountView<T> {
    pub key: Pubkey,
    pub lamports: u64,
    pub initialized: bool,
    pub account: T,
    pub trailing: Seq<u8>,
}

impl<T> View for Account<T> {
    type V = AccountView<T>;

    open spec fn view(&self) -> AccountView<T> {
        AccountView {
            key: self.key,
            lamports: self.lamports,
            initialized: self.initialized,
            account: self.account,
            trailing: self.trailing@,
        }
    }
}

/// Why an instruction was turned down. Nothing that it would have changed is
/// changed.
#[derive(Debug, PartialEq, Eq)]
pub enum Rejection<E> {
    /// An error of the program's own.
    Program(E),
    /// A condition on the signer does not hold: it is not the authority that
    /// the account records, or its key is the erased authority.
    ConstraintRaw,
    /// The account does not record the signer as its authority.
    ConstraintHasOne,
    /// The address is not the one that the seeds derive.
    ConstraintSeeds,
    /// The account to set up is not blank.
    ConstraintZero,
    /// There already is an account at the address.
    AccountAlreadyInUse,
    /// There is no record in the account.
    AccountNotInitialized,
    /// The bytes of an account do not decode.
    InvalidAccountData,
    /// The new size leaves no room for the header, or grows the account by
    /// more than one instruction may.
    InvalidRealloc,
    /// A length does not fit its type.
    Overflow,
    /// The trailing bytes are too few for what is to be written.
    CapacityExceeded,
}

/// `count` zero bytes.
pub open spec fn zeros(count: nat) -> Seq<u8> {
    Seq::new(count, |i: int| 0u8)
}

/// `trailing` with `data` written over the bytes from `at` on.
pub open spec fn written(trailing: Seq<u8>, at: int, data: Seq<u8>) -> Seq<u8>
    recommends
        0 <= at,
        at + data.len() <= trailing.len(),
{
    trailing.subrange(0, at) + data + trailing.subrange(at + data.len(), trailing.len() as int)
}

/// `trailing` cut or zero-filled to `len` bytes.
pub open spec fn resized(trailing: Seq<u8>, len: nat) -> Seq<u8> {
    if len <= trailing.len() {
        trailing.subrange(0, len as int)
    } else {
        trailing + zeros((len - trailing.len()) as nat)
    }
}

/// Writes `data` over the bytes of `trailing` from `at` on; the other bytes
/// stay as they are.
pub(crate) fn write_at(trailing: &mut [u8], at: usize, data: &[u8])
    requires
        at + data@.len() <= old(trailing)@.len(),
    ensures
        final(trailing)@ == written(old(trailing)@, at as int, data@),
{
    let ghost before = trailing@;
    let capacity: usize = trailing.len();
    let mut i: usize = 0;
    while i < data.len()
        invariant
            i <= data@.len(),
            at + data@.len() <= capacity,
            trailing@.len() == capacity,
            before.len() == capacity,
            forall|j: int| 0 <= j < at ==> trailing@[j] == before[j],
            forall|j: int| at <= j < at + i ==> trailing@[j] == data@[j - at],
            forall|j: int| at + i <= j < trailing@.len() ==> trailing@[j] == before[j],
        decreases data@.len() - i,
    {
        trailing[at + i] = data[i];
        i += 1;
    }
    assert(trailing@ =~= written(before, at as int, data@));
}

/// Cuts `trailing` to `len` bytes, or fills it with zero bytes up to `len`.
pub(crate) fn resize_to(trailing: &mut Vec<u8>, len: usize)
    ensures
        final(trailing)@ == resized(old(trailing)@, len as nat),
{
    let ghost before = trailing@;
    if len <= trailing.len() {
        trailing.truncate(len);
    } else {
        let mut i: usize = trailing.len();
        while i < len
            invariant
                before.len() <= i <= len,
                trailing@.len() == i,
                forall|j: int| 0 <= j < before.len() ==> trailing@[j] == before[j],
                forall|j: int| before.len() <= j < i ==> trailing@[j] == 0u8,
            decreases len - i,
        {
            trailing.push(0u8);
            i += 1;
        }
        assert(trailing@ =~= resized(before, len as nat));
    }
}

/// Appends `bytes` to `out`.
pub(crate) fn append_bytes(out: &mut Vec<u8>, bytes: &[u8])
    ensures
        final(out)@ == old(out)@ + bytes@,
{
    let ghost before = out@;
    let mut i: usize = 0;
    while i < bytes.len()
        invariant
            i <= bytes@.len(),
            out@ == before + bytes@.subrange(0, i as int),
        decreases bytes@.len() - i,
    {
        out.push(bytes[i]);
        i += 1;
        assert(out@ =~= before + bytes@.subrange(0, i as int));
    }
    assert(bytes@.subrange(0, bytes@.len() as int) =~= bytes@);
}

/// The record-kind tag at the start of an account's bytes: `tag` once a
/// record is set up, zero in a blank account.
pub open spec fn record_kind(initialized: bool, tag: Seq<u8>) -> Seq<u8> {
    if initialized {
        tag
    } else {
        zeros(8)
    }
}

/// Tells from the first eight bytes of `data` whether a record with the tag
/// `tag` is set up, or none yet; `None` where the bytes are neither the tag
/// nor zero.
pub(crate) fn kind_of(data: &[u8], tag: &[u8; 8]) -> (kind: Option<bool>)
    requires
        data@.len() >= 8,
        tag@ != zeros(8),
    ensures
        match kind {
            Some(initialized) => data@.subrange(0, 8) == record_kind(initialized, tag@),
            None => data@.subrange(0, 8) != tag@ && data@.subrange(0, 8) != zeros(8),
        },
{
    let mut tagged = true;
    let mut blank = true;
    let mut i: usize = 0;
    while i < 8
        invariant
            i <= 8,
            data@.len() >= 8,
            tagged == (forall|j: int| 0 <= j < i ==> data@[j] == tag@[j]),
            blank == (forall|j: int| 0 <= j < i ==> data@[j] == 0u8),
        decreases 8 - i,
    {
        if data[i] != tag[i] {
            tagged = false;
        }
        if data[i] != 0 {
            blank = false;
        }
        i += 1;
    }
    proof {
        if tagged {
            assert(data@.subrange(0, 8) =~= tag@);
        } else {
            let j = choose|j: int| 0 <= j < 8 && data@[j] != tag@[j];
            assert(data@.subrange(0, 8)[j] == data@[j]);
        }
        if blank {
            assert(data@.subrange(0, 8) =~= zeros(8));
        } else {
            let j = choose|j: int| 0 <= j < 8 && data@[j] != 0u8;
            assert(data@.subrange(0, 8)[j] == data@[j]);
        }
    }
    if tagged {
        Some(true)
    } else if blank {
        Some(false)
    } else {
        None
    }
}

/// The sixteen bytes of `bytes` from `at` on, as a data-type tag.
pub(crate) fn tag_at(bytes: &[u8], at: usize) -> (tag: [u8; 16])
    requires
        at + 16 <= bytes@.len(),
    ensures
        tag@ == bytes@.subrange(at as int, at + 16),
{
    let mut tag = [0u8; 16];
    let len: usize = bytes.len();
    let mut i: usize = 0;
    while i < 16
        invariant
            i <= 16,
            at + 16 <= len,
            len == bytes@.len(),
            forall|j: int| 0 <= j < i ==> tag@[j] == bytes@[at + j],
        decreases 16 - i,
    {
        tag[i] = bytes[at + i];
        i += 1;
    }
    assert(tag@ =~= bytes@.subrange(at as int, at + 16));
    tag
}

/// The thirty-two bytes of `bytes` from `at` on, as a key.
pub(crate) fn key_at(bytes: &[u8], at: usize) -> (key: Pubkey)
    requires
        at + 32 <= bytes@.len(),
    ensures
        key@ == bytes@.subrange(at as int, at + 32),
{
    let mut key = [0u8; 32];
    let len: usize = bytes.len();
    let mut i: usize = 0;
    while i < 32
        invariant
            i <= 32,
            at + 32 <= len,
            len == bytes@.len(),
            forall|j: int| 0 <= j < i ==> key@[j] == bytes@[at + j],
        decreases 32 - i,
    {
        key[i] = bytes[at + i];
        i += 1;
    }
    assert(key@ =~= bytes@.subrange(at as int, at + 32));
    key
}

/// Why an account is not closed for `signer`, if it is not: `account` says
/// whether there is a record, with the authority it names and the deposit it
/// holds.
pub open spec fn close_refusal<E>(account: Option<(bool, Pubkey, u64)>, signer: Signer) -> Option<
    Rejection<E>,
> {
    match account {
        None => Some(Rejection::AccountNotInitialized),
        Some((initialized, authority, lamports)) => {
            if !initialized {
                Some(Rejection::AccountNotInitialized)
            } else if authority != signer.key || is_erased_authority(signer.key) {
                Some(Rejection::ConstraintRaw)
            } else if signer.lamports + lamports > u64::MAX {
                Some(Rejection::Overflow)
            } else {
                None
            }
        },
    }
}

/// Decides whether the signer may close an account that names `authority`
/// and holds `lamports`, and says what the signer holds afterwards.
pub(crate) fn closed_for<E>(initialized: bool, authority: &Pubkey, lamports: u64, signer: &Signer) -> (refund: Result<
    u64,
    Rejection<E>,
>)
    ensures
        match close_refusal::<E>(Some((initialized, *authority, lamports)), *signer) {
            Some(rejection) => refund matches Err(e) && e == rejection,
            None => refund matches Ok(sum) && sum == signer.lamports + lamports,
        },
{
    if !initialized {
        return Err(Rejection::AccountNotInitialized);
    }
    if !same_key(authority, &signer.key) || is_erased(&signer.key) {
        return Err(Rejection::ConstraintRaw);
    }
    if lamports > u64::MAX - signer.lamports {
        return Err(Rejection::Overflow);
    }
    Ok(signer.lamports + lamports)
}

/// Why an account with `capacity` trailing bytes behind a header of `header`
/// bytes is not resized to `len` bytes for `signer`, if it is not.
pub open spec fn resize_refusal<E>(
    initialized: bool,
    authority: Pubkey,
    capacity: nat,
    header: nat,
    signer: Pubkey,
    len: u16,
) -> Option<Rejection<E>> {
    if !initialized {
        Some(Rejection::AccountNotInitialized)
    } else if authority != signer {
        Some(Rejection::ConstraintRaw)
    } else if len < header {
        Some(Rejection::InvalidRealloc)
    } else if len - header > capacity + MAX_PERMITTED_DATA_INCREASE {
        Some(Rejection::InvalidRealloc)
    } else {
        None
    }
}

/// The length of the content once `capacity` trailing bytes are left: the
/// length as it was, or the capacity where that is less.
pub open spec fn clamped(data_len: u32, capacity: nat) -> u32 {
    if data_len <= capacity {
        data_len
    } else {
        capacity as u32
    }
}

/// Cuts or zero-fills `trailing` so that the account has `len` bytes in all,
/// where the signer may do so and the ledger allows the step. Content that
/// the cut leaves no room for no longer counts.
pub(crate) fn reallocate<E>(
    initialized: bool,
    authority: &Pubkey,
    data_len: &mut u32,
    trailing: &mut Vec<u8>,
    header: usize,
    signer: &Pubkey,
    len: u16,
) -> (done: Result<(), Rejection<E>>)
    ensures
        match resize_refusal::<E>(
            initialized,
            *authority,
            old(trailing)@.len(),
            header as nat,
            *signer,
            len,
        ) {
            Some(rejection) => {
                &&& done matches Err(e) && e == rejection
                &&& *final(trailing) == *old(trailing)
                &&& *final(data_len) == *old(data_len)
            },
            None => {
                &&& done is Ok
                &&& final(trailing)@ == resized(old(trailing)@, (len - header) as nat)
                &&& *final(data_len) == clamped(*old(data_len), (len - header) as nat)
            },
        },
{
    if !initialized {
        return Err(Rejection::AccountNotInitialized);
    }
    if !same_key(authority, signer) {
        return Err(Rejection::ConstraintRaw);
    }
    if (len as usize) < header {
        return Err(Rejection::InvalidRealloc);
    }
    let capacity: usize = len as usize - header;
    if capacity > trailing.len() && capacity - trailing.len() > MAX_PERMITTED_DATA_INCREASE {
        return Err(Rejection::InvalidRealloc);
    }
    resize_to(trailing, capacity);
    if *data_len as usize > capacity {
        *data_len = capacity as u32;
    }
    Ok(())
}

/// The content of a record or buffer: the trailing bytes, and how many of
/// them count.
pub struct Content {
    pub data_len: nat,
    pub trailing: Seq<u8>,
}

impl Content {
    /// The bytes that count.
    pub open spec fn payload(self) -> Seq<u8> {
        self.trailing.subrange(0, self.data_len as int)
    }

    /// The bytes that count are within those that are allocated.
    pub open spec fn fits(self) -> bool {
        self.data_len <= self.trailing.len()
    }

    /// The content after `data` was appended: `data` stands behind the bytes
    /// that counted, and the length has grown by its length.
    pub open spec fn append(self, data: Seq<u8>) -> Content {
        Content {
            data_len: self.data_len + data.len(),
            trailing: written(self.trailing, self.data_len as int, data),
        }
    }
}

/// Writing a payload over the start of trailing bytes that have room for it
/// makes it the payload, whole; the bytes behind it stay as they were.
pub proof fn lemma_replace_payload(trailing: Seq<u8>, payload: Seq<u8>)
    requires
        payload.len() <= trailing.len(),
    ensures
        (Content { data_len: payload.len(), trailing: written(trailing, 0, payload) }).payload()
            == payload,
        written(trailing, 0, payload).len() == trailing.len(),
        forall|i: int|
            payload.len() <= i < trailing.len() ==> written(trailing, 0, payload)[i] == trailing[i],
{
    assert(written(trailing, 0, payload).subrange(0, payload.len() as int) =~= payload);
}

/// The sum of the lengths of the chunks.
pub open spec fn total_len(chunks: Seq<Seq<u8>>) -> nat
    decreases chunks.len(),
{
    if chunks.len() == 0 {
        0
    } else {
        chunks.first().len() + total_len(chunks.drop_first())
    }
}

/// The chunks laid end to end have the sum of their lengths.
pub proof fn lemma_total_len(chunks: Seq<Seq<u8>>)
    ensures
        chunks.flatten().len() == total_len(chunks),
    decreases chunks.len(),
{
    if chunks.len() > 0 {
        lemma_total_len(chunks.drop_first());
    }
}

/// Appending stores the data behind the old payload and touches nothing
/// else: the payload becomes the old payload followed by the data.
pub proof fn lemma_append_payload(content: Content, data: Seq<u8>)
    requires
        content.data_len + data.len() <= content.trailing.len(),
    ensures
        content.append(data).fits(),
        content.append(data).trailing.len() == content.trailing.len(),
        content.append(data).payload() == content.payload() + data,
{
    assert(content.append(data).payload() =~= content.payload() + data);
}

} // verus!
