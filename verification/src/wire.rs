//! The instructions of the metadata program as a transaction carries them:
//! the data of an instruction, and the accounts that it names.

use crate::account::append_bytes;
use crate::commands::{Accounts, Instruction};
use crate::data_type::{lossy_text, read_tag, text_of};
use crate::keys::{is_system_program, system_program_id, Pubkey};
use vstd::bytes::{spec_u16_to_le_bytes, spec_u32_to_le_bytes, u16_to_le_bytes, u32_to_le_bytes};
use vstd::prelude::*;
use vstd::slice::slice_subrange;
use vstd::string::StringSliceAdditionalSpecFns;
use vstd::utf8::encode_utf8;

verus! {

/// An account that an instruction names, and what the instruction may do
/// with it.
#[derive(Clone, Copy, Debug, PartialEq, Eq)]
pub struct AccountMeta {
    pub pubkey: Pubkey,
    /// Whether the account must have signed the transaction.
    pub is_signer: bool,
    /// Whether the instruction may change the account.
    pub is_writable: bool,
}

/// The eight bytes at the start of an instruction's data that tell the
/// instructions of the program apart; empty for an instruction of another
/// program.
pub open spec fn selector(instruction: Instruction) -> Seq<u8> {
    match instruction {
        Instruction::Initialize { .. } => seq![175u8, 175, 109, 31, 13, 152, 155, 237],
        Instruction::CreateBuffer { .. } => seq![175u8, 76, 101, 74, 224, 249, 104, 170],
        Instruction::WriteBuffer { .. } => seq![164u8, 194, 69, 154, 75, 169, 228, 85],
        Instruction::Resize { .. } => seq![74u8, 27, 74, 155, 56, 134, 175, 125],
        Instruction::SetBuffer { .. } => seq![13u8, 212, 241, 0, 78, 93, 17, 51],
        Instruction::CloseBuffer { .. } => seq![46u8, 114, 179, 58, 57, 45, 194, 172],
        _ => Seq::empty(),
    }
}

/// Bytes behind their number, which stands in four bytes with the little end
/// first.
pub open spec fn length_prefixed(bytes: Seq<u8>) -> Seq<u8>
    recommends
        bytes.len() <= u32::MAX,
{
    spec_u32_to_le_bytes(bytes.len() as u32) + bytes
}

/// The text of a data-type tag, as an instruction carries it.
pub open spec fn tag_text(tag: Seq<u8>) -> Seq<u8> {
    encode_utf8(lossy_text(text_of(tag)))
}

/// The arguments of an instruction of the program, behind the selector;
/// `None` for an instruction of another program, and for a chunk that is not
/// within the compressed blob.
pub open spec fn arguments(instruction: Instruction, compressed: Seq<u8>) -> Option<Seq<u8>> {
    match instruction {
        Instruction::Initialize { data_type, seed, .. } => Some(
            length_prefixed(tag_text(data_type@)) + length_prefixed(seed.spec_seed().spec_bytes()),
        ),
        Instruction::CreateBuffer { data_type, .. } => Some(length_prefixed(tag_text(data_type@))),
        Instruction::WriteBuffer { start, end, .. } => if start <= end <= compressed.len() {
            Some(length_prefixed(compressed.subrange(start as int, end as int)))
        } else {
            None
        },
        Instruction::Resize { len, .. } => Some(spec_u16_to_le_bytes(len)),
        Instruction::SetBuffer { .. } => Some(Seq::empty()),
        Instruction::CloseBuffer { .. } => Some(Seq::empty()),
        _ => None,
    }
}

/// Whether the lengths that the data of the instruction holds fit their four
/// bytes.
pub open spec fn lengths_fit(instruction: Instruction) -> bool {
    match instruction {
        Instruction::Initialize { data_type, seed, .. } => tag_text(data_type@).len() <= u32::MAX
            && seed.spec_seed().spec_bytes().len() <= u32::MAX,
        Instruction::CreateBuffer { data_type, .. } => tag_text(data_type@).len() <= u32::MAX,
        Instruction::WriteBuffer { start, end, .. } => end - start <= u32::MAX,
        _ => true,
    }
}

/// The data of an instruction of the program: the selector, then the
/// arguments.
pub open spec fn spec_instruction_data(instruction: Instruction, compressed: Seq<u8>) -> Option<Seq<u8>> {
    match arguments(instruction, compressed) {
        Some(bytes) => if lengths_fit(instruction) {
            Some(selector(instruction) + bytes)
        } else {
            None
        },
        None => None,
    }
}

/// Appends `bytes` to `out`, behind their number.
fn append_length_prefixed(out: &mut Vec<u8>, bytes: &[u8])
    requires
        bytes@.len() <= u32::MAX,
    ensures
        final(out)@ == old(out)@ + length_prefixed(bytes@),
{
    let length = u32_to_le_bytes(bytes.len() as u32);
    append_bytes(out, length.as_slice());
    append_bytes(out, bytes);
    assert(out@ =~= old(out)@ + length_prefixed(bytes@));
}

/// The eight bytes that tell the instruction apart.
fn selector_of(instruction: &Instruction) -> (bytes: Vec<u8>)
    ensures
        bytes@ == selector(*instruction),
{
    let mut bytes: Vec<u8> = Vec::new();
    match instruction {
        Instruction::Initialize { .. } => {
            let tag = [175u8, 175, 109, 31, 13, 152, 155, 237];
            append_bytes(&mut bytes, tag.as_slice());
        },
        Instruction::CreateBuffer { .. } => {
            let tag = [175u8, 76, 101, 74, 224, 249, 104, 170];
            append_bytes(&mut bytes, tag.as_slice());
        },
        Instruction::WriteBuffer { .. } => {
            let tag = [164u8, 194, 69, 154, 75, 169, 228, 85];
            append_bytes(&mut bytes, tag.as_slice());
        },
        Instruction::Resize { .. } => {
            let tag = [74u8, 27, 74, 155, 56, 134, 175, 125];
            append_bytes(&mut bytes, tag.as_slice());
        },
        Instruction::SetBuffer { .. } => {
            let tag = [13u8, 212, 241, 0, 78, 93, 17, 51];
            append_bytes(&mut bytes, tag.as_slice());
        },
        Instruction::CloseBuffer { .. } => {
            let tag = [46u8, 114, 179, 58, 57, 45, 194, 172];
            append_bytes(&mut bytes, tag.as_slice());
        },
        _ => {},
    }
    assert(bytes@ =~= selector(*instruction));
    bytes
}

/// The data of an instruction of the program, as a transaction carries it:
/// the selector, and behind it the arguments, each text and each run of bytes
/// behind its length. `None` for an instruction of another program, for a
/// chunk that is not within the compressed blob, and where a length does not
/// fit its four bytes.
pub fn instruction_data(instruction: &Instruction, compressed: &[u8]) -> (data: Option<Vec<u8>>)
    ensures
        match spec_instruction_data(*instruction, compressed@) {
            Some(bytes) => data matches Some(d) && d@ == bytes,
            None => data is None,
        },
{
    let mut data = selector_of(instruction);
    match instruction {
        Instruction::Initialize { data_type, seed, .. } => {
            let text = read_tag(data_type);
            let text_bytes = text.as_str().as_bytes();
            let seed_bytes = seed.seed().as_bytes();
            if text_bytes.len() > u32::MAX as usize || seed_bytes.len() > u32::MAX as usize {
                return None;
            }
            append_length_prefixed(&mut data, text_bytes);
            append_length_prefixed(&mut data, seed_bytes);
            assert(data@ =~= selector(*instruction) + arguments(*instruction, compressed@).unwrap());
            Some(data)
        },
        Instruction::CreateBuffer { data_type, .. } => {
            let text = read_tag(data_type);
            let text_bytes = text.as_str().as_bytes();
            if text_bytes.len() > u32::MAX as usize {
                return None;
            }
            append_length_prefixed(&mut data, text_bytes);
            Some(data)
        },
        Instruction::WriteBuffer { start, end, .. } => {
            if *start > *end || *end > compressed.len() {
                return None;
            }
            if *end - *start > u32::MAX as usize {
                return None;
            }
            append_length_prefixed(&mut data, slice_subrange(compressed, *start, *end));
            Some(data)
        },
        Instruction::Resize { len, .. } => {
            let bytes = u16_to_le_bytes(*len);
            append_bytes(&mut data, bytes.as_slice());
            Some(data)
        },
        Instruction::SetBuffer { .. } => {
            assert(data@ =~= selector(*instruction) + Seq::<u8>::empty());
            Some(data)
        },
        Instruction::CloseBuffer { .. } => {
            assert(data@ =~= selector(*instruction) + Seq::<u8>::empty());
            Some(data)
        },
        _ => None,
    }
}

/// An account that the instruction only reads.
pub open spec fn read_only(pubkey: Pubkey) -> AccountMeta {
    AccountMeta { pubkey, is_signer: false, is_writable: false }
}

/// An account that the instruction may change.
pub open spec fn writable(pubkey: Pubkey) -> AccountMeta {
    AccountMeta { pubkey, is_signer: false, is_writable: true }
}

/// What holds of the accounts that an upload's instruction names, in their
/// order: the record or the buffer first, then who signs, then the programs
/// and the module. `system` is the system program.
pub open spec fn names_accounts(
    instruction: Instruction,
    module: Pubkey,
    system: Pubkey,
    metas: Seq<AccountMeta>,
) -> bool {
    match instruction {
        Instruction::Initialize { pda, signer, program_id, program_data, .. } => metas == seq![
            writable(pda),
            AccountMeta { pubkey: signer, is_signer: true, is_writable: true },
            read_only(system),
            read_only(program_id),
            read_only(program_data),
        ],
        Instruction::CreateBuffer { buffer, authority, .. } => metas == seq![
            writable(buffer),
            AccountMeta { pubkey: authority, is_signer: true, is_writable: false },
        ],
        Instruction::WriteBuffer { buffer, signer, .. } => metas == seq![
            writable(buffer),
            AccountMeta { pubkey: signer, is_signer: true, is_writable: true },
            read_only(system),
        ],
        Instruction::Resize { pda, signer, .. } => metas == seq![
            writable(pda),
            AccountMeta { pubkey: signer, is_signer: true, is_writable: true },
            read_only(system),
            read_only(module),
        ],
        Instruction::SetBuffer { buffer, pda, authority, program_id, program_data } => metas == seq![
            writable(buffer),
            writable(pda),
            AccountMeta { pubkey: authority, is_signer: true, is_writable: false },
            read_only(program_id),
            read_only(program_data),
        ],
        Instruction::CloseBuffer { buffer, authority } => metas == seq![
            writable(buffer),
            AccountMeta { pubkey: authority, is_signer: true, is_writable: true },
        ],
        _ => metas == Seq::<AccountMeta>::empty(),
    }
}

/// The accounts that an instruction of an upload names, in their order;
/// empty for an instruction of another program.
pub fn instruction_accounts(instruction: &Instruction, accounts: &Accounts) -> (metas: Vec<AccountMeta>)
    ensures
        exists|system: Pubkey|
            is_system_program(system) && names_accounts(*instruction, accounts.program, system, metas@),
{
    let system = system_program_id();
    let mut metas: Vec<AccountMeta> = Vec::new();
    match instruction {
        Instruction::Initialize { pda, signer, program_id, program_data, .. } => {
            metas.push(AccountMeta { pubkey: *pda, is_signer: false, is_writable: true });
            metas.push(AccountMeta { pubkey: *signer, is_signer: true, is_writable: true });
            metas.push(AccountMeta { pubkey: system, is_signer: false, is_writable: false });
            metas.push(AccountMeta { pubkey: *program_id, is_signer: false, is_writable: false });
            metas.push(AccountMeta { pubkey: *program_data, is_signer: false, is_writable: false });
        },
        Instruction::CreateBuffer { buffer, authority, .. } => {
            metas.push(AccountMeta { pubkey: *buffer, is_signer: false, is_writable: true });
            metas.push(AccountMeta { pubkey: *authority, is_signer: true, is_writable: false });
        },
        Instruction::WriteBuffer { buffer, signer, .. } => {
            metas.push(AccountMeta { pubkey: *buffer, is_signer: false, is_writable: true });
            metas.push(AccountMeta { pubkey: *signer, is_signer: true, is_writable: true });
            metas.push(AccountMeta { pubkey: system, is_signer: false, is_writable: false });
        },
        Instruction::Resize { pda, signer, .. } => {
            metas.push(AccountMeta { pubkey: *pda, is_signer: false, is_writable: true });
            metas.push(AccountMeta { pubkey: *signer, is_signer: true, is_writable: true });
            metas.push(AccountMeta { pubkey: system, is_signer: false, is_writable: false });
            metas.push(AccountMeta { pubkey: accounts.program, is_signer: false, is_writable: false });
        },
        Instruction::SetBuffer { buffer, pda, authority, program_id, program_data } => {
            metas.push(AccountMeta { pubkey: *buffer, is_signer: false, is_writable: true });
            metas.push(AccountMeta { pubkey: *pda, is_signer: false, is_writable: true });
            metas.push(AccountMeta { pubkey: *authority, is_signer: true, is_writable: false });
            metas.push(AccountMeta { pubkey: *program_id, is_signer: false, is_writable: false });
            metas.push(AccountMeta { pubkey: *program_data, is_signer: false, is_writable: false });
        },
        Instruction::CloseBuffer { buffer, authority } => {
            metas.push(AccountMeta { pubkey: *buffer, is_signer: false, is_writable: true });
            metas.push(AccountMeta { pubkey: *authority, is_signer: true, is_writable: true });
        },
        _ => {},
    }
    proof {
        match *instruction {
            Instruction::Initialize { pda, signer, program_id, program_data, .. } => {
                assert(metas@ =~= seq![
                    writable(pda),
                    AccountMeta { pubkey: signer, is_signer: true, is_writable: true },
                    read_only(system),
                    read_only(program_id),
                    read_only(program_data),
                ]);
            },
            Instruction::CreateBuffer { buffer, authority, .. } => {
                assert(metas@ =~= seq![
                    writable(buffer),
                    AccountMeta { pubkey: authority, is_signer: true, is_writable: false },
                ]);
            },
            Instruction::WriteBuffer { buffer, signer, .. } => {
                assert(metas@ =~= seq![
                    writable(buffer),
                    AccountMeta { pubkey: signer, is_signer: true, is_writable: true },
                    read_only(system),
                ]);
            },
            Instruction::Resize { pda, signer, .. } => {
                assert(metas@ =~= seq![
                    writable(pda),
                    AccountMeta { pubkey: signer, is_signer: true, is_writable: true },
                    read_only(system),
                    read_only(accounts.program),
                ]);
            },
            Instruction::SetBuffer { buffer, pda, authority, program_id, program_data } => {
                assert(metas@ =~= seq![
                    writable(buffer),
                    writable(pda),
                    AccountMeta { pubkey: authority, is_signer: true, is_writable: false },
                    read_only(program_id),
                    read_only(program_data),
                ]);
            },
            Instruction::CloseBuffer { buffer, authority } => {
                assert(metas@ =~= seq![
                    writable(buffer),
                    AccountMeta { pubkey: authority, is_signer: true, is_writable: true },
                ]);
            },
            _ => {
                assert(metas@ =~= Seq::<AccountMeta>::empty());
            },
        }
        assert(names_accounts(*instruction, accounts.program, system, metas@));
    }
    metas
}

} // verus!
