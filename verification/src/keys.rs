//! Account keys: the 32-byte addresses of the ledger, the well-known keys the
//! protocol compares against, and the derivation of program addresses.

use vstd::prelude::*;

verus! {

/// A 32-byte account address.
pub type Pubkey = [u8; 32];

/// The key that marks an authority as erased: thirty-two zero bytes.
pub open spec fn is_erased_authority(key: Pubkey) -> bool {
    key@ == Seq::new(32, |i: int| 0u8)
}

/// The bytes of the upgradeable loader's key,
/// `BPFLoaderUpgradeab1e11111111111111111111111`.
pub open spec fn bpf_loader_upgradeable_key() -> Seq<u8> {
    seq![
        2u8, 168, 246, 145, 78, 136, 161, 176, 226, 16, 21, 62, 247, 99, 174, 43,
        0, 194, 185, 61, 22, 193, 36, 210, 192, 83, 122, 16, 4, 128, 0, 0,
    ]
}

/// The upgradeable loader.
pub open spec fn is_bpf_loader_upgradeable(key: Pubkey) -> bool {
    key@ == bpf_loader_upgradeable_key()
}

/// The plain loader, `BPFLoader2111111111111111111111111111111111`.
pub open spec fn is_bpf_loader(key: Pubkey) -> bool {
    key@ == seq![
        2u8, 168, 246, 145, 78, 136, 161, 110, 57, 90, 225, 40, 148, 143, 250, 105,
        86, 147, 55, 104, 24, 221, 71, 67, 82, 33, 243, 198, 0, 0, 0, 0,
    ]
}

/// The deprecated loader, `BPFLoader1111111111111111111111111111111111`.
pub open spec fn is_bpf_loader_deprecated(key: Pubkey) -> bool {
    key@ == seq![
        2u8, 168, 246, 145, 78, 136, 161, 107, 189, 35, 149, 133, 95, 100, 4, 217,
        180, 244, 86, 183, 130, 27, 176, 20, 87, 73, 66, 140, 0, 0, 0, 0,
    ]
}

/// The system program, `11111111111111111111111111111111`. Its bytes are those
/// of the erased authority.
pub open spec fn is_system_program(key: Pubkey) -> bool {
    key@ == Seq::new(32, |i: int| 0u8)
}

/// A loader that may own an executable module.
pub open spec fn is_recognized_loader(key: Pubkey) -> bool {
    is_bpf_loader_upgradeable(key) || is_bpf_loader(key) || is_bpf_loader_deprecated(key)
}

/// The key that marks an authority as erased.
pub fn erased_authority() -> (key: Pubkey)
    ensures
        is_erased_authority(key),
{
    let key = [0u8; 32];
    assert(key@ =~= Seq::new(32, |i: int| 0u8));
    key
}

/// The key of the upgradeable loader.
pub fn bpf_loader_upgradeable_id() -> (key: Pubkey)
    ensures
        is_bpf_loader_upgradeable(key),
{
    let key = [
        2u8, 168, 246, 145, 78, 136, 161, 176, 226, 16, 21, 62, 247, 99, 174, 43,
        0, 194, 185, 61, 22, 193, 36, 210, 192, 83, 122, 16, 4, 128, 0, 0,
    ];
    assert(key@ =~= bpf_loader_upgradeable_key());
    key
}

/// The key of the plain loader.
pub fn bpf_loader_id() -> (key: Pubkey)
    ensures
        is_bpf_loader(key),
{
    let key = [
        2u8, 168, 246, 145, 78, 136, 161, 110, 57, 90, 225, 40, 148, 143, 250, 105,
        86, 147, 55, 104, 24, 221, 71, 67, 82, 33, 243, 198, 0, 0, 0, 0,
    ];
    assert(key@ =~= seq![
        2u8, 168, 246, 145, 78, 136, 161, 110, 57, 90, 225, 40, 148, 143, 250, 105,
        86, 147, 55, 104, 24, 221, 71, 67, 82, 33, 243, 198, 0, 0, 0, 0,
    ]);
    key
}

/// The key of the deprecated loader.
pub fn bpf_loader_deprecated_id() -> (key: Pubkey)
    ensures
        is_bpf_loader_deprecated(key),
{
    let key = [
        2u8, 168, 246, 145, 78, 136, 161, 107, 189, 35, 149, 133, 95, 100, 4, 217,
        180, 244, 86, 183, 130, 27, 176, 20, 87, 73, 66, 140, 0, 0, 0, 0,
    ];
    assert(key@ =~= seq![
        2u8, 168, 246, 145, 78, 136, 161, 107, 189, 35, 149, 133, 95, 100, 4, 217,
        180, 244, 86, 183, 130, 27, 176, 20, 87, 73, 66, 140, 0, 0, 0, 0,
    ]);
    key
}

/// The key of the system program.
pub fn system_program_id() -> (key: Pubkey)
    ensures
        is_system_program(key),
{
    let key = [0u8; 32];
    assert(key@ =~= Seq::new(32, |i: int| 0u8));
    key
}

/// Two keys are the same address when all their bytes agree.
pub fn same_key(a: &Pubkey, b: &Pubkey) -> (same: bool)
    ensures
        same == (*a == *b),
        same == (a@ == b@),
{
    let mut i: usize = 0;
    while i < 32
        invariant
            i <= 32,
            forall|j: int| 0 <= j < i ==> a@[j] == b@[j],
        decreases 32 - i,
    {
        if a[i] != b[i] {
            return false;
        }
        i += 1;
    }
    assert(a@ =~= b@);
    assert(*a =~= *b);
    true
}

/// Whether an optional key is present and equal to `key`.
pub fn is_some_key(candidate: &Option<Pubkey>, key: &Pubkey) -> (same: bool)
    ensures
        same == (*candidate == Some(*key)),
{
    match candidate {
        Some(k) => same_key(k, key),
        None => false,
    }
}

/// Whether `key` is the erased authority.
pub fn is_erased(key: &Pubkey) -> (erased: bool)
    ensures
        erased == is_erased_authority(*key),
{
    let sentinel = erased_authority();
    same_key(key, &sentinel)
}

/// Whether `owner` is one of the three loaders that own executable modules.
pub fn is_loader(owner: &Pubkey) -> (known: bool)
    ensures
        known == is_recognized_loader(*owner),
{
    let upgradeable = bpf_loader_upgradeable_id();
    let plain = bpf_loader_id();
    let deprecated = bpf_loader_deprecated_id();
    same_key(owner, &upgradeable) || same_key(owner, &plain) || same_key(owner, &deprecated)
}

/// The longest seed that an address may be derived from, in bytes.
pub const MAX_SEED_LEN: usize = 32;

/// The largest number of seeds, the bump seed included.
pub const MAX_SEEDS: usize = 16;

/// The address that the ledger derives from `seeds` under `program`, with the
/// bump seed that was needed, or `None` where no address can be derived.
pub uninterp spec fn program_address(seeds: Seq<Seq<u8>>, program: Seq<u8>) -> Option<(Seq<u8>, u8)>;

/// The views of a list of seeds.
pub open spec fn seeds_view(seeds: &Vec<Vec<u8>>) -> Seq<Seq<u8>> {
    Seq::new(seeds@.len(), |i: int| seeds@[i]@)
}

/// Calls `Pubkey::try_find_program_address` of solana-sdk. The contract claims
/// that the outcome is a function of the seeds and the program's key alone,
/// and names it [`program_address`]: the crate hashes the seeds, a bump seed
/// that it counts down from 255, the program's key and a fixed marker, and
/// takes the first hash that is no point of the curve; it returns `None`
/// where a seed is longer than 32 bytes, where there are more than 15 seeds,
/// or where no bump seed gives an address.
#[verifier::external_body]
pub(crate) fn find_program_address(seeds: &Vec<Vec<u8>>, program: &Pubkey) -> (found: Option<(Pubkey, u8)>)
    ensures
        match found {
            Some((key, bump)) => program_address(seeds_view(seeds), program@) == Some((key@, bump)),
            None => program_address(seeds_view(seeds), program@) is None,
        },
{
    let parts: Vec<&[u8]> = seeds.iter().map(|seed| seed.as_slice()).collect();
    let program = solana_sdk::pubkey::Pubkey::new_from_array(*program);
    solana_sdk::pubkey::Pubkey::try_find_program_address(&parts, &program)
        .map(|(key, bump)| (key.to_bytes(), bump))
}

/// The key that a base58 text stands for, or `None` where it stands for none.
pub uninterp spec fn parsed_key(text: Seq<char>) -> Option<Seq<u8>>;

/// Calls `Pubkey::from_str` of solana-sdk. The contract claims that the
/// outcome is a function of the text alone, and names it [`parsed_key`]: the
/// crate decodes base58 and refuses a text of more than 44 bytes, one with a
/// character outside the alphabet, and one that does not decode to exactly 32
/// bytes.
#[verifier::external_body]
pub(crate) fn parse_key(text: &str) -> (parsed: Option<Pubkey>)
    ensures
        match parsed {
            Some(key) => parsed_key(text@) == Some(key@),
            None => parsed_key(text@) is None,
        },
{
    match <solana_sdk::pubkey::Pubkey as std::str::FromStr>::from_str(text) {
        Ok(key) => Some(key.to_bytes()),
        Err(_) => None,
    }
}

} // verus!
