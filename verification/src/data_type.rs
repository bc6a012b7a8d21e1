//! The data-type tag of a record: sixteen bytes that hold a short text,
//! padded with zero bytes, and read as UTF-8 up to the first zero byte.

use crate::account::zeros;
use vstd::prelude::*;
use vstd::slice::slice_subrange;
use vstd::string::StringSliceAdditionalSpecFns;
use vstd::utf8::{decode_utf8, encode_utf8, valid_utf8};

verus! {

/// The tag that holds `text`: the text, then zero bytes up to sixteen.
pub open spec fn tag_of(text: Seq<u8>) -> Seq<u8>
    recommends
        text.len() <= 16,
{
    text + zeros((16 - text.len()) as nat)
}

/// The text of `tag` ends at `n`: no byte before `n` is zero, and `n` is the
/// tag's end or the place of a zero byte.
pub open spec fn text_ends_at(tag: Seq<u8>, n: int) -> bool {
    &&& 0 <= n <= tag.len()
    &&& forall|j: int| 0 <= j < n ==> tag[j] != 0u8
    &&& n < tag.len() ==> tag[n] == 0u8
}

/// The number of bytes before the first zero byte of `tag`, or the tag's
/// length where it has none.
pub open spec fn text_len(tag: Seq<u8>) -> int {
    choose|n: int| text_ends_at(tag, n)
}

/// The bytes of `tag` before its first zero byte.
pub open spec fn text_of(tag: Seq<u8>) -> Seq<u8> {
    tag.subrange(0, text_len(tag))
}

/// The text of a tag ends at one place only.
pub proof fn lemma_text_len_unique(tag: Seq<u8>, n: int)
    requires
        text_ends_at(tag, n),
    ensures
        text_len(tag) == n,
{
    let m = text_len(tag);
    assert(text_ends_at(tag, m));
    if m < n {
        assert(tag[m] != 0u8);
    }
    if n < m {
        assert(tag[n] != 0u8);
    }
}

/// A text without a zero byte, of sixteen bytes at most, is read back from
/// its tag as it was written.
pub proof fn lemma_text_of_tag(text: Seq<u8>)
    requires
        text.len() <= 16,
        forall|j: int| 0 <= j < text.len() ==> text[j] != 0u8,
    ensures
        text_of(tag_of(text)) == text,
{
    let tag = tag_of(text);
    assert(text_ends_at(tag, text.len() as int));
    lemma_text_len_unique(tag, text.len() as int);
    assert(tag.subrange(0, text.len() as int) =~= text);
}

/// What `String::from_utf8_lossy` makes of `bytes`: their text, with each
/// ill-formed part replaced by U+FFFD.
pub uninterp spec fn lossy_text(bytes: Seq<u8>) -> Seq<char>;

/// Calls `String::from_utf8_lossy` of std and copies the result into a
/// `String`. The contract names the result [`lossy_text`], and claims of it
/// what std documents: bytes that are valid UTF-8 give their own text.
#[verifier::external_body]
pub(crate) fn from_utf8_lossy(bytes: &[u8]) -> (text: String)
    ensures
        text@ == lossy_text(bytes@),
        valid_utf8(bytes@) ==> text@ == decode_utf8(bytes@),
{
    String::from_utf8_lossy(bytes).into_owned()
}

/// Writes `data_type` into `tag`, zero-padded, where it has sixteen bytes at
/// most; leaves `tag` as it is and answers `false` where it has more.
pub fn write_tag(tag: &mut [u8; 16], data_type: &str) -> (fits: bool)
    ensures
        fits == (data_type.spec_bytes().len() <= 16),
        fits ==> final(tag)@ == tag_of(data_type.spec_bytes()),
        !fits ==> *final(tag) == *old(tag),
{
    let bytes = data_type.as_bytes();
    if bytes.len() > 16 {
        return false;
    }
    let mut i: usize = 0;
    while i < 16
        invariant
            i <= 16,
            bytes@ == data_type.spec_bytes(),
            bytes@.len() <= 16,
            forall|j: int|
                0 <= j < i ==> tag@[j] == (if j < bytes@.len() {
                    bytes@[j]
                } else {
                    0u8
                }),
        decreases 16 - i,
    {
        if i < bytes.len() {
            tag[i] = bytes[i];
        } else {
            tag[i] = 0;
        }
        i += 1;
    }
    assert(tag@ =~= tag_of(data_type.spec_bytes()));
    true
}

/// The text of `tag`: its bytes before the first zero byte, read as UTF-8
/// with ill-formed parts replaced.
pub fn read_tag(tag: &[u8; 16]) -> (text: String)
    ensures
        text@ == lossy_text(text_of(tag@)),
        valid_utf8(text_of(tag@)) ==> text@ == decode_utf8(text_of(tag@)),
{
    let mut len: usize = 0;
    while len < 16 && tag[len] != 0
        invariant
            len <= 16,
            forall|j: int| 0 <= j < len ==> tag@[j] != 0u8,
        decreases 16 - len,
    {
        len += 1;
    }
    proof {
        lemma_text_len_unique(tag@, len as int);
    }
    let text = slice_subrange(tag.as_slice(), 0, len);
    from_utf8_lossy(text)
}

/// A text without a NUL, of sixteen bytes at most, is read from the tag it
/// was written to as the same text.
pub proof fn lemma_tag_round_trip(data_type: &str)
    requires
        data_type.spec_bytes().len() <= 16,
        forall|j: int| 0 <= j < data_type.spec_bytes().len() ==> data_type.spec_bytes()[j] != 0u8,
    ensures
        valid_utf8(text_of(tag_of(data_type.spec_bytes()))),
        decode_utf8(text_of(tag_of(data_type.spec_bytes()))) == data_type@,
{
    broadcast use vstd::utf8::encode_utf8_valid_utf8, vstd::utf8::encode_utf8_decode_utf8;

    lemma_text_of_tag(data_type.spec_bytes());
    assert(data_type.spec_bytes() == encode_utf8(data_type@));
}

} // verus!
