//! Base64, as requests and responses carry bytes in it.

use vstd::prelude::*;

verus! {

/// What `subtle_encoding::base64::encode` makes of `bytes`: their Base64
/// text, padded, as ASCII bytes.
pub uninterp spec fn base64_encoded(bytes: Seq<u8>) -> Seq<u8>;

/// What `subtle_encoding::base64::decode` makes of `text`: the bytes that
/// it stands for, where it is Base64.
pub uninterp spec fn base64_decoded(text: Seq<u8>) -> Option<Seq<u8>>;

/// The padding character of Base64.
pub const PAD: u8 = 61;

/// Where the last group of four characters of a text of `len` characters
/// begins.
pub open spec fn last_group(len: int) -> int {
    if len == 0 {
        0
    } else {
        4 * ((len - 1) / 4)
    }
}

/// The padding of `text` is in its place: padding characters stand only at
/// the end of the last group of four, and not at its start.
pub open spec fn padding_in_place(text: Seq<u8>) -> bool {
    text.len() > 0 ==> exists|end: int|
        last_group(text.len() as int) < end <= text.len() && padded_from(text, end)
}

/// The characters of `text` before `end` are no padding, and those from
/// `end` on are.
pub open spec fn padded_from(text: Seq<u8>, end: int) -> bool {
    &&& forall|i: int| 0 <= i < end && i < text.len() ==> #[trigger] text[i] != PAD
    &&& forall|i: int| end <= i < text.len() ==> #[trigger] text[i] == PAD
}

/// Tells whether the padding of `text` is in its place.
pub fn has_padding_in_place(text: &[u8]) -> (ok: bool)
    ensures
        ok == padding_in_place(text@),
{
    let len: usize = text.len();
    if len == 0 {
        return true;
    }
    let start: usize = 4 * ((len - 1) / 4);
    let mut end: usize = 0;
    while end < len && text[end] != PAD
        invariant
            end <= len,
            len == text@.len(),
            forall|i: int| 0 <= i < end ==> #[trigger] text@[i] != PAD,
        decreases len - end,
    {
        end += 1;
    }
    if end <= start {
        proof {
            assert forall|e: int| start < e <= len implies !padded_from(text@, e) by {
                if end < len {
                    assert(text@[end as int] == PAD);
                }
            }
        }
        return false;
    }
    let mut i: usize = end;
    while i < len
        invariant
            end <= i <= len,
            len == text@.len(),
            start < end,
            start == last_group(len as int),
            end < len ==> text@[end as int] == PAD,
            forall|k: int| 0 <= k < end ==> #[trigger] text@[k] != PAD,
            forall|k: int| end <= k < i ==> #[trigger] text@[k] == PAD,
        decreases len - i,
    {
        if text[i] != PAD {
            proof {
                assert forall|e: int| start < e <= len implies !padded_from(text@, e) by {
                    if e <= end {
                        assert(text@[i as int] != PAD);
                    } else {
                        assert(text@[end as int] == PAD);
                    }
                }
            }
            return false;
        }
        i += 1;
    }
    proof {
        assert(padded_from(text@, end as int));
    }
    true
}

/// Base64 text of `bytes`, by `subtle_encoding::base64::encode`. The
/// contract names the result and claims that it is ASCII: the encoder
/// writes letters, digits, `+`, `/` and `=` only. The length is bounded
/// because the encoder computes four times the length.
#[verifier::external_body]
pub(crate) fn base64_encode(bytes: &[u8]) -> (text: Vec<u8>)
    requires
        bytes@.len() * 4 <= usize::MAX,
    ensures
        text@ == base64_encoded(bytes@),
        forall|i: int| 0 <= i < text@.len() ==> #[trigger] text@[i] < 128,
{
    subtle_encoding::base64::encode(bytes)
}

/// Bytes that the Base64 text `text` stands for, by
/// `subtle_encoding::base64::decode`. The contract names the result: the
/// bytes where the decoder accepts the text, and nothing where it answers
/// with an error. Texts whose padding is out of place are left out, because
/// the decoder fails on some of them in ways other than by an error.
#[verifier::external_body]
pub(crate) fn base64_decode(text: &[u8]) -> (bytes: Option<Vec<u8>>)
    requires
        padding_in_place(text@),
    ensures
        match bytes {
            Some(decoded) => base64_decoded(text@) == Some(decoded@),
            None => base64_decoded(text@) is None,
        },
{
    subtle_encoding::base64::decode(text).ok()
}

} // verus!
