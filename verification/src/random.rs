//! Random identifiers.
use crate::text;
use uuid::Uuid;
use vstd::prelude::*;

verus! {

/// Sixteen bytes that say of themselves, in two places, that the rest was drawn at random.
pub open spec fn is_random_bytes(bytes: Seq<u8>) -> bool {
    &&& bytes.len() == 16
    &&& bytes[6] / 16 == 4
    &&& bytes[8] / 64 == 2
}

/// Sixteen such bytes in lower-case hexadecimal, in five groups with hyphens between them.
pub open spec fn is_random_id(s: Seq<char>) -> bool {
    exists|bytes: Seq<u8>| is_random_bytes(bytes) && s == #[trigger] hyphenated(bytes)
}

/// Sixteen bytes in hexadecimal, four of them before the first hyphen, then two, two, two and six.
pub open spec fn hyphenated(bytes: Seq<u8>) -> Seq<char> {
    text::hex_text(bytes.subrange(0, 4)).push('-') + text::hex_text(bytes.subrange(4, 6)).push('-')
        + text::hex_text(bytes.subrange(6, 8)).push('-') + text::hex_text(
        bytes.subrange(8, 10),
    ).push('-') + text::hex_text(bytes.subrange(10, 16))
}

/// `uuid::Uuid::new_v4`, written out by its `Display`: a random identifier in hyphenated form.
/// Which one it is, chance decides.
#[verifier::external_body]
pub(crate) fn random_id() -> (r: String)
    ensures
        is_random_id(r@),
{
    Uuid::new_v4().to_string()
}

/// `uuid::Uuid::new_v4`, taken by its bytes: sixteen bytes, six bits of which mark them as a random
/// identifier. Chance decides of the rest.
#[verifier::external_body]
pub(crate) fn random_bytes() -> (r: [u8; 16])
    ensures
        is_random_bytes(r@),
{
    *Uuid::new_v4().as_bytes()
}

/// A random identifier has 36 characters.
pub proof fn random_id_has_its_length(s: Seq<char>)
    requires
        is_random_id(s),
    ensures
        s.len() == 36,
{
    let bytes = choose|bytes: Seq<u8>| is_random_bytes(bytes) && s == #[trigger] hyphenated(bytes);
    text::lemma_hex_text_len(bytes.subrange(0, 4));
    text::lemma_hex_text_len(bytes.subrange(4, 6));
    text::lemma_hex_text_len(bytes.subrange(6, 8));
    text::lemma_hex_text_len(bytes.subrange(8, 10));
    text::lemma_hex_text_len(bytes.subrange(10, 16));
}

/// A random identifier holds nothing that separates the components of a path.
pub proof fn random_id_holds_no_separator(s: Seq<char>)
    requires
        is_random_id(s),
    ensures
        forall|i: int| 0 <= i < s.len() ==> s[i] != '/' && s[i] != '\\' && s[i] != ':',
{
    let bytes = choose|bytes: Seq<u8>| is_random_bytes(bytes) && s == #[trigger] hyphenated(bytes);
    let a = text::hex_text(bytes.subrange(0, 4));
    let b = text::hex_text(bytes.subrange(4, 6));
    let c = text::hex_text(bytes.subrange(6, 8));
    let d = text::hex_text(bytes.subrange(8, 10));
    let e = text::hex_text(bytes.subrange(10, 16));
    text::lemma_hex_text_digits(bytes.subrange(0, 4));
    text::lemma_hex_text_digits(bytes.subrange(4, 6));
    text::lemma_hex_text_digits(bytes.subrange(6, 8));
    text::lemma_hex_text_digits(bytes.subrange(8, 10));
    text::lemma_hex_text_digits(bytes.subrange(10, 16));
    assert forall|i: int| 0 <= i < s.len() implies s[i] != '/' && s[i] != '\\' && s[i] != ':' by {
        let after_a = i - a.len() - 1;
        let after_b = after_a - b.len() - 1;
        let after_c = after_b - c.len() - 1;
        let after_d = after_c - d.len() - 1;
        if after_d >= 0 {
            assert(s[i] == e[after_d]);
        } else if after_c >= 0 {
            assert(s[i] == d.push('-')[after_c]);
        } else if after_b >= 0 {
            assert(s[i] == c.push('-')[after_b]);
        } else if after_a >= 0 {
            assert(s[i] == b.push('-')[after_a]);
        } else {
            assert(s[i] == a.push('-')[i]);
        }
    }
}

}
