//! Decoding bytes as text and trimming a header value.

use vstd::prelude::*;
use vstd::utf8::{decode_utf8, is_char_boundary, valid_utf8};
use vstd::utf8::{is_char_boundary_iff_not_is_continuation_byte, valid_utf8_split};
use vstd::utf8::{length_of_first_scalar, pop_first_scalar, valid_first_scalar};

verus! {

/// What `str::trim` returns for a text: the text without its leading and
/// trailing white space, as Unicode defines white space.
pub uninterp spec fn trimmed(text: Seq<char>) -> Seq<char>;

/// `part` is a contiguous run of `whole`.
pub open spec fn is_run_of(part: Seq<char>, whole: Seq<char>) -> bool {
    exists|a: int, b: int| 0 <= a <= b <= whole.len() && part == #[trigger] whole.subrange(a, b)
}

/// Calls `std::str::from_utf8`, which accepts exactly the byte strings that are
/// well-formed UTF-8 and then hands the same bytes back as text.
#[verifier::external_body]
fn decode<'a>(bytes: &'a [u8]) -> (r: Option<&'a str>)
    ensures
        match r {
            Some(s) => valid_utf8(bytes@) && s@ == decode_utf8(bytes@),
            None => !valid_utf8(bytes@),
        },
{
    match std::str::from_utf8(bytes) {
        Ok(s) => Some(s),
        Err(_) => None,
    }
}

/// Calls `str::trim`, which returns the part of the text that is left when
/// leading and trailing white space is removed: a contiguous run of the text,
/// named `trimmed`.
#[verifier::external_body]
fn trim<'a>(s: &'a str) -> (r: &'a str)
    ensures
        r@ == trimmed(s@),
        is_run_of(r@, s@),
{
    s.trim()
}

/// Whether `bytes` is well-formed UTF-8.
pub fn is_text(bytes: &[u8]) -> (r: bool)
    ensures
        r == valid_utf8(bytes@),
{
    decode(bytes).is_some()
}

/// The text that `raw` encodes, trimmed of surrounding white space; `None`
/// exactly where `raw` is not well-formed UTF-8.
pub fn trimmed_text(raw: &[u8]) -> (r: Option<String>)
    ensures
        match r {
            Some(s) => valid_utf8(raw@) && s@ == trimmed(decode_utf8(raw@)) && is_run_of(
                s@,
                decode_utf8(raw@),
            ),
            None => !valid_utf8(raw@),
        },
{
    match decode(raw) {
        Some(s) => Some(trim(s).to_owned()),
        None => None,
    }
}

/// In well-formed text a character begins behind every ASCII byte.
pub proof fn lemma_boundary_behind_ascii(bytes: Seq<u8>, at: int)
    requires
        valid_utf8(bytes),
        0 <= at < bytes.len(),
        bytes[at] < 0x80,
    ensures
        is_char_boundary(bytes, at + 1),
    decreases bytes.len(),
{
    let first = length_of_first_scalar(bytes);
    let rest = pop_first_scalar(bytes);
    assert(valid_first_scalar(bytes) && valid_utf8(rest));
    if at < first {
        assert(at == 0);
        assert(is_char_boundary(rest, 0));
    } else {
        assert(rest[at - first] == bytes[at]);
        lemma_boundary_behind_ascii(rest, at - first);
    }
}

/// A stretch of well-formed text that begins behind an ASCII byte and ends
/// before one is well-formed text itself.
pub proof fn lemma_between_ascii_is_text(bytes: Seq<u8>, from: int, to: int)
    requires
        valid_utf8(bytes),
        0 < from <= to < bytes.len(),
        bytes[from - 1] < 0x80,
        bytes[to] < 0x80,
    ensures
        valid_utf8(bytes.subrange(from, to)),
{
    lemma_boundary_behind_ascii(bytes, from - 1);
    valid_utf8_split(bytes, from);
    let tail = bytes.subrange(from, bytes.len() as int);
    assert(tail[to - from] == bytes[to]);
    is_char_boundary_iff_not_is_continuation_byte(tail, to - from);
    valid_utf8_split(tail, to - from);
    assert(tail.subrange(0, to - from) =~= bytes.subrange(from, to));
}

} // verus!
