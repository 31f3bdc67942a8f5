//! The routing rule: from the bytes read so far to a verdict.

use vstd::prelude::*;
use vstd::slice::slice_subrange;
use vstd::utf8::{decode_utf8, valid_utf8};
use crate::search::{find_first, fold_bytes};
use crate::search::{first_occurrence, lemma_first_occurrence_sound, lower, lower_byte};
use crate::text::{is_run_of, is_text, lemma_between_ascii_is_text, trimmed, trimmed_text};

verus! {

/// Why sniffing a connection failed.
#[derive(Debug, Clone, Copy, PartialEq, Eq, Structural)]
pub enum SniffError {
    /// The bytes up to the end of the header block are not well-formed text.
    InvalidText,
    /// The header name was found but no line end follows its value.
    UnterminatedValue,
    /// Reading from the connection failed.
    ReadFailed,
}

/// What the bytes read so far say about the destination.
#[derive(Debug, Clone, PartialEq, Eq)]
pub enum Verdict {
    /// No end of header block yet, and the ceiling is not exceeded.
    Pending,
    /// The default destination applies.
    Fallback,
    /// The header names this destination.
    Explicit(String),
    /// The connection cannot be routed.
    Failed(SniffError),
}

/// The mathematical form of a `Verdict`.
pub enum VerdictView {
    Pending,
    Fallback,
    Explicit(Seq<char>),
    Failed(SniffError),
}

impl View for Verdict {
    type V = VerdictView;

    open spec fn view(&self) -> VerdictView {
        match self {
            Verdict::Pending => VerdictView::Pending,
            Verdict::Fallback => VerdictView::Fallback,
            Verdict::Explicit(s) => VerdictView::Explicit(s@),
            Verdict::Failed(e) => VerdictView::Failed(*e),
        }
    }
}

/// The blank line that ends a header block: CR LF CR LF.
pub open spec fn marker() -> Seq<u8> {
    seq![13u8, 10u8, 13u8, 10u8]
}

/// The end of one line: CR LF.
pub open spec fn line_end() -> Seq<u8> {
    seq![13u8, 10u8]
}

/// The bytes searched for to find the header: the name in ASCII lower case,
/// then a colon.
pub open spec fn header_needle(token: Seq<u8>) -> Seq<u8> {
    lower(token).push(58u8)
}

/// Where the header's value begins: behind the first place before `at` where
/// the name and a colon stand, whatever the ASCII case of name and bytes.
pub open spec fn value_start(buf: Seq<u8>, token: Seq<u8>, at: int) -> Option<int> {
    match first_occurrence(lower(buf.subrange(0, at)), header_needle(token)) {
        None => None,
        Some(j) => Some(j + header_needle(token).len()),
    }
}

/// Where the value that begins at `start` ends: at the next line end, the
/// first half of the marker at `at` included.
pub open spec fn value_end(buf: Seq<u8>, at: int, start: int) -> Option<int> {
    match first_occurrence(buf.subrange(start, at + 4), line_end()) {
        None => None,
        Some(k) => Some(start + k),
    }
}

/// The bytes of the header's value as they came, empty where there is none.
pub open spec fn raw_value(buf: Seq<u8>, token: Seq<u8>, at: int) -> Seq<u8> {
    match value_start(buf, token, at) {
        None => Seq::empty(),
        Some(start) => match value_end(buf, at, start) {
            None => Seq::empty(),
            Some(end) => buf.subrange(start, end),
        },
    }
}

/// The verdict on `buf` where the header block ends with the marker at `at`.
///
/// The block with its marker must be well-formed text. Without the header the
/// default applies. The header's value is taken from the bytes as they came,
/// decoded and trimmed.
pub open spec fn header_verdict(buf: Seq<u8>, token: Seq<u8>, at: int) -> VerdictView {
    if !valid_utf8(buf.subrange(0, at + 4)) {
        VerdictView::Failed(SniffError::InvalidText)
    } else {
        match value_start(buf, token, at) {
            None => VerdictView::Fallback,
            Some(start) => match value_end(buf, at, start) {
                None => VerdictView::Failed(SniffError::UnterminatedValue),
                Some(end) => VerdictView::Explicit(trimmed(decode_utf8(buf.subrange(start, end)))),
            },
        }
    }
}

/// The value of a header in a block of well-formed text is well-formed text:
/// it begins behind a colon and ends before a line end.
pub proof fn lemma_value_is_text(buf: Seq<u8>, token: Seq<u8>, at: int)
    requires
        0 <= at,
        at + 4 <= buf.len(),
        valid_utf8(buf.subrange(0, at + 4)),
    ensures
        value_start(buf, token, at) matches Some(start) ==> 0 < start <= at && (value_end(
            buf,
            at,
            start,
        ) matches Some(end) ==> start <= end <= at + 2 && valid_utf8(buf.subrange(start, end))),
{
    match value_start(buf, token, at) {
        None => {},
        Some(start) => {
            let block = buf.subrange(0, at + 4);
            let folded = lower(buf.subrange(0, at));
            let needle = header_needle(token);
            lemma_first_occurrence_sound(folded, needle);
            let j = start - needle.len();
            assert(folded.subrange(j, start)[needle.len() - 1] == 58u8);
            assert(folded[start - 1] == lower_byte(buf[start - 1]));
            match value_end(buf, at, start) {
                None => {},
                Some(end) => {
                    let rest = buf.subrange(start, at + 4);
                    lemma_first_occurrence_sound(rest, line_end());
                    let k = end - start;
                    assert(rest.subrange(k, k + 2)[0] == 13u8);
                    assert(block[end] == 13u8);
                    assert(block[start - 1] < 0x80);
                    lemma_between_ascii_is_text(block, start, end);
                    assert(block.subrange(start, end) =~= buf.subrange(start, end));
                },
            }
        },
    }
}

/// The verdict on the bytes read so far.
///
/// Without a marker the verdict is pending until more than `ceiling` bytes are
/// there, and the fallback from then on. With one, the first marker decides.
pub open spec fn verdict_of(buf: Seq<u8>, token: Seq<u8>, ceiling: int) -> VerdictView {
    match first_occurrence(buf, marker()) {
        None => if buf.len() > ceiling {
            VerdictView::Fallback
        } else {
            VerdictView::Pending
        },
        Some(at) => header_verdict(buf, token, at),
    }
}

/// The text of the header's value in a buffer, as it came: what the first
/// marker's block gives for it, and nothing where there is no marker.
pub open spec fn value_text(buf: Seq<u8>, token: Seq<u8>) -> Seq<char> {
    match first_occurrence(buf, marker()) {
        None => Seq::empty(),
        Some(at) => decode_utf8(raw_value(buf, token, at)),
    }
}

/// With no byte read, nothing is decided.
pub proof fn lemma_empty_is_pending(token: Seq<u8>, ceiling: int)
    requires
        0 <= ceiling,
    ensures
        verdict_of(Seq::<u8>::empty(), token, ceiling) == VerdictView::Pending,
{
    lemma_first_occurrence_sound(Seq::<u8>::empty(), marker());
}

/// A pending buffer holds no marker and no more bytes than the ceiling.
pub proof fn lemma_pending_is_bounded(buf: Seq<u8>, token: Seq<u8>, ceiling: int)
    requires
        verdict_of(buf, token, ceiling) == VerdictView::Pending,
    ensures
        first_occurrence(buf, marker()) is None,
        buf.len() <= ceiling,
{
    lemma_header_verdict_decides(buf, token);
}

/// Once the marker is there the verdict is never pending.
pub proof fn lemma_header_verdict_decides(buf: Seq<u8>, token: Seq<u8>)
    ensures
        forall|at: int| #[trigger] header_verdict(buf, token, at) != VerdictView::Pending,
{
}

/// Reads the header block of `buf` whose closing marker is taken to be the
/// four bytes at `at`.
pub fn read_header(buf: &[u8], token: &[u8], at: usize) -> (r: Verdict)
    requires
        at + 4 <= buf.len(),
    ensures
        r@ == header_verdict(buf@, token@, at as int),
        r matches Verdict::Explicit(d) ==> is_run_of(
            d@,
            decode_utf8(raw_value(buf@, token@, at as int)),
        ),
{
    let block_end: usize = at + 4;
    if !is_text(slice_subrange(buf, 0, block_end)) {
        return Verdict::Failed(SniffError::InvalidText);
    }
    let mut needle = fold_bytes(token);
    needle.push(58u8);
    let folded = fold_bytes(slice_subrange(buf, 0, at));
    match find_first(folded.as_slice(), needle.as_slice()) {
        None => Verdict::Fallback,
        Some(j) => {
            proof {
                lemma_first_occurrence_sound(folded@, needle@);
            }
            let start: usize = j + needle.len();
            let end_of_line = vec![13u8, 10u8];
            match find_first(slice_subrange(buf, start, block_end), end_of_line.as_slice()) {
                None => Verdict::Failed(SniffError::UnterminatedValue),
                Some(k) => {
                    proof {
                        lemma_first_occurrence_sound(
                            buf@.subrange(start as int, at + 4),
                            end_of_line@,
                        );
                        lemma_value_is_text(buf@, token@, at as int);
                    }
                    match trimmed_text(slice_subrange(buf, start, start + k)) {
                        Some(destination) => Verdict::Explicit(destination),
                        None => {
                            // The value lies in text between a colon and a line end.
                            assert(false);
                            Verdict::Failed(SniffError::InvalidText)
                        },
                    }
                },
            }
        },
    }
}

/// Classifies the bytes read so far.
pub fn classify(buf: &[u8], token: &[u8], ceiling: usize) -> (r: Verdict)
    ensures
        r@ == verdict_of(buf@, token@, ceiling as int),
        r matches Verdict::Explicit(d) ==> is_run_of(d@, value_text(buf@, token@)),
{
    let blank_line = vec![13u8, 10u8, 13u8, 10u8];
    match find_first(buf, blank_line.as_slice()) {
        None => {
            if buf.len() > ceiling {
                Verdict::Fallback
            } else {
                Verdict::Pending
            }
        },
        Some(at) => {
            proof {
                lemma_first_occurrence_sound(buf@, blank_line@);
            }
            read_header(buf, token, at)
        },
    }
}

} // verus!
