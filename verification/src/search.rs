//! Substring search over bytes and ASCII case folding.

use vstd::prelude::*;

verus! {

/// `needle` stands in `hay` at offset `at`.
pub open spec fn occurs_at(hay: Seq<u8>, needle: Seq<u8>, at: int) -> bool {
    &&& 0 <= at
    &&& at + needle.len() <= hay.len()
    &&& hay.subrange(at, at + needle.len()) == needle
}

/// No occurrence of `needle` in `hay` begins before `bound`.
pub open spec fn absent_before(hay: Seq<u8>, needle: Seq<u8>, bound: int) -> bool {
    forall|p: int| 0 <= p < bound ==> !occurs_at(hay, needle, p)
}

/// `at` is the lowest offset at which `needle` stands in `hay`.
pub open spec fn is_first_occurrence(hay: Seq<u8>, needle: Seq<u8>, at: int) -> bool {
    occurs_at(hay, needle, at) && absent_before(hay, needle, at)
}

/// The lowest offset at which `needle` stands in `hay`, if it stands anywhere.
pub open spec fn first_occurrence(hay: Seq<u8>, needle: Seq<u8>) -> Option<int> {
    if exists|p: int| is_first_occurrence(hay, needle, p) {
        Some(choose|p: int| is_first_occurrence(hay, needle, p))
    } else {
        None
    }
}

/// A lowest occurrence is the value of `first_occurrence`.
pub proof fn lemma_first_occurrence_some(hay: Seq<u8>, needle: Seq<u8>, at: int)
    requires
        is_first_occurrence(hay, needle, at),
    ensures
        first_occurrence(hay, needle) == Some(at),
{
    let p = choose|p: int| is_first_occurrence(hay, needle, p);
    if p < at {
        assert(!occurs_at(hay, needle, p));
    }
    if at < p {
        assert(!occurs_at(hay, needle, at));
    }
}

/// Where `needle` stands nowhere, `first_occurrence` is `None`; and conversely
/// a `Some` names a lowest occurrence.
pub proof fn lemma_first_occurrence_sound(hay: Seq<u8>, needle: Seq<u8>)
    ensures
        match first_occurrence(hay, needle) {
            Some(p) => is_first_occurrence(hay, needle, p),
            None => forall|p: int| !occurs_at(hay, needle, p),
        },
{
    if first_occurrence(hay, needle) is None {
        assert forall|p: int| !occurs_at(hay, needle, p) by {
            if occurs_at(hay, needle, p) {
                lemma_least_occurrence(hay, needle, p);
            }
        }
    }
}

/// Below any occurrence there is a lowest one.
proof fn lemma_least_occurrence(hay: Seq<u8>, needle: Seq<u8>, at: int)
    requires
        occurs_at(hay, needle, at),
    ensures
        exists|p: int| is_first_occurrence(hay, needle, p),
    decreases at,
{
    if absent_before(hay, needle, at) {
        assert(is_first_occurrence(hay, needle, at));
    } else {
        let q = choose|q: int| 0 <= q < at && occurs_at(hay, needle, q);
        lemma_least_occurrence(hay, needle, q);
    }
}

/// Calls `memchr::memmem::find`, which returns the index of the first
/// occurrence of the needle in the haystack: `Some(i)` exactly where the needle
/// stands at `i` and at no lower offset, `None` exactly where it stands nowhere.
#[verifier::external_body]
fn memmem_find(hay: &[u8], needle: &[u8]) -> (r: Option<usize>)
    ensures
        match r {
            Some(i) => is_first_occurrence(hay@, needle@, i as int),
            None => forall|p: int| !occurs_at(hay@, needle@, p),
        },
{
    memchr::memmem::find(hay, needle)
}

/// The offset of the first occurrence of `needle` in `hay`.
pub fn find_first(hay: &[u8], needle: &[u8]) -> (r: Option<usize>)
    ensures
        match r {
            Some(i) => first_occurrence(hay@, needle@) == Some(i as int),
            None => first_occurrence(hay@, needle@) is None,
        },
{
    let r = memmem_find(hay, needle);
    proof {
        match r {
            Some(i) => {
                lemma_first_occurrence_some(hay@, needle@, i as int);
            },
            None => {
                assert forall|p: int| !is_first_occurrence(hay@, needle@, p) by {}
            },
        }
    }
    r
}

/// The ASCII lower-case form of a byte: `A`..`Z` move to `a`..`z`, every other
/// byte stays.
pub open spec fn lower_byte(b: u8) -> u8 {
    if 0x41 <= b && b <= 0x5a {
        (b + 0x20) as u8
    } else {
        b
    }
}

/// The bytes of `s`, each in its ASCII lower-case form.
pub open spec fn lower(s: Seq<u8>) -> Seq<u8> {
    Seq::new(s.len(), |i: int| lower_byte(s[i]))
}

/// Folds one byte to ASCII lower case.
pub fn fold_byte(b: u8) -> (r: u8)
    ensures
        r == lower_byte(b),
{
    if 0x41 <= b && b <= 0x5a {
        b + 0x20
    } else {
        b
    }
}

/// Folds every byte of `bytes` to ASCII lower case.
pub fn fold_bytes(bytes: &[u8]) -> (r: Vec<u8>)
    ensures
        r@ == lower(bytes@),
{
    let mut out: Vec<u8> = Vec::new();
    let mut i: usize = 0;
    while i < bytes.len()
        invariant
            i <= bytes@.len(),
            out@ == lower(bytes@).subrange(0, i as int),
        decreases bytes@.len() - i,
    {
        out.push(fold_byte(bytes[i]));
        i += 1;
        assert(out@ =~= lower(bytes@).subrange(0, i as int));
    }
    assert(out@ =~= lower(bytes@));
    out
}

} // verus!
