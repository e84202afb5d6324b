//! Text comparison used to detect duplicate titles and to look books up by name.

use itertools::EitherOrBoth;
use itertools::Itertools;
use vstd::prelude::*;
use vstd::string::*;

verus! {

/// The ASCII lower-case form of a byte: `A..=Z` move to `a..=z`, every other
/// byte stays as it is.
pub open spec fn ascii_lower(b: u8) -> u8 {
    if 65 <= b <= 90 {
        (b + 32) as u8
    } else {
        b
    }
}

/// Two byte strings are the same up to ASCII case: equal length, and at every
/// position the bytes agree once both are lower-cased. Nothing is normalised:
/// a space only matches a space at the same position.
pub open spec fn same_ignoring_case(a: Seq<u8>, b: Seq<u8>) -> bool {
    &&& a.len() == b.len()
    &&& forall|i: int| 0 <= i < a.len() ==> ascii_lower(#[trigger] a[i]) == ascii_lower(b[i])
}

/// The pairing of two byte strings position by position, as long as the longer
/// one: where one string has ended its side of the pair is `None`.
pub open spec fn paired(a: Seq<u8>, b: Seq<u8>) -> Seq<(Option<u8>, Option<u8>)> {
    Seq::new(
        if a.len() >= b.len() { a.len() } else { b.len() },
        |i: int| (
            if i < a.len() { Some(a[i]) } else { None },
            if i < b.len() { Some(b[i]) } else { None },
        ),
    )
}

/// Whether one pair of `paired` holds two bytes that agree up to ASCII case.
pub open spec fn pair_agrees(p: (Option<u8>, Option<u8>)) -> bool {
    match p {
        (Some(x), Some(y)) => ascii_lower(x) == ascii_lower(y),
        _ => false,
    }
}

/// The pair at a position given as a machine index.
pub open spec fn pair_at(pairs: Seq<(Option<u8>, Option<u8>)>, i: usize) -> (Option<u8>, Option<u8>) {
    pairs[i as int]
}

/// A machine index as a position in a sequence.
pub open spec fn pos(i: usize) -> int {
    i as int
}

/// `u8::to_ascii_lowercase` of std: upper-case ASCII letters are mapped to
/// their lower-case counterparts, all other bytes are returned unchanged.
pub assume_specification[ u8::to_ascii_lowercase ](b: &u8) -> (r: u8)
    ensures
        r == ascii_lower(*b),
;

/// `Itertools::zip_longest` of itertools over the bytes of two strings,
/// collected: both iterators are advanced together until both have ended, and
/// each step yields `Both`, `Left` or `Right`, which is handed back here as a
/// pair of options.
#[verifier::external_body]
fn zip_longest_bytes(a: &str, b: &str) -> (pairs: Vec<(Option<u8>, Option<u8>)>)
    ensures
        pairs@ == paired(a.spec_bytes(), b.spec_bytes()),
{
    a.bytes().zip_longest(b.bytes()).map(|ab| match ab {
        EitherOrBoth::Both(x, y) => (Some(x), Some(y)),
        EitherOrBoth::Left(x) => (Some(x), None),
        EitherOrBoth::Right(y) => (None, Some(y)),
    }).collect()
}

/// Compares two strings byte by byte, ignoring ASCII case. The comparison is
/// literal about spaces: runs of spaces are not collapsed, so `"A  B"` and
/// `"A B"` differ.
pub fn cmp_ignore_case_ascii(a: &str, b: &str) -> (same: bool)
    ensures
        same == same_ignoring_case(a.spec_bytes(), b.spec_bytes()),
{
    let pairs = zip_longest_bytes(a, b);
    let ghost x = a.spec_bytes();
    let ghost y = b.spec_bytes();
    let mut i: usize = 0;
    while i < pairs.len()
        invariant
            i <= pairs.len(),
            pairs@ == paired(x, y),
            x == a.spec_bytes(),
            y == b.spec_bytes(),
            forall|k: int| 0 <= k < i ==> pair_agrees(#[trigger] pairs@[k]),
        decreases pairs.len() - i,
    {
        let agrees = match pairs[i] {
            (Some(p), Some(q)) => (p == 32u8 && q == 32u8) || p.to_ascii_lowercase()
                == q.to_ascii_lowercase(),
            _ => false,
        };
        if !agrees {
            assert(!pair_agrees(pair_at(pairs@, i)));
            assert(!same_ignoring_case(x, y)) by {
                if x.len() == y.len() {
                    assert(ascii_lower(x[pos(i)]) != ascii_lower(y[pos(i)]));
                }
            }
            return false;
        }
        i += 1;
    }
    assert(x.len() == y.len()) by {
        if x.len() != y.len() {
            let last = pairs@.len() - 1;
            assert(pair_agrees(pairs@[last]));
        }
    }
    assert forall|k: int| 0 <= k < x.len() implies ascii_lower(#[trigger] x[k]) == ascii_lower(
        y[k],
    ) by {
        assert(pair_agrees(pairs@[k]));
    }
    true
}

} // verus!
