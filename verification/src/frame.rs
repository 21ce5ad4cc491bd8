//! The blank line that ends a frame, in a buffer of bytes.

use vstd::prelude::*;

verus! {

/// The line feed, of which two in a row end a frame.
pub const LINE_FEED: u8 = 0x0A;

/// Whether a separator, two line feeds in a row, begins at index `i` of `s`.
pub open spec fn separator_at(s: Seq<u8>, i: int) -> bool {
    0 <= i && i + 1 < s.len() && s[i] == LINE_FEED && s[i + 1] == LINE_FEED
}

/// The index of the first separator of `s` that begins at `from` or later.
pub open spec fn next_separator(s: Seq<u8>, from: int) -> Option<int>
    decreases s.len() - from,
{
    if from < 0 || from + 1 >= s.len() {
        None
    } else if separator_at(s, from) {
        Some(from)
    } else {
        next_separator(s, from + 1)
    }
}

/// The index of the first separator of `s`.
pub open spec fn first_separator(s: Seq<u8>) -> Option<int> {
    next_separator(s, 0)
}

/// `next_separator` finds a separator, and the first one: none begins
/// between `from` and what it returns, and none at all where it returns
/// `None`.
pub proof fn lemma_next_separator(s: Seq<u8>, from: int)
    requires
        0 <= from,
    ensures
        match next_separator(s, from) {
            Some(i) => from <= i && separator_at(s, i) && forall|j: int|
                from <= j < i ==> !separator_at(s, j),
            None => forall|j: int| from <= j ==> !separator_at(s, j),
        },
    decreases s.len() - from,
{
    if from + 1 < s.len() && !separator_at(s, from) {
        lemma_next_separator(s, from + 1);
    }
}

/// A separator that is the first of `s` is the first of every buffer that
/// begins with `s`.
pub proof fn lemma_first_separator_extends(s: Seq<u8>, more: Seq<u8>)
    requires
        first_separator(s) is Some,
    ensures
        first_separator(s + more) == first_separator(s),
{
    let i = first_separator(s)->0;
    lemma_next_separator(s, 0);
    lemma_next_separator(s + more, 0);
    assert(separator_at(s + more, i));
    assert forall|j: int| 0 <= j < i implies !separator_at(s + more, j) by {
        assert(!separator_at(s, j));
    }
}

/// Finds the first separator of `bytes`.
pub fn find_separator(bytes: &[u8]) -> (found: Option<usize>)
    ensures
        match found {
            Some(i) => first_separator(bytes@) == Some(i as int),
            None => first_separator(bytes@) is None,
        },
{
    let mut i: usize = 0;
    while i < bytes.len() && i + 1 < bytes.len()
        invariant
            i <= bytes.len(),
            next_separator(bytes@, i as int) == first_separator(bytes@),
        decreases bytes.len() - i,
    {
        if bytes[i] == LINE_FEED && bytes[i + 1] == LINE_FEED {
            return Some(i);
        }
        i += 1;
    }
    None
}

} // verus!
