//! The boundary scanner: one pass over a canonical text that classifies
//! every character and marks where each word begins.

use crate::boundary::Boundary;
use crate::chars::{filler, is_filler};
use vstd::prelude::*;

verus! {

/// The boundary of the character at position `i` of a text, read off the
/// character and its two neighbours.
pub open spec fn boundary_at(text: Seq<char>, i: int) -> Boundary
    recommends
        0 <= i < text.len(),
{
    let opens = i == 0 || filler(text[i - 1]);
    let stops = i + 1 == text.len() || filler(text[i + 1]);
    if filler(text[i]) {
        Boundary::NoContent
    } else if opens && stops {
        Boundary::Mixed
    } else if opens {
        Boundary::Start
    } else if stops {
        Boundary::End
    } else {
        Boundary::Word
    }
}

/// The boundaries of a text, one for each character.
pub open spec fn boundaries_of(text: Seq<char>) -> Seq<Boundary> {
    Seq::new(text.len(), |i: int| boundary_at(text, i))
}

/// The markers of the words that begin among the first `n` characters of a
/// text, in order. A marker holds the position at which its word begins,
/// twice.
pub open spec fn markers_upto(text: Seq<char>, n: nat) -> Seq<(usize, usize)>
    recommends
        n <= text.len(),
    decreases n,
{
    if n == 0 {
        Seq::empty()
    } else {
        let before = markers_upto(text, (n - 1) as nat);
        if boundary_at(text, n - 1).begins_word() {
            before.push(((n - 1) as usize, (n - 1) as usize))
        } else {
            before
        }
    }
}

/// The markers of all the words of a text, in order.
pub open spec fn markers_of(text: Seq<char>) -> Seq<(usize, usize)> {
    markers_upto(text, text.len())
}

/// The number of boundaries in a sequence at which a word begins.
pub open spec fn count_starts(boundaries: Seq<Boundary>) -> nat
    decreases boundaries.len(),
{
    if boundaries.len() == 0 {
        0
    } else {
        count_starts(boundaries.drop_last()) + if boundaries.last().begins_word() {
            1nat
        } else {
            0nat
        }
    }
}

/// The flags of a text that no matcher has looked at yet: one per
/// character, none of them set.
pub open spec fn unchecked(n: nat) -> Seq<bool> {
    Seq::new(n, |i: int| false)
}

/// The scanner needs to remember only the boundary that it emitted last:
/// the boundary of a character is the one that follows the boundary of the
/// character before it.
pub proof fn lemma_boundary_follows(text: Seq<char>, i: int)
    requires
        0 <= i < text.len(),
    ensures
        boundary_at(text, i) == Boundary::following(
            if i == 0 {
                None
            } else {
                Some(boundary_at(text, i - 1))
            },
            filler(text[i]),
            i + 1 == text.len() || filler(text[i + 1]),
        ),
{
}

/// There are as many markers among the first `n` characters as there are
/// boundaries among them at which a word begins.
pub proof fn lemma_markers_upto_count(text: Seq<char>, n: nat)
    requires
        n <= text.len(),
    ensures
        markers_upto(text, n).len() == count_starts(boundaries_of(text).take(n as int)),
    decreases n,
{
    if n > 0 {
        lemma_markers_upto_count(text, (n - 1) as nat);
        let upto = boundaries_of(text).take(n as int);
        assert(upto.drop_last() =~= boundaries_of(text).take(n - 1));
        assert(upto.last() == boundary_at(text, n - 1));
    }
}

/// A text has as many word markers as it has boundaries at which a word
/// begins.
pub proof fn lemma_marker_count(text: Seq<char>)
    ensures
        markers_of(text).len() == count_starts(boundaries_of(text)),
{
    lemma_markers_upto_count(text, text.len());
    assert(boundaries_of(text).take(text.len() as int) =~= boundaries_of(text));
}

/// The markers come in the order of the text: the marker at position `k`
/// points at a character at which a word begins, and behind the marker
/// before it.
pub proof fn lemma_markers_point_at_starts(text: Seq<char>, n: nat, k: int)
    requires
        n <= text.len(),
        text.len() <= usize::MAX,
        0 <= k < markers_upto(text, n).len(),
    ensures
        markers_upto(text, n)[k].0 == markers_upto(text, n)[k].1,
        markers_upto(text, n)[k].0 < n,
        boundary_at(text, markers_upto(text, n)[k].0 as int).begins_word(),
        k > 0 ==> markers_upto(text, n)[k - 1].0 < markers_upto(text, n)[k].0,
    decreases n,
{
    if n > 0 {
        let before = markers_upto(text, (n - 1) as nat);
        if k < before.len() {
            lemma_markers_point_at_starts(text, (n - 1) as nat, k);
        } else if k > 0 {
            lemma_markers_point_at_starts(text, (n - 1) as nat, k - 1);
        }
    }
}

/// How the boundaries of a text hang together: filler and nothing else is
/// `NoContent`; a word begins only at the start of the text or behind
/// filler; and the inside and the end of a word come only behind a
/// character of a word.
pub proof fn lemma_boundary_structure(text: Seq<char>, i: int)
    requires
        0 <= i < text.len(),
    ensures
        boundaries_of(text)[i] is NoContent <==> filler(text[i]),
        boundaries_of(text)[i].begins_word() ==> i == 0 || boundaries_of(text)[i - 1] is NoContent,
        boundaries_of(text)[i] is Word || boundaries_of(text)[i] is End ==> i > 0
            && boundaries_of(text)[i - 1].word_bearing(),
        boundaries_of(text)[i] is Start || boundaries_of(text)[i] is Word ==> i + 1 < text.len()
            && boundaries_of(text)[i + 1].word_bearing(),
{
}

/// Scans a canonical text once from left to right, looking one character
/// ahead. Gives the boundary of every character, an unset flag for every
/// character, and a marker for every word.
pub fn scan(text: &Vec<char>) -> (out: (Vec<Boundary>, Vec<bool>, Vec<(usize, usize)>))
    ensures
        out.0@ == boundaries_of(text@),
        out.1@ == unchecked(text@.len()),
        out.2@ == markers_of(text@),
{
    let n = text.len();
    let mut boundaries: Vec<Boundary> = Vec::with_capacity(n);
    let mut checked: Vec<bool> = Vec::with_capacity(n);
    let mut indexes: Vec<(usize, usize)> = Vec::new();
    let mut previous: Option<Boundary> = None;
    let mut i: usize = 0;
    while i < n
        invariant
            n == text.len(),
            i <= n,
            boundaries@ == boundaries_of(text@).take(i as int),
            checked@ == unchecked(i as nat),
            indexes@ == markers_upto(text@, i as nat),
            previous == if i == 0 {
                None
            } else {
                Some(boundary_at(text@, i - 1))
            },
        decreases n - i,
    {
        let filler = is_filler(text[i]);
        let stops = i + 1 == n || is_filler(text[i + 1]);
        let boundary = Boundary::next(previous, filler, stops);
        proof {
            lemma_boundary_follows(text@, i as int);
        }
        if boundary == Boundary::Start || boundary == Boundary::Mixed {
            indexes.push((i, i));
        }
        checked.push(false);
        boundaries.push(boundary);
        previous = Some(boundary);
        proof {
            assert(boundaries@ =~= boundaries_of(text@).take(i + 1));
            assert(checked@ =~= unchecked((i + 1) as nat));
        }
        i += 1;
    }
    proof {
        assert(boundaries@ =~= boundaries_of(text@));
    }
    (boundaries, checked, indexes)
}

} // verus!
