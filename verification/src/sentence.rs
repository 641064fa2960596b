//! The sentence: a canonical text with its boundaries, its word markers
//! and the flags that a matcher sets.

use crate::boundary::Boundary;
use crate::chars::{chars_of, lowercase_of, text_of};
use crate::confusables::{fixes, lemma_substituted_fixed, normalized, ConfusableTable};
use crate::scan::{
    boundaries_of, count_starts, lemma_marker_count, lemma_markers_point_at_starts, markers_of,
    scan, unchecked,
};
use vstd::prelude::*;

verus! {

/// What a sentence holds, as mathematical sequences.
pub struct SentenceView {
    /// The canonical characters.
    pub contents: Seq<char>,
    /// The boundary of each character.
    pub boundaries: Seq<Boundary>,
    /// For each character, whether a matcher has accounted for it.
    pub checked: Seq<bool>,
    /// One marker for each word, in the order of the text.
    pub indexes: Seq<(usize, usize)>,
}

/// A canonical text, annotated for a matcher.
pub struct Sentence {
    checked: Vec<bool>,
    boundaries: Vec<Boundary>,
    contents: Vec<char>,
    indexes: Vec<(usize, usize)>,
}

impl View for Sentence {
    type V = SentenceView;

    closed spec fn view(&self) -> SentenceView {
        SentenceView {
            contents: self.contents@,
            boundaries: self.boundaries@,
            checked: self.checked@,
            indexes: self.indexes@,
        }
    }
}

impl Sentence {
    /// The invariant of a sentence: the boundaries and the markers are
    /// those of the canonical text, and every character has a flag.
    pub open spec fn wf(&self) -> bool {
        &&& self@.boundaries == boundaries_of(self@.contents)
        &&& self@.indexes == markers_of(self@.contents)
        &&& self@.checked.len() == self@.contents.len()
    }

    /// Builds the sentence of a raw text: the text is made canonical under
    /// the given table and then scanned. No flag is set.
    pub fn new(sentence: String, table: &ConfusableTable) -> (s: Sentence)
        ensures
            s.wf(),
            s@.contents == normalized(table@, sentence@),
            s@.checked == unchecked(s@.contents.len()),
            s@.boundaries.len() == s@.contents.len(),
            s@.checked.len() == s@.contents.len(),
            s@.indexes.len() == count_starts(s@.boundaries),
    {
        let replaced = table.replace_confusables(sentence.as_str());
        let lowered = replaced.as_str().to_lowercase();
        let contents = chars_of(lowered.as_str());
        let (boundaries, checked, indexes) = scan(&contents);
        proof {
            lemma_marker_count(contents@);
        }
        Sentence { checked, boundaries, contents, indexes }
    }

    /// The number of characters of the canonical text, reduced to 32 bits.
    pub fn length(&self) -> (n: u32)
        ensures
            n as int == self@.contents.len() % 0x1_0000_0000,
    {
        let len: u64 = self.contents.len() as u64;
        let n: u32 = #[verifier::truncate] (len as u32);
        proof {
            assert(n as u64 == len % 0x1_0000_0000u64) by (bit_vector)
                requires
                    n == len as u32,
            ;
        }
        n
    }

    /// The canonical text as a string. This is not the raw text that the
    /// sentence was built from.
    pub fn js_to_string(&self) -> (text: String)
        ensures
            text@ == self@.contents,
    {
        text_of(&self.contents)
    }

    /// The boundary of each character.
    pub fn boundaries(&self) -> (boundaries: &Vec<Boundary>)
        ensures
            boundaries@ == self@.boundaries,
    {
        &self.boundaries
    }

    /// For each character, whether a matcher has accounted for it.
    pub fn checked(&self) -> (checked: &Vec<bool>)
        ensures
            checked@ == self@.checked,
    {
        &self.checked
    }

    /// The word markers, in the order of the text.
    pub fn indexes(&self) -> (indexes: &Vec<(usize, usize)>)
        ensures
            indexes@ == self@.indexes,
    {
        &self.indexes
    }

    /// Sets or clears the flag of the character at `index`. Nothing else
    /// changes.
    pub fn set_checked(&mut self, index: usize, value: bool)
        requires
            index < old(self)@.checked.len(),
        ensures
            final(self)@ == (SentenceView {
                checked: old(self)@.checked.update(index as int, value),
                ..old(self)@
            }),
            old(self).wf() ==> final(self).wf(),
    {
        self.checked.set(index, value);
    }

    /// In a sentence the characters, the boundaries and the flags are
    /// equal in number.
    pub proof fn lemma_lengths_agree(&self)
        requires
            self.wf(),
        ensures
            self@.contents.len() == self@.boundaries.len(),
            self@.contents.len() == self@.checked.len(),
    {
    }

    /// A sentence has as many word markers as it has boundaries at which a
    /// word begins.
    pub proof fn lemma_markers_match_starts(&self)
        requires
            self.wf(),
        ensures
            self@.indexes.len() == count_starts(self@.boundaries),
    {
        lemma_marker_count(self@.contents);
    }

    /// Each marker of a sentence holds one position twice: that of a
    /// character at which a word begins. The markers come in the order of
    /// the text.
    pub proof fn lemma_markers_mark_starts(&self, k: int)
        requires
            self.wf(),
            0 <= k < self@.indexes.len(),
        ensures
            self@.indexes[k].0 == self@.indexes[k].1,
            self@.indexes[k].0 < self@.contents.len(),
            self@.boundaries[self@.indexes[k].0 as int].begins_word(),
            k > 0 ==> self@.indexes[k - 1].0 < self@.indexes[k].0,
    {
        assert(self.contents.len() == self@.contents.len());
        lemma_markers_point_at_starts(self@.contents, self@.contents.len(), k);
    }

    /// The text of a sentence is canonical already: making it canonical
    /// again gives the same text. This holds under a table that leaves each
    /// character of the text as it is, and where the text is its own
    /// lower-case form.
    pub proof fn lemma_render_stable(&self, table: Map<char, Seq<char>>)
        requires
            fixes(table, self@.contents),
            lowercase_of(self@.contents) == self@.contents,
        ensures
            normalized(table, self@.contents) == self@.contents,
    {
        lemma_substituted_fixed(table, self@.contents);
    }
}

} // verus!
