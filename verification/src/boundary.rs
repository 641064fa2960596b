//! The classification of one character within word segmentation.

use vstd::prelude::*;

verus! {

/// The place of a character in the words of a sentence.
#[derive(Clone, Copy, Debug, PartialEq, Eq, Structural)]
pub enum Boundary {
    /// The start of a new word; more characters of the word follow.
    Start,
    /// A character inside a word.
    Word,
    /// The end of a word of more than one character.
    End,
    /// A single character that is both the start and the end of a word.
    Mixed,
    /// A character outside any word: white space or a control character.
    NoContent,
}

impl Boundary {
    /// Whether the character belongs to a word.
    pub open spec fn word_bearing(self) -> bool {
        !(self is NoContent)
    }

    /// Whether a word begins at the character.
    pub open spec fn begins_word(self) -> bool {
        self is Start || self is Mixed
    }

    /// The boundary of a character, given the boundary of the character
    /// before it (`None` at the start of the text), whether the character
    /// itself is filler, and whether the word stops after it: the text ends
    /// there or filler follows.
    pub open spec fn following(previous: Option<Boundary>, filler: bool, stops: bool) -> Boundary {
        if filler {
            Boundary::NoContent
        } else if previous is Some && previous->0.word_bearing() {
            if stops {
                Boundary::End
            } else {
                Boundary::Word
            }
        } else {
            if stops {
                Boundary::Mixed
            } else {
                Boundary::Start
            }
        }
    }

    /// Whether the character belongs to a word.
    pub fn is_word(&self) -> (b: bool)
        ensures
            b == self.word_bearing(),
    {
        match self {
            Boundary::Start | Boundary::Word | Boundary::End | Boundary::Mixed => true,
            Boundary::NoContent => false,
        }
    }

    /// Classifies one character from the boundary given to the character
    /// before it and from what is known of the character and of its
    /// successor.
    pub fn next(previous: Option<Boundary>, filler: bool, stops: bool) -> (b: Boundary)
        ensures
            b == Boundary::following(previous, filler, stops),
    {
        if filler {
            return Boundary::NoContent;
        }
        let inside = match previous {
            Some(p) => p.is_word(),
            None => false,
        };
        if inside {
            if stops {
                Boundary::End
            } else {
                Boundary::Word
            }
        } else if stops {
            Boundary::Mixed
        } else {
            Boundary::Start
        }
    }
}

} // verus!
