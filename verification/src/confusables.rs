//! A table of confusable characters and the substitution it defines.
//!
//! A confusable character looks like another one. The table gives, for
//! each such character, the characters that replace it; a character
//! without an entry stands for itself.

use crate::chars::lowercase_of;
use vstd::prelude::*;

verus! {

/// What a character becomes under a table: its entry, or the character
/// itself where the table has none.
pub open spec fn image(table: Map<char, Seq<char>>, c: char) -> Seq<char> {
    if table.contains_key(c) {
        table[c]
    } else {
        seq![c]
    }
}

/// A text in which every character is replaced by its image, each on its
/// own and in order.
pub open spec fn substituted(table: Map<char, Seq<char>>, text: Seq<char>) -> Seq<char>
    decreases text.len(),
{
    if text.len() == 0 {
        Seq::empty()
    } else {
        substituted(table, text.drop_last()) + image(table, text.last())
    }
}

/// The canonical form of a raw text: confusable characters replaced, then
/// the whole in lower case.
pub open spec fn normalized(table: Map<char, Seq<char>>, raw: Seq<char>) -> Seq<char> {
    lowercase_of(substituted(table, raw))
}

/// Whether a table leaves every character of a text as it is.
pub open spec fn fixes(table: Map<char, Seq<char>>, text: Seq<char>) -> bool {
    forall|i: int| 0 <= i < text.len() ==> #[trigger] image(table, text[i]) == seq![text[i]]
}

/// Whether the entries stand in strictly ascending order of the character
/// that they replace. No character then has two entries.
spec fn ascending(entries: Seq<(char, String)>) -> bool {
    forall|i: int, j: int|
        0 <= i < j < entries.len() ==> (#[trigger] entries[i]).0 < (#[trigger] entries[j]).0
}

/// Whether some entry replaces the character.
spec fn holds(entries: Seq<(char, String)>, c: char) -> bool {
    exists|i: int| 0 <= i < entries.len() && (#[trigger] entries[i]).0 == c
}

/// The position of an entry that replaces the character.
spec fn place(entries: Seq<(char, String)>, c: char) -> int {
    choose|i: int| 0 <= i < entries.len() && (#[trigger] entries[i]).0 == c
}

/// The map that a list of entries stands for.
spec fn entries_map(entries: Seq<(char, String)>) -> Map<char, Seq<char>> {
    Map::new(|c: char| holds(entries, c), |c: char| entries[place(entries, c)].1@)
}

/// In an ascending list the map sends the character of each entry to the
/// replacement that the entry holds.
proof fn lemma_entry(entries: Seq<(char, String)>, i: int)
    requires
        ascending(entries),
        0 <= i < entries.len(),
    ensures
        entries_map(entries).contains_key(entries[i].0),
        entries_map(entries)[entries[i].0] == entries[i].1@,
{
    let c = entries[i].0;
    assert(holds(entries, c));
    let p = place(entries, c);
    assert(entries[p].0 == c);
    if p < i {
        assert(entries[p].0 < entries[i].0);
    } else if i < p {
        assert(entries[i].0 < entries[p].0);
    }
}

/// Substitution leaves a text unchanged where the table fixes each of its
/// characters.
pub proof fn lemma_substituted_fixed(table: Map<char, Seq<char>>, text: Seq<char>)
    requires
        fixes(table, text),
    ensures
        substituted(table, text) == text,
    decreases text.len(),
{
    if text.len() > 0 {
        let front = text.drop_last();
        assert forall|i: int| 0 <= i < front.len() implies #[trigger] image(table, front[i])
            == seq![front[i]] by {
            assert(front[i] == text[i]);
        }
        lemma_substituted_fixed(table, front);
        assert(image(table, text.last()) == seq![text.last()]) by {
            assert(text.last() == text[text.len() - 1]);
        }
        assert(front + seq![text.last()] =~= text);
    }
}

/// A lookup structure from confusable characters to their replacements.
/// It is filled once and then only read.
pub struct ConfusableTable {
    entries: Vec<(char, String)>,
}

impl View for ConfusableTable {
    type V = Map<char, Seq<char>>;

    closed spec fn view(&self) -> Map<char, Seq<char>> {
        entries_map(self.entries@)
    }
}

impl ConfusableTable {
    #[verifier::type_invariant]
    spec fn ordered(&self) -> bool {
        ascending(self.entries@)
    }

    /// A table without entries: every character stands for itself.
    pub fn new() -> (table: ConfusableTable)
        ensures
            table@ == Map::<char, Seq<char>>::empty(),
    {
        let table = ConfusableTable { entries: Vec::new() };
        proof {
            assert(table@ =~= Map::<char, Seq<char>>::empty());
        }
        table
    }

    /// The number of entries that replace a character below `c`. An entry
    /// for `c` itself, if there is one, stands at that position.
    fn position(&self, c: char) -> (p: usize)
        ensures
            p <= self.entries.len(),
            forall|i: int| 0 <= i < p ==> (#[trigger] self.entries@[i]).0 < c,
            forall|i: int| p <= i < self.entries.len() ==> (#[trigger] self.entries@[i]).0 >= c,
    {
        proof {
            use_type_invariant(self);
        }
        let mut low: usize = 0;
        let mut high: usize = self.entries.len();
        while low < high
            invariant
                low <= high <= self.entries.len(),
                ascending(self.entries@),
                forall|i: int| 0 <= i < low ==> (#[trigger] self.entries@[i]).0 < c,
                forall|i: int|
                    high <= i < self.entries.len() ==> (#[trigger] self.entries@[i]).0 >= c,
            decreases high - low,
        {
            let middle = low + (high - low) / 2;
            if self.entries[middle].0 < c {
                low = middle + 1;
            } else {
                high = middle;
            }
        }
        low
    }

    /// Records that `from` is replaced by the characters of `to`, in place
    /// of what the table said of `from` before.
    pub fn insert(&mut self, from: char, to: &str)
        ensures
            final(self)@ == old(self)@.insert(from, to@),
    {
        proof {
            use_type_invariant(&*self);
        }
        let replacement = to.to_owned();
        let p = self.position(from);
        let ghost before = self.entries@;
        // The entries are taken out, changed and put back as a whole: the
        // table is in order whenever it can be looked at.
        let mut taken = ConfusableTable::new();
        core::mem::swap(self, &mut taken);
        let mut entries = taken.entries;
        if p < entries.len() && entries[p].0 == from {
            entries.set(p, (from, replacement));
        } else {
            entries.insert(p, (from, replacement));
        }
        proof {
            let after = entries@;
            assert(after[p as int].0 == from);
            assert forall|c: char| holds(after, c) <==> (c == from || holds(before, c)) by {
                if holds(after, c) && c != from {
                    let i = place(after, c);
                    let k = if before.len() == after.len() || i < p {
                        i
                    } else {
                        i - 1
                    };
                    assert(before[k].0 == c);
                }
                if holds(before, c) && c != from {
                    let k = place(before, c);
                    let i = if before.len() == after.len() || k < p {
                        k
                    } else {
                        k + 1
                    };
                    assert(after[i].0 == c);
                }
            }
            assert forall|c: char| holds(after, c) implies #[trigger] entries_map(after)[c]
                == entries_map(before).insert(from, to@)[c] by {
                let i = place(after, c);
                lemma_entry(after, i);
                if c != from {
                    let k = if before.len() == after.len() || i < p {
                        i
                    } else {
                        i - 1
                    };
                    assert(before[k] == after[i]);
                    lemma_entry(before, k);
                }
            }
            assert(entries_map(after) =~= entries_map(before).insert(from, to@));
        }
        *self = ConfusableTable { entries };
    }

    /// The replacement recorded for a character, if there is one.
    pub fn lookup(&self, c: char) -> (found: Option<&String>)
        ensures
            found is Some <==> self@.contains_key(c),
            found is Some ==> found->0@ == self@[c],
    {
        proof {
            use_type_invariant(self);
        }
        let p = self.position(c);
        if p < self.entries.len() && self.entries[p].0 == c {
            proof {
                lemma_entry(self.entries@, p as int);
            }
            Some(&self.entries[p].1)
        } else {
            proof {
                if holds(self.entries@, c) {
                    let i = place(self.entries@, c);
                    if i > p {
                        assert(self.entries@[p as int].0 < self.entries@[i].0);
                    }
                }
            }
            None
        }
    }

    /// Replaces every character of a text by its image under the table.
    pub fn replace_confusables(&self, text: &str) -> (out: String)
        ensures
            out@ == substituted(self@, text@),
    {
        let mut out = String::new();
        for c in it: text.chars()
            invariant
                it.seq() == text@,
                out@ == substituted(self@, text@.take(it.index() as int)),
        {
            proof {
                let upto = text@.take(it.index() + 1);
                assert(upto.drop_last() =~= text@.take(it.index() as int));
                assert(upto.last() == c);
            }
            match self.lookup(c) {
                Some(replacement) => {
                    out.append(replacement.as_str());
                },
                None => {
                    let ghost before = out@;
                    out.push(c);
                    proof {
                        assert(out@ =~= before + seq![c]);
                    }
                },
            }
        }
        proof {
            assert(text@.take(text@.len() as int) =~= text@);
        }
        out
    }
}

} // verus!
