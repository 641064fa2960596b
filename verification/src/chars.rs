//! Character classes and case folding, as the standard library defines
//! them.

use vstd::prelude::*;

verus! {

/// Whether a character has the Unicode property `White_Space`.
pub uninterp spec fn white_space(c: char) -> bool;

/// Whether a character is in the Unicode general category `Cc` of control
/// codes.
pub uninterp spec fn control_code(c: char) -> bool;

/// The lower-case form of a text under the Unicode case mappings.
pub uninterp spec fn lowercase_of(text: Seq<char>) -> Seq<char>;

/// `char::is_whitespace` of the standard library. The result depends on the
/// character alone; `white_space` is the name given to it. Nothing more
/// is claimed of it.
pub assume_specification[ char::is_whitespace ](c: char) -> (b: bool)
    ensures
        b == white_space(c),
;

/// `char::is_control` of the standard library. The result depends on the
/// character alone; `control_code` is the name given to it. Nothing more
/// is claimed of it.
pub assume_specification[ char::is_control ](c: char) -> (b: bool)
    ensures
        b == control_code(c),
;

/// `str::to_lowercase` of the standard library. The result depends on the
/// characters of the text alone, with no regard to a locale;
/// `lowercase_of` is the name given to it. Nothing more is claimed of it,
/// not even its length.
pub assume_specification[ str::to_lowercase ](text: &str) -> (lowered: String)
    ensures
        lowered@ == lowercase_of(text@),
;

/// `String::push` of the standard library: the character is appended at
/// the end and the characters before it stay.
pub assume_specification[ String::push ](text: &mut String, c: char)
    ensures
        final(text)@ == old(text)@.push(c),
;

/// Whether a character is filler: white space or a control character. Such
/// a character is never part of a word.
pub open spec fn filler(c: char) -> bool {
    white_space(c) || control_code(c)
}

/// Whether a character is filler.
pub fn is_filler(c: char) -> (b: bool)
    ensures
        b == filler(c),
{
    c.is_whitespace() || c.is_control()
}

/// The characters of a text, in order.
pub fn chars_of(text: &str) -> (out: Vec<char>)
    ensures
        out@ == text@,
{
    let mut out: Vec<char> = Vec::new();
    for c in it: text.chars()
        invariant
            it.seq() == text@,
            out@ == text@.take(it.index() as int),
    {
        out.push(c);
    }
    out
}

/// The text made of the given characters, in order.
pub fn text_of(chars: &Vec<char>) -> (out: String)
    ensures
        out@ == chars@,
{
    let mut out = String::new();
    let mut i: usize = 0;
    while i < chars.len()
        invariant
            i <= chars.len(),
            out@ == chars@.take(i as int),
        decreases chars.len() - i,
    {
        out.push(chars[i]);
        i += 1;
    }
    out
}

} // verus!
