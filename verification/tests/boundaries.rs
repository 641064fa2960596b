use sentence::chars::{chars_of, is_filler, text_of};
use sentence::scan::scan;
use sentence::Boundary;

#[test]
fn every_kind_but_no_content_is_a_word() {
    assert!(Boundary::Start.is_word());
    assert!(Boundary::Word.is_word());
    assert!(Boundary::End.is_word());
    assert!(Boundary::Mixed.is_word());
    assert!(!Boundary::NoContent.is_word());
}

#[test]
fn filler_is_no_content_whatever_surrounds_it() {
    let befores = [
        None,
        Some(Boundary::Start),
        Some(Boundary::Word),
        Some(Boundary::End),
        Some(Boundary::Mixed),
        Some(Boundary::NoContent),
    ];
    for previous in befores {
        assert_eq!(Boundary::next(previous, true, true), Boundary::NoContent);
        assert_eq!(Boundary::next(previous, true, false), Boundary::NoContent);
    }
}

#[test]
fn a_word_begins_at_the_start_and_behind_filler() {
    assert_eq!(Boundary::next(None, false, false), Boundary::Start);
    assert_eq!(Boundary::next(None, false, true), Boundary::Mixed);
    assert_eq!(Boundary::next(Some(Boundary::NoContent), false, false), Boundary::Start);
    assert_eq!(Boundary::next(Some(Boundary::NoContent), false, true), Boundary::Mixed);
}

#[test]
fn a_word_goes_on_behind_a_word_character() {
    for previous in [Boundary::Start, Boundary::Word, Boundary::End, Boundary::Mixed] {
        assert_eq!(Boundary::next(Some(previous), false, false), Boundary::Word);
        assert_eq!(Boundary::next(Some(previous), false, true), Boundary::End);
    }
}

#[test]
fn white_space_and_control_characters_are_filler() {
    for c in [' ', '\t', '\n', '\r', '\u{0}', '\u{1f}', '\u{7f}', '\u{9f}', '\u{a0}', '\u{2028}', '\u{3000}'] {
        assert!(is_filler(c));
    }
}

#[test]
fn letters_digits_and_punctuation_are_not_filler() {
    for c in ['a', 'Z', '0', '!', '-', '\u{e9}', '\u{200b}', '\u{4e2d}'] {
        assert!(!is_filler(c));
    }
}

#[test]
fn characters_and_text_convert_both_ways() {
    assert_eq!(chars_of("h\u{e9}llo"), vec!['h', '\u{e9}', 'l', 'l', 'o']);
    assert_eq!(chars_of(""), Vec::<char>::new());
    assert_eq!(text_of(&vec!['h', '\u{e9}', 'l', 'l', 'o']), "h\u{e9}llo");
    assert_eq!(text_of(&Vec::new()), "");
}

#[test]
fn scanning_gives_three_sequences() {
    let (boundaries, checked, indexes) = scan(&chars_of("ab c"));
    assert_eq!(
        boundaries,
        vec![Boundary::Start, Boundary::End, Boundary::NoContent, Boundary::Mixed]
    );
    assert_eq!(checked, vec![false, false, false, false]);
    assert_eq!(indexes, vec![(0usize, 0usize), (3, 3)]);
}

#[test]
fn scanning_nothing_gives_nothing() {
    let (boundaries, checked, indexes) = scan(&Vec::new());
    assert!(boundaries.is_empty());
    assert!(checked.is_empty());
    assert!(indexes.is_empty());
}

#[test]
fn scanning_does_not_lower_the_text() {
    let (boundaries, _, indexes) = scan(&chars_of("AB"));
    assert_eq!(boundaries, vec![Boundary::Start, Boundary::End]);
    assert_eq!(indexes, vec![(0usize, 0usize)]);
}
