use sentence::ConfusableTable;

#[test]
fn an_empty_table_changes_nothing() {
    let table = ConfusableTable::new();
    assert_eq!(table.lookup('a'), None);
    assert_eq!(table.replace_confusables("Hello, W0rld"), "Hello, W0rld");
    assert_eq!(table.replace_confusables(""), "");
}

#[test]
fn an_entry_is_found_again() {
    let mut table = ConfusableTable::new();
    table.insert('0', "o");
    table.insert('1', "l");
    assert_eq!(table.lookup('0'), Some(&String::from("o")));
    assert_eq!(table.lookup('1'), Some(&String::from("l")));
    assert_eq!(table.lookup('2'), None);
    assert_eq!(table.lookup('o'), None);
}

#[test]
fn a_later_entry_replaces_an_earlier_one() {
    let mut table = ConfusableTable::new();
    table.insert('0', "o");
    table.insert('0', "zero");
    assert_eq!(table.lookup('0'), Some(&String::from("zero")));
    assert_eq!(table.replace_confusables("10"), "1zero");
}

#[test]
fn each_character_is_replaced_on_its_own() {
    let mut table = ConfusableTable::new();
    table.insert('a', "b");
    table.insert('b', "c");
    assert_eq!(table.replace_confusables("aabb"), "bbcc");
}

#[test]
fn a_replacement_may_be_empty_or_long() {
    let mut table = ConfusableTable::new();
    table.insert('-', "");
    table.insert('\u{00df}', "ss");
    assert_eq!(table.replace_confusables("stra\u{00df}e-n"), "strassen");
}

#[test]
fn replacing_keeps_the_case() {
    let mut table = ConfusableTable::new();
    table.insert('0', "O");
    assert_eq!(table.replace_confusables("F00"), "FOO");
}
