use crust_of_rust::str_split::{until_first_occurance_of_char, Delimiter, StrSplit};

fn pieces<'a, D: Delimiter>(mut split: StrSplit<'a, D>) -> Vec<&'a str> {
    let mut found = Vec::new();
    while let Some(piece) = split.next() {
        found.push(piece);
    }
    found
}

#[test]
fn str_split_initial_working_test() {
    let haystack = "s o m e t h i n g t o r e f l e c t u p o n";
    let letters: Vec<_> = pieces(StrSplit::new(haystack, " "));

    assert_eq!(
        letters,
        vec![
            "s", "o", "m", "e", "t", "h", "i", "n", "g", "t", "o", "r", "e", "f", "l", "e", "c",
            "t", "u", "p", "o", "n"
        ]
    );
}

fn plain_pieces<'a>(mut split: crust_of_rust::str_split::plain::StrSplit<'a>) -> Vec<&'a str> {
    let mut found = Vec::new();
    while let Some(piece) = split.next() {
        found.push(piece);
    }
    found
}

#[test]
fn mod_initial_working_test() {
    let haystack = "s o m e t h i n g t o r e f l e c t u p o n";
    let letters: Vec<_> =
        plain_pieces(crust_of_rust::str_split::plain::StrSplit::new(haystack, " "));

    assert_eq!(
        letters,
        vec![
            "s", "o", "m", "e", "t", "h", "i", "n", "g", "t", "o", "r", "e", "f", "l", "e", "c",
            "t", "u", "p", "o", "n"
        ]
    );
}

#[test]
fn plain_split_has_no_empty_piece_at_the_end() {
    let letters = plain_pieces(crust_of_rust::str_split::plain::StrSplit::new("a b c d ", " "));
    assert_eq!(letters, vec!["a", "b", "c", "d"]);
    let none = plain_pieces(crust_of_rust::str_split::plain::StrSplit::new("", " "));
    assert_eq!(none, Vec::<&str>::new());
    let inner = plain_pieces(crust_of_rust::str_split::plain::StrSplit::new(",a,,b", ","));
    assert_eq!(inner, vec!["", "a", "", "b"]);
}

#[test]
fn ends_in_delimiter_test() {
    let haystack = "a b c d ";
    let letters: Vec<_> = pieces(StrSplit::new(haystack, " "));

    assert_eq!(letters, vec!["a", "b", "c", "d", ""]);
}

#[test]
fn multiple_lifetime_function_test() {
    let haystack = "a b c d ";
    let letters: &str = until_first_occurance_of_char(haystack, ' ');

    assert_eq!(letters, &"a".to_string());
}

#[test]
fn no_delimiter_gives_the_whole_string_once() {
    let mut split = StrSplit::new("abc", ", ");
    assert_eq!(split.next(), Some("abc"));
    assert_eq!(split.next(), None);
    assert_eq!(split.next(), None);
}

#[test]
fn empty_string_has_one_empty_piece() {
    assert_eq!(pieces(StrSplit::new("", ",")), vec![""]);
}

#[test]
fn long_delimiters_and_neighbouring_occurrences() {
    assert_eq!(pieces(StrSplit::new("a--b----c", "--")), vec!["a", "b", "", "c"]);
    assert_eq!(pieces(StrSplit::new("--a", "--")), vec!["", "a"]);
    assert_eq!(pieces(StrSplit::new("aaa", "aa")), vec!["", "a"]);
}

#[test]
fn characters_of_several_bytes_are_not_cut() {
    assert_eq!(pieces(StrSplit::new("日本→語→", "→")), vec!["日本", "語", ""]);
    assert_eq!(pieces(StrSplit::new("é,ü", ",")), vec!["é", "ü"]);
}

#[test]
fn find_next_gives_byte_offsets_of_the_first_occurrence() {
    assert_eq!(" ".find_next("ab cd ef"), Some((2, 3)));
    assert_eq!("cd".find_next("ab cd cd"), Some((3, 5)));
    assert_eq!("→".find_next("日→"), Some((3, 6)));
    assert_eq!("x".find_next("ab cd"), None);
    assert_eq!("abcdef".find_next("abc"), None);
    assert_eq!("".find_next("abc"), Some((0, 0)));
}

#[test]
fn until_first_occurrence_of_a_character() {
    assert_eq!(until_first_occurance_of_char("key=value=x", '='), "key");
    assert_eq!(until_first_occurance_of_char("no sign", '='), "no sign");
    assert_eq!(until_first_occurance_of_char("=front", '='), "");
    assert_eq!(until_first_occurance_of_char("größe→x", '→'), "größe");
}
