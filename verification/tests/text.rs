use semantic_owl_api::loader::text::{
    chars_of, count_char_in, find_char, is_whitespace_char, split_spans, trim_end_index,
    trim_start_index,
};

fn chars(s: &str) -> Vec<char> {
    s.chars().collect()
}

#[test]
fn whitespace_is_what_unicode_says() {
    for c in [
        '\t', '\n', '\u{b}', '\u{c}', '\r', ' ', '\u{85}', '\u{a0}', '\u{1680}', '\u{2000}',
        '\u{2005}', '\u{200a}', '\u{2028}', '\u{2029}', '\u{202f}', '\u{205f}', '\u{3000}',
    ] {
        assert!(is_whitespace_char(c), "{:?}", c);
    }
    for c in ['a', '.', '#', '\u{0}', '\u{8}', '\u{e}', '\u{1f}', '\u{200b}', '\u{180e}', '\u{feff}'] {
        assert!(!is_whitespace_char(c), "{:?}", c);
    }
}

#[test]
fn whitespace_agrees_with_char_is_whitespace() {
    let mut n: u32 = 0;
    while n <= 0x3100 {
        if let Some(c) = char::from_u32(n) {
            assert_eq!(is_whitespace_char(c), c.is_whitespace(), "{:?}", c);
        }
        n += 1;
    }
}

#[test]
fn chars_of_gives_the_characters() {
    assert_eq!(chars_of(""), Vec::<char>::new());
    assert_eq!(chars_of("a é."), vec!['a', ' ', 'é', '.']);
}

#[test]
fn trim_indices() {
    let v = chars("  a b \t ");
    assert_eq!(trim_end_index(&v, v.len()), 5);
    assert_eq!(trim_end_index(&v, 4), 3);
    assert_eq!(trim_end_index(&v, 2), 0);
    assert_eq!(trim_end_index(&v, 0), 0);
    assert_eq!(trim_start_index(&v, 0, v.len()), 2);
    assert_eq!(trim_start_index(&v, 3, v.len()), 4);
    assert_eq!(trim_start_index(&v, 5, v.len()), 8);
    assert_eq!(trim_start_index(&v, 0, 1), 1);
}

#[test]
fn find_and_count() {
    let v = chars("a:b:c d:");
    assert_eq!(find_char(&v, 0, v.len(), ':'), 1);
    assert_eq!(find_char(&v, 2, v.len(), ':'), 3);
    assert_eq!(find_char(&v, 4, 7, ':'), 7);
    assert_eq!(find_char(&v, 0, v.len(), 'x'), v.len());
    assert_eq!(find_char(&v, 3, 3, ':'), 3);
    assert_eq!(count_char_in(&v, 0, v.len(), ':'), 3);
    assert_eq!(count_char_in(&v, 0, 5, ':'), 2);
    assert_eq!(count_char_in(&v, 4, 7, ':'), 0);
    assert_eq!(count_char_in(&v, 2, 2, ':'), 0);
}

#[test]
fn split_cuts_at_every_separator() {
    assert_eq!(split_spans(&chars(""), ' '), vec![(0, 0)]);
    assert_eq!(split_spans(&chars("abc"), ' '), vec![(0, 3)]);
    assert_eq!(split_spans(&chars("a bc d"), ' '), vec![(0, 1), (2, 4), (5, 6)]);
    assert_eq!(split_spans(&chars(" a  b "), ' '), vec![(0, 0), (1, 2), (3, 3), (4, 5), (6, 6)]);
    assert_eq!(split_spans(&chars(" "), ' '), vec![(0, 0), (1, 1)]);
}

#[test]
fn split_agrees_with_str_split() {
    for s in ["", " ", "a", "a b", " a", "a ", "cco:Foo rdf:type  owl:Class ;", "é ü  "] {
        let v = chars(s);
        let got: Vec<String> =
            split_spans(&v, ' ').iter().map(|(lo, hi)| v[*lo..*hi].iter().collect()).collect();
        let want: Vec<String> = s.split(' ').map(String::from).collect();
        assert_eq!(got, want, "{:?}", s);
    }
}
