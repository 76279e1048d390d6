use crackleaf::text::{chars_of, contains_text, push_decimal, string_of, trim_bounds};

#[test]
fn chars_round_trip() {
    let chars = chars_of("a解b");
    assert_eq!(chars, vec!['a', '解', 'b']);
    assert_eq!(string_of(&chars, 0, 3), "a解b");
    assert_eq!(string_of(&chars, 1, 2), "解");
    assert_eq!(string_of(&chars, 2, 2), "");
}

#[test]
fn finds_patterns() {
    let text = chars_of("file is not encrypted");
    assert!(contains_text(&text, &chars_of("not encrypted")));
    assert!(contains_text(&text, &chars_of("file")));
    assert!(contains_text(&text, &chars_of("")));
    assert!(contains_text(&text, &chars_of("file is not encrypted")));
    assert!(!contains_text(&text, &chars_of("file is encrypted")));
    assert!(!contains_text(&text, &chars_of("file is not encrypted!")));
    assert!(!contains_text(&chars_of(""), &chars_of("x")));
    assert!(contains_text(&chars_of(""), &chars_of("")));
}

#[test]
fn trims_both_ends() {
    let text = chars_of("  \t hello world \n");
    let (from, to) = trim_bounds(&text);
    assert_eq!(string_of(&text, from, to), "hello world");
    let blank = chars_of(" \n\t ");
    let (from, to) = trim_bounds(&blank);
    assert_eq!(from, to);
    let plain = chars_of("x");
    assert_eq!(trim_bounds(&plain), (0, 1));
    let empty = chars_of("");
    assert_eq!(trim_bounds(&empty), (0, 0));
}

#[test]
fn decimal_numerals() {
    let mut s = String::from("n=");
    push_decimal(&mut s, 0);
    assert_eq!(s, "n=0");
    let mut s = String::new();
    push_decimal(&mut s, 9);
    push_decimal(&mut s, 10);
    push_decimal(&mut s, 9999);
    assert_eq!(s, "9109999");
    let mut s = String::new();
    push_decimal(&mut s, 1203);
    assert_eq!(s, "1203");
}

#[test]
fn whitespace_is_the_unicode_set() {
    let listed = |c: char| {
        ('\u{9}'..='\u{d}').contains(&c)
            || c == ' '
            || c == '\u{85}'
            || c == '\u{a0}'
            || c == '\u{1680}'
            || ('\u{2000}'..='\u{200a}').contains(&c)
            || c == '\u{2028}'
            || c == '\u{2029}'
            || c == '\u{202f}'
            || c == '\u{205f}'
            || c == '\u{3000}'
    };
    let mut count = 0;
    for c in '\u{0}'..=char::MAX {
        let (from, to) = trim_bounds(&vec![c]);
        assert_eq!(from == to, listed(c), "U+{:04X}", c as u32);
        if from == to {
            count += 1;
        }
    }
    assert_eq!(count, 25);
}

#[test]
fn trims_unicode_spaces() {
    let text = chars_of("\u{3000}\u{a0}x\u{200b}y\u{2028}");
    let (from, to) = trim_bounds(&text);
    assert_eq!(string_of(&text, from, to), "x\u{200b}y");
}
