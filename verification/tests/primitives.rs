use cargo_spec::builder::{is_among, missing_from, watch_changes};
use cargo_spec::comment_parser::{
    comment_closes, extract_text, stripped_length, CaptureState, CommentContinuation, Extractor,
    Markers,
};
use cargo_spec::errors::SpecError;
use cargo_spec::text::{
    append_chars, byte_len_of, chars_of, count_leading, count_trailing, ends_with, matches_at,
    position, same_text, starts_with, string_of, width_of, CharClass,
};

fn c(s: &str) -> Vec<char> {
    s.chars().collect()
}

fn names(list: &[&str]) -> Vec<String> {
    list.iter().map(|s| s.to_string()).collect()
}

fn ocaml() -> Markers {
    Markers { start: c("(*~"), end: Some(c("*)")), tag: c("ocaml") }
}

#[test]
fn characters_and_strings_convert_both_ways() {
    assert_eq!(chars_of("aé€😀"), vec!['a', 'é', '€', '😀']);
    assert_eq!(chars_of(""), Vec::<char>::new());
    assert_eq!(string_of(&['a', 'é', '€', '😀']), "aé€😀");
    assert_eq!(string_of(&[]), "");
    let mut out = c("ab");
    append_chars(&mut out, &c("cd"));
    assert_eq!(out, c("abcd"));
}

#[test]
fn whitespace_class() {
    for ch in [
        '\t', '\n', '\u{b}', '\u{c}', '\r', ' ', '\u{85}', '\u{a0}', '\u{1680}', '\u{2000}',
        '\u{2005}', '\u{200a}', '\u{2028}', '\u{2029}', '\u{202f}', '\u{205f}', '\u{3000}',
    ] {
        assert!(CharClass::Whitespace.contains(ch));
        assert!(ch.is_whitespace());
    }
    for ch in ['a', '\u{8}', '\u{e}', '\u{1f}', '\u{200b}', '\u{180e}', '\u{feff}', '~', '\u{2060}'] {
        assert!(!CharClass::Whitespace.contains(ch));
        assert!(!ch.is_whitespace());
    }
}

#[test]
fn whitespace_class_is_that_of_the_standard_library() {
    let mut v: u32 = 0;
    while v <= 0x10ffff {
        if let Some(ch) = char::from_u32(v) {
            assert_eq!(CharClass::Whitespace.contains(ch), ch.is_whitespace());
        }
        v += 1;
    }
}

#[test]
fn other_classes() {
    assert!(CharClass::Only('~').contains('~'));
    assert!(!CharClass::Only('~').contains('-'));
    assert!(CharClass::Except('\n').contains('a'));
    assert!(!CharClass::Except('\n').contains('\n'));
}

#[test]
fn runs_at_both_ends() {
    assert_eq!(count_leading(&c("  \t a "), CharClass::Whitespace), 4);
    assert_eq!(count_leading(&c("a "), CharClass::Whitespace), 0);
    assert_eq!(count_leading(&c("   "), CharClass::Whitespace), 3);
    assert_eq!(count_leading(&c(""), CharClass::Whitespace), 0);
    assert_eq!(count_leading(&c("~~~ a~"), CharClass::Only('~')), 3);
    assert_eq!(count_leading(&c("ab\ncd"), CharClass::Except('\n')), 2);
    assert_eq!(count_trailing(&c(" a \t\n"), CharClass::Whitespace), 3);
    assert_eq!(count_trailing(&c(" a"), CharClass::Whitespace), 0);
    assert_eq!(count_trailing(&c("  "), CharClass::Whitespace), 2);
    assert_eq!(count_trailing(&c("a/b.c"), CharClass::Except('/')), 3);
}

#[test]
fn occurrences() {
    assert!(matches_at(&c("abcabc"), &c("bc"), 1));
    assert!(matches_at(&c("abcabc"), &c("bc"), 4));
    assert!(!matches_at(&c("abcabc"), &c("bc"), 0));
    assert!(!matches_at(&c("abcabc"), &c("bc"), 5));
    assert!(!matches_at(&c("abcabc"), &c("bc"), 9));
    assert!(matches_at(&c("abc"), &c(""), 3));
    assert!(!matches_at(&c("abc"), &c(""), 4));
    assert!(starts_with(&c("abc"), &c("ab")));
    assert!(starts_with(&c("abc"), &c("")));
    assert!(!starts_with(&c("abc"), &c("bc")));
    assert!(!starts_with(&c("a"), &c("ab")));
    assert!(ends_with(&c("abc"), &c("bc")));
    assert!(ends_with(&c("abc"), &c("")));
    assert!(!ends_with(&c("abc"), &c("ab")));
    assert!(!ends_with(&c("c"), &c("bc")));
    assert!(same_text(&c("abc"), &c("abc")));
    assert!(!same_text(&c("abc"), &c("abd")));
    assert!(!same_text(&c("abc"), &c("ab")));
}

#[test]
fn first_occurrence_or_the_length() {
    assert_eq!(position(&c("abcabc"), &c("bc")), 1);
    assert_eq!(position(&c("abcabc"), &c("abc")), 0);
    assert_eq!(position(&c("abcabc"), &c("cab")), 2);
    assert_eq!(position(&c("abcabc"), &c("x")), 6);
    assert_eq!(position(&c("abc"), &c("")), 0);
    assert_eq!(position(&c(""), &c("")), 0);
    assert_eq!(position(&c(""), &c("a")), 0);
    assert_eq!(position(&c("ab"), &c("abc")), 2);
    assert_eq!(position(&c("ab"), &c("b")), 1);
}

#[test]
fn encoded_lengths() {
    assert_eq!(width_of('a'), 1);
    assert_eq!(width_of('\u{7f}'), 1);
    assert_eq!(width_of('\u{80}'), 2);
    assert_eq!(width_of('\u{7ff}'), 2);
    assert_eq!(width_of('\u{800}'), 3);
    assert_eq!(width_of('\u{ffff}'), 3);
    assert_eq!(width_of('\u{10000}'), 4);
    assert_eq!(width_of('\u{10ffff}'), 4);
    assert_eq!(byte_len_of(&c("")), 0);
    assert_eq!(byte_len_of(&c("aé€😀")), 10);
    assert_eq!(byte_len_of(&c("aé€😀")), "aé€😀".len());
}

#[test]
fn end_markers_are_stripped_as_often_as_they_stand() {
    assert_eq!(stripped_length(&c("a *)"), &c("*)")), 2);
    assert_eq!(stripped_length(&c("a *)*)"), &c("*)")), 2);
    assert_eq!(stripped_length(&c("a *) "), &c("*)")), 5);
    assert_eq!(stripped_length(&c("*)"), &c("*)")), 0);
    assert_eq!(stripped_length(&c("abc"), &c("")), 3);
    assert_eq!(stripped_length(&c(""), &c("*)")), 0);
    assert!(comment_closes(&c("*)"), &c(" a *) ")));
    assert!(!comment_closes(&c("*)"), &c(" a * ) ")));
}

#[test]
fn extractor_line_by_line() {
    let m = ocaml();
    let mut e = Extractor::new();
    assert_eq!(e.capture, CaptureState::Idle);
    assert_eq!(e.continuation, CommentContinuation::Closed);
    assert_eq!(e.take_line(&m, 0, &c("let x = 1")), Ok(()));
    assert_eq!(e.output, c(""));
    assert_eq!(e.take_line(&m, 10, &c("  (*~ spec:startcode *)")), Ok(()));
    assert_eq!(e.capture, CaptureState::Capturing(21));
    assert_eq!(e.continuation, CommentContinuation::Closed);
    assert_eq!(e.take_line(&m, 34, &c("let y = 2")), Ok(()));
    assert_eq!(e.take_line(&m, 44, &c("   (*~ text")), Ok(()));
    assert_eq!(e.continuation, CommentContinuation::Open(6));
    assert_eq!(e.capture, CaptureState::Capturing(21));
    assert_eq!(e.take_line(&m, 56, &c("        more")), Ok(()));
    assert_eq!(e.continuation, CommentContinuation::Open(6));
    assert_eq!(e.take_line(&m, 69, &c("  end *)")), Ok(()));
    assert_eq!(e.continuation, CommentContinuation::Closed);
    assert_eq!(
        e.take_line(&m, 78, &c("(*~ spec:startcode *)")),
        Err(SpecError::DoubleStartcode { bad_bit: (87, 9) })
    );
    assert_eq!(e.take_line(&m, 78, &c("(*~ spec:endcode *)")), Ok(()));
    assert_eq!(e.capture, CaptureState::Idle);
    assert_eq!(e.output, c("```ocaml\nlet y = 2\ntext\n more\nend \n```\n"));
    assert_eq!(e.finish(), Ok(c("```ocaml\nlet y = 2\ntext\n more\nend \n```\n")));
}

#[test]
fn extractor_ends_within_a_capture() {
    let mut e = Extractor::new();
    assert_eq!(e.take_line(&ocaml(), 5, &c("(*~ spec:startcode *)")), Ok(()));
    assert_eq!(e.finish(), Err(SpecError::MissingEndcode { bad_bit: (14, 0) }));
    assert_eq!(Extractor::new().finish(), Ok(Vec::new()));
}

#[test]
fn extractor_emits_text() {
    let mut e = Extractor::new();
    e.emit_text(&c("~~ nested"));
    e.emit_text(&c(""));
    e.emit_text(&c(" ~ x"));
    assert_eq!(e.output, c("\t\tnested\n\n~ x\n"));
    assert_eq!(e.capture, CaptureState::Idle);
    assert_eq!(e.continuation, CommentContinuation::Closed);
}

#[test]
fn text_of_a_whole_source() {
    let m = Markers { start: c("#~"), end: None, tag: c("python") };
    assert_eq!(extract_text(&m, &c("#~ a\nb\n#~~ c")), Ok(c("a\n\tc\n")));
    assert_eq!(
        extract_text(&m, &c("#~ spec:startcode")),
        Err(SpecError::MissingEndcode { bad_bit: (8, 0) })
    );
}

#[test]
fn membership_and_difference() {
    let watched = names(&["a", "b", "c"]);
    assert!(is_among(&watched, &"b".to_string()));
    assert!(!is_among(&watched, &"d".to_string()));
    assert!(!is_among(&Vec::new(), &"a".to_string()));
    assert_eq!(missing_from(&watched, &names(&["b"])), names(&["a", "c"]));
    assert_eq!(missing_from(&watched, &Vec::new()), watched);
    assert_eq!(missing_from(&watched, &watched), Vec::<String>::new());
    assert_eq!(missing_from(&names(&["a", "x", "a"]), &names(&["x"])), names(&["a", "a"]));
}

#[test]
fn watcher_follows_the_files_of_the_specification() {
    let change = watch_changes(&names(&["t.md", "a.rs", "b.rs"]), &names(&["t.md", "b.rs", "c.rs"]));
    assert_eq!(change.watch, names(&["c.rs"]));
    assert_eq!(change.unwatch, names(&["a.rs"]));
    let change = watch_changes(&Vec::new(), &names(&["t.md"]));
    assert_eq!(change.watch, names(&["t.md"]));
    assert!(change.unwatch.is_empty());
}
