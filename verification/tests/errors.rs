use cargo_spec::comment_parser::parse_file;
use cargo_spec::errors::{Diagnostic, SpecError};
use cargo_spec::git::get_github_url;

fn s(text: &str) -> Option<String> {
    Some(text.to_string())
}

#[test]
fn messages() {
    assert_eq!(
        SpecError::SpecAlreadyExists("a/b".to_string()).message(),
        "A specification already exist at `a/b`"
    );
    assert_eq!(SpecError::BadPath("/".to_string()).message(), "Invalid directory `/`");
    assert_eq!(SpecError::CantParseFile("x".to_string()).message(), "Error parsing file `x`");
    assert_eq!(SpecError::MissingStartcode { bad_bit: (1, 7) }.message(), "Error parsing file");
    assert_eq!(SpecError::MissingEndcode { bad_bit: (1, 0) }.message(), "Error parsing file");
    assert_eq!(SpecError::DoubleStartcode { bad_bit: (1, 9) }.message(), "Error parsing file");
    assert_eq!(
        SpecError::BadInstruction { bad_bit: (1, 0), instruction: "x".to_string() }.message(),
        "Error parsing file"
    );
    assert_eq!(
        SpecError::NotGitRepo("@/a.rs".to_string()).message(),
        "This is not a git repository, you can't use `@/` in the path of section @/a.rs"
    );
}

#[test]
fn advice() {
    assert_eq!(
        SpecError::SpecAlreadyExists(String::new()).help(),
        s("the path you passed already has a specification")
    );
    assert_eq!(SpecError::BadPath(String::new()).help(), s("the path you passed is invalid"));
    assert_eq!(
        SpecError::CantParseFile(String::new()).help(),
        s("cargo-specification can only parse files that have an extension")
    );
    assert_eq!(
        SpecError::MissingStartcode { bad_bit: (0, 7) }.help(),
        s("missing a startcode instruction before the endcode")
    );
    assert_eq!(
        SpecError::MissingEndcode { bad_bit: (0, 0) }.help(),
        s("missing endcode instruction")
    );
    assert_eq!(
        SpecError::DoubleStartcode { bad_bit: (0, 9) }.help(),
        s("we are already in a startcode instruction")
    );
    assert_eq!(
        SpecError::BadInstruction { bad_bit: (0, 0), instruction: String::new() }.help(),
        s("unrecognized instruction")
    );
    assert_eq!(SpecError::NotGitRepo(String::new()).help(), None);
}

#[test]
fn labels_and_spans() {
    let e = SpecError::MissingStartcode { bad_bit: (3, 7) };
    assert_eq!(e.label(), s("This bit here"));
    assert_eq!(e.span(), Some((3, 7)));
    let e = SpecError::MissingEndcode { bad_bit: (4, 0) };
    assert_eq!(e.label(), s("this startcode instruction is not terminated"));
    assert_eq!(e.span(), Some((4, 0)));
    let e = SpecError::DoubleStartcode { bad_bit: (5, 9) };
    assert_eq!(e.label(), s("this startcode instruction is invalid"));
    assert_eq!(e.span(), Some((5, 9)));
    let e = SpecError::BadInstruction { bad_bit: (6, 0), instruction: "x".to_string() };
    assert_eq!(e.label(), s("try spec:startcode or spec:endcode instead"));
    assert_eq!(e.span(), Some((6, 0)));
    for e in [
        SpecError::SpecAlreadyExists("p".to_string()),
        SpecError::BadPath("p".to_string()),
        SpecError::CantParseFile("p".to_string()),
        SpecError::NotGitRepo("p".to_string()),
    ] {
        assert_eq!(e.label(), None);
        assert_eq!(e.span(), None);
        assert_eq!(e.detail(), None);
    }
}

#[test]
fn detail_of_a_bad_instruction() {
    let e = SpecError::BadInstruction { bad_bit: (4, 0), instruction: "flipcode".to_string() };
    assert_eq!(e.detail(), s("the instruction you gave: flipcode"));
    assert_eq!(SpecError::MissingEndcode { bad_bit: (4, 0) }.detail(), None);
}

#[test]
fn no_github_address_is_known() {
    assert_eq!(get_github_url("src/lib.rs", 3, Some("/repo"), Some("origin")), None);
    assert_eq!(get_github_url("src/lib.rs", 3, None, None), None);
}

#[test]
fn report_of_a_failure_in_a_source() {
    let source = "fn f() {}\n//~ spec:endcode\n";
    let error = parse_file("src/f.rs", source).unwrap_err();
    assert_eq!(
        error.report("src/f.rs", source),
        Diagnostic {
            message: "Error parsing file".to_string(),
            help: s("missing a startcode instruction before the endcode"),
            detail: None,
            file_name: "src/f.rs".to_string(),
            source: source.to_string(),
            label: s("This bit here"),
            span: Some((19, 7)),
        }
    );
    // the span covers the token that it points at
    assert_eq!(&source[19..19 + 7], "endcode");
}

#[test]
fn report_of_an_unknown_instruction() {
    let source = "//~ spec:flipcode";
    let error = parse_file("a.rs", source).unwrap_err();
    let shown = error.report("a.rs", source);
    assert_eq!(shown.message, "Error parsing file");
    assert_eq!(shown.help, s("unrecognized instruction"));
    assert_eq!(shown.detail, s("the instruction you gave: flipcode"));
    assert_eq!(shown.label, s("try spec:startcode or spec:endcode instead"));
    assert_eq!(shown.span, Some((4, 0)));
    assert_eq!(&source[4..], "spec:flipcode");
}

#[test]
fn report_of_a_file_without_extension() {
    let error = parse_file("Makefile", "all:").unwrap_err();
    let shown = error.report("Makefile", "all:");
    assert_eq!(shown.message, "Error parsing file `Makefile`");
    assert_eq!(
        shown.help,
        s("cargo-specification can only parse files that have an extension")
    );
    assert_eq!(shown.label, None);
    assert_eq!(shown.span, None);
    assert_eq!(shown.file_name, "Makefile");
    assert_eq!(shown.source, "all:");
}

#[test]
fn spans_lie_within_the_source() {
    for source in [
        "//~ spec:startcode",
        "a\n//~ spec:startcode\n",
        "//~ spec:startcode\n//~ spec:startcode",
        "é\r\n  //~ spec:endcode",
        "//~ spec:",
        "//~ spec:x y\n",
        "\u{3000}//~  spec:startcode\n//~ é spec:startcode\n",
    ] {
        let error = parse_file("x.rs", source).unwrap_err();
        let (offset, len) = error.span().unwrap();
        assert!(offset + len <= source.len());
    }
}
