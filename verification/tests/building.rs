use cargo_spec::builder::{locate_section, output_file, root_mark, OutputFormat, SectionPath};
use cargo_spec::errors::SpecError;
use cargo_spec::formats::respec::{build_page, page_with, respec_options};
use cargo_spec::init::{
    default_specification, ensure_no_specification, is_specification_file, specification_name,
    template_content, template_with, DEFAULT_MANIFEST, DEFAULT_TEMPLATE,
};
use cargo_spec::toml_parser::{Config, Metadata, Specification};
use std::collections::HashMap;

fn specification(description: Option<&str>, authors: &[&str]) -> Specification {
    Specification {
        metadata: Metadata {
            name: "Consensus".to_string(),
            description: description.map(|d| d.to_string()),
            version: None,
            authors: authors.iter().map(|a| a.to_string()).collect(),
        },
        config: Config { template: "template.md".to_string() },
        sections: HashMap::new(),
    }
}

#[test]
fn output_file_defaults_by_format() {
    assert_eq!(output_file(None, OutputFormat::Markdown), "specification.md");
    assert_eq!(output_file(None, OutputFormat::Respec), "specification.html");
    assert_eq!(output_file(Some("out/a.md".to_string()), OutputFormat::Respec), "out/a.md");
}

#[test]
fn section_beside_the_manifest() {
    assert_eq!(
        locate_section("src/lib.rs", Some("/repo\n")),
        Ok(SectionPath { root: None, path: "src/lib.rs".to_string() })
    );
    assert_eq!(
        locate_section("a@b", None),
        Ok(SectionPath { root: None, path: "a@b".to_string() })
    );
    assert_eq!(locate_section("", None), Ok(SectionPath { root: None, path: String::new() }));
}

#[test]
fn section_from_the_repository_root() {
    assert_eq!(
        locate_section("@/src/lib.rs", Some("/home/me/repo\n")),
        Ok(SectionPath { root: Some("/home/me/repo".to_string()), path: "src/lib.rs".to_string() })
    );
    assert_eq!(
        locate_section("@/", Some("  /r \t")),
        Ok(SectionPath { root: Some("/r".to_string()), path: String::new() })
    );
}

#[test]
fn section_from_the_root_needs_a_repository() {
    assert_eq!(
        locate_section("@/src/lib.rs", None),
        Err(SpecError::NotGitRepo("@/src/lib.rs".to_string()))
    );
    assert_eq!(locate_section("@", None), Err(SpecError::NotGitRepo("@".to_string())));
}

#[test]
fn root_mark_of_a_name() {
    assert_eq!(root_mark("@/a"), (true, true));
    assert_eq!(root_mark("@"), (true, false));
    assert_eq!(root_mark("@é"), (true, false));
    assert_eq!(root_mark("a/b"), (false, true));
    assert_eq!(root_mark(""), (false, false));
}

#[test]
fn specification_files() {
    assert_eq!(DEFAULT_MANIFEST, "Specification.toml");
    assert_eq!(DEFAULT_TEMPLATE, "specification_template.md");
    assert!(is_specification_file("Specification.toml"));
    assert!(is_specification_file("specification_template.md"));
    assert!(!is_specification_file("specification.toml"));
    assert!(!is_specification_file("Specification.toml.bak"));
    assert!(!is_specification_file(""));
}

#[test]
fn manifest_of_a_new_specification() {
    let s = default_specification("consensus".to_string());
    assert_eq!(s.metadata.name, "consensus");
    assert_eq!(s.metadata.description, Some("some description".to_string()));
    assert_eq!(s.metadata.version, None);
    assert_eq!(s.metadata.authors, vec!["your name".to_string()]);
    assert_eq!(s.config.template, "specification_template.md");
    assert!(s.sections.is_empty());
}

#[test]
fn template_of_a_new_specification() {
    assert_eq!(template_content("consensus"), "# Consensus\n\n My specification\n");
    assert_eq!(template_content("Kimchi"), "# Kimchi\n\n My specification\n");
    assert_eq!(template_content("x"), "# X\n\n My specification\n");
    assert_eq!(template_content("ßeta"), "# SSeta\n\n My specification\n");
    assert_eq!(template_content("élan"), "# Élan\n\n My specification\n");
    assert_eq!(template_with("Q", "abc"), "# Qbc\n\n My specification\n");
}

#[test]
fn page_takes_name_authors_and_description() {
    let page = page_with(&specification(Some("about"), &["Ann", "Bob"]), "<p>x</p>".to_string());
    assert_eq!(page.name, "Consensus");
    assert_eq!(
        page.editors,
        vec![("Ann".to_string(), String::new()), ("Bob".to_string(), String::new())]
    );
    assert_eq!(page.github, "");
    assert_eq!(page.short_name, "");
    assert_eq!(page.description, "about");
    assert_eq!(page.content, "<p>x</p>");
    let page = page_with(&specification(None, &[]), String::new());
    assert_eq!(page.description, "");
    assert!(page.editors.is_empty());
}

#[test]
fn page_content_is_rendered_markdown() {
    let page = build_page(&specification(None, &["Ann"]), "# Title\n\nsome *text*\n");
    assert_eq!(page.content, "<h1>Title</h1>\n<p>some <em>text</em></p>\n");
    assert_eq!(page.name, "Consensus");
    assert_eq!(page.editors, vec![("Ann".to_string(), String::new())]);
}

#[test]
fn page_content_follows_the_settings() {
    let s = specification(None, &[]);
    assert_eq!(build_page(&s, "~~gone~~").content, "<p><del>gone</del></p>\n");
    assert_eq!(
        build_page(&s, "```rs\nlet x = 1;\n```\n").content,
        "<pre lang=\"rs\"><code>let x = 1;\n</code></pre>\n"
    );
    assert_eq!(build_page(&s, "<b>raw</b>").content, "<p><b>raw</b></p>\n");
    assert_eq!(build_page(&s, "a\nb").content, "<p>a\nb</p>\n");
}

#[test]
fn settings_of_a_page() {
    let o = respec_options();
    assert!(o.strikethrough && o.tagfilter && o.table && o.autolink && o.tasklist);
    assert!(o.superscript && o.footnotes && o.description_lists && o.smart);
    assert!(o.github_pre_lang && o.unsafe_);
    assert!(!o.hardbreaks && !o.escape);
    assert_eq!(o.width, 0);
    assert_eq!(o.header_ids, None);
    assert_eq!(o.front_matter_delimiter, None);
    assert_eq!(o.default_info_string, None);
}

#[test]
fn name_of_a_new_specification() {
    let given = Some("given".to_string());
    let dir = Some("dir".to_string());
    assert_eq!(specification_name(given.clone(), dir.clone(), "/a/dir"), Ok("given".to_string()));
    assert_eq!(specification_name(given, None, "/"), Ok("given".to_string()));
    assert_eq!(specification_name(None, dir, "/a/dir"), Ok("dir".to_string()));
    assert_eq!(specification_name(None, None, "/"), Err(SpecError::BadPath("/".to_string())));
}

#[test]
fn directory_with_a_specification_is_refused() {
    let free = vec!["src".to_string(), "Cargo.toml".to_string(), "specification.md".to_string()];
    assert_eq!(ensure_no_specification(&free, "a"), Ok(()));
    assert_eq!(ensure_no_specification(&Vec::new(), "a"), Ok(()));
    for taken in ["Specification.toml", "specification_template.md"] {
        let mut entries = free.clone();
        entries.push(taken.to_string());
        assert_eq!(
            ensure_no_specification(&entries, "a/b"),
            Err(SpecError::SpecAlreadyExists("a/b".to_string()))
        );
    }
}
