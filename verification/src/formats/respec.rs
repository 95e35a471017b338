//! The ReSpec format: the specification as an HTML page.

use crate::text::text_of;
use crate::toml_parser::Specification;
use vstd::prelude::*;
use vstd::string::StringExecFns;

verus! {

/// How Markdown is read and turned into HTML.
#[derive(Debug)]
pub struct HtmlOptions {
    pub strikethrough: bool,
    pub tagfilter: bool,
    pub table: bool,
    pub autolink: bool,
    pub tasklist: bool,
    pub superscript: bool,
    pub header_ids: Option<String>,
    pub footnotes: bool,
    pub description_lists: bool,
    pub front_matter_delimiter: Option<String>,
    pub smart: bool,
    pub default_info_string: Option<String>,
    pub hardbreaks: bool,
    pub github_pre_lang: bool,
    pub width: usize,
    pub unsafe_: bool,
    pub escape: bool,
}

/// The mathematical value of [`HtmlOptions`].
pub struct HtmlSettings {
    pub strikethrough: bool,
    pub tagfilter: bool,
    pub table: bool,
    pub autolink: bool,
    pub tasklist: bool,
    pub superscript: bool,
    pub header_ids: Option<Seq<char>>,
    pub footnotes: bool,
    pub description_lists: bool,
    pub front_matter_delimiter: Option<Seq<char>>,
    pub smart: bool,
    pub default_info_string: Option<Seq<char>>,
    pub hardbreaks: bool,
    pub github_pre_lang: bool,
    pub width: nat,
    pub unsafe_: bool,
    pub escape: bool,
}

impl View for HtmlOptions {
    type V = HtmlSettings;

    open spec fn view(&self) -> HtmlSettings {
        HtmlSettings {
            strikethrough: self.strikethrough,
            tagfilter: self.tagfilter,
            table: self.table,
            autolink: self.autolink,
            tasklist: self.tasklist,
            superscript: self.superscript,
            header_ids: text_of(self.header_ids),
            footnotes: self.footnotes,
            description_lists: self.description_lists,
            front_matter_delimiter: text_of(self.front_matter_delimiter),
            smart: self.smart,
            default_info_string: text_of(self.default_info_string),
            hardbreaks: self.hardbreaks,
            github_pre_lang: self.github_pre_lang,
            width: self.width as nat,
            unsafe_: self.unsafe_,
            escape: self.escape,
        }
    }
}

/// The settings by which the content of a ReSpec page is rendered: every
/// extension but header identifiers and front matter, smart punctuation, the
/// language of a code block on its `pre` element, and raw HTML let through.
pub open spec fn respec_settings() -> HtmlSettings {
    HtmlSettings {
        strikethrough: true,
        tagfilter: true,
        table: true,
        autolink: true,
        tasklist: true,
        superscript: true,
        header_ids: None,
        footnotes: true,
        description_lists: true,
        front_matter_delimiter: None,
        smart: true,
        default_info_string: None,
        hardbreaks: false,
        github_pre_lang: true,
        width: 0,
        unsafe_: true,
        escape: false,
    }
}

/// The settings by which the content of a ReSpec page is rendered.
pub fn respec_options() -> (r: HtmlOptions)
    ensures
        r@ == respec_settings(),
{
    HtmlOptions {
        strikethrough: true,
        tagfilter: true,
        table: true,
        autolink: true,
        tasklist: true,
        superscript: true,
        header_ids: None,
        footnotes: true,
        description_lists: true,
        front_matter_delimiter: None,
        smart: true,
        default_info_string: None,
        hardbreaks: false,
        github_pre_lang: true,
        width: 0,
        unsafe_: true,
        escape: false,
    }
}

/// The HTML that the Markdown renderer gives for a Markdown text under
/// given settings.
pub uninterp spec fn html_of(markdown: Seq<char>, settings: HtmlSettings) -> Seq<char>;

/// `comrak::markdown_to_html`, with the options handed over field by field.
/// The contract claims that the HTML is a function of the Markdown text and
/// the options, and gives it the name [`html_of`]; it says nothing of what
/// the HTML is. Front matter is left out: for it the renderer builds a
/// pattern from the delimiter, which can fail.
#[verifier::external_body]
fn markdown_to_html(content: &str, o: &HtmlOptions) -> (html: String)
    requires
        o.front_matter_delimiter is None,
    ensures
        html@ == html_of(content@, o@),
{
    let extension = comrak::ComrakExtensionOptions {
        strikethrough: o.strikethrough, tagfilter: o.tagfilter, table: o.table,
        autolink: o.autolink, tasklist: o.tasklist, superscript: o.superscript,
        header_ids: o.header_ids.clone(), footnotes: o.footnotes,
        description_lists: o.description_lists,
        front_matter_delimiter: o.front_matter_delimiter.clone(),
    };
    let parse = comrak::ComrakParseOptions { smart: o.smart, default_info_string: o.default_info_string.clone() };
    let render = comrak::ComrakRenderOptions {
        hardbreaks: o.hardbreaks, github_pre_lang: o.github_pre_lang, width: o.width,
        unsafe_: o.unsafe_, escape: o.escape,
    };
    comrak::markdown_to_html(content, &comrak::ComrakOptions { extension, parse, render })
}

/// What a ReSpec page is filled with.
#[derive(Debug)]
pub struct RespecPage {
    /// The name of the specification.
    pub name: String,
    /// The editors, each with an address.
    pub editors: Vec<(String, String)>,
    /// The repository of the specification.
    pub github: String,
    /// The short name of the specification.
    pub short_name: String,
    /// What the specification is about.
    pub description: String,
    /// The body of the page, as HTML.
    pub content: String,
}

/// The names and addresses of the editors, as texts.
pub open spec fn editors_of(editors: Seq<(String, String)>) -> Seq<(Seq<char>, Seq<char>)> {
    Seq::new(editors.len(), |i: int| (editors[i].0@, editors[i].1@))
}

/// One editor for each author, under the author's name and without an
/// address.
pub open spec fn editors_from(authors: Seq<String>) -> Seq<(Seq<char>, Seq<char>)> {
    Seq::new(authors.len(), |i: int| (authors[i]@, Seq::<char>::empty()))
}

/// The description of a specification; the empty text where it has none.
pub open spec fn description_of(specification: &Specification) -> Seq<char> {
    match specification.metadata.description {
        Some(d) => d@,
        None => Seq::empty(),
    }
}

/// The page of a specification whose body is `html`: it bears the name and
/// the description of the specification, its authors are the editors, and
/// the repository and the short name are left empty.
pub fn page_with(specification: &Specification, html: String) -> (page: RespecPage)
    ensures
        page.name@ == specification.metadata.name@,
        editors_of(page.editors@) == editors_from(specification.metadata.authors@),
        page.github@ == Seq::<char>::empty(),
        page.short_name@ == Seq::<char>::empty(),
        page.description@ == description_of(specification),
        page.content@ == html@,
{
    let authors = &specification.metadata.authors;
    let mut editors: Vec<(String, String)> = Vec::new();
    let mut i: usize = 0;
    while i < authors.len()
        invariant
            i <= authors.len(),
            editors@.len() == i,
            forall|j: int|
                0 <= j < i ==> (#[trigger] editors@[j]).0@ == authors@[j]@ && editors@[j].1@
                    == Seq::<char>::empty(),
        decreases authors.len() - i,
    {
        editors.push((authors[i].clone(), String::new()));
        i = i + 1;
    }
    let description = match &specification.metadata.description {
        Some(d) => d.clone(),
        None => String::new(),
    };
    assert(editors_of(editors@) =~= editors_from(authors@));
    RespecPage {
        name: specification.metadata.name.clone(),
        editors,
        github: String::new(),
        short_name: String::new(),
        description,
        content: html,
    }
}

/// The page of a specification whose body is the given Markdown text,
/// rendered as HTML.
pub fn build_page(specification: &Specification, content: &str) -> (page: RespecPage)
    ensures
        page.name@ == specification.metadata.name@,
        editors_of(page.editors@) == editors_from(specification.metadata.authors@),
        page.github@ == Seq::<char>::empty(),
        page.short_name@ == Seq::<char>::empty(),
        page.description@ == description_of(specification),
        page.content@ == html_of(content@, respec_settings()),
{
    let options = respec_options();
    let html = markdown_to_html(content, &options);
    page_with(specification, html)
}

} // verus!
