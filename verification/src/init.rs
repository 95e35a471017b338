//! What a new specification starts with.

use crate::errors::{Failure, SpecError};
use crate::text::{chars_of, same_text, string_of};
use crate::toml_parser::{Config, Metadata, Specification};
use std::collections::HashMap;
use vstd::prelude::*;
use vstd::slice::slice_subrange;
use vstd::string::StringExecFns;

verus! {

/// The name of the file that holds the manifest of a specification.
pub const DEFAULT_MANIFEST: &'static str = "Specification.toml";

/// The name of the file that holds the template of a specification.
pub const DEFAULT_TEMPLATE: &'static str = "specification_template.md";

/// Whether a file of this name shows that its directory holds a
/// specification already: the manifest and the template do.
pub fn is_specification_file(name: &str) -> (r: bool)
    ensures
        r == marks_specification(name@),
{
    let name = chars_of(name);
    same_text(name.as_slice(), chars_of(DEFAULT_MANIFEST).as_slice()) || same_text(
        name.as_slice(),
        chars_of(DEFAULT_TEMPLATE).as_slice(),
    )
}

/// A file of this name shows that its directory holds a specification.
pub open spec fn marks_specification(name: Seq<char>) -> bool {
    name == DEFAULT_MANIFEST@ || name == DEFAULT_TEMPLATE@
}

/// One of the files of a directory shows that it holds a specification.
pub open spec fn holds_specification(entries: Seq<String>) -> bool {
    exists|i: int| 0 <= i < entries.len() && marks_specification(#[trigger] entries[i]@)
}

/// The name of a new specification: the one given, or else the name of the
/// directory that it is made in. Without either, the path of the directory
/// is refused.
pub fn specification_name(name: Option<String>, dir_name: Option<String>, path: &str) -> (r:
    Result<String, SpecError>)
    ensures
        match (name, dir_name) {
            (Some(n), _) => r matches Ok(x) && x@ == n@,
            (None, Some(d)) => r matches Ok(x) && x@ == d@,
            (None, None) => r matches Err(e) && e@ == Failure::BadPath(path@),
        },
{
    match name {
        Some(n) => Ok(n),
        None => match dir_name {
            Some(d) => Ok(d),
            None => Err(SpecError::BadPath(String::from_str(path))),
        },
    }
}

/// Makes sure that a directory holds no specification yet. `entries` are
/// the names of the files in it, and `path` is its path: the directory is
/// refused where one of the files is a manifest or a template.
pub fn ensure_no_specification(entries: &Vec<String>, path: &str) -> (r: Result<(), SpecError>)
    ensures
        holds_specification(entries@) ==> (r matches Err(e) && e@ == Failure::SpecAlreadyExists(
            path@,
        )),
        !holds_specification(entries@) ==> r is Ok,
{
    let mut i: usize = 0;
    while i < entries.len()
        invariant
            i <= entries.len(),
            forall|j: int| 0 <= j < i ==> !marks_specification(#[trigger] entries@[j]@),
        decreases entries.len() - i,
    {
        if is_specification_file(entries[i].as_str()) {
            return Err(SpecError::SpecAlreadyExists(String::from_str(path)));
        }
        i = i + 1;
    }
    Ok(())
}

/// The manifest that a new specification of the given name starts with.
pub fn default_specification(name: String) -> (r: Specification)
    ensures
        r.metadata.name@ == name@,
        r.metadata.description matches Some(d) && d@ == "some description"@,
        r.metadata.version is None,
        r.metadata.authors@.len() == 1,
        r.metadata.authors@[0]@ == "your name"@,
        r.config.template@ == DEFAULT_TEMPLATE@,
        r.sections@ == Map::<String, String>::empty(),
{
    let mut authors: Vec<String> = Vec::new();
    authors.push(String::from_str("your name"));
    Specification {
        metadata: Metadata {
            name,
            description: Some(String::from_str("some description")),
            version: None,
            authors,
        },
        config: Config { template: String::from_str(DEFAULT_TEMPLATE) },
        sections: HashMap::new(),
    }
}

/// The upper-case form of a character: one character or several.
pub uninterp spec fn uppercase_of(c: char) -> Seq<char>;

/// `char::to_uppercase` of the standard library, its characters gathered in
/// a string. The contract claims that they depend on the character alone,
/// and gives them the name [`uppercase_of`].
#[verifier::external_body]
fn to_uppercase(c: char) -> (r: String)
    ensures
        r@ == uppercase_of(c),
{
    c.to_uppercase().collect()
}

/// The title of a specification: its name, the first character in upper
/// case.
pub open spec fn title_of(name: Seq<char>) -> Seq<char> {
    uppercase_of(name[0]) + name.skip(1)
}

/// The template that a new specification starts with, given the upper-case
/// form of the first character of its name.
pub open spec fn template_for(initial: Seq<char>, name: Seq<char>) -> Seq<char> {
    "# "@ + initial + name.skip(1) + "\n\n My specification\n"@
}

/// The template that a new specification starts with, given the upper-case
/// form of the first character of its name: a title and a line of text.
pub fn template_with(initial: &str, name: &str) -> (r: String)
    requires
        name@.len() > 0,
    ensures
        r@ == template_for(initial@, name@),
{
    let chars = chars_of(name);
    let rest = string_of(slice_subrange(chars.as_slice(), 1, chars.len()));
    let mut r = String::from_str("# ");
    r.append(initial);
    r.append(rest.as_str());
    r.append("\n\n My specification\n");
    r
}

/// The template that a new specification of the given name starts with.
pub fn template_content(name: &str) -> (r: String)
    requires
        name@.len() > 0,
    ensures
        r@ == template_for(uppercase_of(name@[0]), name@),
{
    let chars = chars_of(name);
    let initial = to_uppercase(chars[0]);
    template_with(initial.as_str(), name)
}

} // verus!
