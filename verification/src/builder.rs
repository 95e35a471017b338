//! What building a specification decides: where its sections are read from
//! and where it is written to.

use crate::errors::{Failure, SpecError};
use crate::text::{
    char_width, chars_of, count_leading, count_trailing, string_of, trim, width_of, CharClass,
};
use vstd::prelude::*;
use vstd::slice::slice_subrange;
use vstd::string::StringExecFns;

verus! {

/// The different specification format that can be written out.
#[derive(Debug, Copy, Clone, PartialEq, Eq)]
pub enum OutputFormat {
    /// Markdown (the default)
    Markdown,
    /// Respec
    Respec,
}

/// The name of the file that a specification is written to where none is
/// given.
pub open spec fn default_output(format: OutputFormat) -> Seq<char> {
    match format {
        OutputFormat::Markdown => "specification.md"@,
        OutputFormat::Respec => "specification.html"@,
    }
}

/// The file that a specification is written to: the one given, or the one
/// that goes with the format.
pub fn output_file(given: Option<String>, format: OutputFormat) -> (r: String)
    ensures
        r@ == match given {
            Some(path) => path@,
            None => default_output(format),
        },
{
    match given {
        Some(path) => path,
        None => match format {
            OutputFormat::Markdown => String::from_str("specification.md"),
            OutputFormat::Respec => String::from_str("specification.html"),
        },
    }
}

/// Where the file of a section is.
#[derive(Debug, PartialEq, Eq)]
pub struct SectionPath {
    /// The root of the repository, where the file is named from there;
    /// `None` where it is named from the directory of the manifest.
    pub root: Option<String>,
    /// The path of the file from there.
    pub path: String,
}

/// The mathematical value of a [`SectionPath`].
pub struct SectionPlace {
    pub root: Option<Seq<char>>,
    pub path: Seq<char>,
}

impl View for SectionPath {
    type V = SectionPlace;

    open spec fn view(&self) -> SectionPlace {
        SectionPlace {
            root: match self.root {
                Some(r) => Some(r@),
                None => None,
            },
            path: self.path@,
        }
    }
}

/// The file is named from the root of the repository: its name starts with
/// `@`.
pub open spec fn in_repository(filename: Seq<char>) -> bool {
    filename.len() > 0 && filename[0] == '@'
}

/// The name has, after its `@`, one character of one byte, which stands
/// for the `/`.
pub open spec fn has_root_mark(filename: Seq<char>) -> bool {
    filename.len() >= 2 && char_width(filename[1]) == 1
}

/// Where the file of a section is: a name that starts with `@` is read from
/// the root of the repository, which is `repository` without the whitespace
/// around it, and the path is what follows the first two characters; any
/// other name is a path from the directory of the manifest. A name that
/// starts with `@` cannot be placed without a repository.
pub open spec fn section_place(filename: Seq<char>, repository: Option<Seq<char>>) -> Result<
    SectionPlace,
    Failure,
> {
    if in_repository(filename) {
        match repository {
            Some(root) => Ok(SectionPlace { root: Some(trim(root)), path: filename.skip(2) }),
            None => Err(Failure::NotGitRepo(filename)),
        }
    } else {
        Ok(SectionPlace { root: None, path: filename })
    }
}

/// Whether the file is named from the root of the repository, and its name
/// then long enough to hold a path.
pub fn root_mark(filename: &str) -> (r: (bool, bool))
    ensures
        r.0 == in_repository(filename@),
        r.1 == has_root_mark(filename@),
{
    let chars = chars_of(filename);
    let marked = chars.len() > 0 && chars[0] == '@';
    let long = chars.len() >= 2 && width_of(chars[1]) == 1;
    (marked, long)
}

/// Places the file of a section. `repository` is the root of the
/// repository, as the repository reports it, where there is one.
pub fn locate_section(filename: &str, repository: Option<&str>) -> (r: Result<
    SectionPath,
    SpecError,
>)
    requires
        in_repository(filename@) && repository is Some ==> has_root_mark(filename@),
    ensures
        match section_place(
            filename@,
            match repository {
                Some(root) => Some(root@),
                None => None,
            },
        ) {
            Ok(place) => r matches Ok(p) && p@ == place,
            Err(e) => r matches Err(x) && x@ == e,
        },
{
    let chars = chars_of(filename);
    if chars.len() > 0 && chars[0] == '@' {
        match repository {
            None => Err(SpecError::NotGitRepo(String::from_str(filename))),
            Some(root) => {
                let root = chars_of(root);
                let lead = count_leading(root.as_slice(), CharClass::Whitespace);
                let rest = slice_subrange(root.as_slice(), lead, root.len());
                let trail = count_trailing(rest, CharClass::Whitespace);
                let trimmed = slice_subrange(rest, 0, rest.len() - trail);
                let path = slice_subrange(chars.as_slice(), 2, chars.len());
                Ok(SectionPath { root: Some(string_of(trimmed)), path: string_of(path) })
            },
        }
    } else {
        Ok(SectionPath { root: None, path: String::from_str(filename) })
    }
}

/// The texts of a list of strings.
pub open spec fn texts(names: Seq<String>) -> Seq<Seq<char>> {
    Seq::new(names.len(), |i: int| names[i]@)
}

/// The names that are not among `others`, in their order.
pub open spec fn without(names: Seq<Seq<char>>, others: Seq<Seq<char>>) -> Seq<Seq<char>>
    decreases names.len(),
{
    if names.len() == 0 {
        Seq::empty()
    } else if others.contains(names.last()) {
        without(names.drop_last(), others)
    } else {
        without(names.drop_last(), others).push(names.last())
    }
}

/// Whether `name` is among `names`.
pub fn is_among(names: &Vec<String>, name: &String) -> (r: bool)
    ensures
        r == texts(names@).contains(name@),
{
    let mut i: usize = 0;
    while i < names.len()
        invariant
            i <= names.len(),
            forall|j: int| 0 <= j < i ==> texts(names@)[j] != name@,
        decreases names.len() - i,
    {
        if names[i] == *name {
            assert(texts(names@)[i as int] == name@);
            return true;
        }
        i = i + 1;
    }
    false
}

/// The names that are not among `others`, in their order.
pub fn missing_from(names: &Vec<String>, others: &Vec<String>) -> (r: Vec<String>)
    ensures
        texts(r@) == without(texts(names@), texts(others@)),
{
    let mut r: Vec<String> = Vec::new();
    let mut i: usize = 0;
    assert(texts(names@).take(0) =~= Seq::<Seq<char>>::empty());
    assert(texts(r@) =~= Seq::<Seq<char>>::empty());
    while i < names.len()
        invariant
            i <= names.len(),
            texts(r@) == without(texts(names@).take(i as int), texts(others@)),
        decreases names.len() - i,
    {
        let ghost before = texts(r@);
        let ghost seen = texts(names@).take(i + 1);
        assert(seen.drop_last() =~= texts(names@).take(i as int));
        assert(seen.last() == names@[i as int]@);
        if !is_among(others, &names[i]) {
            r.push(names[i].clone());
            assert(texts(r@) =~= before.push(names@[i as int]@));
        }
        i = i + 1;
    }
    assert(texts(names@).take(names.len() as int) =~= texts(names@));
    r
}

/// What a watcher has to change once a specification is built anew.
#[derive(Debug)]
pub struct WatchChange {
    /// The files to begin to watch.
    pub watch: Vec<String>,
    /// The files to watch no longer.
    pub unwatch: Vec<String>,
}

/// What a watcher of the files `watched` has to change so that it watches
/// the files `wanted`: it begins with those that are wanted and not yet
/// watched, and lets go of those that are watched and no longer wanted.
pub fn watch_changes(watched: &Vec<String>, wanted: &Vec<String>) -> (r: WatchChange)
    ensures
        texts(r.watch@) == without(texts(wanted@), texts(watched@)),
        texts(r.unwatch@) == without(texts(watched@), texts(wanted@)),
{
    WatchChange { watch: missing_from(wanted, watched), unwatch: missing_from(watched, wanted) }
}

} // verus!
