//! The failures that the library reports, and the texts that describe them.

use crate::text::text_of;
use vstd::prelude::*;
use vstd::string::StringExecFns;

verus! {

/// What can go wrong while a specification is set up or extracted.
///
/// A `bad_bit` is a span in the scanned source: the byte offset at which it
/// starts and its length in bytes.
#[derive(Debug, PartialEq, Eq)]
pub enum SpecError {
    /// The directory at the given path already holds a specification.
    SpecAlreadyExists(String),
    /// The given path does not name a directory.
    BadPath(String),
    /// The file at the given path has no extension, so no comment syntax can
    /// be chosen for it.
    CantParseFile(String),
    /// An `endcode` instruction stands where no code is being captured.
    MissingStartcode { bad_bit: (usize, usize) },
    /// The source ends while code is still being captured.
    MissingEndcode { bad_bit: (usize, usize) },
    /// A `startcode` instruction stands where code is already being captured.
    DoubleStartcode { bad_bit: (usize, usize) },
    /// An instruction other than `startcode` and `endcode`; `instruction` is
    /// what the line holds after the instruction prefix.
    BadInstruction { bad_bit: (usize, usize), instruction: String },
    /// A section path is relative to the repository root, and there is no
    /// repository.
    NotGitRepo(String),
}

/// The mathematical value of a [`SpecError`].
pub enum Failure {
    SpecAlreadyExists(Seq<char>),
    BadPath(Seq<char>),
    CantParseFile(Seq<char>),
    MissingStartcode { bad_bit: (nat, nat) },
    MissingEndcode { bad_bit: (nat, nat) },
    DoubleStartcode { bad_bit: (nat, nat) },
    BadInstruction { bad_bit: (nat, nat), instruction: Seq<char> },
    NotGitRepo(Seq<char>),
}

impl View for SpecError {
    type V = Failure;

    open spec fn view(&self) -> Failure {
        match self {
            SpecError::SpecAlreadyExists(p) => Failure::SpecAlreadyExists(p@),
            SpecError::BadPath(p) => Failure::BadPath(p@),
            SpecError::CantParseFile(p) => Failure::CantParseFile(p@),
            SpecError::MissingStartcode { bad_bit } => Failure::MissingStartcode {
                bad_bit: (bad_bit.0 as nat, bad_bit.1 as nat),
            },
            SpecError::MissingEndcode { bad_bit } => Failure::MissingEndcode {
                bad_bit: (bad_bit.0 as nat, bad_bit.1 as nat),
            },
            SpecError::DoubleStartcode { bad_bit } => Failure::DoubleStartcode {
                bad_bit: (bad_bit.0 as nat, bad_bit.1 as nat),
            },
            SpecError::BadInstruction { bad_bit, instruction } => Failure::BadInstruction {
                bad_bit: (bad_bit.0 as nat, bad_bit.1 as nat),
                instruction: instruction@,
            },
            SpecError::NotGitRepo(s) => Failure::NotGitRepo(s@),
        }
    }
}

impl Failure {
    /// The one-line description of the failure.
    pub open spec fn message(self) -> Seq<char> {
        match self {
            Failure::SpecAlreadyExists(p) => "A specification already exist at `"@ + p + "`"@,
            Failure::BadPath(p) => "Invalid directory `"@ + p + "`"@,
            Failure::CantParseFile(p) => "Error parsing file `"@ + p + "`"@,
            Failure::MissingStartcode { .. } => "Error parsing file"@,
            Failure::MissingEndcode { .. } => "Error parsing file"@,
            Failure::DoubleStartcode { .. } => "Error parsing file"@,
            Failure::BadInstruction { .. } => "Error parsing file"@,
            Failure::NotGitRepo(s) =>
                "This is not a git repository, you can't use `@/` in the path of section "@ + s,
        }
    }

    /// The advice that goes with the failure, where there is any.
    pub open spec fn help(self) -> Option<Seq<char>> {
        match self {
            Failure::SpecAlreadyExists(_) => Some(
                "the path you passed already has a specification"@,
            ),
            Failure::BadPath(_) => Some("the path you passed is invalid"@),
            Failure::CantParseFile(_) => Some(
                "cargo-specification can only parse files that have an extension"@,
            ),
            Failure::MissingStartcode { .. } => Some(
                "missing a startcode instruction before the endcode"@,
            ),
            Failure::MissingEndcode { .. } => Some("missing endcode instruction"@),
            Failure::DoubleStartcode { .. } => Some("we are already in a startcode instruction"@),
            Failure::BadInstruction { .. } => Some("unrecognized instruction"@),
            Failure::NotGitRepo(_) => None,
        }
    }

    /// The text that marks the span in the source, for the failures that
    /// have a span.
    pub open spec fn label(self) -> Option<Seq<char>> {
        match self {
            Failure::MissingStartcode { .. } => Some("This bit here"@),
            Failure::MissingEndcode { .. } => Some(
                "this startcode instruction is not terminated"@,
            ),
            Failure::DoubleStartcode { .. } => Some("this startcode instruction is invalid"@),
            Failure::BadInstruction { .. } => Some("try spec:startcode or spec:endcode instead"@),
            _ => None,
        }
    }

    /// The span in the source, for the failures that have one.
    pub open spec fn span(self) -> Option<(nat, nat)> {
        match self {
            Failure::MissingStartcode { bad_bit } => Some(bad_bit),
            Failure::MissingEndcode { bad_bit } => Some(bad_bit),
            Failure::DoubleStartcode { bad_bit } => Some(bad_bit),
            Failure::BadInstruction { bad_bit, .. } => Some(bad_bit),
            _ => None,
        }
    }

    /// What is to be said beside the message: for an unknown instruction,
    /// the instruction as it was given.
    pub open spec fn detail(self) -> Option<Seq<char>> {
        match self {
            Failure::BadInstruction { instruction, .. } => Some(
                "the instruction you gave: "@ + instruction,
            ),
            _ => None,
        }
    }
}

/// `before`, then `middle`, then `after`.
fn framed(before: &str, middle: &str, after: &str) -> (r: String)
    ensures
        r@ == before@ + middle@ + after@,
{
    let mut r = String::from_str(before);
    r.append(middle);
    r.append(after);
    r
}

impl SpecError {
    /// The one-line description of the failure.
    pub fn message(&self) -> (r: String)
        ensures
            r@ == self@.message(),
    {
        match self {
            SpecError::SpecAlreadyExists(p) => framed(
                "A specification already exist at `",
                p.as_str(),
                "`",
            ),
            SpecError::BadPath(p) => framed("Invalid directory `", p.as_str(), "`"),
            SpecError::CantParseFile(p) => framed("Error parsing file `", p.as_str(), "`"),
            SpecError::NotGitRepo(s) => {
                let mut r = String::from_str(
                    "This is not a git repository, you can't use `@/` in the path of section ",
                );
                r.append(s.as_str());
                r
            },
            _ => String::from_str("Error parsing file"),
        }
    }

    /// The advice that goes with the failure, where there is any.
    pub fn help(&self) -> (r: Option<String>)
        ensures
            r is Some == self@.help() is Some,
            r matches Some(h) ==> Some(h@) == self@.help(),
    {
        match self {
            SpecError::SpecAlreadyExists(_) => Some(
                String::from_str("the path you passed already has a specification"),
            ),
            SpecError::BadPath(_) => Some(String::from_str("the path you passed is invalid")),
            SpecError::CantParseFile(_) => Some(
                String::from_str("cargo-specification can only parse files that have an extension"),
            ),
            SpecError::MissingStartcode { .. } => Some(
                String::from_str("missing a startcode instruction before the endcode"),
            ),
            SpecError::MissingEndcode { .. } => Some(
                String::from_str("missing endcode instruction"),
            ),
            SpecError::DoubleStartcode { .. } => Some(
                String::from_str("we are already in a startcode instruction"),
            ),
            SpecError::BadInstruction { .. } => Some(String::from_str("unrecognized instruction")),
            SpecError::NotGitRepo(_) => None,
        }
    }

    /// The text that marks the span in the source, for the failures that
    /// have a span.
    pub fn label(&self) -> (r: Option<String>)
        ensures
            r is Some == self@.label() is Some,
            r matches Some(l) ==> Some(l@) == self@.label(),
    {
        match self {
            SpecError::MissingStartcode { .. } => Some(String::from_str("This bit here")),
            SpecError::MissingEndcode { .. } => Some(
                String::from_str("this startcode instruction is not terminated"),
            ),
            SpecError::DoubleStartcode { .. } => Some(
                String::from_str("this startcode instruction is invalid"),
            ),
            SpecError::BadInstruction { .. } => Some(
                String::from_str("try spec:startcode or spec:endcode instead"),
            ),
            _ => None,
        }
    }

    /// The span in the source, for the failures that have one: the byte
    /// offset at which it starts, and its length in bytes.
    pub fn span(&self) -> (r: Option<(usize, usize)>)
        ensures
            r is Some == self@.span() is Some,
            r matches Some(s) ==> self@.span() == Some((s.0 as nat, s.1 as nat)),
    {
        match self {
            SpecError::MissingStartcode { bad_bit } => Some(*bad_bit),
            SpecError::MissingEndcode { bad_bit } => Some(*bad_bit),
            SpecError::DoubleStartcode { bad_bit } => Some(*bad_bit),
            SpecError::BadInstruction { bad_bit, .. } => Some(*bad_bit),
            _ => None,
        }
    }

    /// What is to be said beside the message: for an unknown instruction,
    /// the instruction as it was given.
    pub fn detail(&self) -> (r: Option<String>)
        ensures
            r is Some == self@.detail() is Some,
            r matches Some(d) ==> Some(d@) == self@.detail(),
    {
        match self {
            SpecError::BadInstruction { instruction, .. } => {
                let mut r = String::from_str("the instruction you gave: ");
                r.append(instruction.as_str());
                Some(r)
            },
            _ => None,
        }
    }
}

/// A failure as it is shown to the author of a source: what went wrong,
/// what to do about it, and the place in the source, marked and labelled.
#[derive(Debug, PartialEq, Eq)]
pub struct Diagnostic {
    /// The one-line description of the failure.
    pub message: String,
    /// The advice that goes with it.
    pub help: Option<String>,
    /// What is to be said beside the message.
    pub detail: Option<String>,
    /// The name of the file that the failure is about.
    pub file_name: String,
    /// The content of that file.
    pub source: String,
    /// The text that marks the span.
    pub label: Option<String>,
    /// The span within the content: byte offset and length in bytes.
    pub span: Option<(usize, usize)>,
}

/// The mathematical value of a [`Diagnostic`].
pub struct Shown {
    pub message: Seq<char>,
    pub help: Option<Seq<char>>,
    pub detail: Option<Seq<char>>,
    pub file_name: Seq<char>,
    pub source: Seq<char>,
    pub label: Option<Seq<char>>,
    pub span: Option<(nat, nat)>,
}

impl View for Diagnostic {
    type V = Shown;

    open spec fn view(&self) -> Shown {
        Shown {
            message: self.message@,
            help: text_of(self.help),
            detail: text_of(self.detail),
            file_name: self.file_name@,
            source: self.source@,
            label: text_of(self.label),
            span: match self.span {
                Some(s) => Some((s.0 as nat, s.1 as nat)),
                None => None,
            },
        }
    }
}

impl Failure {
    /// The failure as it is shown for the file of the given name and
    /// content.
    pub open spec fn shown(self, file_name: Seq<char>, source: Seq<char>) -> Shown {
        Shown {
            message: self.message(),
            help: self.help(),
            detail: self.detail(),
            file_name,
            source,
            label: self.label(),
            span: self.span(),
        }
    }
}

impl SpecError {
    /// The failure as it is shown for the file of the given name and
    /// content: its texts, and its span over the content.
    pub fn report(&self, file_name: &str, source: &str) -> (d: Diagnostic)
        ensures
            d@ == self@.shown(file_name@, source@),
    {
        Diagnostic {
            message: self.message(),
            help: self.help(),
            detail: self.detail(),
            file_name: String::from_str(file_name),
            source: String::from_str(source),
            label: self.label(),
            span: self.span(),
        }
    }
}

} // verus!
