//! The manifest of a specification.

use std::collections::HashMap;
use vstd::prelude::*;

verus! {

/// A specification: what it is, how it is laid out, and the files that its
/// sections are taken from, by section name.
#[derive(Debug)]
pub struct Specification {
    /// information about a specification
    pub metadata: Metadata,
    /// configuration of the specification
    pub config: Config,
    /// files to use for the specification's content
    pub sections: HashMap<String, String>,
}

/// The configuration of a specification.
#[derive(Debug)]
pub struct Config {
    /// main template file
    pub template: String,
}

/// Metadata about a specification
#[derive(Debug)]
pub struct Metadata {
    /// Name of the specification
    pub name: String,
    /// A description
    pub description: Option<String>,
    /// Version of the spec
    pub version: Option<String>,
    /// Authors, if any
    pub authors: Vec<String>,
}

} // verus!
