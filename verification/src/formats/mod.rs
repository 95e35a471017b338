//! The formats in which a specification is written out.

pub mod respec;
