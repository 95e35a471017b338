//! Specifications written in the comments of source files.
//!
//! The heart of the crate is [`comment_parser`]: a scan that gathers the text
//! of the specially marked comments of a source, with the code that the
//! comments ask to be shown, and that reports a malformed instruction with
//! its place in the source. [`laws`] states what holds of every such scan.
//! [`text`] holds the operations on text that the scan is made of, and
//! [`errors`] the failures and how they are shown.
//!
//! Around it stand the rules by which a specification is set up
//! ([`init`]), put together ([`builder`]) and written out ([`formats`]),
//! and the data of its manifest ([`toml_parser`]).

pub mod builder;
pub mod comment_parser;
pub mod errors;
pub mod formats;
pub mod git;
pub mod init;
pub mod laws;
pub mod text;
pub mod toml_parser;
