//! Rendering of Kroki diagrams embedded in markdown text.
//!
//! The crate scans a markdown document for three diagram-embedding syntaxes
//! (a `<kroki>` tag, a `kroki-<type>` fenced code block, and a
//! `kroki-<type>:<path>` image link), extracts each diagram's source and its
//! exact byte range, prepares one render request per occurrence, and splices
//! rendered output back into the document without corrupting any other byte.
//! The document is modelled as a byte sequence throughout.

pub mod errors;
pub mod events;
pub mod hosts;
pub mod lit;
pub mod occurrence;
pub mod renderer;
pub mod request;
pub mod respond;
pub mod resolver;
pub mod scan;
pub mod splice;
pub mod tag;
pub mod text;

use vstd::prelude::*;

verus! {

} // verus!
