//! The error kinds of a render pass. Every error is terminal for the whole
//! pass: the caller receives either a fully substituted document or one of
//! these values, never a partially substituted document.

use vstd::prelude::*;

verus! {

/// Why a render pass failed.
#[derive(Debug)]
pub enum RenderError {
    /// The markup of a diagram tag could not be parsed.
    ParseError,
    /// A diagram tag has no `type` attribute.
    MissingAttribute,
    /// A self-closed diagram tag has neither an inline body nor a `path`
    /// attribute.
    MissingSourceOrPath,
    /// An external reference was found but no resolver is configured.
    ResolverNotConfigured,
    /// A `root` discriminator was supplied but the configured resolver does
    /// not accept one.
    ResolverRootMismatch,
    /// The resolver itself failed; the payload is its message, verbatim.
    ResolverFailure(Vec<u8>),
    /// A render request could not be sent or answered.
    NetworkError(Vec<u8>),
    /// The render service answered with a non-success status.
    HttpStatusError(u16),
    /// A response body holds no well-formed svg payload.
    MalformedRenderResponse,
}

impl RenderError {
    /// A short, fixed description of the error kind.
    pub fn describe(&self) -> (r: &'static str)
        ensures
            r@.len() > 0,
    {
        proof {
            reveal_strlit("unparsable diagram tag markup");
            reveal_strlit("diagram tag is missing the `type` attribute");
            reveal_strlit("diagram tag has neither an inline body nor a `path` attribute");
            reveal_strlit("path resolver required for content with file references");
            reveal_strlit("path resolver must accept a root argument for content that uses it");
            reveal_strlit("path resolver failed");
            reveal_strlit("could not reach the render endpoint");
            reveal_strlit("render endpoint answered with an error status");
            reveal_strlit("render response holds no svg payload");
        }
        match self {
            RenderError::ParseError => "unparsable diagram tag markup",
            RenderError::MissingAttribute => "diagram tag is missing the `type` attribute",
            RenderError::MissingSourceOrPath => "diagram tag has neither an inline body nor a `path` attribute",
            RenderError::ResolverNotConfigured => "path resolver required for content with file references",
            RenderError::ResolverRootMismatch => "path resolver must accept a root argument for content that uses it",
            RenderError::ResolverFailure(_) => "path resolver failed",
            RenderError::NetworkError(_) => "could not reach the render endpoint",
            RenderError::HttpStatusError(_) => "render endpoint answered with an error status",
            RenderError::MalformedRenderResponse => "render response holds no svg payload",
        }
    }
}

} // verus!
