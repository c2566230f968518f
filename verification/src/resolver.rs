//! The resolver capability.
//!
//! A caller-supplied resolver turns an external reference (a path, with an
//! optional root discriminator) into diagram source text. The renderer
//! holds exactly one of three variants: no resolver, a path-only resolver,
//! or a path-and-root resolver. The root discriminator's meaning is owned
//! entirely by the resolver; the scanner passes it through uninterpreted
//! and propagates whatever error the resolver returns.

use vstd::prelude::*;

use crate::errors::RenderError;
use crate::occurrence::{GOcc, GSource, Occurrence, SourceRef, occs_view};
use crate::request::{RenderRequest, reqs_view};
use crate::text;

verus! {

/// A caller-supplied external-reference resolver. Implementations live
/// outside this crate; nothing is assumed of what they return.
pub trait ResolveFn {
    /// Turn a path (and optional root discriminator) into diagram source
    /// text, or an error message.
    fn resolve(&self, path: &Vec<u8>, root: Option<&Vec<u8>>) -> Result<Vec<u8>, Vec<u8>>;
}

/// The resolver of a renderer without external references: every call
/// fails.
pub struct NoResolver;

impl ResolveFn for NoResolver {
    fn resolve(&self, path: &Vec<u8>, root: Option<&Vec<u8>>) -> Result<Vec<u8>, Vec<u8>> {
        Err(Vec::new())
    }
}

/// The three resolver configurations of a renderer.
pub enum PathResolver<R> {
    /// No resolver: any external reference fails.
    Unconfigured,
    /// A resolver taking a path only: a reference that carries a root
    /// discriminator fails.
    PathOnly(R),
    /// A resolver taking a path and an optional root discriminator.
    PathAndRoot(R),
}

/// Whether an occurrence's source is inline.
pub open spec fn is_inline(o: GOcc) -> bool {
    o.source is Inline
}

/// Whether an occurrence carries an external reference with a root
/// discriminator.
pub open spec fn has_rooted_ref(o: GOcc) -> bool {
    match o.source {
        GSource::External { path, root } => root is Some,
        GSource::Inline(_) => false,
    }
}

/// Turn the occurrence list into the render request list, resolving
/// external references through the configured resolver, in occurrence
/// order. The first failure aborts: a reference without a resolver, a
/// rooted reference against a path-only resolver, or a resolver error.
///
/// Every request keeps its occurrence's type and range; an inline source
/// is passed through byte for byte; what a resolver returned is taken as
/// the source of its occurrence, whatever it is.
pub fn resolve_occurrences<R: ResolveFn>(resolver: &PathResolver<R>, occs: Vec<Occurrence>) -> (r:
    Result<Vec<RenderRequest>, RenderError>)
    ensures
        match r {
            Ok(reqs) => {
                &&& reqs@.len() == occs@.len()
                &&& forall|i: int|
                    0 <= i < occs@.len() ==> {
                        let o = #[trigger] occs_view(occs@)[i];
                        let q = reqs_view(reqs@)[i];
                        q.diagram_type == o.diagram_type && q.start == o.start && q.end == o.end
                            && (o.source matches GSource::Inline(s) ==> q.diagram_source == s)
                    }
                &&& (resolver is Unconfigured ==> forall|i: int|
                    0 <= i < occs@.len() ==> is_inline(#[trigger] occs_view(occs@)[i]))
                &&& (resolver is PathOnly ==> forall|i: int|
                    0 <= i < occs@.len() ==> !has_rooted_ref(#[trigger] occs_view(occs@)[i]))
            },
            Err(e) => {
                &&& (e is ResolverNotConfigured || e is ResolverRootMismatch
                    || e is ResolverFailure)
                &&& exists|i: int|
                    0 <= i < occs@.len() && !is_inline(#[trigger] occs_view(occs@)[i])
            },
        },
        (forall|i: int| 0 <= i < occs@.len() ==> is_inline(#[trigger] occs_view(occs@)[i]))
            ==> r is Ok,
        (resolver is Unconfigured && exists|i: int|
            0 <= i < occs@.len() && !is_inline(#[trigger] occs_view(occs@)[i])) ==> r
            == Err::<Vec<RenderRequest>, RenderError>(RenderError::ResolverNotConfigured),
{
    let mut reqs: Vec<RenderRequest> = Vec::new();
    let mut i: usize = 0;
    while i < occs.len()
        invariant
            0 <= i <= occs@.len(),
            reqs@.len() == i,
            forall|j: int|
                0 <= j < i ==> {
                    let o = #[trigger] occs_view(occs@)[j];
                    let q = reqs_view(reqs@)[j];
                    q.diagram_type == o.diagram_type && q.start == o.start && q.end == o.end && (
                    o.source matches GSource::Inline(s) ==> q.diagram_source == s)
                },
            resolver is Unconfigured ==> forall|j: int|
                0 <= j < i ==> is_inline(#[trigger] occs_view(occs@)[j]),
            resolver is PathOnly ==> forall|j: int|
                0 <= j < i ==> !has_rooted_ref(#[trigger] occs_view(occs@)[j]),
        decreases occs@.len() - i,
    {
        let o = &occs[i];
        proof {
            assert(occs_view(occs@)[i as int] == occs@[i as int]@);
        }
        let source: Vec<u8> = match &o.source {
            SourceRef::Inline(s) => text::copy_bytes(s.as_slice()),
            SourceRef::External { path, root } => {
                match resolver {
                    PathResolver::Unconfigured => {
                        return Err(RenderError::ResolverNotConfigured);
                    },
                    PathResolver::PathOnly(f) => {
                        if root.is_some() {
                            return Err(RenderError::ResolverRootMismatch);
                        }
                        match f.resolve(path, None) {
                            Ok(s) => s,
                            Err(m) => {
                                return Err(RenderError::ResolverFailure(m));
                            },
                        }
                    },
                    PathResolver::PathAndRoot(f) => {
                        let root_ref: Option<&Vec<u8>> = match root {
                            Some(rv) => Some(rv),
                            None => None,
                        };
                        match f.resolve(path, root_ref) {
                            Ok(s) => s,
                            Err(m) => {
                                return Err(RenderError::ResolverFailure(m));
                            },
                        }
                    },
                }
            },
        };
        let req = RenderRequest {
            diagram_source: source,
            diagram_type: text::copy_bytes(o.diagram_type.as_slice()),
            start: o.start,
            end: o.end,
        };
        let ghost old_reqs = reqs@;
        reqs.push(req);
        proof {
            assert(reqs_view(reqs@) =~= reqs_view(old_reqs).push(reqs@[reqs@.len() - 1]@));
        }
        i += 1;
    }
    Ok(reqs)
}

} // verus!
