//! The renderer and its builder.
//!
//! A renderer holds the render endpoint and the resolver capability,
//! both immutable for its lifetime. Its scanning half is here:
//! [`MdKroki::get_render_requests`] turns a document into the ordered
//! render request list, or the first error. Sending the requests is the
//! caller's part; the splicer takes the completed results back.

use vstd::prelude::*;

use crate::errors::RenderError;
use crate::events::{md_events_of, tokenize};
use crate::lit;
use crate::occurrence::GSource;
use crate::request::{RenderRequest, reqs_view, reqs_wf};
use crate::resolver::{NoResolver, PathResolver, ResolveFn, is_inline, resolve_occurrences};
use crate::scan::{scan_events, scan_spec};
use crate::text;

verus! {

/// A Kroki diagram renderer: the endpoint url and the resolver
/// capability.
pub struct MdKroki<R> {
    pub endpoint: Vec<u8>,
    pub resolver: PathResolver<R>,
}

/// Builder for configuring a renderer.
pub struct MdKrokiBuilder<R> {
    pub endpoint: Vec<u8>,
    pub resolver: PathResolver<R>,
}

impl MdKroki<NoResolver> {
    /// A default renderer: the public endpoint, no resolver.
    pub fn new() -> (r: Self)
        ensures
            r.endpoint@ == lit::default_endpoint(),
            r.resolver is Unconfigured,
    {
        MdKroki {
            endpoint: text::copy_bytes(lit::default_endpoint_lit()),
            resolver: PathResolver::Unconfigured,
        }
    }

    /// A builder with the default endpoint and no resolver.
    pub fn builder() -> (r: MdKrokiBuilder<NoResolver>)
        ensures
            r.endpoint@ == lit::default_endpoint(),
            r.resolver is Unconfigured,
    {
        MdKrokiBuilder::new()
    }
}

impl Default for MdKroki<NoResolver> {
    fn default() -> (r: Self)
        ensures
            r.endpoint@ == lit::default_endpoint(),
            r.resolver is Unconfigured,
    {
        MdKroki::new()
    }
}

impl MdKrokiBuilder<NoResolver> {
    /// A builder with the default endpoint and no resolver.
    pub fn new() -> (r: Self)
        ensures
            r.endpoint@ == lit::default_endpoint(),
            r.resolver is Unconfigured,
    {
        MdKrokiBuilder {
            endpoint: text::copy_bytes(lit::default_endpoint_lit()),
            resolver: PathResolver::Unconfigured,
        }
    }
}

impl Default for MdKrokiBuilder<NoResolver> {
    fn default() -> (r: Self)
        ensures
            r.endpoint@ == lit::default_endpoint(),
            r.resolver is Unconfigured,
    {
        MdKrokiBuilder::new()
    }
}

impl<R: ResolveFn> MdKrokiBuilder<R> {
    /// Set the endpoint url, for a private deployment of the render
    /// service.
    pub fn endpoint(self, endpoint: Vec<u8>) -> (r: Self)
        ensures
            r.endpoint == endpoint,
            r.resolver == self.resolver,
    {
        MdKrokiBuilder { endpoint, resolver: self.resolver }
    }

    /// Set a path-only resolver: external references may then carry a
    /// path, but no root discriminator.
    pub fn path_resolver<R2: ResolveFn>(self, resolver: R2) -> (r: MdKrokiBuilder<R2>)
        ensures
            r.endpoint == self.endpoint,
            r.resolver == PathResolver::<R2>::PathOnly(resolver),
    {
        MdKrokiBuilder { endpoint: self.endpoint, resolver: PathResolver::PathOnly(resolver) }
    }

    /// Set a path-and-root resolver: external references may carry a
    /// path and an optional root discriminator, whose meaning the
    /// resolver owns.
    pub fn path_and_root_resolver<R2: ResolveFn>(self, resolver: R2) -> (r: MdKrokiBuilder<R2>)
        ensures
            r.endpoint == self.endpoint,
            r.resolver == PathResolver::<R2>::PathAndRoot(resolver),
    {
        MdKrokiBuilder { endpoint: self.endpoint, resolver: PathResolver::PathAndRoot(resolver) }
    }

    /// Consume the builder and build a renderer.
    pub fn build(self) -> (r: MdKroki<R>)
        ensures
            r.endpoint == self.endpoint,
            r.resolver == self.resolver,
    {
        MdKroki { endpoint: self.endpoint, resolver: self.resolver }
    }
}

impl<R: ResolveFn> MdKroki<R> {
    /// Scan a document and prepare one render request per diagram
    /// occurrence, in document order, resolving external references
    /// through the configured resolver. All-or-nothing: the first error
    /// aborts, and the document is never touched.
    ///
    /// On success the requests carry non-empty, pairwise disjoint
    /// document ranges in strictly increasing order; each keeps its
    /// occurrence's diagram type and range, and an inline occurrence's
    /// source byte for byte. A document whose bytes are not valid UTF-8
    /// is unparsable.
    pub fn get_render_requests(&self, content: &Vec<u8>) -> (r: Result<
        Vec<RenderRequest>,
        RenderError,
    >)
        ensures
            match md_events_of(content@) {
                None => r == Err::<Vec<RenderRequest>, RenderError>(RenderError::ParseError),
                Some(evs) => match scan_spec(content@, evs) {
                    Err(e) => r == Err::<Vec<RenderRequest>, RenderError>(e),
                    Ok(occs) => match r {
                        Ok(reqs) => {
                            &&& reqs@.len() == occs.len()
                            &&& reqs_wf(reqs_view(reqs@), content@.len() as int)
                            &&& forall|i: int|
                                0 <= i < occs.len() ==> {
                                    let o = #[trigger] occs[i];
                                    let q = reqs_view(reqs@)[i];
                                    q.diagram_type == o.diagram_type && q.start == o.start
                                        && q.end == o.end && (o.source matches GSource::Inline(s)
                                        ==> q.diagram_source == s)
                                }
                            &&& (self.resolver is Unconfigured ==> forall|i: int|
                                0 <= i < occs.len() ==> is_inline(#[trigger] occs[i]))
                        },
                        Err(e) => {
                            &&& (e is ResolverNotConfigured || e is ResolverRootMismatch
                                || e is ResolverFailure)
                            &&& exists|i: int|
                                0 <= i < occs.len() && !is_inline(#[trigger] occs[i])
                            &&& (self.resolver is Unconfigured ==> e is ResolverNotConfigured)
                        },
                    },
                },
            },
    {
        let events = match tokenize(content) {
            None => {
                return Err(RenderError::ParseError);
            },
            Some(e) => e,
        };
        let occs = match scan_events(content, &events) {
            Err(e) => {
                return Err(e);
            },
            Ok(o) => o,
        };
        let ghost ov = crate::occurrence::occs_view(occs@);
        let res = resolve_occurrences(&self.resolver, occs);
        proof {
            match &res {
                Ok(reqs) => {
                    assert forall|i: int|
                        0 <= i < reqs_view(reqs@).len() implies 0 <= (#[trigger] reqs_view(
                        reqs@,
                    )[i]).start < reqs_view(reqs@)[i].end <= content@.len() by {
                        assert(0 <= ov[i].start < ov[i].end <= content@.len());
                    }
                    assert forall|i: int, j: int|
                        0 <= i < j < reqs_view(reqs@).len() implies (#[trigger] reqs_view(
                        reqs@,
                    )[i]).end <= (#[trigger] reqs_view(reqs@)[j]).start by {
                        assert(ov[i].end <= ov[j].start);
                    }
                },
                Err(_) => {},
            }
        }
        res
    }
}

} // verus!
