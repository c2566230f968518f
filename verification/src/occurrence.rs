//! Diagram occurrences: one recognized diagram embedding, with its type,
//! its source (inline text or an external reference), and the exact byte
//! range of the document that its rendering replaces.

use vstd::prelude::*;

verus! {

/// Where the diagram source text comes from.
pub enum SourceRef {
    /// The source is inline in the document.
    Inline(Vec<u8>),
    /// The source must be resolved from an external reference.
    External { path: Vec<u8>, root: Option<Vec<u8>> },
}

/// The mathematical form of [`SourceRef`].
pub enum GSource {
    Inline(Seq<u8>),
    External { path: Seq<u8>, root: Option<Seq<u8>> },
}

impl View for SourceRef {
    type V = GSource;

    open spec fn view(&self) -> GSource {
        match self {
            SourceRef::Inline(s) => GSource::Inline(s@),
            SourceRef::External { path, root } => GSource::External {
                path: path@,
                root: match root {
                    Some(r) => Some(r@),
                    None => None,
                },
            },
        }
    }
}

/// One diagram occurrence: its type, its source, and the half-open byte
/// range `[start, end)` of the document it replaces.
pub struct Occurrence {
    pub diagram_type: Vec<u8>,
    pub source: SourceRef,
    pub start: usize,
    pub end: usize,
}

/// The mathematical form of [`Occurrence`].
pub struct GOcc {
    pub diagram_type: Seq<u8>,
    pub source: GSource,
    pub start: int,
    pub end: int,
}

impl View for Occurrence {
    type V = GOcc;

    open spec fn view(&self) -> GOcc {
        GOcc {
            diagram_type: self.diagram_type@,
            source: self.source@,
            start: self.start as int,
            end: self.end as int,
        }
    }
}

/// The views of a sequence of occurrences.
pub open spec fn occs_view(s: Seq<Occurrence>) -> Seq<GOcc> {
    s.map_values(|o: Occurrence| o@)
}

/// The scanner's output invariant: every range is non-empty and lies within
/// the document, and the ranges are pairwise disjoint in strictly
/// increasing order.
pub open spec fn occs_wf(s: Seq<GOcc>, len: int) -> bool {
    &&& forall|i: int| 0 <= i < s.len() ==> 0 <= (#[trigger] s[i]).start < s[i].end <= len
    &&& forall|i: int, j: int|
        0 <= i < j < s.len() ==> (#[trigger] s[i]).end <= (#[trigger] s[j]).start
}

} // verus!
