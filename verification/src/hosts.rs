//! The preprocessor host types and their small pieces of configuration
//! logic. The host build system's plugin protocol itself — reading and
//! writing a document tree over a process boundary — is an external
//! collaborator and stays outside the library.

use vstd::prelude::*;

use crate::lit;
use crate::text;

verus! {

/// The diagram-rendering preprocessor host.
pub struct KrokiPreprocessor;

impl KrokiPreprocessor {
    /// The preprocessor's registered name.
    pub fn name(&self) -> (r: &'static str)
        ensures
            r@ == "kroki-preprocessor"@,
    {
        "kroki-preprocessor"
    }

    /// The preprocessor supports the html renderer alone.
    pub fn supports_renderer(&self, renderer: &[u8]) -> (r: bool)
        ensures
            r == (renderer@ == lit::html_renderer()),
    {
        text::bytes_eq(renderer, lit::html_renderer_lit())
    }
}

/// The chart preprocessor host.
pub struct ECharts;

impl ECharts {
    /// A chart preprocessor.
    pub fn new() -> (r: ECharts)
        ensures
            true,
    {
        ECharts
    }

    /// The preprocessor's registered name.
    pub fn name(&self) -> (r: &'static str)
        ensures
            r@ == "echarts"@,
    {
        "echarts"
    }

    /// The chart preprocessor supports every renderer but the marker
    /// value that switches it off.
    pub fn supports_renderer(&self, renderer: &[u8]) -> (r: bool)
        ensures
            r == (renderer@ != lit::not_supported()),
    {
        !text::bytes_eq(renderer, lit::not_supported_lit())
    }
}

/// Normalize a configured endpoint url: append the trailing slash when it
/// is missing, leave the url unchanged when it is already there.
pub fn normalize_endpoint(url: Vec<u8>) -> (r: Vec<u8>)
    ensures
        url@.len() > 0 && url@.last() == 47 ==> r@ == url@,
        !(url@.len() > 0 && url@.last() == 47) ==> r@ == url@.push(47u8),
{
    let mut u = url;
    if u.len() == 0 || u[u.len() - 1] != 47 {
        u.push(47);
    }
    u
}

} // verus!
