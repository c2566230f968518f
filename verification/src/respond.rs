//! Post-processing of a render response body.
//!
//! A successful response holds an svg payload. Everything before the
//! first opening svg marker and after the last closing svg marker is
//! discarded, and the payload is wrapped in a raw-markup container so
//! that surrounding markdown does not reinterpret its contents. A body
//! without both markers in order is a malformed response.

use vstd::prelude::*;

use crate::errors::RenderError;
use crate::lit;
use crate::text;

verus! {

/// The processed form of a response body: `<pre>`, then the bytes from
/// the first `<svg` through the last `</svg>`, then `</pre>`; an error
/// when either marker is missing or they stand in the wrong order.
pub open spec fn process_xml_spec(xml: Seq<u8>) -> Result<Seq<u8>, RenderError> {
    match text::first_match_from(xml, lit::svg_open(), 0) {
        None => Err(RenderError::MalformedRenderResponse),
        Some(i) => match text::last_match(xml, lit::svg_close()) {
            None => Err(RenderError::MalformedRenderResponse),
            Some(j) => {
                if j < i {
                    Err(RenderError::MalformedRenderResponse)
                } else {
                    Ok(lit::pre_open() + xml.subrange(i, j + 6) + lit::pre_close())
                }
            },
        },
    }
}

/// Extract the svg payload of a response body and wrap it in a
/// raw-markup container.
pub fn process_xml(xml: Vec<u8>) -> (r: Result<Vec<u8>, RenderError>)
    ensures
        match r {
            Ok(v) => process_xml_spec(xml@) == Ok::<Seq<u8>, RenderError>(v@),
            Err(e) => process_xml_spec(xml@) == Err::<Seq<u8>, RenderError>(e),
        },
{
    let i = match text::find_from(xml.as_slice(), lit::svg_open_lit(), 0) {
        None => {
            return Err(RenderError::MalformedRenderResponse);
        },
        Some(i) => i,
    };
    let j = match text::rfind(xml.as_slice(), lit::svg_close_lit()) {
        None => {
            return Err(RenderError::MalformedRenderResponse);
        },
        Some(j) => j,
    };
    if j < i {
        return Err(RenderError::MalformedRenderResponse);
    }
    proof {
        text::lemma_last_match_props(xml@, lit::svg_close(), xml@.len() + 1int);
    }
    let xl = xml.len();
    assert(j + 6 <= xl);
    let mut out: Vec<u8> = Vec::new();
    text::append_bytes(&mut out, lit::pre_open_lit());
    let payload = text::subvec(xml.as_slice(), i, j + 6);
    text::append_bytes(&mut out, payload.as_slice());
    text::append_bytes(&mut out, lit::pre_close_lit());
    assert(out@ =~= lit::pre_open() + xml@.subrange(i as int, j + 6) + lit::pre_close());
    Ok(out)
}

/// Success is any status in the 2xx range.
pub open spec fn is_success_status(status: u16) -> bool {
    200 <= status < 300
}

/// Decide the outcome of one render call: a non-success status is fatal
/// with that status; a success body must hold the svg payload, which
/// comes back wrapped.
pub fn handle_response(status: u16, body: Vec<u8>) -> (r: Result<Vec<u8>, RenderError>)
    ensures
        !is_success_status(status) ==> r == Err::<Vec<u8>, RenderError>(
            RenderError::HttpStatusError(status),
        ),
        is_success_status(status) ==> match r {
            Ok(v) => process_xml_spec(body@) == Ok::<Seq<u8>, RenderError>(v@),
            Err(e) => process_xml_spec(body@) == Err::<Seq<u8>, RenderError>(e),
        },
{
    if !(200 <= status && status < 300) {
        return Err(RenderError::HttpStatusError(status));
    }
    process_xml(body)
}

} // verus!
