//! The fixed byte strings of the diagram syntaxes: sentinels, attribute
//! names, and markers. Each constant exists twice: a spec-level byte
//! sequence, and an executable slice proved to hold exactly those bytes.

use vstd::prelude::*;
use vstd::string::StringSliceAdditionalSpecFns;

verus! {

/// The bytes of the tag sentinel `<kroki`.
pub open spec fn kroki_open() -> Seq<u8> {
    seq![60u8, 107u8, 114u8, 111u8, 107u8, 105u8]
}

/// The executable tag sentinel `<kroki`.
pub fn kroki_open_lit() -> (r: &'static [u8])
    ensures
        r@ == kroki_open(),
{
    proof {
        reveal_strlit("<kroki");
        assert(vstd::string::is_ascii("<kroki"));
        vstd::string::is_ascii_spec_bytes("<kroki");
        assert("<kroki".spec_bytes() =~= kroki_open());
    }
    "<kroki".as_bytes()
}

/// The bytes of the closing sentinel `</kroki>`.
pub open spec fn kroki_close() -> Seq<u8> {
    seq![60u8, 47u8, 107u8, 114u8, 111u8, 107u8, 105u8, 62u8]
}

/// The executable closing sentinel `</kroki>`.
pub fn kroki_close_lit() -> (r: &'static [u8])
    ensures
        r@ == kroki_close(),
{
    proof {
        reveal_strlit("</kroki>");
        assert(vstd::string::is_ascii("</kroki>"));
        vstd::string::is_ascii_spec_bytes("</kroki>");
        assert("</kroki>".spec_bytes() =~= kroki_close());
    }
    "</kroki>".as_bytes()
}

/// The bytes of the raw-region opening marker `<pre>`.
pub open spec fn pre_open() -> Seq<u8> {
    seq![60u8, 112u8, 114u8, 101u8, 62u8]
}

/// The executable raw-region opening marker `<pre>`.
pub fn pre_open_lit() -> (r: &'static [u8])
    ensures
        r@ == pre_open(),
{
    proof {
        reveal_strlit("<pre>");
        assert(vstd::string::is_ascii("<pre>"));
        vstd::string::is_ascii_spec_bytes("<pre>");
        assert("<pre>".spec_bytes() =~= pre_open());
    }
    "<pre>".as_bytes()
}

/// The bytes of the raw-region closing marker `</pre>`.
pub open spec fn pre_close() -> Seq<u8> {
    seq![60u8, 47u8, 112u8, 114u8, 101u8, 62u8]
}

/// The executable raw-region closing marker `</pre>`.
pub fn pre_close_lit() -> (r: &'static [u8])
    ensures
        r@ == pre_close(),
{
    proof {
        reveal_strlit("</pre>");
        assert(vstd::string::is_ascii("</pre>"));
        vstd::string::is_ascii_spec_bytes("</pre>");
        assert("</pre>".spec_bytes() =~= pre_close());
    }
    "</pre>".as_bytes()
}

/// The bytes of the fence/link prefix `kroki-`.
pub open spec fn kroki_dash() -> Seq<u8> {
    seq![107u8, 114u8, 111u8, 107u8, 105u8, 45u8]
}

/// The executable form of [`kroki_dash`].
pub fn kroki_dash_lit() -> (r: &'static [u8])
    ensures
        r@ == kroki_dash(),
{
    proof {
        reveal_strlit("kroki-");
        assert(vstd::string::is_ascii("kroki-"));
        vstd::string::is_ascii_spec_bytes("kroki-");
        assert("kroki-".spec_bytes() =~= kroki_dash());
    }
    "kroki-".as_bytes()
}

/// The bytes of the svg opening marker `<svg`.
pub open spec fn svg_open() -> Seq<u8> {
    seq![60u8, 115u8, 118u8, 103u8]
}

/// The executable form of [`svg_open`].
pub fn svg_open_lit() -> (r: &'static [u8])
    ensures
        r@ == svg_open(),
{
    proof {
        reveal_strlit("<svg");
        assert(vstd::string::is_ascii("<svg"));
        vstd::string::is_ascii_spec_bytes("<svg");
        assert("<svg".spec_bytes() =~= svg_open());
    }
    "<svg".as_bytes()
}

/// The bytes of the svg closing marker `</svg>`.
pub open spec fn svg_close() -> Seq<u8> {
    seq![60u8, 47u8, 115u8, 118u8, 103u8, 62u8]
}

/// The executable form of [`svg_close`].
pub fn svg_close_lit() -> (r: &'static [u8])
    ensures
        r@ == svg_close(),
{
    proof {
        reveal_strlit("</svg>");
        assert(vstd::string::is_ascii("</svg>"));
        vstd::string::is_ascii_spec_bytes("</svg>");
        assert("</svg>".spec_bytes() =~= svg_close());
    }
    "</svg>".as_bytes()
}

/// The bytes of the attribute name `type`.
pub open spec fn attr_type() -> Seq<u8> {
    seq![116u8, 121u8, 112u8, 101u8]
}

/// The executable form of [`attr_type`].
pub fn attr_type_lit() -> (r: &'static [u8])
    ensures
        r@ == attr_type(),
{
    proof {
        reveal_strlit("type");
        assert(vstd::string::is_ascii("type"));
        vstd::string::is_ascii_spec_bytes("type");
        assert("type".spec_bytes() =~= attr_type());
    }
    "type".as_bytes()
}

/// The bytes of the attribute name `path`.
pub open spec fn attr_path() -> Seq<u8> {
    seq![112u8, 97u8, 116u8, 104u8]
}

/// The executable form of [`attr_path`].
pub fn attr_path_lit() -> (r: &'static [u8])
    ensures
        r@ == attr_path(),
{
    proof {
        reveal_strlit("path");
        assert(vstd::string::is_ascii("path"));
        vstd::string::is_ascii_spec_bytes("path");
        assert("path".spec_bytes() =~= attr_path());
    }
    "path".as_bytes()
}

/// The bytes of the attribute name `root`.
pub open spec fn attr_root() -> Seq<u8> {
    seq![114u8, 111u8, 111u8, 116u8]
}

/// The executable form of [`attr_root`].
pub fn attr_root_lit() -> (r: &'static [u8])
    ensures
        r@ == attr_root(),
{
    proof {
        reveal_strlit("root");
        assert(vstd::string::is_ascii("root"));
        vstd::string::is_ascii_spec_bytes("root");
        assert("root".spec_bytes() =~= attr_root());
    }
    "root".as_bytes()
}

/// The bytes of the default render endpoint url.
pub open spec fn default_endpoint() -> Seq<u8> {
    seq![104u8, 116u8, 116u8, 112u8, 115u8, 58u8, 47u8, 47u8, 107u8, 114u8, 111u8, 107u8, 105u8, 46u8, 105u8, 111u8]
}

/// The executable form of [`default_endpoint`].
pub fn default_endpoint_lit() -> (r: &'static [u8])
    ensures
        r@ == default_endpoint(),
{
    proof {
        reveal_strlit("https://kroki.io");
        assert(vstd::string::is_ascii("https://kroki.io"));
        vstd::string::is_ascii_spec_bytes("https://kroki.io");
        assert("https://kroki.io".spec_bytes() =~= default_endpoint());
    }
    "https://kroki.io".as_bytes()
}

/// The bytes of the opening of the render request body.
pub open spec fn json_head() -> Seq<u8> {
    seq![123u8, 34u8, 100u8, 105u8, 97u8, 103u8, 114u8, 97u8, 109u8, 95u8, 115u8, 111u8, 117u8, 114u8, 99u8, 101u8, 34u8, 58u8, 34u8]
}

/// The executable form of [`json_head`].
pub fn json_head_lit() -> (r: &'static [u8])
    ensures
        r@ == json_head(),
{
    proof {
        reveal_strlit("{\"diagram_source\":\"");
        assert(vstd::string::is_ascii("{\"diagram_source\":\""));
        vstd::string::is_ascii_spec_bytes("{\"diagram_source\":\"");
        assert("{\"diagram_source\":\"".spec_bytes() =~= json_head());
    }
    "{\"diagram_source\":\"".as_bytes()
}

/// The bytes of the middle of the render request body.
pub open spec fn json_mid() -> Seq<u8> {
    seq![34u8, 44u8, 34u8, 100u8, 105u8, 97u8, 103u8, 114u8, 97u8, 109u8, 95u8, 116u8, 121u8, 112u8, 101u8, 34u8, 58u8, 34u8]
}

/// The executable form of [`json_mid`].
pub fn json_mid_lit() -> (r: &'static [u8])
    ensures
        r@ == json_mid(),
{
    proof {
        reveal_strlit("\",\"diagram_type\":\"");
        assert(vstd::string::is_ascii("\",\"diagram_type\":\""));
        vstd::string::is_ascii_spec_bytes("\",\"diagram_type\":\"");
        assert("\",\"diagram_type\":\"".spec_bytes() =~= json_mid());
    }
    "\",\"diagram_type\":\"".as_bytes()
}

/// The bytes of the closing of the render request body.
pub open spec fn json_tail() -> Seq<u8> {
    seq![34u8, 44u8, 34u8, 111u8, 117u8, 116u8, 112u8, 117u8, 116u8, 95u8, 102u8, 111u8, 114u8, 109u8, 97u8, 116u8, 34u8, 58u8, 34u8, 115u8, 118u8, 103u8, 34u8, 125u8]
}

/// The executable form of [`json_tail`].
pub fn json_tail_lit() -> (r: &'static [u8])
    ensures
        r@ == json_tail(),
{
    proof {
        reveal_strlit("\",\"output_format\":\"svg\"}");
        assert(vstd::string::is_ascii("\",\"output_format\":\"svg\"}"));
        vstd::string::is_ascii_spec_bytes("\",\"output_format\":\"svg\"}");
        assert("\",\"output_format\":\"svg\"}".spec_bytes() =~= json_tail());
    }
    "\",\"output_format\":\"svg\"}".as_bytes()
}

/// The bytes of the renderer name `html`.
pub open spec fn html_renderer() -> Seq<u8> {
    seq![104u8, 116u8, 109u8, 108u8]
}

/// The executable form of [`html_renderer`].
pub fn html_renderer_lit() -> (r: &'static [u8])
    ensures
        r@ == html_renderer(),
{
    proof {
        reveal_strlit("html");
        assert(vstd::string::is_ascii("html"));
        vstd::string::is_ascii_spec_bytes("html");
        assert("html".spec_bytes() =~= html_renderer());
    }
    "html".as_bytes()
}

/// The bytes of the single colon separator `:`.
pub open spec fn colon() -> Seq<u8> {
    seq![58u8]
}

/// The executable form of [`colon`].
pub fn colon_lit() -> (r: &'static [u8])
    ensures
        r@ == colon(),
{
    proof {
        reveal_strlit(":");
        assert(vstd::string::is_ascii(":"));
        vstd::string::is_ascii_spec_bytes(":");
        assert(":".spec_bytes() =~= colon());
    }
    ":".as_bytes()
}

/// The bytes of the renderer marker `not-supported`.
pub open spec fn not_supported() -> Seq<u8> {
    seq![110u8, 111u8, 116u8, 45u8, 115u8, 117u8, 112u8, 112u8, 111u8, 114u8, 116u8, 101u8, 100u8]
}

/// The executable form of [`not_supported`].
pub fn not_supported_lit() -> (r: &'static [u8])
    ensures
        r@ == not_supported(),
{
    proof {
        reveal_strlit("not-supported");
        assert(vstd::string::is_ascii("not-supported"));
        vstd::string::is_ascii_spec_bytes("not-supported");
        assert("not-supported".spec_bytes() =~= not_supported());
    }
    "not-supported".as_bytes()
}

} // verus!
