//! Render requests and their wire framing.
//!
//! One request is prepared per occurrence. Its body is the JSON object
//! `{"diagram_source":...,"diagram_type":...,"output_format":"svg"}` with
//! the two texts escaped byte for byte: quote, backslash and the named
//! control characters by their two-byte escapes, other control bytes as
//! `\u00..`, and everything else verbatim.

use vstd::prelude::*;

use crate::lit;
use crate::text;

verus! {

/// One render request: the diagram source and type to send, and the byte
/// range `[start, end)` of the document that the rendered output replaces.
pub struct RenderRequest {
    pub diagram_source: Vec<u8>,
    pub diagram_type: Vec<u8>,
    pub start: usize,
    pub end: usize,
}

/// The mathematical form of [`RenderRequest`].
pub struct GReq {
    pub diagram_source: Seq<u8>,
    pub diagram_type: Seq<u8>,
    pub start: int,
    pub end: int,
}

impl View for RenderRequest {
    type V = GReq;

    open spec fn view(&self) -> GReq {
        GReq {
            diagram_source: self.diagram_source@,
            diagram_type: self.diagram_type@,
            start: self.start as int,
            end: self.end as int,
        }
    }
}

/// The views of a sequence of requests.
pub open spec fn reqs_view(s: Seq<RenderRequest>) -> Seq<GReq> {
    s.map_values(|r: RenderRequest| r@)
}

/// The request invariant inherited from the scanner: every range is
/// non-empty and lies within the document, and the ranges are pairwise
/// disjoint in strictly increasing order.
pub open spec fn reqs_wf(rs: Seq<GReq>, len: int) -> bool {
    &&& forall|i: int| 0 <= i < rs.len() ==> 0 <= (#[trigger] rs[i]).start < rs[i].end <= len
    &&& forall|i: int, j: int|
        0 <= i < j < rs.len() ==> (#[trigger] rs[i]).end <= (#[trigger] rs[j]).start
}

/// The lowercase hex digit of a value below sixteen.
pub open spec fn hex_digit(n: u8) -> u8 {
    if n < 10 {
        (48 + n) as u8
    } else {
        (87 + n) as u8
    }
}

/// The JSON string escape of one byte.
pub open spec fn json_escape_byte(b: u8) -> Seq<u8> {
    if b == 34 {
        seq![92u8, 34u8]  // \"
    } else if b == 92 {
        seq![92u8, 92u8]  // \\
    } else if b == 8 {
        seq![92u8, 98u8]  // \b
    } else if b == 9 {
        seq![92u8, 116u8]  // \t
    } else if b == 10 {
        seq![92u8, 110u8]  // \n
    } else if b == 12 {
        seq![92u8, 102u8]  // \f
    } else if b == 13 {
        seq![92u8, 114u8]  // \r
    } else if b < 32 {
        seq![92u8, 117u8, 48u8, 48u8, hex_digit(b / 16), hex_digit(b % 16)]  // \u00..
    } else {
        seq![b]
    }
}

/// The JSON string escape of a byte sequence.
pub open spec fn json_escape(s: Seq<u8>) -> Seq<u8>
    decreases s.len(),
{
    if s.len() == 0 {
        Seq::empty()
    } else {
        json_escape_byte(s[0]) + json_escape(s.drop_first())
    }
}

/// Escaping distributes over appending one byte at the end.
pub proof fn lemma_json_escape_push(s: Seq<u8>, a: u8)
    ensures
        json_escape(s.push(a)) == json_escape(s) + json_escape_byte(a),
    decreases s.len(),
{
    if s.len() == 0 {
        assert(s.push(a)[0] == a);
        assert(json_escape(Seq::<u8>::empty()) =~= Seq::<u8>::empty());
        assert(s.push(a).drop_first() =~= Seq::<u8>::empty());
        assert(json_escape(s.push(a)) =~= json_escape_byte(a));
        assert(json_escape(s) + json_escape_byte(a) =~= json_escape_byte(a));
    } else {
        assert(s.push(a)[0] == s[0]);
        assert(s.push(a).drop_first() =~= s.drop_first().push(a));
        lemma_json_escape_push(s.drop_first(), a);
        assert(json_escape(s.push(a)) =~= json_escape(s) + json_escape_byte(a));
    }
}

/// The request body for a diagram source and type.
pub open spec fn request_body_spec(source: Seq<u8>, dtype: Seq<u8>) -> Seq<u8> {
    lit::json_head() + json_escape(source) + lit::json_mid() + json_escape(dtype)
        + lit::json_tail()
}

/// The lowercase hex digit of a value below sixteen.
pub fn hex_digit_exec(n: u8) -> (r: u8)
    requires
        n < 16,
    ensures
        r == hex_digit(n),
{
    if n < 10 {
        48 + n
    } else {
        87 + n
    }
}

/// Append the JSON escape of one byte.
pub fn push_escaped_byte(out: &mut Vec<u8>, b: u8)
    ensures
        final(out)@ == old(out)@ + json_escape_byte(b),
{
    if b == 34 {
        out.push(92);
        out.push(34);
    } else if b == 92 {
        out.push(92);
        out.push(92);
    } else if b == 8 {
        out.push(92);
        out.push(98);
    } else if b == 9 {
        out.push(92);
        out.push(116);
    } else if b == 10 {
        out.push(92);
        out.push(110);
    } else if b == 12 {
        out.push(92);
        out.push(102);
    } else if b == 13 {
        out.push(92);
        out.push(114);
    } else if b < 32 {
        out.push(92);
        out.push(117);
        out.push(48);
        out.push(48);
        out.push(hex_digit_exec(b / 16));
        out.push(hex_digit_exec(b % 16));
    } else {
        out.push(b);
    }
    assert(out@ =~= old(out)@ + json_escape_byte(b));
}

/// Append the JSON escape of a whole byte sequence.
pub fn push_escaped(out: &mut Vec<u8>, s: &[u8])
    ensures
        final(out)@ == old(out)@ + json_escape(s@),
{
    let mut i: usize = 0;
    while i < s.len()
        invariant
            0 <= i <= s@.len(),
            out@ == old(out)@ + json_escape(s@.subrange(0, i as int)),
        decreases s@.len() - i,
    {
        proof {
            lemma_json_escape_push(s@.subrange(0, i as int), s@[i as int]);
            assert(s@.subrange(0, i as int).push(s@[i as int]) =~= s@.subrange(0, i + 1));
        }
        push_escaped_byte(out, s[i]);
        i += 1;
    }
    assert(s@.subrange(0, s@.len() as int) =~= s@);
}

/// Build the wire body of a render request: the JSON object with the
/// escaped diagram source, the escaped diagram type, and the fixed output
/// format.
pub fn build_request_body(req: &RenderRequest) -> (r: Vec<u8>)
    ensures
        r@ == request_body_spec(req.diagram_source@, req.diagram_type@),
{
    let mut out: Vec<u8> = Vec::new();
    text::append_bytes(&mut out, lit::json_head_lit());
    push_escaped(&mut out, req.diagram_source.as_slice());
    text::append_bytes(&mut out, lit::json_mid_lit());
    push_escaped(&mut out, req.diagram_type.as_slice());
    text::append_bytes(&mut out, lit::json_tail_lit());
    assert(out@ =~= request_body_spec(req.diagram_source@, req.diagram_type@));
    out
}

} // verus!
