//! The diagram-tag grammar.
//!
//! A tag fragment is an element written `<name attr="value" ...>` with an
//! optional self-closing `/>`, XML-style: attribute names and quoted values
//! separated by whitespace, with the five named character entities decoded
//! inside values. The parser classifies a fragment that begins with the tag
//! sentinel into the scanner's possible actions.

use vstd::prelude::*;

use crate::lit;
use crate::occurrence::{GSource, SourceRef};
use crate::text;

verus! {

/// XML whitespace: tab, line feed, carriage return, space.
pub open spec fn is_xml_ws(b: u8) -> bool {
    b == 9 || b == 10 || b == 13 || b == 32
}

/// A byte that may start an attribute or element name: a letter, `_`, `:`.
pub open spec fn is_name_start_byte(b: u8) -> bool {
    (97 <= b <= 122) || (65 <= b <= 90) || b == 95 || b == 58
}

/// A byte that may continue a name: a name-start byte, a digit, `-`, `.`.
pub open spec fn is_name_byte(b: u8) -> bool {
    is_name_start_byte(b) || (48 <= b <= 57) || b == 45 || b == 46
}

/// First position at or after `i` that is not XML whitespace.
pub open spec fn skip_ws(f: Seq<u8>, i: int) -> int
    decreases f.len() - i,
    when 0 <= i
{
    if i >= f.len() || !is_xml_ws(f[i]) {
        i
    } else {
        skip_ws(f, i + 1)
    }
}

/// First position at or after `i` that is not a name byte.
pub open spec fn name_end(f: Seq<u8>, i: int) -> int
    decreases f.len() - i,
    when 0 <= i
{
    if i >= f.len() || !is_name_byte(f[i]) {
        i
    } else {
        name_end(f, i + 1)
    }
}

/// Bounds of `skip_ws`.
pub proof fn lemma_skip_ws(f: Seq<u8>, i: int)
    requires
        0 <= i <= f.len(),
    ensures
        i <= skip_ws(f, i) <= f.len(),
    decreases f.len() - i,
{
    if !(i >= f.len() || !is_xml_ws(f[i])) {
        lemma_skip_ws(f, i + 1);
    }
}

/// Bounds of `name_end`.
pub proof fn lemma_name_end(f: Seq<u8>, i: int)
    requires
        0 <= i <= f.len(),
    ensures
        i <= name_end(f, i) <= f.len(),
    decreases f.len() - i,
{
    if !(i >= f.len() || !is_name_byte(f[i])) {
        lemma_name_end(f, i + 1);
    }
}

/// Decode one named character entity at position `i` (which holds `&`):
/// the decoded byte and the position after the closing `;`.
pub open spec fn parse_entity(f: Seq<u8>, i: int) -> Option<(u8, int)> {
    if i + 5 <= f.len() && f[i + 1] == 97 && f[i + 2] == 109 && f[i + 3] == 112 && f[i + 4] == 59 {
        Some((38u8, i + 5))  // &amp;
    } else if i + 4 <= f.len() && f[i + 1] == 108 && f[i + 2] == 116 && f[i + 3] == 59 {
        Some((60u8, i + 4))  // &lt;
    } else if i + 4 <= f.len() && f[i + 1] == 103 && f[i + 2] == 116 && f[i + 3] == 59 {
        Some((62u8, i + 4))  // &gt;
    } else if i + 6 <= f.len() && f[i + 1] == 113 && f[i + 2] == 117 && f[i + 3] == 111 && f[i + 4]
        == 116 && f[i + 5] == 59 {
        Some((34u8, i + 6))  // &quot;
    } else if i + 6 <= f.len() && f[i + 1] == 97 && f[i + 2] == 112 && f[i + 3] == 111 && f[i + 4]
        == 115 && f[i + 5] == 59 {
        Some((39u8, i + 6))  // &apos;
    } else {
        None
    }
}

/// Parse a quoted attribute value from `i` up to the closing quote `q`,
/// appending decoded bytes to `acc`: the value and the position after the
/// closing quote. A raw `<` or an unknown entity is an error.
pub open spec fn parse_quoted(f: Seq<u8>, i: int, q: u8, acc: Seq<u8>) -> Result<(Seq<u8>, int), ()>
    decreases f.len() - i,
    when 0 <= i
{
    if i >= f.len() {
        Err(())
    } else if f[i] == q {
        Ok((acc, i + 1))
    } else if f[i] == 60 {  // '<'
        Err(())
    } else if f[i] == 38 {  // '&'
        match parse_entity(f, i) {
            Some((b, j)) => parse_quoted(f, j, q, acc.push(b)),
            None => Err(()),
        }
    } else {
        parse_quoted(f, i + 1, q, acc.push(f[i]))
    }
}

/// A successful quoted-value parse advances and stays inside the fragment.
pub proof fn lemma_parse_quoted_bounds(f: Seq<u8>, i: int, q: u8, acc: Seq<u8>)
    requires
        0 <= i <= f.len(),
    ensures
        match parse_quoted(f, i, q, acc) {
            Ok((v, e)) => i < e <= f.len(),
            Err(()) => true,
        },
    decreases f.len() - i,
{
    if i >= f.len() {
    } else if f[i] == q {
    } else if f[i] == 60 {
    } else if f[i] == 38 {
        match parse_entity(f, i) {
            Some((b, j)) => {
                lemma_parse_quoted_bounds(f, j, q, acc.push(b));
            },
            None => {},
        }
    } else {
        lemma_parse_quoted_bounds(f, i + 1, q, acc.push(f[i]));
    }
}

/// One parsed attribute.
pub struct GAttr {
    pub name: Seq<u8>,
    pub value: Seq<u8>,
}

/// The value of the first attribute named `name`, if any.
pub open spec fn lookup_attr(attrs: Seq<GAttr>, name: Seq<u8>) -> Option<Seq<u8>>
    decreases attrs.len(),
{
    if attrs.len() == 0 {
        None
    } else if attrs[0].name == name {
        Some(attrs[0].value)
    } else {
        lookup_attr(attrs.drop_first(), name)
    }
}

/// Whether an attribute named `name` is present.
pub open spec fn has_attr(attrs: Seq<GAttr>, name: Seq<u8>) -> bool {
    lookup_attr(attrs, name) is Some
}

/// Parse the attribute list of an open tag from position `i`, appending to
/// `attrs`: the attributes, whether the tag is self-closed, and the
/// position just after the closing `>`. Attributes must be separated by
/// whitespace, values quoted with `"` or `'`, and names unique.
pub open spec fn parse_attrs(f: Seq<u8>, i: int, attrs: Seq<GAttr>) -> Result<
    (Seq<GAttr>, bool, int),
    (),
>
    decreases f.len() - i,
    when 0 <= i <= f.len()
    via parse_attrs_decreases
{
    let j = skip_ws(f, i);
    if j >= f.len() {
        Err(())
    } else if f[j] == 47 {  // '/'
        if j + 2 <= f.len() && f[j + 1] == 62 {
            Ok((attrs, true, j + 2))
        } else {
            Err(())
        }
    } else if f[j] == 62 {  // '>'
        Ok((attrs, false, j + 1))
    } else if is_name_start_byte(f[j]) && j > i {
        let k = name_end(f, j);
        let name = f.subrange(j, k);
        let m = skip_ws(f, k);
        if m >= f.len() || f[m] != 61 {  // '='
            Err(())
        } else {
            let p = skip_ws(f, m + 1);
            if p >= f.len() || (f[p] != 34 && f[p] != 39) {  // '"' or '\''
                Err(())
            } else {
                match parse_quoted(f, p + 1, f[p], Seq::empty()) {
                    Err(()) => Err(()),
                    Ok((v, e)) => {
                        if has_attr(attrs, name) {
                            Err(())
                        } else {
                            parse_attrs(f, e, attrs.push(GAttr { name, value: v }))
                        }
                    },
                }
            }
        }
    } else {
        Err(())
    }
}

#[via_fn]
proof fn parse_attrs_decreases(f: Seq<u8>, i: int, attrs: Seq<GAttr>) {
    lemma_skip_ws(f, i);
    let j = skip_ws(f, i);
    if j < f.len() && f[j] != 47 && f[j] != 62 && is_name_start_byte(f[j]) && j > i {
        lemma_name_end(f, j);
        let k = name_end(f, j);
        lemma_skip_ws(f, k);
        let m = skip_ws(f, k);
        if m < f.len() && f[m] == 61 {
            lemma_skip_ws(f, m + 1);
            let p = skip_ws(f, m + 1);
            if p < f.len() && (f[p] == 34 || f[p] == 39) {
                lemma_parse_quoted_bounds(f, p + 1, f[p], Seq::empty());
            }
        }
    }
}

/// What a fragment beginning with the tag sentinel tells the scanner to do.
pub enum GTagOutcome {
    /// The tag markup is unparsable.
    Malformed,
    /// The tag has no `type` attribute.
    NoType,
    /// The tag is self-closed with neither a body nor a `path` attribute.
    NoSource,
    /// The occurrence is complete within this fragment.
    Immediate { dtype: Seq<u8>, source: GSource },
    /// An open tag with a `path` attribute; the close sentinel follows in a
    /// later fragment.
    OpenRef { dtype: Seq<u8>, path: Seq<u8>, root: Option<Seq<u8>> },
    /// An open tag with an inline body; the close sentinel follows in a
    /// later fragment.
    OpenInline { dtype: Seq<u8> },
}

/// Classify a markup fragment that begins with the tag sentinel.
///
/// The `type` attribute is required. A self-closed tag takes its source
/// from the `path` attribute. When the closing sentinel stands in the same
/// fragment the occurrence is complete at once, with the literal bytes
/// between the open tag and the close sentinel as inline source when no
/// `path` attribute is given. Text after the close sentinel in the same
/// fragment is not inspected; the occurrence's range covers the whole
/// fragment.
pub open spec fn parse_kroki_fragment(f: Seq<u8>) -> GTagOutcome {
    if f.len() < 2 || f[0] != 60 || !is_name_start_byte(f[1]) {
        GTagOutcome::Malformed
    } else {
        let ne = name_end(f, 1);
        match parse_attrs(f, ne, Seq::empty()) {
            Err(()) => GTagOutcome::Malformed,
            Ok((attrs, self_closed, open_end)) => {
                match lookup_attr(attrs, lit::attr_type()) {
                    None => GTagOutcome::NoType,
                    Some(dtype) => {
                        let path = lookup_attr(attrs, lit::attr_path());
                        let root = lookup_attr(attrs, lit::attr_root());
                        if self_closed {
                            match path {
                                Some(p) => GTagOutcome::Immediate {
                                    dtype,
                                    source: GSource::External { path: p, root },
                                },
                                None => GTagOutcome::NoSource,
                            }
                        } else {
                            match text::first_match_from(f, lit::kroki_close(), open_end) {
                                Some(j) => match path {
                                    Some(p) => GTagOutcome::Immediate {
                                        dtype,
                                        source: GSource::External { path: p, root },
                                    },
                                    None => GTagOutcome::Immediate {
                                        dtype,
                                        source: GSource::Inline(f.subrange(open_end, j)),
                                    },
                                },
                                None => match path {
                                    Some(p) => GTagOutcome::OpenRef { dtype, path: p, root },
                                    None => GTagOutcome::OpenInline { dtype },
                                },
                            }
                        }
                    },
                }
            },
        }
    }
}

/// One parsed attribute, executable form.
pub struct Attr {
    pub name: Vec<u8>,
    pub value: Vec<u8>,
}

impl View for Attr {
    type V = GAttr;

    open spec fn view(&self) -> GAttr {
        GAttr { name: self.name@, value: self.value@ }
    }
}

/// The views of a sequence of attributes.
pub open spec fn attrs_view(s: Seq<Attr>) -> Seq<GAttr> {
    s.map_values(|a: Attr| a@)
}

/// First position at or after `i` that is not XML whitespace.
pub fn skip_ws_exec(f: &[u8], i: usize) -> (r: usize)
    requires
        i <= f@.len(),
    ensures
        r == skip_ws(f@, i as int),
        i <= r <= f@.len(),
{
    let mut c: usize = i;
    while c < f.len() && is_xml_ws_exec(f[c])
        invariant
            i <= c <= f@.len(),
            skip_ws(f@, i as int) == skip_ws(f@, c as int),
        decreases f@.len() - c,
    {
        c += 1;
    }
    c
}

/// Whether the byte is XML whitespace.
pub fn is_xml_ws_exec(b: u8) -> (r: bool)
    ensures
        r == is_xml_ws(b),
{
    b == 9 || b == 10 || b == 13 || b == 32
}

/// Whether the byte may start a name.
pub fn is_name_start_byte_exec(b: u8) -> (r: bool)
    ensures
        r == is_name_start_byte(b),
{
    (97 <= b && b <= 122) || (65 <= b && b <= 90) || b == 95 || b == 58
}

/// Whether the byte may continue a name.
pub fn is_name_byte_exec(b: u8) -> (r: bool)
    ensures
        r == is_name_byte(b),
{
    is_name_start_byte_exec(b) || (48 <= b && b <= 57) || b == 45 || b == 46
}

/// First position at or after `i` that is not a name byte.
pub fn name_end_exec(f: &[u8], i: usize) -> (r: usize)
    requires
        i <= f@.len(),
    ensures
        r == name_end(f@, i as int),
        i <= r <= f@.len(),
{
    let mut c: usize = i;
    while c < f.len() && is_name_byte_exec(f[c])
        invariant
            i <= c <= f@.len(),
            name_end(f@, i as int) == name_end(f@, c as int),
        decreases f@.len() - c,
    {
        c += 1;
    }
    c
}

/// Decode one named character entity at position `i`.
pub fn parse_entity_exec(f: &[u8], i: usize) -> (r: Option<(u8, usize)>)
    requires
        i < f@.len(),
    ensures
        match r {
            Some((b, j)) => parse_entity(f@, i as int) == Some((b, j as int)) && i < j <= f@.len(),
            None => parse_entity(f@, i as int) is None,
        },
{
    let rem = f.len() - i;
    if rem >= 5 && f[i + 1] == 97 && f[i + 2] == 109 && f[i + 3] == 112 && f[i + 4] == 59 {
        Some((38u8, i + 5))
    } else if rem >= 4 && f[i + 1] == 108 && f[i + 2] == 116 && f[i + 3] == 59 {
        Some((60u8, i + 4))
    } else if rem >= 4 && f[i + 1] == 103 && f[i + 2] == 116 && f[i + 3] == 59 {
        Some((62u8, i + 4))
    } else if rem >= 6 && f[i + 1] == 113 && f[i + 2] == 117 && f[i + 3] == 111 && f[i + 4] == 116
        && f[i + 5] == 59 {
        Some((34u8, i + 6))
    } else if rem >= 6 && f[i + 1] == 97 && f[i + 2] == 112 && f[i + 3] == 111 && f[i + 4] == 115
        && f[i + 5] == 59 {
        Some((39u8, i + 6))
    } else {
        None
    }
}

/// Parse a quoted attribute value from `i` up to the closing quote `q`.
pub fn parse_quoted_exec(f: &[u8], i: usize, q: u8) -> (r: Result<(Vec<u8>, usize), ()>)
    requires
        i <= f@.len(),
    ensures
        match r {
            Ok((v, e)) => parse_quoted(f@, i as int, q, Seq::empty()) == Ok::<_, ()>(
                (v@, e as int),
            ) && i < e <= f@.len(),
            Err(()) => parse_quoted(f@, i as int, q, Seq::empty()) is Err,
        },
{
    let mut c: usize = i;
    let mut acc: Vec<u8> = Vec::new();
    loop
        invariant
            i <= c <= f@.len(),
            parse_quoted(f@, i as int, q, Seq::empty()) == parse_quoted(f@, c as int, q, acc@),
        decreases f@.len() - c,
    {
        if c >= f.len() {
            return Err(());
        }
        let b = f[c];
        if b == q {
            return Ok((acc, c + 1));
        } else if b == 60 {
            return Err(());
        } else if b == 38 {
            match parse_entity_exec(f, c) {
                Some((d, j)) => {
                    acc.push(d);
                    c = j;
                },
                None => {
                    return Err(());
                },
            }
        } else {
            acc.push(b);
            c += 1;
        }
    }
}

/// The value of the first attribute named `name`, copied out.
pub fn lookup_attr_exec(attrs: &Vec<Attr>, name: &[u8]) -> (r: Option<Vec<u8>>)
    ensures
        match r {
            Some(v) => lookup_attr(attrs_view(attrs@), name@) == Some(v@),
            None => lookup_attr(attrs_view(attrs@), name@) is None,
        },
{
    let mut i: usize = 0;
    while i < attrs.len()
        invariant
            0 <= i <= attrs@.len(),
            forall|j: int| 0 <= j < i ==> attrs_view(attrs@)[j].name != name@,
        decreases attrs@.len() - i,
    {
        if text::bytes_eq(attrs[i].name.as_slice(), name) {
            proof {
                lemma_lookup_attr_skip(attrs_view(attrs@), name@, i as int);
            }
            let v = text::subvec(attrs[i].value.as_slice(), 0, attrs[i].value.len());
            assert(v@ =~= attrs_view(attrs@)[i as int].value);
            return Some(v);
        }
        i += 1;
    }
    proof {
        lemma_lookup_attr_skip(attrs_view(attrs@), name@, i as int);
    }
    None
}

/// With no match among the first `i` attributes, the lookup equals the
/// lookup over the rest.
pub proof fn lemma_lookup_attr_skip(attrs: Seq<GAttr>, name: Seq<u8>, i: int)
    requires
        0 <= i <= attrs.len(),
        forall|j: int| 0 <= j < i ==> (#[trigger] attrs[j]).name != name,
    ensures
        lookup_attr(attrs, name) == lookup_attr(attrs.skip(i), name),
    decreases i,
{
    if i == 0 {
        assert(attrs.skip(0) =~= attrs);
    } else {
        lemma_lookup_attr_skip(attrs, name, i - 1);
        assert(attrs.skip(i - 1).len() == attrs.len() - i + 1);
        assert(attrs.skip(i - 1)[0] == attrs[i - 1]);
        assert(attrs.skip(i - 1).drop_first() =~= attrs.skip(i));
    }
}

/// Parse the attribute list of an open tag from position `i`.
pub fn parse_attrs_exec(f: &[u8], i: usize) -> (r: Result<(Vec<Attr>, bool, usize), ()>)
    requires
        i <= f@.len(),
    ensures
        match r {
            Ok((attrs, sc, e)) => parse_attrs(f@, i as int, Seq::empty()) == Ok::<_, ()>(
                (attrs_view(attrs@), sc, e as int),
            ) && e <= f@.len(),
            Err(()) => parse_attrs(f@, i as int, Seq::empty()) is Err,
        },
{
    let mut c: usize = i;
    let mut acc: Vec<Attr> = Vec::new();
    proof {
        assert(attrs_view(acc@) =~= Seq::<GAttr>::empty());
    }
    loop
        invariant
            i <= c <= f@.len(),
            parse_attrs(f@, i as int, Seq::empty()) == parse_attrs(f@, c as int, attrs_view(acc@)),
        decreases f@.len() - c,
    {
        let j = skip_ws_exec(f, c);
        if j >= f.len() {
            return Err(());
        }
        let b = f[j];
        if b == 47 {
            if f.len() - j >= 2 && f[j + 1] == 62 {
                return Ok((acc, true, j + 2));
            } else {
                return Err(());
            }
        } else if b == 62 {
            return Ok((acc, false, j + 1));
        } else if is_name_start_byte_exec(b) && j > c {
            let k = name_end_exec(f, j);
            let name = text::subvec(f, j, k);
            let m = skip_ws_exec(f, k);
            if m >= f.len() || f[m] != 61 {
                return Err(());
            }
            let p = skip_ws_exec(f, m + 1);
            if p >= f.len() || (f[p] != 34 && f[p] != 39) {
                return Err(());
            }
            match parse_quoted_exec(f, p + 1, f[p]) {
                Err(()) => {
                    return Err(());
                },
                Ok((v, e)) => {
                    if lookup_attr_exec(&acc, name.as_slice()).is_some() {
                        return Err(());
                    }
                    let ghost old_acc = acc@;
                    acc.push(Attr { name, value: v });
                    proof {
                        assert(attrs_view(acc@) =~= attrs_view(old_acc).push(acc@[acc@.len() - 1]@));
                    }
                    c = e;
                },
            }
        } else {
            return Err(());
        }
    }
}

/// What a fragment beginning with the tag sentinel tells the scanner to
/// do, executable form.
pub enum TagAction {
    Malformed,
    NoType,
    NoSource,
    Immediate { dtype: Vec<u8>, source: SourceRef },
    OpenRef { dtype: Vec<u8>, path: Vec<u8>, root: Option<Vec<u8>> },
    OpenInline { dtype: Vec<u8> },
}

impl View for TagAction {
    type V = GTagOutcome;

    open spec fn view(&self) -> GTagOutcome {
        match self {
            TagAction::Malformed => GTagOutcome::Malformed,
            TagAction::NoType => GTagOutcome::NoType,
            TagAction::NoSource => GTagOutcome::NoSource,
            TagAction::Immediate { dtype, source } => GTagOutcome::Immediate {
                dtype: dtype@,
                source: source@,
            },
            TagAction::OpenRef { dtype, path, root } => GTagOutcome::OpenRef {
                dtype: dtype@,
                path: path@,
                root: match root {
                    Some(r) => Some(r@),
                    None => None,
                },
            },
            TagAction::OpenInline { dtype } => GTagOutcome::OpenInline { dtype: dtype@ },
        }
    }
}

/// Classify a markup fragment that begins with the tag sentinel.
pub fn parse_tag_exec(f: &[u8]) -> (r: TagAction)
    ensures
        r@ == parse_kroki_fragment(f@),
{
    if f.len() < 2 || f[0] != 60 || !is_name_start_byte_exec(f[1]) {
        return TagAction::Malformed;
    }
    let ne = name_end_exec(f, 1);
    let (attrs, self_closed, open_end) = match parse_attrs_exec(f, ne) {
        Err(()) => {
            return TagAction::Malformed;
        },
        Ok(t) => t,
    };
    let dtype = match lookup_attr_exec(&attrs, lit::attr_type_lit()) {
        None => {
            return TagAction::NoType;
        },
        Some(d) => d,
    };
    let path = lookup_attr_exec(&attrs, lit::attr_path_lit());
    let root = lookup_attr_exec(&attrs, lit::attr_root_lit());
    if self_closed {
        match path {
            Some(p) => TagAction::Immediate {
                dtype,
                source: SourceRef::External { path: p, root },
            },
            None => TagAction::NoSource,
        }
    } else {
        match text::find_from(f, lit::kroki_close_lit(), open_end) {
            Some(j) => match path {
                Some(p) => TagAction::Immediate {
                    dtype,
                    source: SourceRef::External { path: p, root },
                },
                None => {
                    proof {
                        text::lemma_first_match_props(f@, lit::kroki_close(), open_end as int);
                    }
                    TagAction::Immediate {
                        dtype,
                        source: SourceRef::Inline(text::subvec(f, open_end, j)),
                    }
                },
            },
            None => match path {
                Some(p) => TagAction::OpenRef { dtype, path: p, root },
                None => TagAction::OpenInline { dtype },
            },
        }
    }
}

} // verus!
