//! End-to-end passes over whole documents: scan, request preparation,
//! response post-processing, and splicing.

use md_kroki::errors::RenderError;
use md_kroki::renderer::MdKroki;
use md_kroki::request::build_request_body;
use md_kroki::resolver::ResolveFn;
use md_kroki::respond::process_xml;
use md_kroki::splice::{apply_render_results, check_results_wf, RenderResult};

/// A resolver that answers with the path and root it was handed, joined
/// by a colon.
struct EchoResolver;

impl ResolveFn for EchoResolver {
    fn resolve(&self, path: &Vec<u8>, root: Option<&Vec<u8>>) -> Result<Vec<u8>, Vec<u8>> {
        let mut out = path.clone();
        out.push(b':');
        if let Some(r) = root {
            out.extend_from_slice(r);
        }
        Ok(out)
    }
}

/// A resolver that always fails with a fixed message.
struct FailingResolver;

impl ResolveFn for FailingResolver {
    fn resolve(&self, _path: &Vec<u8>, _root: Option<&Vec<u8>>) -> Result<Vec<u8>, Vec<u8>> {
        Err(b"no such file".to_vec())
    }
}

fn contains(hay: &[u8], needle: &[u8]) -> bool {
    hay.windows(needle.len()).any(|w| w == needle)
}

#[test]
fn unchanged_without_occurrences() {
    let doc = b"# Title\n\nplain text, `code`, and a [link](https://example.org).\n".to_vec();
    let renderer = MdKroki::new();
    let reqs = renderer.get_render_requests(&doc).unwrap();
    assert_eq!(reqs.len(), 0);
    let out = apply_render_results(&doc, Vec::new());
    assert_eq!(out, doc);
}

#[test]
fn fenced_block_full_pass() {
    let doc = b"before\n\n```kroki-mermaid\ngraph TD\nA-->B\n```\n\nafter\n".to_vec();
    let renderer = MdKroki::new();
    let reqs = renderer.get_render_requests(&doc).unwrap();
    assert_eq!(reqs.len(), 1);
    assert_eq!(reqs[0].diagram_type, b"mermaid".to_vec());
    assert_eq!(reqs[0].diagram_source, b"\ngraph TD\nA-->B\n".to_vec());

    let body = build_request_body(&reqs[0]);
    assert_eq!(
        String::from_utf8(body).unwrap(),
        "{\"diagram_source\":\"\\ngraph TD\\nA-->B\\n\",\"diagram_type\":\"mermaid\",\"output_format\":\"svg\"}"
    );

    let response = b"<?xml?><svg>MOCK</svg>".to_vec();
    let content = process_xml(response).unwrap();
    assert_eq!(content, b"<pre><svg>MOCK</svg></pre>".to_vec());

    let results = vec![RenderResult {
        start: reqs[0].start,
        end: reqs[0].end,
        content,
    }];
    assert!(check_results_wf(&results, doc.len()));
    let out = apply_render_results(&doc, results);
    assert_eq!(
        String::from_utf8(out).unwrap(),
        "before\n\n<pre><svg>MOCK</svg></pre>\n\nafter\n"
    );
}

#[test]
fn completion_order_is_irrelevant() {
    let doc = b"x\n\n```kroki-a\none\n```\n\ny\n\n```kroki-b\ntwo\n```\n\nz\n".to_vec();
    let renderer = MdKroki::new();
    let reqs = renderer.get_render_requests(&doc).unwrap();
    assert_eq!(reqs.len(), 2);
    let first = RenderResult {
        start: reqs[0].start,
        end: reqs[0].end,
        content: b"<pre>ONE</pre>".to_vec(),
    };
    let second = RenderResult {
        start: reqs[1].start,
        end: reqs[1].end,
        content: b"<pre>TWO</pre>".to_vec(),
    };
    let in_order = vec![
        RenderResult { start: first.start, end: first.end, content: first.content.clone() },
        RenderResult { start: second.start, end: second.end, content: second.content.clone() },
    ];
    let reversed = vec![second, first];
    let out1 = apply_render_results(&doc, in_order);
    let out2 = apply_render_results(&doc, reversed);
    assert_eq!(out1, out2);
    assert_eq!(
        String::from_utf8(out1).unwrap(),
        "x\n\n<pre>ONE</pre>\n\ny\n\n<pre>TWO</pre>\n\nz\n"
    );
}

#[test]
fn blank_lines_survive_substitution() {
    let doc = b"top\n\n\n```kroki-a\nd\n```\n\n\nbottom\n".to_vec();
    let renderer = MdKroki::new();
    let reqs = renderer.get_render_requests(&doc).unwrap();
    assert_eq!(reqs.len(), 1);
    let results = vec![RenderResult {
        start: reqs[0].start,
        end: reqs[0].end,
        content: b"R".to_vec(),
    }];
    let out = apply_render_results(&doc, results);
    assert_eq!(String::from_utf8(out).unwrap(), "top\n\n\nR\n\n\nbottom\n");
}

#[test]
fn resolver_not_configured_aborts_without_mutation() {
    let doc = b"<kroki type=\"erd\" path=\"d.erd\"/>\n".to_vec();
    let before = doc.clone();
    let renderer = MdKroki::new();
    let r = renderer.get_render_requests(&doc);
    assert!(matches!(r, Err(RenderError::ResolverNotConfigured)));
    assert_eq!(doc, before);
}

#[test]
fn missing_type_attribute_aborts_without_mutation() {
    let doc = b"<kroki path=\"d.erd\"/>\n".to_vec();
    let before = doc.clone();
    let renderer = MdKroki::new();
    let r = renderer.get_render_requests(&doc);
    assert!(matches!(r, Err(RenderError::MissingAttribute)));
    assert_eq!(doc, before);
}

#[test]
fn missing_source_or_path() {
    let doc = b"<kroki type=\"erd\"/>\n".to_vec();
    let renderer = MdKroki::new();
    let r = renderer.get_render_requests(&doc);
    assert!(matches!(r, Err(RenderError::MissingSourceOrPath)));
}

#[test]
fn unparsable_tag_markup() {
    let doc = b"<kroki type=erd/>\n".to_vec();
    let renderer = MdKroki::new();
    let r = renderer.get_render_requests(&doc);
    assert!(matches!(r, Err(RenderError::ParseError)));
}

#[test]
fn path_reference_resolved() {
    let doc = b"<kroki type=\"tt\" path=\"a/b.puml\"/>\n".to_vec();
    let renderer = MdKroki::builder().path_resolver(EchoResolver).build();
    let reqs = renderer.get_render_requests(&doc).unwrap();
    assert_eq!(reqs.len(), 1);
    assert_eq!(reqs[0].diagram_type, b"tt".to_vec());
    assert_eq!(reqs[0].diagram_source, b"a/b.puml:".to_vec());
}

#[test]
fn root_passed_through_uninterpreted() {
    let doc = b"<kroki type=\"tt\" path=\"p\" root=\"assets\"/>\n".to_vec();
    let renderer = MdKroki::builder().path_and_root_resolver(EchoResolver).build();
    let reqs = renderer.get_render_requests(&doc).unwrap();
    assert_eq!(reqs[0].diagram_source, b"p:assets".to_vec());
}

#[test]
fn root_against_path_only_resolver_mismatches() {
    let doc = b"<kroki type=\"tt\" path=\"p\" root=\"assets\"/>\n".to_vec();
    let renderer = MdKroki::builder().path_resolver(EchoResolver).build();
    let r = renderer.get_render_requests(&doc);
    assert!(matches!(r, Err(RenderError::ResolverRootMismatch)));
}

#[test]
fn resolver_failure_propagates_verbatim() {
    let doc = b"<kroki type=\"tt\" path=\"p\"/>\n".to_vec();
    let renderer = MdKroki::builder().path_resolver(FailingResolver).build();
    match renderer.get_render_requests(&doc) {
        Err(RenderError::ResolverFailure(m)) => assert_eq!(m, b"no such file".to_vec()),
        other => panic!("unexpected outcome: {:?}", other.map(|v| v.len())),
    }
}

#[test]
fn entities_decoded_in_attribute_values() {
    let doc = b"<kroki type=\"a&amp;b\" path=\"x&lt;y&quot;z\"/>\n".to_vec();
    let renderer = MdKroki::builder().path_resolver(EchoResolver).build();
    let reqs = renderer.get_render_requests(&doc).unwrap();
    assert_eq!(reqs[0].diagram_type, b"a&b".to_vec());
    assert_eq!(reqs[0].diagram_source, b"x<y\"z:".to_vec());
}

#[test]
fn inline_tag_body_becomes_source() {
    let doc = b"<kroki type=\"erd\">\nBODY LINE\n</kroki>\n".to_vec();
    let renderer = MdKroki::new();
    let reqs = renderer.get_render_requests(&doc).unwrap();
    assert_eq!(reqs.len(), 1);
    assert_eq!(reqs[0].diagram_type, b"erd".to_vec());
    assert!(contains(&reqs[0].diagram_source, b"BODY LINE"));
    assert!(reqs[0].start == 0);
}

#[test]
fn image_link_reference_resolved() {
    let doc = b"![alt text](kroki-excalidraw:my/file.ex)\n".to_vec();
    let renderer = MdKroki::builder().path_resolver(EchoResolver).build();
    let reqs = renderer.get_render_requests(&doc).unwrap();
    assert_eq!(reqs.len(), 1);
    assert_eq!(reqs[0].diagram_type, b"excalidraw".to_vec());
    assert_eq!(reqs[0].diagram_source, b"my/file.ex:".to_vec());
}

#[test]
fn ordinary_image_and_fence_left_alone() {
    let doc = b"![alt](https://example.org/x.png)\n\n```rust\nfn main() {}\n```\n".to_vec();
    let renderer = MdKroki::new();
    let reqs = renderer.get_render_requests(&doc).unwrap();
    assert_eq!(reqs.len(), 0);
}

#[test]
fn requests_come_in_document_order() {
    let doc = b"```kroki-a\n1\n```\n\n```kroki-b\n2\n```\n\n```kroki-c\n3\n```\n".to_vec();
    let renderer = MdKroki::new();
    let reqs = renderer.get_render_requests(&doc).unwrap();
    assert_eq!(reqs.len(), 3);
    assert!(reqs[0].end <= reqs[1].start);
    assert!(reqs[1].end <= reqs[2].start);
    assert_eq!(reqs[0].diagram_type, b"a".to_vec());
    assert_eq!(reqs[1].diagram_type, b"b".to_vec());
    assert_eq!(reqs[2].diagram_type, b"c".to_vec());
}
