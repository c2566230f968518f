//! Unit-level checks: the scanner's raw-region handling, boundary
//! trimming, response post-processing, request framing, sorting, and the
//! host types.

use md_kroki::errors::RenderError;
use md_kroki::events::{EventKind, MdEvent};
use md_kroki::hosts::{normalize_endpoint, ECharts, KrokiPreprocessor};
use md_kroki::occurrence::SourceRef;
use md_kroki::renderer::MdKroki;
use md_kroki::request::{build_request_body, RenderRequest};
use md_kroki::respond::{handle_response, process_xml};
use md_kroki::scan::scan_events;
use md_kroki::splice::{check_results_wf, sort_results, trim_replace_range, RenderResult};

fn html_event(text: &[u8], start: usize, end: usize) -> MdEvent {
    MdEvent { kind: EventKind::Html { text: text.to_vec() }, start, end }
}

fn fence_events(doc_len: usize) -> (MdEvent, MdEvent) {
    let start = MdEvent {
        kind: EventKind::CodeStart { info: b"kroki-a".to_vec() },
        start: 0,
        end: doc_len,
    };
    let end = MdEvent { kind: EventKind::CodeEnd, start: 0, end: doc_len };
    (start, end)
}

#[test]
fn raw_region_depth_two_levels() {
    let doc = b"```kroki-a\nSRC\n```".to_vec();
    let n = doc.len();
    let (cs1, ce1) = fence_events(n);
    let (cs2, ce2) = fence_events(n);
    let (cs3, ce3) = fence_events(n);
    let events = vec![
        html_event(b"<pre>", 0, 0),
        html_event(b"<pre>", 0, 0),
        cs1,
        ce1,
        html_event(b"</pre>", 0, 0),
        cs2,
        ce2,
        html_event(b"</pre>", 0, 0),
        cs3,
        ce3,
    ];
    let occs = scan_events(&doc, &events).unwrap();
    assert_eq!(occs.len(), 1);
    assert_eq!(occs[0].start, 0);
    assert_eq!(occs[0].end, n);
    assert_eq!(occs[0].diagram_type, b"a".to_vec());
    match &occs[0].source {
        SourceRef::Inline(s) => assert_eq!(s, &b"\nSRC\n".to_vec()),
        SourceRef::External { .. } => panic!("expected an inline source"),
    }
}

#[test]
fn raw_region_suppresses_all_syntaxes() {
    let doc = b"```kroki-a\nSRC\n```".to_vec();
    let n = doc.len();
    let (cs, ce) = fence_events(n);
    let events = vec![html_event(b"<pre>", 0, 0), cs, ce];
    let occs = scan_events(&doc, &events).unwrap();
    assert_eq!(occs.len(), 0);
}

#[test]
fn reference_tag_closed_in_later_fragment() {
    let doc = vec![b'x'; 40];
    let events = vec![
        html_event(br#"<kroki type="t" path="p">"#, 0, 25),
        html_event(b"</kroki>", 30, 38),
    ];
    let occs = scan_events(&doc, &events).unwrap();
    assert_eq!(occs.len(), 1);
    assert_eq!((occs[0].start, occs[0].end), (0, 38));
    match &occs[0].source {
        SourceRef::External { path, root } => {
            assert_eq!(path, &b"p".to_vec());
            assert!(root.is_none());
        }
        SourceRef::Inline(_) => panic!("expected an external reference"),
    }
}

#[test]
fn inline_tag_source_is_the_literal_slice() {
    let doc = b"<kroki type=\"t\">BODY!</kroki>".to_vec();
    let events = vec![
        html_event(b"<kroki type=\"t\">", 0, 16),
        MdEvent { kind: EventKind::Other, start: 16, end: 21 },
        html_event(b"</kroki>", 21, 29),
    ];
    let occs = scan_events(&doc, &events).unwrap();
    assert_eq!(occs.len(), 1);
    assert_eq!((occs[0].start, occs[0].end), (0, 29));
    match &occs[0].source {
        SourceRef::Inline(s) => assert_eq!(s, &b"BODY!".to_vec()),
        SourceRef::External { .. } => panic!("expected an inline source"),
    }
}

#[test]
fn image_events_become_external_reference() {
    let doc = vec![b'x'; 25];
    let events = vec![
        MdEvent {
            kind: EventKind::ImageStart { url: b"kroki-svgx:pic.x".to_vec() },
            start: 5,
            end: 20,
        },
        MdEvent { kind: EventKind::ImageEnd, start: 5, end: 20 },
    ];
    let occs = scan_events(&doc, &events).unwrap();
    assert_eq!(occs.len(), 1);
    assert_eq!(occs[0].diagram_type, b"svgx".to_vec());
    match &occs[0].source {
        SourceRef::External { path, root } => {
            assert_eq!(path, &b"pic.x".to_vec());
            assert!(root.is_none());
        }
        SourceRef::Inline(_) => panic!("expected an external reference"),
    }
}

#[test]
fn out_of_order_token_ranges_are_rejected() {
    let doc = b"```kroki-a\nSRC\n```".to_vec();
    let n = doc.len();
    let (cs1, ce1) = fence_events(n);
    let (cs2, ce2) = fence_events(n);
    // two occurrences over the same range cannot both be emitted
    let events = vec![cs1, ce1, cs2, ce2];
    let r = scan_events(&doc, &events);
    assert!(matches!(r, Err(RenderError::ParseError)));
}

#[test]
fn trim_bounds_exact() {
    let doc = b"  ab  ".to_vec();
    assert_eq!(trim_replace_range(&doc, 0, 6), (2, 4));
    assert_eq!(trim_replace_range(&doc, 0, 2), (2, 2));
    assert_eq!(trim_replace_range(&doc, 2, 4), (2, 4));
    assert_eq!(trim_replace_range(&doc, 0, 0), (0, 0));
}

#[test]
fn process_xml_wraps_payload_and_discards_rest() {
    let out = process_xml(b"junk<svg a=\"1\">x</svg>tail".to_vec()).unwrap();
    assert_eq!(out, b"<pre><svg a=\"1\">x</svg></pre>".to_vec());
}

#[test]
fn process_xml_keeps_everything_between_first_and_last_marker() {
    let out = process_xml(b"<svg>a</svg><svg>b</svg>".to_vec()).unwrap();
    assert_eq!(out, b"<pre><svg>a</svg><svg>b</svg></pre>".to_vec());
}

#[test]
fn process_xml_rejects_missing_markers() {
    assert!(matches!(
        process_xml(b"no markers here".to_vec()),
        Err(RenderError::MalformedRenderResponse)
    ));
    assert!(matches!(
        process_xml(b"<svg>never closed".to_vec()),
        Err(RenderError::MalformedRenderResponse)
    ));
    assert!(matches!(
        process_xml(b"</svg>wrong order<svg".to_vec()),
        Err(RenderError::MalformedRenderResponse)
    ));
}

#[test]
fn non_success_status_is_fatal() {
    let r = handle_response(500, b"<svg>x</svg>".to_vec());
    assert!(matches!(r, Err(RenderError::HttpStatusError(500))));
    let ok = handle_response(200, b"<svg>x</svg>".to_vec()).unwrap();
    assert_eq!(ok, b"<pre><svg>x</svg></pre>".to_vec());
}

#[test]
fn request_body_escapes_control_bytes() {
    let req = RenderRequest {
        diagram_source: vec![1u8, 8u8, 31u8],
        diagram_type: b"t".to_vec(),
        start: 0,
        end: 1,
    };
    let body = build_request_body(&req);
    assert_eq!(
        String::from_utf8(body).unwrap(),
        "{\"diagram_source\":\"\\u0001\\b\\u001f\",\"diagram_type\":\"t\",\"output_format\":\"svg\"}"
    );
}

#[test]
fn request_body_escapes_quotes_and_backslashes() {
    let req = RenderRequest {
        diagram_source: b"a\"b\\c\td".to_vec(),
        diagram_type: b"x".to_vec(),
        start: 0,
        end: 1,
    };
    let body = build_request_body(&req);
    assert_eq!(
        String::from_utf8(body).unwrap(),
        "{\"diagram_source\":\"a\\\"b\\\\c\\td\",\"diagram_type\":\"x\",\"output_format\":\"svg\"}"
    );
}

#[test]
fn sort_results_orders_by_start() {
    let results = vec![
        RenderResult { start: 20, end: 22, content: b"c".to_vec() },
        RenderResult { start: 5, end: 7, content: b"a".to_vec() },
        RenderResult { start: 10, end: 12, content: b"b".to_vec() },
    ];
    let sorted = sort_results(results);
    let starts: Vec<usize> = sorted.iter().map(|r| r.start).collect();
    assert_eq!(starts, vec![5, 10, 20]);
    assert_eq!(sorted[0].content, b"a".to_vec());
}

#[test]
fn results_invariant_checked() {
    let good = vec![
        RenderResult { start: 0, end: 5, content: Vec::new() },
        RenderResult { start: 5, end: 8, content: Vec::new() },
    ];
    assert!(check_results_wf(&good, 10));
    let overlapping = vec![
        RenderResult { start: 0, end: 5, content: Vec::new() },
        RenderResult { start: 4, end: 8, content: Vec::new() },
    ];
    assert!(!check_results_wf(&overlapping, 10));
    let out_of_bounds = vec![RenderResult { start: 0, end: 5, content: Vec::new() }];
    assert!(!check_results_wf(&out_of_bounds, 4));
    let shared_start = vec![
        RenderResult { start: 5, end: 5, content: Vec::new() },
        RenderResult { start: 5, end: 8, content: Vec::new() },
    ];
    assert!(!check_results_wf(&shared_start, 10));
}

#[test]
fn endpoint_normalized_with_trailing_slash() {
    assert_eq!(normalize_endpoint(b"http://localhost:8000".to_vec()), b"http://localhost:8000/".to_vec());
    assert_eq!(normalize_endpoint(b"https://kroki.io/".to_vec()), b"https://kroki.io/".to_vec());
    assert_eq!(normalize_endpoint(Vec::new()), b"/".to_vec());
}

#[test]
fn default_renderer_configuration() {
    let renderer = MdKroki::new();
    assert_eq!(renderer.endpoint, b"https://kroki.io".to_vec());
    let custom = MdKroki::builder().endpoint(b"http://localhost/".to_vec()).build();
    assert_eq!(custom.endpoint, b"http://localhost/".to_vec());
}

#[test]
fn preprocessor_hosts_report_support() {
    let k = KrokiPreprocessor;
    assert_eq!(k.name(), "kroki-preprocessor");
    assert!(k.supports_renderer(b"html"));
    assert!(!k.supports_renderer(b"pdf"));
    let e = ECharts::new();
    assert_eq!(e.name(), "echarts");
    assert!(e.supports_renderer(b"html"));
    assert!(!e.supports_renderer(b"not-supported"));
}

#[test]
fn error_descriptions_are_present() {
    assert!(!RenderError::ParseError.describe().is_empty());
    assert!(!RenderError::HttpStatusError(500).describe().is_empty());
    assert!(!RenderError::NetworkError(b"timeout".to_vec()).describe().is_empty());
}
