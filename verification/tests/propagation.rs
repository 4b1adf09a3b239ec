use axum::http::{HeaderMap, HeaderValue};
use opentelemetry::trace::TraceState;
use otel_rust_demo::gateway;
use otel_rust_demo::headers::field_text;
use otel_rust_demo::propagation::{extract, inject, BaggageItem, SpanLink};
use std::collections::BTreeMap;
use std::str::FromStr;

const TRACE: u128 = 0x4bf92f3577b34da6a3ce929d0e0e4736;
const SPAN: u64 = 0x00f067aa0ba902b7;

fn link(trace_id: u128, span_id: u64, flags: u8, state: &str) -> SpanLink {
    SpanLink { trace_id, span_id, flags, trace_state: TraceState::from_str(state).unwrap() }
}

fn item(key: &str, value: &str, metadata: &str) -> BaggageItem {
    BaggageItem {
        key: key.to_string(),
        value: value.to_string(),
        metadata: metadata.to_string(),
    }
}

fn as_map(items: &[BaggageItem]) -> BTreeMap<String, (String, String)> {
    items
        .iter()
        .map(|item| (item.key.clone(), (item.value.clone(), item.metadata.clone())))
        .collect()
}

fn arrives(items: Vec<BaggageItem>) -> bool {
    let headers = inject(&link(TRACE, SPAN, 1, ""), &items);
    as_map(&extract(&headers).baggage) == as_map(&items)
}

fn one_field(name: &'static str, value: &str) -> HeaderMap {
    let mut headers = HeaderMap::new();
    headers.insert(name, HeaderValue::from_str(value).unwrap());
    headers
}

#[test]
fn the_next_service_continues_the_trace() {
    let ids = [(1u128, 1u64), (TRACE, SPAN), (u128::MAX, u64::MAX), (1 << 127, 1 << 63)];
    for (trace_id, span_id) in ids {
        for flags in [0u8, 1, 2, 3, 254, 255] {
            for state in ["", "foo=bar", "a=1,b=2,c@x=", "rojo= 00 ~\t!,congo=t61"] {
                let sent = link(trace_id, span_id, flags, state);
                let headers = inject(&sent, &vec![]);
                let parent = extract(&headers).parent.unwrap();
                assert_eq!(parent.trace_id, trace_id);
                assert_eq!(parent.span_id, span_id);
                assert_eq!(parent.flags, flags % 2);
                assert_eq!(parent.trace_state, sent.trace_state);
                assert_eq!(headers.get("tracestate").unwrap(), state);
                assert_eq!(
                    headers.get("traceparent").unwrap().to_str().unwrap(),
                    format!("00-{trace_id:032x}-{span_id:016x}-{:02x}", flags % 2)
                );
                assert_eq!(headers.len(), 2);
            }
        }
    }
}

#[test]
fn three_services_share_one_trace() {
    let first = inject(&link(TRACE, SPAN, 1, ""), &vec![item("user.id", "alice", "")]);
    let at_second = extract(&first);
    let parent = at_second.parent.unwrap();
    let second = inject(&link(parent.trace_id, 7, parent.flags, ""), &at_second.baggage);
    let at_third = gateway::propagate_tracing(&second);
    let parent = at_third.parent.unwrap();
    assert_eq!(parent.trace_id, TRACE);
    assert_eq!(parent.span_id, 7);
    assert_eq!(parent.flags, 1);
    assert_eq!(as_map(&at_third.baggage), as_map(&[item("user.id", "alice", "")]));
}

#[test]
fn a_link_that_names_no_span_is_not_sent() {
    for (trace_id, span_id) in [(0u128, SPAN), (TRACE, 0u64), (0, 0)] {
        let sent = link(trace_id, span_id, 1, "foo=bar");
        assert!(!sent.is_valid());
        let headers = inject(&sent, &vec![]);
        assert!(headers.is_empty());
        assert!(extract(&headers).parent.is_none());
    }
    assert!(link(TRACE, SPAN, 0, "").is_valid());
}

#[test]
fn vendor_entries_that_are_not_visible_are_left_behind() {
    for value in ["caf\u{e9}", "a\nb"] {
        let state = TraceState::from_key_value(vec![("k", value)]).unwrap();
        let sent = SpanLink { trace_id: TRACE, span_id: SPAN, flags: 1, trace_state: state };
        let parent = extract(&inject(&sent, &vec![])).parent.unwrap();
        assert_eq!((parent.trace_id, parent.span_id, parent.flags), (TRACE, SPAN, 1));
        assert_eq!(parent.trace_state, TraceState::default());
    }
}

#[test]
fn a_valid_traceparent_is_honoured() {
    for (text, flags) in [
        ("00-4bf92f3577b34da6a3ce929d0e0e4736-00f067aa0ba902b7-00", 0u8),
        ("00-4bf92f3577b34da6a3ce929d0e0e4736-00f067aa0ba902b7-01", 1),
        ("00-4bf92f3577b34da6a3ce929d0e0e4736-00f067aa0ba902b7-02", 0),
        ("00-4bf92f3577b34da6a3ce929d0e0e4736-00f067aa0ba902b7-ff", 1),
    ] {
        let parent = extract(&one_field("traceparent", text)).parent.unwrap();
        assert_eq!((parent.trace_id, parent.span_id, parent.flags), (TRACE, SPAN, flags));
        assert_eq!(parent.trace_state, TraceState::default());
    }
}

#[test]
fn an_invalid_traceparent_starts_a_trace() {
    for text in [
        "",
        "00",
        "00-00000000000000000000000000000000-00f067aa0ba902b7-01",
        "00-4bf92f3577b34da6a3ce929d0e0e4736-0000000000000000-01",
        "00-4BF92F3577B34DA6A3CE929D0E0E4736-00f067aa0ba902b7-01",
        "ff-4bf92f3577b34da6a3ce929d0e0e4736-00f067aa0ba902b7-01",
        "00-4bf92f3577b34da6a3ce929d0e0e4736-00f067aa0ba902b7-01-x",
        "not a traceparent",
    ] {
        assert!(extract(&one_field("traceparent", text)).parent.is_none());
    }
    assert!(extract(&one_field("tracestate", "foo=bar")).parent.is_none());
}

#[test]
fn baggage_reaches_the_next_service() {
    assert!(arrives(vec![]));
    assert!(arrives(vec![item("user.id", "alice", "")]));
    assert!(arrives(vec![
        item("user.id", "alice, bob; \"carol\" = x", ""),
        item("empty", "", ""),
        item("unicode", "\u{e9}\u{1f600} \u{3000}x", "prop=1;other;;q=a b"),
        item("control", "a\tb\nc\u{7f}d", ";"),
        item("percent", "100% of %zz and %4 and %", "p%x"),
        item("!#$%&'*+-.^_`|~", "v", ""),
    ]));
}

#[test]
fn baggage_reaches_up_to_the_limits() {
    let many = |n: usize| (0..n).map(|i| item(&format!("k{i}"), "v", "")).collect::<Vec<_>>();
    assert!(arrives(many(64)));
    assert!(!arrives(many(65)));
    let long = |n: usize| vec![item("k", &"v".repeat(n), "")];
    assert!(arrives(long(8190)));
    assert!(!arrives(long(8191)));
    let escaped = |n: usize| vec![item("k", &format!("v{}v", " ".repeat(n)), "")];
    assert!(arrives(escaped(2729)));
    assert!(!arrives(escaped(2730)));
}

#[test]
fn baggage_that_the_format_changes() {
    assert!(!arrives(vec![item("k", " v", "")]));
    assert!(!arrives(vec![item("k", "v\u{a0}", "")]));
    assert!(!arrives(vec![item("k", "%41", "")]));
    assert!(!arrives(vec![item("k%41", "v", "")]));
    assert!(!arrives(vec![item("a b", "v", "")]));
    assert!(!arrives(vec![item("", "v", "")]));
    assert!(!arrives(vec![item("k", "v", "a,b=c")]));
    assert!(!arrives(vec![item("k", "v", "a ;b")]));
    assert!(!arrives(vec![item("k", "v", "\u{e9}")]));
}

#[test]
fn white_space_at_an_end_is_dropped() {
    let spaces = [
        0x9u32, 0xa, 0xb, 0xc, 0xd, 0x20, 0x85, 0xa0, 0x1680, 0x2000, 0x2005, 0x200a, 0x2028,
        0x2029, 0x202f, 0x205f, 0x3000,
    ];
    for u in 0..=0x10ffffu32 {
        if let Some(c) = char::from_u32(u) {
            let listed = spaces.contains(&u) || (0x2000 <= u && u <= 0x200a);
            assert_eq!(c.is_whitespace(), listed);
        }
    }
}

#[test]
fn baggage_leaves_other_fields_alone() {
    let headers = inject(&link(TRACE, SPAN, 1, "a=b"), &vec![item("user.id", "alice", "")]);
    let mut names: Vec<&str> = headers.keys().map(|name| name.as_str()).collect();
    names.sort();
    assert_eq!(names, vec!["baggage", "traceparent", "tracestate"]);
    assert_eq!(headers.get("baggage").unwrap(), "user.id=alice");
    let headers = inject(&link(0, 0, 0, ""), &vec![item("user.id", "alice", "")]);
    assert_eq!(headers.len(), 1);
}

#[test]
fn field_text_is_the_first_visible_value() {
    let mut headers = HeaderMap::new();
    headers.append("x-a", HeaderValue::from_static("one"));
    headers.append("x-a", HeaderValue::from_static("two"));
    headers.append("x-b", HeaderValue::from_bytes(b"\xff").unwrap());
    headers.append("x-b", HeaderValue::from_static("three"));
    assert_eq!(field_text(&headers, "x-a"), Some("one"));
    assert_eq!(field_text(&headers, "x-b"), None);
    assert_eq!(field_text(&headers, "x-c"), None);
    assert_eq!(field_text(&headers, "no name"), None);
}

#[test]
fn a_plain_baggage_field_is_read_as_it_stands() {
    for (text, key, value) in [
        ("user.id=alice", "user.id", "alice"),
        ("k=", "k", ""),
        ("!#$%&'*+-.^_`|~=%&/()[]{}<>?@:\\", "!#$%&'*+-.^_`|~", "%&/()[]{}<>?@:\\"),
    ] {
        let incoming = extract(&one_field("baggage", text));
        assert_eq!(as_map(&incoming.baggage), as_map(&[item(key, value, "")]));
    }
    let long = format!("k={}", "v".repeat(8190));
    assert_eq!(extract(&one_field("baggage", &long)).baggage.len(), 1);
    let too_long = format!("k={}", "v".repeat(8191));
    assert!(extract(&one_field("baggage", &too_long)).baggage.is_empty());
}

#[test]
fn items_arrive_whatever_becomes_of_the_others() {
    let sent = vec![
        item("user.id", "alice", ""),
        item("not a name", "x", ""),
        item("", "x", "a,b=c"),
        item("spaced", "  x ", ""),
        item("escaped", "%41", ""),
        item("broken", "%FF", ""),
        item("odd", "x", " p ; q=%2C "),
        item("tenant", "a,b;c=d \u{e9}", "prop=1;other"),
        item("%", "%", ""),
    ];
    let headers = inject(&link(TRACE, SPAN, 1, ""), &sent);
    let found = as_map(&extract(&headers).baggage);
    for i in [0, 7, 8] {
        assert_eq!(
            found.get(&sent[i].key),
            Some(&(sent[i].value.clone(), sent[i].metadata.clone()))
        );
    }
    let mut names: Vec<&str> = found.keys().map(|key| key.as_str()).collect();
    names.sort();
    assert_eq!(names, vec!["%", "escaped", "odd", "spaced", "tenant", "user.id"]);
}

#[test]
fn items_without_a_proper_name_are_dropped() {
    let headers = inject(&link(TRACE, SPAN, 1, ""), &vec![item("a b", "x", "y,z=1")]);
    assert!(!headers.contains_key("baggage"));
    assert!(extract(&headers).baggage.is_empty());
}

fn written(items: Vec<BaggageItem>) -> Option<String> {
    let headers = inject(&link(TRACE, SPAN, 1, ""), &items);
    headers.get("baggage").map(|value| String::from_utf8(value.as_bytes().to_vec()).unwrap())
}

fn read_back(items: Vec<BaggageItem>) -> BTreeMap<String, (String, String)> {
    as_map(&extract(&inject(&link(TRACE, SPAN, 1, ""), &items)).baggage)
}

fn pair(value: &str, metadata: &str) -> Option<(String, String)> {
    Some((value.to_string(), metadata.to_string()))
}

#[test]
fn items_are_written_as_they_stand_or_escaped() {
    assert_eq!(written(vec![item("a", "b", "")]).unwrap(), "a=b");
    assert_eq!(written(vec![item("a", " b\tc ", " p;q=1 ")]).unwrap(), "a=b%09c;p;q=1");
    assert_eq!(
        written(vec![item("a", "\"x\",;=\u{e9}\u{7f}%", "")]).unwrap(),
        "a=%22x%22%2C%3B%3D%C3%A9%7F%"
    );
    assert_eq!(written(vec![item("%41b", "c", "")]).unwrap(), "%41b=c");
    let both = written(vec![item("a", "1", "p"), item("no name", "x", "\n"), item("b", "2", "")]);
    assert!(["a=1;p,b=2", "b=2,a=1;p"].contains(&both.unwrap().as_str()));
}

#[test]
fn control_characters_keep_the_field_from_being_written() {
    assert_eq!(written(vec![item("a", "b", "p\nq"), item("c", "d", "")]), None);
    assert_eq!(written(vec![item("a", "b", "p\u{7f}q")]), None);
    assert_eq!(written(vec![item("a", "b", "\np\tq\n")]).unwrap(), "a=b;p\tq");
}

#[test]
fn a_field_that_is_not_legible_brings_no_baggage() {
    let foreign = vec![item("a", "b", "\u{e9}"), item("c", "d", "")];
    assert!(written(vec![item("a", "b", "\u{e9}")]).is_some());
    assert!(read_back(foreign).is_empty());
    let long = " x".repeat(3000);
    assert_eq!(written(vec![item("a", &long, "")]).unwrap().len(), 2 + 4 * 3000 - 3);
    assert!(read_back(vec![item("a", &long, "")]).is_empty());
    assert!(extract(&one_field("baggage", &format!("a={}", "x".repeat(8191)))).baggage.is_empty());
    assert_eq!(extract(&one_field("baggage", &format!("a={}", "x".repeat(8190)))).baggage.len(), 1);
}

#[test]
fn other_items_arrive_beside_commas_and_escaped_names() {
    let found = read_back(vec![
        item("user.id", "alice", ""),
        item("%41b", "x", ""),
        item("tenant", "t", "p"),
        item("odd", "y", "p,spill=1;q,no member"),
    ]);
    assert_eq!(found.get("user.id").cloned(), pair("alice", ""));
    assert_eq!(found.get("tenant").cloned(), pair("t", "p"));
    assert_eq!(found.get("Ab").cloned(), pair("x", ""));
    assert_eq!(found.get("odd").cloned(), pair("y", "p"));
    assert_eq!(found.get("spill").cloned(), pair("1", "q"));
    assert_eq!(found.len(), 5);
    let clash = read_back(vec![item("Ab", "1", ""), item("%41b", "2", "")]);
    assert_eq!(clash.len(), 1);
    assert!(clash.contains_key("Ab"));
}
