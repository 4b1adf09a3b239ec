use axum::http::{HeaderMap, HeaderName, HeaderValue};
use opentelemetry::trace::TraceState;
use otel_rust_demo::calls::{report, Report};
use otel_rust_demo::flow::Target;
use otel_rust_demo::propagation::SpanLink;
use otel_rust_demo::reply::health;
use otel_rust_demo::service::{otlp_endpoint, Endpoint, Service, SERVICE_VERSION};
use otel_rust_demo::{billing, frontend, gateway};

fn header_map(fields: &[(&str, &[u8])]) -> HeaderMap {
    let mut headers = HeaderMap::new();
    for (name, value) in fields {
        headers.append(
            HeaderName::from_bytes(name.as_bytes()).unwrap(),
            HeaderValue::from_bytes(value).unwrap(),
        );
    }
    headers
}

#[test]
fn fixed_replies() {
    let reply = health();
    assert_eq!((reply.status, reply.body.as_str()), (200, "ok"));
    let reply = frontend::hello();
    assert_eq!((reply.status, reply.body.as_str()), (200, "Hello, OpenTelemetry!"));
}

#[test]
fn a_forced_error_marks_the_span() {
    let failure = frontend::force_error();
    assert_eq!(failure.span_error, "internal error in otel-rust-demo");
    assert_eq!(failure.exception_type, "InternalError");
    assert_eq!(failure.exception_message, "simulated failure");
    assert_eq!((failure.reply.status, failure.reply.body.as_str()), (500, "simulated failure"));
}

#[test]
fn every_response_is_reported() {
    for status in [200u16, 404, 500] {
        match report(Some((status, Some("txn 1234".to_string())))) {
            Report::Responded { status: code, body } => {
                assert_eq!((code, body.as_str()), (status, "txn 1234"))
            }
            Report::Unavailable => panic!("responded"),
        }
    }
    match report(Some((200, None))) {
        Report::Responded { status, body } => assert_eq!((status, body.as_str()), (200, "")),
        Report::Unavailable => panic!("responded"),
    }
    assert!(matches!(report(None), Report::Unavailable));
}

#[test]
fn a_declined_payment_marks_the_span() {
    let declined = billing::force_error();
    assert_eq!(declined.span_error, "card declined by billing-service");
    assert_eq!(declined.exception_type, "CardDeclined");
    assert_eq!(declined.exception_message, "payment method rejected");
    assert_eq!(declined.reply.status, 402);
    assert_eq!(declined.reply.body, "card declined");
}

#[test]
fn services_are_set_up_apart() {
    assert_eq!(SERVICE_VERSION, "0.1.0");
    let services = [
        (Service::Frontend, "otel-rust-demo", "0.0.0.0:8080"),
        (Service::Billing, "billing-service", "0.0.0.0:8081"),
        (Service::Gateway, "payment-gateway", "0.0.0.0:8082"),
    ];
    for (service, name, address) in services {
        assert_eq!(service.name(), name);
        assert_eq!(service.listen_address(), address);
    }
}

fn served(service: Service) -> Vec<(&'static str, Endpoint)> {
    service.routes().iter().map(|route| (route.path, route.endpoint)).collect()
}

#[test]
fn endpoints_are_served() {
    assert_eq!(
        served(Service::Frontend),
        vec![
            ("/", Endpoint::Hello),
            ("/work", Endpoint::Work),
            ("/error", Endpoint::Failure),
            ("/health", Endpoint::Health),
            ("/metrics", Endpoint::Metrics),
        ]
    );
    assert_eq!(
        served(Service::Billing),
        vec![
            ("/charge", Endpoint::Charge),
            ("/error", Endpoint::Decline),
            ("/health", Endpoint::Health),
            ("/metrics", Endpoint::Metrics),
        ]
    );
    assert_eq!(
        served(Service::Gateway),
        vec![
            ("/process", Endpoint::Process),
            ("/health", Endpoint::Health),
            ("/metrics", Endpoint::Metrics),
        ]
    );
}

#[test]
fn settings_have_defaults() {
    assert_eq!(otlp_endpoint(None), "http://localhost:4317");
    assert_eq!(otlp_endpoint(Some("http://otel:4317".to_string())), "http://otel:4317");
    assert_eq!(otlp_endpoint(Some(String::new())), "");
    assert_eq!(Target::Charge.setting_name(), "BILLING_SERVICE_URL");
    assert_eq!(Target::Process.setting_name(), "PAYMENT_GATEWAY_URL");
    assert_eq!(Target::Charge.url(None), "http://localhost:8081/charge");
    assert_eq!(Target::Process.url(None), "http://localhost:8082/process");
    assert_eq!(
        Target::Process.url(Some("http://payment-gateway:8082".to_string())),
        "http://payment-gateway:8082/process"
    );
}

#[test]
fn a_request_to_the_gateway_carries_the_span() {
    let link = SpanLink {
        trace_id: 0x4bf92f3577b34da6a3ce929d0e0e4736,
        span_id: 0x00f067aa0ba902b7,
        flags: 1,
        trace_state: TraceState::default(),
    };
    let outgoing = Target::Process.request(None, &link, &vec![]);
    assert_eq!(outgoing.url, "http://localhost:8082/process");
    assert_eq!(
        outgoing.headers.get("traceparent").unwrap(),
        "00-4bf92f3577b34da6a3ce929d0e0e4736-00f067aa0ba902b7-01"
    );
    assert!(outgoing.headers.get("baggage").is_none());
}

#[test]
fn a_request_to_billing_gets_a_span() {
    let headers = header_map(&[
        ("traceparent", b"00-4bf92f3577b34da6a3ce929d0e0e4736-00f067aa0ba902b7-01"),
        ("baggage", b"user.id=alice,tenant=blue;p=1"),
        ("user-agent", b"curl/8.0"),
        ("user-agent", b"second"),
    ]);
    let span = billing::propagate_tracing(&headers, "/charge");
    let parent = span.incoming.parent.unwrap();
    assert_eq!(parent.trace_id, 0x4bf92f3577b34da6a3ce929d0e0e4736);
    assert_eq!(parent.span_id, 0x00f067aa0ba902b7);
    assert_eq!(parent.flags, 1);
    assert_eq!(span.user_id, "alice");
    assert_eq!(span.route, "/charge");
    assert_eq!(span.client, "curl/8.0");
    assert_eq!(span.other_items, vec![("tenant".to_string(), "blue".to_string())]);
    assert_eq!(span.incoming.baggage.len(), 2);
}

#[test]
fn a_bare_request_starts_a_trace_of_its_own() {
    let span = billing::propagate_tracing(&HeaderMap::new(), "/charge");
    assert!(span.incoming.parent.is_none());
    assert!(span.incoming.baggage.is_empty());
    assert_eq!(span.user_id, "unknown");
    assert_eq!(span.client, "unknown");
    assert!(span.other_items.is_empty());
    assert!(gateway::propagate_tracing(&HeaderMap::new()).parent.is_none());
}

#[test]
fn a_client_that_is_no_visible_text_is_unknown() {
    let headers = header_map(&[("user-agent", b"caf\xe9")]);
    assert_eq!(billing::propagate_tracing(&headers, "/").client, "unknown");
    let headers = header_map(&[("user-agent", b"")]);
    assert_eq!(billing::propagate_tracing(&headers, "/").client, "");
    let headers = header_map(&[("user-agent", b"a\tb c~")]);
    assert_eq!(billing::propagate_tracing(&headers, "/").client, "a\tb c~");
}
