use opentelemetry::metrics::MeterProvider;
use opentelemetry::KeyValue;
use opentelemetry_sdk::metrics::SdkMeterProvider;
use otel_rust_demo::metrics::{
    checked_metrics_handler, metrics_handler, metrics_reply, Attributes, Instrument,
    TrackedRequest, Update,
};
use prometheus::proto::{Counter, Metric, MetricFamily, MetricType};
use prometheus::Registry;
use std::time::Duration;

fn pairs(attributes: Attributes) -> Vec<(&'static str, String)> {
    attributes.pairs().into_iter().collect()
}

fn expected(status: &str) -> Vec<(&'static str, String)> {
    vec![
        ("method", "GET".to_string()),
        ("path", "/work".to_string()),
        ("status", status.to_string()),
    ]
}

fn family(name: &str, kind: MetricType, values: &[f64]) -> MetricFamily {
    let mut family = MetricFamily::default();
    family.set_name(name.to_string());
    family.set_field_type(kind);
    let metrics = values
        .iter()
        .map(|value| {
            let mut counter = Counter::default();
            counter.set_value(*value);
            let mut metric = Metric::default();
            metric.set_counter(counter);
            metric
        })
        .collect::<Vec<_>>();
    family.set_metric(metrics);
    family
}

#[test]
fn a_request_is_recorded() {
    let (request, updates) = TrackedRequest::start("GET".to_string(), "/work".to_string());
    assert_eq!(updates.len(), 1);
    assert!(matches!(updates[0], Update::InFlight(1)));
    let mut updates = request.end(200, Duration::from_millis(42)).into_iter();
    assert!(matches!(updates.next(), Some(Update::InFlight(-1))));
    match updates.next() {
        Some(Update::Requests(count, attributes)) => {
            assert_eq!(count, 1);
            assert_eq!(pairs(attributes), expected("200"));
        }
        _ => panic!("not counted"),
    }
    match updates.next() {
        Some(Update::Duration(elapsed, attributes)) => {
            assert_eq!(elapsed, Duration::from_millis(42));
            assert_eq!(pairs(attributes), expected("200"));
        }
        _ => panic!("not timed"),
    }
    assert!(updates.next().is_none());
}

#[test]
fn requests_side_by_side_are_all_counted() {
    let mut in_flight = 0;
    let mut counted = 0;
    let mut open = Vec::new();
    let mut apply = |updates: Vec<Update>| {
        for update in updates {
            match update {
                Update::InFlight(change) => in_flight += change,
                Update::Requests(count, _) => counted += count,
                Update::Duration(_, _) => {}
            }
        }
        (in_flight, counted)
    };
    for i in 0..3 {
        let (request, updates) = TrackedRequest::start("GET".to_string(), format!("/{i}"));
        assert_eq!(apply(updates), (i + 1, 0));
        open.push(request);
    }
    assert_eq!(apply(open.remove(1).end(500, Duration::ZERO)), (2, 1));
    assert_eq!(apply(open.remove(0).end(200, Duration::ZERO)), (1, 2));
    assert_eq!(apply(open.remove(0).end(402, Duration::ZERO)), (0, 3));
}

#[test]
fn a_request_that_is_given_up_is_no_longer_in_flight() {
    let (_, started) = TrackedRequest::start("GET".to_string(), "/".to_string());
    let (request, updates) = TrackedRequest::start("GET".to_string(), "/work".to_string());
    let mut in_flight = 0;
    for update in started.into_iter().chain(updates).chain(request.abandon()) {
        match update {
            Update::InFlight(change) => in_flight += change,
            _ => panic!("nothing else is recorded"),
        }
    }
    assert_eq!(in_flight, 1);
}

#[test]
fn requests_are_counted_under_their_attributes() {
    let mut seen = Vec::new();
    for (path, status, millis) in [("/a", 200, 1), ("/a", 500, 2), ("/b", 200, 3), ("/a", 200, 4)] {
        let (request, _) = TrackedRequest::start("GET".to_string(), path.to_string());
        for update in request.end(status, Duration::from_millis(millis)) {
            if let Update::Duration(elapsed, attributes) = update {
                seen.push((pairs(attributes), elapsed.as_millis()));
            }
        }
    }
    let under = |path: &str, status: &str| -> Vec<u128> {
        seen.iter()
            .filter(|(pairs, _)| pairs[1].1 == path && pairs[2].1 == status)
            .map(|(_, millis)| *millis)
            .collect()
    };
    assert_eq!(under("/a", "200"), vec![1, 4]);
    assert_eq!(under("/a", "500"), vec![2]);
    assert_eq!(under("/b", "200"), vec![3]);
    assert!(under("/b", "500").is_empty());
}

#[test]
fn instruments_are_named() {
    assert_eq!(Instrument::Requests.name(), "http_requests");
    assert_eq!(Instrument::Duration.name(), "http_request_duration_seconds");
    assert_eq!(Instrument::InFlight.name(), "http_requests_in_flight");
    assert_eq!(Instrument::Requests.description(), "Total number of HTTP requests received");
    assert_eq!(Instrument::Duration.description(), "HTTP request duration in seconds");
    assert_eq!(
        Instrument::InFlight.description(),
        "Number of HTTP requests currently being handled"
    );
}

#[test]
fn metrics_are_exposed_as_text() {
    let families = vec![family("jobs", MetricType::COUNTER, &[3.0])];
    let exposed = metrics_handler(&families).ok().unwrap();
    assert_eq!(exposed.status, 200);
    assert_eq!(exposed.content_type, "text/plain; version=0.0.4");
    assert_eq!(String::from_utf8(exposed.body).unwrap(), "# TYPE jobs counter\njobs 3\n");
    let exposed = metrics_handler(&vec![]).ok().unwrap();
    assert!(exposed.body.is_empty());
}

#[test]
fn incomplete_metrics_are_refused() {
    let plain = || family("jobs", MetricType::COUNTER, &[1.0]);
    let empty = || family("x", MetricType::GAUGE, &[]);
    let nameless = || family("", MetricType::COUNTER, &[1.0]);
    let no_metrics = "MetricFamily has no metrics: ";
    let no_name = "MetricFamily has no name: ";
    for (families, message) in [
        (vec![empty()], no_metrics),
        (vec![nameless()], no_name),
        (vec![family("", MetricType::COUNTER, &[])], no_metrics),
        (vec![plain(), empty(), nameless()], no_metrics),
        (vec![plain(), nameless(), empty()], no_name),
    ] {
        let failure = metrics_handler(&families).err().unwrap();
        assert_eq!(failure.reply.status, 500);
        assert_eq!(failure.reply.body, "failed to encode metrics");
        match failure.cause {
            prometheus::Error::Msg(text) => assert!(text.starts_with(message)),
            _ => panic!("the cause has a message"),
        }
        assert!(checked_metrics_handler(&families).unwrap().is_err());
    }
}

#[test]
fn metrics_without_a_format_are_found() {
    let untyped = || family("u", MetricType::UNTYPED, &[1.0]);
    let incomplete = || family("", MetricType::COUNTER, &[1.0]);
    let plain = || family("jobs", MetricType::COUNTER, &[1.0]);
    assert!(checked_metrics_handler(&vec![untyped()]).is_none());
    assert!(checked_metrics_handler(&vec![plain(), untyped(), incomplete()]).is_none());
    assert!(checked_metrics_handler(&vec![incomplete(), untyped()]).unwrap().is_err());
    assert!(checked_metrics_handler(&vec![family("u", MetricType::UNTYPED, &[])])
        .unwrap()
        .is_err());
    assert!(checked_metrics_handler(&vec![plain()]).unwrap().is_ok());
}

#[test]
fn the_reply_follows_the_encoding() {
    let exposed = metrics_reply(Ok(vec![1, 2, 3])).ok().unwrap();
    assert_eq!((exposed.status, exposed.body), (200, vec![1, 2, 3]));
    let failure = metrics_reply(Err(prometheus::Error::AlreadyReg)).err().unwrap();
    assert_eq!(failure.reply.status, 500);
    assert!(matches!(failure.cause, prometheus::Error::AlreadyReg));
}

#[test]
fn the_request_counter_is_exported_with_its_suffix() {
    let registry = Registry::new();
    let exporter =
        opentelemetry_prometheus::exporter().with_registry(registry.clone()).build().unwrap();
    let provider = SdkMeterProvider::builder().with_reader(exporter).build();
    let counter = provider.meter("test").u64_counter(Instrument::Requests.name()).build();
    let (request, _) = TrackedRequest::start("GET".to_string(), "/work".to_string());
    for update in request.end(200, Duration::ZERO) {
        if let Update::Requests(count, attributes) = update {
            let attributes: Vec<KeyValue> =
                attributes.pairs().into_iter().map(|(k, v)| KeyValue::new(k, v)).collect();
            counter.add(count, &attributes);
        }
    }
    let exposed = checked_metrics_handler(&registry.gather()).unwrap().ok().unwrap();
    let text = String::from_utf8(exposed.body).unwrap();
    let line = text.lines().find(|line| line.starts_with("http_requests_total{")).unwrap();
    assert!(line.contains("method=\"GET\""));
    assert!(line.contains("path=\"/work\""));
    assert!(line.contains("status=\"200\""));
    assert!(line.ends_with(" 1"));
}
