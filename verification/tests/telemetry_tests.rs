use hkb_event_listener::filter::EventFilter;
use hkb_event_listener::telemetry::{
    code_record, debug_record, destination, liveness_record, named_record, unsigned_text,
    EventPayload, ExtractedEvent, TelemetryForwarder,
};

#[test]
fn named_record_joins_identifier_and_event() {
    assert_eq!(named_record("c0000_7", "Attack01"), "c0000_7:Attack01");
    assert_eq!(named_record("", ""), ":");
    assert_eq!(named_record("a:b", "c"), "a:b:c");
}

#[test]
fn code_record_is_the_bare_decimal() {
    assert_eq!(code_record(42), "42");
    assert_eq!(code_record(0), "0");
    assert_eq!(code_record(7), "7");
    assert_eq!(code_record(10), "10");
    assert_eq!(code_record(1_000_000), "1000000");
    assert_eq!(code_record(9_876_543_210), "9876543210");
}

#[test]
fn code_record_of_a_negative_code_has_a_minus_sign() {
    assert_eq!(code_record(-1), "-1");
    assert_eq!(code_record(-42), "-42");
    assert_eq!(code_record(-100), "-100");
}

#[test]
fn code_record_at_the_limits() {
    assert_eq!(code_record(i64::MAX), "9223372036854775807");
    assert_eq!(code_record(i64::MIN), "-9223372036854775808");
}

#[test]
fn code_record_agrees_with_the_standard_formatting() {
    for code in [-1234567i64, -10, -9, 9, 11, 99, 100, 101, 65535, 4294967296] {
        assert_eq!(code_record(code), format!("{}", code));
    }
}

#[test]
fn unsigned_text_is_decimal() {
    assert_eq!(unsigned_text(0), "0");
    assert_eq!(unsigned_text(27072), "27072");
    assert_eq!(unsigned_text(u64::MAX), "18446744073709551615");
}

#[test]
fn destination_is_loopback_with_the_port() {
    assert_eq!(destination(27072), "127.0.0.1:27072");
    assert_eq!(destination(0), "127.0.0.1:0");
    assert_eq!(destination(65535), "127.0.0.1:65535");
}

#[test]
fn liveness_record_is_fixed() {
    assert_eq!(liveness_record(), "[hkb_event_listener] I'm alive!");
}

#[test]
fn debug_record_is_prefixed() {
    assert_eq!(debug_record("hello"), "debug:hello");
    assert_eq!(debug_record(""), "debug:");
}

#[test]
fn record_of_a_named_event() {
    let event = ExtractedEvent {
        identifier: Some("c0000_7".to_string()),
        payload: EventPayload::Name("Attack01".to_string()),
    };
    let filter = EventFilter::new("c0000".to_string());
    assert_eq!(event.record(&filter), Some("c0000_7:Attack01".to_string()));
}

#[test]
fn record_of_a_numbered_event() {
    let event = ExtractedEvent {
        identifier: Some("c0000_7".to_string()),
        payload: EventPayload::Code(42),
    };
    let filter = EventFilter::new("c0000".to_string());
    assert_eq!(event.record(&filter), Some("42".to_string()));
}

#[test]
fn event_that_the_filter_excludes_has_no_record() {
    let filter = EventFilter::new("c0000".to_string());
    let named = ExtractedEvent {
        identifier: Some("c4080_1".to_string()),
        payload: EventPayload::Name("Attack01".to_string()),
    };
    let numbered = ExtractedEvent {
        identifier: Some("c4080_1".to_string()),
        payload: EventPayload::Code(42),
    };
    assert_eq!(named.record(&filter), None);
    assert_eq!(numbered.record(&filter), None);
}

#[test]
fn event_without_identifier_has_no_record() {
    let event = ExtractedEvent { identifier: None, payload: EventPayload::Code(42) };
    assert_eq!(event.record(&EventFilter::new(String::new())), None);
    assert_eq!(event.record(&EventFilter::new("c0000".to_string())), None);
}

#[test]
fn forwarder_starts_with_its_liveness_datagram() {
    let (forwarder, datagram) = TelemetryForwarder::start(27072);
    assert_eq!(forwarder.destination_port(), 27072);
    assert_eq!(datagram.destination, "127.0.0.1:27072");
    assert_eq!(datagram.payload, "[hkb_event_listener] I'm alive!");
}

#[test]
fn forwarder_addresses_records_to_its_port() {
    let (forwarder, _) = TelemetryForwarder::start(4000);
    let datagram = forwarder.address("c0000_7:Attack01".to_string());
    assert_eq!(datagram.destination, "127.0.0.1:4000");
    assert_eq!(datagram.payload, "c0000_7:Attack01");
}

#[test]
fn forwarder_forwards_what_the_filter_admits() {
    let (forwarder, _) = TelemetryForwarder::start(4000);
    let filter = EventFilter::new("c0000".to_string());
    let admitted = ExtractedEvent {
        identifier: Some("c0000_1".to_string()),
        payload: EventPayload::Name("Jump".to_string()),
    };
    let excluded = ExtractedEvent {
        identifier: Some("c4080_1".to_string()),
        payload: EventPayload::Name("Jump".to_string()),
    };
    let datagram = forwarder.forward(&admitted, &filter).unwrap();
    assert_eq!(datagram.destination, "127.0.0.1:4000");
    assert_eq!(datagram.payload, "c0000_1:Jump");
    assert!(forwarder.forward(&excluded, &filter).is_none());
}

#[test]
fn three_calls_yield_liveness_and_two_datagrams_in_order() {
    let mut sent: Vec<String> = Vec::new();
    let (forwarder, liveness) = TelemetryForwarder::start(27072);
    sent.push(liveness.payload);
    let filter = EventFilter::new("c0000".to_string());
    for identifier in ["c0000_1", "c4080_1", "c0000_2"] {
        let event = ExtractedEvent {
            identifier: Some(identifier.to_string()),
            payload: EventPayload::Name("Attack01".to_string()),
        };
        if let Some(datagram) = forwarder.forward(&event, &filter) {
            sent.push(datagram.payload);
        }
    }
    assert_eq!(
        sent,
        vec![
            "[hkb_event_listener] I'm alive!".to_string(),
            "c0000_1:Attack01".to_string(),
            "c0000_2:Attack01".to_string(),
        ]
    );
}
