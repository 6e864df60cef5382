//! The span model: identifier validation, kinds, durations, ports, and the
//! builder's enter/exit cycle.

use thrift_ffi::entities::Duration;
use thrift_ffi::entities::Id;
use thrift_ffi::entities::Kind;
use thrift_ffi::entities::ParseableObject;
use thrift_ffi::entities::Port;
use thrift_ffi::entities::SpanBuilder;
use thrift_ffi::entities::TraceId;
use thrift_ffi::entities::ZipkinTimestamp;

#[test]
fn trace_id_accepts_the_hex_pattern() {
    let ok = TraceId::parse(String::from("0123456789abcdef0123456789abcdef"));
    assert!(ok.is_ok());
    assert_eq!(ok.unwrap().extract(), "0123456789abcdef0123456789abcdef");
    // an embedded run matches the unanchored pattern too
    assert!(TraceId::parse(String::from("XX0123456789abcdefXX")).is_ok());
    assert!(TraceId::parse(String::from("not-hex-at-all")).is_err());
    assert!(TraceId::parse(String::from("0123456789abcde")).is_err());
}

#[test]
fn id_generation_always_validates() {
    let id = Id::generate_new().unwrap();
    let text = id.extract();
    assert_eq!(text.len(), 16);
    for c in text.chars() {
        assert!(('a'..='f').contains(&c) || ('0'..='9').contains(&c));
    }
    let trace = TraceId::generate_new().unwrap();
    assert_eq!(trace.extract().len(), 32);
}

#[test]
fn kind_parses_the_four_role_names() {
    assert_eq!(Kind::parse(String::from("CLIENT")).unwrap(), Kind::Client);
    assert_eq!(Kind::parse(String::from("SERVER")).unwrap(), Kind::Server);
    assert_eq!(Kind::parse(String::from("PRODUCER")).unwrap(), Kind::Producer);
    assert_eq!(Kind::parse(String::from("CONSUMER")).unwrap(), Kind::Consumer);
    assert!(Kind::parse(String::from("client")).is_err());
    assert_eq!(Kind::Producer.extract(), "PRODUCER");
}

#[test]
fn duration_must_be_positive() {
    assert!(Duration::parse(0).is_err());
    assert!(Duration::parse(-5).is_err());
    let d = Duration::parse(125).unwrap();
    assert_eq!(d.extract(), 125);
}

#[test]
fn port_must_be_nonzero() {
    assert!(Port::parse(0).is_err());
    assert_eq!(Port::parse(9411).unwrap().extract(), 9411);
}

#[test]
fn span_builder_enter_exit_produces_a_span() {
    let trace = TraceId::generate_new().unwrap();
    let mut builder = SpanBuilder::new(
        Some(String::from("request")),
        None,
        vec![String::from("field_a"), String::from("field_b")],
    )
    .unwrap();
    assert_eq!(builder.tags.len(), 2);
    assert!(builder.timestamp.is_none());

    // exiting before entering is the error the builder reports
    assert!(builder.exit(trace.clone()).is_err());

    builder.enter();
    let entered = builder.timestamp.clone().unwrap();
    // wait for the clock to pass the entry microsecond, without sleeping
    loop {
        if ZipkinTimestamp::now().as_micros() > entered.as_micros() {
            break;
        }
    }
    let span = builder.exit(trace.clone()).unwrap();
    assert!(builder.timestamp.is_none());
    assert_eq!(span.name, Some(String::from("request")));
    assert!(span.duration.extract() >= 1);
    assert_eq!(span.tags.len(), 2);
}
