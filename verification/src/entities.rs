//! The span model of the tracing side: validated identifiers, timestamps
//! and durations in epoch microseconds, and the builder that turns an
//! entered span into a finished one.

use vstd::prelude::*;

use crate::record::epoch_nanos_now;

verus! {

/// Why building or validating a span component failed.
#[derive(Debug, Clone, PartialEq, Eq)]
pub struct SpanGenerationError(String);

impl SpanGenerationError {
    /// A human-readable description of the failure.
    pub fn message(&self) -> String {
        self.0.clone()
    }
}

/// A component that converts to and from a plain representation, with
/// validation on the way in.
pub trait ParseableObject<T>: Sized {
    /// Validate `input` and build the component.
    fn parse(input: T) -> Result<Self, SpanGenerationError>;

    /// Hand the plain representation back out.
    fn extract(&self) -> T;
}

/// A lower-case hexadecimal digit.
pub open spec fn is_lower_hex_char(c: char) -> bool {
    ('a' <= c && c <= 'f') || ('0' <= c && c <= '9')
}

/// Whether the 16 characters of `s` starting at `i` are all lower-case
/// hexadecimal digits.
pub open spec fn hex_run_at(s: Seq<char>, i: int) -> bool {
    forall|j: int| i <= j < i + 16 ==> is_lower_hex_char(s[j])
}

/// Whether `s` holds a run of 16 consecutive lower-case hexadecimal
/// characters: what the identifier patterns of the span wire format ask
/// for of an unanchored match.
pub open spec fn has_hex_run(s: Seq<char>) -> bool {
    exists|i: int| 0 <= i && i + 16 <= s.len() && #[trigger] hex_run_at(s, i)
}

/// Whether every character of `s` is a lower-case hexadecimal digit.
pub open spec fn all_lower_hex(s: Seq<char>) -> bool {
    forall|j: int| 0 <= j < s.len() ==> is_lower_hex_char(s[j])
}

/// Scan for a run of 16 consecutive lower-case hexadecimal characters.
fn contains_hex_run(s: &String) -> (b: bool)
    ensures
        b == has_hex_run(s@),
{
    let n = s.as_str().unicode_len();
    let mut i: usize = 0;
    let mut run: usize = 0;
    while i < n
        invariant
            n == s@.len(),
            0 <= i <= n,
            run <= i,
            forall|j: int| i - run <= j < i ==> is_lower_hex_char(s@[j]),
            run < 16,
            forall|start: int|
                0 <= start && start + 16 <= i ==> !(#[trigger] hex_run_at(s@, start)),
            i >= run + 1 ==> !is_lower_hex_char(s@[i - run - 1]),
        decreases n - i,
    {
        let c = s.as_str().get_char(i);
        let hex = ('a' <= c && c <= 'f') || ('0' <= c && c <= '9');
        if hex {
            run = run + 1;
            if run == 16 {
                proof {
                    assert(hex_run_at(s@, i + 1 - 16));
                }
                return true;
            }
        } else {
            run = 0;
        }
        proof {
            assert forall|start: int| 0 <= start && start + 16 <= i + 1
                implies !(#[trigger] hex_run_at(s@, start)) by {
                if start + 16 <= i {
                } else {
                    // a full run ending at i + 1 would mean 16 hexadecimal
                    // characters in a row, which the scan reports above
                    if hex_run_at(s@, start) {
                        assert(start == i + 1 - 16);
                        if hex {
                            assert(is_lower_hex_char(s@[start]));
                            assert(start >= i + 1 - (run as int));
                            assert(false);
                        } else {
                            assert(is_lower_hex_char(s@[i as int]));
                            assert(false);
                        }
                    }
                }
            };
        }
        i = i + 1;
    }
    proof {
        if has_hex_run(s@) {
            let start = choose|start: int|
                0 <= start && start + 16 <= s@.len() && #[trigger] hex_run_at(s@, start);
            assert(!hex_run_at(s@, start));
        }
    }
    false
}

/// Relies on uuid's `Uuid::new_v4` and the lower-case simple-format
/// encoding: thirty-two lower-case hexadecimal characters. Which ones
/// depends on the randomness drawn, so nothing else is promised of any
/// outcome; drawing it relies on the system's randomness source being
/// available.
#[verifier::external_body]
fn fresh_uuid_simple_lower() -> (r: String)
    ensures
        r@.len() == 32,
        all_lower_hex(r@),
{
    let id = uuid::Uuid::new_v4();
    let mut buf = uuid::Uuid::encode_buffer();
    let encoded: &str = id.to_simple().encode_lower(&mut buf);
    encoded.to_string()
}

/// Concatenate freshly drawn 32-character identifiers until at least
/// `min_length` characters are available.
fn uuid_string(min_length: usize) -> (r: String)
    requires
        min_length + 32 <= usize::MAX,
    ensures
        min_length <= r@.len(),
        r@.len() <= min_length + 31,
        all_lower_hex(r@),
{
    let mut ret = String::new();
    let mut len: usize = 0;
    while len < min_length
        invariant
            min_length + 32 <= usize::MAX,
            len == ret@.len(),
            all_lower_hex(ret@),
            len < min_length + 32,
        decreases min_length + 32 - len,
    {
        let chunk = fresh_uuid_simple_lower();
        ret.append(chunk.as_str());
        proof {
            assert forall|j: int| 0 <= j < ret@.len() implies is_lower_hex_char(ret@[j]) by {
            };
        }
        len = len + 32;
    }
    ret
}

/// A 32-character trace identifier, validated to match the wire format's
/// pattern: it must contain a run of at least 16 lower-case hexadecimal
/// characters, matched anywhere in the string, as an unanchored pattern
/// does.
#[derive(Debug, Clone, PartialEq, Eq)]
pub struct TraceId {
    id: String,
}

impl TraceId {
    /// The identifier's characters.
    pub closed spec fn spec_id(self) -> Seq<char> {
        self.id@
    }

    /// Draw a fresh identifier of 32 hexadecimal characters.
    pub fn generate_new() -> (r: Result<TraceId, SpanGenerationError>)
        ensures
            r.is_ok(),
            r.is_ok() ==> r.unwrap().spec_id().len() == 32 && all_lower_hex(r.unwrap().spec_id()),
    {
        let s = uuid_string(32);
        let taken = s.as_str().substring_char(0, 32).to_owned();
        proof {
            assert forall|j: int| 0 <= j < taken@.len() implies is_lower_hex_char(taken@[j]) by {
                assert(taken@[j] == s@[j]);
            };
            assert(hex_run_at(taken@, 0));
            assert(has_hex_run(taken@));
        }
        Self::parse(taken)
    }
}

impl ParseableObject<String> for TraceId {
    /// Accept exactly the identifiers the pattern matches.
    fn parse(id: String) -> (r: Result<TraceId, SpanGenerationError>)
        ensures
            r.is_ok() <==> has_hex_run(id@),
            r.is_ok() ==> r.unwrap().spec_id() == id@,
    {
        if contains_hex_run(&id) {
            Ok(TraceId { id })
        } else {
            Err(SpanGenerationError(String::from_str("a trace id must contain its hex pattern")))
        }
    }

    fn extract(&self) -> (r: String)
        ensures
            r@ == self.spec_id(),
    {
        self.id.clone()
    }
}

/// A 16-character span identifier, validated like [`TraceId`].
#[derive(Debug, Clone, PartialEq, Eq)]
pub struct Id {
    id: String,
}

impl Id {
    /// The identifier's characters.
    pub closed spec fn spec_id(self) -> Seq<char> {
        self.id@
    }

    /// Draw a fresh identifier of 16 hexadecimal characters.
    pub fn generate_new() -> (r: Result<Id, SpanGenerationError>)
        ensures
            r.is_ok(),
            r.is_ok() ==> r.unwrap().spec_id().len() == 16 && all_lower_hex(r.unwrap().spec_id()),
    {
        let s = uuid_string(16);
        let taken = s.as_str().substring_char(0, 16).to_owned();
        proof {
            assert forall|j: int| 0 <= j < taken@.len() implies is_lower_hex_char(taken@[j]) by {
                assert(taken@[j] == s@[j]);
            };
            assert(hex_run_at(taken@, 0));
            assert(has_hex_run(taken@));
        }
        Self::parse(taken)
    }
}

impl ParseableObject<String> for Id {
    /// Accept exactly the identifiers the pattern matches.
    fn parse(id: String) -> (r: Result<Id, SpanGenerationError>)
        ensures
            r.is_ok() <==> has_hex_run(id@),
            r.is_ok() ==> r.unwrap().spec_id() == id@,
    {
        if contains_hex_run(&id) {
            Ok(Id { id })
        } else {
            Err(SpanGenerationError(String::from_str("an id must contain its hex pattern")))
        }
    }

    fn extract(&self) -> (r: String)
        ensures
            r@ == self.spec_id(),
    {
        self.id.clone()
    }
}

/// The identifier of a span's parent.
#[derive(Debug, Clone, PartialEq, Eq)]
pub struct ParentId(pub Id);

/// The role a span plays in an exchange.
#[derive(Debug, Clone, PartialEq, Eq)]
pub enum Kind {
    /// The span covers a client-side call.
    Client,
    /// The span covers a server-side handler.
    Server,
    /// The span covers a message producer.
    Producer,
    /// The span covers a message consumer.
    Consumer,
}

impl ParseableObject<String> for Kind {
    /// Accept exactly the four upper-case role names.
    fn parse(kind: String) -> (r: Result<Kind, SpanGenerationError>)
        ensures
            r.is_ok() <==> (kind@ == "CLIENT"@ || kind@ == "SERVER"@ || kind@ == "PRODUCER"@
                || kind@ == "CONSUMER"@),
            r.is_ok() ==> r.unwrap() == (if kind@ == "CLIENT"@ {
                Kind::Client
            } else if kind@ == "SERVER"@ {
                Kind::Server
            } else if kind@ == "PRODUCER"@ {
                Kind::Producer
            } else {
                Kind::Consumer
            }),
    {
        if kind == String::from_str("CLIENT") {
            Ok(Kind::Client)
        } else if kind == String::from_str("SERVER") {
            Ok(Kind::Server)
        } else if kind == String::from_str("PRODUCER") {
            Ok(Kind::Producer)
        } else if kind == String::from_str("CONSUMER") {
            Ok(Kind::Consumer)
        } else {
            Err(SpanGenerationError(String::from_str("unrecognized span kind")))
        }
    }

    fn extract(&self) -> (r: String)
        ensures
            self is Client ==> r@ == "CLIENT"@,
            self is Server ==> r@ == "SERVER"@,
            self is Producer ==> r@ == "PRODUCER"@,
            self is Consumer ==> r@ == "CONSUMER"@,
    {
        match self {
            Kind::Client => String::from_str("CLIENT"),
            Kind::Server => String::from_str("SERVER"),
            Kind::Producer => String::from_str("PRODUCER"),
            Kind::Consumer => String::from_str("CONSUMER"),
        }
    }
}

/// A span duration in microseconds; the wire format's minimum value is one.
#[derive(Debug, Clone, PartialEq, Eq, Structural)]
pub struct Duration(i64);

impl Duration {
    /// The duration in microseconds.
    pub closed spec fn spec_micros(self) -> i64 {
        self.0
    }

    /// The duration from `timestamp` to now. The clock decides the value,
    /// so all that is promised is the validation: a nonpositive or
    /// overflowing distance is rejected, never returned.
    pub fn since(timestamp: ZipkinTimestamp) -> (r: Result<Duration, SpanGenerationError>)
        ensures
            r.is_ok() ==> r.unwrap().spec_micros() > 0,
    {
        let now = ZipkinTimestamp::now();
        let diff: i128 = now.as_micros() as i128 - timestamp.as_micros() as i128;
        if diff <= 0 {
            return Err(SpanGenerationError(String::from_str("invalid duration: the minimum is 1")));
        }
        if diff > i64::MAX as i128 {
            return Err(SpanGenerationError(String::from_str("duration out of range")));
        }
        Self::parse(diff as i64)
    }
}

impl ParseableObject<i64> for Duration {
    /// Accept exactly the positive durations.
    fn parse(duration: i64) -> (r: Result<Duration, SpanGenerationError>)
        ensures
            r.is_ok() <==> duration > 0,
            r.is_ok() ==> r.unwrap().spec_micros() == duration,
    {
        if duration <= 0 {
            Err(SpanGenerationError(String::from_str("invalid duration: the minimum is 1")))
        } else {
            Ok(Duration(duration))
        }
    }

    fn extract(&self) -> (r: i64)
        ensures
            r == self.spec_micros(),
    {
        self.0
    }
}

/// A port number; the wire format asks that zero never be sent.
#[derive(Debug, Clone, PartialEq, Eq, Structural)]
pub struct Port(i64);

impl Port {
    /// The port value.
    pub closed spec fn spec_port(self) -> i64 {
        self.0
    }
}

impl ParseableObject<i64> for Port {
    /// Accept exactly the nonzero ports.
    fn parse(port: i64) -> (r: Result<Port, SpanGenerationError>)
        ensures
            r.is_ok() <==> port != 0,
            r.is_ok() ==> r.unwrap().spec_port() == port,
    {
        if port == 0 {
            Err(SpanGenerationError(String::from_str("invalid port: cannot be zero")))
        } else {
            Ok(Port(port))
        }
    }

    fn extract(&self) -> (r: i64)
        ensures
            r == self.spec_port(),
    {
        self.0
    }
}

/// One end of the exchange a span covers.
#[derive(Debug, Clone, PartialEq, Eq)]
pub struct Endpoint {
    /// The logical service name, if known.
    pub service_name: Option<String>,
    /// The IPv4 address, if known.
    pub ipv4: Option<String>,
    /// The IPv6 address, if known.
    pub ipv6: Option<String>,
    /// The port, if known.
    pub port: Option<Port>,
}

/// A timestamped note attached to a span.
#[derive(Debug, Clone, PartialEq, Eq)]
pub struct Annotation {
    /// Epoch microseconds of the moment noted.
    pub timestamp: i64,
    /// What happened.
    pub value: String,
}

/// An instant in epoch microseconds, clamped to the representable
/// nonnegative range.
#[derive(Debug, Clone, Copy, PartialEq, Eq, Structural)]
pub struct ZipkinTimestamp(i64);

impl ZipkinTimestamp {
    /// The instant in epoch microseconds.
    pub closed spec fn spec_micros(self) -> i64 {
        self.0
    }

    /// Now, per the wall clock; never negative.
    pub fn now() -> (t: ZipkinTimestamp)
        ensures
            t.spec_micros() >= 0,
    {
        let nanos = epoch_nanos_now();
        let micros = nanos / 1000;
        if micros > i64::MAX as u128 {
            ZipkinTimestamp(i64::MAX)
        } else {
            ZipkinTimestamp(micros as i64)
        }
    }

    /// The instant in epoch microseconds.
    pub fn as_micros(&self) -> (r: i64)
        ensures
            r == self.spec_micros(),
    {
        self.0
    }
}

/// An under-construction span: entered with a timestamp, annotated and
/// tagged while current, and finished into a [`ZipkinSpan`] on exit.
#[derive(Debug)]
pub struct SpanBuilder {
    /// The span's own identifier, drawn at construction.
    pub id: Id,
    /// The span's name, if any.
    pub name: Option<String>,
    /// The parent span, if any.
    pub parent_id: Option<ParentId>,
    /// The moment the span was entered, if it currently is.
    pub timestamp: Option<ZipkinTimestamp>,
    /// The notes collected so far.
    pub annotations: Vec<Annotation>,
    /// The key/value tags collected so far, insertion order kept.
    pub tags: Vec<(String, Option<String>)>,
}

impl SpanBuilder {
    /// A builder with a fresh identifier, the given name and parent, and
    /// one vacant tag per field name.
    pub fn new(name: Option<String>, parent_id: Option<ParentId>, fields: Vec<String>) -> (r:
        Result<SpanBuilder, SpanGenerationError>)
        ensures
            r.is_ok(),
            r.is_ok() ==> {
                &&& r.unwrap().timestamp.is_none()
                &&& r.unwrap().annotations@.len() == 0
                &&& r.unwrap().tags@.len() == fields@.len()
                &&& forall|i: int|
                    0 <= i < fields@.len() ==> (#[trigger] r.unwrap().tags@[i]).0 == fields@[i]
                        && r.unwrap().tags@[i].1.is_none()
            },
    {
        let id = match Id::generate_new() {
            Ok(id) => id,
            Err(e) => {
                return Err(e);
            },
        };
        let ghost fields_view = fields@;
        let mut tags: Vec<(String, Option<String>)> = Vec::new();
        let mut rest = fields;
        let mut taken: usize = 0;
        let n = rest.len();
        proof {
            assert(rest@ =~= fields_view.skip(0));
        }
        while taken < n
            invariant
                fields_view.len() == n,
                0 <= taken <= n,
                rest@ == fields_view.skip(taken as int),
                tags@.len() == taken,
                forall|i: int|
                    0 <= i < taken ==> (#[trigger] tags@[i]).0 == fields_view[i]
                        && tags@[i].1.is_none(),
            decreases n - taken,
        {
            let field = rest.remove(0);
            proof {
                assert(fields_view.skip(taken as int)[0] == fields_view[taken as int]);
                assert(rest@ =~= fields_view.skip(taken + 1));
            }
            tags.push((field, None));
            taken = taken + 1;
        }
        Ok(SpanBuilder { id, name, parent_id, timestamp: None, annotations: Vec::new(), tags })
    }

    /// The span's identifier.
    pub fn id(&self) -> (r: Id)
        ensures
            r == self.id,
    {
        Id { id: self.id.id.clone() }
    }

    /// Enter the span: record the moment it became current.
    pub fn enter(&mut self)
        ensures
            final(self).timestamp.is_some(),
            final(self).id == old(self).id,
            final(self).annotations == old(self).annotations,
            final(self).tags == old(self).tags,
    {
        self.timestamp = Some(ZipkinTimestamp::now());
    }

    /// Exit the span: finish it into a [`ZipkinSpan`] under `trace_id` and
    /// clear the entry timestamp. Fails when the span was never entered, or
    /// when the clock yields no positive duration.
    pub fn exit(&mut self, trace_id: TraceId) -> (r: Result<ZipkinSpan, SpanGenerationError>)
        ensures
            old(self).timestamp.is_none() ==> r.is_err(),
            r.is_ok() ==> final(self).timestamp.is_none(),
            r.is_err() ==> final(self).timestamp == old(self).timestamp,
            final(self).id == old(self).id,
            final(self).annotations == old(self).annotations,
            final(self).tags == old(self).tags,
    {
        let start = match &self.timestamp {
            Some(start) => *start,
            None => {
                return Err(
                    SpanGenerationError(
                        String::from_str("expected a timestamp to have been set upon enter"),
                    ),
                );
            },
        };
        let duration = match Duration::since(start) {
            Ok(duration) => duration,
            Err(e) => {
                return Err(e);
            },
        };
        let ret = match ZipkinSpan::build(
            trace_id,
            self.id.clone(),
            self.name.clone(),
            self.parent_id.clone(),
            start,
            duration,
            self.annotations.clone(),
            self.tags.clone(),
        ) {
            Ok(ret) => ret,
            Err(e) => {
                return Err(e);
            },
        };
        self.timestamp = None;
        Ok(ret)
    }
}

/// A finished span, every field fixed, ready for the exporter.
#[derive(Debug, Clone)]
pub struct ZipkinSpan {
    /// The trace this span belongs to.
    pub trace_id: TraceId,
    /// The span's own name, if any.
    pub name: Option<String>,
    /// The parent span, if any.
    pub parent_id: Option<ParentId>,
    /// The span's identifier.
    pub id: Id,
    /// The role the span played, if known.
    pub kind: Option<Kind>,
    /// The moment the span was entered.
    pub timestamp: ZipkinTimestamp,
    /// How long the span lasted.
    pub duration: Duration,
    /// Whether the span is marked for debugging.
    pub debug: bool,
    /// Whether the span is shared with another reporter.
    pub shared: bool,
    /// The local end of the exchange, if known.
    pub local_endpoint: Option<Endpoint>,
    /// The remote end of the exchange, if known.
    pub remote_endpoint: Option<Endpoint>,
    /// The notes attached to the span.
    pub annotations: Vec<Annotation>,
    /// The key/value tags attached to the span.
    pub tags: Vec<(String, Option<String>)>,
}

impl ZipkinSpan {
    /// Assemble a finished span from its parts; the optional fields the
    /// builder does not track start out absent.
    pub fn build(
        trace_id: TraceId,
        id: Id,
        name: Option<String>,
        parent_id: Option<ParentId>,
        timestamp: ZipkinTimestamp,
        duration: Duration,
        annotations: Vec<Annotation>,
        tags: Vec<(String, Option<String>)>,
    ) -> (r: Result<ZipkinSpan, SpanGenerationError>)
        ensures
            r.is_ok(),
            r.is_ok() ==> {
                &&& r.unwrap().trace_id == trace_id
                &&& r.unwrap().id == id
                &&& r.unwrap().name == name
                &&& r.unwrap().parent_id == parent_id
                &&& r.unwrap().kind.is_none()
                &&& r.unwrap().timestamp == timestamp
                &&& r.unwrap().duration == duration
                &&& r.unwrap().debug == false
                &&& r.unwrap().shared == false
                &&& r.unwrap().local_endpoint.is_none()
                &&& r.unwrap().remote_endpoint.is_none()
                &&& r.unwrap().annotations == annotations
                &&& r.unwrap().tags == tags
            },
    {
        Ok(
            ZipkinSpan {
                trace_id,
                name,
                parent_id,
                id,
                kind: None,
                timestamp,
                duration,
                debug: false,
                shared: false,
                local_endpoint: None,
                remote_endpoint: None,
                annotations,
                tags,
            },
        )
    }
}

/// The error a span sink reports when posting fails.
#[derive(Debug, Clone, PartialEq, Eq)]
pub struct SpanSinkError(pub String);

} // verus!
