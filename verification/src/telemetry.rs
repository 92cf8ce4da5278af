//! Shaping the records that are sent to the listener.
//!
//! Nothing is transmitted here. Each function returns the datagram that the
//! caller is to send, fire and forget, to the destination it names.

use crate::filter::{spec_includes_recovered, EventFilter};
use crate::text::text_view;
use vstd::prelude::*;
use vstd::string::StringExecFns;

verus! {

/// The decimal digit for a number below ten.
pub open spec fn digit(d: int) -> char {
    if d == 0 {
        '0'
    } else if d == 1 {
        '1'
    } else if d == 2 {
        '2'
    } else if d == 3 {
        '3'
    } else if d == 4 {
        '4'
    } else if d == 5 {
        '5'
    } else if d == 6 {
        '6'
    } else if d == 7 {
        '7'
    } else if d == 8 {
        '8'
    } else {
        '9'
    }
}

/// The decimal digits of a natural number, most significant first, without
/// leading zeros.
pub open spec fn decimal_digits(n: nat) -> Seq<char>
    decreases n,
{
    if n < 10 {
        seq![digit(n as int)]
    } else {
        decimal_digits(n / 10).push(digit((n % 10) as int))
    }
}

/// The decimal text of an integer, with a minus sign in front of a negative one.
pub open spec fn decimal(value: int) -> Seq<char> {
    if value < 0 {
        seq!['-'] + decimal_digits((-value) as nat)
    } else {
        decimal_digits(value as nat)
    }
}

/// The record for a named event: identifier, a colon, the event's name.
pub open spec fn spec_named_record(identifier: Seq<char>, event: Seq<char>) -> Seq<char> {
    identifier + seq![':'] + event
}

/// Whether a character is a decimal digit.
pub open spec fn is_digit(c: char) -> bool {
    c == '0' || c == '1' || c == '2' || c == '3' || c == '4' || c == '5' || c == '6' || c == '7'
        || c == '8' || c == '9'
}

/// The decimal digits of a number are digits, and there is at least one.
pub proof fn lemma_decimal_digits_are_digits(n: nat)
    ensures
        decimal_digits(n).len() >= 1,
        forall|i: int| 0 <= i < decimal_digits(n).len() ==> is_digit(#[trigger] decimal_digits(n)[i]),
    decreases n,
{
    if n >= 10 {
        lemma_decimal_digits_are_digits(n / 10);
    }
}

/// Different numbers below ten have different digits.
pub proof fn lemma_digits_differ(x: int, y: int)
    requires
        0 <= x < 10,
        0 <= y < 10,
        digit(x) == digit(y),
    ensures
        x == y,
{
}

/// Different natural numbers have different decimal digits.
pub proof fn lemma_decimal_digits_are_injective(a: nat, b: nat)
    requires
        decimal_digits(a) == decimal_digits(b),
    ensures
        a == b,
    decreases a,
{
    lemma_decimal_digits_are_digits(a / 10);
    lemma_decimal_digits_are_digits(b / 10);
    if a < 10 && b < 10 {
        assert(decimal_digits(a)[0] == digit(a as int));
        assert(decimal_digits(b)[0] == digit(b as int));
        lemma_digits_differ(a as int, b as int);
    } else if a >= 10 && b >= 10 {
        let front_a = decimal_digits(a / 10);
        let front_b = decimal_digits(b / 10);
        let last_a = digit((a % 10) as int);
        let last_b = digit((b % 10) as int);
        assert(decimal_digits(a) == front_a.push(last_a));
        assert(decimal_digits(b) == front_b.push(last_b));
        assert(front_a.push(last_a).drop_last() =~= front_a);
        assert(front_b.push(last_b).drop_last() =~= front_b);
        assert(front_a.push(last_a).last() == last_a);
        assert(front_b.push(last_b).last() == last_b);
        lemma_decimal_digits_are_injective(a / 10, b / 10);
        lemma_digits_differ((a % 10) as int, (b % 10) as int);
    } else if a < 10 {
        assert(decimal_digits(a).len() == 1);
        assert(decimal_digits(b).len() == decimal_digits(b / 10).len() + 1);
    } else {
        assert(decimal_digits(b).len() == 1);
        assert(decimal_digits(a).len() == decimal_digits(a / 10).len() + 1);
    }
}

/// The decimal text of a code tells the code: different codes have
/// different records.
pub proof fn lemma_code_records_are_injective(a: int, b: int)
    requires
        decimal(a) == decimal(b),
    ensures
        a == b,
{
    if a < 0 && b < 0 {
        let digits_a = decimal_digits((-a) as nat);
        let digits_b = decimal_digits((-b) as nat);
        assert((seq!['-'] + digits_a).drop_first() =~= digits_a);
        assert((seq!['-'] + digits_b).drop_first() =~= digits_b);
        lemma_decimal_digits_are_injective((-a) as nat, (-b) as nat);
    } else if a >= 0 && b >= 0 {
        lemma_decimal_digits_are_injective(a as nat, b as nat);
    } else if a < 0 {
        lemma_decimal_digits_are_digits(b as nat);
        assert(decimal(a)[0] == '-');
        assert(is_digit(decimal(b)[0]));
    } else {
        lemma_decimal_digits_are_digits(a as nat);
        assert(decimal(b)[0] == '-');
        assert(is_digit(decimal(a)[0]));
    }
}

/// The two shapes of record cannot be taken for one another: a record for
/// a named event holds a colon, the record for a code holds none.
pub proof fn lemma_record_shapes_are_distinct(identifier: Seq<char>, event: Seq<char>, code: int)
    ensures
        spec_named_record(identifier, event) != decimal(code),
{
    let named = spec_named_record(identifier, event);
    let at = identifier.len() as int;
    assert(named.len() == identifier.len() + 1 + event.len());
    assert(named[at] == ':');
    if named == decimal(code) {
        if code < 0 {
            let digits = decimal_digits((-code) as nat);
            lemma_decimal_digits_are_digits((-code) as nat);
            assert(decimal(code) == seq!['-'] + digits);
            assert(decimal(code).len() == 1 + digits.len());
            if at == 0 {
                assert(decimal(code)[0] == '-');
            } else {
                assert(decimal(code)[at] == digits[at - 1]);
                assert(is_digit(digits[at - 1]));
            }
        } else {
            lemma_decimal_digits_are_digits(code as nat);
            assert(is_digit(decimal(code)[at]));
        }
    }
}

fn digit_text(d: u64) -> (r: &'static str)
    requires
        d < 10,
    ensures
        r@ == seq![digit(d as int)],
{
    proof {
        reveal_strlit("0");
        reveal_strlit("1");
        reveal_strlit("2");
        reveal_strlit("3");
        reveal_strlit("4");
        reveal_strlit("5");
        reveal_strlit("6");
        reveal_strlit("7");
        reveal_strlit("8");
        reveal_strlit("9");
    }
    let r = if d == 0 {
        "0"
    } else if d == 1 {
        "1"
    } else if d == 2 {
        "2"
    } else if d == 3 {
        "3"
    } else if d == 4 {
        "4"
    } else if d == 5 {
        "5"
    } else if d == 6 {
        "6"
    } else if d == 7 {
        "7"
    } else if d == 8 {
        "8"
    } else {
        "9"
    };
    assert(r@ =~= seq![digit(d as int)]);
    r
}

fn append_digits(out: &mut String, value: u64)
    ensures
        final(out)@ == old(out)@ + decimal_digits(value as nat),
    decreases value,
{
    if value >= 10 {
        append_digits(out, value / 10);
    }
    out.append(digit_text(value % 10));
    proof {
        if value >= 10 {
            assert(out@ =~= old(out)@ + decimal_digits((value / 10) as nat).push(
                digit((value % 10) as int),
            ));
        } else {
            assert(out@ =~= old(out)@ + seq![digit(value as int)]);
        }
    }
}

/// The decimal text of an unsigned number.
pub fn unsigned_text(value: u64) -> (r: String)
    ensures
        r@ == decimal(value as int),
{
    let mut out = String::new();
    append_digits(&mut out, value);
    assert(out@ =~= decimal_digits(value as nat));
    out
}

/// The record for an event that the host knows by a number: the number in
/// decimal and nothing else.
pub fn code_record(code: i64) -> (r: String)
    ensures
        r@ == decimal(code as int),
{
    if code >= 0 {
        unsigned_text(code as u64)
    } else {
        let magnitude: u64 = (-(code + 1)) as u64 + 1;
        let mut out = String::new();
        proof {
            reveal_strlit("-");
        }
        out.append("-");
        append_digits(&mut out, magnitude);
        assert(out@ =~= seq!['-'] + decimal_digits(magnitude as nat));
        out
    }
}

/// The record for an event that the host knows by name.
pub fn named_record(identifier: &str, event: &str) -> (r: String)
    ensures
        r@ == spec_named_record(identifier@, event@),
{
    let mut out = String::new();
    proof {
        reveal_strlit(":");
    }
    out.append(identifier);
    out.append(":");
    out.append(event);
    assert(out@ =~= identifier@ + seq![':'] + event@);
    out
}

/// The record for a message that a script of the host asked to have sent.
pub fn debug_record(message: &str) -> (r: String)
    ensures
        r@ == "debug:"@ + message@,
{
    let mut out = String::new();
    out.append("debug:");
    out.append(message);
    assert(out@ =~= "debug:"@ + message@);
    out
}

/// The one record that says the forwarder is running.
pub fn liveness_record() -> (r: String)
    ensures
        r@ == "[hkb_event_listener] I'm alive!"@,
{
    let mut out = String::new();
    out.append("[hkb_event_listener] I'm alive!");
    assert(out@ =~= "[hkb_event_listener] I'm alive!"@);
    out
}

/// The loopback endpoint with the given port, as text.
pub fn destination(port: u16) -> (r: String)
    ensures
        r@ == "127.0.0.1:"@ + decimal(port as int),
{
    let mut out = String::new();
    out.append("127.0.0.1:");
    append_digits(&mut out, port as u64);
    assert(out@ =~= "127.0.0.1:"@ + decimal(port as int));
    out
}

/// What the host reported an event as.
#[derive(Debug)]
pub enum EventPayload {
    Name(String),
    Code(i64),
}

/// An event as it was taken from one intercepted call.
#[derive(Debug)]
pub struct ExtractedEvent {
    pub identifier: Option<String>,
    pub payload: EventPayload,
}

impl ExtractedEvent {
    /// The record that reports this event: the name-keyed shape for a named
    /// event, the bare number for a numbered one. An event without an
    /// identifier, or with one that the prefix does not admit, has none.
    pub open spec fn spec_record(&self, prefix: Seq<char>) -> Option<Seq<char>> {
        if spec_includes_recovered(text_view(self.identifier), prefix) {
            Some(
                match self.payload {
                    EventPayload::Name(name) => spec_named_record(self.identifier.unwrap()@, name@),
                    EventPayload::Code(code) => decimal(code as int),
                },
            )
        } else {
            None
        }
    }

    /// The record to send for this event, if the filter admits it.
    pub fn record(&self, filter: &EventFilter) -> (r: Option<String>)
        ensures
            text_view(r) == self.spec_record(filter.prefix@),
    {
        if !filter.includes_recovered(&self.identifier) {
            return None;
        }
        match &self.identifier {
            Some(identifier) => match &self.payload {
                EventPayload::Name(name) => Some(named_record(identifier.as_str(), name.as_str())),
                EventPayload::Code(code) => Some(code_record(*code)),
            },
            None => None,
        }
    }
}

/// A payload and the endpoint it goes to.
#[derive(Debug)]
pub struct Datagram {
    pub destination: String,
    pub payload: String,
}

/// The sending side of the listener protocol. A forwarder comes into being
/// together with its liveness datagram, so whatever it forwards later
/// follows that datagram.
#[derive(Debug)]
pub struct TelemetryForwarder {
    port: u16,
}

impl TelemetryForwarder {
    /// The port that the forwarder sends to.
    pub closed spec fn port(&self) -> u16 {
        self.port
    }

    /// Starts a forwarder for the loopback endpoint with the given port and
    /// returns it with the liveness datagram, which is to be sent at once.
    pub fn start(port: u16) -> (r: (Self, Datagram))
        ensures
            r.0.port() == port,
            r.1.destination@ == "127.0.0.1:"@ + decimal(port as int),
            r.1.payload@ == "[hkb_event_listener] I'm alive!"@,
    {
        let forwarder = TelemetryForwarder { port };
        let datagram = Datagram { destination: destination(port), payload: liveness_record() };
        (forwarder, datagram)
    }

    /// The port that the forwarder sends to.
    pub fn destination_port(&self) -> (port: u16)
        ensures
            port == self.port(),
    {
        self.port
    }

    /// Addresses a record to the forwarder's endpoint.
    pub fn address(&self, payload: String) -> (r: Datagram)
        ensures
            r.destination@ == "127.0.0.1:"@ + decimal(self.port() as int),
            r.payload@ == payload@,
    {
        Datagram { destination: destination(self.port), payload }
    }

    /// The datagram for an event, if the filter admits it.
    pub fn forward(&self, event: &ExtractedEvent, filter: &EventFilter) -> (r: Option<Datagram>)
        ensures
            r is Some <==> event.spec_record(filter.prefix@) is Some,
            r is Some ==> r.unwrap().payload@ == event.spec_record(filter.prefix@).unwrap()
                && r.unwrap().destination@ == "127.0.0.1:"@ + decimal(self.port() as int),
    {
        match event.record(filter) {
            Some(payload) => Some(self.address(payload)),
            None => None,
        }
    }
}

} // verus!
