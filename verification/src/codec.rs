//! The frame codec: raw frames to typed packets and back.
//!
//! A text frame is a run of decimal digits, the code, followed by a
//! remainder. The codec knows nothing of the state of a connection.

use crate::error::ProtocolViolation;
use crate::json::{json_document, optional_json, parse_json, Json, JsonValue};
use vstd::prelude::*;

verus! {

/// One message as the transport hands it over: text, binary data, or one
/// of the transport's own probes with its payload.
#[derive(Debug, PartialEq, Eq)]
pub enum Frame {
    Text(String),
    Binary(Vec<u8>),
    Ping(Vec<u8>),
    Pong(Vec<u8>),
}

/// A decoded frame.
#[derive(Debug, PartialEq, Eq)]
pub enum Packet {
    /// The server opens the handshake.
    Negotiation,
    /// The server acknowledges the connection.
    Connect { session_id: Option<String> },
    Ping,
    Pong,
    /// A named application event.
    Event { name: Option<String>, payload: Option<Json> },
    /// Any other code, with the remainder as it was received.
    Unknown { code: u64, text: String },
}

/// The mathematical value of a [`Packet`].
pub enum PacketView {
    Negotiation,
    Connect { session_id: Option<Seq<char>> },
    Ping,
    Pong,
    Event { name: Option<Seq<char>>, payload: Option<JsonValue> },
    Unknown { code: u64, text: Seq<char> },
}

/// The view of an optional string.
pub open spec fn optional_text(s: Option<String>) -> Option<Seq<char>> {
    match s {
        Some(s) => Some(s@),
        None => None,
    }
}

impl View for Packet {
    type V = PacketView;

    open spec fn view(&self) -> PacketView {
        match self {
            Packet::Negotiation => PacketView::Negotiation,
            Packet::Connect { session_id } => PacketView::Connect {
                session_id: optional_text(*session_id),
            },
            Packet::Ping => PacketView::Ping,
            Packet::Pong => PacketView::Pong,
            Packet::Event { name, payload } => PacketView::Event {
                name: optional_text(*name),
                payload: optional_json(*payload),
            },
            Packet::Unknown { code, text } => PacketView::Unknown { code: *code, text: text@ },
        }
    }
}

/// The view of what decoding returns.
pub open spec fn packet_result(r: Result<Packet, ProtocolViolation>) -> Result<
    PacketView,
    ProtocolViolation,
> {
    match r {
        Ok(p) => Ok(p@),
        Err(e) => Err(e),
    }
}

/// The text of a frame, if it is a text frame.
pub open spec fn frame_text(frame: Frame) -> Option<Seq<char>> {
    match frame {
        Frame::Text(s) => Some(s@),
        _ => None,
    }
}

/// Is `c` one of the ten decimal digits of ASCII?
pub open spec fn is_code_digit(c: char) -> bool {
    '0' <= c && c <= '9'
}

/// The value of one decimal digit.
pub open spec fn digit_value(c: char) -> nat {
    (c as u32 - '0' as u32) as nat
}

/// The number of decimal digits at the start of `text`.
pub open spec fn code_len(text: Seq<char>) -> nat
    decreases text.len(),
{
    if text.len() > 0 && is_code_digit(text[0]) {
        1 + code_len(text.drop_first())
    } else {
        0
    }
}

/// The number that a run of decimal digits denotes.
pub open spec fn decimal_value(digits: Seq<char>) -> nat
    decreases digits.len(),
{
    if digits.len() == 0 {
        0
    } else {
        decimal_value(digits.drop_last()) * 10 + digit_value(digits.last())
    }
}

/// The number that the leading digits of `text` denote.
pub open spec fn frame_code(text: Seq<char>) -> nat {
    decimal_value(text.take(code_len(text) as int))
}

/// What follows the leading digits of `text`.
pub open spec fn frame_rest(text: Seq<char>) -> Seq<char> {
    text.skip(code_len(text) as int)
}

/// The codes whose packets read the remainder as JSON.
pub open spec fn reads_json(code: u64) -> bool {
    code == 2 || code == 3 || code == 40 || code == 42
}

/// The document in a remainder: none where the remainder is empty or is no
/// JSON document.
pub open spec fn document_of(rest: Seq<char>) -> Option<JsonValue> {
    if rest.len() == 0 {
        None
    } else {
        json_document(rest)
    }
}

/// Element `i` of a body that is an array.
pub open spec fn element_at(body: Option<JsonValue>, i: int) -> Option<JsonValue> {
    match body {
        Some(JsonValue::Array(items)) => if 0 <= i < items.len() {
            Some(items[i])
        } else {
            None
        },
        _ => None,
    }
}

/// Element `i` of the body if it is a string.
pub open spec fn text_at(body: Option<JsonValue>, i: int) -> Option<Seq<char>> {
    match element_at(body, i) {
        Some(JsonValue::Text(s)) => Some(s),
        _ => None,
    }
}

/// Element `i` of the body if it is an object; an element of any other
/// type counts as absent.
pub open spec fn object_at(body: Option<JsonValue>, i: int) -> Option<JsonValue> {
    match element_at(body, i) {
        Some(JsonValue::Object(members)) => Some(JsonValue::Object(members)),
        _ => None,
    }
}

/// The packet for a code, a remainder and the document read from the
/// remainder (`None` where there is none).
pub open spec fn packet_of(code: u64, rest: Seq<char>, body: Option<JsonValue>) -> Result<
    PacketView,
    ProtocolViolation,
> {
    if code == 0 {
        Ok(PacketView::Negotiation)
    } else if !reads_json(code) {
        Ok(PacketView::Unknown { code, text: rest })
    } else if rest.len() > 0 && body is None {
        Err(ProtocolViolation::InvalidJson)
    } else if code == 2 {
        Ok(PacketView::Ping)
    } else if code == 3 {
        Ok(PacketView::Pong)
    } else if code == 40 {
        Ok(PacketView::Connect { session_id: text_at(body, 0) })
    } else {
        Ok(PacketView::Event { name: text_at(body, 0), payload: object_at(body, 1) })
    }
}

/// What a text frame decodes to.
pub open spec fn decoded(text: Seq<char>) -> Result<PacketView, ProtocolViolation> {
    if code_len(text) == 0 {
        Err(ProtocolViolation::MissingCode)
    } else if frame_code(text) > u64::MAX {
        Err(ProtocolViolation::CodeTooLarge)
    } else {
        packet_of(frame_code(text) as u64, frame_rest(text), document_of(frame_rest(text)))
    }
}

/// What a frame decodes to, given its text if it has one.
pub open spec fn decoded_frame(text: Option<Seq<char>>) -> Result<PacketView, ProtocolViolation> {
    match text {
        Some(text) => decoded(text),
        None => Err(ProtocolViolation::NonTextFrame),
    }
}

/// The text of an event frame.
pub open spec fn encoded(name: Seq<char>, fragment: Seq<char>) -> Seq<char> {
    seq!['4', '2', '[', '"'] + name + seq!['"', ','] + fragment + seq![']']
}

/// Where the first `n` characters are digits and the next one is not,
/// the leading run has length `n`.
pub proof fn lemma_code_len_is(text: Seq<char>, n: int)
    requires
        0 <= n <= text.len(),
        forall|i: int| 0 <= i < n ==> is_code_digit(#[trigger] text[i]),
        n == text.len() || !is_code_digit(text[n]),
    ensures
        code_len(text) == n,
    decreases n,
{
    if n > 0 {
        lemma_code_len_is(text.drop_first(), n - 1);
    }
}

/// Where the first `n` characters are digits, the leading run has at least
/// length `n`, and it does not reach past the end.
pub proof fn lemma_code_len_bounds(text: Seq<char>, n: int)
    requires
        0 <= n <= text.len(),
        forall|i: int| 0 <= i < n ==> is_code_digit(#[trigger] text[i]),
    ensures
        n <= code_len(text) <= text.len(),
    decreases text.len(),
{
    if text.len() > 0 && is_code_digit(text[0]) {
        if n > 0 {
            lemma_code_len_bounds(text.drop_first(), n - 1);
        } else {
            lemma_code_len_bounds(text.drop_first(), 0);
        }
    }
}

/// A longer prefix of digits denotes no smaller number.
pub proof fn lemma_decimal_value_grows(text: Seq<char>, n: int, m: int)
    requires
        0 <= n <= m <= text.len(),
    ensures
        decimal_value(text.take(n)) <= decimal_value(text.take(m)),
    decreases m - n,
{
    if n < m {
        lemma_decimal_value_grows(text, n, m - 1);
        assert(text.take(m).drop_last() =~= text.take(m - 1));
    }
}

/// Splits a text frame into its code and its remainder.
///
/// Fails with `MissingCode` exactly where the text does not begin with a
/// digit, and with `CodeTooLarge` exactly where the leading digits denote a
/// number above `u64::MAX`.
pub fn split_frame(text: &str) -> (r: Result<(u64, &str), ProtocolViolation>)
    ensures
        (match r {
            Ok((code, rest)) => {
                &&& code_len(text@) > 0
                &&& frame_code(text@) == code
                &&& rest@ == frame_rest(text@)
            },
            Err(e) => {
                ||| e == ProtocolViolation::MissingCode && code_len(text@) == 0
                ||| e == ProtocolViolation::CodeTooLarge && code_len(text@) > 0 && frame_code(
                    text@,
                ) > u64::MAX
            },
        }),
{
    let len: usize = text.unicode_len();
    let mut n: usize = 0;
    let mut code: u64 = 0;
    for c in it: text.chars()
        invariant_except_break
            n == it.index(),
        invariant
            it.seq() == text@,
            len == text@.len(),
            n <= len,
            forall|i: int| 0 <= i < n ==> is_code_digit(#[trigger] text@[i]),
            code == decimal_value(text@.take(n as int)),
        ensures
            n == len || !is_code_digit(text@[n as int]),
    {
        if !('0' <= c && c <= '9') {
            break ;
        }
        let digit: u64 = (c as u32 - '0' as u32) as u64;
        proof {
            assert(text@.take(n + 1).drop_last() =~= text@.take(n as int));
        }
        if code > (u64::MAX - digit) / 10 {
            proof {
                lemma_code_len_bounds(text@, n + 1);
                lemma_decimal_value_grows(text@, n + 1, code_len(text@) as int);
            }
            return Err(ProtocolViolation::CodeTooLarge);
        }
        code = code * 10 + digit;
        n = n + 1;
    }
    proof {
        lemma_code_len_is(text@, n as int);
    }
    if n == 0 {
        return Err(ProtocolViolation::MissingCode);
    }
    let rest = text.substring_char(n, len);
    Ok((code, rest))
}

/// Tells whether packets with this code read the remainder as JSON.
fn code_reads_json(code: u64) -> (r: bool)
    ensures
        r == reads_json(code),
{
    code == 2 || code == 3 || code == 40 || code == 42
}

/// The first two elements of a body that is an array.
fn leading_elements(body: Option<Json>) -> (r: (Option<Json>, Option<Json>))
    ensures
        optional_json(r.0) == element_at(optional_json(body), 0),
        optional_json(r.1) == element_at(optional_json(body), 1),
{
    match body {
        Some(Json::Array(mut items)) => {
            items.truncate(2);
            let second = if items.len() == 2 {
                items.pop()
            } else {
                None
            };
            let first = items.pop();
            (first, second)
        },
        _ => (None, None),
    }
}

/// The string in an element, if it is one.
fn into_text(element: Option<Json>) -> (r: Option<String>)
    ensures
        optional_text(r) == (match optional_json(element) {
            Some(JsonValue::Text(s)) => Some(s),
            _ => None,
        }),
{
    match element {
        Some(Json::Text(s)) => Some(s),
        _ => None,
    }
}

/// The element itself, if it is an object.
fn into_object(element: Option<Json>) -> (r: Option<Json>)
    ensures
        optional_json(r) == (match optional_json(element) {
            Some(JsonValue::Object(members)) => Some(JsonValue::Object(members)),
            _ => None,
        }),
{
    match element {
        Some(Json::Object(members)) => Some(Json::Object(members)),
        _ => None,
    }
}

/// Builds the packet for a code, a remainder and the document that was read
/// from the remainder; `body` is `None` where there is no such document.
///
/// Code 0 is a negotiation whatever follows it. Codes 2, 3, 40 and 42 fail
/// with `InvalidJson` where the remainder is not empty and `body` is `None`.
/// Every other code gives `Unknown` with the remainder as it is.
pub fn assemble(code: u64, rest: &str, body: Option<Json>) -> (r: Result<
    Packet,
    ProtocolViolation,
>)
    ensures
        packet_result(r) == packet_of(code, rest@, optional_json(body)),
{
    if code == 0 {
        Ok(Packet::Negotiation)
    } else if !code_reads_json(code) {
        Ok(Packet::Unknown { code, text: rest.to_owned() })
    } else if !rest.is_empty() && body.is_none() {
        Err(ProtocolViolation::InvalidJson)
    } else if code == 2 {
        Ok(Packet::Ping)
    } else if code == 3 {
        Ok(Packet::Pong)
    } else {
        let (first, second) = leading_elements(body);
        if code == 40 {
            Ok(Packet::Connect { session_id: into_text(first) })
        } else {
            Ok(Packet::Event { name: into_text(first), payload: into_object(second) })
        }
    }
}

/// Decodes the text of a frame.
///
/// The result is [`decoded`] of the text: the leading digits give the code,
/// and the remainder is read as JSON only for the codes that look into it.
pub fn decode_text(text: &str) -> (r: Result<Packet, ProtocolViolation>)
    ensures
        packet_result(r) == decoded(text@),
{
    match split_frame(text) {
        Err(e) => Err(e),
        Ok((code, rest)) => {
            let body = if code_reads_json(code) && !rest.is_empty() {
                parse_json(rest)
            } else {
                None
            };
            assemble(code, rest, body)
        },
    }
}

/// Decodes a frame. A frame that is not a text frame is a violation of the
/// protocol.
pub fn decode(frame: &Frame) -> (r: Result<Packet, ProtocolViolation>)
    ensures
        packet_result(r) == decoded_frame(frame_text(*frame)),
{
    match frame {
        Frame::Text(text) => decode_text(text.as_str()),
        _ => Err(ProtocolViolation::NonTextFrame),
    }
}

/// The text of an event frame: `42["`, the name, `",`, the fragment, `]`.
///
/// Nothing is escaped and nothing is checked: the caller passes a name
/// without quotes or backslashes and a fragment that is JSON text.
pub fn encode(name: &str, fragment: &str) -> (frame: String)
    ensures
        frame@ == encoded(name@, fragment@),
{
    proof {
        reveal_strlit("42[\"");
        reveal_strlit("\",");
        reveal_strlit("]");
    }
    let mut frame = "42[\"".to_owned();
    frame.append(name);
    frame.append("\",");
    frame.append(fragment);
    frame.append("]");
    frame
}

/// A frame made of a run of digits and a remainder that does not go on with
/// a digit splits into exactly these two.
pub proof fn lemma_split(digits: Seq<char>, rest: Seq<char>)
    requires
        forall|i: int| 0 <= i < digits.len() ==> is_code_digit(#[trigger] digits[i]),
        rest.len() == 0 || !is_code_digit(rest[0]),
    ensures
        code_len(digits + rest) == digits.len(),
        frame_code(digits + rest) == decimal_value(digits),
        frame_rest(digits + rest) == rest,
{
    let text = digits + rest;
    lemma_code_len_is(text, digits.len() as int);
    assert(text.take(digits.len() as int) =~= digits);
}

/// Text that does not begin with a digit is rejected for its missing code;
/// an empty run of digits is never read as code 0.
pub proof fn lemma_missing_code(text: Seq<char>)
    ensures
        decoded(text) == Err::<PacketView, _>(ProtocolViolation::MissingCode) <==> (text.len() == 0
            || !is_code_digit(text[0])),
{
}

/// Code 0 is a negotiation whatever the remainder is, JSON or not.
pub proof fn lemma_zero_opens_negotiation(rest: Seq<char>)
    requires
        rest.len() == 0 || !is_code_digit(rest[0]),
    ensures
        decoded(seq!['0'] + rest) == Ok::<_, ProtocolViolation>(PacketView::Negotiation),
{
    let digits = seq!['0'];
    lemma_split(digits, rest);
    assert(decimal_value(digits.drop_last()) == 0);
}

/// Every code other than 0, 2, 3, 40 and 42 decodes to `Unknown` with that
/// code and with the remainder exactly as it was received, JSON or not.
pub proof fn lemma_other_codes_are_unknown(text: Seq<char>)
    requires
        code_len(text) > 0,
        frame_code(text) <= u64::MAX,
        frame_code(text) != 0 && !reads_json(frame_code(text) as u64),
    ensures
        decoded(text) == Ok::<_, ProtocolViolation>(
            PacketView::Unknown { code: frame_code(text) as u64, text: frame_rest(text) },
        ),
{
}

/// Under the codes 2, 3, 40 and 42 a remainder that is not empty and is no
/// JSON document is rejected, and so is nothing else under these codes.
pub proof fn lemma_invalid_json(text: Seq<char>)
    requires
        code_len(text) > 0,
        frame_code(text) <= u64::MAX,
        reads_json(frame_code(text) as u64),
    ensures
        decoded(text) == Err::<PacketView, _>(ProtocolViolation::InvalidJson) <==> (frame_rest(
            text,
        ).len() > 0 && json_document(frame_rest(text)) is None),
        decoded(text) is Err ==> decoded(text) == Err::<PacketView, _>(
            ProtocolViolation::InvalidJson,
        ),
{
}

/// Text decodes to a packet exactly where it begins with a digit, its code
/// is at most `u64::MAX`, and its remainder, if the code reads it and it is
/// not empty, is a JSON document.
pub proof fn lemma_decodes_exactly_when(text: Seq<char>)
    ensures
        decoded(text) is Ok <==> code_len(text) > 0 && frame_code(text) <= u64::MAX && (reads_json(
            frame_code(text) as u64,
        ) && frame_rest(text).len() > 0 ==> json_document(frame_rest(text)) is Some),
        decoded(text) == Err::<PacketView, _>(ProtocolViolation::CodeTooLarge) <==> code_len(text)
            > 0 && frame_code(text) > u64::MAX,
{
}

/// A frame that is not a text frame is rejected as such, and no text frame
/// is.
pub proof fn lemma_non_text_frame(frame: Frame)
    ensures
        decoded_frame(frame_text(frame)) == Err::<PacketView, _>(ProtocolViolation::NonTextFrame)
            <==> !(frame is Text),
{
}

/// Decoding never reports a packet out of sequence: that is for the session
/// to find.
pub proof fn lemma_decoding_knows_no_sequence(text: Option<Seq<char>>)
    ensures
        decoded_frame(text) != Err::<PacketView, _>(ProtocolViolation::OutOfSequence),
{
}

/// The payload of an event is the second element of the array if that
/// element is an object. A second element of any other type, or none at
/// all, leaves the payload absent. The name is the first element if it is a
/// string.
pub proof fn lemma_event_payload(rest: Seq<char>, items: Seq<JsonValue>)
    ensures
        packet_of(42, rest, Some(JsonValue::Array(items))) == Ok::<_, ProtocolViolation>(
            PacketView::Event {
                name: if items.len() > 0 && items[0] is Text {
                    Some(items[0]->Text_0)
                } else {
                    None
                },
                payload: if items.len() > 1 && items[1] is Object {
                    Some(items[1])
                } else {
                    None
                },
            },
        ),
{
}

/// The text that follows the code in an encoded event frame.
pub open spec fn encoded_body(name: Seq<char>, fragment: Seq<char>) -> Seq<char> {
    seq!['[', '"'] + name + seq!['"', ','] + fragment + seq![']']
}

/// An encoded frame decodes as code 42 with the array text as its
/// remainder: what comes back is the event that the array text holds.
pub proof fn lemma_encoded_decodes_as_event(name: Seq<char>, fragment: Seq<char>)
    ensures
        code_len(encoded(name, fragment)) == 2,
        frame_code(encoded(name, fragment)) == 42,
        frame_rest(encoded(name, fragment)) == encoded_body(name, fragment),
        decoded(encoded(name, fragment)) == packet_of(
            42,
            encoded_body(name, fragment),
            json_document(encoded_body(name, fragment)),
        ),
{
    let digits = seq!['4', '2'];
    let rest = encoded_body(name, fragment);
    lemma_split(digits, rest);
    assert(encoded(name, fragment) =~= digits + rest);
    assert(digits.drop_last() =~= seq!['4']);
    assert(decimal_value(seq!['4'].drop_last()) == 0);
    assert(decimal_value(seq!['4']) == 4);
}

} // verus!
