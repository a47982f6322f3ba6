use vstd::prelude::*;

use crate::error::TransportError;
use crate::frame::{be32_bytes, be32_value, lemma_be32_inverse, lemma_be32_round_trip, push_be32, read_be32};

verus! {

/// The UTF-8 encoding of a text.
pub uninterp spec fn utf8_of(s: Seq<char>) -> Seq<u8>;

/// Relies on `String::as_bytes`: the bytes of a `String` are the UTF-8 encoding of its text.
#[verifier::external_body]
fn utf8_bytes(s: &String) -> (r: Vec<u8>)
    ensures
        r@ == utf8_of(s@),
{
    s.as_bytes().to_vec()
}

/// Relies on `String::from_utf8`: it accepts exactly the UTF-8 encodings of texts, and gives
/// back the text whose encoding it was handed.
#[verifier::external_body]
fn text_from_utf8(b: Vec<u8>) -> (r: Option<String>)
    ensures
        r matches Some(t) ==> utf8_of(t@) == b@,
        r matches Some(t) ==> forall|s: Seq<char>| #[trigger] utf8_of(s) == b@ ==> t@ == s,
        r is None ==> forall|s: Seq<char>| #[trigger] utf8_of(s) != b@,
{
    String::from_utf8(b).ok()
}

/// An event carried between the server and its clients.
#[derive(Debug, Clone, PartialEq, Eq)]
pub enum TransportEvent {
    /// A client asks for an address; `request_id` ties the answer to the question.
    ClientJoined { request_id: u64 },
    /// The server hands `new_addr` to the client that asked with `request_id`.
    ProvisionAddr { request_id: u64, new_addr: u8 },
    /// A tool invocation, carried unopened.
    ToolCall { name: String, arguments: String },
    /// A piece of message text, carried unopened.
    MessageDelta { delta: String },
}

/// A `TransportEvent` with its texts as sequences of characters.
pub enum EventView {
    ClientJoined { request_id: u64 },
    ProvisionAddr { request_id: u64, new_addr: u8 },
    ToolCall { name: Seq<char>, arguments: Seq<char> },
    MessageDelta { delta: Seq<char> },
}

impl View for TransportEvent {
    type V = EventView;

    open spec fn view(&self) -> EventView {
        match self {
            TransportEvent::ClientJoined { request_id } => EventView::ClientJoined {
                request_id: *request_id,
            },
            TransportEvent::ProvisionAddr { request_id, new_addr } => EventView::ProvisionAddr {
                request_id: *request_id,
                new_addr: *new_addr,
            },
            TransportEvent::ToolCall { name, arguments } => EventView::ToolCall {
                name: name@,
                arguments: arguments@,
            },
            TransportEvent::MessageDelta { delta } => EventView::MessageDelta { delta: delta@ },
        }
    }
}

pub const TAG_CLIENT_JOINED: u8 = 0;

pub const TAG_PROVISION_ADDR: u8 = 1;

pub const TAG_TOOL_CALL: u8 = 2;

pub const TAG_MESSAGE_DELTA: u8 = 3;

/// The eight big-endian bytes of `n`.
pub open spec fn be64_bytes(n: u64) -> Seq<u8> {
    be32_bytes((n / 0x1_0000_0000) as u32) + be32_bytes((n % 0x1_0000_0000) as u32)
}

/// Whether the encoding of a text fits a four-byte length.
pub open spec fn text_fits(s: Seq<char>) -> bool {
    utf8_of(s).len() <= 0xffff_ffff
}

/// A text on the wire: the length of its encoding, then the encoding.
pub open spec fn text_field(s: Seq<char>) -> Seq<u8> {
    be32_bytes(utf8_of(s).len() as u32) + utf8_of(s)
}

/// Whether every text of `e` fits its length field.
pub open spec fn serializable(e: EventView) -> bool {
    match e {
        EventView::ToolCall { name, arguments } => text_fits(name) && text_fits(arguments),
        EventView::MessageDelta { delta } => text_fits(delta),
        _ => true,
    }
}

/// The bytes of an event: a tag naming its kind, then its fields in order.
pub open spec fn event_bytes(e: EventView) -> Seq<u8> {
    match e {
        EventView::ClientJoined { request_id } => seq![TAG_CLIENT_JOINED] + be64_bytes(request_id),
        EventView::ProvisionAddr { request_id, new_addr } => seq![TAG_PROVISION_ADDR] + be64_bytes(
            request_id,
        ) + seq![new_addr],
        EventView::ToolCall { name, arguments } => seq![TAG_TOOL_CALL] + text_field(name)
            + text_field(arguments),
        EventView::MessageDelta { delta } => seq![TAG_MESSAGE_DELTA] + text_field(delta),
    }
}

proof fn lemma_be64(n: u64)
    ensures
        be32_value(be64_bytes(n).subrange(0, 4)) * 0x1_0000_0000 + be32_value(
            be64_bytes(n).subrange(4, 8),
        ) == n,
{
    let hi = (n / 0x1_0000_0000) as u32;
    let lo = (n % 0x1_0000_0000) as u32;
    lemma_be32_round_trip(hi);
    lemma_be32_round_trip(lo);
    assert(be64_bytes(n).subrange(0, 4) =~= be32_bytes(hi));
    assert(be64_bytes(n).subrange(4, 8) =~= be32_bytes(lo));
}

fn push_be64(out: &mut Vec<u8>, n: u64)
    ensures
        final(out)@ == old(out)@ + be64_bytes(n),
{
    push_be32(out, (n / 0x1_0000_0000) as u32);
    push_be32(out, (n % 0x1_0000_0000) as u32);
    assert(final(out)@ =~= old(out)@ + be64_bytes(n));
}

fn read_be64(b: &Vec<u8>, pos: usize) -> (r: u64)
    requires
        pos + 8 <= b@.len(),
    ensures
        be64_bytes(r) == b@.subrange(pos as int, pos + 8),
        forall|n: u64| be64_bytes(n) == b@.subrange(pos as int, pos + 8) ==> n == r,
{
    // The length of a `Vec` fits a `usize`: this brings that bound into the proof.
    let _len = b.len();
    let hi = read_be32(b, pos);
    let lo = read_be32(b, pos + 4);
    let r = hi as u64 * 0x1_0000_0000 + lo as u64;
    proof {
        let s = b@.subrange(pos as int, pos + 8);
        lemma_be32_inverse(s.subrange(0, 4));
        lemma_be32_inverse(s.subrange(4, 8));
        assert(s.subrange(0, 4) =~= b@.subrange(pos as int, pos + 4));
        assert(s.subrange(4, 8) =~= b@.subrange(pos + 4, pos + 8));
        assert(r / 0x1_0000_0000 == hi && r % 0x1_0000_0000 == lo) by (nonlinear_arith)
            requires
                r == hi * 0x1_0000_0000 + lo,
                lo < 0x1_0000_0000,
        ;
        assert(be64_bytes(r) =~= s);
        assert forall|n: u64| be64_bytes(n) == s implies n == r by {
            lemma_be64(n);
            lemma_be64(r);
        }
    }
    r
}

fn push_text(out: &mut Vec<u8>, s: &String) -> (ok: bool)
    ensures
        ok == text_fits(s@),
        ok ==> final(out)@ == old(out)@ + text_field(s@),
{
    let bytes = utf8_bytes(s);
    if bytes.len() as u64 > 0xffff_ffff {
        return false;
    }
    push_be32(out, bytes.len() as u32);
    let ghost start = out@;
    let mut i: usize = 0;
    while i < bytes.len()
        invariant
            i <= bytes@.len(),
            out@ == start + bytes@.subrange(0, i as int),
        decreases bytes@.len() - i,
    {
        out.push(bytes[i]);
        i = i + 1;
        assert(out@ =~= start + bytes@.subrange(0, i as int));
    }
    assert(bytes@.subrange(0, i as int) =~= bytes@);
    assert(final(out)@ =~= old(out)@ + text_field(s@));
    true
}

/// Whether `b` holds the field of text `s` from `pos` on.
pub open spec fn text_at(b: Seq<u8>, pos: int, s: Seq<char>) -> bool {
    text_fits(s) && pos + text_field(s).len() <= b.len() && b.subrange(
        pos,
        pos + text_field(s).len(),
    ) == text_field(s)
}

fn read_text(b: &Vec<u8>, pos: usize) -> (r: Option<(String, usize)>)
    ensures
        r matches Some((t, next)) ==> pos <= next <= b@.len() && text_fits(t@) && b@.subrange(
            pos as int,
            next as int,
        ) == text_field(t@),
        forall|s: Seq<char>|
            #[trigger] text_at(b@, pos as int, s) ==> (r matches Some((t, next)) && t@ == s && next
                == pos + text_field(s).len()),
{
    let len = b.len();
    if pos > len || len - pos < 4 {
        return None;
    }
    let n = read_be32(b, pos) as usize;
    proof {
        lemma_be32_inverse(b@.subrange(pos as int, pos + 4));
    }
    if len - pos - 4 < n {
        proof {
            assert forall|s: Seq<char>| !#[trigger] text_at(b@, pos as int, s) by {
                if text_at(b@, pos as int, s) {
                    lemma_be32_round_trip(utf8_of(s).len() as u32);
                    assert(b@.subrange(pos as int, pos + 4) =~= text_field(s).subrange(0, 4));
                    assert(text_field(s).subrange(0, 4) =~= be32_bytes(utf8_of(s).len() as u32));
                }
            }
        }
        return None;
    }
    let mut bytes: Vec<u8> = Vec::new();
    let end = pos + 4 + n;
    let mut i: usize = pos + 4;
    while i < end
        invariant
            pos + 4 <= i <= end,
            end <= b@.len(),
            bytes@ == b@.subrange(pos + 4, i as int),
        decreases end - i,
    {
        bytes.push(b[i]);
        i = i + 1;
        assert(bytes@ =~= b@.subrange(pos + 4, i as int));
    }
    let ghost got = bytes@;
    proof {
        assert forall|s: Seq<char>| #[trigger] text_at(b@, pos as int, s) implies utf8_of(s) == got
            && pos + text_field(s).len() == end by {
            lemma_be32_round_trip(utf8_of(s).len() as u32);
            assert(b@.subrange(pos as int, pos + 4) =~= text_field(s).subrange(0, 4));
            assert(text_field(s).subrange(0, 4) =~= be32_bytes(utf8_of(s).len() as u32));
            assert(utf8_of(s) =~= text_field(s).subrange(4, text_field(s).len() as int));
            assert(got =~= b@.subrange(pos as int, pos + text_field(s).len()).subrange(
                4,
                text_field(s).len() as int,
            ));
        }
    }
    match text_from_utf8(bytes) {
        Some(t) => {
            proof {
                assert(b@.subrange(pos as int, end as int) =~= be32_bytes(n as u32) + got);
                lemma_be32_inverse(b@.subrange(pos as int, pos + 4));
                assert(b@.subrange(pos as int, pos + 4) =~= b@.subrange(pos as int, end as int).subrange(0, 4));
            }
            Some((t, end))
        },
        None => None,
    }
}

/// Serializes `e`: a tag for its kind, then its fields; texts as a four-byte length and
/// their UTF-8 encoding.
pub fn serialize(e: &TransportEvent) -> (r: Result<Vec<u8>, TransportError>)
    ensures
        serializable(e@) ==> (r matches Ok(b) && b@ == event_bytes(e@)),
        !serializable(e@) ==> r == Err::<Vec<u8>, TransportError>(TransportError::FrameTooLarge),
{
    let mut out: Vec<u8> = Vec::new();
    match e {
        TransportEvent::ClientJoined { request_id } => {
            out.push(TAG_CLIENT_JOINED);
            push_be64(&mut out, *request_id);
        },
        TransportEvent::ProvisionAddr { request_id, new_addr } => {
            out.push(TAG_PROVISION_ADDR);
            push_be64(&mut out, *request_id);
            out.push(*new_addr);
        },
        TransportEvent::ToolCall { name, arguments } => {
            out.push(TAG_TOOL_CALL);
            if !push_text(&mut out, name) {
                return Err(TransportError::FrameTooLarge);
            }
            if !push_text(&mut out, arguments) {
                return Err(TransportError::FrameTooLarge);
            }
        },
        TransportEvent::MessageDelta { delta } => {
            out.push(TAG_MESSAGE_DELTA);
            if !push_text(&mut out, delta) {
                return Err(TransportError::FrameTooLarge);
            }
        },
    }
    assert(out@ =~= event_bytes(e@));
    Ok(out)
}

/// Reads an event from `b`. Exactly the serializations of events are accepted, and each gives
/// back the event it was made from; all other bytes are `MalformedEnvelope`.
pub fn deserialize(b: &Vec<u8>) -> (r: Result<TransportEvent, TransportError>)
    ensures
        r matches Ok(e) ==> serializable(e@) && event_bytes(e@) == b@,
        r is Err ==> r == Err::<TransportEvent, TransportError>(TransportError::MalformedEnvelope),
        forall|v: EventView|
            serializable(v) && #[trigger] event_bytes(v) == b@ ==> (r matches Ok(e) && e@ == v),
{
    let len = b.len();
    if len == 0 {
        return Err(TransportError::MalformedEnvelope);
    }
    let tag = b[0];
    if tag == TAG_CLIENT_JOINED && len == 9 {
        let request_id = read_be64(b, 1);
        let e = TransportEvent::ClientJoined { request_id };
        proof {
            assert(b@ =~= seq![TAG_CLIENT_JOINED] + b@.subrange(1, 9));
            assert forall|v: EventView| serializable(v) && #[trigger] event_bytes(v) == b@ implies e@
                == v by {
                if let EventView::ClientJoined { request_id: q } = v {
                    assert(b@.subrange(1, 9) =~= be64_bytes(q));
                }
            }
        }
        Ok(e)
    } else if tag == TAG_PROVISION_ADDR && len == 10 {
        let request_id = read_be64(b, 1);
        let new_addr = b[9];
        let e = TransportEvent::ProvisionAddr { request_id, new_addr };
        proof {
            assert(b@ =~= seq![TAG_PROVISION_ADDR] + b@.subrange(1, 9) + seq![new_addr]);
            assert forall|v: EventView| serializable(v) && #[trigger] event_bytes(v) == b@ implies e@
                == v by {
                if let EventView::ProvisionAddr { request_id: q, new_addr: a } = v {
                    assert(b@.subrange(1, 9) =~= be64_bytes(q));
                    assert(b@[9] == a);
                }
            }
        }
        Ok(e)
    } else if tag == TAG_TOOL_CALL {
        proof {
            assert forall|v: EventView| serializable(v) && #[trigger] event_bytes(v) == b@ implies (
            v matches EventView::ToolCall { name, arguments } && text_at(b@, 1, name)) by {
                if let EventView::ToolCall { name, arguments } = v {
                    assert(b@.subrange(1, 1 + text_field(name).len() as int) =~= text_field(name));
                } else {
                    assert(b@[0] == event_bytes(v)[0]);
                }
            }
        }
        let (name, p1) = match read_text(b, 1) {
            Some(x) => x,
            None => return Err(TransportError::MalformedEnvelope),
        };
        proof {
            assert forall|v: EventView| serializable(v) && #[trigger] event_bytes(v) == b@ implies (
            v matches EventView::ToolCall { name: n, arguments } && n == name@ && text_at(b@, p1 as int, arguments)) by {
                if let EventView::ToolCall { name: n, arguments } = v {
                    assert(text_at(b@, 1, n));
                    let q: int = 1 + text_field(n).len() as int;
                    assert(b@.subrange(q, q + text_field(arguments).len() as int) =~= text_field(arguments));
                }
            }
        }
        let (arguments, p2) = match read_text(b, p1) {
            Some(x) => x,
            None => return Err(TransportError::MalformedEnvelope),
        };
        if p2 != len {
            proof {
                assert forall|v: EventView| !(serializable(v) && #[trigger] event_bytes(v) == b@) by {
                    if serializable(v) && event_bytes(v) == b@ {
                        if let EventView::ToolCall { name: n, arguments: a } = v {
                            assert(text_at(b@, p1 as int, a));
                        }
                    }
                }
            }
            return Err(TransportError::MalformedEnvelope);
        }
        let e = TransportEvent::ToolCall { name, arguments };
        proof {
            assert(b@ =~= seq![TAG_TOOL_CALL] + b@.subrange(1, p1 as int) + b@.subrange(p1 as int, p2 as int));
        }
        Ok(e)
    } else if tag == TAG_MESSAGE_DELTA {
        proof {
            assert forall|v: EventView| serializable(v) && #[trigger] event_bytes(v) == b@ implies (
            v matches EventView::MessageDelta { delta } && text_at(b@, 1, delta)) by {
                if let EventView::MessageDelta { delta } = v {
                    assert(b@.subrange(1, 1 + text_field(delta).len() as int) =~= text_field(delta));
                } else {
                    assert(b@[0] == event_bytes(v)[0]);
                }
            }
        }
        let (delta, p1) = match read_text(b, 1) {
            Some(x) => x,
            None => return Err(TransportError::MalformedEnvelope),
        };
        if p1 != len {
            return Err(TransportError::MalformedEnvelope);
        }
        let e = TransportEvent::MessageDelta { delta };
        proof {
            assert(b@ =~= seq![TAG_MESSAGE_DELTA] + b@.subrange(1, p1 as int));
        }
        Ok(e)
    } else {
        proof {
            assert forall|v: EventView| !(serializable(v) && #[trigger] event_bytes(v) == b@) by {
                if event_bytes(v) == b@ {
                    assert(b@[0] == event_bytes(v)[0]);
                    assert(event_bytes(v).len() == b@.len());
                }
            }
        }
        Err(TransportError::MalformedEnvelope)
    }
}

} // verus!
