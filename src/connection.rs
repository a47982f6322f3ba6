use vstd::prelude::*;

use crate::address::{accepts, spec_accepts};
use crate::envelope::{deserialize, event_bytes, serializable, serialize, EventView, TransportEvent};
use crate::error::TransportError;
use crate::frame::{be32_value, decode, encode, frame_bytes, lemma_frame_round_trip, Decoded, MAX_PAYLOAD};

verus! {

/// What the front of a connection's unread bytes holds for the connection at `own`, once the
/// frames sent to other addresses are passed over.
pub enum Scan {
    /// A whole frame for this connection: its payload (recipient first), and the bytes after it.
    Deliver { payload: Seq<u8>, rest: Seq<u8> },
    /// No whole frame for this connection; `rest` is what is left after the passed-over frames.
    Short { rest: Seq<u8> },
}

/// Scans `buf` for the first frame sent to `own` or to everyone.
pub open spec fn scan(own: u8, buf: Seq<u8>) -> Scan
    decreases buf.len(),
{
    if buf.len() >= 4 && buf.len() - 4 >= be32_value(buf) {
        let n = be32_value(buf);
        let payload = buf.subrange(4, 4 + n);
        if n > 0 && !spec_accepts(own, payload[0]) {
            scan(own, buf.subrange(4 + n, buf.len() as int))
        } else {
            Scan::Deliver { payload, rest: buf.subrange(4 + n, buf.len() as int) }
        }
    } else {
        Scan::Short { rest: buf }
    }
}

/// A connection never hands out a frame sent to another address: what `scan` delivers was sent
/// to `own` or to everyone, and stands in `buf` as one whole frame right before `rest`.
pub proof fn lemma_delivers_only_addressed(own: u8, buf: Seq<u8>)
    ensures
        scan(own, buf) matches Scan::Deliver { payload, rest } ==> (payload.len() == 0
            || spec_accepts(own, payload[0])) && rest.len() + 4 + payload.len() <= buf.len()
            && buf.subrange(buf.len() - rest.len() - 4 - payload.len(), buf.len() as int)
            == frame_bytes(payload) + rest,
    decreases buf.len(),
{
    if buf.len() >= 4 && buf.len() - 4 >= be32_value(buf) {
        let n = be32_value(buf);
        let payload = buf.subrange(4, 4 + n);
        let rest = buf.subrange(4 + n, buf.len() as int);
        if n > 0 && !spec_accepts(own, payload[0]) {
            lemma_delivers_only_addressed(own, rest);
            if let Scan::Deliver { payload: p, rest: r } = scan(own, rest) {
                let k = rest.len() - r.len() - 4 - p.len();
                assert(buf.subrange(buf.len() - r.len() - 4 - p.len(), buf.len() as int)
                    =~= rest.subrange(k, rest.len() as int));
            }
        } else {
            crate::frame::lemma_be32_inverse(buf.subrange(0, 4));
            assert(buf.subrange(0, 4) =~= buf.take(4));
            assert(buf.subrange(buf.len() - rest.len() - 4 - payload.len(), buf.len() as int)
                =~= frame_bytes(payload) + rest);
        }
    }
}

/// The frame that carries `e` to `recipient`: the recipient's address, then the event.
pub open spec fn addressed_frame(recipient: u8, e: EventView) -> Seq<u8> {
    frame_bytes(seq![recipient] + event_bytes(e))
}

/// A frame sent to this connection or to everyone is delivered whole, with its event intact;
/// a frame sent to another address is passed over, and what follows it is read as if it had
/// never been there.
pub proof fn lemma_addressed_delivery(own: u8, recipient: u8, e: EventView, rest: Seq<u8>)
    requires
        1 + event_bytes(e).len() <= MAX_PAYLOAD,
    ensures
        spec_accepts(own, recipient) ==> scan(own, addressed_frame(recipient, e) + rest) == (
        Scan::Deliver { payload: seq![recipient] + event_bytes(e), rest }),
        !spec_accepts(own, recipient) ==> scan(own, addressed_frame(recipient, e) + rest) == scan(
            own,
            rest,
        ),
{
    let payload = seq![recipient] + event_bytes(e);
    let buf = addressed_frame(recipient, e) + rest;
    lemma_frame_round_trip(payload, rest);
    crate::frame::lemma_be32_round_trip(payload.len() as u32);
    assert(buf.subrange(4, 4 + payload.len() as int) =~= payload);
    assert(buf.subrange(4 + payload.len() as int, buf.len() as int) =~= rest);
    assert(payload[0] == recipient);
}

/// Frames `e` for `recipient`: the address travels as the first byte of the payload.
pub fn encode_addressed(recipient: u8, e: &TransportEvent) -> (r: Result<Vec<u8>, TransportError>)
    ensures
        serializable(e@) && 1 + event_bytes(e@).len() <= MAX_PAYLOAD ==> (r matches Ok(b) && b@
            == addressed_frame(recipient, e@)),
        !(serializable(e@) && 1 + event_bytes(e@).len() <= MAX_PAYLOAD) ==> r == Err::<
            Vec<u8>,
            TransportError,
        >(TransportError::FrameTooLarge),
{
    let body = serialize(e)?;
    let mut payload: Vec<u8> = Vec::new();
    payload.push(recipient);
    let mut i: usize = 0;
    while i < body.len()
        invariant
            i <= body@.len(),
            payload@ == seq![recipient] + body@.subrange(0, i as int),
        decreases body@.len() - i,
    {
        payload.push(body[i]);
        i = i + 1;
        assert(payload@ =~= seq![recipient] + body@.subrange(0, i as int));
    }
    assert(body@.subrange(0, i as int) =~= body@);
    encode(&payload)
}

/// What `Inbox::receive` found.
#[derive(Debug)]
pub enum Received {
    /// An event sent to this connection or to everyone.
    Event(TransportEvent),
    /// No whole frame for this connection yet.
    Pending,
    /// The stream ended cleanly.
    Closed,
}

/// The receiving side of one connection: its own address and the bytes read but not yet used.
pub struct Inbox {
    own: u8,
    buf: Vec<u8>,
}

impl Inbox {
    /// The address this connection answers to.
    pub closed spec fn own(&self) -> u8 {
        self.own
    }

    /// The bytes read from the stream and not yet used.
    pub closed spec fn unread(&self) -> Seq<u8> {
        self.buf@
    }

    /// A connection that has read nothing and holds the unassigned address.
    pub fn new() -> (r: Inbox)
        ensures
            r.own() == crate::address::SERVER_ADDR,
            r.unread() == Seq::<u8>::empty(),
    {
        Inbox { own: crate::address::SERVER_ADDR, buf: Vec::new() }
    }

    /// The address this connection answers to.
    pub fn address(&self) -> (r: u8)
        ensures
            r == self.own(),
    {
        self.own
    }

    /// Adopts `addr` as this connection's own address.
    pub fn set_address(&mut self, addr: u8)
        ensures
            final(self).own() == addr,
            final(self).unread() == old(self).unread(),
    {
        self.own = addr;
    }

    /// Adds bytes read from the stream.
    pub fn feed(&mut self, bytes: &[u8])
        ensures
            final(self).own() == old(self).own(),
            final(self).unread() == old(self).unread() + bytes@,
    {
        let mut i: usize = 0;
        while i < bytes.len()
            invariant
                i <= bytes@.len(),
                self.own == old(self).own,
                self.buf@ == old(self).buf@ + bytes@.subrange(0, i as int),
            decreases bytes@.len() - i,
        {
            self.buf.push(bytes[i]);
            i = i + 1;
            assert(self.buf@ =~= old(self).buf@ + bytes@.subrange(0, i as int));
        }
        assert(bytes@.subrange(0, i as int) =~= bytes@);
    }

    /// Takes the next event sent to this connection or to everyone, passing over frames sent to
    /// others. `stream_ended` says that no byte will follow those fed so far.
    pub fn receive(&mut self, stream_ended: bool) -> (r: Result<Received, TransportError>)
        ensures
            final(self).own() == old(self).own(),
            match scan(old(self).own(), old(self).unread()) {
                Scan::Deliver { payload, rest } => {
                    &&& final(self).unread() == rest
                    &&& (r matches Ok(Received::Event(e)) ==> payload.len() > 0 && spec_accepts(
                        old(self).own(),
                        payload[0],
                    ) && serializable(e@) && event_bytes(e@) == payload.drop_first())
                    &&& (r is Err ==> r == Err::<Received, TransportError>(
                        TransportError::MalformedEnvelope,
                    ))
                    &&& (r is Err || r matches Ok(Received::Event(_)))
                    &&& forall|v: EventView|
                        payload.len() > 0 && serializable(v) && #[trigger] event_bytes(v)
                            == payload.drop_first() ==> (r matches Ok(Received::Event(e)) && e@
                            == v)
                },
                Scan::Short { rest } => {
                    &&& final(self).unread() == rest
                    &&& !stream_ended ==> (r matches Ok(Received::Pending))
                    &&& stream_ended && rest.len() == 0 ==> (r matches Ok(Received::Closed))
                    &&& stream_ended && rest.len() > 0 ==> r == Err::<Received, TransportError>(
                        TransportError::TruncatedFrame,
                    )
                },
            },
    {
        loop
            invariant
                self.own == old(self).own,
                scan(self.own, self.buf@) == scan(old(self).own, old(self).buf@),
            decreases self.buf@.len(),
        {
            let ghost before = self.buf@;
            let step = decode(&self.buf, stream_ended);
            proof {
                reveal_with_fuel(scan, 1);
                if before.len() >= 4 {
                    assert(before.subrange(0, 4) =~= before.take(4));
                }
            }
            match step {
                Ok(Decoded::Frame { payload, consumed }) => {
                    let mut rest: Vec<u8> = Vec::new();
                    let mut i: usize = consumed;
                    while i < self.buf.len()
                        invariant
                            consumed <= i <= self.buf@.len(),
                            self.buf@ == before,
                            rest@ == before.subrange(consumed as int, i as int),
                        decreases self.buf@.len() - i,
                    {
                        rest.push(self.buf[i]);
                        i = i + 1;
                        assert(rest@ =~= before.subrange(consumed as int, i as int));
                    }
                    self.buf = rest;
                    if payload.len() == 0 {
                        return Err(TransportError::MalformedEnvelope);
                    }
                    if accepts(self.own, payload[0]) {
                        let mut body: Vec<u8> = Vec::new();
                        let mut j: usize = 1;
                        while j < payload.len()
                            invariant
                                1 <= j <= payload@.len(),
                                body@ == payload@.subrange(1, j as int),
                            decreases payload@.len() - j,
                        {
                            body.push(payload[j]);
                            j = j + 1;
                            assert(body@ =~= payload@.subrange(1, j as int));
                        }
                        assert(body@ =~= payload@.drop_first());
                        let e = deserialize(&body)?;
                        return Ok(Received::Event(e));
                    }
                },
                Ok(other) => {
                    return Ok(other_outcome(other));
                },
                Err(err) => {
                    return Err(err);
                },
            }
        }
    }
}

fn other_outcome(d: Decoded) -> (r: Received)
    requires
        !(d is Frame),
    ensures
        d is Incomplete ==> r is Pending,
        d is EndOfStream ==> r is Closed,
{
    match d {
        Decoded::EndOfStream => Received::Closed,
        _ => Received::Pending,
    }
}

} // verus!
