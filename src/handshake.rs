use vstd::prelude::*;

use crate::envelope::{EventView, TransportEvent};

verus! {

/// Where a client stands in obtaining its address.
#[derive(Debug, Clone, Copy, PartialEq, Eq, Structural)]
pub enum HandshakeState {
    /// Connected; nothing sent yet.
    Connected,
    /// The join request is out; waiting for the server's answer.
    AwaitingAddress,
    /// The server handed out this address.
    Provisioned(u8),
    /// The stream closed before an address came.
    Failed,
}

/// The client side of obtaining an address. Events that arrive before the answer are kept, in
/// order, for the application.
pub struct ClientHandshake {
    request_id: u64,
    state: HandshakeState,
    held: Vec<TransportEvent>,
}

impl ClientHandshake {
    pub closed spec fn spec_request_id(&self) -> u64 {
        self.request_id
    }

    pub closed spec fn spec_state(&self) -> HandshakeState {
        self.state
    }

    /// The events received while waiting, oldest first.
    pub closed spec fn spec_held(&self) -> Seq<TransportEvent> {
        self.held@
    }

    /// A handshake that will ask under `request_id`.
    pub fn new(request_id: u64) -> (r: ClientHandshake)
        ensures
            r.spec_request_id() == request_id,
            r.spec_state() == HandshakeState::Connected,
            r.spec_held() == Seq::<TransportEvent>::empty(),
    {
        ClientHandshake { request_id, state: HandshakeState::Connected, held: Vec::new() }
    }

    pub fn state(&self) -> (r: HandshakeState)
        ensures
            r == self.spec_state(),
    {
        self.state
    }

    /// The join request to send to the server; the handshake then waits for its answer.
    pub fn join(&mut self) -> (r: TransportEvent)
        requires
            old(self).spec_state() == HandshakeState::Connected,
        ensures
            r@ == (EventView::ClientJoined { request_id: old(self).spec_request_id() }),
            final(self).spec_state() == HandshakeState::AwaitingAddress,
            final(self).spec_request_id() == old(self).spec_request_id(),
            final(self).spec_held() == old(self).spec_held(),
    {
        self.state = HandshakeState::AwaitingAddress;
        TransportEvent::ClientJoined { request_id: self.request_id }
    }

    /// Takes an event received while waiting. The answer to this handshake's request gives the
    /// address, which is returned; any other event is kept.
    pub fn on_event(&mut self, e: TransportEvent) -> (r: Option<u8>)
        requires
            old(self).spec_state() == HandshakeState::AwaitingAddress,
        ensures
            final(self).spec_request_id() == old(self).spec_request_id(),
            match e@ {
                EventView::ProvisionAddr { request_id, new_addr } if request_id == old(
                    self,
                ).spec_request_id() => {
                    &&& r == Some(new_addr)
                    &&& final(self).spec_state() == HandshakeState::Provisioned(new_addr)
                    &&& final(self).spec_held() == old(self).spec_held()
                },
                _ => {
                    &&& r is None
                    &&& final(self).spec_state() == HandshakeState::AwaitingAddress
                    &&& final(self).spec_held() == old(self).spec_held().push(e)
                },
            },
    {
        if let TransportEvent::ProvisionAddr { request_id, new_addr } = &e {
            if *request_id == self.request_id {
                let a = *new_addr;
                self.state = HandshakeState::Provisioned(a);
                return Some(a);
            }
        }
        self.held.push(e);
        None
    }

    /// The stream closed: a handshake without an address has failed.
    pub fn on_closed(&mut self)
        ensures
            final(self).spec_request_id() == old(self).spec_request_id(),
            final(self).spec_held() == old(self).spec_held(),
            old(self).spec_state() is Provisioned ==> final(self).spec_state() == old(
                self,
            ).spec_state(),
            !(old(self).spec_state() is Provisioned) ==> final(self).spec_state()
                == HandshakeState::Failed,
    {
        if !matches!(self.state, HandshakeState::Provisioned(_)) {
            self.state = HandshakeState::Failed;
        }
    }

    /// Hands over the kept events, oldest first.
    pub fn take_held(&mut self) -> (r: Vec<TransportEvent>)
        ensures
            r@ == old(self).spec_held(),
            final(self).spec_held() == Seq::<TransportEvent>::empty(),
            final(self).spec_state() == old(self).spec_state(),
            final(self).spec_request_id() == old(self).spec_request_id(),
    {
        let mut out: Vec<TransportEvent> = Vec::new();
        std::mem::swap(&mut self.held, &mut out);
        out
    }
}

} // verus!
