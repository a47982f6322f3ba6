use vstd::prelude::*;

use crate::address::{AddressAllocator, BROADCAST_ADDR};
use crate::envelope::{EventView, TransportEvent};
use crate::error::TransportError;

verus! {

/// The addressing authority: answers each join request with a fresh address.
pub struct Server {
    allocator: AddressAllocator,
}

impl Server {
    pub closed spec fn wf(&self) -> bool {
        self.allocator.wf()
    }

    /// The address the next join request gets.
    pub closed spec fn next_address(&self) -> int {
        self.allocator.next_address()
    }

    /// A server that has handed out no address.
    pub fn new() -> (r: Server)
        ensures
            r.wf(),
            r.next_address() == 1,
    {
        Server { allocator: AddressAllocator::new() }
    }

    /// The answer to an event from a connection that has no address yet: a join request gets
    /// the next address, sent to everyone with the request's id echoed; other events get none.
    pub fn on_join(&mut self, e: &TransportEvent) -> (r: Result<
        Option<(u8, TransportEvent)>,
        TransportError,
    >)
        requires
            old(self).wf(),
        ensures
            final(self).wf(),
            match e@ {
                EventView::ClientJoined { request_id } => if old(self).next_address() <= 254 {
                    &&& r matches Ok(Some((to, reply)))
                    &&& to == BROADCAST_ADDR
                    &&& reply@ == (EventView::ProvisionAddr {
                        request_id,
                        new_addr: old(self).next_address() as u8,
                    })
                    &&& final(self).next_address() == old(self).next_address() + 1
                } else {
                    &&& r == Err::<Option<(u8, TransportEvent)>, TransportError>(
                        TransportError::AddressesExhausted,
                    )
                    &&& final(self).next_address() == old(self).next_address()
                },
                _ => {
                    &&& r matches Ok(None)
                    &&& final(self).next_address() == old(self).next_address()
                },
            },
    {
        match e {
            TransportEvent::ClientJoined { request_id } => {
                let new_addr = self.allocator.allocate()?;
                Ok(Some((BROADCAST_ADDR, TransportEvent::ProvisionAddr { request_id: *request_id, new_addr })))
            },
            _ => Ok(None),
        }
    }
}

} // verus!
