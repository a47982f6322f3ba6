use vstd::prelude::*;

use crate::error::TransportError;

verus! {

/// The address the server speaks from.
pub const SERVER_ADDR: u8 = 0;

/// The address every connection accepts.
pub const BROADCAST_ADDR: u8 = 255;

/// Whether `a` may be handed to a connecting client.
pub open spec fn assignable(a: u8) -> bool {
    1 <= a && a <= 254
}

/// Whether a frame sent to `recipient` is meant for a connection whose own address is `own`.
pub open spec fn spec_accepts(own: u8, recipient: u8) -> bool {
    recipient == own || recipient == BROADCAST_ADDR
}

/// Decides whether a frame sent to `recipient` is for the connection at `own`.
pub fn accepts(own: u8, recipient: u8) -> (r: bool)
    ensures
        r == spec_accepts(own, recipient),
{
    recipient == own || recipient == BROADCAST_ADDR
}

/// Hands out client addresses in increasing order, from 1 up to 254, each at most once.
pub struct AddressAllocator {
    next: u16,
}

impl AddressAllocator {
    /// The address the next allocation hands out; 255 once all are gone.
    pub closed spec fn next_address(&self) -> int {
        self.next as int
    }

    pub closed spec fn wf(&self) -> bool {
        1 <= self.next <= 255
    }

    /// An allocator that has handed out nothing.
    pub fn new() -> (r: AddressAllocator)
        ensures
            r.wf(),
            r.next_address() == 1,
    {
        AddressAllocator { next: 1 }
    }

    /// Hands out the next unused address, or fails once all assignable ones are gone; the
    /// broadcast address is never handed out.
    pub fn allocate(&mut self) -> (r: Result<u8, TransportError>)
        requires
            old(self).wf(),
        ensures
            final(self).wf(),
            old(self).next_address() <= 254 ==> r == Ok::<u8, TransportError>(
                old(self).next_address() as u8,
            ) && final(self).next_address() == old(self).next_address() + 1,
            old(self).next_address() > 254 ==> r == Err::<u8, TransportError>(
                TransportError::AddressesExhausted,
            ) && final(self).next_address() == old(self).next_address(),
            r matches Ok(a) ==> assignable(a),
    {
        if self.next > 254 {
            return Err(TransportError::AddressesExhausted);
        }
        let a = self.next as u8;
        self.next = self.next + 1;
        Ok(a)
    }
}

} // verus!
