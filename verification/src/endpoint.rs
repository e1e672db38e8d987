//! The identity of a network endpoint as one integer, by which the session
//! table is keyed.

use vstd::prelude::*;

verus! {

/// An IPv4 address, as the integer that its four octets spell from the first
/// down, and a port.
#[derive(Clone, Copy, Debug, PartialEq, Eq, Structural)]
pub struct Endpoint {
    pub address: u32,
    pub port: u16,
}

/// One more than the largest identity.
pub const ENDPOINT_IDS: u64 = 0x1_0000_0000_0000;

impl Endpoint {
    /// The identity of this endpoint: the address above the port's 16 bits.
    pub open spec fn id(self) -> u64 {
        (self.address as int * 65536 + self.port as int) as u64
    }

    /// The endpoint with identity `id`, if there is one.
    pub open spec fn with_id(id: u64) -> Option<Endpoint> {
        if id < ENDPOINT_IDS {
            Some(Endpoint { address: (id / 65536) as u32, port: (id % 65536) as u16 })
        } else {
            None
        }
    }

    /// Computes [`Endpoint::id`].
    pub fn to_id(&self) -> (id: u64)
        ensures
            id == self.id(),
            id < ENDPOINT_IDS,
            Endpoint::with_id(id) == Some(*self),
    {
        self.address as u64 * 65536 + self.port as u64
    }

    /// Computes [`Endpoint::with_id`].
    pub fn from_id(id: u64) -> (endpoint: Option<Endpoint>)
        ensures
            endpoint == Endpoint::with_id(id),
            endpoint is Some ==> endpoint->Some_0.id() == id,
    {
        if id < ENDPOINT_IDS {
            Some(Endpoint { address: (id / 65536) as u32, port: (id % 65536) as u16 })
        } else {
            None
        }
    }

    /// Two endpoints with one identity are one endpoint.
    pub proof fn lemma_id_injective(a: Endpoint, b: Endpoint)
        requires
            a.id() == b.id(),
        ensures
            a == b,
    {
    }
}

} // verus!
