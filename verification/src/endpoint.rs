//! A USB endpoint: address, transfer type, packet size and interval.

use vstd::prelude::*;
use crate::consts::{Direction, EndpointAttributes};

verus! {

/// Static description of one endpoint of a device or interface.
#[derive(Clone, Copy, Debug, PartialEq, Eq, Structural)]
pub struct UsbEndpoint {
    /// bEndpointAddress: bit 7 is the direction, bits 0 to 3 the
    /// endpoint number.
    pub address: u8,
    /// bmAttributes: the transfer type in the low two bits.
    pub attributes: u8,
    /// wMaxPacketSize.
    pub max_packet_size: u16,
    /// bInterval.
    pub interval: u8,
}

/// Direction encoded in an endpoint address: `In` when bit 7 is set.
pub open spec fn spec_address_direction(address: u8) -> Direction {
    if address >= 0x80 {
        Direction::In
    } else {
        Direction::Out
    }
}

impl UsbEndpoint {
    /// Spec-level direction of this endpoint.
    pub open spec fn spec_direction(&self) -> Direction {
        spec_address_direction(self.address)
    }

    /// The transfer direction, read from bit 7 of the address.
    pub fn direction(&self) -> (d: Direction)
        ensures
            d == self.spec_direction(),
    {
        if self.address >= 0x80 {
            Direction::In
        } else {
            Direction::Out
        }
    }

    /// The transfer type, read from the attributes field; `None` for
    /// attribute bytes that are not a plain transfer type.
    pub fn transfer_type(&self) -> (r: Option<EndpointAttributes>)
        ensures
            r == EndpointAttributes::spec_from_code(self.attributes),
    {
        EndpointAttributes::from_code(self.attributes)
    }
}

} // verus!
