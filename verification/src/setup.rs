//! The 8-byte USB control setup packet and its codec.
//!
//! A setup packet is the fixed-layout header of every USB control
//! transfer: request type, request, and three little-endian 16-bit
//! fields (value, index, length). Any 8-byte buffer parses; semantic
//! validity is the caller's concern.

use vstd::prelude::*;

verus! {

/// The parsed form of a USB control setup packet.
#[derive(Clone, Copy, Debug, PartialEq, Eq, Structural)]
pub struct SetupPacket {
    /// bmRequestType: direction (bit 7), type (bits 5..6), recipient (bits 0..4).
    pub request_type: u8,
    /// bRequest: the request code.
    pub request: u8,
    /// wValue, little-endian on the wire.
    pub value: u16,
    /// wIndex, little-endian on the wire.
    pub index: u16,
    /// wLength, little-endian on the wire: number of bytes to transfer
    /// in the data stage.
    pub length: u16,
}

/// The 16-bit value laid down as `lo`, `hi` in a little-endian pair.
pub open spec fn u16_of_le(lo: u8, hi: u8) -> u16 {
    (lo as u16 + hi as u16 * 256) as u16
}

/// What `SetupPacket::parse` makes of an 8-byte buffer.
pub open spec fn spec_parse_setup(b: Seq<u8>) -> SetupPacket
    recommends
        b.len() == 8,
{
    SetupPacket {
        request_type: b[0],
        request: b[1],
        value: u16_of_le(b[2], b[3]),
        index: u16_of_le(b[4], b[5]),
        length: u16_of_le(b[6], b[7]),
    }
}

/// The 8-byte wire layout of a setup packet.
pub open spec fn spec_setup_bytes(p: SetupPacket) -> Seq<u8> {
    seq![
        p.request_type,
        p.request,
        (p.value % 256) as u8,
        (p.value / 256) as u8,
        (p.index % 256) as u8,
        (p.index / 256) as u8,
        (p.length % 256) as u8,
        (p.length / 256) as u8,
    ]
}

impl SetupPacket {
    /// Parse the 8-byte buffer of a control transfer's setup stage.
    /// Every input parses; no error path.
    pub fn parse(setup: &[u8; 8]) -> (p: SetupPacket)
        ensures
            p == spec_parse_setup(setup@),
    {
        SetupPacket {
            request_type: setup[0],
            request: setup[1],
            value: setup[2] as u16 + setup[3] as u16 * 256,
            index: setup[4] as u16 + setup[5] as u16 * 256,
            length: setup[6] as u16 + setup[7] as u16 * 256,
        }
    }

    /// Serialize back to the 8-byte wire layout.
    pub fn to_bytes(&self) -> (b: [u8; 8])
        ensures
            b@ == spec_setup_bytes(*self),
    {
        let b: [u8; 8] = [
            self.request_type,
            self.request,
            (self.value % 256) as u8,
            (self.value / 256) as u8,
            (self.index % 256) as u8,
            (self.index / 256) as u8,
            (self.length % 256) as u8,
            (self.length / 256) as u8,
        ];
        proof {
            assert(b@ =~= spec_setup_bytes(*self));
        }
        b
    }
}

/// Law: parsing any 8-byte buffer and serializing the result yields the
/// buffer unchanged.
pub proof fn lemma_setup_round_trip(b: Seq<u8>)
    requires
        b.len() == 8,
    ensures
        spec_setup_bytes(spec_parse_setup(b)) == b,
{
    assert(spec_setup_bytes(spec_parse_setup(b)) =~= b);
}

/// Law: serializing any setup packet and parsing the result yields the
/// packet unchanged, so the parsed form loses nothing.
pub proof fn lemma_setup_round_trip_packet(p: SetupPacket)
    ensures
        spec_parse_setup(spec_setup_bytes(p)) == p,
{
}

} // verus!
