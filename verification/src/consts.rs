//! Protocol and USB constants shared across the library.

use vstd::prelude::*;

verus! {

/// Version tag carried in every OP_* message header.
pub const USBIP_VERSION: u16 = 0x0111;

/// OP_REQ_DEVLIST code (client asks for the exportable device list).
pub const OP_REQ_DEVLIST: u16 = 0x8005;

/// OP_REP_DEVLIST code (server's device-list reply).
pub const OP_REP_DEVLIST: u16 = 0x0005;

/// OP_REQ_IMPORT code (client asks to import one device by bus id).
pub const OP_REQ_IMPORT: u16 = 0x8003;

/// OP_REP_IMPORT code (server's import reply).
pub const OP_REP_IMPORT: u16 = 0x0003;

/// USBIP_CMD_SUBMIT command number (client submits a URB).
pub const USBIP_CMD_SUBMIT: u32 = 0x00000001;

/// USBIP_CMD_UNLINK command number (client asks to cancel a URB).
pub const USBIP_CMD_UNLINK: u32 = 0x00000002;

/// USBIP_RET_SUBMIT command number (server's URB completion reply).
pub const USBIP_RET_SUBMIT: u32 = 0x00000003;

/// USBIP_RET_UNLINK command number (server's unlink acknowledgment).
pub const USBIP_RET_UNLINK: u32 = 0x00000004;

/// Maximum packet size reported for the two fixed control endpoints.
pub const EP0_MAX_PACKET_SIZE: u16 = 64;

/// Transfer direction of an endpoint, encoded in bit 7 of its address.
#[derive(Clone, Copy, Debug, PartialEq, Eq, Structural)]
pub enum Direction {
    /// Host to device (address bit 7 clear).
    Out,
    /// Device to host (address bit 7 set).
    In,
}

/// The four USB transfer types, encoded in the low two bits of an
/// endpoint's attributes field.
#[derive(Clone, Copy, Debug, PartialEq, Eq, Structural)]
pub enum EndpointAttributes {
    Control,
    Isochronous,
    Bulk,
    Interrupt,
}

impl EndpointAttributes {
    /// The attribute code of this transfer type, as it appears in an
    /// endpoint descriptor's attributes field.
    pub fn code(self) -> (c: u8)
        ensures
            c == self.spec_code(),
    {
        match self {
            EndpointAttributes::Control => 0,
            EndpointAttributes::Isochronous => 1,
            EndpointAttributes::Bulk => 2,
            EndpointAttributes::Interrupt => 3,
        }
    }

    /// Spec-level attribute code.
    pub open spec fn spec_code(self) -> u8 {
        match self {
            EndpointAttributes::Control => 0,
            EndpointAttributes::Isochronous => 1,
            EndpointAttributes::Bulk => 2,
            EndpointAttributes::Interrupt => 3,
        }
    }

    /// Decode an attributes byte; values above 3 are not a plain
    /// transfer type and yield `None`.
    pub fn from_code(c: u8) -> (r: Option<EndpointAttributes>)
        ensures
            r == Self::spec_from_code(c),
    {
        match c {
            0 => Some(EndpointAttributes::Control),
            1 => Some(EndpointAttributes::Isochronous),
            2 => Some(EndpointAttributes::Bulk),
            3 => Some(EndpointAttributes::Interrupt),
            _ => None,
        }
    }

    /// Spec-level decoding of an attributes byte.
    pub open spec fn spec_from_code(c: u8) -> Option<EndpointAttributes> {
        if c == 0 {
            Some(EndpointAttributes::Control)
        } else if c == 1 {
            Some(EndpointAttributes::Isochronous)
        } else if c == 2 {
            Some(EndpointAttributes::Bulk)
        } else if c == 3 {
            Some(EndpointAttributes::Interrupt)
        } else {
            None
        }
    }
}

/// Errors of the device-pool management operations.
#[derive(Clone, Copy, Debug, PartialEq, Eq, Structural)]
pub enum UsbIpError {
    /// `occupy`: the requested bus id is not in the available set
    /// (unknown, or already imported by another connection).
    NoAvailableDevice,
    /// `remove_device`: the device is currently imported.
    DeviceBusy,
    /// `remove_device`: no device with that bus id exists in the pool.
    NotFound,
    /// `handle_op_req_import`: the 32-byte bus-id field is not valid
    /// UTF-8 up to its first NUL.
    InvalidBusId,
}

/// Opaque failure of a backend handler: surfaced as a URB failure
/// response, never as a dropped connection.
#[derive(Clone, Copy, Debug, PartialEq, Eq, Structural)]
pub struct HandlerError;

} // verus!
