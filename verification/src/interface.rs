//! A USB interface: class triple, endpoints, and the pluggable handler
//! that performs its transfers.

use vstd::prelude::*;
use crate::consts::HandlerError;
use crate::endpoint::UsbEndpoint;
use crate::setup::SetupPacket;

verus! {

/// The capability contract an interface backend plugs into the device
/// model: it performs non-control (or interface-scoped) transfers.
/// Implementations live outside the core (simulated devices, host USB
/// stacks) and may fail opaquely; a failure becomes a URB failure
/// response, never a dropped connection.
pub trait UsbInterfaceHandler: Send + Sync {
    /// Perform one URB against this interface's backend. `ep` is the
    /// resolved endpoint, `req` the host-supplied payload (empty for IN
    /// transfers), and the returned bytes are the device's answer
    /// (empty for OUT transfers). A backend that needs its interface's
    /// static description captures it at construction.
    fn handle_urb(
        &self,
        ep: UsbEndpoint,
        transfer_buffer_length: u32,
        setup: SetupPacket,
        req: &Vec<u8>,
    ) -> Result<Vec<u8>, HandlerError>;

    /// The class-specific descriptor bytes this backend appends to the
    /// interface's configuration descriptor.
    fn get_class_specific_descriptor(&self) -> Vec<u8>;
}

/// Static description of one interface of a device, identified
/// positionally by its index in the device's interface list.
pub struct UsbInterface {
    pub interface_class: u8,
    pub interface_subclass: u8,
    pub interface_protocol: u8,
    /// The interface's endpoints, in descriptor order.
    pub endpoints: Vec<UsbEndpoint>,
    /// String-descriptor index of the interface name, 0 for none.
    pub string_interface: u8,
    /// Class-specific descriptor bytes, possibly empty.
    pub class_specific_descriptor: Vec<u8>,
    /// The backend that performs this interface's transfers.
    pub handler: std::sync::Arc<dyn UsbInterfaceHandler>,
}

} // verus!
