//! The USB device model: identity, descriptor fields, string table,
//! endpoints and interfaces, plus endpoint resolution and URB dispatch.

use vstd::prelude::*;
use crate::consts::{HandlerError, EP0_MAX_PACKET_SIZE};
use crate::endpoint::UsbEndpoint;
use crate::interface::UsbInterface;
use crate::setup::SetupPacket;
use crate::util::{dec_digits, u32_to_dec};

verus! {

/// The capability contract a device backend plugs into the model: it
/// performs control transfers addressed to endpoint 0 and owns the
/// device-level lifecycle operations. Implementations live outside the
/// core; a URB failure becomes a failure response, never a dropped
/// connection.
pub trait UsbDeviceHandler: Send + Sync {
    /// Perform one control URB against the device's backend. `req` is
    /// the host-supplied payload (empty for IN transfers), and the
    /// returned bytes are the device's answer (empty for OUT
    /// transfers).
    fn handle_urb(&self, transfer_buffer_length: u32, setup: SetupPacket, req: &Vec<u8>) -> Result<
        Vec<u8>,
        HandlerError,
    >;

    /// Return control of the device to the host OS; best effort, no
    /// error path.
    fn release_claim(&self);

    /// Reset the backend device.
    fn reset(&self) -> Result<(), HandlerError>;

    /// Apply a SET_CONFIGURATION request, given the raw 8 setup bytes.
    fn set_configuration(&self, setup: &[u8; 8]) -> Result<(), HandlerError>;
}

/// Static description of one USB device plus its pluggable backends.
/// Moved, never edited, between the pool's two sets.
pub struct UsbDevice {
    /// Platform path of the device, encoded into device-list replies.
    pub path: String,
    /// Globally unique string key; the import handle of the wire
    /// protocol. Unique across the pool's available and used sets.
    pub bus_id: String,
    pub bus_num: u32,
    pub dev_num: u32,
    /// Speed code of the wire protocol (1 low, 2 full, 3 high, 5
    /// super, 6 super-plus, 0 unknown).
    pub speed: u32,
    pub vendor_id: u16,
    pub product_id: u16,
    pub device_class: u8,
    pub device_subclass: u8,
    pub device_protocol: u8,
    /// bcdDevice.
    pub device_bcd: u16,
    /// bcdUSB.
    pub usb_version: u16,
    pub configuration_value: u8,
    pub num_configurations: u8,
    /// bmAttributes of the active configuration.
    pub attributes: u8,
    /// bMaxPower of the active configuration, in milliamperes.
    pub max_power: u16,
    /// String-descriptor index of the manufacturer name, 0 for none.
    pub string_manufacturer: u8,
    /// String-descriptor index of the product name, 0 for none.
    pub string_product: u8,
    /// String-descriptor index of the serial number, 0 for none.
    pub string_serial: u8,
    /// Append-only string pool; descriptor indices count from 1.
    pub strings: Vec<String>,
    /// The fixed IN control endpoint, address 0x80.
    pub ep0_in: UsbEndpoint,
    /// The fixed OUT control endpoint, address 0x00.
    pub ep0_out: UsbEndpoint,
    /// The device's interfaces, in claim order; a USB interface number
    /// is its index in this list.
    pub interfaces: Vec<UsbInterface>,
    /// Control-transfer backend; `None` only for purely simulated
    /// devices with no control backend.
    pub device_handler: Option<std::sync::Arc<dyn UsbDeviceHandler>>,
}

/// First endpoint with the given address in one interface's list.
pub open spec fn find_in_eps(eps: Seq<UsbEndpoint>, addr: u8) -> Option<UsbEndpoint>
    decreases eps.len(),
{
    if eps.len() == 0 {
        None
    } else if eps[0].address == addr {
        Some(eps[0])
    } else {
        find_in_eps(eps.skip(1), addr)
    }
}

/// First (endpoint, interface index) match over the interface list.
pub open spec fn find_in_intfs(intfs: Seq<UsbInterface>, addr: u8) -> Option<(UsbEndpoint, int)>
    decreases intfs.len(),
{
    if intfs.len() == 0 {
        None
    } else {
        match find_in_eps(intfs[0].endpoints@, addr) {
            Some(ep) => Some((ep, 0)),
            None => match find_in_intfs(intfs.skip(1), addr) {
                Some((ep, i)) => Some((ep, i + 1)),
                None => None,
            },
        }
    }
}

/// The bus id `UsbDevice::new` gives to a device with this index:
/// the index's decimal string three times, joined by dashes.
pub open spec fn spec_new_bus_id(index: u32) -> Seq<char> {
    dec_digits(index as int) + seq!['-'] + dec_digits(index as int) + seq!['-'] + dec_digits(
        index as int,
    )
}

/// The path `UsbDevice::new` gives to a device with this index.
pub open spec fn spec_new_path(index: u32) -> Seq<char> {
    "/sys/device/usbip/"@ + dec_digits(index as int)
}

impl UsbDevice {
    /// Well-formedness: the interface count fits the one-byte wire
    /// field, and the two fixed control endpoints carry their fixed
    /// addresses.
    pub open spec fn wf(&self) -> bool {
        &&& self.interfaces@.len() <= 255
        &&& self.ep0_in.address == 0x80
        &&& self.ep0_out.address == 0x00
    }

    /// Spec-level endpoint resolution, per the dispatch rule: address
    /// 0x80 or 0x00 is the matching fixed control endpoint with no
    /// owning interface; anything else is the first match over the
    /// interfaces' endpoint lists.
    pub open spec fn spec_find_ep(&self, addr: u8) -> Option<(UsbEndpoint, Option<int>)> {
        if addr == 0x80 {
            Some((self.ep0_in, None))
        } else if addr == 0x00 {
            Some((self.ep0_out, None))
        } else {
            match find_in_intfs(self.interfaces@, addr) {
                Some((ep, i)) => Some((ep, Some(i))),
                None => None,
            }
        }
    }

    /// Resolve an endpoint address to the endpoint and, when one owns
    /// it, the owning interface's index. `None` means "endpoint not
    /// found": the caller answers with a failure response, never an
    /// exception.
    pub fn find_ep(&self, addr: u8) -> (r: Option<(UsbEndpoint, Option<usize>)>)
        ensures
            match (r, self.spec_find_ep(addr)) {
                (None, None) => true,
                (Some((ep, None)), Some((sep, None))) => ep == sep,
                (Some((ep, Some(i))), Some((sep, Some(si)))) => ep == sep && i == si && i
                    < self.interfaces@.len(),
                _ => false,
            },
    {
        if addr == 0x80 {
            return Some((self.ep0_in, None));
        }
        if addr == 0x00 {
            return Some((self.ep0_out, None));
        }
        let n = self.interfaces.len();
        let mut i: usize = 0;
        proof {
            assert(self.interfaces@.skip(0) =~= self.interfaces@);
        }
        while i < n
            invariant
                0 <= i <= n,
                addr != 0x80,
                addr != 0x00,
                n == self.interfaces@.len(),
                find_in_intfs(self.interfaces@, addr) == match find_in_intfs(
                    self.interfaces@.skip(i as int),
                    addr,
                ) {
                    Some((ep, k)) => Some((ep, k + i)),
                    None => None::<(UsbEndpoint, int)>,
                },
            decreases n - i,
        {
            let ghost intfs = self.interfaces@;
            proof {
                assert(intfs.skip(i as int)[0] == intfs[i as int]);
            }
            let eps = &self.interfaces[i].endpoints;
            let m = eps.len();
            let mut j: usize = 0;
            proof {
                assert(eps@.skip(0) =~= eps@);
            }
            while j < m
                invariant
                    0 <= j <= m,
                    m == eps@.len(),
                    addr != 0x80,
                    addr != 0x00,
                    i < n,
                    n == self.interfaces@.len(),
                    intfs == self.interfaces@,
                    eps@ == intfs[i as int].endpoints@,
                    find_in_eps(eps@, addr) == find_in_eps(eps@.skip(j as int), addr),
                    find_in_intfs(self.interfaces@, addr) == match find_in_intfs(
                        self.interfaces@.skip(i as int),
                        addr,
                    ) {
                        Some((ep, k)) => Some((ep, k + i)),
                        None => None::<(UsbEndpoint, int)>,
                    },
                decreases m - j,
            {
                proof {
                    assert(eps@.skip(j as int)[0] == eps@[j as int]);
                }
                if eps[j].address == addr {
                    proof {
                        assert(find_in_eps(eps@.skip(j as int), addr) == Some(eps@[j as int]));
                        assert(intfs.skip(i as int).len() > 0);
                        assert(intfs.skip(i as int)[0].endpoints@ == eps@);
                        assert(find_in_eps(intfs.skip(i as int)[0].endpoints@, addr) == Some(
                            eps@[j as int],
                        ));
                        assert(find_in_intfs(intfs.skip(i as int), addr) == Some(
                            (eps@[j as int], 0int),
                        ));
                    }
                    return Some((eps[j], Some(i)));
                }
                proof {
                    assert(eps@.skip(j as int).skip(1) =~= eps@.skip(j as int + 1));
                }
                j = j + 1;
            }
            proof {
                assert(eps@.skip(m as int) =~= Seq::<UsbEndpoint>::empty());
                assert(find_in_eps(eps@, addr) is None);
                assert(intfs.skip(i as int).skip(1) =~= intfs.skip(i as int + 1));
            }
            i = i + 1;
        }
        proof {
            assert(self.interfaces@.skip(n as int) =~= Seq::<UsbInterface>::empty());
        }
        None
    }

    /// Dispatch one URB to the handler the resolved endpoint belongs
    /// to: the device handler when no interface owns the endpoint
    /// (endpoint 0), else the owning interface's handler. A device
    /// without a control backend fails the URB.
    pub fn handle_urb(
        &self,
        ep: UsbEndpoint,
        intf_idx: Option<usize>,
        transfer_buffer_length: u32,
        setup: SetupPacket,
        req: &Vec<u8>,
    ) -> (r: Result<Vec<u8>, HandlerError>)
        requires
            intf_idx is Some ==> intf_idx.unwrap() < self.interfaces@.len(),
        ensures
            intf_idx is None && self.device_handler is None ==> r is Err,
    {
        match intf_idx {
            Some(i) => self.interfaces[i].handler.handle_urb(
                ep,
                transfer_buffer_length,
                setup,
                req,
            ),
            None => match &self.device_handler {
                Some(h) => h.handle_urb(transfer_buffer_length, setup, req),
                None => Err(HandlerError),
            },
        }
    }

    /// A minimal simulated device: no interfaces, no backend, bus id
    /// `<index>-<index>-<index>` so that distinct indices give
    /// distinct bus ids.
    pub fn new(index: u32) -> (d: UsbDevice)
        ensures
            d.wf(),
            d.bus_id@ == spec_new_bus_id(index),
            d.path@ == spec_new_path(index),
            d.dev_num == index,
            d.interfaces@.len() == 0,
            d.device_handler is None,
            d.strings@.len() == 0,
    {
        proof {
            reveal_strlit("-");
            reveal_strlit("/sys/device/usbip/");
        }
        let dec = u32_to_dec(index);
        let bus_id = dec.concat("-").concat(u32_to_dec(index).as_str()).concat("-").concat(
            u32_to_dec(index).as_str(),
        );
        proof {
            assert(bus_id@ =~= spec_new_bus_id(index));
        }
        let path = String::from_str("/sys/device/usbip/").concat(u32_to_dec(index).as_str());
        UsbDevice {
            path,
            bus_id,
            bus_num: 0,
            dev_num: index,
            speed: 3,
            vendor_id: 0,
            product_id: 0,
            device_class: 0,
            device_subclass: 0,
            device_protocol: 0,
            device_bcd: 0,
            usb_version: 0x0200,
            configuration_value: 1,
            num_configurations: 1,
            attributes: 0,
            max_power: 0,
            string_manufacturer: 0,
            string_product: 0,
            string_serial: 0,
            strings: Vec::new(),
            ep0_in: UsbEndpoint {
                address: 0x80,
                attributes: 0,
                max_packet_size: EP0_MAX_PACKET_SIZE,
                interval: 0,
            },
            ep0_out: UsbEndpoint {
                address: 0x00,
                attributes: 0,
                max_packet_size: EP0_MAX_PACKET_SIZE,
                interval: 0,
            },
            interfaces: Vec::new(),
            device_handler: None,
        }
    }

    /// Append a string to the device's string pool and return its
    /// descriptor index (indices count from 1; 0 means absent).
    pub fn new_string(&mut self, s: String) -> (idx: u8)
        requires
            old(self).strings@.len() < 255,
        ensures
            final(self).strings@ == old(self).strings@.push(s),
            idx == old(self).strings@.len() + 1,
            final(self).bus_id == old(self).bus_id,
            final(self).interfaces == old(self).interfaces,
    {
        self.strings.push(s);
        self.strings.len() as u8
    }
}

} // verus!
