//! Tests of the endpoint model: direction and transfer-type decoding.

use usbip::consts::{Direction, EndpointAttributes};
use usbip::endpoint::UsbEndpoint;

#[test]
fn endpoint_direction_is_bit_seven() {
    let ep_in = UsbEndpoint { address: 0x81, attributes: 2, max_packet_size: 64, interval: 0 };
    let ep_out = UsbEndpoint { address: 0x02, attributes: 2, max_packet_size: 64, interval: 0 };
    assert_eq!(ep_in.direction(), Direction::In);
    assert_eq!(ep_out.direction(), Direction::Out);
}

#[test]
fn transfer_type_decoding() {
    let mut ep = UsbEndpoint { address: 0, attributes: 0, max_packet_size: 64, interval: 0 };
    assert_eq!(ep.transfer_type(), Some(EndpointAttributes::Control));
    ep.attributes = 1;
    assert_eq!(ep.transfer_type(), Some(EndpointAttributes::Isochronous));
    ep.attributes = 2;
    assert_eq!(ep.transfer_type(), Some(EndpointAttributes::Bulk));
    ep.attributes = 3;
    assert_eq!(ep.transfer_type(), Some(EndpointAttributes::Interrupt));
    ep.attributes = 9;
    assert_eq!(ep.transfer_type(), None);
    assert_eq!(EndpointAttributes::Interrupt.code(), 3);
}
