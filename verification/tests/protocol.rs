//! Byte-level tests of the setup-packet codec and the USB/IP wire
//! protocol codec.

use usbip::device::UsbDevice;
use usbip::setup::SetupPacket;
use usbip::usbip_protocol::{DecodeError, UsbIpCommand, UsbIpHeaderBasic, UsbIpResponse};

fn header(command: u32, seqnum: u32, devid: u32, direction: u32, ep: u32) -> UsbIpHeaderBasic {
    UsbIpHeaderBasic { command, seqnum, devid, direction, ep }
}

#[test]
fn setup_packet_parse_fields() {
    let bytes: [u8; 8] = [0x80, 0x06, 0x00, 0x01, 0x02, 0x00, 0x12, 0x00];
    let p = SetupPacket::parse(&bytes);
    assert_eq!(p.request_type, 0x80);
    assert_eq!(p.request, 0x06);
    assert_eq!(p.value, 0x0100);
    assert_eq!(p.index, 0x0002);
    assert_eq!(p.length, 0x0012);
}

#[test]
fn setup_packet_round_trip() {
    let cases: [[u8; 8]; 3] = [
        [0x80, 0x06, 0x00, 0x01, 0x02, 0x00, 0x12, 0x00],
        [0x00, 0x09, 0x01, 0x00, 0x00, 0x00, 0x00, 0x00],
        [0xff, 0xff, 0xff, 0xff, 0xff, 0xff, 0xff, 0xff],
    ];
    for bytes in cases.iter() {
        let p = SetupPacket::parse(bytes);
        assert_eq!(&p.to_bytes(), bytes);
    }
    let p = SetupPacket { request_type: 0x21, request: 0x20, value: 3, index: 0x1234, length: 7 };
    assert_eq!(SetupPacket::parse(&p.to_bytes()), p);
}

#[test]
fn devlist_request_bytes() {
    let req = UsbIpCommand::OpReqDevlist { status: 0 };
    assert_eq!(req.to_bytes(), vec![0x01, 0x11, 0x80, 0x05, 0, 0, 0, 0]);
}

#[test]
fn import_request_bytes() {
    let mut busid = [0u8; 32];
    busid[..5].copy_from_slice(b"0-0-0");
    let req = UsbIpCommand::OpReqImport { status: 0, busid };
    let bytes = req.to_bytes();
    assert_eq!(bytes.len(), 40);
    assert_eq!(&bytes[..4], &[0x01, 0x11, 0x80, 0x03]);
    assert_eq!(&bytes[8..13], b"0-0-0");
    assert!(bytes[13..40].iter().all(|&b| b == 0));
}

#[test]
fn command_round_trip_devlist() {
    let cmd = UsbIpCommand::OpReqDevlist { status: 1 };
    let bytes = cmd.to_bytes();
    let (decoded, n) = UsbIpCommand::decode(&bytes).unwrap();
    assert_eq!(n, bytes.len());
    assert_eq!(decoded, cmd);
}

#[test]
fn command_round_trip_import() {
    let mut busid = [0u8; 32];
    busid[..5].copy_from_slice(b"3-3-3");
    let cmd = UsbIpCommand::OpReqImport { status: 0, busid };
    let mut bytes = cmd.to_bytes();
    bytes.extend_from_slice(&[9, 9, 9]);
    let (decoded, n) = UsbIpCommand::decode(&bytes).unwrap();
    assert_eq!(n, 40);
    assert_eq!(decoded, cmd);
}

#[test]
fn command_round_trip_submit_out() {
    let cmd = UsbIpCommand::UsbIpCmdSubmit {
        header: header(1, 7, 2, 0, 1),
        transfer_flags: 0,
        transfer_buffer_length: 4,
        start_frame: 0,
        number_of_packets: 0,
        interval: 0,
        setup: [0, 9, 1, 0, 0, 0, 0, 0],
        data: vec![0xde, 0xad, 0xbe, 0xef],
    };
    let bytes = cmd.to_bytes();
    assert_eq!(bytes.len(), 52);
    let (decoded, n) = UsbIpCommand::decode(&bytes).unwrap();
    assert_eq!(n, 52);
    assert_eq!(decoded, cmd);
}

#[test]
fn command_round_trip_submit_in() {
    let cmd = UsbIpCommand::UsbIpCmdSubmit {
        header: header(1, 8, 2, 1, 1),
        transfer_flags: 0,
        transfer_buffer_length: 64,
        start_frame: 0,
        number_of_packets: 0,
        interval: 0,
        setup: [0x80, 6, 0, 1, 0, 0, 18, 0],
        data: vec![],
    };
    let bytes = cmd.to_bytes();
    assert_eq!(bytes.len(), 48);
    let (decoded, n) = UsbIpCommand::decode(&bytes).unwrap();
    assert_eq!(n, 48);
    assert_eq!(decoded, cmd);
}

#[test]
fn command_round_trip_unlink() {
    let cmd = UsbIpCommand::UsbIpCmdUnlink { header: header(2, 9, 2, 0, 0), unlink_seqnum: 5 };
    let bytes = cmd.to_bytes();
    assert_eq!(bytes.len(), 48);
    let (decoded, n) = UsbIpCommand::decode(&bytes).unwrap();
    assert_eq!(n, 48);
    assert_eq!(decoded, cmd);
}

#[test]
fn decode_incomplete_prefixes() {
    let cmd = UsbIpCommand::UsbIpCmdSubmit {
        header: header(1, 7, 2, 0, 1),
        transfer_flags: 0,
        transfer_buffer_length: 4,
        start_frame: 0,
        number_of_packets: 0,
        interval: 0,
        setup: [0; 8],
        data: vec![1, 2, 3, 4],
    };
    let bytes = cmd.to_bytes();
    for cut in [0, 3, 4, 20, 47, 48, 51] {
        assert_eq!(UsbIpCommand::decode(&bytes[..cut]), Err(DecodeError::Incomplete));
    }
}

#[test]
fn decode_unknown_command() {
    assert_eq!(
        UsbIpCommand::decode(&[0xab, 0xcd, 0xef, 0x01, 0, 0, 0, 0]),
        Err(DecodeError::UnknownCommand)
    );
}

#[test]
fn empty_devlist_reply_bytes() {
    let resp = UsbIpResponse::op_rep_devlist(&vec![]);
    assert_eq!(resp.to_bytes(), vec![0x01, 0x11, 0x00, 0x05, 0, 0, 0, 0, 0, 0, 0, 0]);
}

#[test]
fn devlist_reply_one_device_bytes() {
    let dev = UsbDevice::new(0);
    let resp = UsbIpResponse::op_rep_devlist(&vec![dev]);
    let bytes = resp.to_bytes();
    // header + count, then one 312-byte device block with no interfaces
    assert_eq!(bytes.len(), 12 + 312);
    assert_eq!(&bytes[..12], &[0x01, 0x11, 0x00, 0x05, 0, 0, 0, 0, 0, 0, 0, 1]);
    // path, NUL-padded to 256 bytes
    assert_eq!(&bytes[12..12 + 20], b"/sys/device/usbip/0\0");
    // bus id, NUL-padded to 32 bytes
    assert_eq!(&bytes[268..268 + 6], b"0-0-0\0");
    // busnum, devnum, speed
    assert_eq!(&bytes[300..312], &[0, 0, 0, 0, 0, 0, 0, 0, 0, 0, 0, 3]);
    // idVendor, idProduct, bcdDevice
    assert_eq!(&bytes[312..318], &[0, 0, 0, 0, 0, 0]);
    // class triple, configuration value, config count, interface count
    assert_eq!(&bytes[318..324], &[0, 0, 0, 1, 1, 0]);
}

#[test]
fn import_success_reply_bytes() {
    let dev = UsbDevice::new(0);
    let resp = UsbIpResponse::op_rep_import_success(&dev);
    let bytes = resp.to_bytes();
    // version, OP_REP_IMPORT, status 0, then the 312-byte device block
    assert_eq!(bytes.len(), 8 + 312);
    assert_eq!(&bytes[..8], &[0x01, 0x11, 0x00, 0x03, 0, 0, 0, 0]);
    assert_eq!(&bytes[264..270], b"0-0-0\0");
}

#[test]
fn import_fail_reply_bytes() {
    let resp = UsbIpResponse::op_rep_import_fail();
    assert_eq!(resp.to_bytes(), vec![0x01, 0x11, 0x00, 0x03, 0, 0, 0, 1]);
}

#[test]
fn ret_submit_reply_bytes() {
    let h = header(3, 21, 0, 0, 0);
    let resp = UsbIpResponse::usbip_ret_submit_success(&h, 0, 3, vec![7, 8, 9], vec![]);
    let bytes = resp.to_bytes();
    assert_eq!(bytes.len(), 48 + 3);
    assert_eq!(&bytes[..8], &[0, 0, 0, 3, 0, 0, 0, 21]);
    assert_eq!(&bytes[20..24], &[0, 0, 0, 0]); // status 0
    assert_eq!(&bytes[24..28], &[0, 0, 0, 3]); // actual_length
    assert_eq!(&bytes[48..], &[7, 8, 9]);

    let fail = UsbIpResponse::usbip_ret_submit_fail(&h, 64);
    let fail_bytes = fail.to_bytes();
    assert_eq!(fail_bytes.len(), 48);
    assert_eq!(&fail_bytes[20..24], &[0, 0, 0, 1]); // status 1
    assert_eq!(&fail_bytes[24..28], &[0, 0, 0, 64]); // actual_length
}

#[test]
fn ret_unlink_reply_bytes() {
    let h = header(4, 33, 0, 0, 0);
    let resp = UsbIpResponse::usbip_ret_unlink_success(&h);
    let bytes = resp.to_bytes();
    assert_eq!(bytes.len(), 48);
    assert_eq!(&bytes[..8], &[0, 0, 0, 4, 0, 0, 0, 33]);
    assert_eq!(&bytes[20..24], &[0, 0, 0, 0]);
    assert!(bytes[24..].iter().all(|&b| b == 0));
}

#[test]
fn bus_id_of_new_device() {
    assert_eq!(UsbDevice::new(0).bus_id, "0-0-0");
    assert_eq!(UsbDevice::new(42).bus_id, "42-42-42");
    assert_eq!(UsbDevice::new(1000).bus_id, "1000-1000-1000");
}

#[test]
fn decode_consumes_one_command_at_a_time() {
    let first = UsbIpCommand::OpReqDevlist { status: 0 };
    let second = UsbIpCommand::UsbIpCmdUnlink { header: header(2, 5, 0, 0, 0), unlink_seqnum: 4 };
    let mut stream = first.to_bytes();
    stream.extend_from_slice(&second.to_bytes());
    let (decoded, n) = UsbIpCommand::decode(&stream).unwrap();
    assert_eq!(decoded, first);
    assert_eq!(n, 8);
    let (decoded, n) = UsbIpCommand::decode(&stream[8..]).unwrap();
    assert_eq!(decoded, second);
    assert_eq!(n, 48);
}
