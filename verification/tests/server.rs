//! Tests of the device pool's exclusive-import semantics and of the
//! per-connection state machine, driven command by command.

use std::sync::Arc;

use usbip::consts::{HandlerError, UsbIpError};
use usbip::device::{UsbDevice, UsbDeviceHandler};
use usbip::endpoint::UsbEndpoint;
use usbip::interface::{UsbInterface, UsbInterfaceHandler};
use usbip::session::{end_session, process_command};
use usbip::setup::SetupPacket;
use usbip::usbip_protocol::{UsbIpCommand, UsbIpHeaderBasic, UsbIpResponse};
use usbip::UsbIpServer;

fn import_request(bus_id: &str) -> UsbIpCommand {
    let mut busid = [0u8; 32];
    busid[..bus_id.len()].copy_from_slice(bus_id.as_bytes());
    UsbIpCommand::OpReqImport { status: 0, busid }
}

fn submit_request(direction: u32, ep: u32, transfer_buffer_length: u32, data: Vec<u8>) -> UsbIpCommand {
    UsbIpCommand::UsbIpCmdSubmit {
        header: UsbIpHeaderBasic { command: 1, seqnum: 1, devid: 0, direction, ep },
        transfer_flags: 0,
        transfer_buffer_length,
        start_frame: 0,
        number_of_packets: 0,
        interval: 0,
        setup: [0; 8],
        data,
    }
}

#[test]
fn req_empty_devlist() {
    let mut server = UsbIpServer::new_simulated(vec![]);
    let mut imported_device: Option<String> = None;
    let reply = process_command(
        &mut server,
        &mut imported_device,
        UsbIpCommand::OpReqDevlist { status: 0 },
    );
    assert_eq!(
        reply.unwrap().to_bytes(),
        UsbIpResponse::op_rep_devlist(&vec![]).to_bytes(),
    );
}

#[test]
fn add_and_remove_10_devices() {
    let mut server = UsbIpServer::new_simulated(vec![]);
    let devices = (0..10).map(UsbDevice::new).collect::<Vec<_>>();
    for device in devices.iter() {
        server.add_device(UsbDevice::new(device.dev_num));
    }
    assert_eq!(server.available_count(), 10);
    for device in devices.iter() {
        server.remove_device(&device.bus_id).unwrap();
    }
    let device_len = server.available_count();
    assert_eq!(device_len, 0);
}

#[test]
fn import_claims_exclusively() {
    let mut server = UsbIpServer::new_simulated(vec![UsbDevice::new(0)]);
    let mut first_conn: Option<String> = None;
    let reply = process_command(&mut server, &mut first_conn, import_request("0-0-0"));
    let bytes = reply.unwrap().to_bytes();
    assert_eq!(&bytes[..8], &[0x01, 0x11, 0x00, 0x03, 0, 0, 0, 0]);
    assert_eq!(bytes.len(), 8 + 312);
    assert_eq!(first_conn.as_deref(), Some("0-0-0"));
    assert!(server.used_contains("0-0-0"));
    assert!(!server.available_contains("0-0-0"));

    // a second client importing the same bus id gets a failure reply
    let mut second_conn: Option<String> = None;
    let reply = process_command(&mut server, &mut second_conn, import_request("0-0-0"));
    assert_eq!(reply.unwrap().to_bytes(), vec![0x01, 0x11, 0x00, 0x03, 0, 0, 0, 1]);
    assert_eq!(second_conn, None);
    assert!(server.used_contains("0-0-0"));
}

#[test]
fn import_unknown_bus_id_fails() {
    let mut server = UsbIpServer::new_simulated(vec![UsbDevice::new(0)]);
    let mut slot: Option<String> = None;
    let reply = process_command(&mut server, &mut slot, import_request("9-9-9"));
    assert_eq!(reply.unwrap().to_bytes(), vec![0x01, 0x11, 0x00, 0x03, 0, 0, 0, 1]);
    assert_eq!(slot, None);
    assert_eq!(server.available_count(), 1);
}

#[test]
fn import_invalid_bus_id_gets_no_reply() {
    let mut server = UsbIpServer::new_simulated(vec![UsbDevice::new(0)]);
    let mut busid = [0u8; 32];
    busid[0] = 0xff;
    busid[1] = 0xfe;
    assert_eq!(
        server.handle_op_req_import(busid, &mut None),
        Err(UsbIpError::InvalidBusId)
    );
    let mut slot: Option<String> = None;
    let reply = process_command(
        &mut server,
        &mut slot,
        UsbIpCommand::OpReqImport { status: 0, busid },
    );
    assert_eq!(reply, None);
    assert_eq!(slot, None);
    assert_eq!(server.available_count(), 1);
}

#[test]
fn reimport_replaces_previous_import() {
    let mut server = UsbIpServer::new_simulated(vec![UsbDevice::new(0), UsbDevice::new(1)]);
    let mut slot: Option<String> = None;
    process_command(&mut server, &mut slot, import_request("0-0-0")).unwrap();
    assert_eq!(slot.as_deref(), Some("0-0-0"));
    process_command(&mut server, &mut slot, import_request("1-1-1")).unwrap();
    assert_eq!(slot.as_deref(), Some("1-1-1"));
    // the first device went back to the available set
    assert!(server.available_contains("0-0-0"));
    assert!(server.used_contains("1-1-1"));
    assert_eq!(server.available_count(), 1);
    assert_eq!(server.used_count(), 1);
}

#[test]
fn occupy_moves_device_and_excludes_second_caller() {
    let mut server = UsbIpServer::new_simulated(vec![UsbDevice::new(0), UsbDevice::new(1)]);
    assert!(server.occupy("0-0-0").is_ok());
    assert!(server.used_contains("0-0-0"));
    assert!(!server.available_contains("0-0-0"));
    assert!(server.available_contains("1-1-1"));
    assert_eq!(server.occupy("0-0-0"), Err(UsbIpError::NoAvailableDevice));
    assert_eq!(server.occupy("7-7-7"), Err(UsbIpError::NoAvailableDevice));
}

#[test]
fn release_is_idempotent() {
    let mut server = UsbIpServer::new_simulated(vec![UsbDevice::new(0)]);
    server.occupy("0-0-0").unwrap();
    server.release("0-0-0");
    server.release("0-0-0");
    assert_eq!(server.available_count(), 1);
    assert_eq!(server.used_count(), 0);
    assert!(server.available_contains("0-0-0"));
}

#[test]
fn remove_device_errors() {
    let mut server = UsbIpServer::new_simulated(vec![UsbDevice::new(0)]);
    server.occupy("0-0-0").unwrap();
    assert_eq!(server.remove_device("0-0-0"), Err(UsbIpError::DeviceBusy));
    assert_eq!(server.remove_device("9-9-9"), Err(UsbIpError::NotFound));
    server.release("0-0-0");
    assert_eq!(server.remove_device("0-0-0"), Ok(()));
    assert_eq!(server.available_count(), 0);
}

#[test]
fn submit_without_import_is_dropped() {
    let mut server = UsbIpServer::new_simulated(vec![UsbDevice::new(0)]);
    let mut slot: Option<String> = None;
    let reply = process_command(&mut server, &mut slot, submit_request(1, 1, 8, vec![]));
    assert_eq!(reply, None);
}

#[test]
fn submit_unknown_endpoint_fails_and_connection_survives() {
    let mut server = UsbIpServer::new_simulated(vec![UsbDevice::new(0)]);
    let mut slot: Option<String> = None;
    process_command(&mut server, &mut slot, import_request("0-0-0")).unwrap();
    // endpoint 3 IN does not exist on this device
    let reply = process_command(&mut server, &mut slot, submit_request(1, 3, 8, vec![]));
    let bytes = reply.unwrap().to_bytes();
    assert_eq!(&bytes[..8], &[0, 0, 0, 3, 0, 0, 0, 1]); // USBIP_RET_SUBMIT, seqnum
    assert_eq!(&bytes[8..20], &[0; 12]); // devid, direction, ep zeroed
    assert_eq!(&bytes[20..24], &[0, 0, 0, 1]); // failure status
    assert_eq!(&bytes[24..28], &[0, 0, 0, 0]); // zero actual_length for IN
    // the connection still accepts further commands
    let reply = process_command(&mut server, &mut slot, UsbIpCommand::OpReqDevlist { status: 0 });
    assert!(reply.is_some());
    assert_eq!(slot.as_deref(), Some("0-0-0"));
}

#[test]
fn submit_to_device_without_backend_fails() {
    let mut server = UsbIpServer::new_simulated(vec![UsbDevice::new(0)]);
    let mut slot: Option<String> = None;
    process_command(&mut server, &mut slot, import_request("0-0-0")).unwrap();
    // endpoint 0 exists, but the simulated device has no control backend
    let reply = process_command(&mut server, &mut slot, submit_request(1, 0, 8, vec![]));
    let bytes = reply.unwrap().to_bytes();
    assert_eq!(&bytes[20..24], &[0, 0, 0, 1]); // failure status
    assert_eq!(&bytes[24..28], &[0, 0, 0, 0]); // zero actual_length for IN
}

struct EchoDeviceHandler;

impl UsbDeviceHandler for EchoDeviceHandler {
    fn handle_urb(
        &self,
        _transfer_buffer_length: u32,
        _setup: SetupPacket,
        req: &Vec<u8>,
    ) -> Result<Vec<u8>, HandlerError> {
        if req.is_empty() {
            Ok(vec![1, 2, 3])
        } else {
            Ok(req.clone())
        }
    }

    fn release_claim(&self) {}

    fn reset(&self) -> Result<(), HandlerError> {
        Ok(())
    }

    fn set_configuration(&self, _setup: &[u8; 8]) -> Result<(), HandlerError> {
        Ok(())
    }
}

struct FailingDeviceHandler;

impl UsbDeviceHandler for FailingDeviceHandler {
    fn handle_urb(
        &self,
        _transfer_buffer_length: u32,
        _setup: SetupPacket,
        _req: &Vec<u8>,
    ) -> Result<Vec<u8>, HandlerError> {
        Err(HandlerError)
    }

    fn release_claim(&self) {}

    fn reset(&self) -> Result<(), HandlerError> {
        Ok(())
    }

    fn set_configuration(&self, _setup: &[u8; 8]) -> Result<(), HandlerError> {
        Ok(())
    }
}

struct EchoInterfaceHandler;

impl UsbInterfaceHandler for EchoInterfaceHandler {
    fn handle_urb(
        &self,
        _ep: UsbEndpoint,
        _transfer_buffer_length: u32,
        _setup: SetupPacket,
        _req: &Vec<u8>,
    ) -> Result<Vec<u8>, HandlerError> {
        Ok(vec![0xaa, 0xbb])
    }

    fn get_class_specific_descriptor(&self) -> Vec<u8> {
        vec![]
    }
}

#[test]
fn submit_in_reports_response_length() {
    let mut device = UsbDevice::new(0);
    device.device_handler = Some(Arc::new(EchoDeviceHandler));
    let mut server = UsbIpServer::new_simulated(vec![device]);
    let mut slot: Option<String> = None;
    process_command(&mut server, &mut slot, import_request("0-0-0")).unwrap();
    // control IN on endpoint 0: the handler answers three bytes
    let reply = process_command(&mut server, &mut slot, submit_request(1, 0, 64, vec![]));
    let bytes = reply.unwrap().to_bytes();
    assert_eq!(&bytes[20..24], &[0, 0, 0, 0]); // success
    assert_eq!(&bytes[24..28], &[0, 0, 0, 3]); // actual_length == response length
    assert_eq!(&bytes[48..], &[1, 2, 3]);
}

#[test]
fn submit_out_reports_requested_length() {
    let mut device = UsbDevice::new(0);
    device.device_handler = Some(Arc::new(EchoDeviceHandler));
    let mut server = UsbIpServer::new_simulated(vec![device]);
    let mut slot: Option<String> = None;
    process_command(&mut server, &mut slot, import_request("0-0-0")).unwrap();
    // control OUT on endpoint 0 with a four-byte data stage
    let reply = process_command(&mut server, &mut slot, submit_request(0, 0, 4, vec![5, 6, 7, 8]));
    let bytes = reply.unwrap().to_bytes();
    assert_eq!(&bytes[20..24], &[0, 0, 0, 0]); // success
    assert_eq!(&bytes[24..28], &[0, 0, 0, 4]); // actual_length == requested length
}

#[test]
fn submit_backend_failure_lengths() {
    let mut device = UsbDevice::new(0);
    device.device_handler = Some(Arc::new(FailingDeviceHandler));
    let mut server = UsbIpServer::new_simulated(vec![device]);
    let mut slot: Option<String> = None;
    process_command(&mut server, &mut slot, import_request("0-0-0")).unwrap();
    // failed IN: length 0
    let reply = process_command(&mut server, &mut slot, submit_request(1, 0, 64, vec![]));
    let bytes = reply.unwrap().to_bytes();
    assert_eq!(&bytes[20..28], &[0, 0, 0, 1, 0, 0, 0, 0]);
    // failed OUT: the full requested length
    let reply = process_command(&mut server, &mut slot, submit_request(0, 0, 4, vec![9, 9, 9, 9]));
    let bytes = reply.unwrap().to_bytes();
    assert_eq!(&bytes[20..28], &[0, 0, 0, 1, 0, 0, 0, 4]);
}

#[test]
fn submit_routes_to_interface_handler() {
    let mut device = UsbDevice::new(0);
    device.interfaces = vec![UsbInterface {
        interface_class: 3,
        interface_subclass: 0,
        interface_protocol: 0,
        endpoints: vec![UsbEndpoint {
            address: 0x81,
            attributes: 3,
            max_packet_size: 8,
            interval: 10,
        }],
        string_interface: 0,
        class_specific_descriptor: vec![],
        handler: Arc::new(EchoInterfaceHandler),
    }];
    let mut server = UsbIpServer::new_simulated(vec![device]);
    let mut slot: Option<String> = None;
    process_command(&mut server, &mut slot, import_request("0-0-0")).unwrap();
    // interrupt IN on endpoint 1: resolved to interface 0, handler answers
    let reply = process_command(&mut server, &mut slot, submit_request(1, 1, 8, vec![]));
    let bytes = reply.unwrap().to_bytes();
    assert_eq!(&bytes[20..24], &[0, 0, 0, 0]);
    assert_eq!(&bytes[24..28], &[0, 0, 0, 2]);
    assert_eq!(&bytes[48..], &[0xaa, 0xbb]);
}

#[test]
fn unlink_is_acknowledged_in_any_state() {
    let mut server = UsbIpServer::new_simulated(vec![]);
    let mut slot: Option<String> = None;
    let cmd = UsbIpCommand::UsbIpCmdUnlink {
        header: UsbIpHeaderBasic { command: 2, seqnum: 11, devid: 5, direction: 1, ep: 2 },
        unlink_seqnum: 7,
    };
    let reply = process_command(&mut server, &mut slot, cmd);
    let bytes = reply.unwrap().to_bytes();
    assert_eq!(&bytes[..8], &[0, 0, 0, 4, 0, 0, 0, 11]);
    assert_eq!(&bytes[8..20], &[0; 12]); // devid, direction, ep zeroed
    assert_eq!(&bytes[20..24], &[0, 0, 0, 0]);
}

#[test]
fn disconnect_returns_device_exactly_once() {
    let mut server = UsbIpServer::new_simulated(vec![UsbDevice::new(0)]);
    let mut slot: Option<String> = None;
    process_command(&mut server, &mut slot, import_request("0-0-0")).unwrap();
    assert!(server.used_contains("0-0-0"));
    // the connection drops mid-session
    end_session(&mut server, &mut slot);
    assert_eq!(slot, None);
    assert!(server.available_contains("0-0-0"));
    assert_eq!(server.available_count(), 1);
    assert_eq!(server.used_count(), 0);
    // ending again (a second cleanup pass) changes nothing
    end_session(&mut server, &mut slot);
    assert_eq!(server.available_count(), 1);
}

#[test]
fn cleanup_moves_used_devices_back() {
    let mut server = UsbIpServer::new_simulated(vec![UsbDevice::new(0), UsbDevice::new(1)]);
    server.occupy("0-0-0").unwrap();
    server.occupy("1-1-1").unwrap();
    assert_eq!(server.used_count(), 2);
    server.cleanup();
    assert_eq!(server.used_count(), 0);
    assert_eq!(server.available_count(), 2);
    assert!(server.available_contains("0-0-0"));
    assert!(server.available_contains("1-1-1"));
}

#[test]
fn clear_available_empties_the_pool() {
    let mut server = UsbIpServer::new_simulated(vec![UsbDevice::new(0), UsbDevice::new(1)]);
    server.clear_available();
    assert_eq!(server.available_count(), 0);
}

#[test]
fn new_string_indices_count_from_one() {
    let mut device = UsbDevice::new(0);
    let a = device.new_string("maker".to_string());
    let b = device.new_string("widget".to_string());
    assert_eq!(a, 1);
    assert_eq!(b, 2);
    assert_eq!(device.strings, vec!["maker".to_string(), "widget".to_string()]);
}

#[test]
fn used_device_lookup_and_direct_submit() {
    let mut server = UsbIpServer::new_simulated(vec![UsbDevice::new(0)]);
    server.occupy("0-0-0").unwrap();
    assert!(server.used_device("9-9-9").is_none());
    let device = server.used_device("0-0-0").expect("device is in use");
    assert_eq!(device.bus_id, "0-0-0");
    let header = UsbIpHeaderBasic { command: 1, seqnum: 2, devid: 0, direction: 1, ep: 3 };
    let reply = server.handle_usbip_cmd_submit(header, 8, [0; 8], vec![], device);
    let bytes = reply.to_bytes();
    assert_eq!(&bytes[..8], &[0, 0, 0, 3, 0, 0, 0, 2]);
    assert_eq!(&bytes[20..28], &[0, 0, 0, 1, 0, 0, 0, 0]);
}

struct TaggedInterfaceHandler(u8);

impl UsbInterfaceHandler for TaggedInterfaceHandler {
    fn handle_urb(
        &self,
        _ep: UsbEndpoint,
        _transfer_buffer_length: u32,
        _setup: SetupPacket,
        _req: &Vec<u8>,
    ) -> Result<Vec<u8>, HandlerError> {
        Ok(vec![self.0])
    }

    fn get_class_specific_descriptor(&self) -> Vec<u8> {
        vec![]
    }
}

fn tagged_interface(tag: u8, ep_address: u8) -> UsbInterface {
    UsbInterface {
        interface_class: 0xff,
        interface_subclass: 0,
        interface_protocol: 0,
        endpoints: vec![UsbEndpoint {
            address: ep_address,
            attributes: 2,
            max_packet_size: 64,
            interval: 0,
        }],
        string_interface: 0,
        class_specific_descriptor: vec![],
        handler: Arc::new(TaggedInterfaceHandler(tag)),
    }
}

#[test]
fn submit_routes_to_owning_interface() {
    let mut device = UsbDevice::new(0);
    device.interfaces = vec![tagged_interface(1, 0x02), tagged_interface(2, 0x81)];
    let mut server = UsbIpServer::new_simulated(vec![device]);
    let mut slot: Option<String> = None;
    process_command(&mut server, &mut slot, import_request("0-0-0")).unwrap();
    // bulk IN on endpoint 1 belongs to the second interface
    let reply = process_command(&mut server, &mut slot, submit_request(1, 1, 8, vec![]));
    let bytes = reply.unwrap().to_bytes();
    assert_eq!(&bytes[48..], &[2]);
    // bulk OUT on endpoint 2 belongs to the first interface
    let reply = process_command(&mut server, &mut slot, submit_request(0, 2, 1, vec![0]));
    let bytes = reply.unwrap().to_bytes();
    assert_eq!(&bytes[20..28], &[0, 0, 0, 0, 0, 0, 0, 1]);
}
