//! The per-connection protocol state machine.
//!
//! A connection is in one of two states: no device imported, or exactly
//! one device imported, identified by the bus id in its slot. One
//! decoded command drives one step. The transport loop around this
//! machine (socket reads and writes, and the pool's lock) lives outside
//! the core: it decodes a command, calls `process_command` under the
//! pool's writer lock, writes the reply if there is one, and calls
//! `end_session` once, on every exit path, when the connection ends.

use vstd::prelude::*;
use vstd::utf8::valid_utf8;

use crate::consts::USBIP_RET_UNLINK;
use crate::usbip_protocol::{UsbIpCommand, UsbIpResponse};
use crate::util::nul_pos;
use crate::{
    contains_id, count_id, devlist_response_matches, import_mid_post, lemma_count_id_push,
    lemma_count_id_zero, release_post, spec_reply_header, submit_post, UsbIpServer,
};

verus! {

/// The connection's state is sound: when its slot names an imported
/// device, that device is in the pool's used set.
pub open spec fn session_inv(server: UsbIpServer, slot: Option<String>) -> bool {
    match slot {
        Some(id) => contains_id(server.used_devices@, id@),
        None => true,
    }
}

/// Drive the state machine one step with one decoded command, per the
/// transition rules:
/// - OP_REQ_DEVLIST answers the device list and changes nothing.
/// - OP_REQ_IMPORT releases any device this connection holds, then
///   attempts the import; an undecodable bus id gets no reply and the
///   connection continues.
/// - USBIP_CMD_SUBMIT requires an imported device; without one the
///   command is dropped with no reply (a client protocol violation,
///   ignorable, not fatal).
/// - USBIP_CMD_UNLINK is answered unconditionally, in any state.
///
/// Every step preserves the pool invariant and the pool's id set: no
/// command can lose or duplicate a device.
pub fn process_command(
    server: &mut UsbIpServer,
    imported_device: &mut Option<String>,
    cmd: UsbIpCommand,
) -> (r: Option<UsbIpResponse>)
    requires
        old(server).wf(),
        session_inv(*old(server), *old(imported_device)),
        old(server).available_devices@.len() <= 0xffffffff,
    ensures
        final(server).wf(),
        session_inv(*final(server), *final(imported_device)),
        final(server).all_ids() =~= old(server).all_ids(),
        match cmd {
            UsbIpCommand::OpReqDevlist { .. } => {
                &&& r matches Some(resp) && devlist_response_matches(
                    resp,
                    old(server).available_devices@,
                )
                &&& *final(server) == *old(server)
                &&& *final(imported_device) == *old(imported_device)
            },
            UsbIpCommand::OpReqImport { busid, .. } => {
                if valid_utf8(busid@.take(nul_pos(busid@))) {
                    r matches Some(resp) && exists|mid: UsbIpServer|
                        import_mid_post(
                            *old(server),
                            mid,
                            *final(server),
                            *old(imported_device),
                            *final(imported_device),
                            vstd::utf8::decode_utf8(busid@.take(nul_pos(busid@))),
                            resp,
                        )
                } else {
                    &&& r is None
                    &&& *final(imported_device) is None
                    &&& match *old(imported_device) {
                        Some(prev) => release_post(*old(server), *final(server), prev@),
                        None => *final(server) == *old(server),
                    }
                }
            },
            UsbIpCommand::UsbIpCmdSubmit { header, transfer_buffer_length, .. } => {
                &&& *final(server) == *old(server)
                &&& *final(imported_device) == *old(imported_device)
                &&& match *old(imported_device) {
                    None => r is None,
                    Some(id) => r matches Some(resp) && exists|i: int|
                        {
                            &&& 0 <= i < old(server).used_devices@.len()
                            &&& (#[trigger] old(server).used_devices@[i]).bus_id@ == id@
                            &&& submit_post(
                                old(server).used_devices@[i],
                                header,
                                transfer_buffer_length,
                                resp,
                            )
                        },
                }
            },
            UsbIpCommand::UsbIpCmdUnlink { header, .. } => {
                &&& r == Some(
                    UsbIpResponse::UsbIpRetUnlink {
                        header: spec_reply_header(header, USBIP_RET_UNLINK),
                        status: 0,
                    },
                )
                &&& *final(server) == *old(server)
                &&& *final(imported_device) == *old(imported_device)
            },
        },
{
    match cmd {
        UsbIpCommand::OpReqDevlist { .. } => Some(server.handle_op_req_devlist()),
        UsbIpCommand::OpReqImport { busid, .. } => {
            match server.handle_op_req_import(busid, imported_device) {
                Ok(resp) => Some(resp),
                Err(_) => {
                    match imported_device.take() {
                        Some(prev) => server.release(prev.as_str()),
                        None => (),
                    }
                    None
                },
            }
        },
        UsbIpCommand::UsbIpCmdSubmit { header, transfer_buffer_length, setup, data, .. } => {
            match imported_device {
                Some(id) => {
                    match server.used_device(id.as_str()) {
                        Some(device) => {
                            let ghost i = choose|i: int|
                                0 <= i < server.used_devices@.len() && server.used_devices@[i]
                                    == *device;
                            let resp = server.handle_usbip_cmd_submit(
                                header,
                                transfer_buffer_length,
                                setup,
                                data,
                                device,
                            );
                            proof {
                                assert(server.used_devices@[i].bus_id@ == id@);
                                assert(submit_post(
                                    server.used_devices@[i],
                                    header,
                                    transfer_buffer_length,
                                    resp,
                                ));
                            }
                            Some(resp)
                        },
                        None => None,
                    }
                },
                None => None,
            }
        },
        UsbIpCommand::UsbIpCmdUnlink { header, unlink_seqnum } => Some(
            server.handle_usbip_cmd_unlink(header, unlink_seqnum),
        ),
    }
}

/// End the connection: whatever path ended it (clean peer close, a read
/// or write error, an unknown command), the device this connection had
/// imported, if any, goes back to the available set, exactly once, and
/// the slot is emptied. This is the sole device-release guarantee of a
/// connection's lifetime.
pub fn end_session(server: &mut UsbIpServer, imported_device: &mut Option<String>)
    requires
        old(server).wf(),
        session_inv(*old(server), *old(imported_device)),
    ensures
        final(server).wf(),
        *final(imported_device) is None,
        final(server).all_ids() =~= old(server).all_ids(),
        match *old(imported_device) {
            Some(id) => {
                &&& release_post(*old(server), *final(server), id@)
                &&& contains_id(final(server).available_devices@, id@)
                &&& count_id(final(server).available_devices@, id@) == 1
            },
            None => *final(server) == *old(server),
        },
{
    match imported_device.take() {
        Some(id) => {
            server.release(id.as_str());
            proof {
                let pre = *old(server);
                let post = *final(server);
                let i = choose|i: int|
                    {
                        &&& 0 <= i < pre.used_devices@.len()
                        &&& (#[trigger] pre.used_devices@[i]).bus_id@ == id@
                        &&& post.used_devices@ == pre.used_devices@.remove(i)
                        &&& post.available_devices@ == if contains_id(
                            pre.available_devices@,
                            id@,
                        ) {
                            pre.available_devices@
                        } else {
                            pre.available_devices@.push(pre.used_devices@[i])
                        }
                    };
                assert(!contains_id(pre.available_devices@, id@)) by {
                    if contains_id(pre.available_devices@, id@) {
                        let a = choose|a: int|
                            0 <= a < pre.available_devices@.len() && (
                            #[trigger] pre.available_devices@[a]).bus_id@ == id@;
                        assert(pre.available_devices@[a].bus_id@
                            != pre.used_devices@[i].bus_id@);
                    }
                }
                lemma_count_id_zero(pre.available_devices@, id@);
                lemma_count_id_push(pre.available_devices@, pre.used_devices@[i], id@);
                assert(contains_id(post.available_devices@, id@)) by {
                    assert(post.available_devices@[pre.available_devices@.len() as int].bus_id@
                        == id@);
                }
            }
        },
        None => (),
    }
}

} // verus!

