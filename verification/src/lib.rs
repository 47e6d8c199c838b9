//! A library for running a USB/IP server: a device pool with
//! exclusive-import semantics, the binary codec for USB/IP wire messages
//! and USB control setup packets, URB dispatch over a device model, and
//! the per-connection protocol state machine.
//!
//! The pool here is the synchronous core: its operations are the
//! critical sections. An embedding that serves several connections puts
//! the pool behind a reader/writer lock and calls these operations from
//! its connection tasks.

use vstd::prelude::*;

pub mod consts;
pub mod device;
pub mod endpoint;
pub mod interface;
pub mod session;
pub mod setup;
pub mod usbip_protocol;
pub mod util;

use vstd::utf8::{decode_utf8, valid_utf8};

use crate::consts::{Direction, UsbIpError, USBIP_RET_SUBMIT, USBIP_RET_UNLINK};
use crate::device::UsbDevice;
use crate::setup::SetupPacket;
use crate::usbip_protocol::{
    block_matches_device, entry_matches_device, is_ret_submit_fail, UsbIpHeaderBasic,
    UsbIpResponse,
};
use crate::util::{nul_pos, parse_utf8, str_eq, trim_at_nul};

verus! {

/// Some device of the sequence carries this bus id.
pub open spec fn contains_id(devs: Seq<UsbDevice>, id: Seq<char>) -> bool {
    exists|i: int| 0 <= i < devs.len() && (#[trigger] devs[i]).bus_id@ == id
}

/// No two devices of the sequence share a bus id.
pub open spec fn unique_ids(devs: Seq<UsbDevice>) -> bool {
    forall|i: int, j: int|
        0 <= i < j < devs.len() ==> (#[trigger] devs[i]).bus_id@ != (#[trigger] devs[j]).bus_id@
}

/// How many devices of the sequence carry this bus id.
pub open spec fn count_id(devs: Seq<UsbDevice>, id: Seq<char>) -> int
    decreases devs.len(),
{
    if devs.len() == 0 {
        0
    } else {
        (if devs[0].bus_id@ == id {
            1int
        } else {
            0int
        }) + count_id(devs.skip(1), id)
    }
}

/// Main struct of a USB/IP server: the pool of exportable devices,
/// split into the devices free to import and the devices one connection
/// each has imported. A bus id names at most one device, in at most one
/// of the two sets, at any instant.
pub struct UsbIpServer {
    pub available_devices: Vec<UsbDevice>,
    pub used_devices: Vec<UsbDevice>,
}

/// The effect of `release(id)` on the pool: the device moves from the
/// used set back to the available set; when the id is not in use,
/// nothing changes.
pub open spec fn release_post(pre: UsbIpServer, post: UsbIpServer, id: Seq<char>) -> bool {
    if contains_id(pre.used_devices@, id) {
        exists|i: int|
            {
                &&& 0 <= i < pre.used_devices@.len()
                &&& (#[trigger] pre.used_devices@[i]).bus_id@ == id
                &&& post.used_devices@ == pre.used_devices@.remove(i)
                &&& post.available_devices@ == if contains_id(pre.available_devices@, id) {
                    pre.available_devices@
                } else {
                    pre.available_devices@.push(pre.used_devices@[i])
                }
            }
    } else {
        post == pre
    }
}

/// The effect of `occupy(id)` on the pool: on success the device moves
/// from the available set to the used set; on failure (the id is not
/// available) nothing changes.
pub open spec fn occupy_post(pre: UsbIpServer, post: UsbIpServer, id: Seq<char>, ok: bool) -> bool {
    if ok {
        &&& contains_id(pre.available_devices@, id)
        &&& exists|i: int|
            {
                &&& 0 <= i < pre.available_devices@.len()
                &&& (#[trigger] pre.available_devices@[i]).bus_id@ == id
                &&& post.available_devices@ == pre.available_devices@.remove(i)
                &&& post.used_devices@ == pre.used_devices@.push(pre.available_devices@[i])
            }
    } else {
        &&& !contains_id(pre.available_devices@, id)
        &&& post == pre
    }
}

impl UsbIpServer {
    /// The pool invariant: bus ids are unique within each set and
    /// across the two sets, and every device is well formed.
    pub open spec fn wf(&self) -> bool {
        &&& unique_ids(self.available_devices@)
        &&& unique_ids(self.used_devices@)
        &&& forall|i: int, j: int|
            0 <= i < self.available_devices@.len() && 0 <= j < self.used_devices@.len() ==> (
            #[trigger] self.available_devices@[i]).bus_id@ != (
            #[trigger] self.used_devices@[j]).bus_id@
        &&& forall|i: int|
            0 <= i < self.available_devices@.len() ==> (
            #[trigger] self.available_devices@[i]).wf()
        &&& forall|i: int|
            0 <= i < self.used_devices@.len() ==> (#[trigger] self.used_devices@[i]).wf()
    }

    /// The bus ids of the available set.
    pub open spec fn available_ids(&self) -> Set<Seq<char>> {
        Set::new(|id: Seq<char>| contains_id(self.available_devices@, id))
    }

    /// The bus ids of the used set.
    pub open spec fn used_ids(&self) -> Set<Seq<char>> {
        Set::new(|id: Seq<char>| contains_id(self.used_devices@, id))
    }

    /// Every bus id the pool holds, in either set.
    pub open spec fn all_ids(&self) -> Set<Seq<char>> {
        self.available_ids().union(self.used_ids())
    }
}

/// Does some device of the list carry this bus id?
fn contains_device(devs: &Vec<UsbDevice>, bus_id: &str) -> (r: bool)
    ensures
        r == contains_id(devs@, bus_id@),
{
    let n = devs.len();
    let mut i: usize = 0;
    while i < n
        invariant
            i <= n,
            n == devs@.len(),
            forall|j: int| 0 <= j < i ==> (#[trigger] devs@[j]).bus_id@ != bus_id@,
        decreases n - i,
    {
        if str_eq(devs[i].bus_id.as_str(), bus_id) {
            return true;
        }
        i = i + 1;
    }
    false
}

/// Index of the first device carrying this bus id.
fn position_of(devs: &Vec<UsbDevice>, bus_id: &str) -> (r: Option<usize>)
    ensures
        match r {
            Some(i) => i < devs@.len() && devs@[i as int].bus_id@ == bus_id@,
            None => !contains_id(devs@, bus_id@),
        },
{
    let n = devs.len();
    let mut i: usize = 0;
    while i < n
        invariant
            i <= n,
            n == devs@.len(),
            forall|j: int| 0 <= j < i ==> (#[trigger] devs@[j]).bus_id@ != bus_id@,
        decreases n - i,
    {
        if str_eq(devs[i].bus_id.as_str(), bus_id) {
            return Some(i);
        }
        i = i + 1;
    }
    None
}

impl UsbIpServer {
    /// A pool of pre-built (typically simulated) devices, all available.
    /// Bus-id uniqueness is the caller's obligation, as documented for
    /// `add_device`.
    pub fn new_simulated(devices: Vec<UsbDevice>) -> (r: Self)
        requires
            unique_ids(devices@),
            forall|i: int| 0 <= i < devices@.len() ==> (#[trigger] devices@[i]).wf(),
        ensures
            r.wf(),
            r.available_devices == devices,
            r.used_devices@.len() == 0,
    {
        UsbIpServer { available_devices: devices, used_devices: Vec::new() }
    }

    /// Append a device to the available set. The pool does not check
    /// bus-id uniqueness at run time: keeping ids unique across the
    /// pool is the caller's obligation, stated here as a precondition.
    pub fn add_device(&mut self, device: UsbDevice)
        requires
            old(self).wf(),
            device.wf(),
            !contains_id(old(self).available_devices@, device.bus_id@),
            !contains_id(old(self).used_devices@, device.bus_id@),
        ensures
            final(self).wf(),
            final(self).available_devices@ == old(self).available_devices@.push(device),
            final(self).used_devices == old(self).used_devices,
            final(self).all_ids() =~= old(self).all_ids().insert(device.bus_id@),
    {
        let ghost pre = self.available_devices@;
        self.available_devices.push(device);
        proof {
            let post = self.available_devices@;
            assert forall|i: int, j: int| 0 <= i < j < post.len() implies (
            #[trigger] post[i]).bus_id@ != (#[trigger] post[j]).bus_id@ by {
                if j == post.len() - 1 {
                    assert(post[j] == device);
                    assert(post[i] == pre[i]);
                }
            }
            assert forall|id: Seq<char>| contains_id(post, id) implies contains_id(pre, id) || id
                == device.bus_id@ by {
                let i = choose|i: int| 0 <= i < post.len() && (#[trigger] post[i]).bus_id@ == id;
                if i < pre.len() {
                    assert(pre[i].bus_id@ == id);
                }
            }
            assert(contains_id(post, device.bus_id@)) by {
                assert(post[pre.len() as int].bus_id@ == device.bus_id@);
            }
            assert forall|id: Seq<char>| contains_id(pre, id) implies contains_id(post, id) by {
                let i = choose|i: int| 0 <= i < pre.len() && (#[trigger] pre[i]).bus_id@ == id;
                assert(post[i].bus_id@ == id);
            }
        }
    }

    /// Remove a device from the pool by bus id: releases its backend
    /// claim and removes it when it is available; fails with
    /// `DeviceBusy` when a connection has it imported, and with
    /// `NotFound` when no device carries the id.
    pub fn remove_device(&mut self, bus_id: &str) -> (r: Result<(), UsbIpError>)
        requires
            old(self).wf(),
        ensures
            final(self).wf(),
            final(self).used_devices == old(self).used_devices,
            match r {
                Ok(()) => {
                    &&& contains_id(old(self).available_devices@, bus_id@)
                    &&& exists|i: int|
                        {
                            &&& 0 <= i < old(self).available_devices@.len()
                            &&& (#[trigger] old(self).available_devices@[i]).bus_id@ == bus_id@
                            &&& final(self).available_devices@ == old(
                                self,
                            ).available_devices@.remove(i)
                        }
                    &&& final(self).all_ids() =~= old(self).all_ids().remove(bus_id@)
                },
                Err(UsbIpError::DeviceBusy) => {
                    &&& !contains_id(old(self).available_devices@, bus_id@)
                    &&& contains_id(old(self).used_devices@, bus_id@)
                    &&& *final(self) == *old(self)
                },
                Err(UsbIpError::NotFound) => {
                    &&& !contains_id(old(self).available_devices@, bus_id@)
                    &&& !contains_id(old(self).used_devices@, bus_id@)
                    &&& *final(self) == *old(self)
                },
                Err(_) => false,
            },
    {
        match position_of(&self.available_devices, bus_id) {
            Some(i) => {
                match &self.available_devices[i].device_handler {
                    Some(h) => h.release_claim(),
                    None => (),
                }
                let ghost pre = self.available_devices@;
                self.available_devices.remove(i);
                proof {
                    let post = self.available_devices@;
                    assert forall|a: int, b: int| 0 <= a < b < post.len() implies (
                    #[trigger] post[a]).bus_id@ != (#[trigger] post[b]).bus_id@ by {
                        let a0: int = if a < i {
                            a
                        } else {
                            a + 1
                        };
                        let b0: int = if b < i {
                            b
                        } else {
                            b + 1
                        };
                        assert(post[a] == pre[a0] && post[b] == pre[b0]);
                    }
                    assert forall|a: int, j: int|
                        0 <= a < post.len() && 0 <= j < self.used_devices@.len() implies (
                    #[trigger] post[a]).bus_id@ != (#[trigger] self.used_devices@[j]).bus_id@ by {
                        let a0: int = if a < i {
                            a
                        } else {
                            a + 1
                        };
                        assert(post[a] == pre[a0]);
                    }
                    assert forall|a: int| 0 <= a < post.len() implies (#[trigger] post[a]).wf() by {
                        let a0: int = if a < i {
                            a
                        } else {
                            a + 1
                        };
                        assert(post[a] == pre[a0]);
                    }
                    lemma_remove_id_sets(pre, post, self.used_devices@, i as int, bus_id@);
                }
                Ok(())
            },
            None => {
                if contains_device(&self.used_devices, bus_id) {
                    Err(UsbIpError::DeviceBusy)
                } else {
                    Err(UsbIpError::NotFound)
                }
            },
        }
    }

    /// Atomically move the device with this bus id from available to
    /// used: the exclusive-ownership transfer of an import. Fails with
    /// `NoAvailableDevice` when the id is unknown or already imported.
    pub fn occupy(&mut self, bus_id: &str) -> (r: Result<(), UsbIpError>)
        requires
            old(self).wf(),
        ensures
            final(self).wf(),
            occupy_post(*old(self), *final(self), bus_id@, r is Ok),
            r is Err ==> r == Err::<(), UsbIpError>(UsbIpError::NoAvailableDevice),
            final(self).all_ids() =~= old(self).all_ids(),
    {
        match position_of(&self.available_devices, bus_id) {
            Some(i) => {
                let device = self.available_devices.remove(i);
                if !contains_device(&self.used_devices, bus_id) {
                    self.used_devices.push(device);
                    proof {
                        lemma_move_preserves_wf(*old(self), *final(self), i as int, bus_id@);
                        lemma_move_preserves_ids(*old(self), *final(self), i as int, bus_id@);
                    }
                    Ok(())
                } else {
                    proof {
                        let j = choose|j: int|
                            0 <= j < self.used_devices@.len() && (
                            #[trigger] self.used_devices@[j]).bus_id@ == bus_id@;
                        assert(old(self).available_devices@[i as int].bus_id@ == old(
                            self,
                        ).used_devices@[j].bus_id@);
                    }
                    Err(UsbIpError::NoAvailableDevice)
                }
            },
            None => Err(UsbIpError::NoAvailableDevice),
        }
    }

    /// Return an imported device to the available set, by bus id.
    /// Idempotent: releasing an id that is not in use changes nothing,
    /// and the available set never gains a second copy.
    pub fn release(&mut self, bus_id: &str)
        requires
            old(self).wf(),
        ensures
            final(self).wf(),
            release_post(*old(self), *final(self), bus_id@),
            final(self).all_ids() =~= old(self).all_ids(),
    {
        match position_of(&self.used_devices, bus_id) {
            Some(i) => {
                let device = self.used_devices.remove(i);
                if !contains_device(&self.available_devices, bus_id) {
                    self.available_devices.push(device);
                    proof {
                        lemma_unmove_preserves_wf(*old(self), *final(self), i as int, bus_id@);
                        lemma_unmove_preserves_ids(*old(self), *final(self), i as int, bus_id@);
                    }
                } else {
                    proof {
                        let j = choose|j: int|
                            0 <= j < self.available_devices@.len() && (
                            #[trigger] self.available_devices@[j]).bus_id@ == bus_id@;
                        assert(old(self).available_devices@[j].bus_id@ == old(
                            self,
                        ).used_devices@[i as int].bus_id@);
                    }
                }
            },
            None => (),
        }
    }
}


/// Reply headers from the server carry the reply command number and
/// devid, direction and ep forced to zero.
pub open spec fn spec_reply_header(h: UsbIpHeaderBasic, command: u32) -> UsbIpHeaderBasic {
    UsbIpHeaderBasic { command, seqnum: h.seqnum, devid: 0, direction: 0, ep: 0 }
}

/// The endpoint address a submit header addresses: the low byte of the
/// ep field, with the direction bit set for IN transfers.
pub open spec fn spec_real_ep(h: UsbIpHeaderBasic) -> u8 {
    if h.direction == 0 {
        (h.ep % 256) as u8
    } else {
        (h.ep % 128 + 128) as u8
    }
}

/// `r` is the OP_REP_DEVLIST reply describing exactly these devices,
/// in order.
pub open spec fn devlist_response_matches(r: UsbIpResponse, devs: Seq<UsbDevice>) -> bool {
    r matches UsbIpResponse::OpRepDevlist { status, devices } && status == 0 && devices@.len()
        == devs.len() && forall|i: int|
        0 <= i < devs.len() ==> entry_matches_device(#[trigger] devices@[i], devs[i])
}

/// What USBIP_RET_SUBMIT replies `handle_usbip_cmd_submit` may produce
/// for this device and request. An unresolved endpoint is a failure
/// with length zero. A resolved one either completes with the handler's
/// bytes (an IN transfer reports their length, an OUT transfer the
/// requested length) or fails, with length zero for IN and the
/// requested length for OUT. A device without a control backend always
/// fails an endpoint-zero URB.
pub open spec fn submit_post(
    device: UsbDevice,
    h: UsbIpHeaderBasic,
    transfer_buffer_length: u32,
    r: UsbIpResponse,
) -> bool {
    let h2 = spec_reply_header(h, USBIP_RET_SUBMIT);
    match device.spec_find_ep(spec_real_ep(h)) {
        None => is_ret_submit_fail(r, h2, 0),
        Some((ep, idx)) => {
            let fail_len = if ep.spec_direction() is In {
                0u32
            } else {
                transfer_buffer_length
            };
            let failed = is_ret_submit_fail(r, h2, fail_len);
            let succeeded = r matches UsbIpResponse::UsbIpRetSubmit {
                header,
                status,
                actual_length,
                start_frame,
                number_of_packets,
                error_count,
                transfer_buffer,
                iso_packet_descriptor,
            } && header == h2 && status == 0 && start_frame == 0 && number_of_packets == 0
                && error_count == 0 && iso_packet_descriptor@.len() == 0 && actual_length == (
            if ep.spec_direction() is In {
                transfer_buffer@.len() as u32
            } else {
                transfer_buffer_length
            });
            &&& failed || succeeded
            &&& (idx is None && device.device_handler is None) ==> failed
        },
    }
}

/// One import attempt after UTF-8 decoding succeeded: the previously
/// imported device (if any) is released first, reaching `mid`; then the
/// requested id is occupied when available, filling the slot and
/// answering with the device's block, or the attempt fails, leaving the
/// slot empty and answering with the failure reply.
pub open spec fn import_mid_post(
    pre: UsbIpServer,
    mid: UsbIpServer,
    post: UsbIpServer,
    prev_slot: Option<String>,
    post_slot: Option<String>,
    id: Seq<char>,
    r: UsbIpResponse,
) -> bool {
    &&& match prev_slot {
        Some(p) => release_post(pre, mid, p@),
        None => mid == pre,
    }
    &&& if contains_id(mid.available_devices@, id) {
        &&& occupy_post(mid, post, id, true)
        &&& post_slot matches Some(s) && s@ == id
        &&& post.used_devices@.len() > 0
        &&& (r matches UsbIpResponse::OpRepImport { status, device } && status == 0 && (device
            matches Some(e) && block_matches_device(e, post.used_devices@.last())))
    } else {
        &&& post == mid
        &&& post_slot is None
        &&& r == (UsbIpResponse::OpRepImport { status: 1, device: None })
    }
}

impl UsbIpServer {
    /// Move every imported device back to the available set: the
    /// recovery pass of a server shutdown.
    pub fn cleanup(&mut self)
        requires
            old(self).wf(),
        ensures
            final(self).wf(),
            final(self).used_devices@.len() == 0,
            final(self).available_devices@ == old(self).available_devices@
                + old(self).used_devices@,
            final(self).all_ids() =~= old(self).all_ids(),
    {
        let ghost oa = self.available_devices@;
        let ghost ou = self.used_devices@;
        while self.used_devices.len() > 0
            invariant
                self.wf(),
                self.used_devices@.len() <= ou.len(),
                self.used_devices@ == ou.skip(ou.len() - self.used_devices@.len()),
                self.available_devices@ == oa + ou.take(ou.len() - self.used_devices@.len()),
                self.all_ids() =~= old(self).all_ids(),
            decreases self.used_devices@.len(),
        {
            let ghost pre = *self;
            let ghost j = ou.len() - self.used_devices@.len();
            let device = self.used_devices.remove(0);
            let id_in_avail = contains_device(&self.available_devices, device.bus_id.as_str());
            if !id_in_avail {
                self.available_devices.push(device);
                proof {
                    lemma_unmove_preserves_wf(pre, *self, 0, pre.used_devices@[0].bus_id@);
                    lemma_unmove_preserves_ids(pre, *self, 0, pre.used_devices@[0].bus_id@);
                    assert(0 <= j < ou.len());
                    assert(ou.skip(j)[0] == ou[j]);
                    assert(ou.skip(j).skip(1) =~= ou.skip(j + 1));
                    assert(oa + ou.take(j) + seq![ou[j]] =~= oa + ou.take(j + 1));
                }
            } else {
                proof {
                    let a = choose|a: int|
                        0 <= a < pre.available_devices@.len() && (
                        #[trigger] pre.available_devices@[a]).bus_id@ == pre.used_devices@[0].bus_id@;
                    assert(pre.available_devices@[a].bus_id@ != pre.used_devices@[0].bus_id@);
                }
            }
        }
        proof {
            assert(self.used_devices@ =~= ou.skip(ou.len() as int));
            assert(ou.take(ou.len() as int) =~= ou);
        }
    }

    /// Release every available device's backend claim and empty the
    /// available set: the platform-specific half of a shutdown, to run
    /// after `cleanup` where the OS keeps per-device driver claims.
    pub fn clear_available(&mut self)
        requires
            old(self).wf(),
        ensures
            final(self).wf(),
            final(self).available_devices@.len() == 0,
            final(self).used_devices == old(self).used_devices,
    {
        let n = self.available_devices.len();
        let mut i: usize = 0;
        while i < n
            invariant
                i <= n,
                *self == *old(self),
                n == self.available_devices@.len(),
            decreases n - i,
        {
            match &self.available_devices[i].device_handler {
                Some(h) => h.release_claim(),
                None => (),
            }
            i = i + 1;
        }
        self.available_devices = Vec::new();
    }

    /// Borrow the imported device with this bus id, when one is.
    pub fn used_device(&self, bus_id: &str) -> (r: Option<&UsbDevice>)
        ensures
            match r {
                Some(d) => {
                    &&& contains_id(self.used_devices@, bus_id@)
                    &&& d.bus_id@ == bus_id@
                    &&& exists|i: int|
                        0 <= i < self.used_devices@.len() && self.used_devices@[i] == *d
                },
                None => !contains_id(self.used_devices@, bus_id@),
            },
    {
        match position_of(&self.used_devices, bus_id) {
            Some(i) => {
                proof {
                    assert(self.used_devices@[i as int] == self.used_devices@[i as int]);
                }
                Some(&self.used_devices[i])
            },
            None => None,
        }
    }

    /// How many devices are free to import.
    pub fn available_count(&self) -> (r: usize)
        ensures
            r == self.available_devices@.len(),
    {
        self.available_devices.len()
    }

    /// How many devices connections have imported.
    pub fn used_count(&self) -> (r: usize)
        ensures
            r == self.used_devices@.len(),
    {
        self.used_devices.len()
    }

    /// Is a device with this bus id free to import?
    pub fn available_contains(&self, bus_id: &str) -> (r: bool)
        ensures
            r == contains_id(self.available_devices@, bus_id@),
    {
        contains_device(&self.available_devices, bus_id)
    }

    /// Has a connection imported the device with this bus id?
    pub fn used_contains(&self, bus_id: &str) -> (r: bool)
        ensures
            r == contains_id(self.used_devices@, bus_id@),
    {
        contains_device(&self.used_devices, bus_id)
    }

    /// Answer OP_REQ_DEVLIST: a snapshot of the available set.
    pub fn handle_op_req_devlist(&self) -> (r: UsbIpResponse)
        requires
            self.wf(),
            self.available_devices@.len() <= 0xffffffff,
        ensures
            devlist_response_matches(r, self.available_devices@),
    {
        UsbIpResponse::op_rep_devlist(&self.available_devices)
    }

    /// Answer OP_REQ_IMPORT: decode the NUL-padded 32-byte bus-id field
    /// as UTF-8 (`InvalidBusId` when it is not valid text), release any
    /// device this connection already holds (re-import replaces, never
    /// stacks), then occupy the requested device. Success stores the
    /// device's bus id in the connection's slot and answers with its
    /// description; failure leaves the slot empty and answers with the
    /// failure reply.
    pub fn handle_op_req_import(
        &mut self,
        busid: [u8; 32],
        imported_device: &mut Option<String>,
    ) -> (r: Result<UsbIpResponse, UsbIpError>)
        requires
            old(self).wf(),
        ensures
            final(self).wf(),
            final(self).all_ids() =~= old(self).all_ids(),
            !valid_utf8(busid@.take(nul_pos(busid@))) ==> {
                &&& r == Err::<UsbIpResponse, UsbIpError>(UsbIpError::InvalidBusId)
                &&& *final(self) == *old(self)
                &&& *final(imported_device) == *old(imported_device)
            },
            valid_utf8(busid@.take(nul_pos(busid@))) ==> (r matches Ok(resp) && exists|
                mid: UsbIpServer,
            |
                import_mid_post(
                    *old(self),
                    mid,
                    *final(self),
                    *old(imported_device),
                    *final(imported_device),
                    decode_utf8(busid@.take(nul_pos(busid@))),
                    resp,
                )),
    {
        let trimmed = trim_at_nul(busid.as_slice());
        let s = match parse_utf8(trimmed) {
            Some(s) => s,
            None => {
                return Err(UsbIpError::InvalidBusId);
            },
        };
        match imported_device.take() {
            Some(prev) => self.release(prev.as_str()),
            None => (),
        }
        let ghost mid = *self;
        match self.occupy(s) {
            Ok(()) => {
                let n = self.used_devices.len();
                let resp = UsbIpResponse::op_rep_import_success(&self.used_devices[n - 1]);
                *imported_device = Some(s.to_owned());
                proof {
                    assert(import_mid_post(
                        *old(self),
                        mid,
                        *final(self),
                        *old(imported_device),
                        *final(imported_device),
                        decode_utf8(busid@.take(nul_pos(busid@))),
                        resp,
                    ));
                }
                Ok(resp)
            },
            Err(_) => {
                let resp = UsbIpResponse::op_rep_import_fail();
                proof {
                    assert(import_mid_post(
                        *old(self),
                        mid,
                        *final(self),
                        *old(imported_device),
                        *final(imported_device),
                        decode_utf8(busid@.take(nul_pos(busid@))),
                        resp,
                    ));
                }
                Ok(resp)
            },
        }
    }

    /// Answer USBIP_CMD_SUBMIT against an imported device: resolve the
    /// addressed endpoint, dispatch the URB to the matching handler,
    /// and encode the completion per the direction rules. An unknown
    /// endpoint or a failed handler yields a failure reply; the
    /// connection is never torn down by a URB failure.
    pub fn handle_usbip_cmd_submit(
        &self,
        header: UsbIpHeaderBasic,
        transfer_buffer_length: u32,
        setup: [u8; 8],
        data: Vec<u8>,
        device: &UsbDevice,
    ) -> (r: UsbIpResponse)
        ensures
            submit_post(*device, header, transfer_buffer_length, r),
    {
        let out = header.direction == 0;
        let real_ep: u8 = if out {
            (header.ep % 256) as u8
        } else {
            (header.ep % 128 + 128) as u8
        };
        let header2 = UsbIpHeaderBasic {
            command: USBIP_RET_SUBMIT,
            seqnum: header.seqnum,
            devid: 0,
            direction: 0,
            ep: 0,
        };
        match device.find_ep(real_ep) {
            None => UsbIpResponse::usbip_ret_submit_fail(&header2, 0),
            Some((ep, intf_idx)) => {
                let setup_packet = SetupPacket::parse(&setup);
                match device.handle_urb(ep, intf_idx, transfer_buffer_length, setup_packet, &data) {
                    Ok(resp) => {
                        let actual_length: u32 = match ep.direction() {
                            Direction::In => #[verifier::truncate] (resp.len() as u32),
                            Direction::Out => transfer_buffer_length,
                        };
                        UsbIpResponse::usbip_ret_submit_success(
                            &header2,
                            0,
                            actual_length,
                            resp,
                            Vec::new(),
                        )
                    },
                    Err(_) => {
                        let actual_length: u32 = match ep.direction() {
                            Direction::In => 0,
                            Direction::Out => transfer_buffer_length,
                        };
                        UsbIpResponse::usbip_ret_submit_fail(&header2, actual_length)
                    },
                }
            },
        }
    }

    /// Answer USBIP_CMD_UNLINK: always acknowledged as successful. This
    /// server does not track in-flight cancellable transfers, so the
    /// acknowledgment carries no cancellation.
    pub fn handle_usbip_cmd_unlink(&self, header: UsbIpHeaderBasic, unlink_seqnum: u32) -> (r:
        UsbIpResponse)
        ensures
            r == (UsbIpResponse::UsbIpRetUnlink {
                header: spec_reply_header(header, USBIP_RET_UNLINK),
                status: 0,
            }),
    {
        let header2 = UsbIpHeaderBasic {
            command: USBIP_RET_UNLINK,
            seqnum: header.seqnum,
            devid: 0,
            direction: 0,
            ep: 0,
        };
        let _ = unlink_seqnum;
        UsbIpResponse::usbip_ret_unlink_success(&header2)
    }
}

/// Law: in a well-formed pool no bus id is both available and in use,
/// at any instant.
pub proof fn lemma_pool_disjoint(p: UsbIpServer)
    requires
        p.wf(),
    ensures
        p.available_ids().intersect(p.used_ids()) =~= Set::empty(),
{
    assert forall|id: Seq<char>|
        !(p.available_ids().contains(id) && p.used_ids().contains(id)) by {
        if contains_id(p.available_devices@, id) && contains_id(p.used_devices@, id) {
            let i = choose|i: int|
                0 <= i < p.available_devices@.len() && (
                #[trigger] p.available_devices@[i]).bus_id@ == id;
            let j = choose|j: int|
                0 <= j < p.used_devices@.len() && (#[trigger] p.used_devices@[j]).bus_id@ == id;
            assert(p.available_devices@[i].bus_id@ != p.used_devices@[j].bus_id@);
        }
    }
}

/// Law: after a successful `occupy(id)`, the id is no longer available,
/// so a second `occupy(id)` must fail; and the device that moved to the
/// used set carries exactly the requested id, so `occupy` never hands
/// out another device.
pub proof fn lemma_occupy_exclusive(pre: UsbIpServer, post: UsbIpServer, id: Seq<char>)
    requires
        pre.wf(),
        occupy_post(pre, post, id, true),
    ensures
        !contains_id(post.available_devices@, id),
        post.used_devices@.len() > 0,
        post.used_devices@.last().bus_id@ == id,
{
    let i = choose|i: int|
        {
            &&& 0 <= i < pre.available_devices@.len()
            &&& (#[trigger] pre.available_devices@[i]).bus_id@ == id
            &&& post.available_devices@ == pre.available_devices@.remove(i)
            &&& post.used_devices@ == pre.used_devices@.push(pre.available_devices@[i])
        };
    assert forall|k: int| 0 <= k < post.available_devices@.len() implies (
    #[trigger] post.available_devices@[k]).bus_id@ != id by {
        let k0: int = if k < i {
            k
        } else {
            k + 1
        };
        assert(post.available_devices@[k] == pre.available_devices@[k0]);
        if k0 != i {
            assert(pre.available_devices@[k0].bus_id@ != pre.available_devices@[i].bus_id@);
        }
    }
}

/// Law: of two occupy attempts for the same bus id, one after the
/// other, at most one succeeds; and when the id was available to begin
/// with, the first one does. Under the pool's lock, concurrent imports
/// of one device serialize into exactly this picture: one winner.
pub proof fn lemma_occupy_one_winner(
    p0: UsbIpServer,
    p1: UsbIpServer,
    p2: UsbIpServer,
    id: Seq<char>,
    ok1: bool,
    ok2: bool,
)
    requires
        p0.wf(),
        occupy_post(p0, p1, id, ok1),
        occupy_post(p1, p2, id, ok2),
    ensures
        !(ok1 && ok2),
        contains_id(p0.available_devices@, id) ==> ok1,
{
    if ok1 {
        lemma_occupy_exclusive(p0, p1, id);
    }
}

/// Count of an id is zero exactly when no device carries it.
pub proof fn lemma_count_id_zero(devs: Seq<UsbDevice>, id: Seq<char>)
    ensures
        (count_id(devs, id) == 0) <==> !contains_id(devs, id),
        count_id(devs, id) >= 0,
    decreases devs.len(),
{
    if devs.len() == 0 {
    } else {
        lemma_count_id_zero(devs.skip(1), id);
        if contains_id(devs, id) {
            let i = choose|i: int| 0 <= i < devs.len() && (#[trigger] devs[i]).bus_id@ == id;
            if i > 0 {
                assert(devs.skip(1)[i - 1] == devs[i]);
            }
        }
        if contains_id(devs.skip(1), id) {
            let i = choose|i: int|
                0 <= i < devs.skip(1).len() && (#[trigger] devs.skip(1)[i]).bus_id@ == id;
            assert(devs[i + 1] == devs.skip(1)[i]);
        }
    }
}

/// Counting distributes over appending one device.
pub proof fn lemma_count_id_push(devs: Seq<UsbDevice>, d: UsbDevice, id: Seq<char>)
    ensures
        count_id(devs.push(d), id) == count_id(devs, id) + (if d.bus_id@ == id {
            1int
        } else {
            0int
        }),
    decreases devs.len(),
{
    if devs.len() == 0 {
        assert(devs.push(d)[0] == d);
        assert(devs.push(d).skip(1) =~= Seq::<UsbDevice>::empty());
        assert(count_id(Seq::<UsbDevice>::empty(), id) == 0);
        assert(count_id(devs.push(d), id) == (if d.bus_id@ == id {
            1int
        } else {
            0int
        }) + count_id(devs.push(d).skip(1), id));
    } else {
        assert(devs.push(d)[0] == devs[0]);
        assert(devs.push(d).skip(1) =~= devs.skip(1).push(d));
        lemma_count_id_push(devs.skip(1), d, id);
        assert(count_id(devs.push(d), id) == (if devs[0].bus_id@ == id {
            1int
        } else {
            0int
        }) + count_id(devs.skip(1).push(d), id));
        assert(count_id(devs, id) == (if devs[0].bus_id@ == id {
            1int
        } else {
            0int
        }) + count_id(devs.skip(1), id));
    }
}

/// Law: releasing the same device twice leaves the available set with
/// exactly one copy of it, and the second release changes nothing.
pub proof fn lemma_release_idempotent(
    p0: UsbIpServer,
    p1: UsbIpServer,
    p2: UsbIpServer,
    id: Seq<char>,
)
    requires
        p0.wf(),
        contains_id(p0.used_devices@, id),
        release_post(p0, p1, id),
        release_post(p1, p2, id),
    ensures
        p2 == p1,
        count_id(p1.available_devices@, id) == 1,
{
    let i = choose|i: int|
        {
            &&& 0 <= i < p0.used_devices@.len()
            &&& (#[trigger] p0.used_devices@[i]).bus_id@ == id
            &&& p1.used_devices@ == p0.used_devices@.remove(i)
            &&& p1.available_devices@ == if contains_id(p0.available_devices@, id) {
                p0.available_devices@
            } else {
                p0.available_devices@.push(p0.used_devices@[i])
            }
        };
    assert(!contains_id(p0.available_devices@, id)) by {
        if contains_id(p0.available_devices@, id) {
            let a = choose|a: int|
                0 <= a < p0.available_devices@.len() && (
                #[trigger] p0.available_devices@[a]).bus_id@ == id;
            assert(p0.available_devices@[a].bus_id@ != p0.used_devices@[i].bus_id@);
        }
    }
    assert forall|k: int| 0 <= k < p1.used_devices@.len() implies (
    #[trigger] p1.used_devices@[k]).bus_id@ != id by {
        let k0: int = if k < i {
            k
        } else {
            k + 1
        };
        assert(p1.used_devices@[k] == p0.used_devices@[k0]);
        if k0 != i {
            assert(p0.used_devices@[k0].bus_id@ != p0.used_devices@[i].bus_id@);
        }
    }
    assert(!contains_id(p1.used_devices@, id));
    lemma_count_id_zero(p0.available_devices@, id);
    lemma_count_id_push(p0.available_devices@, p0.used_devices@[i], id);
}

/// Removing the only device with `id` from the available set removes
/// exactly that id from the pool's id set.
proof fn lemma_remove_id_sets(
    pre: Seq<UsbDevice>,
    post: Seq<UsbDevice>,
    used: Seq<UsbDevice>,
    i: int,
    id: Seq<char>,
)
    requires
        0 <= i < pre.len(),
        pre[i].bus_id@ == id,
        unique_ids(pre),
        post == pre.remove(i),
        forall|a: int, j: int|
            0 <= a < pre.len() && 0 <= j < used.len() ==> (#[trigger] pre[a]).bus_id@ != (
            #[trigger] used[j]).bus_id@,
    ensures
        Set::new(|x: Seq<char>| contains_id(post, x)).union(
            Set::new(|x: Seq<char>| contains_id(used, x)),
        ) =~= Set::new(|x: Seq<char>| contains_id(pre, x)).union(
            Set::new(|x: Seq<char>| contains_id(used, x)),
        ).remove(id),
{
    assert forall|x: Seq<char>| contains_id(post, x) implies contains_id(pre, x) && x != id by {
        let k = choose|k: int| 0 <= k < post.len() && (#[trigger] post[k]).bus_id@ == x;
        let k0: int = if k < i {
            k
        } else {
            k + 1
        };
        assert(post[k] == pre[k0]);
        assert(pre[k0].bus_id@ == x);
        if x == id {
            assert(k0 != i);
            assert(pre[k0].bus_id@ != pre[i].bus_id@);
        }
    }
    assert forall|x: Seq<char>| contains_id(pre, x) && x != id implies contains_id(post, x) by {
        let k = choose|k: int| 0 <= k < pre.len() && (#[trigger] pre[k]).bus_id@ == x;
        assert(k != i);
        let k1: int = if k < i {
            k
        } else {
            k - 1
        };
        assert(post[k1] == pre[k]);
    }
    assert(!contains_id(used, id)) by {
        if contains_id(used, id) {
            let j = choose|j: int| 0 <= j < used.len() && (#[trigger] used[j]).bus_id@ == id;
            assert(pre[i].bus_id@ != used[j].bus_id@);
        }
    }
}

/// Moving one device from the available to the used set keeps the pool
/// well formed.
proof fn lemma_move_preserves_wf(pre: UsbIpServer, post: UsbIpServer, i: int, id: Seq<char>)
    requires
        pre.wf(),
        0 <= i < pre.available_devices@.len(),
        pre.available_devices@[i].bus_id@ == id,
        post.available_devices@ == pre.available_devices@.remove(i),
        post.used_devices@ == pre.used_devices@.push(pre.available_devices@[i]),
    ensures
        post.wf(),
{
    let pa = pre.available_devices@;
    let pu = pre.used_devices@;
    let qa = post.available_devices@;
    let qu = post.used_devices@;
    assert forall|a: int, b: int| 0 <= a < b < qa.len() implies (#[trigger] qa[a]).bus_id@ != (
    #[trigger] qa[b]).bus_id@ by {
        let a0: int = if a < i {
            a
        } else {
            a + 1
        };
        let b0: int = if b < i {
            b
        } else {
            b + 1
        };
        assert(qa[a] == pa[a0] && qa[b] == pa[b0]);
    }
    assert forall|a: int, b: int| 0 <= a < b < qu.len() implies (#[trigger] qu[a]).bus_id@ != (
    #[trigger] qu[b]).bus_id@ by {
        if b == qu.len() - 1 {
            assert(qu[a] == pu[a] && qu[b] == pa[i]);
        } else {
            assert(qu[a] == pu[a] && qu[b] == pu[b]);
        }
    }
    assert forall|a: int, j: int| 0 <= a < qa.len() && 0 <= j < qu.len() implies (
    #[trigger] qa[a]).bus_id@ != (#[trigger] qu[j]).bus_id@ by {
        let a0: int = if a < i {
            a
        } else {
            a + 1
        };
        assert(qa[a] == pa[a0]);
        if j == qu.len() - 1 {
            assert(qu[j] == pa[i]);
            assert(a0 != i);
            assert(pa[a0].bus_id@ != pa[i].bus_id@);
        } else {
            assert(qu[j] == pu[j]);
        }
    }
    assert forall|a: int| 0 <= a < qa.len() implies (#[trigger] qa[a]).wf() by {
        let a0: int = if a < i {
            a
        } else {
            a + 1
        };
        assert(qa[a] == pa[a0]);
    }
    assert forall|j: int| 0 <= j < qu.len() implies (#[trigger] qu[j]).wf() by {
        if j == qu.len() - 1 {
            assert(qu[j] == pa[i]);
        } else {
            assert(qu[j] == pu[j]);
        }
    }
}

/// Moving one device from the available to the used set keeps the
/// pool's id set unchanged.
proof fn lemma_move_preserves_ids(pre: UsbIpServer, post: UsbIpServer, i: int, id: Seq<char>)
    requires
        0 <= i < pre.available_devices@.len(),
        pre.available_devices@[i].bus_id@ == id,
        post.available_devices@ == pre.available_devices@.remove(i),
        post.used_devices@ == pre.used_devices@.push(pre.available_devices@[i]),
    ensures
        post.all_ids() =~= pre.all_ids(),
{
    let pa = pre.available_devices@;
    let pu = pre.used_devices@;
    let qa = post.available_devices@;
    let qu = post.used_devices@;
    assert forall|x: Seq<char>| contains_id(qa, x) implies contains_id(pa, x) by {
        let k = choose|k: int| 0 <= k < qa.len() && (#[trigger] qa[k]).bus_id@ == x;
        let k0: int = if k < i {
            k
        } else {
            k + 1
        };
        assert(qa[k] == pa[k0]);
        assert(pa[k0].bus_id@ == x);
    }
    assert forall|x: Seq<char>| contains_id(qu, x) implies contains_id(pu, x) || x == id by {
        let k = choose|k: int| 0 <= k < qu.len() && (#[trigger] qu[k]).bus_id@ == x;
        if k < pu.len() {
            assert(qu[k] == pu[k]);
            assert(pu[k].bus_id@ == x);
        } else {
            assert(qu[k] == pa[i]);
        }
    }
    assert forall|x: Seq<char>| contains_id(pa, x) implies contains_id(qa, x) || x == id by {
        let k = choose|k: int| 0 <= k < pa.len() && (#[trigger] pa[k]).bus_id@ == x;
        if k != i {
            let k1: int = if k < i {
                k
            } else {
                k - 1
            };
            assert(qa[k1] == pa[k]);
            assert(qa[k1].bus_id@ == x);
        }
    }
    assert forall|x: Seq<char>| contains_id(pu, x) implies contains_id(qu, x) by {
        let k = choose|k: int| 0 <= k < pu.len() && (#[trigger] pu[k]).bus_id@ == x;
        assert(qu[k] == pu[k]);
        assert(qu[k].bus_id@ == x);
    }
    assert(contains_id(qu, id)) by {
        assert(qu[pu.len() as int] == pa[i]);
    }
}

/// Moving one device from the used to the available set keeps the pool
/// well formed.
proof fn lemma_unmove_preserves_wf(pre: UsbIpServer, post: UsbIpServer, i: int, id: Seq<char>)
    requires
        pre.wf(),
        0 <= i < pre.used_devices@.len(),
        pre.used_devices@[i].bus_id@ == id,
        post.used_devices@ == pre.used_devices@.remove(i),
        post.available_devices@ == pre.available_devices@.push(pre.used_devices@[i]),
    ensures
        post.wf(),
{
    let flipped_pre = UsbIpServer {
        available_devices: pre.used_devices,
        used_devices: pre.available_devices,
    };
    let flipped_post = UsbIpServer {
        available_devices: post.used_devices,
        used_devices: post.available_devices,
    };
    assert(flipped_pre.wf()) by {
        assert forall|a: int, j: int|
            0 <= a < pre.used_devices@.len() && 0 <= j < pre.available_devices@.len() implies (
        #[trigger] pre.used_devices@[a]).bus_id@ != (
        #[trigger] pre.available_devices@[j]).bus_id@ by {
            assert(pre.available_devices@[j].bus_id@ != pre.used_devices@[a].bus_id@);
        }
    }
    lemma_move_preserves_wf(flipped_pre, flipped_post, i, id);
    assert forall|a: int, j: int|
        0 <= a < post.available_devices@.len() && 0 <= j < post.used_devices@.len() implies (
    #[trigger] post.available_devices@[a]).bus_id@ != (
    #[trigger] post.used_devices@[j]).bus_id@ by {
        assert(flipped_post.available_devices@[j].bus_id@
            != flipped_post.used_devices@[a].bus_id@);
    }
}

/// Moving one device from the used to the available set keeps the
/// pool's id set unchanged.
proof fn lemma_unmove_preserves_ids(pre: UsbIpServer, post: UsbIpServer, i: int, id: Seq<char>)
    requires
        0 <= i < pre.used_devices@.len(),
        pre.used_devices@[i].bus_id@ == id,
        post.used_devices@ == pre.used_devices@.remove(i),
        post.available_devices@ == pre.available_devices@.push(pre.used_devices@[i]),
    ensures
        post.all_ids() =~= pre.all_ids(),
{
    let flipped_pre = UsbIpServer {
        available_devices: pre.used_devices,
        used_devices: pre.available_devices,
    };
    let flipped_post = UsbIpServer {
        available_devices: post.used_devices,
        used_devices: post.available_devices,
    };
    lemma_move_preserves_ids(flipped_pre, flipped_post, i, id);
    assert(post.all_ids() =~= flipped_post.all_ids());
    assert(pre.all_ids() =~= flipped_pre.all_ids());
}

} // verus!
