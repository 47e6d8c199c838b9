//! The USB/IP wire protocol: message types, their exact byte layouts as
//! specification functions, a verified encoder for every message the
//! server sends, and a verified decoder for every command it receives.
//!
//! All multi-byte fields are big-endian. The OP_* messages open with the
//! protocol version and a 16-bit code; the USBIP_* messages open with a
//! 32-bit command number and share the five-word basic header.

use vstd::prelude::*;
use vstd::utf8::encode_utf8;
use crate::consts::{
    OP_REP_DEVLIST, OP_REP_IMPORT, OP_REQ_DEVLIST, OP_REQ_IMPORT, USBIP_CMD_SUBMIT,
    USBIP_CMD_UNLINK, USBIP_RET_SUBMIT, USBIP_RET_UNLINK, USBIP_VERSION,
};
use crate::device::UsbDevice;
use crate::util::{
    be16, be32, pad_field, push_be16, push_be32, push_padded_bytes, push_zeros, read_be32, u32_of_be, zeros,
};

verus! {

/// The five-word header every USBIP_* message opens with. Reply headers
/// from the server carry devid, direction and ep forced to zero.
#[derive(Clone, Copy, Debug, PartialEq, Eq, Structural)]
pub struct UsbIpHeaderBasic {
    pub command: u32,
    pub seqnum: u32,
    pub devid: u32,
    pub direction: u32,
    pub ep: u32,
}

/// Byte layout of the basic header.
pub open spec fn spec_header_bytes(h: UsbIpHeaderBasic) -> Seq<u8> {
    be32(h.command) + be32(h.seqnum) + be32(h.devid) + be32(h.direction) + be32(h.ep)
}

/// The four bytes every OP_* message opens with: version, then code.
pub open spec fn op_word(code: u16) -> Seq<u8> {
    be16(USBIP_VERSION) + be16(code)
}

impl UsbIpHeaderBasic {
    /// Append the header's twenty bytes.
    pub fn push_bytes(&self, out: &mut Vec<u8>)
        ensures
            final(out)@ == old(out)@ + spec_header_bytes(*self),
    {
        push_be32(out, self.command);
        push_be32(out, self.seqnum);
        push_be32(out, self.devid);
        push_be32(out, self.direction);
        push_be32(out, self.ep);
        proof {
            assert(out@ =~= old(out)@ + spec_header_bytes(*self));
        }
    }
}

/// A command received from the client, one per loop iteration of a
/// connection.
#[derive(Clone, Debug, PartialEq, Eq)]
pub enum UsbIpCommand {
    /// OP_REQ_DEVLIST: list the exportable devices.
    OpReqDevlist { status: u32 },
    /// OP_REQ_IMPORT: claim the device named by the NUL-padded bus id.
    OpReqImport { status: u32, busid: [u8; 32] },
    /// USBIP_CMD_SUBMIT: one URB.
    UsbIpCmdSubmit {
        header: UsbIpHeaderBasic,
        transfer_flags: u32,
        transfer_buffer_length: u32,
        start_frame: u32,
        number_of_packets: u32,
        interval: u32,
        setup: [u8; 8],
        data: Vec<u8>,
    },
    /// USBIP_CMD_UNLINK: cancel the URB with the given sequence number.
    UsbIpCmdUnlink { header: UsbIpHeaderBasic, unlink_seqnum: u32 },
}

/// Byte layout of each command. A submit carries its data stage only
/// for OUT transfers; an unlink ends with 24 bytes of padding.
pub open spec fn spec_cmd_bytes(c: UsbIpCommand) -> Seq<u8> {
    match c {
        UsbIpCommand::OpReqDevlist { status } => op_word(OP_REQ_DEVLIST) + be32(status),
        UsbIpCommand::OpReqImport { status, busid } => op_word(OP_REQ_IMPORT) + be32(status)
            + busid@,
        UsbIpCommand::UsbIpCmdSubmit {
            header,
            transfer_flags,
            transfer_buffer_length,
            start_frame,
            number_of_packets,
            interval,
            setup,
            data,
        } => spec_header_bytes(header) + be32(transfer_flags) + be32(transfer_buffer_length)
            + be32(start_frame) + be32(number_of_packets) + be32(interval) + setup@ + data@,
        UsbIpCommand::UsbIpCmdUnlink { header, unlink_seqnum } => spec_header_bytes(header) + be32(
            unlink_seqnum,
        ) + zeros(24),
    }
}

impl UsbIpCommand {
    /// Well-formed commands: the USBIP_* headers carry their own
    /// command number, and a submit carries a data stage exactly when
    /// it is an OUT transfer, of the announced length.
    pub open spec fn wf(&self) -> bool {
        match *self {
            UsbIpCommand::OpReqDevlist { .. } => true,
            UsbIpCommand::OpReqImport { .. } => true,
            UsbIpCommand::UsbIpCmdSubmit { header, transfer_buffer_length, data, .. } => {
                &&& header.command == USBIP_CMD_SUBMIT
                &&& data@.len() == if header.direction == 0 {
                    transfer_buffer_length as int
                } else {
                    0
                }
            },
            UsbIpCommand::UsbIpCmdUnlink { header, .. } => header.command == USBIP_CMD_UNLINK,
        }
    }

    /// Serialize the command to its wire bytes.
    pub fn to_bytes(&self) -> (r: Vec<u8>)
        ensures
            r@ == spec_cmd_bytes(*self),
    {
        let mut out: Vec<u8> = Vec::new();
        match self {
            UsbIpCommand::OpReqDevlist { status } => {
                push_be16(&mut out, USBIP_VERSION);
                push_be16(&mut out, OP_REQ_DEVLIST);
                push_be32(&mut out, *status);
            },
            UsbIpCommand::OpReqImport { status, busid } => {
                push_be16(&mut out, USBIP_VERSION);
                push_be16(&mut out, OP_REQ_IMPORT);
                push_be32(&mut out, *status);
                push_padded_bytes(&mut out, busid.as_slice(), 32);
                proof {
                    assert(pad_field(busid@, 32) =~= busid@);
                }
            },
            UsbIpCommand::UsbIpCmdSubmit {
                header,
                transfer_flags,
                transfer_buffer_length,
                start_frame,
                number_of_packets,
                interval,
                setup,
                data,
            } => {
                header.push_bytes(&mut out);
                push_be32(&mut out, *transfer_flags);
                push_be32(&mut out, *transfer_buffer_length);
                push_be32(&mut out, *start_frame);
                push_be32(&mut out, *number_of_packets);
                push_be32(&mut out, *interval);
                push_padded_bytes(&mut out, setup.as_slice(), 8);
                push_padded_bytes(&mut out, data.as_slice(), data.len());
                proof {
                    assert(pad_field(setup@, 8) =~= setup@);
                    assert(pad_field(data@, data@.len()) =~= data@);
                }
            },
            UsbIpCommand::UsbIpCmdUnlink { header, unlink_seqnum } => {
                header.push_bytes(&mut out);
                push_be32(&mut out, *unlink_seqnum);
                push_zeros(&mut out, 24);
            },
        }
        proof {
            assert(out@ =~= spec_cmd_bytes(*self));
        }
        out
    }
}

/// Why the decoder returned no command.
#[derive(Clone, Copy, Debug, PartialEq, Eq, Structural)]
pub enum DecodeError {
    /// The buffer holds a prefix of a command; more bytes are needed.
    Incomplete,
    /// The first word is none of the four commands this server takes:
    /// the connection is torn down.
    UnknownCommand,
}

/// The 32-bit value read at offset `i`.
pub open spec fn spec_u32_at(b: Seq<u8>, i: int) -> u32 {
    u32_of_be(b[i], b[i + 1], b[i + 2], b[i + 3])
}

/// The first word of an OP_* message: version in the high half, code in
/// the low half.
pub open spec fn op_code_word(code: u16) -> u32 {
    (USBIP_VERSION as u32 * 0x10000 + code as u32) as u32
}

/// `b` is a wire encoding of `c`, byte for byte (an unlink's 24 padding
/// bytes may hold anything). The fields of `c` are all read off `b`, so
/// at most one command matches a given buffer.
pub open spec fn cmd_matches_bytes(c: UsbIpCommand, b: Seq<u8>) -> bool {
    match c {
        UsbIpCommand::OpReqDevlist { status } => {
            &&& b.len() == 8
            &&& spec_u32_at(b, 0) == op_code_word(OP_REQ_DEVLIST)
            &&& status == spec_u32_at(b, 4)
        },
        UsbIpCommand::OpReqImport { status, busid } => {
            &&& b.len() == 40
            &&& spec_u32_at(b, 0) == op_code_word(OP_REQ_IMPORT)
            &&& status == spec_u32_at(b, 4)
            &&& busid@ == b.subrange(8, 40)
        },
        UsbIpCommand::UsbIpCmdSubmit {
            header,
            transfer_flags,
            transfer_buffer_length,
            start_frame,
            number_of_packets,
            interval,
            setup,
            data,
        } => {
            &&& spec_u32_at(b, 0) == USBIP_CMD_SUBMIT
            &&& header.command == USBIP_CMD_SUBMIT
            &&& header.seqnum == spec_u32_at(b, 4)
            &&& header.devid == spec_u32_at(b, 8)
            &&& header.direction == spec_u32_at(b, 12)
            &&& header.ep == spec_u32_at(b, 16)
            &&& transfer_flags == spec_u32_at(b, 20)
            &&& transfer_buffer_length == spec_u32_at(b, 24)
            &&& start_frame == spec_u32_at(b, 28)
            &&& number_of_packets == spec_u32_at(b, 32)
            &&& interval == spec_u32_at(b, 36)
            &&& setup@ == b.subrange(40, 48)
            &&& data@ == b.skip(48)
            &&& b.len() == 48 + if header.direction == 0 {
                transfer_buffer_length as int
            } else {
                0
            }
        },
        UsbIpCommand::UsbIpCmdUnlink { header, unlink_seqnum } => {
            &&& b.len() == 48
            &&& spec_u32_at(b, 0) == USBIP_CMD_UNLINK
            &&& header.command == USBIP_CMD_UNLINK
            &&& header.seqnum == spec_u32_at(b, 4)
            &&& header.devid == spec_u32_at(b, 8)
            &&& header.direction == spec_u32_at(b, 12)
            &&& header.ep == spec_u32_at(b, 16)
            &&& unlink_seqnum == spec_u32_at(b, 20)
        },
    }
}

/// The first word opens one of the four commands this server takes.
pub open spec fn known_first_word(b: Seq<u8>) -> bool {
    ||| spec_u32_at(b, 0) == op_code_word(OP_REQ_DEVLIST)
    ||| spec_u32_at(b, 0) == op_code_word(OP_REQ_IMPORT)
    ||| spec_u32_at(b, 0) == USBIP_CMD_SUBMIT
    ||| spec_u32_at(b, 0) == USBIP_CMD_UNLINK
}

/// `b` holds a proper prefix of one command: reading more bytes can
/// complete it.
pub open spec fn incomplete_for(b: Seq<u8>) -> bool {
    ||| b.len() < 4
    ||| (spec_u32_at(b, 0) == op_code_word(OP_REQ_DEVLIST) && b.len() < 8)
    ||| (spec_u32_at(b, 0) == op_code_word(OP_REQ_IMPORT) && b.len() < 40)
    ||| (spec_u32_at(b, 0) == USBIP_CMD_UNLINK && b.len() < 48)
    ||| (spec_u32_at(b, 0) == USBIP_CMD_SUBMIT && (b.len() < 48 || (spec_u32_at(b, 12) == 0
        && b.len() < 48 + spec_u32_at(b, 24) as int)))
}

impl UsbIpCommand {
    /// Decode one command from the front of `buf`. `Ok` carries the
    /// command and how many bytes it took; `Incomplete` asks the caller
    /// to read more; `UnknownCommand` is fatal for the connection.
    pub fn decode(buf: &[u8]) -> (r: Result<(UsbIpCommand, usize), DecodeError>)
        ensures
            r matches Ok((c, n)) ==> {
                &&& n <= buf@.len()
                &&& cmd_matches_bytes(c, buf@.take(n as int))
                &&& c.wf()
            },
            r == Err::<(UsbIpCommand, usize), DecodeError>(DecodeError::Incomplete)
                <==> incomplete_for(buf@),
            r == Err::<(UsbIpCommand, usize), DecodeError>(DecodeError::UnknownCommand) <==> (
            !incomplete_for(buf@) && !known_first_word(buf@)),
    {
        if buf.len() < 4 {
            return Err(DecodeError::Incomplete);
        }
        let w0 = read_be32(buf, 0);
        let devlist_word = USBIP_VERSION as u32 * 0x10000 + OP_REQ_DEVLIST as u32;
        let import_word = USBIP_VERSION as u32 * 0x10000 + OP_REQ_IMPORT as u32;
        if w0 == devlist_word {
            if buf.len() < 8 {
                return Err(DecodeError::Incomplete);
            }
            let status = read_be32(buf, 4);
            let c = UsbIpCommand::OpReqDevlist { status };
            proof {
                assert(cmd_matches_bytes(c, buf@.take(8))) by {
                    assert(buf@.take(8).len() == 8);
                    assert(spec_u32_at(buf@.take(8), 0) == spec_u32_at(buf@, 0));
                    assert(spec_u32_at(buf@.take(8), 4) == spec_u32_at(buf@, 4));
                }
            }
            Ok((c, 8))
        } else if w0 == import_word {
            if buf.len() < 40 {
                return Err(DecodeError::Incomplete);
            }
            let status = read_be32(buf, 4);
            let busid: [u8; 32] = [
                buf[8],
                buf[9],
                buf[10],
                buf[11],
                buf[12],
                buf[13],
                buf[14],
                buf[15],
                buf[16],
                buf[17],
                buf[18],
                buf[19],
                buf[20],
                buf[21],
                buf[22],
                buf[23],
                buf[24],
                buf[25],
                buf[26],
                buf[27],
                buf[28],
                buf[29],
                buf[30],
                buf[31],
                buf[32],
                buf[33],
                buf[34],
                buf[35],
                buf[36],
                buf[37],
                buf[38],
                buf[39],
            ];
            let c = UsbIpCommand::OpReqImport { status, busid };
            proof {
                assert(cmd_matches_bytes(c, buf@.take(40))) by {
                    assert(spec_u32_at(buf@.take(40), 0) == spec_u32_at(buf@, 0));
                    assert(spec_u32_at(buf@.take(40), 4) == spec_u32_at(buf@, 4));
                    assert(busid@ =~= buf@.take(40).subrange(8, 40));
                }
            }
            Ok((c, 40))
        } else if w0 == USBIP_CMD_SUBMIT {
            if buf.len() < 48 {
                return Err(DecodeError::Incomplete);
            }
            let header = UsbIpHeaderBasic {
                command: w0,
                seqnum: read_be32(buf, 4),
                devid: read_be32(buf, 8),
                direction: read_be32(buf, 12),
                ep: read_be32(buf, 16),
            };
            let transfer_flags = read_be32(buf, 20);
            let transfer_buffer_length = read_be32(buf, 24);
            let start_frame = read_be32(buf, 28);
            let number_of_packets = read_be32(buf, 32);
            let interval = read_be32(buf, 36);
            let setup: [u8; 8] = [
                buf[40],
                buf[41],
                buf[42],
                buf[43],
                buf[44],
                buf[45],
                buf[46],
                buf[47],
            ];
            let out = header.direction == 0;
            let data_len: u64 = if out {
                transfer_buffer_length as u64
            } else {
                0
            };
            let rem: usize = buf.len() - 48;
            if (rem as u64) < data_len {
                return Err(DecodeError::Incomplete);
            }
            let n_data: usize = data_len as usize;
            proof {
                assert(n_data == data_len);
            }
            let mut data: Vec<u8> = Vec::new();
            let mut k: usize = 0;
            while k < n_data
                invariant
                    k <= n_data,
                    48 + n_data <= buf@.len(),
                    buf@.len() <= usize::MAX,
                    data@ == buf@.subrange(48, 48 + k as int),
                decreases n_data - k,
            {
                data.push(buf[48 + k]);
                proof {
                    assert(data@ =~= buf@.subrange(48, 48 + k as int + 1));
                }
                k = k + 1;
            }
            let n: usize = 48 + n_data;
            let c = UsbIpCommand::UsbIpCmdSubmit {
                header,
                transfer_flags,
                transfer_buffer_length,
                start_frame,
                number_of_packets,
                interval,
                setup,
                data,
            };
            proof {
                let t = buf@.take(n as int);
                assert(cmd_matches_bytes(c, t)) by {
                    assert(spec_u32_at(t, 0) == spec_u32_at(buf@, 0));
                    assert(spec_u32_at(t, 4) == spec_u32_at(buf@, 4));
                    assert(spec_u32_at(t, 8) == spec_u32_at(buf@, 8));
                    assert(spec_u32_at(t, 12) == spec_u32_at(buf@, 12));
                    assert(spec_u32_at(t, 16) == spec_u32_at(buf@, 16));
                    assert(spec_u32_at(t, 20) == spec_u32_at(buf@, 20));
                    assert(spec_u32_at(t, 24) == spec_u32_at(buf@, 24));
                    assert(spec_u32_at(t, 28) == spec_u32_at(buf@, 28));
                    assert(spec_u32_at(t, 32) == spec_u32_at(buf@, 32));
                    assert(spec_u32_at(t, 36) == spec_u32_at(buf@, 36));
                    assert(setup@ =~= t.subrange(40, 48));
                    assert(data@ =~= t.skip(48));
                }
            }
            Ok((c, n))
        } else if w0 == USBIP_CMD_UNLINK {
            if buf.len() < 48 {
                return Err(DecodeError::Incomplete);
            }
            let header = UsbIpHeaderBasic {
                command: w0,
                seqnum: read_be32(buf, 4),
                devid: read_be32(buf, 8),
                direction: read_be32(buf, 12),
                ep: read_be32(buf, 16),
            };
            let unlink_seqnum = read_be32(buf, 20);
            let c = UsbIpCommand::UsbIpCmdUnlink { header, unlink_seqnum };
            proof {
                let t = buf@.take(48);
                assert(cmd_matches_bytes(c, t)) by {
                    assert(spec_u32_at(t, 0) == spec_u32_at(buf@, 0));
                    assert(spec_u32_at(t, 4) == spec_u32_at(buf@, 4));
                    assert(spec_u32_at(t, 8) == spec_u32_at(buf@, 8));
                    assert(spec_u32_at(t, 12) == spec_u32_at(buf@, 12));
                    assert(spec_u32_at(t, 16) == spec_u32_at(buf@, 16));
                    assert(spec_u32_at(t, 20) == spec_u32_at(buf@, 20));
                }
            }
            Ok((c, 48))
        } else {
            Err(DecodeError::UnknownCommand)
        }
    }
}

/// `r` is the exact failure reply of a submit: status 1, the reported
/// length, empty buffers, zero frame and packet counts.
pub open spec fn is_ret_submit_fail(r: UsbIpResponse, h: UsbIpHeaderBasic, length: u32) -> bool {
    r matches UsbIpResponse::UsbIpRetSubmit {
        header,
        status,
        actual_length,
        start_frame,
        number_of_packets,
        error_count,
        transfer_buffer,
        iso_packet_descriptor,
    } && header == h && status == 1 && actual_length == length && start_frame == 0
        && number_of_packets == 0 && error_count == 0 && transfer_buffer@.len() == 0
        && iso_packet_descriptor@.len() == 0
}

/// The two commands are the same message: equal in every field, with
/// the submit data stage compared by contents.
pub open spec fn cmd_like(c1: UsbIpCommand, c2: UsbIpCommand) -> bool {
    match (c1, c2) {
        (
            UsbIpCommand::OpReqDevlist { status: s1 },
            UsbIpCommand::OpReqDevlist { status: s2 },
        ) => s1 == s2,
        (
            UsbIpCommand::OpReqImport { status: s1, busid: b1 },
            UsbIpCommand::OpReqImport { status: s2, busid: b2 },
        ) => s1 == s2 && b1 == b2,
        (
            UsbIpCommand::UsbIpCmdSubmit {
                header: h1,
                transfer_flags: f1,
                transfer_buffer_length: l1,
                start_frame: sf1,
                number_of_packets: np1,
                interval: i1,
                setup: s1,
                data: d1,
            },
            UsbIpCommand::UsbIpCmdSubmit {
                header: h2,
                transfer_flags: f2,
                transfer_buffer_length: l2,
                start_frame: sf2,
                number_of_packets: np2,
                interval: i2,
                setup: s2,
                data: d2,
            },
        ) => h1 == h2 && f1 == f2 && l1 == l2 && sf1 == sf2 && np1 == np2 && i1 == i2 && s1 == s2
            && d1@ == d2@,
        (
            UsbIpCommand::UsbIpCmdUnlink { header: h1, unlink_seqnum: u1 },
            UsbIpCommand::UsbIpCmdUnlink { header: h2, unlink_seqnum: u2 },
        ) => h1 == h2 && u1 == u2,
        _ => false,
    }
}

/// Law: a buffer is the encoding of at most one command.
pub proof fn lemma_cmd_matches_unique(c1: UsbIpCommand, c2: UsbIpCommand, b: Seq<u8>)
    requires
        cmd_matches_bytes(c1, b),
        cmd_matches_bytes(c2, b),
    ensures
        cmd_like(c1, c2),
{
    match (c1, c2) {
        (
            UsbIpCommand::OpReqImport { busid: a1, .. },
            UsbIpCommand::OpReqImport { busid: a2, .. },
        ) => {
            assert(a1@ =~= a2@);
            assert(a1 == a2);
        },
        (
            UsbIpCommand::UsbIpCmdSubmit { setup: s1, data: d1, .. },
            UsbIpCommand::UsbIpCmdSubmit { setup: s2, data: d2, .. },
        ) => {
            assert(s1@ =~= s2@);
            assert(s1 == s2);
            assert(d1@ =~= d2@);
        },
        _ => {},
    }
}

/// Reading four bytes inside `a` is unchanged by appending `b`.
proof fn lemma_u32_at_extend(a: Seq<u8>, b: Seq<u8>, i: int)
    requires
        0 <= i,
        i + 4 <= a.len(),
    ensures
        spec_u32_at(a + b, i) == spec_u32_at(a, i),
{
    assert((a + b)[i] == a[i]);
    assert((a + b)[i + 1] == a[i + 1]);
    assert((a + b)[i + 2] == a[i + 2]);
    assert((a + b)[i + 3] == a[i + 3]);
}

/// Reading the four bytes just appended yields the appended value.
proof fn lemma_u32_at_end(a: Seq<u8>, x: u32)
    ensures
        spec_u32_at(a + be32(x), a.len() as int) == x,
{
    let c = a + be32(x);
    let n = a.len() as int;
    assert(c[n] == be32(x)[0]);
    assert(c[n + 1] == be32(x)[1]);
    assert(c[n + 2] == be32(x)[2]);
    assert(c[n + 3] == be32(x)[3]);
}

/// The ten header and transfer words of a submit or unlink command,
/// read back off the left-nested concatenation as they were written.
#[verifier::rlimit(100)]
proof fn lemma_header_words(h: UsbIpHeaderBasic, tail: Seq<u8>)
    ensures
        spec_u32_at(spec_header_bytes(h) + tail, 0) == h.command,
        spec_u32_at(spec_header_bytes(h) + tail, 4) == h.seqnum,
        spec_u32_at(spec_header_bytes(h) + tail, 8) == h.devid,
        spec_u32_at(spec_header_bytes(h) + tail, 12) == h.direction,
        spec_u32_at(spec_header_bytes(h) + tail, 16) == h.ep,
{
    let s1 = be32(h.command);
    let s2 = s1 + be32(h.seqnum);
    let s3 = s2 + be32(h.devid);
    let s4 = s3 + be32(h.direction);
    let s5 = s4 + be32(h.ep);
    assert(spec_header_bytes(h) == s5);
    assert(spec_u32_at(s1, 0) == h.command);
    lemma_u32_at_end(s1, h.seqnum);
    lemma_u32_at_extend(s1, be32(h.seqnum), 0);
    lemma_u32_at_end(s2, h.devid);
    lemma_u32_at_extend(s2, be32(h.devid), 0);
    lemma_u32_at_extend(s2, be32(h.devid), 4);
    lemma_u32_at_end(s3, h.direction);
    lemma_u32_at_extend(s3, be32(h.direction), 0);
    lemma_u32_at_extend(s3, be32(h.direction), 4);
    lemma_u32_at_extend(s3, be32(h.direction), 8);
    lemma_u32_at_end(s4, h.ep);
    lemma_u32_at_extend(s4, be32(h.ep), 0);
    lemma_u32_at_extend(s4, be32(h.ep), 4);
    lemma_u32_at_extend(s4, be32(h.ep), 8);
    lemma_u32_at_extend(s4, be32(h.ep), 12);
    lemma_u32_at_extend(s5, tail, 0);
    lemma_u32_at_extend(s5, tail, 4);
    lemma_u32_at_extend(s5, tail, 8);
    lemma_u32_at_extend(s5, tail, 12);
    lemma_u32_at_extend(s5, tail, 16);
}

/// Encode-matches, submit case: every field reads back off the wire.
#[verifier::rlimit(100)]
proof fn lemma_encode_matches_submit(c: UsbIpCommand)
    requires
        c.wf(),
        c is UsbIpCmdSubmit,
    ensures
        cmd_matches_bytes(c, spec_cmd_bytes(c)),
{
    let e = spec_cmd_bytes(c);
    match c {
        UsbIpCommand::UsbIpCmdSubmit {
            header,
            transfer_flags,
            transfer_buffer_length,
            start_frame,
            number_of_packets,
            interval,
            setup,
            data,
        } => {
            let hb = spec_header_bytes(header);
            let s6 = hb + be32(transfer_flags);
            let s7 = s6 + be32(transfer_buffer_length);
            let s8 = s7 + be32(start_frame);
            let s9 = s8 + be32(number_of_packets);
            let s10 = s9 + be32(interval);
            let s11 = s10 + setup@;
            let s12 = s11 + data@;
            assert(e == s12);
            lemma_header_words(header, be32(transfer_flags));
            lemma_u32_at_end(hb, transfer_flags);
            lemma_u32_at_end(s6, transfer_buffer_length);
            lemma_u32_at_end(s7, start_frame);
            lemma_u32_at_end(s8, number_of_packets);
            lemma_u32_at_end(s9, interval);
            let rest7 = be32(start_frame) + be32(number_of_packets) + be32(interval) + setup@
                + data@;
            assert(s12 =~= s7 + rest7);
            assert(spec_u32_at(s12, 0) == spec_u32_at(s7, 0)) by {
                lemma_u32_at_extend(s7, rest7, 0);
            }
            assert(spec_u32_at(s7, 0) == spec_u32_at(s6, 0)) by {
                lemma_u32_at_extend(s6, be32(transfer_buffer_length), 0);
            }
            assert(spec_u32_at(s6, 0) == header.command);
            assert(spec_u32_at(s12, 4) == spec_u32_at(s7, 4)) by {
                lemma_u32_at_extend(s7, rest7, 4);
            }
            assert(spec_u32_at(s7, 4) == spec_u32_at(s6, 4)) by {
                lemma_u32_at_extend(s6, be32(transfer_buffer_length), 4);
            }
            assert(spec_u32_at(s6, 4) == header.seqnum);
            assert(spec_u32_at(s12, 8) == spec_u32_at(s7, 8)) by {
                lemma_u32_at_extend(s7, rest7, 8);
            }
            assert(spec_u32_at(s7, 8) == spec_u32_at(s6, 8)) by {
                lemma_u32_at_extend(s6, be32(transfer_buffer_length), 8);
            }
            assert(spec_u32_at(s6, 8) == header.devid);
            assert(spec_u32_at(s12, 12) == spec_u32_at(s7, 12)) by {
                lemma_u32_at_extend(s7, rest7, 12);
            }
            assert(spec_u32_at(s7, 12) == spec_u32_at(s6, 12)) by {
                lemma_u32_at_extend(s6, be32(transfer_buffer_length), 12);
            }
            assert(spec_u32_at(s6, 12) == header.direction);
            assert(spec_u32_at(s12, 16) == spec_u32_at(s7, 16)) by {
                lemma_u32_at_extend(s7, rest7, 16);
            }
            assert(spec_u32_at(s7, 16) == spec_u32_at(s6, 16)) by {
                lemma_u32_at_extend(s6, be32(transfer_buffer_length), 16);
            }
            assert(spec_u32_at(s6, 16) == header.ep);
            assert(spec_u32_at(s12, 20) == spec_u32_at(s7, 20)) by {
                lemma_u32_at_extend(s7, rest7, 20);
            }
            assert(spec_u32_at(s7, 20) == spec_u32_at(s6, 20)) by {
                lemma_u32_at_extend(s6, be32(transfer_buffer_length), 20);
            }
            assert(spec_u32_at(s6, 20) == transfer_flags);
            let rest8 = be32(number_of_packets) + be32(interval) + setup@ + data@;
            assert(s12 =~= s8 + rest8);
            assert(spec_u32_at(s12, 24) == spec_u32_at(s8, 24)) by {
                lemma_u32_at_extend(s8, rest8, 24);
            }
            assert(spec_u32_at(s8, 24) == spec_u32_at(s7, 24)) by {
                lemma_u32_at_extend(s7, be32(start_frame), 24);
            }
            assert(spec_u32_at(s7, 24) == transfer_buffer_length);
            let rest9 = be32(interval) + setup@ + data@;
            assert(s12 =~= s9 + rest9);
            assert(spec_u32_at(s12, 28) == spec_u32_at(s9, 28)) by {
                lemma_u32_at_extend(s9, rest9, 28);
            }
            assert(spec_u32_at(s9, 28) == spec_u32_at(s8, 28)) by {
                lemma_u32_at_extend(s8, be32(number_of_packets), 28);
            }
            assert(spec_u32_at(s8, 28) == start_frame);
            let rest10 = setup@ + data@;
            assert(s12 =~= s10 + rest10);
            assert(spec_u32_at(s12, 32) == spec_u32_at(s10, 32)) by {
                lemma_u32_at_extend(s10, rest10, 32);
            }
            assert(spec_u32_at(s10, 32) == spec_u32_at(s9, 32)) by {
                lemma_u32_at_extend(s9, be32(interval), 32);
            }
            assert(spec_u32_at(s9, 32) == number_of_packets);
            assert(spec_u32_at(s12, 36) == spec_u32_at(s10, 36)) by {
                lemma_u32_at_extend(s10, rest10, 36);
            }
            assert(spec_u32_at(s10, 36) == interval);
            assert(setup@ =~= e.subrange(40, 48)) by {
                assert(forall|k: int| 0 <= k < 8 ==> #[trigger] s11[40 + k] == setup@[k]);
                assert(forall|k: int| 0 <= k < 8 ==> #[trigger] s12[40 + k] == s11[40 + k]);
            }
            assert(data@ =~= e.skip(48)) by {
                assert(forall|k: int| 0 <= k < data@.len() ==> #[trigger] s12[48 + k] == data@[k]);
            }
        },
        _ => {},
    }
}

/// The serialization of a well-formed command is a buffer it matches.
#[verifier::rlimit(100)]
pub proof fn lemma_cmd_encode_matches(c: UsbIpCommand)
    requires
        c.wf(),
    ensures
        cmd_matches_bytes(c, spec_cmd_bytes(c)),
{
    let e = spec_cmd_bytes(c);
    match c {
        UsbIpCommand::OpReqDevlist { status } => {
            assert(e.subrange(0, 2) =~= be16(USBIP_VERSION));
            assert(e.subrange(2, 4) =~= be16(OP_REQ_DEVLIST));
            assert(spec_u32_at(e, 0) == op_code_word(OP_REQ_DEVLIST));
            assert(e.subrange(4, 8) =~= be32(status));
            assert(spec_u32_at(e, 4) == status);
        },
        UsbIpCommand::OpReqImport { status, busid } => {
            assert(e.subrange(0, 2) =~= be16(USBIP_VERSION));
            assert(e.subrange(2, 4) =~= be16(OP_REQ_IMPORT));
            assert(spec_u32_at(e, 0) == op_code_word(OP_REQ_IMPORT));
            assert(e.subrange(4, 8) =~= be32(status));
            assert(spec_u32_at(e, 4) == status);
            assert(busid@ =~= e.subrange(8, 40));
        },
        UsbIpCommand::UsbIpCmdSubmit { .. } => {
            lemma_encode_matches_submit(c);
        },
        UsbIpCommand::UsbIpCmdUnlink { header, unlink_seqnum } => {
            let hb = spec_header_bytes(header);
            let s6 = hb + be32(unlink_seqnum);
            let s7 = s6 + zeros(24);
            assert(e == s7);
            lemma_header_words(header, be32(unlink_seqnum) + zeros(24));
            assert(hb + (be32(unlink_seqnum) + zeros(24)) =~= s7);
            lemma_u32_at_end(hb, unlink_seqnum);
            assert(spec_u32_at(s7, 20) == spec_u32_at(s6, 20)) by {
                lemma_u32_at_extend(s6, zeros(24), 20);
            }
        },
    }
}

/// Law: serializing a well-formed command and decoding the result, with
/// anything at all appended, yields the command unchanged.
pub proof fn lemma_command_round_trip(c: UsbIpCommand, rest: Seq<u8>)
    requires
        c.wf(),
    ensures
        cmd_matches_bytes(c, (spec_cmd_bytes(c) + rest).take(spec_cmd_bytes(c).len() as int)),
        !incomplete_for(spec_cmd_bytes(c) + rest),
        known_first_word(spec_cmd_bytes(c) + rest),
{
    lemma_cmd_encode_matches(c);
    let e = spec_cmd_bytes(c);
    let b = e + rest;
    let t = b.take(e.len() as int);
    assert(t =~= e);
    assert(e.len() >= 8);
    assert(spec_u32_at(b, 0) == spec_u32_at(e, 0));
    match c {
        UsbIpCommand::OpReqDevlist { .. } => {
        },
        UsbIpCommand::OpReqImport { .. } => {
        },
        UsbIpCommand::UsbIpCmdSubmit { .. } => {
            assert(spec_u32_at(b, 12) == spec_u32_at(e, 12));
            assert(spec_u32_at(b, 24) == spec_u32_at(e, 24));
        },
        UsbIpCommand::UsbIpCmdUnlink { .. } => {},
    }
}

/// The fixed 312-byte description of one device, as it appears in
/// OP_REP_DEVLIST and OP_REP_IMPORT: path and bus id as NUL-padded
/// fixed-width fields, then the numeric descriptor fields.
#[derive(Clone, Debug, PartialEq, Eq)]
pub struct OpDeviceBlock {
    pub path: String,
    pub bus_id: String,
    pub bus_num: u32,
    pub dev_num: u32,
    pub speed: u32,
    pub vendor_id: u16,
    pub product_id: u16,
    pub device_bcd: u16,
    pub device_class: u8,
    pub device_subclass: u8,
    pub device_protocol: u8,
    pub configuration_value: u8,
    pub num_configurations: u8,
    pub num_interfaces: u8,
}

/// The four-byte interface summary following a device block in
/// OP_REP_DEVLIST: class triple plus one byte of padding.
#[derive(Clone, Copy, Debug, PartialEq, Eq, Structural)]
pub struct OpInterfaceBlock {
    pub interface_class: u8,
    pub interface_subclass: u8,
    pub interface_protocol: u8,
}

/// One device's entry in OP_REP_DEVLIST: its block plus one interface
/// summary per interface.
#[derive(Clone, Debug, PartialEq, Eq)]
pub struct DevlistEntry {
    pub device: OpDeviceBlock,
    pub interfaces: Vec<OpInterfaceBlock>,
}

/// Byte layout of a device block.
pub open spec fn spec_device_block_bytes(e: OpDeviceBlock) -> Seq<u8> {
    pad_field(encode_utf8(e.path@), 256) + pad_field(encode_utf8(e.bus_id@), 32) + be32(e.bus_num)
        + be32(e.dev_num) + be32(e.speed) + be16(e.vendor_id) + be16(e.product_id) + be16(
        e.device_bcd,
    ) + seq![
        e.device_class,
        e.device_subclass,
        e.device_protocol,
        e.configuration_value,
        e.num_configurations,
        e.num_interfaces,
    ]
}

/// Byte layout of an interface summary.
pub open spec fn spec_interface_block_bytes(b: OpInterfaceBlock) -> Seq<u8> {
    seq![b.interface_class, b.interface_subclass, b.interface_protocol, 0u8]
}

/// Concatenated interface summaries.
pub open spec fn spec_interface_blocks_bytes(bs: Seq<OpInterfaceBlock>) -> Seq<u8>
    decreases bs.len(),
{
    if bs.len() == 0 {
        Seq::empty()
    } else {
        spec_interface_block_bytes(bs[0]) + spec_interface_blocks_bytes(bs.skip(1))
    }
}

/// Byte layout of one device-list entry.
pub open spec fn spec_entry_bytes(e: DevlistEntry) -> Seq<u8> {
    spec_device_block_bytes(e.device) + spec_interface_blocks_bytes(e.interfaces@)
}

/// Concatenated device-list entries.
pub open spec fn spec_entries_bytes(es: Seq<DevlistEntry>) -> Seq<u8>
    decreases es.len(),
{
    if es.len() == 0 {
        Seq::empty()
    } else {
        spec_entry_bytes(es[0]) + spec_entries_bytes(es.skip(1))
    }
}

/// A reply sent to the client, one per handled command (a submit
/// received with no device imported gets none).
#[derive(Clone, Debug, PartialEq, Eq)]
pub enum UsbIpResponse {
    /// OP_REP_DEVLIST: every available device with its interfaces.
    OpRepDevlist { status: u32, devices: Vec<DevlistEntry> },
    /// OP_REP_IMPORT: the imported device on success (status 0), no
    /// block on failure.
    OpRepImport { status: u32, device: Option<OpDeviceBlock> },
    /// USBIP_RET_SUBMIT: one URB's completion.
    UsbIpRetSubmit {
        header: UsbIpHeaderBasic,
        status: u32,
        actual_length: u32,
        start_frame: u32,
        number_of_packets: u32,
        error_count: u32,
        transfer_buffer: Vec<u8>,
        iso_packet_descriptor: Vec<u8>,
    },
    /// USBIP_RET_UNLINK: the unconditional unlink acknowledgment.
    UsbIpRetUnlink { header: UsbIpHeaderBasic, status: u32 },
}

/// Byte layout of each reply. RET_SUBMIT carries eight bytes of setup
/// padding before the data; RET_UNLINK ends with 24 bytes of padding.
pub open spec fn spec_response_bytes(r: UsbIpResponse) -> Seq<u8> {
    match r {
        UsbIpResponse::OpRepDevlist { status, devices } => op_word(OP_REP_DEVLIST) + be32(status)
            + be32(devices@.len() as u32) + spec_entries_bytes(devices@),
        UsbIpResponse::OpRepImport { status, device } => op_word(OP_REP_IMPORT) + be32(status) + (
        match device {
            Some(e) => spec_device_block_bytes(e),
            None => Seq::empty(),
        }),
        UsbIpResponse::UsbIpRetSubmit {
            header,
            status,
            actual_length,
            start_frame,
            number_of_packets,
            error_count,
            transfer_buffer,
            iso_packet_descriptor,
        } => spec_header_bytes(header) + be32(status) + be32(actual_length) + be32(start_frame)
            + be32(number_of_packets) + be32(error_count) + zeros(8) + transfer_buffer@
            + iso_packet_descriptor@,
        UsbIpResponse::UsbIpRetUnlink { header, status } => spec_header_bytes(header) + be32(status)
            + zeros(24),
    }
}

/// The device block describes the device: every field copied, the
/// interface count taken from the interface list.
pub open spec fn block_matches_device(e: OpDeviceBlock, d: UsbDevice) -> bool {
    &&& e.path@ == d.path@
    &&& e.bus_id@ == d.bus_id@
    &&& e.bus_num == d.bus_num
    &&& e.dev_num == d.dev_num
    &&& e.speed == d.speed
    &&& e.vendor_id == d.vendor_id
    &&& e.product_id == d.product_id
    &&& e.device_bcd == d.device_bcd
    &&& e.device_class == d.device_class
    &&& e.device_subclass == d.device_subclass
    &&& e.device_protocol == d.device_protocol
    &&& e.configuration_value == d.configuration_value
    &&& e.num_configurations == d.num_configurations
    &&& e.num_interfaces == d.interfaces@.len()
}

/// The device-list entry describes the device: its block matches and
/// each interface summary carries that interface's class triple.
pub open spec fn entry_matches_device(en: DevlistEntry, d: UsbDevice) -> bool {
    &&& block_matches_device(en.device, d)
    &&& en.interfaces@.len() == d.interfaces@.len()
    &&& forall|k: int|
        0 <= k < d.interfaces@.len() ==> {
            &&& (#[trigger] en.interfaces@[k]).interface_class == d.interfaces@[k].interface_class
            &&& en.interfaces@[k].interface_subclass == d.interfaces@[k].interface_subclass
            &&& en.interfaces@[k].interface_protocol == d.interfaces@[k].interface_protocol
        }
}

/// Build the fixed description block of one device.
pub fn device_block(d: &UsbDevice) -> (e: OpDeviceBlock)
    requires
        d.interfaces@.len() <= 255,
    ensures
        block_matches_device(e, *d),
{
    OpDeviceBlock {
        path: d.path.clone(),
        bus_id: d.bus_id.clone(),
        bus_num: d.bus_num,
        dev_num: d.dev_num,
        speed: d.speed,
        vendor_id: d.vendor_id,
        product_id: d.product_id,
        device_bcd: d.device_bcd,
        device_class: d.device_class,
        device_subclass: d.device_subclass,
        device_protocol: d.device_protocol,
        configuration_value: d.configuration_value,
        num_configurations: d.num_configurations,
        num_interfaces: d.interfaces.len() as u8,
    }
}

/// Build one device-list entry: the block plus one interface summary
/// per interface.
pub fn devlist_entry(d: &UsbDevice) -> (en: DevlistEntry)
    requires
        d.interfaces@.len() <= 255,
    ensures
        entry_matches_device(en, *d),
{
    let device = device_block(d);
    let mut interfaces: Vec<OpInterfaceBlock> = Vec::new();
    let n = d.interfaces.len();
    let mut i: usize = 0;
    while i < n
        invariant
            i <= n,
            n == d.interfaces@.len(),
            interfaces@.len() == i,
            forall|k: int|
                0 <= k < i ==> {
                    &&& (#[trigger] interfaces@[k]).interface_class
                        == d.interfaces@[k].interface_class
                    &&& interfaces@[k].interface_subclass == d.interfaces@[k].interface_subclass
                    &&& interfaces@[k].interface_protocol == d.interfaces@[k].interface_protocol
                },
        decreases n - i,
    {
        interfaces.push(
            OpInterfaceBlock {
                interface_class: d.interfaces[i].interface_class,
                interface_subclass: d.interfaces[i].interface_subclass,
                interface_protocol: d.interfaces[i].interface_protocol,
            },
        );
        i = i + 1;
    }
    DevlistEntry { device, interfaces }
}

/// Append a device block's 312 bytes.
fn push_device_block(out: &mut Vec<u8>, e: &OpDeviceBlock)
    ensures
        final(out)@ == old(out)@ + spec_device_block_bytes(*e),
{
    push_padded_bytes(out, e.path.as_str().as_bytes(), 256);
    push_padded_bytes(out, e.bus_id.as_str().as_bytes(), 32);
    push_be32(out, e.bus_num);
    push_be32(out, e.dev_num);
    push_be32(out, e.speed);
    push_be16(out, e.vendor_id);
    push_be16(out, e.product_id);
    push_be16(out, e.device_bcd);
    out.push(e.device_class);
    out.push(e.device_subclass);
    out.push(e.device_protocol);
    out.push(e.configuration_value);
    out.push(e.num_configurations);
    out.push(e.num_interfaces);
    proof {
        assert(out@ =~= old(out)@ + spec_device_block_bytes(*e));
    }
}

/// Append one device-list entry.
fn push_entry(out: &mut Vec<u8>, en: &DevlistEntry)
    ensures
        final(out)@ == old(out)@ + spec_entry_bytes(*en),
{
    push_device_block(out, &en.device);
    let n = en.interfaces.len();
    let ghost base = out@;
    let mut i: usize = 0;
    proof {
        assert(en.interfaces@.skip(0) =~= en.interfaces@);
    }
    while i < n
        invariant
            i <= n,
            n == en.interfaces@.len(),
            out@ + spec_interface_blocks_bytes(en.interfaces@.skip(i as int)) == base
                + spec_interface_blocks_bytes(en.interfaces@),
        decreases n - i,
    {
        let b = en.interfaces[i];
        proof {
            assert(en.interfaces@.skip(i as int)[0] == en.interfaces@[i as int]);
            assert(en.interfaces@.skip(i as int).skip(1) =~= en.interfaces@.skip(i as int + 1));
        }
        out.push(b.interface_class);
        out.push(b.interface_subclass);
        out.push(b.interface_protocol);
        out.push(0);
        proof {
            assert(out@ + spec_interface_blocks_bytes(en.interfaces@.skip(i as int + 1)) =~= base
                + spec_interface_blocks_bytes(en.interfaces@));
        }
        i = i + 1;
    }
    proof {
        assert(en.interfaces@.skip(n as int) =~= Seq::<OpInterfaceBlock>::empty());
        assert(out@ =~= old(out)@ + spec_entry_bytes(*en));
    }
}

impl UsbIpResponse {
    /// Replies whose length fields fit their wire width.
    pub open spec fn wf(&self) -> bool {
        match *self {
            UsbIpResponse::OpRepDevlist { devices, .. } => devices@.len() <= 0xffffffff,
            _ => true,
        }
    }

    /// Serialize the reply to its wire bytes.
    pub fn to_bytes(&self) -> (r: Vec<u8>)
        ensures
            r@ == spec_response_bytes(*self),
    {
        let mut out: Vec<u8> = Vec::new();
        match self {
            UsbIpResponse::OpRepDevlist { status, devices } => {
                push_be16(&mut out, USBIP_VERSION);
                push_be16(&mut out, OP_REP_DEVLIST);
                push_be32(&mut out, *status);
                push_be32(&mut out, devices.len() as u32);
                let ghost base = out@;
                let n = devices.len();
                let mut i: usize = 0;
                proof {
                    assert(devices@.skip(0) =~= devices@);
                }
                while i < n
                    invariant
                        i <= n,
                        n == devices@.len(),
                        out@ + spec_entries_bytes(devices@.skip(i as int)) == base
                            + spec_entries_bytes(devices@),
                    decreases n - i,
                {
                    proof {
                        assert(devices@.skip(i as int)[0] == devices@[i as int]);
                        assert(devices@.skip(i as int).skip(1) =~= devices@.skip(i as int + 1));
                    }
                    push_entry(&mut out, &devices[i]);
                    i = i + 1;
                }
                proof {
                    assert(devices@.skip(n as int) =~= Seq::<DevlistEntry>::empty());
                }
            },
            UsbIpResponse::OpRepImport { status, device } => {
                push_be16(&mut out, USBIP_VERSION);
                push_be16(&mut out, OP_REP_IMPORT);
                push_be32(&mut out, *status);
                match device {
                    Some(e) => push_device_block(&mut out, e),
                    None => (),
                }
            },
            UsbIpResponse::UsbIpRetSubmit {
                header,
                status,
                actual_length,
                start_frame,
                number_of_packets,
                error_count,
                transfer_buffer,
                iso_packet_descriptor,
            } => {
                header.push_bytes(&mut out);
                push_be32(&mut out, *status);
                push_be32(&mut out, *actual_length);
                push_be32(&mut out, *start_frame);
                push_be32(&mut out, *number_of_packets);
                push_be32(&mut out, *error_count);
                push_zeros(&mut out, 8);
                push_padded_bytes(&mut out, transfer_buffer.as_slice(), transfer_buffer.len());
                push_padded_bytes(
                    &mut out,
                    iso_packet_descriptor.as_slice(),
                    iso_packet_descriptor.len(),
                );
                proof {
                    assert(pad_field(transfer_buffer@, transfer_buffer@.len()) =~= transfer_buffer@);
                    assert(pad_field(iso_packet_descriptor@, iso_packet_descriptor@.len())
                        =~= iso_packet_descriptor@);
                }
            },
            UsbIpResponse::UsbIpRetUnlink { header, status } => {
                header.push_bytes(&mut out);
                push_be32(&mut out, *status);
                push_zeros(&mut out, 24);
            },
        }
        proof {
            assert(out@ =~= spec_response_bytes(*self));
        }
        out
    }

    /// OP_REP_DEVLIST describing every device of the list, in order.
    pub fn op_rep_devlist(devs: &Vec<UsbDevice>) -> (r: UsbIpResponse)
        requires
            devs@.len() <= 0xffffffff,
            forall|i: int| 0 <= i < devs@.len() ==> (#[trigger] devs@[i]).interfaces@.len() <= 255,
        ensures
            r matches UsbIpResponse::OpRepDevlist { status, devices } && status == 0
                && devices@.len() == devs@.len() && forall|i: int|
                0 <= i < devs@.len() ==> entry_matches_device(
                    #[trigger] devices@[i],
                    devs@[i],
                ),
    {
        let mut entries: Vec<DevlistEntry> = Vec::new();
        let n = devs.len();
        let mut i: usize = 0;
        while i < n
            invariant
                i <= n,
                n == devs@.len(),
                entries@.len() == i,
                forall|k: int| 0 <= k < devs@.len() ==> (#[trigger] devs@[k]).interfaces@.len() <= 255,
                forall|k: int|
                    0 <= k < i ==> entry_matches_device(#[trigger] entries@[k], devs@[k]),
            decreases n - i,
        {
            let en = devlist_entry(&devs[i]);
            entries.push(en);
            i = i + 1;
        }
        UsbIpResponse::OpRepDevlist { status: 0, devices: entries }
    }

    /// OP_REP_IMPORT on success: status 0 and the device's block.
    pub fn op_rep_import_success(d: &UsbDevice) -> (r: UsbIpResponse)
        requires
            d.interfaces@.len() <= 255,
        ensures
            r matches UsbIpResponse::OpRepImport { status, device } && status == 0 && (device
                matches Some(e) && block_matches_device(e, *d)),
    {
        UsbIpResponse::OpRepImport { status: 0, device: Some(device_block(d)) }
    }

    /// OP_REP_IMPORT on failure: status 1 and no device block.
    pub fn op_rep_import_fail() -> (r: UsbIpResponse)
        ensures
            r == (UsbIpResponse::OpRepImport { status: 1, device: None }),
    {
        UsbIpResponse::OpRepImport { status: 1, device: None }
    }

    /// USBIP_RET_SUBMIT on success: status 0, the completed length and
    /// the device's answer.
    pub fn usbip_ret_submit_success(
        header: &UsbIpHeaderBasic,
        start_frame: u32,
        actual_length: u32,
        transfer_buffer: Vec<u8>,
        iso_packet_descriptor: Vec<u8>,
    ) -> (r: UsbIpResponse)
        ensures
            r matches UsbIpResponse::UsbIpRetSubmit {
                header: h,
                status,
                actual_length: al,
                start_frame: sf,
                number_of_packets,
                error_count,
                transfer_buffer: tb,
                iso_packet_descriptor: iso,
            } && h == *header && status == 0 && al == actual_length && sf == start_frame
                && number_of_packets == 0 && error_count == 0 && tb@ == transfer_buffer@ && iso@
                == iso_packet_descriptor@,
    {
        UsbIpResponse::UsbIpRetSubmit {
            header: *header,
            status: 0,
            actual_length,
            start_frame,
            number_of_packets: 0,
            error_count: 0,
            transfer_buffer,
            iso_packet_descriptor,
        }
    }

    /// USBIP_RET_SUBMIT on failure: status 1, the reported length, no
    /// data.
    pub fn usbip_ret_submit_fail(header: &UsbIpHeaderBasic, actual_length: u32) -> (r:
        UsbIpResponse)
        ensures
            is_ret_submit_fail(r, *header, actual_length),
    {
        UsbIpResponse::UsbIpRetSubmit {
            header: *header,
            status: 1,
            actual_length,
            start_frame: 0,
            number_of_packets: 0,
            error_count: 0,
            transfer_buffer: Vec::new(),
            iso_packet_descriptor: Vec::new(),
        }
    }

    /// USBIP_RET_UNLINK: the unconditional acknowledgment, status 0.
    pub fn usbip_ret_unlink_success(header: &UsbIpHeaderBasic) -> (r: UsbIpResponse)
        ensures
            r == (UsbIpResponse::UsbIpRetUnlink { header: *header, status: 0 }),
    {
        UsbIpResponse::UsbIpRetUnlink { header: *header, status: 0 }
    }
}

} // verus!
