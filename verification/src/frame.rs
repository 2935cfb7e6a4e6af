//! 4E-frame assembly and response validation.
//!
//! A request is a 15-byte prefix (request code, serial, blank, network,
//! PC, I/O, area, data length, CPU timer) followed by command, subcommand
//! and payload.  The data-length field counts everything from the CPU
//! timer to the end of the payload.  A response mirrors the prefix through
//! the area byte, then carries data length and end code.

use vstd::prelude::*;
use crate::device::CPU;
use crate::error::{ProtocolCode, SLMPError, spec_protocol_code_of};
use crate::wire::{spec_u16_le, spec_u16_of_le, push_u16_le, read_u16_le};

verus! {

/// Bytes of the fixed frame prefix before the data-length field.
pub const FIXED_FRAME_LEN: usize = 13;

/// Bytes of the request prefix including the CPU timer.
pub const HEADER_LEN: usize = 15;

/// Bytes of command plus subcommand.
pub const COMMAND_LEN: usize = 4;

/// Identity and framing parameters of one 4E connection.
#[derive(Clone, Debug, PartialEq, Eq)]
pub struct SLMP4EConnectionProps {
    pub ip: String,
    pub port: u16,
    pub cpu: CPU,
    pub serial_id: u16,
    pub network_id: u8,
    pub pc_id: u8,
    pub io_id: u16,
    pub area_id: u8,
    pub cpu_timer: u16,
}

/// The fifteen header bytes of a request whose data-length field is
/// `data_len`.
pub open spec fn spec_header_bytes(props: SLMP4EConnectionProps, data_len: u16) -> Seq<u8> {
    seq![0x54u8, 0x00u8] + spec_u16_le(props.serial_id) + seq![0x00u8, 0x00u8]
        + seq![props.network_id, props.pc_id] + spec_u16_le(props.io_id) + seq![props.area_id]
        + spec_u16_le(data_len) + spec_u16_le(props.cpu_timer)
}

/// A complete request frame: header, command, subcommand, payload.  The
/// data-length field covers CPU timer, command, subcommand and payload.
pub open spec fn spec_frame(
    props: SLMP4EConnectionProps,
    command: u16,
    subcommand: u16,
    payload: Seq<u8>,
) -> Seq<u8> {
    spec_header_bytes(props, (payload.len() + 6) as u16) + spec_u16_le(command) + spec_u16_le(
        subcommand,
    ) + payload
}

impl SLMP4EConnectionProps {
    /// Emit the fifteen header bytes for the given data length.
    pub fn generate_header(&self, data_len: u16) -> (r: Vec<u8>)
        ensures
            r@ =~= spec_header_bytes(*self, data_len),
            r@.len() == 15,
    {
        let mut out: Vec<u8> = Vec::new();
        out.push(0x54);
        out.push(0x00);
        push_u16_le(&mut out, self.serial_id);
        out.push(0x00);
        out.push(0x00);
        out.push(self.network_id);
        out.push(self.pc_id);
        push_u16_le(&mut out, self.io_id);
        out.push(self.area_id);
        push_u16_le(&mut out, data_len);
        push_u16_le(&mut out, self.cpu_timer);
        out
    }
}

/// Assemble a complete request frame around a payload.
pub fn build_frame(
    props: &SLMP4EConnectionProps,
    command: u16,
    subcommand: u16,
    payload: Vec<u8>,
) -> (r: Vec<u8>)
    requires
        payload@.len() + 6 <= u16::MAX,
    ensures
        r@ =~= spec_frame(*props, command, subcommand, payload@),
{
    let data_len: u16 = (payload.len() + 6) as u16;
    let mut out = props.generate_header(data_len);
    push_u16_le(&mut out, command);
    push_u16_le(&mut out, subcommand);
    let mut body = payload;
    out.append(&mut body);
    out
}

/// The header length field of a frame equals the frame length minus the
/// thirteen fixed prefix bytes, read little-endian at bytes 11 and 12.
pub proof fn lemma_frame_data_len_field(
    props: SLMP4EConnectionProps,
    command: u16,
    subcommand: u16,
    payload: Seq<u8>,
)
    requires
        payload.len() + 6 <= u16::MAX,
    ensures
        spec_frame(props, command, subcommand, payload).len() == 19 + payload.len(),
        spec_u16_of_le(
            spec_frame(props, command, subcommand, payload)[11],
            spec_frame(props, command, subcommand, payload)[12],
        ) == spec_frame(props, command, subcommand, payload).len() - 13,
{
    let f = spec_frame(props, command, subcommand, payload);
    let dl = (payload.len() + 6) as u16;
    assert(f[11] == spec_u16_le(dl)[0]);
    assert(f[12] == spec_u16_le(dl)[1]);
    crate::wire::lemma_u16_le_round_trip(dl);
}

/// Command, subcommand and payload read back from a request frame.
pub fn decode_request_frame(data: &[u8]) -> (r: Result<(u16, u16, Vec<u8>), SLMPError>)
    ensures
        match r {
            Ok(parts) => {
                &&& data@.len() >= 19
                &&& spec_u16_of_le(data@[11], data@[12]) == data@.len() - 13
                &&& parts.0 == spec_u16_of_le(data@[15], data@[16])
                &&& parts.1 == spec_u16_of_le(data@[17], data@[18])
                &&& parts.2@ == data@.skip(19)
            },
            Err(e) => {
                &&& e == SLMPError::WireFormat
                &&& (data@.len() < 19 || spec_u16_of_le(data@[11], data@[12]) != data@.len() - 13)
            },
        },
{
    if data.len() < 19 {
        return Err(SLMPError::WireFormat);
    }
    let data_len: u16 = read_u16_le(data, 11);
    if data_len as usize != data.len() - 13 {
        return Err(SLMPError::WireFormat);
    }
    let command: u16 = read_u16_le(data, 15);
    let subcommand: u16 = read_u16_le(data, 17);
    let payload = vstd::slice::slice_to_vec(vstd::slice::slice_subrange(data, 19, data.len()));
    Ok((command, subcommand, payload))
}

/// Round-trip law: decoding a built request frame yields the command,
/// subcommand and payload it was built from.
pub proof fn lemma_frame_round_trip(
    props: SLMP4EConnectionProps,
    command: u16,
    subcommand: u16,
    payload: Seq<u8>,
)
    requires
        payload.len() + 6 <= u16::MAX,
    ensures
        spec_u16_of_le(
            spec_frame(props, command, subcommand, payload)[15],
            spec_frame(props, command, subcommand, payload)[16],
        ) == command,
        spec_u16_of_le(
            spec_frame(props, command, subcommand, payload)[17],
            spec_frame(props, command, subcommand, payload)[18],
        ) == subcommand,
        spec_frame(props, command, subcommand, payload).skip(19) =~= payload,
        spec_u16_of_le(
            spec_frame(props, command, subcommand, payload)[11],
            spec_frame(props, command, subcommand, payload)[12],
        ) == spec_frame(props, command, subcommand, payload).len() - 13,
{
    let f = spec_frame(props, command, subcommand, payload);
    assert(f[15] == spec_u16_le(command)[0]);
    assert(f[16] == spec_u16_le(command)[1]);
    assert(f[17] == spec_u16_le(subcommand)[0]);
    assert(f[18] == spec_u16_le(subcommand)[1]);
    crate::wire::lemma_u16_le_round_trip(command);
    crate::wire::lemma_u16_le_round_trip(subcommand);
    lemma_frame_data_len_field(props, command, subcommand, payload);
}

/// Verdict of `validate_response` on a response buffer, in the order the
/// checks are made: length, data-length field, end code, response code,
/// then the echoed identity fields.
pub open spec fn spec_validate_response(props: SLMP4EConnectionProps, data: Seq<u8>) -> Result<
    (),
    SLMPError,
> {
    if data.len() < 13 {
        Err(SLMPError::WireFormat)
    } else if spec_u16_of_le(data[11], data[12]) != data.len() - 13 {
        Err(SLMPError::WireFormat)
    } else if data.len() < 15 {
        Err(SLMPError::WireFormat)
    } else if spec_u16_of_le(data[13], data[14]) != 0 {
        Err(
            SLMPError::Protocol(
                spec_protocol_code_of(spec_u16_of_le(data[13], data[14])),
                spec_u16_of_le(data[13], data[14]),
            ),
        )
    } else if data[0] != 0xd4 || data[1] != 0x00 {
        Err(SLMPError::WireFormat)
    } else if spec_u16_of_le(data[2], data[3]) != props.serial_id {
        Err(SLMPError::WireFormat)
    } else if data[4] != 0x00 || data[5] != 0x00 {
        Err(SLMPError::WireFormat)
    } else if data[6] != props.network_id {
        Err(SLMPError::WireFormat)
    } else if data[7] != props.pc_id {
        Err(SLMPError::WireFormat)
    } else if spec_u16_of_le(data[8], data[9]) != props.io_id {
        Err(SLMPError::WireFormat)
    } else if data[10] != props.area_id {
        Err(SLMPError::WireFormat)
    } else {
        Ok(())
    }
}

/// Check the envelope of a response: length, data-length field, end code,
/// response code `0x00D4`, and the identity fields echoed back by the
/// server.  A non-zero end code surfaces as a `Protocol` error with its
/// symbolic name; the payload is not inspected in that case.
pub fn validate_response(props: &SLMP4EConnectionProps, data: &[u8]) -> (r: Result<(), SLMPError>)
    ensures
        r == spec_validate_response(*props, data@),
        r is Ok ==> data@.len() >= 15,
{
    if data.len() < 13 {
        return Err(SLMPError::WireFormat);
    }
    let data_len: u16 = read_u16_le(data, 11);
    if data_len as usize != data.len() - 13 {
        return Err(SLMPError::WireFormat);
    }
    if data.len() < 15 {
        return Err(SLMPError::WireFormat);
    }
    let end_code: u16 = read_u16_le(data, 13);
    if end_code != 0 {
        return Err(SLMPError::Protocol(ProtocolCode::from_end_code(end_code), end_code));
    }
    if data[0] != 0xd4 || data[1] != 0x00 {
        return Err(SLMPError::WireFormat);
    }
    if read_u16_le(data, 2) != props.serial_id {
        return Err(SLMPError::WireFormat);
    }
    if data[4] != 0x00 || data[5] != 0x00 {
        return Err(SLMPError::WireFormat);
    }
    if data[6] != props.network_id {
        return Err(SLMPError::WireFormat);
    }
    if data[7] != props.pc_id {
        return Err(SLMPError::WireFormat);
    }
    if read_u16_le(data, 8) != props.io_id {
        return Err(SLMPError::WireFormat);
    }
    if data[10] != props.area_id {
        return Err(SLMPError::WireFormat);
    }
    Ok(())
}

} // verus!
