//! File-control commands: directory listing of a PLC drive.  The same
//! framing rules carry the remaining file commands when they are
//! filled in.

use vstd::prelude::*;
use crate::commands::file_drive::{FileDriveForQL, spec_drive_code_ql};
use crate::device::CPU;
use crate::frame::{SLMP4EConnectionProps, build_frame, spec_frame};
use crate::wire::{spec_u16_le, push_u16_le};

verus! {

/// The payload of a directory listing request: a fixed ASCII password
/// field of four `0` characters, the drive code, the first file number,
/// and the number of file and folder entries to return.
pub open spec fn spec_file_props_payload(
    drive: FileDriveForQL,
    start_file_no: u16,
    request_file_len: u16,
    request_folder_len: u16,
) -> Seq<u8> {
    seq![0x30u8, 0x30u8, 0x30u8, 0x30u8] + spec_u16_le(spec_drive_code_ql(drive)) + spec_u16_le(
        start_file_no,
    ) + spec_u16_le(request_file_len) + spec_u16_le(request_folder_len)
}

/// Build the request that lists file and folder properties of a Q- or
/// L-series drive.
pub fn read_file_and_folder_props_for_ql(
    connection_props: &SLMP4EConnectionProps,
    drive: FileDriveForQL,
    start_file_no: u16,
    request_file_len: u16,
    request_folder_len: u16,
) -> (r: Vec<u8>)
    ensures
        r@ =~= spec_frame(
            *connection_props,
            0x1810,
            if connection_props.cpu is R {
                0x0040u16
            } else {
                0x0000u16
            },
            spec_file_props_payload(drive, start_file_no, request_file_len, request_folder_len),
        ),
{
    let subcommand: u16 = match connection_props.cpu {
        CPU::Q | CPU::L => 0x0000,
        CPU::R => 0x0040,
    };
    let mut payload: Vec<u8> = Vec::new();
    payload.push(0x30);
    payload.push(0x30);
    payload.push(0x30);
    payload.push(0x30);
    push_u16_le(&mut payload, drive.to_drive_code());
    push_u16_le(&mut payload, start_file_no);
    push_u16_le(&mut payload, request_file_len);
    push_u16_le(&mut payload, request_folder_len);
    build_frame(connection_props, 0x1810, subcommand, payload)
}

} // verus!
