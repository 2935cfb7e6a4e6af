//! Bulk read: one contiguous run of devices, by word or by bit.

use vstd::prelude::*;
use crate::commands::{get_subcommand, spec_subcommand};
use crate::data::{DataType, TypedData, spec_byte_size, spec_data_matches, spec_value_len, spec_word_count};
use crate::device::{AccessType, Device, DeviceData, spec_device_bytes};
use crate::error::SLMPError;
use crate::frame::{SLMP4EConnectionProps, build_frame, spec_frame};
use crate::wire::{spec_div_ceil, spec_u16_le, spec_u8_to_bits, push_u16_le, u8_to_bits};

verus! {

/// What a bulk read asks for: a start device, a device count, and the
/// type to read each element as.
#[derive(Clone, Debug, PartialEq)]
pub struct SLMPBulkReadQuery {
    pub connection_props: SLMP4EConnectionProps,
    pub start_device: Device,
    pub device_num: usize,
    pub data_type: DataType,
}

/// A built bulk-read request frame.
#[derive(Clone, Debug, PartialEq)]
pub struct SLMPBulkReadCommand(pub Vec<u8>);

/// Access type of a bulk transfer of this element type: booleans go by
/// bit, everything else by word.
pub open spec fn spec_bulk_access(t: DataType) -> AccessType {
    if t is Bool {
        AccessType::Bit
    } else {
        AccessType::Word
    }
}

/// The payload of a bulk read: the start device and the count field
/// (device words, or bits for a bit read).
pub open spec fn spec_bulk_read_payload(q: SLMPBulkReadQuery) -> Seq<u8> {
    spec_device_bytes(q.start_device, q.connection_props.cpu) + spec_u16_le(
        (q.device_num * spec_word_count(q.data_type)) as u16,
    )
}

/// Build the bulk-read request frame.
///
/// Fails with `Validation` exactly when the count field would not fit
/// its sixteen bits.
pub fn construct_frame(query: &SLMPBulkReadQuery) -> (r: Result<SLMPBulkReadCommand, SLMPError>)
    requires
        query.data_type.wf(),
    ensures
        match r {
            Ok(cmd) => {
                &&& query.device_num * spec_word_count(query.data_type) <= 0xFFFF
                &&& cmd.0@ == spec_frame(
                    query.connection_props,
                    0x0401,
                    spec_subcommand(
                        query.connection_props.cpu,
                        spec_bulk_access(query.data_type),
                    ),
                    spec_bulk_read_payload(*query),
                )
            },
            Err(e) => {
                &&& e == SLMPError::Validation
                &&& query.device_num * spec_word_count(query.data_type) > 0xFFFF
            },
        },
{
    let wc = query.data_type.word_count();
    if query.device_num > 0xFFFF {
        proof {
            assert(query.device_num * spec_word_count(query.data_type) >= query.device_num * 1)
                by (nonlinear_arith)
                requires
                    spec_word_count(query.data_type) >= 1,
                    query.device_num >= 0,
            ;
        }
        return Err(SLMPError::Validation);
    }
    proof {
        assert(query.device_num * (wc as int) <= 0xFFFF * 0xFFFF) by (nonlinear_arith)
            requires
                0 <= query.device_num <= 0xFFFF,
                0 <= wc <= 0xFFFF,
        ;
    }
    let count: usize = query.device_num * wc as usize;
    if count > 0xFFFF {
        return Err(SLMPError::Validation);
    }
    let access = if matches!(query.data_type, DataType::Bool) {
        AccessType::Bit
    } else {
        AccessType::Word
    };
    let sub = get_subcommand(query.connection_props.cpu, access);
    let mut payload: Vec<u8> = Vec::new();
    query.start_device.serialize_into(query.connection_props.cpu, &mut payload);
    push_u16_le(&mut payload, count as u16);
    Ok(SLMPBulkReadCommand(build_frame(&query.connection_props, 0x0401, sub, payload)))
}

/// The value of bit `i` in a bulk bit-read response: each byte carries
/// two bits, high nibble first.
pub open spec fn spec_bulk_bit(bytes: Seq<u8>, i: int) -> bool {
    if i % 2 == 0 {
        spec_u8_to_bits(bytes[i / 2])[4]
    } else {
        spec_u8_to_bits(bytes[i / 2])[0]
    }
}

/// Parse a bulk-read response payload into one value per device.
///
/// A bit read yields two devices per byte (high nibble first) truncated
/// to the device count; a word read yields one value per
/// `byte_size`-sized chunk, the address advancing by the element's word
/// count.
pub fn parse_bulk_read(
    start_device: Device,
    device_num: usize,
    data_type: DataType,
    recv: &[u8],
) -> (r: Vec<DeviceData>)
    requires
        data_type.wf(),
        data_type is Bool ==> recv@.len() == spec_div_ceil(device_num as nat, 2)
            && start_device.address + device_num <= usize::MAX,
        !(data_type is Bool) ==> recv@.len() == device_num * spec_byte_size(data_type)
            && start_device.address + device_num * (spec_byte_size(data_type) / 2) <= usize::MAX,
    ensures
        r@.len() == device_num,
        data_type is Bool ==> forall|i: int|
            0 <= i < device_num ==> r@[i] == (DeviceData {
                device: Device {
                    device_type: start_device.device_type,
                    address: (start_device.address + i) as usize,
                },
                data: TypedData::Bool(spec_bulk_bit(recv@, i)),
            }),
        !(data_type is Bool) ==> forall|i: int|
            0 <= i < device_num ==> {
                &&& (#[trigger] r@[i]).device == (Device {
                    device_type: start_device.device_type,
                    address: (start_device.address + i * (spec_byte_size(data_type) / 2)) as usize,
                })
                &&& spec_data_matches(
                    r@[i].data,
                    recv@.subrange(i * spec_byte_size(data_type), (i + 1) * spec_byte_size(data_type)),
                    data_type,
                )
            },
{
    let mut out: Vec<DeviceData> = Vec::new();
    if matches!(data_type, DataType::Bool) {
        let mut i: usize = 0;
        while i < device_num
            invariant
                recv@.len() == spec_div_ceil(device_num as nat, 2),
                start_device.address + device_num <= usize::MAX,
                0 <= i <= device_num,
                out@.len() == i,
                forall|k: int|
                    0 <= k < i ==> out@[k] == (DeviceData {
                        device: Device {
                            device_type: start_device.device_type,
                            address: (start_device.address + k) as usize,
                        },
                        data: TypedData::Bool(spec_bulk_bit(recv@, k)),
                    }),
            decreases device_num - i,
        {
            let b = recv[i / 2];
            let bits = u8_to_bits(b);
            let value = if i % 2 == 0 {
                bits[4]
            } else {
                bits[0]
            };
            out.push(
                DeviceData {
                    device: Device {
                        device_type: start_device.device_type,
                        address: start_device.address + i,
                    },
                    data: TypedData::Bool(value),
                },
            );
            i = i + 1;
        }
    } else {
        let bs = data_type.byte_size();
        let skip = bs / 2;
        let total: usize = recv.len();
        let mut i: usize = 0;
        while i < device_num
            invariant
                data_type.wf(),
                !(data_type is Bool),
                bs == spec_byte_size(data_type),
                skip == bs / 2,
                recv@.len() == device_num * bs,
                recv@.len() == total,
                start_device.address + device_num * skip <= usize::MAX,
                0 <= i <= device_num,
                out@.len() == i,
                forall|k: int|
                    0 <= k < i ==> {
                        &&& (#[trigger] out@[k]).device == (Device {
                            device_type: start_device.device_type,
                            address: (start_device.address + k * skip) as usize,
                        })
                        &&& spec_data_matches(
                            out@[k].data,
                            recv@.subrange(k * bs, (k + 1) * bs),
                            data_type,
                        )
                    },
            decreases device_num - i,
        {
            proof {
                assert(i * bs + bs <= device_num * bs && i * skip <= device_num * skip && (i + 1)
                    * bs == i * bs + bs) by (nonlinear_arith)
                    requires
                        0 <= i < device_num,
                        bs >= 0,
                        skip >= 0,
                ;
            }
            let chunk = vstd::slice::slice_subrange(recv, i * bs, i * bs + bs);
            proof {
                assert(spec_value_len(data_type) == bs);
            }
            let value = TypedData::from_bytes(chunk, data_type);
            out.push(
                DeviceData {
                    device: Device {
                        device_type: start_device.device_type,
                        address: start_device.address + i * skip,
                    },
                    data: value,
                },
            );
            i = i + 1;
        }
    }
    out
}

} // verus!
