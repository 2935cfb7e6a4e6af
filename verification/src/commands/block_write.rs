//! Block write: several contiguous runs of values in one request, each
//! run written by word or by bit.

use vstd::prelude::*;
use crate::commands::{get_subcommand, spec_subcommand};
use crate::commands::bulk_write::spec_values_bytes;
use crate::data::TypedData;
use crate::device::{AccessType, BlockedDeviceData, spec_device_bytes};
use crate::error::SLMPError;
use crate::frame::{SLMP4EConnectionProps, build_frame, spec_frame};
use crate::sort::{
    sort_indices,
    spec_count_by,
    spec_is_sorted_permutation,
    spec_keys_of,
};
use crate::wire::{
    spec_bits_to_u8,
    spec_div_ceil,
    spec_u16_le,
    bits_to_u8,
    div_ceil,
    push_u16_le,
};

verus! {

/// One when the block is word-accessed, zero otherwise.
pub open spec fn spec_word_data_ind(b: BlockedDeviceData) -> int {
    if b.access_type is Word {
        1
    } else {
        0
    }
}

/// One when the block is bit-accessed, zero otherwise.
pub open spec fn spec_bit_data_ind(b: BlockedDeviceData) -> int {
    if b.access_type is Bit {
        1
    } else {
        0
    }
}

/// Bit `k` of a bit block: `true` only for a boolean `true` value inside
/// the run; padding beyond the run is zero.
pub open spec fn spec_block_bit_at(vals: Seq<TypedData>, k: int) -> bool {
    0 <= k < vals.len() && vals[k] == TypedData::Bool(true)
}

/// A bit run packed eight bits per byte, least significant first,
/// padded with zero bits to a whole number of words.
pub open spec fn spec_packed_words(vals: Seq<TypedData>) -> Seq<u8> {
    Seq::new(
        2 * spec_div_ceil(vals.len(), 16),
        |m: int| spec_bits_to_u8(Seq::new(8, |k: int| spec_block_bit_at(vals, 8 * m + k))),
    )
}

/// Bit `k` of a bit block, executable form.
fn bit_at(vals: &Vec<TypedData>, k: usize) -> (r: bool)
    ensures
        r == spec_block_bit_at(vals@, k as int),
{
    if k < vals.len() {
        matches!(&vals[k], TypedData::Bool(true))
    } else {
        false
    }
}

/// Append a bit run packed eight bits per byte.
fn push_packed_bits(vals: &Vec<TypedData>, out: &mut Vec<u8>)
    requires
        vals@.len() + 16 <= usize::MAX,
    ensures
        final(out)@ =~= old(out)@ + spec_packed_words(vals@),
{
    let words = div_ceil(vals.len(), 16);
    let total = 2 * words;
    let ghost base = old(out)@;
    let mut m: usize = 0;
    while m < total
        invariant
            vals@.len() + 16 <= usize::MAX,
            words == spec_div_ceil(vals@.len(), 16),
            total == 2 * words,
            total <= usize::MAX,
            0 <= m <= total,
            out@ =~= base + spec_packed_words(vals@).take(m as int),
        decreases total - m,
    {
        proof {
            assert(8 * m + 7 < 8 * total);
            assert(8 * total <= vals@.len() + 16 + vals@.len() + 16) by (nonlinear_arith)
                requires
                    total == 2 * spec_div_ceil(vals@.len(), 16),
                    vals@.len() >= 0,
            ;
        }
        let bits: [bool; 8] = [
            bit_at(vals, 8 * m),
            bit_at(vals, 8 * m + 1),
            bit_at(vals, 8 * m + 2),
            bit_at(vals, 8 * m + 3),
            bit_at(vals, 8 * m + 4),
            bit_at(vals, 8 * m + 5),
            bit_at(vals, 8 * m + 6),
            bit_at(vals, 8 * m + 7),
        ];
        let byte = bits_to_u8(&bits);
        proof {
            assert(bits@ =~= Seq::new(8, |k: int| spec_block_bit_at(vals@, 8 * (m as int) + k)));
            assert(byte == spec_packed_words(vals@)[m as int]);
            assert(spec_packed_words(vals@).take(m as int + 1) =~= spec_packed_words(
                vals@,
            ).take(m as int).push(byte));
        }
        out.push(byte);
        m = m + 1;
    }
    proof {
        assert(spec_packed_words(vals@).take(total as int) =~= spec_packed_words(vals@));
    }
}

/// Append the concatenated wire bytes of a run of values.
fn push_values_bytes(vals: &Vec<TypedData>, out: &mut Vec<u8>)
    requires
        forall|i: int| 0 <= i < vals@.len() ==> (#[trigger] vals@[i]).wf(),
    ensures
        final(out)@ =~= old(out)@ + spec_values_bytes(vals@),
{
    let ghost base = old(out)@;
    let n = vals.len();
    let mut i: usize = 0;
    while i < n
        invariant
            forall|k: int| 0 <= k < vals@.len() ==> (#[trigger] vals@[k]).wf(),
            n == vals@.len(),
            0 <= i <= n,
            out@ =~= base + spec_values_bytes(vals@.take(i as int)),
        decreases n - i,
    {
        let ghost prefix2 = vals@.take(i as int + 1);
        proof {
            assert(prefix2.drop_last() =~= vals@.take(i as int));
            assert(prefix2.last() == vals@[i as int]);
        }
        vals[i].to_bytes_into(out);
        i = i + 1;
    }
    proof {
        assert(vals@.take(n as int) =~= vals@);
    }
}

/// The wire record of one block: its start device, its size field
/// (words), and its value bytes.
pub open spec fn spec_block_write_record(cpu: crate::device::CPU, b: BlockedDeviceData) -> Seq<
    u8,
> {
    match b.access_type {
        AccessType::Word => spec_device_bytes(b.start_device, cpu) + spec_u16_le(
            (spec_values_bytes(b.data@).len() / 2) as u16,
        ) + spec_values_bytes(b.data@),
        AccessType::Bit => spec_device_bytes(b.start_device, cpu) + spec_u16_le(
            spec_div_ceil(b.data@.len(), 16) as u16,
        ) + spec_packed_words(b.data@),
    }
}

/// The records of the first `j` blocks in sorted order.
pub open spec fn spec_block_write_records(
    cpu: crate::device::CPU,
    data: Seq<BlockedDeviceData>,
    order: Seq<usize>,
    j: int,
) -> Seq<u8>
    decreases j,
{
    if j <= 0 {
        Seq::empty()
    } else {
        spec_block_write_records(cpu, data, order, j - 1) + spec_block_write_record(
            cpu,
            data[order[j - 1] as int],
        )
    }
}

/// What a block write carries: the caller's blocks, their sorted order
/// (word blocks first, caller order within each class), and the two
/// block counts.
#[derive(Clone, Debug, PartialEq)]
pub struct SLMPBlockWriteQuery {
    pub connection_props: SLMP4EConnectionProps,
    pub data: Vec<BlockedDeviceData>,
    pub order: Vec<usize>,
    pub word_access_points: u8,
    pub bit_access_points: u8,
}

/// A built block-write request frame.
#[derive(Clone, Debug, PartialEq)]
pub struct SLMPBlockWriteCommand(pub Vec<u8>);

impl SLMPBlockWriteQuery {
    /// Internal consistency: the order is a stable sort of the blocks by
    /// access type, the counts match the blocks, and there are at most
    /// 255 blocks.
    pub open spec fn wf(self) -> bool {
        &&& self.data@.len() <= 255
        &&& spec_is_sorted_permutation(spec_keys_of(self.data@), self.order@)
        &&& self.word_access_points == spec_count_by(
            self.data@,
            |b: BlockedDeviceData| spec_word_data_ind(b),
        )
        &&& self.bit_access_points == spec_count_by(
            self.data@,
            |b: BlockedDeviceData| spec_bit_data_ind(b),
        )
    }

    /// Sort the caller's blocks by access type and count them.
    ///
    /// Fails with `Validation` exactly when there are more than 255
    /// blocks, which the two count bytes cannot carry.
    pub fn new(connection_props: SLMP4EConnectionProps, data: Vec<BlockedDeviceData>) -> (r:
        Result<SLMPBlockWriteQuery, SLMPError>)
        ensures
            match r {
                Ok(q) => {
                    &&& data@.len() <= 255
                    &&& q.connection_props == connection_props
                    &&& q.data@ == data@
                    &&& q.wf()
                },
                Err(e) => {
                    &&& e == SLMPError::Validation
                    &&& data@.len() > 255
                },
            },
    {
        let n = data.len();
        if n > 255 {
            return Err(SLMPError::Validation);
        }
        let order = sort_indices(&data);
        let mut words: usize = 0;
        let mut bits: usize = 0;
        let mut i: usize = 0;
        while i < n
            invariant
                n == data@.len(),
                0 <= i <= n,
                words == spec_count_by(
                    data@.take(i as int),
                    |b: BlockedDeviceData| spec_word_data_ind(b),
                ),
                bits == spec_count_by(
                    data@.take(i as int),
                    |b: BlockedDeviceData| spec_bit_data_ind(b),
                ),
                words <= i,
                bits <= i,
            decreases n - i,
        {
            let ghost prefix2 = data@.take(i as int + 1);
            proof {
                assert(prefix2.drop_last() =~= data@.take(i as int));
                assert(prefix2.last() == data@[i as int]);
            }
            match data[i].access_type {
                AccessType::Word => {
                    words = words + 1;
                },
                AccessType::Bit => {
                    bits = bits + 1;
                },
            }
            i = i + 1;
        }
        proof {
            assert(data@.take(n as int) =~= data@);
        }
        Ok(
            SLMPBlockWriteQuery {
                connection_props,
                data,
                order,
                word_access_points: words as u8,
                bit_access_points: bits as u8,
            },
        )
    }
}

/// The payload of a block write: the two block counts, then one record
/// per block in sorted order.
pub open spec fn spec_block_write_payload(q: SLMPBlockWriteQuery) -> Seq<u8> {
    seq![q.word_access_points, q.bit_access_points] + spec_block_write_records(
        q.connection_props.cpu,
        q.data@,
        q.order@,
        q.order@.len() as int,
    )
}

/// Build the block-write request frame from a sorted query.
///
/// Fails with `Validation` exactly when the payload would not fit the
/// sixteen-bit length field of the frame.
pub fn construct_frame(query: &SLMPBlockWriteQuery) -> (r: Result<
    SLMPBlockWriteCommand,
    SLMPError,
>)
    requires
        query.wf(),
        forall|j: int, i: int|
            0 <= j < query.data@.len() && 0 <= i < (#[trigger] query.data@[j]).data@.len()
                ==> (#[trigger] query.data@[j].data@[i]).wf(),
        forall|j: int|
            0 <= j < query.data@.len() ==> (#[trigger] query.data@[j]).data@.len() + 16
                <= usize::MAX,
    ensures
        match r {
            Ok(c) => {
                &&& spec_block_write_payload(*query).len() + 6 <= 0xFFFF
                &&& c.0@ == spec_frame(
                    query.connection_props,
                    0x1406,
                    spec_subcommand(query.connection_props.cpu, AccessType::Word),
                    spec_block_write_payload(*query),
                )
            },
            Err(e) => {
                &&& e == SLMPError::Validation
                &&& spec_block_write_payload(*query).len() + 6 > 0xFFFF
            },
        },
{
    let cpu = query.connection_props.cpu;
    let n = query.order.len();
    let mut payload: Vec<u8> = Vec::new();
    payload.push(query.word_access_points);
    payload.push(query.bit_access_points);
    let mut j: usize = 0;
    while j < n
        invariant
            query.wf(),
            forall|j2: int, i: int|
                0 <= j2 < query.data@.len() && 0 <= i < (#[trigger] query.data@[j2]).data@.len()
                    ==> (#[trigger] query.data@[j2].data@[i]).wf(),
            forall|j2: int|
                0 <= j2 < query.data@.len() ==> (#[trigger] query.data@[j2]).data@.len() + 16
                    <= usize::MAX,
            cpu == query.connection_props.cpu,
            n == query.order@.len(),
            0 <= j <= n,
            payload@ =~= seq![
                query.word_access_points,
                query.bit_access_points,
            ] + spec_block_write_records(cpu, query.data@, query.order@, j as int),
        decreases n - j,
    {
        let idx = query.order[j];
        proof {
            assert((query.order@[j as int] as int) < query.data@.len());
        }
        let b = &query.data[idx];
        b.start_device.serialize_into(cpu, &mut payload);
        match b.access_type {
            AccessType::Word => {
                let mut vb: Vec<u8> = Vec::new();
                push_values_bytes(&b.data, &mut vb);
                push_u16_le(&mut payload, (vb.len() / 2) as u16);
                let mut body = vb;
                payload.append(&mut body);
            },
            AccessType::Bit => {
                let w = div_ceil(b.data.len(), 16);
                push_u16_le(&mut payload, w as u16);
                push_packed_bits(&b.data, &mut payload);
            },
        }
        j = j + 1;
    }
    if payload.len() > 0xFFFF - 6 {
        return Err(SLMPError::Validation);
    }
    let sub = get_subcommand(cpu, AccessType::Word);
    Ok(SLMPBlockWriteCommand(build_frame(&query.connection_props, 0x1406, sub, payload)))
}

} // verus!
