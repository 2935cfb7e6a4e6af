//! Block read: several contiguous runs of devices in one request, each
//! run read by word or by bit.

use vstd::prelude::*;
use crate::commands::{get_subcommand, spec_subcommand};
use crate::device::{
    AccessType,
    Device,
    DeviceBlock,
    DeviceData,
    spec_device_bytes,
};
use crate::data::TypedData;
use crate::error::SLMPError;
use crate::frame::{SLMP4EConnectionProps, build_frame, spec_frame};
use crate::sort::{
    SortKeyed,
    sort_indices,
    spec_count_by,
    spec_is_sorted_permutation,
    spec_key_le,
    spec_keys_of,
};
use crate::wire::{spec_div_ceil, spec_u16_le, spec_u16_of_le, spec_u8_to_bits, div_ceil, push_u16_le, u8_to_bits};

verus! {

/// One when the block is word-accessed, zero otherwise.
pub open spec fn spec_word_block_ind(b: DeviceBlock) -> int {
    if b.access_type is Word {
        1
    } else {
        0
    }
}

/// One when the block is bit-accessed, zero otherwise.
pub open spec fn spec_bit_block_ind(b: DeviceBlock) -> int {
    if b.access_type is Bit {
        1
    } else {
        0
    }
}

/// What a block read asks for: the blocks sorted for the wire (word
/// blocks before bit blocks, by address within each class) and the two
/// block counts of the request header.
#[derive(Clone, Debug, PartialEq)]
pub struct SLMPBlockReadQuery {
    pub connection_props: SLMP4EConnectionProps,
    pub sorted_block: Vec<DeviceBlock>,
    pub word_access_points: u8,
    pub bit_access_points: u8,
}

/// A built block-read request frame.
#[derive(Clone, Debug, PartialEq)]
pub struct SLMPBlockReadCommand(pub Vec<u8>);

/// The sorted blocks are a stable sort of the caller's blocks.
pub open spec fn spec_is_stable_sort_of(sorted: Seq<DeviceBlock>, orig: Seq<DeviceBlock>) -> bool {
    exists|ord: Seq<usize>|
        #![trigger spec_is_sorted_permutation(spec_keys_of(orig), ord)]
        spec_is_sorted_permutation(spec_keys_of(orig), ord) && sorted =~= Seq::new(
            ord.len(),
            |j: int| orig[ord[j] as int],
        )
}

impl SLMPBlockReadQuery {
    /// Internal consistency: blocks sorted by protocol key, counts
    /// matching the blocks, at most 255 blocks, and every block small
    /// enough for its count field and its device addresses.
    pub open spec fn wf(self) -> bool {
        let bs = self.sorted_block@;
        &&& bs.len() <= 255
        &&& forall|j1: int, j2: int|
            0 <= j1 < j2 < bs.len() ==> spec_key_le(
                (#[trigger] bs[j1]).spec_key(),
                (#[trigger] bs[j2]).spec_key(),
            )
        &&& self.word_access_points == spec_count_by(bs, |b: DeviceBlock| spec_word_block_ind(b))
        &&& self.bit_access_points == spec_count_by(bs, |b: DeviceBlock| spec_bit_block_ind(b))
        &&& forall|j: int| 0 <= j < bs.len() ==> (#[trigger] bs[j]).size <= 0xFFFF
        &&& forall|j: int|
            0 <= j < bs.len() ==> (#[trigger] bs[j]).start_device.address + bs[j].size
                <= usize::MAX
    }

    /// Sort the caller's blocks and count them by access type.
    ///
    /// Fails with `Validation` exactly when there are more than 255
    /// blocks, which the two count bytes cannot carry.
    pub fn new(connection_props: SLMP4EConnectionProps, blocks: &Vec<DeviceBlock>) -> (r: Result<
        SLMPBlockReadQuery,
        SLMPError,
    >)
        requires
            forall|j: int| 0 <= j < blocks@.len() ==> (#[trigger] blocks@[j]).size <= 0xFFFF,
            forall|j: int|
                0 <= j < blocks@.len() ==> (#[trigger] blocks@[j]).start_device.address
                    + blocks@[j].size <= usize::MAX,
        ensures
            match r {
                Ok(q) => {
                    &&& blocks@.len() <= 255
                    &&& q.connection_props == connection_props
                    &&& q.wf()
                    &&& spec_is_stable_sort_of(q.sorted_block@, blocks@)
                    &&& q.sorted_block@.len() == blocks@.len()
                    &&& q.word_access_points == spec_count_by(
                        blocks@,
                        |b: DeviceBlock| spec_word_block_ind(b),
                    )
                    &&& q.bit_access_points == spec_count_by(
                        blocks@,
                        |b: DeviceBlock| spec_bit_block_ind(b),
                    )
                },
                Err(e) => {
                    &&& e == SLMPError::Validation
                    &&& blocks@.len() > 255
                },
            },
    {
        let n = blocks.len();
        if n > 255 {
            return Err(SLMPError::Validation);
        }
        let ord = sort_indices(blocks);
        let ghost keys = spec_keys_of(blocks@);
        let mut sorted: Vec<DeviceBlock> = Vec::new();
        let mut j: usize = 0;
        while j < n
            invariant
                n == blocks@.len(),
                ord@.len() == n,
                forall|q: int| 0 <= q < ord@.len() ==> (#[trigger] ord@[q]) < n,
                0 <= j <= n,
                sorted@.len() == j,
                forall|q: int| 0 <= q < j ==> #[trigger] sorted@[q] == blocks@[ord@[q] as int],
            decreases n - j,
        {
            let idx = ord[j];
            sorted.push(blocks[idx]);
            j = j + 1;
        }
        let mut words: usize = 0;
        let mut bits: usize = 0;
        let mut i: usize = 0;
        while i < n
            invariant
                n == blocks@.len(),
                0 <= i <= n,
                words == spec_count_by(
                    blocks@.take(i as int),
                    |b: DeviceBlock| spec_word_block_ind(b),
                ),
                bits == spec_count_by(
                    blocks@.take(i as int),
                    |b: DeviceBlock| spec_bit_block_ind(b),
                ),
                words <= i,
                bits <= i,
            decreases n - i,
        {
            let ghost prefix2 = blocks@.take(i as int + 1);
            proof {
                assert(prefix2.drop_last() =~= blocks@.take(i as int));
                assert(prefix2.last() == blocks@[i as int]);
            }
            match blocks[i].access_type {
                AccessType::Word => {
                    words = words + 1;
                },
                AccessType::Bit => {
                    bits = bits + 1;
                },
            }
            i = i + 1;
        }
        proof {
            assert(blocks@.take(n as int) =~= blocks@);
        }
        let q = SLMPBlockReadQuery {
            connection_props,
            sorted_block: sorted,
            word_access_points: words as u8,
            bit_access_points: bits as u8,
        };
        proof {
            assert(spec_is_sorted_permutation(keys, ord@));
            assert(spec_is_sorted_permutation(spec_keys_of(blocks@), ord@));
            assert(q.sorted_block@ =~= Seq::new(ord@.len(), |j: int| blocks@[ord@[j] as int]));
            assert(spec_is_stable_sort_of(q.sorted_block@, blocks@));
            crate::sort::lemma_sorted_permutation_is_permutation(keys, ord@);
            crate::sort::lemma_count_by_permutation(
                blocks@,
                ord@,
                |b: DeviceBlock| spec_word_block_ind(b),
            );
            crate::sort::lemma_count_by_permutation(
                blocks@,
                ord@,
                |b: DeviceBlock| spec_bit_block_ind(b),
            );
            assert forall|j1: int, j2: int| 0 <= j1 < j2 < q.sorted_block@.len() implies
                spec_key_le(
                (#[trigger] q.sorted_block@[j1]).spec_key(),
                (#[trigger] q.sorted_block@[j2]).spec_key(),
            ) by {
                assert(spec_key_le(keys[ord@[j1] as int], keys[ord@[j2] as int]));
                assert(keys[ord@[j1] as int] == blocks@[ord@[j1] as int].spec_key());
                assert(keys[ord@[j2] as int] == blocks@[ord@[j2] as int].spec_key());
            }
        }
        Ok(q)
    }
}

/// The count field of one block in the request: its size in devices for
/// a word block, its size in bytes (eight bits each, rounded up) for a
/// bit block.
pub open spec fn spec_block_request_size(b: DeviceBlock) -> int {
    match b.access_type {
        AccessType::Word => b.size as int,
        AccessType::Bit => spec_div_ceil(b.size as nat, 8) as int,
    }
}

/// The request records of the first `j` sorted blocks.
pub open spec fn spec_block_read_records(cpu: crate::device::CPU, bs: Seq<DeviceBlock>, j: int) -> Seq<u8>
    decreases j,
{
    if j <= 0 {
        Seq::empty()
    } else {
        spec_block_read_records(cpu, bs, j - 1) + spec_device_bytes(bs[j - 1].start_device, cpu)
            + spec_u16_le(spec_block_request_size(bs[j - 1]) as u16)
    }
}

/// The payload of a block read: the two block counts, then one record
/// per sorted block.
pub open spec fn spec_block_read_payload(q: SLMPBlockReadQuery) -> Seq<u8> {
    seq![q.word_access_points, q.bit_access_points] + spec_block_read_records(
        q.connection_props.cpu,
        q.sorted_block@,
        q.sorted_block@.len() as int,
    )
}

/// Each record is at most eight bytes.
proof fn lemma_block_read_records_len(cpu: crate::device::CPU, bs: Seq<DeviceBlock>, j: int)
    requires
        0 <= j <= bs.len(),
    ensures
        spec_block_read_records(cpu, bs, j).len() <= 8 * j,
    decreases j,
{
    if j > 0 {
        lemma_block_read_records_len(cpu, bs, j - 1);
    }
}

/// Build the block-read request frame from a sorted query.
pub fn construct_frame(query: &SLMPBlockReadQuery) -> (r: SLMPBlockReadCommand)
    requires
        query.wf(),
    ensures
        r.0@ == spec_frame(
            query.connection_props,
            0x0406,
            spec_subcommand(query.connection_props.cpu, AccessType::Word),
            spec_block_read_payload(*query),
        ),
{
    let cpu = query.connection_props.cpu;
    let n = query.sorted_block.len();
    let mut payload: Vec<u8> = Vec::new();
    payload.push(query.word_access_points);
    payload.push(query.bit_access_points);
    let mut j: usize = 0;
    while j < n
        invariant
            query.wf(),
            cpu == query.connection_props.cpu,
            n == query.sorted_block@.len(),
            0 <= j <= n,
            payload@ =~= seq![
                query.word_access_points,
                query.bit_access_points,
            ] + spec_block_read_records(cpu, query.sorted_block@, j as int),
        decreases n - j,
    {
        let b = query.sorted_block[j];
        b.start_device.serialize_into(cpu, &mut payload);
        let request_size: u16 = match b.access_type {
            AccessType::Word => b.size as u16,
            AccessType::Bit => div_ceil(b.size, 8) as u16,
        };
        push_u16_le(&mut payload, request_size);
        j = j + 1;
    }
    proof {
        lemma_block_read_records_len(cpu, query.sorted_block@, n as int);
    }
    let sub = get_subcommand(cpu, AccessType::Word);
    SLMPBlockReadCommand(build_frame(&query.connection_props, 0x0406, sub, payload))
}

/// Response bytes one block occupies: two per device for a word block,
/// one per eight bits (rounded up) for a bit block.
pub open spec fn spec_block_resp_len(b: DeviceBlock) -> int {
    match b.access_type {
        AccessType::Word => 2 * b.size,
        AccessType::Bit => spec_div_ceil(b.size as nat, 8) as int,
    }
}

/// Byte offset of block `j` in the response payload.
pub open spec fn spec_block_offset(bs: Seq<DeviceBlock>, j: int) -> int
    decreases j,
{
    if j <= 0 {
        0
    } else {
        spec_block_offset(bs, j - 1) + spec_block_resp_len(bs[j - 1])
    }
}

/// Index in the output vector where block `j`'s devices begin.
pub open spec fn spec_out_offset(bs: Seq<DeviceBlock>, j: int) -> int
    decreases j,
{
    if j <= 0 {
        0
    } else {
        spec_out_offset(bs, j - 1) + bs[j - 1].size
    }
}

/// The value of device `i` of block `b`, read from the response bytes
/// starting at the block's offset `off`.
pub open spec fn spec_block_value(b: DeviceBlock, recv: Seq<u8>, off: int, i: int) -> DeviceData {
    match b.access_type {
        AccessType::Word => DeviceData {
            device: Device {
                device_type: b.start_device.device_type,
                address: (b.start_device.address + i) as usize,
            },
            data: TypedData::U16(spec_u16_of_le(recv[off + 2 * i], recv[off + 2 * i + 1])),
        },
        AccessType::Bit => DeviceData {
            device: Device {
                device_type: b.start_device.device_type,
                address: (b.start_device.address + i) as usize,
            },
            data: TypedData::Bool(spec_u8_to_bits(recv[off + i / 8])[i % 8]),
        },
    }
}

/// The offsets grow with each block.
proof fn lemma_block_offsets_monotone(bs: Seq<DeviceBlock>, j1: int, j2: int)
    requires
        0 <= j1 <= j2,
    ensures
        spec_block_offset(bs, j1) <= spec_block_offset(bs, j2),
        spec_out_offset(bs, j1) <= spec_out_offset(bs, j2),
    decreases j2 - j1,
{
    if j1 < j2 {
        lemma_block_offsets_monotone(bs, j1, j2 - 1);
    }
}

/// Entry `i` of block `j` in the parse result is the value read from
/// the block's slice of the payload.
pub open spec fn spec_block_entry_ok(
    bs: Seq<DeviceBlock>,
    recv: Seq<u8>,
    r: Seq<DeviceData>,
    j: int,
    i: int,
) -> bool {
    r[spec_out_offset(bs, j) + i] == spec_block_value(bs[j], recv, spec_block_offset(bs, j), i)
}

/// Parse a block-read response payload.
///
/// The result lists the devices of every block in sorted-block order:
/// `size` word values per word block, `size` bits (least significant
/// first within each byte) per bit block.
pub fn parse_block_read(sorted_block: &Vec<DeviceBlock>, recv: &[u8]) -> (r: Vec<DeviceData>)
    requires
        forall|j: int|
            0 <= j < sorted_block@.len() ==> (#[trigger] sorted_block@[j]).start_device.address
                + sorted_block@[j].size <= usize::MAX,
        forall|j: int| 0 <= j < sorted_block@.len() ==> (#[trigger] sorted_block@[j]).size <= 0xFFFF,
        recv@.len() == spec_block_offset(sorted_block@, sorted_block@.len() as int),
    ensures
        r@.len() == spec_out_offset(sorted_block@, sorted_block@.len() as int),
        forall|j: int, i: int|
            0 <= j < sorted_block@.len() && 0 <= i < sorted_block@[j].size
                ==> #[trigger] spec_block_entry_ok(sorted_block@, recv@, r@, j, i),
{
    let n = sorted_block.len();
    let total: usize = recv.len();
    let mut out: Vec<DeviceData> = Vec::new();
    let mut off: usize = 0;
    let mut j: usize = 0;
    while j < n
        invariant
            forall|q: int|
                0 <= q < sorted_block@.len() ==> (
                #[trigger] sorted_block@[q]).start_device.address + sorted_block@[q].size
                    <= usize::MAX,
            forall|q: int| 0 <= q < sorted_block@.len() ==> (#[trigger] sorted_block@[q]).size <= 0xFFFF,
            n == sorted_block@.len(),
            recv@.len() == total,
            total == spec_block_offset(sorted_block@, n as int),
            0 <= j <= n,
            off == spec_block_offset(sorted_block@, j as int),
            out@.len() == spec_out_offset(sorted_block@, j as int),
            forall|q: int, i: int|
                0 <= q < j && 0 <= i < sorted_block@[q].size ==> #[trigger] spec_block_entry_ok(
                    sorted_block@,
                    recv@,
                    out@,
                    q,
                    i,
                ),
        decreases n - j,
    {
        proof {
            lemma_block_offsets_monotone(sorted_block@, j as int + 1, n as int);
            lemma_block_offsets_monotone(sorted_block@, 0, j as int);
        }
        let b = sorted_block[j];
        let ghost out_before = out@;
        let ghost off_g = off as int;
        match b.access_type {
            AccessType::Word => {
                let mut i: usize = 0;
                while i < b.size
                    invariant
                        b == sorted_block@[j as int],
                        0 <= j < sorted_block@.len(),
                        b.access_type is Word,
                        recv@.len() <= usize::MAX,
                        b.size <= 0xFFFF,
                        b.start_device.address + b.size <= usize::MAX,
                        recv@.len() >= off_g + 2 * b.size,
                        off_g >= 0,
                        0 <= i <= b.size,
                        out@.len() == out_before.len() + i,
                        forall|k: int| 0 <= k < out_before.len() ==> out@[k] == out_before[k],
                        forall|k: int|
                            0 <= k < i ==> out@[out_before.len() + k] == spec_block_value(
                                b,
                                recv@,
                                off_g,
                                k,
                            ),
                        off == off_g,
                    decreases b.size - i,
                {
                    let w = crate::wire::read_u16_le(recv, off + 2 * i);
                    out.push(
                        DeviceData {
                            device: Device {
                                device_type: b.start_device.device_type,
                                address: b.start_device.address + i,
                            },
                            data: TypedData::U16(w),
                        },
                    );
                    i = i + 1;
                }
            },
            AccessType::Bit => {
                let mut i: usize = 0;
                while i < b.size
                    invariant
                        b == sorted_block@[j as int],
                        0 <= j < sorted_block@.len(),
                        b.access_type is Bit,
                        recv@.len() <= usize::MAX,
                        b.size <= 0xFFFF,
                        b.start_device.address + b.size <= usize::MAX,
                        recv@.len() >= off_g + spec_div_ceil(b.size as nat, 8),
                        off_g >= 0,
                        0 <= i <= b.size,
                        out@.len() == out_before.len() + i,
                        forall|k: int| 0 <= k < out_before.len() ==> out@[k] == out_before[k],
                        forall|k: int|
                            0 <= k < i ==> out@[out_before.len() + k] == spec_block_value(
                                b,
                                recv@,
                                off_g,
                                k,
                            ),
                        off == off_g,
                    decreases b.size - i,
                {
                    proof {
                        assert(i / 8 < spec_div_ceil(b.size as nat, 8));
                    }
                    let byte = recv[off + i / 8];
                    let bits = u8_to_bits(byte);
                    let value = bits[i % 8];
                    out.push(
                        DeviceData {
                            device: Device {
                                device_type: b.start_device.device_type,
                                address: b.start_device.address + i,
                            },
                            data: TypedData::Bool(value),
                        },
                    );
                    i = i + 1;
                }
            },
        }
        proof {
            assert(out@.len() == spec_out_offset(sorted_block@, j as int + 1));
            assert forall|q: int, i: int|
                0 <= q < j + 1 && 0 <= i < sorted_block@[q].size implies
                #[trigger] spec_block_entry_ok(sorted_block@, recv@, out@, q, i) by {
                if q < j {
                    assert(spec_block_entry_ok(sorted_block@, recv@, out_before, q, i));
                    lemma_block_offsets_monotone(sorted_block@, q + 1, j as int);
                    lemma_block_offsets_monotone(sorted_block@, 0, q as int);
                    assert(spec_out_offset(sorted_block@, q) + i < out_before.len());
                } else {
                    assert(out@[out_before.len() + i] == spec_block_value(
                        sorted_block@[q],
                        recv@,
                        off_g,
                        i,
                    ));
                }
            }
        }
        let add: usize = match b.access_type {
            AccessType::Word => 2 * b.size,
            AccessType::Bit => div_ceil(b.size, 8),
        };
        off = off + add;
        j = j + 1;
    }
    out
}

} // verus!
