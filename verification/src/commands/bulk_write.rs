//! Bulk write: one contiguous run of devices, by word or by bit.

use vstd::prelude::*;
use crate::commands::{get_subcommand, spec_subcommand};
use crate::data::TypedData;
use crate::device::{AccessType, Device, spec_addr_code_len, spec_device_bytes};
use crate::error::SLMPError;
use crate::frame::{SLMP4EConnectionProps, build_frame, spec_frame};
use crate::wire::{spec_div_ceil, spec_u16_le, push_u16_le};

verus! {

/// What a bulk write carries: a start device and the values for the
/// consecutive devices after it.
#[derive(Clone, Debug, PartialEq)]
pub struct SLMPBulkWriteQuery {
    pub connection_props: SLMP4EConnectionProps,
    pub start_device: Device,
    pub data: Vec<TypedData>,
}

/// A built bulk-write request frame.
#[derive(Clone, Debug, PartialEq)]
pub struct SLMPBulkWriteCommand(pub Vec<u8>);

/// Whether every value is a boolean, which routes the write down the
/// bit path.
pub open spec fn spec_all_bool(vals: Seq<TypedData>) -> bool {
    forall|i: int| 0 <= i < vals.len() ==> (#[trigger] vals[i]) is Bool
}

/// Whether a value is the boolean `true`; any other value counts as a
/// zero bit.
pub open spec fn spec_is_true(v: TypedData) -> bool {
    v == TypedData::Bool(true)
}

/// The concatenated wire bytes of a run of values.
pub open spec fn spec_values_bytes(vals: Seq<TypedData>) -> Seq<u8>
    decreases vals.len(),
{
    if vals.len() == 0 {
        Seq::empty()
    } else {
        spec_values_bytes(vals.drop_last()) + vals.last().spec_to_bytes()
    }
}

/// Bits packed two per byte for a bulk bit write, high nibble first; an
/// odd run is padded with a zero bit.
pub open spec fn spec_packed_bits(vals: Seq<TypedData>) -> Seq<u8> {
    Seq::new(
        spec_div_ceil(vals.len(), 2),
        |m: int|
            ((if spec_is_true(vals[2 * m]) { 16int } else { 0int }) + (if 2 * m + 1 < vals.len()
                && spec_is_true(vals[2 * m + 1]) {
                1int
            } else {
                0int
            })) as u8,
    )
}

/// The payload of a bulk word write: start device, word count, values.
pub open spec fn spec_bulk_write_word_payload(q: SLMPBulkWriteQuery) -> Seq<u8> {
    spec_device_bytes(q.start_device, q.connection_props.cpu) + spec_u16_le(
        (spec_values_bytes(q.data@).len() / 2) as u16,
    ) + spec_values_bytes(q.data@)
}

/// The payload of a bulk bit write: start device, bit count, packed
/// bits.
pub open spec fn spec_bulk_write_bit_payload(q: SLMPBulkWriteQuery) -> Seq<u8> {
    spec_device_bytes(q.start_device, q.connection_props.cpu) + spec_u16_le(
        q.data@.len() as u16,
    ) + spec_packed_bits(q.data@)
}

/// Whether the bulk write fits its frame: the bit count field, or the
/// word payload, must fit sixteen bits.
pub open spec fn spec_bulk_write_fits(q: SLMPBulkWriteQuery) -> bool {
    if spec_all_bool(q.data@) {
        q.data@.len() <= 0xFFFF
    } else {
        spec_addr_code_len(q.connection_props.cpu) + 2 + spec_values_bytes(q.data@).len() + 6
            <= 0xFFFF
    }
}

/// Build the bulk-write request frame, or nothing for an empty run.
///
/// An empty run means there is nothing to send, and succeeds without a
/// frame.  All-boolean values go down the bit path, packed two bits per
/// byte; anything else goes down the word path.  Fails with
/// `Validation` exactly when the run would not fit the frame.
pub fn construct_frame(query: &SLMPBulkWriteQuery) -> (r: Result<
    Option<SLMPBulkWriteCommand>,
    SLMPError,
>)
    requires
        forall|i: int| 0 <= i < query.data@.len() ==> (#[trigger] query.data@[i]).wf(),
    ensures
        match r {
            Ok(cmd) => {
                &&& query.data@.len() == 0 <==> cmd is None
                &&& cmd matches Some(c) ==> spec_bulk_write_fits(*query) && c.0@ == spec_frame(
                    query.connection_props,
                    0x1401,
                    spec_subcommand(
                        query.connection_props.cpu,
                        if spec_all_bool(query.data@) {
                            AccessType::Bit
                        } else {
                            AccessType::Word
                        },
                    ),
                    if spec_all_bool(query.data@) {
                        spec_bulk_write_bit_payload(*query)
                    } else {
                        spec_bulk_write_word_payload(*query)
                    },
                )
            },
            Err(e) => {
                &&& e == SLMPError::Validation
                &&& !spec_bulk_write_fits(*query)
            },
        },
{
    let n = query.data.len();
    if n == 0 {
        proof {
            assert(spec_all_bool(query.data@));
        }
        return Ok(None);
    }
    let mut all_bool = true;
    let mut i: usize = 0;
    while i < n
        invariant
            n == query.data@.len(),
            0 <= i <= n,
            all_bool == spec_all_bool(query.data@.take(i as int)),
        decreases n - i,
    {
        let ghost prefix = query.data@.take(i as int);
        let ghost prefix2 = query.data@.take(i as int + 1);
        let is_b = matches!(&query.data[i], TypedData::Bool(_));
        let was_all = all_bool;
        if !is_b {
            all_bool = false;
        }
        proof {
            assert(prefix2.drop_last() =~= prefix);
            assert(prefix2.last() == query.data@[i as int]);
            if was_all && is_b {
                assert forall|k: int| 0 <= k < prefix2.len() implies (#[trigger] prefix2[k])
                    is Bool by {
                    if k < i {
                        assert(prefix2[k] == prefix[k]);
                        assert(prefix[k] is Bool);
                    } else {
                        assert(prefix2[k] == query.data@[i as int]);
                    }
                }
            } else if !was_all {
                let k = choose|k: int| 0 <= k < prefix.len() && !((#[trigger] prefix[k]) is Bool);
                assert(prefix2[k] == prefix[k]);
                assert(!spec_all_bool(prefix2));
            } else {
                assert(!(prefix2.last() is Bool));
                assert(!spec_all_bool(prefix2));
            }
        }
        i = i + 1;
    }
    proof {
        assert(query.data@.take(n as int) =~= query.data@);
    }
    if all_bool {
        if n > 0xFFFF {
            return Err(SLMPError::Validation);
        }
        let mut packed: Vec<u8> = Vec::new();
        let mut m: usize = 0;
        let half: usize = (n + 1) / 2;
        while m < half
            invariant
                n == query.data@.len(),
                half == spec_div_ceil(n as nat, 2),
                0 <= m <= half,
                packed@.len() == m,
                forall|k: int| 0 <= k < m ==> packed@[k] == spec_packed_bits(query.data@)[k],
            decreases half - m,
        {
            let hi: u8 = if matches!(&query.data[2 * m], TypedData::Bool(true)) {
                16
            } else {
                0
            };
            let lo: u8 = if 2 * m + 1 < n && matches!(&query.data[2 * m + 1], TypedData::Bool(true)) {
                1
            } else {
                0
            };
            packed.push(hi + lo);
            m = m + 1;
        }
        proof {
            assert(packed@ =~= spec_packed_bits(query.data@));
        }
        let mut payload: Vec<u8> = Vec::new();
        query.start_device.serialize_into(query.connection_props.cpu, &mut payload);
        push_u16_le(&mut payload, n as u16);
        let mut bits = packed;
        payload.append(&mut bits);
        let sub = get_subcommand(query.connection_props.cpu, AccessType::Bit);
        Ok(Some(SLMPBulkWriteCommand(build_frame(&query.connection_props, 0x1401, sub, payload))))
    } else {
        let mut values: Vec<u8> = Vec::new();
        let mut i: usize = 0;
        while i < n
            invariant
                n == query.data@.len(),
                forall|k: int| 0 <= k < query.data@.len() ==> (#[trigger] query.data@[k]).wf(),
                0 <= i <= n,
                values@ =~= spec_values_bytes(query.data@.take(i as int)),
            decreases n - i,
        {
            let ghost prefix2 = query.data@.take(i as int + 1);
            proof {
                assert(prefix2.drop_last() =~= query.data@.take(i as int));
                assert(prefix2.last() == query.data@[i as int]);
            }
            query.data[i].to_bytes_into(&mut values);
            i = i + 1;
        }
        proof {
            assert(query.data@.take(n as int) =~= query.data@);
        }
        let addr_len = Device::addr_code_len(query.connection_props.cpu);
        if values.len() > 0xFFFF {
            return Err(SLMPError::Validation);
        }
        if addr_len as usize + 2 + values.len() + 6 > 0xFFFF {
            return Err(SLMPError::Validation);
        }
        let word_size: u16 = (values.len() / 2) as u16;
        let mut payload: Vec<u8> = Vec::new();
        query.start_device.serialize_into(query.connection_props.cpu, &mut payload);
        push_u16_le(&mut payload, word_size);
        let mut body = values;
        payload.append(&mut body);
        let sub = get_subcommand(query.connection_props.cpu, AccessType::Word);
        Ok(Some(SLMPBulkWriteCommand(build_frame(&query.connection_props, 0x1401, sub, payload))))
    }
}

} // verus!
