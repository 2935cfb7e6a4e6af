//! Random write: scattered devices in one request.  An all-boolean run
//! goes down the bit path; otherwise every value is written by word,
//! multi-word values expanded into consecutive single-word records.

use vstd::prelude::*;
use crate::commands::{get_subcommand, spec_subcommand};
use crate::data::spec_device_size;
use crate::device::{
    AccessType,
    CPU,
    Device,
    DeviceData,
    DeviceSize,
    DeviceType,
    TypedDevice,
    spec_device_bytes,
};
use crate::error::SLMPError;
use crate::frame::{SLMP4EConnectionProps, build_frame, spec_frame};
use crate::monitor::MonitorList;
use crate::data::TypedData;

verus! {

/// The devices of a write list, typed by their values.
pub open spec fn spec_typed_devices_of(data: Seq<DeviceData>) -> Seq<TypedDevice> {
    Seq::new(
        data.len(),
        |i: int| TypedDevice { device: data[i].device, data_type: data[i].data.spec_get_type() },
    )
}

/// Whether every value of the write list is a boolean.
pub open spec fn spec_all_bool_data(data: Seq<DeviceData>) -> bool {
    forall|i: int| 0 <= i < data.len() ==> (#[trigger] data[i]).data is Bool
}

/// Whether some value of the write list is a boolean.
pub open spec fn spec_has_bool_data(data: Seq<DeviceData>) -> bool {
    exists|i: int| 0 <= i < data.len() && (#[trigger] data[i]).data is Bool
}

/// Build the typed-device projection of a write list, for sorting.
pub fn typed_devices_of(data: &Vec<DeviceData>) -> (r: Vec<TypedDevice>)
    ensures
        r@ =~= spec_typed_devices_of(data@),
{
    let mut out: Vec<TypedDevice> = Vec::new();
    let n = data.len();
    let mut i: usize = 0;
    while i < n
        invariant
            n == data@.len(),
            0 <= i <= n,
            out@.len() == i,
            forall|k: int|
                0 <= k < i ==> out@[k] == (TypedDevice {
                    device: data@[k].device,
                    data_type: data@[k].data.spec_get_type(),
                }),
        decreases n - i,
    {
        let td = TypedDevice { device: data[i].device, data_type: data[i].data.get_type() };
        out.push(td);
        i = i + 1;
    }
    out
}

/// The `k` leading single-word write records of a multi-word value:
/// consecutive devices from `base`, each carrying two value bytes.
pub open spec fn spec_multi_write_run(
    cpu: CPU,
    t: DeviceType,
    base: int,
    bytes: Seq<u8>,
    k: int,
) -> Seq<u8>
    decreases k,
{
    if k <= 0 {
        Seq::empty()
    } else {
        spec_multi_write_run(cpu, t, base, bytes, k - 1) + spec_device_bytes(
            Device { device_type: t, address: (base + k - 1) as usize },
            cpu,
        ) + bytes.subrange(2 * (k - 1), 2 * k)
    }
}

/// A run of `k` single-word write records occupies `k` address codes and
/// `2 k` value bytes.
proof fn lemma_multi_write_run_len(cpu: CPU, t: DeviceType, base: int, bytes: Seq<u8>, k: int)
    requires
        k >= 0,
        2 * k <= bytes.len(),
    ensures
        spec_multi_write_run(cpu, t, base, bytes, k).len() == k * (crate::device::spec_addr_code_len(
            cpu,
        ) + 2),
    decreases k,
{
    if k > 0 {
        lemma_multi_write_run_len(cpu, t, base, bytes, k - 1);
        let a = crate::device::spec_addr_code_len(cpu) + 2;
        let dev = Device { device_type: t, address: (base + k - 1) as usize };
        crate::device::lemma_device_bytes_len(dev, cpu);
        assert(bytes.subrange(2 * (k - 1), 2 * k).len() == 2);
        assert(spec_multi_write_run(cpu, t, base, bytes, k).len() == spec_multi_write_run(
            cpu,
            t,
            base,
            bytes,
            k - 1,
        ).len() + spec_device_bytes(dev, cpu).len() + 2);
        assert(k * a == (k - 1) * a + a) by (nonlinear_arith);
        assert(spec_multi_write_run(cpu, t, base, bytes, k).len() == k * a);
    } else {
        assert(k == 0);
        assert(spec_multi_write_run(cpu, t, base, bytes, k).len() == 0);
    }
}

/// The word-path write record of one device and its value.
pub open spec fn spec_write_record(cpu: CPU, dd: DeviceData) -> Seq<u8> {
    match spec_device_size(dd.data.spec_get_type()) {
        DeviceSize::MultiWord(n) => spec_multi_write_run(
            cpu,
            dd.device.device_type,
            dd.device.address as int,
            dd.data.spec_to_bytes(),
            n as int,
        ),
        _ => spec_device_bytes(dd.device, cpu) + dd.data.spec_to_bytes(),
    }
}

/// The word-path records of the first `j` sorted entries.
pub open spec fn spec_word_records_prefix(
    cpu: CPU,
    sd: Seq<(usize, TypedDevice)>,
    data: Seq<DeviceData>,
    j: int,
) -> Seq<u8>
    decreases j,
{
    if j <= 0 {
        Seq::empty()
    } else {
        spec_word_records_prefix(cpu, sd, data, j - 1) + spec_write_record(
            cpu,
            data[sd[j - 1].0 as int],
        )
    }
}

/// The payload of a word-path random write: the two access-point counts,
/// then one record per sorted entry.
pub open spec fn spec_random_write_word_payload(
    cpu: CPU,
    l: MonitorList,
    data: Seq<DeviceData>,
) -> Seq<u8> {
    seq![l.single_word_access_points, l.double_word_access_points] + spec_word_records_prefix(
        cpu,
        l.sorted_devices@,
        data,
        l.sorted_devices@.len() as int,
    )
}

/// The bit-path write record of one device: its address code, the bit
/// value, and one pad byte on R CPUs.
pub open spec fn spec_bit_record(cpu: CPU, dd: DeviceData) -> Seq<u8> {
    spec_device_bytes(dd.device, cpu) + seq![
        if dd.data == TypedData::Bool(true) {
            1u8
        } else {
            0u8
        },
    ] + if cpu is R {
        seq![0u8]
    } else {
        Seq::empty()
    }
}

/// On an R CPU every bit-path record carries exactly one pad byte of
/// zero after the bit value, closing the record at eight bytes.
pub proof fn lemma_r_bit_record_pad(dd: DeviceData)
    ensures
        spec_bit_record(CPU::R, dd).len() == 8,
        spec_bit_record(CPU::R, dd)[7] == 0,
        spec_bit_record(CPU::R, dd)[6] == (if dd.data == TypedData::Bool(true) {
            1u8
        } else {
            0u8
        }),
{
}

/// The bit-path records of the first `j` sorted entries.
pub open spec fn spec_bit_records_prefix(
    cpu: CPU,
    sd: Seq<(usize, TypedDevice)>,
    data: Seq<DeviceData>,
    j: int,
) -> Seq<u8>
    decreases j,
{
    if j <= 0 {
        Seq::empty()
    } else {
        spec_bit_records_prefix(cpu, sd, data, j - 1) + spec_bit_record(
            cpu,
            data[sd[j - 1].0 as int],
        )
    }
}

/// The payload of a bit-path random write: the bit count, then one
/// record per sorted entry.
pub open spec fn spec_random_write_bit_payload(
    cpu: CPU,
    l: MonitorList,
    data: Seq<DeviceData>,
) -> Seq<u8> {
    seq![data.len() as u8] + spec_bit_records_prefix(
        cpu,
        l.sorted_devices@,
        data,
        l.sorted_devices@.len() as int,
    )
}

/// Every word record fits in 256 bytes, every bit record in 8.
proof fn lemma_record_len_bounds(cpu: CPU, dd: DeviceData)
    requires
        dd.data.wf(),
        dd.data.spec_get_type().wf(),
    ensures
        spec_write_record(cpu, dd).len() <= 256,
        spec_bit_record(cpu, dd).len() <= 8,
{
    match spec_device_size(dd.data.spec_get_type()) {
        DeviceSize::MultiWord(n) => {
            crate::data::lemma_to_bytes_len(dd.data);
            assert(dd.data.spec_to_bytes().len() == 2 * n);
            lemma_multi_write_run_len(
                cpu,
                dd.device.device_type,
                dd.device.address as int,
                dd.data.spec_to_bytes(),
                n as int,
            );
            let a = crate::device::spec_addr_code_len(cpu) + 2;
            assert((n as int) * a <= 32 * 8) by (nonlinear_arith)
                requires
                    0 <= n <= 32,
                    0 <= a <= 8,
            ;
        },
        _ => {
            crate::data::lemma_to_bytes_len(dd.data);
        },
    }
}

/// The record prefixes grow by at most one record bound per entry.
proof fn lemma_records_prefix_len(
    cpu: CPU,
    sd: Seq<(usize, TypedDevice)>,
    data: Seq<DeviceData>,
    j: int,
)
    requires
        0 <= j <= sd.len(),
        forall|q: int| 0 <= q < sd.len() ==> (#[trigger] sd[q]).0 < data.len(),
        forall|i: int|
            0 <= i < data.len() ==> (#[trigger] data[i]).data.wf()
                && data[i].data.spec_get_type().wf(),
    ensures
        spec_word_records_prefix(cpu, sd, data, j).len() <= 256 * j,
        spec_bit_records_prefix(cpu, sd, data, j).len() <= 8 * j,
    decreases j,
{
    if j > 0 {
        lemma_records_prefix_len(cpu, sd, data, j - 1);
        lemma_record_len_bounds(cpu, data[sd[j - 1].0 as int]);
    }
}

/// What a random write carries: the values and their sorted monitor
/// list.
#[derive(Clone, Debug, PartialEq)]
pub struct SLMPRandomWriteQuery {
    pub connection_props: SLMP4EConnectionProps,
    pub data: Vec<DeviceData>,
    pub monitor_list: MonitorList,
}

/// A built random-write request frame.
#[derive(Clone, Debug, PartialEq)]
pub struct SLMPRandomWriteCommand(pub Vec<u8>);

/// Build the random-write request frame, or nothing for an empty run.
///
/// An empty run means there is nothing to send, and succeeds without a
/// frame.  An all-boolean run is written by bit, one record per device
/// with a pad byte on R CPUs; a run without booleans is written by word,
/// multi-word values expanded.  Fails with `Validation` exactly when
/// booleans and word values are mixed in one run.
pub fn construct_frame(query: &SLMPRandomWriteQuery) -> (r: Result<
    Option<SLMPRandomWriteCommand>,
    SLMPError,
>)
    requires
        query.monitor_list.wf(),
        query.monitor_list.spec_is_from(spec_typed_devices_of(query.data@)),
        forall|i: int| 0 <= i < query.data@.len() ==> (#[trigger] query.data@[i]).data.wf(),
    ensures
        match r {
            Ok(cmd) => {
                &&& (cmd is None <==> query.data@.len() == 0)
                &&& cmd matches Some(c) ==> {
                    if spec_all_bool_data(query.data@) {
                        c.0@ == spec_frame(
                            query.connection_props,
                            0x1402,
                            spec_subcommand(query.connection_props.cpu, AccessType::Bit),
                            spec_random_write_bit_payload(
                                query.connection_props.cpu,
                                query.monitor_list,
                                query.data@,
                            ),
                        )
                    } else {
                        !spec_has_bool_data(query.data@) && c.0@ == spec_frame(
                            query.connection_props,
                            0x1402,
                            spec_subcommand(query.connection_props.cpu, AccessType::Word),
                            spec_random_write_word_payload(
                                query.connection_props.cpu,
                                query.monitor_list,
                                query.data@,
                            ),
                        )
                    }
                }
            },
            Err(e) => {
                &&& e == SLMPError::Validation
                &&& spec_has_bool_data(query.data@)
                &&& !spec_all_bool_data(query.data@)
            },
        },
{
    let cpu = query.connection_props.cpu;
    let n = query.data.len();
    let ghost tds = spec_typed_devices_of(query.data@);
    proof {
        assert(query.monitor_list.sorted_devices@.len() == n);
        assert forall|i: int| 0 <= i < query.data@.len() implies (
        #[trigger] query.data@[i]).data.spec_get_type().wf() by {
            assert(crate::sort::spec_contains_index(query.monitor_list.spec_index_seq(), i));
            let j = choose|j: int|
                0 <= j < query.monitor_list.spec_index_seq().len() && (query.monitor_list.spec_index_seq()[j] as int) == i;
            assert(query.monitor_list.sorted_devices@[j].0 as int == i);
            assert(query.monitor_list.sorted_devices@[j].1.data_type.wf());
            assert(query.monitor_list.sorted_devices@[j].1 == tds[i]);
        }
    }
    if n == 0 {
        return Ok(None);
    }
    let mut all_bool = true;
    let mut has_bool = false;
    let mut i: usize = 0;
    while i < n
        invariant
            n == query.data@.len(),
            0 <= i <= n,
            all_bool == spec_all_bool_data(query.data@.take(i as int)),
            has_bool == spec_has_bool_data(query.data@.take(i as int)),
        decreases n - i,
    {
        let ghost prefix = query.data@.take(i as int);
        let ghost prefix2 = query.data@.take(i as int + 1);
        let is_b = matches!(&query.data[i].data, TypedData::Bool(_));
        let was_all = all_bool;
        let was_has = has_bool;
        if is_b {
            has_bool = true;
        } else {
            all_bool = false;
        }
        proof {
            assert(prefix2.drop_last() =~= prefix);
            assert(prefix2.last() == query.data@[i as int]);
            if is_b {
                assert(prefix2[i as int].data is Bool);
                assert(spec_has_bool_data(prefix2));
                if was_all {
                    assert forall|k: int| 0 <= k < prefix2.len() implies (
                    #[trigger] prefix2[k]).data is Bool by {
                        if k < i {
                            assert(prefix2[k] == prefix[k]);
                            assert(prefix[k].data is Bool);
                        }
                    }
                } else {
                    let k = choose|k: int|
                        0 <= k < prefix.len() && !((#[trigger] prefix[k]).data is Bool);
                    assert(prefix2[k] == prefix[k]);
                    assert(!spec_all_bool_data(prefix2));
                }
            } else {
                assert(!(prefix2[i as int].data is Bool));
                assert(!spec_all_bool_data(prefix2));
                if was_has {
                    let k = choose|k: int|
                        0 <= k < prefix.len() && ((#[trigger] prefix[k]).data is Bool);
                    assert(prefix2[k] == prefix[k]);
                    assert(spec_has_bool_data(prefix2));
                } else {
                    assert forall|k: int| 0 <= k < prefix2.len() implies !((
                    #[trigger] prefix2[k]).data is Bool) by {
                        if k < i {
                            assert(prefix2[k] == prefix[k]);
                        }
                    }
                }
            }
        }
        i = i + 1;
    }
    proof {
        assert(query.data@.take(n as int) =~= query.data@);
    }
    if all_bool {
        proof {
            query.monitor_list.lemma_len_bounded();
        }
        let mut payload: Vec<u8> = Vec::new();
        payload.push(n as u8);
        let mut j: usize = 0;
        while j < n
            invariant
                query.monitor_list.wf(),
                query.monitor_list.spec_is_from(spec_typed_devices_of(query.data@)),
                cpu == query.connection_props.cpu,
                n == query.data@.len(),
                query.monitor_list.sorted_devices@.len() == n,
                0 <= j <= n,
                payload@ =~= seq![n as u8] + spec_bit_records_prefix(
                    cpu,
                    query.monitor_list.sorted_devices@,
                    query.data@,
                    j as int,
                ),
            decreases n - j,
        {
            let idx = query.monitor_list.sorted_devices[j].0;
            proof {
                assert(query.monitor_list.sorted_devices@[j as int].0 < n);
            }
            let dd: DeviceData = query.data[idx];
            dd.device.serialize_into(cpu, &mut payload);
            payload.push(
                if matches!(&dd.data, TypedData::Bool(true)) {
                    1
                } else {
                    0
                },
            );
            if matches!(cpu, CPU::R) {
                payload.push(0);
            }
            j = j + 1;
        }
        proof {
            lemma_records_prefix_len(cpu, query.monitor_list.sorted_devices@, query.data@, n as int);
        }
        let sub = get_subcommand(cpu, AccessType::Bit);
        Ok(Some(SLMPRandomWriteCommand(build_frame(&query.connection_props, 0x1402, sub, payload))))
    } else if has_bool {
        Err(SLMPError::Validation)
    } else {
        proof {
            query.monitor_list.lemma_len_bounded();
        }
        let mut payload: Vec<u8> = Vec::new();
        payload.push(query.monitor_list.single_word_access_points);
        payload.push(query.monitor_list.double_word_access_points);
        let mut j: usize = 0;
        while j < n
            invariant
                query.monitor_list.wf(),
                query.monitor_list.spec_is_from(spec_typed_devices_of(query.data@)),
                forall|i2: int|
                    0 <= i2 < query.data@.len() ==> (#[trigger] query.data@[i2]).data.wf(),
                cpu == query.connection_props.cpu,
                n == query.data@.len(),
                query.monitor_list.sorted_devices@.len() == n,
                0 <= j <= n,
                payload@ =~= seq![
                    query.monitor_list.single_word_access_points,
                    query.monitor_list.double_word_access_points,
                ] + spec_word_records_prefix(cpu, query.monitor_list.sorted_devices@, query.data@, j as int),
            decreases n - j,
        {
            let idx = query.monitor_list.sorted_devices[j].0;
            proof {
                assert(query.monitor_list.sorted_devices@[j as int].0 < n);
                assert(query.monitor_list.sorted_devices@[j as int].1 == spec_typed_devices_of(query.data@)[idx as int]);
                assert(query.monitor_list.sorted_devices@[j as int].1.device.address + 32 <= usize::MAX);
                assert(query.monitor_list.sorted_devices@[j as int].1.data_type.wf());
            }
            let dd: DeviceData = query.data[idx];
            let value_bytes = dd.data.to_bytes();
            match dd.data.get_type().device_size() {
                DeviceSize::MultiWord(m) => {
                    proof {
                        crate::data::lemma_to_bytes_len(dd.data);
                        assert(value_bytes@.len() == 2 * m);
                    }
                    let ghost rec_base = payload@;
                    let mut k: usize = 0;
                    while k < m as usize
                        invariant
                            cpu == query.connection_props.cpu,
                            0 <= k <= m,
                            (idx as int) < query.data@.len(),
                            dd == query.data@[idx as int],
                            spec_device_size(dd.data.spec_get_type()) == DeviceSize::MultiWord(m),
                            dd.device.address + 32 <= usize::MAX,
                            m <= 32,
                            value_bytes@ == dd.data.spec_to_bytes(),
                            value_bytes@.len() == 2 * m,
                            payload@ =~= rec_base + spec_multi_write_run(
                                cpu,
                                dd.device.device_type,
                                dd.device.address as int,
                                dd.data.spec_to_bytes(),
                                k as int,
                            ),
                        decreases m - k,
                    {
                        let dev = Device {
                            device_type: dd.device.device_type,
                            address: dd.device.address + k,
                        };
                        dev.serialize_into(cpu, &mut payload);
                        let chunk = vstd::slice::slice_subrange(
                            value_bytes.as_slice(),
                            2 * k,
                            2 * k + 2,
                        );
                        payload.extend_from_slice(chunk);
                        k = k + 1;
                    }
                },
                _ => {
                    dd.device.serialize_into(cpu, &mut payload);
                    let mut vb = value_bytes;
                    payload.append(&mut vb);
                },
            }
            j = j + 1;
        }
        proof {
            lemma_records_prefix_len(cpu, query.monitor_list.sorted_devices@, query.data@, n as int);
        }
        let sub = get_subcommand(cpu, AccessType::Word);
        Ok(Some(SLMPRandomWriteCommand(build_frame(&query.connection_props, 0x1402, sub, payload))))
    }
}

} // verus!
