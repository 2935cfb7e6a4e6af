//! Random read: scattered devices in one request, multi-word values
//! expanded into consecutive single-word access points.

use vstd::prelude::*;
use crate::commands::{get_subcommand, spec_subcommand};
use crate::data::spec_device_size;
use crate::device::{
    AccessType,
    CPU,
    Device,
    DeviceSize,
    DeviceType,
    TypedDevice,
    spec_addr_code_len,
    spec_device_bytes,
};
use crate::frame::{SLMP4EConnectionProps, build_frame, spec_frame};
use crate::monitor::{
    MonitorList,
    spec_single_ind,
    spec_double_ind,
    spec_multi_words,
    spec_total_points,
};
use crate::sort::spec_count_by;

verus! {

/// Access points one device expands into: one for single- and
/// double-word classes, `n` for a multi-word value.
pub open spec fn spec_points_of(d: TypedDevice) -> int {
    spec_single_ind(d.data_type) + spec_multi_words(d.data_type) + spec_double_ind(d.data_type)
}

/// The class counts split the total access points.
pub proof fn lemma_points_split(s: Seq<TypedDevice>)
    ensures
        spec_count_by(s, |d: TypedDevice| spec_points_of(d)) == spec_total_points(s),
    decreases s.len(),
{
    if s.len() > 0 {
        lemma_points_split(s.drop_last());
    }
}

/// The serialised forms of `k` consecutive devices starting at `base`.
pub open spec fn spec_device_run(cpu: CPU, t: DeviceType, base: int, k: int) -> Seq<u8>
    decreases k,
{
    if k <= 0 {
        Seq::empty()
    } else {
        spec_device_run(cpu, t, base, k - 1) + spec_device_bytes(
            Device { device_type: t, address: (base + k - 1) as usize },
            cpu,
        )
    }
}

/// A run of `k` devices serialises to `k` address codes.
pub proof fn lemma_device_run_len(cpu: CPU, t: DeviceType, base: int, k: int)
    requires
        k >= 0,
    ensures
        spec_device_run(cpu, t, base, k).len() == k * spec_addr_code_len(cpu),
    decreases k,
{
    if k > 0 {
        lemma_device_run_len(cpu, t, base, k - 1);
        assert(k * spec_addr_code_len(cpu) == (k - 1) * spec_addr_code_len(cpu)
            + spec_addr_code_len(cpu)) by (nonlinear_arith);
    }
}

/// The serialised access points of one device: its address code, or the
/// codes of its `n` consecutive expansion devices for a multi-word
/// value.
pub open spec fn spec_expanded_device(cpu: CPU, td: TypedDevice) -> Seq<u8> {
    match spec_device_size(td.data_type) {
        DeviceSize::MultiWord(n) => spec_device_run(
            cpu,
            td.device.device_type,
            td.device.address as int,
            n as int,
        ),
        _ => spec_device_bytes(td.device, cpu),
    }
}

/// The serialised access points of the first `j` sorted entries.
pub open spec fn spec_expanded_prefix(
    cpu: CPU,
    sd: Seq<(usize, TypedDevice)>,
    j: int,
) -> Seq<u8>
    decreases j,
{
    if j <= 0 {
        Seq::empty()
    } else {
        spec_expanded_prefix(cpu, sd, j - 1) + spec_expanded_device(cpu, sd[j - 1].1)
    }
}

/// One expanded device serialises to one address code per access point.
proof fn lemma_expanded_device_len(cpu: CPU, td: TypedDevice)
    ensures
        spec_expanded_device(cpu, td).len() == spec_points_of(td) * spec_addr_code_len(cpu),
{
    match spec_device_size(td.data_type) {
        DeviceSize::MultiWord(n) => {
            lemma_device_run_len(cpu, td.device.device_type, td.device.address as int, n as int);
        },
        _ => {},
    }
}

/// The expanded prefix is one address code per access point of the
/// prefix.
proof fn lemma_expanded_prefix_len(cpu: CPU, l: MonitorList, j: int)
    requires
        0 <= j <= l.sorted_devices@.len(),
    ensures
        spec_expanded_prefix(cpu, l.sorted_devices@, j).len() == spec_count_by(
            l.spec_devices().take(j),
            |d: TypedDevice| spec_points_of(d),
        ) * spec_addr_code_len(cpu),
    decreases j,
{
    let f = |d: TypedDevice| spec_points_of(d);
    if j > 0 {
        lemma_expanded_prefix_len(cpu, l, j - 1);
        lemma_expanded_device_len(cpu, l.sorted_devices@[j - 1].1);
        assert(l.spec_devices().take(j).drop_last() =~= l.spec_devices().take(j - 1));
        assert(l.spec_devices().take(j).last() == l.sorted_devices@[j - 1].1);
        let a = spec_count_by(l.spec_devices().take(j - 1), f);
        let b = f(l.sorted_devices@[j - 1].1);
        assert((a + b) * spec_addr_code_len(cpu) == a * spec_addr_code_len(cpu) + b
            * spec_addr_code_len(cpu)) by (nonlinear_arith);
    } else {
        assert(l.spec_devices().take(0) =~= Seq::<TypedDevice>::empty());
    }
}

/// The payload of a random read: the two access-point counts, then the
/// expanded device list in sorted order.
pub open spec fn spec_random_read_payload(cpu: CPU, l: MonitorList) -> Seq<u8> {
    seq![l.single_word_access_points, l.double_word_access_points] + spec_expanded_prefix(
        cpu,
        l.sorted_devices@,
        l.sorted_devices@.len() as int,
    )
}

/// A well-formed list's payload respects the frame limit.
pub proof fn lemma_random_read_payload_len(cpu: CPU, l: MonitorList)
    requires
        l.wf(),
    ensures
        spec_random_read_payload(cpu, l).len() <= 2 + 192 * 6,
{
    let n = l.sorted_devices@.len() as int;
    lemma_expanded_prefix_len(cpu, l, n);
    assert(l.spec_devices().take(n) =~= l.spec_devices());
    lemma_points_split(l.spec_devices());
    let pts = spec_total_points(l.spec_devices());
    assert(pts * spec_addr_code_len(cpu) <= 192 * 6) by (nonlinear_arith)
        requires
            0 <= pts <= 192,
            0 <= spec_addr_code_len(cpu) <= 6,
    ;
}

/// What a random read asks for: the sorted monitor list of its devices.
#[derive(Clone, Debug, PartialEq)]
pub struct SLMPRandomReadQuery {
    pub connection_props: SLMP4EConnectionProps,
    pub monitor_list: MonitorList,
}

/// A built random-read request frame.
#[derive(Clone, Debug, PartialEq)]
pub struct SLMPRandomReadCommand(pub Vec<u8>);

/// Append the expanded access points of the sorted entries.
pub fn push_expanded_devices(cpu: CPU, l: &MonitorList, out: &mut Vec<u8>)
    requires
        l.wf(),
    ensures
        final(out)@ =~= old(out)@ + spec_expanded_prefix(
            cpu,
            l.sorted_devices@,
            l.sorted_devices@.len() as int,
        ),
{
    let n = l.sorted_devices.len();
    let ghost base = old(out)@;
    let mut j: usize = 0;
    while j < n
        invariant
            l.wf(),
            n == l.sorted_devices@.len(),
            0 <= j <= n,
            out@ =~= base + spec_expanded_prefix(cpu, l.sorted_devices@, j as int),
        decreases n - j,
    {
        let td = l.sorted_devices[j].1;
        proof {
            assert(td.data_type.wf());
            assert(td.device.address + 32 <= usize::MAX);
        }
        match td.data_type.device_size() {
            DeviceSize::MultiWord(m) => {
                let mut k: usize = 0;
                while k < m as usize
                    invariant
                        l.wf(),
                        0 <= j < l.sorted_devices@.len(),
                        td == l.sorted_devices@[j as int].1,
                        spec_device_size(td.data_type) == DeviceSize::MultiWord(m),
                        m <= 32,
                        td.device.address + 32 <= usize::MAX,
                        0 <= k <= m,
                        out@ =~= base + spec_expanded_prefix(cpu, l.sorted_devices@, j as int)
                            + spec_device_run(
                            cpu,
                            td.device.device_type,
                            td.device.address as int,
                            k as int,
                        ),
                    decreases m - k,
                {
                    let dev = Device {
                        device_type: td.device.device_type,
                        address: td.device.address + k,
                    };
                    dev.serialize_into(cpu, out);
                    k = k + 1;
                }
            },
            _ => {
                td.device.serialize_into(cpu, out);
            },
        }
        j = j + 1;
    }
}

/// Build the random-read request frame from a sorted monitor list.
pub fn construct_frame(query: &SLMPRandomReadQuery) -> (r: SLMPRandomReadCommand)
    requires
        query.monitor_list.wf(),
    ensures
        r.0@ == spec_frame(
            query.connection_props,
            0x0403,
            spec_subcommand(query.connection_props.cpu, AccessType::Word),
            spec_random_read_payload(query.connection_props.cpu, query.monitor_list),
        ),
{
    let cpu = query.connection_props.cpu;
    let mut payload: Vec<u8> = Vec::new();
    payload.push(query.monitor_list.single_word_access_points);
    payload.push(query.monitor_list.double_word_access_points);
    push_expanded_devices(cpu, &query.monitor_list, &mut payload);
    proof {
        lemma_random_read_payload_len(cpu, query.monitor_list);
        assert(payload@ =~= spec_random_read_payload(cpu, query.monitor_list));
    }
    let sub = get_subcommand(cpu, AccessType::Word);
    SLMPRandomReadCommand(build_frame(&query.connection_props, 0x0403, sub, payload))
}

} // verus!
