//! The sorted request list of the random-access protocol.
//!
//! The PLC offers only single-word and double-word access points, so a
//! multi-word value (a 64-bit float, a string) is carried by consecutive
//! single-word points.  A `MonitorList` keeps the caller's devices sorted
//! by data-type rank and address, remembers each device's place in the
//! caller's list, and caches the access-point counts of the resulting
//! request header.  Parsing a response walks the sorted slots and writes
//! each value back to its caller-order position.

use vstd::prelude::*;
use crate::data::{
    DataType,
    TypedData,
    spec_data_matches,
    spec_device_size,
    spec_value_len,
    lemma_to_bytes_len,
    lemma_typed_data_round_trip,
};
use crate::device::{DeviceData, DeviceSize, TypedDevice};
use crate::error::SLMPError;
use crate::sort::{
    SortKeyed,
    sort_indices,
    spec_contains_index,
    spec_count_by,
    spec_is_sorted_permutation,
    spec_key_le,
    spec_keys_of,
    lemma_count_by_permutation,
    lemma_sorted_permutation_is_permutation,
};

verus! {

/// Largest number of devices a monitor list accepts before the
/// access-point limit can possibly hold.
pub const MAX_ACCESS_POINTS: usize = 192;

/// One when the type occupies a single-word access point (bits included),
/// zero otherwise.
pub open spec fn spec_single_ind(t: DataType) -> int {
    match spec_device_size(t) {
        DeviceSize::Bit | DeviceSize::SingleWord => 1,
        _ => 0,
    }
}

/// One when the type occupies a double-word access point, zero otherwise.
pub open spec fn spec_double_ind(t: DataType) -> int {
    match spec_device_size(t) {
        DeviceSize::DoubleWord => 1,
        _ => 0,
    }
}

/// One when the type is carried by multiple single-word points, zero
/// otherwise.
pub open spec fn spec_multi_ind(t: DataType) -> int {
    match spec_device_size(t) {
        DeviceSize::MultiWord(_) => 1,
        _ => 0,
    }
}

/// Number of single-word points a multi-word type expands into; zero for
/// the other classes.
pub open spec fn spec_multi_words(t: DataType) -> int {
    match spec_device_size(t) {
        DeviceSize::MultiWord(n) => n as int,
        _ => 0,
    }
}

/// Number of devices of single-word class (bits included).
pub open spec fn spec_count_single(s: Seq<TypedDevice>) -> int {
    spec_count_by(s, |d: TypedDevice| spec_single_ind(d.data_type))
}

/// Number of devices of double-word class.
pub open spec fn spec_count_double(s: Seq<TypedDevice>) -> int {
    spec_count_by(s, |d: TypedDevice| spec_double_ind(d.data_type))
}

/// Number of devices of multi-word class.
pub open spec fn spec_count_multi(s: Seq<TypedDevice>) -> int {
    spec_count_by(s, |d: TypedDevice| spec_multi_ind(d.data_type))
}

/// Total single-word expansion of the multi-word devices.
pub open spec fn spec_sum_multi(s: Seq<TypedDevice>) -> int {
    spec_count_by(s, |d: TypedDevice| spec_multi_words(d.data_type))
}

/// The single-word access-point count of the request header: single-word
/// devices plus the expansion of every multi-word device.
pub open spec fn spec_sw_points(s: Seq<TypedDevice>) -> int {
    spec_count_single(s) + spec_sum_multi(s)
}

/// The double-word access-point count of the request header.
pub open spec fn spec_dw_points(s: Seq<TypedDevice>) -> int {
    spec_count_double(s)
}

/// Total access points the request consumes on the server.
pub open spec fn spec_total_points(s: Seq<TypedDevice>) -> int {
    spec_sw_points(s) + spec_dw_points(s)
}

/// The three class counts split the slot bytes: every slot is two bytes
/// per single-word point and four per double-word point.
proof fn lemma_value_len_sum(s: Seq<TypedDevice>)
    ensures
        spec_count_by(s, |d: TypedDevice| spec_value_len(d.data_type)) == 2 * spec_count_single(s)
            + 2 * spec_sum_multi(s) + 4 * spec_count_double(s),
    decreases s.len(),
{
    if s.len() > 0 {
        lemma_value_len_sum(s.drop_last());
    }
}

/// Every well-formed device contributes at least one access point.
proof fn lemma_total_points_ge_len(s: Seq<TypedDevice>)
    requires
        forall|i: int| 0 <= i < s.len() ==> (#[trigger] s[i]).data_type.wf(),
    ensures
        spec_total_points(s) >= s.len(),
    decreases s.len(),
{
    if s.len() > 0 {
        assert(forall|i: int| 0 <= i < s.drop_last().len() ==> (#[trigger] s.drop_last()[i])
            == s[i]);
        lemma_total_points_ge_len(s.drop_last());
        assert(s[s.len() - 1].data_type.wf());
        assert(spec_single_ind(s.last().data_type) + spec_multi_words(s.last().data_type)
            + spec_double_ind(s.last().data_type) >= 1);
    }
}

/// The bytes appended to a sequence sit right after it.
proof fn lemma_append_tail_subrange(a: Seq<u8>, b: Seq<u8>)
    ensures
        (a + b).subrange(a.len() as int, (a.len() + b.len()) as int) =~= b,
{
    assert forall|k: int|
        0 <= k < b.len() implies #[trigger] (a + b).subrange(
        a.len() as int,
        (a.len() + b.len()) as int,
    )[k] == b[k] by {
        assert((a + b)[a.len() + k] == b[k]);
    }
}

/// Appending bytes does not change a subrange that lies inside the
/// original sequence.
proof fn lemma_append_preserves_subrange(a: Seq<u8>, b: Seq<u8>, x: int, y: int)
    requires
        0 <= x <= y <= a.len(),
    ensures
        (a + b).subrange(x, y) =~= a.subrange(x, y),
{
    assert forall|k: int|
        0 <= k < y - x implies #[trigger] (a + b).subrange(x, y)[k] == a.subrange(x, y)[k] by {
        assert((a + b)[x + k] == a[x + k]);
    }
}

/// The caller's devices sorted for the random-access protocol, each with
/// its index in the caller's list, plus the cached access-point counts.
#[derive(Clone, Debug, PartialEq)]
pub struct MonitorList {
    pub sorted_devices: Vec<(usize, TypedDevice)>,
    pub single_word_access_points: u8,
    pub double_word_access_points: u8,
    pub multi_word_access_points: u8,
    pub single_word_access_points_for_multi_word_communication: u8,
}

impl MonitorList {
    /// The caller-order indices of the sorted entries.
    pub open spec fn spec_index_seq(self) -> Seq<usize> {
        Seq::new(self.sorted_devices@.len(), |j: int| self.sorted_devices@[j].0)
    }

    /// The sorted devices without their indices.
    pub open spec fn spec_devices(self) -> Seq<TypedDevice> {
        Seq::new(self.sorted_devices@.len(), |j: int| self.sorted_devices@[j].1)
    }

    /// Internal consistency: the entries carry each caller index exactly
    /// once, are sorted by protocol key, their types are valid, and the
    /// cached counts match the entries and respect the server limit.
    pub open spec fn wf(self) -> bool {
        let sd = self.sorted_devices@;
        &&& forall|j: int| 0 <= j < sd.len() ==> (#[trigger] sd[j]).0 < sd.len()
        &&& forall|i: int| 0 <= i < sd.len() ==> spec_contains_index(self.spec_index_seq(), i)
        &&& forall|j1: int, j2: int|
            0 <= j1 < sd.len() && 0 <= j2 < sd.len() && j1 != j2 ==> (#[trigger] sd[j1]).0 != (
            #[trigger] sd[j2]).0
        &&& forall|j1: int, j2: int|
            0 <= j1 < j2 < sd.len() ==> spec_key_le(
                (#[trigger] sd[j1]).1.spec_key(),
                (#[trigger] sd[j2]).1.spec_key(),
            )
        &&& forall|j: int| 0 <= j < sd.len() ==> (#[trigger] sd[j]).1.data_type.wf()
        &&& forall|j: int|
            0 <= j < sd.len() ==> (#[trigger] sd[j]).1.device.address + 32 <= usize::MAX
        &&& self.single_word_access_points == spec_sw_points(self.spec_devices())
        &&& self.double_word_access_points == spec_dw_points(self.spec_devices())
        &&& self.multi_word_access_points == spec_count_multi(self.spec_devices())
        &&& self.single_word_access_points_for_multi_word_communication == spec_sum_multi(
            self.spec_devices(),
        )
        &&& self.single_word_access_points + self.double_word_access_points <= 192
    }

    /// The list was built from the caller sequence `s`: same length, each
    /// entry is the caller's device at its recorded index, and entries
    /// with equal keys keep the caller's order.
    pub open spec fn spec_is_from(self, s: Seq<TypedDevice>) -> bool {
        let sd = self.sorted_devices@;
        &&& sd.len() == s.len()
        &&& forall|j: int|
            0 <= j < sd.len() ==> (#[trigger] sd[j]).0 < s.len() && sd[j].1 == s[sd[j].0 as int]
        &&& forall|j1: int, j2: int|
            0 <= j1 < j2 < sd.len() && (#[trigger] sd[j1]).1.spec_key() == (
            #[trigger] sd[j2]).1.spec_key() ==> sd[j1].0 < sd[j2].0
    }

    /// An empty list.
    pub fn new() -> (r: MonitorList)
        ensures
            r.wf(),
            r.sorted_devices@.len() == 0,
    {
        let r = MonitorList {
            sorted_devices: Vec::new(),
            single_word_access_points: 0,
            double_word_access_points: 0,
            multi_word_access_points: 0,
            single_word_access_points_for_multi_word_communication: 0,
        };
        proof {
            assert(r.spec_devices() =~= Seq::<TypedDevice>::empty());
        }
        r
    }

    /// Build the sorted list from the caller's devices.
    ///
    /// Fails with `Validation` exactly when the devices would consume
    /// more than 192 access points on the server.
    pub fn from_devices(devices: &Vec<TypedDevice>) -> (r: Result<MonitorList, SLMPError>)
        requires
            forall|i: int| 0 <= i < devices@.len() ==> (#[trigger] devices@[i]).data_type.wf(),
            forall|i: int|
                0 <= i < devices@.len() ==> (#[trigger] devices@[i]).device.address + 32
                    <= usize::MAX,
        ensures
            match r {
                Ok(l) => {
                    &&& l.wf()
                    &&& l.spec_is_from(devices@)
                    &&& spec_total_points(devices@) <= 192
                    &&& l.single_word_access_points == spec_sw_points(devices@)
                    &&& l.double_word_access_points == spec_dw_points(devices@)
                    &&& l.multi_word_access_points == spec_count_multi(devices@)
                    &&& l.single_word_access_points_for_multi_word_communication == spec_sum_multi(
                        devices@,
                    )
                },
                Err(e) => {
                    &&& e == SLMPError::Validation
                    &&& spec_total_points(devices@) > 192
                },
            },
    {
        let n = devices.len();
        if n > MAX_ACCESS_POINTS {
            proof {
                lemma_total_points_ge_len(devices@);
            }
            return Err(SLMPError::Validation);
        }
        let mut single: usize = 0;
        let mut double: usize = 0;
        let mut multi_cnt: usize = 0;
        let mut multi_sum: usize = 0;
        let mut i: usize = 0;
        while i < n
            invariant
                n == devices@.len(),
                n <= 192,
                0 <= i <= n,
                forall|k: int| 0 <= k < devices@.len() ==> (#[trigger] devices@[k]).data_type.wf(),
                single == spec_count_single(devices@.take(i as int)),
                double == spec_count_double(devices@.take(i as int)),
                multi_cnt == spec_count_multi(devices@.take(i as int)),
                multi_sum == spec_sum_multi(devices@.take(i as int)),
                single <= i,
                double <= i,
                multi_cnt <= i,
                multi_sum <= 32 * i,
            decreases n - i,
        {
            let ghost prefix = devices@.take(i as int);
            let ghost prefix2 = devices@.take(i as int + 1);
            proof {
                assert(prefix2.drop_last() =~= prefix);
                assert(prefix2.last() == devices@[i as int]);
            }
            match devices[i].data_type.device_size() {
                DeviceSize::Bit | DeviceSize::SingleWord => {
                    single = single + 1;
                },
                DeviceSize::DoubleWord => {
                    double = double + 1;
                },
                DeviceSize::MultiWord(m) => {
                    multi_cnt = multi_cnt + 1;
                    multi_sum = multi_sum + m as usize;
                },
            }
            i = i + 1;
        }
        proof {
            assert(devices@.take(n as int) =~= devices@);
        }
        if single + multi_sum + double > MAX_ACCESS_POINTS {
            return Err(SLMPError::Validation);
        }
        let ord = sort_indices(devices);
        let ghost keys = spec_keys_of(devices@);
        let mut sd: Vec<(usize, TypedDevice)> = Vec::new();
        let mut j: usize = 0;
        while j < n
            invariant
                n == devices@.len(),
                ord@.len() == n,
                forall|q: int| 0 <= q < ord@.len() ==> (#[trigger] ord@[q]) < n,
                0 <= j <= n,
                sd@.len() == j,
                forall|q: int|
                    0 <= q < j ==> (#[trigger] sd@[q]).0 == ord@[q] && sd@[q].1 == devices@[ord@[q] as int],
            decreases n - j,
        {
            let idx = ord[j];
            sd.push((idx, devices[idx]));
            j = j + 1;
        }
        let l = MonitorList {
            sorted_devices: sd,
            single_word_access_points: (single + multi_sum) as u8,
            double_word_access_points: double as u8,
            multi_word_access_points: multi_cnt as u8,
            single_word_access_points_for_multi_word_communication: multi_sum as u8,
        };
        proof {
            assert(spec_is_sorted_permutation(keys, ord@));
            lemma_sorted_permutation_is_permutation(keys, ord@);
            crate::sort::lemma_sorted_permutation_distinct(keys, ord@);
            assert(l.spec_devices() =~= Seq::new(ord@.len(), |q: int| devices@[ord@[q] as int]));
            lemma_count_by_permutation(
                devices@,
                ord@,
                |d: TypedDevice| spec_single_ind(d.data_type),
            );
            lemma_count_by_permutation(
                devices@,
                ord@,
                |d: TypedDevice| spec_double_ind(d.data_type),
            );
            lemma_count_by_permutation(
                devices@,
                ord@,
                |d: TypedDevice| spec_multi_ind(d.data_type),
            );
            lemma_count_by_permutation(
                devices@,
                ord@,
                |d: TypedDevice| spec_multi_words(d.data_type),
            );
            assert(l.spec_index_seq() =~= ord@);
            assert forall|j1: int, j2: int| 0 <= j1 < j2 < l.sorted_devices@.len() implies
                spec_key_le(
                (#[trigger] l.sorted_devices@[j1]).1.spec_key(),
                (#[trigger] l.sorted_devices@[j2]).1.spec_key(),
            ) by {
                assert(spec_key_le(keys[ord@[j1] as int], keys[ord@[j2] as int]));
                assert(keys[ord@[j1] as int] == devices@[ord@[j1] as int].spec_key());
                assert(keys[ord@[j2] as int] == devices@[ord@[j2] as int].spec_key());
            }
            assert forall|j1: int, j2: int|
                0 <= j1 < j2 < l.sorted_devices@.len() && (
                #[trigger] l.sorted_devices@[j1]).1.spec_key() == (
                #[trigger] l.sorted_devices@[j2]).1.spec_key() implies l.sorted_devices@[j1].0
                < l.sorted_devices@[j2].0 by {
                assert(keys[ord@[j1] as int] == devices@[ord@[j1] as int].spec_key());
                assert(keys[ord@[j2] as int] == devices@[ord@[j2] as int].spec_key());
            }
        }
        Ok(l)
    }

    /// A well-formed list has at most 192 entries: each entry consumes
    /// at least one access point.
    pub proof fn lemma_len_bounded(self)
        requires
            self.wf(),
        ensures
            self.sorted_devices@.len() <= 192,
    {
        lemma_total_points_ge_len(self.spec_devices());
    }

    /// Byte offset of the `j`-th sorted slot in a response payload.
    pub open spec fn spec_offset(self, j: int) -> int
        decreases j,
    {
        if j <= 0 {
            0
        } else {
            self.spec_offset(j - 1) + spec_value_len(self.sorted_devices@[j - 1].1.data_type)
        }
    }

    /// The bytes of the `j`-th sorted slot in a response payload.
    pub open spec fn spec_slot_bytes(self, d: Seq<u8>, j: int) -> Seq<u8> {
        d.subrange(
            self.spec_offset(j),
            self.spec_offset(j) + spec_value_len(self.sorted_devices@[j].1.data_type),
        )
    }

    /// Exact byte length of the response payload this list describes.
    pub open spec fn spec_response_len(self) -> int {
        2 * self.single_word_access_points + 4 * self.double_word_access_points
    }

    /// The slot offsets grow with each slot.
    proof fn lemma_offset_monotone(self, j1: int, j2: int)
        requires
            forall|j: int|
                0 <= j < self.sorted_devices@.len() ==> (
                #[trigger] self.sorted_devices@[j]).1.data_type.wf(),
            0 <= j1 <= j2,
        ensures
            self.spec_offset(j1) <= self.spec_offset(j2),
        decreases j2 - j1,
    {
        if j1 < j2 {
            self.lemma_offset_monotone(j1, j2 - 1);
            if 0 < j2 <= self.sorted_devices@.len() {
                assert(spec_value_len(self.sorted_devices@[j2 - 1].1.data_type) >= 0);
            }
        }
    }

    /// The offsets sum the slot lengths: prefix `j` of the sorted entries
    /// occupies `spec_offset(j)` bytes.
    proof fn lemma_offset_is_prefix_sum(self, j: int)
        requires
            0 <= j <= self.sorted_devices@.len(),
        ensures
            self.spec_offset(j) == spec_count_by(
                self.spec_devices().take(j),
                |d: TypedDevice| spec_value_len(d.data_type),
            ),
        decreases j,
    {
        let f = |d: TypedDevice| spec_value_len(d.data_type);
        if j > 0 {
            self.lemma_offset_is_prefix_sum(j - 1);
            assert(self.spec_devices().take(j).drop_last() =~= self.spec_devices().take(j - 1));
            assert(self.spec_devices().take(j).last() == self.sorted_devices@[j - 1].1);
        } else {
            assert(self.spec_devices().take(0) =~= Seq::<TypedDevice>::empty());
        }
    }

    /// The whole payload is as long as the cached counts say.
    pub proof fn lemma_offset_total(self)
        requires
            self.wf(),
        ensures
            self.spec_offset(self.sorted_devices@.len() as int) == self.spec_response_len(),
    {
        let n = self.sorted_devices@.len() as int;
        self.lemma_offset_is_prefix_sum(n);
        assert(self.spec_devices().take(n) =~= self.spec_devices());
        lemma_value_len_sum(self.spec_devices());
    }

    /// What `parse` hands back for the payload `d`: one entry per sorted
    /// slot, written at the slot's caller-order index, carrying the
    /// slot's device and the value read from the slot's bytes.
    pub open spec fn spec_parse_result_matches(self, d: Seq<u8>, r: Seq<DeviceData>) -> bool {
        let sd = self.sorted_devices@;
        &&& r.len() == sd.len()
        &&& forall|j: int|
            0 <= j < sd.len() ==> {
                let idx = (#[trigger] sd[j]).0 as int;
                &&& r[idx].device == sd[j].1.device
                &&& spec_data_matches(r[idx].data, self.spec_slot_bytes(d, j), sd[j].1.data_type)
            }
    }

    /// Exact byte length of the response payload this list describes.
    pub fn response_len(&self) -> (r: usize)
        requires
            self.wf(),
        ensures
            r == self.spec_response_len(),
    {
        2 * self.single_word_access_points as usize + 4 * self.double_word_access_points as usize
    }

    /// Parse a random-access response payload back into caller order.
    ///
    /// The payload must be exactly the slot bytes this list describes:
    /// first the single-word slots, then the multi-word expansions in
    /// sorted order, then the double-word slots.
    pub fn parse(&self, data: &[u8]) -> (r: Vec<DeviceData>)
        requires
            self.wf(),
            data@.len() == self.spec_response_len(),
        ensures
            self.spec_parse_result_matches(data@, r@),
    {
        let n = self.sorted_devices.len();
        proof {
            self.lemma_offset_total();
        }
        let mut out: Vec<DeviceData> = Vec::new();
        let mut t: usize = 0;
        while t < n
            invariant
                n == self.sorted_devices@.len(),
                0 <= t <= n,
                out@.len() == t,
            decreases n - t,
        {
            let placeholder = DeviceData {
                device: self.sorted_devices[t].1.device,
                data: TypedData::Bool(false),
            };
            out.push(placeholder);
            t = t + 1;
        }
        let mut off: usize = 0;
        let mut j: usize = 0;
        while j < n
            invariant
                self.wf(),
                n == self.sorted_devices@.len(),
                data@.len() == self.spec_response_len(),
                0 <= j <= n,
                off == self.spec_offset(j as int),
                out@.len() == n,
                forall|q: int|
                    0 <= q < j ==> {
                        let idx = (#[trigger] self.sorted_devices@[q]).0 as int;
                        &&& out@[idx].device == self.sorted_devices@[q].1.device
                        &&& spec_data_matches(
                            out@[idx].data,
                            self.spec_slot_bytes(data@, q),
                            self.sorted_devices@[q].1.data_type,
                        )
                    },
            decreases n - j,
        {
            proof {
                self.lemma_offset_monotone(j as int + 1, n as int);
                self.lemma_offset_total();
            }
            let entry = self.sorted_devices[j];
            let idx = entry.0;
            let td = entry.1;
            let vl = td.data_type.value_len();
            let slot = vstd::slice::slice_subrange(data, off, off + vl);
            let value = TypedData::from_bytes(slot, td.data_type);
            let dd = DeviceData { device: td.device, data: value };
            let ghost before = out@;
            *vstd::std_specs::vec::vec_index_mut(&mut out, idx) = dd;
            proof {
                assert(out@ =~= before.update(idx as int, dd));
            }
            off = off + vl;
            j = j + 1;
        }
        out
    }

    /// The bytes a server holding the values `vals` (indexed in caller
    /// order) answers with: the concatenated slot bytes in sorted order.
    pub open spec fn spec_payload_prefix(self, vals: Seq<TypedData>, j: int) -> Seq<u8>
        decreases j,
    {
        if j <= 0 {
            Seq::empty()
        } else {
            self.spec_payload_prefix(vals, j - 1) + vals[self.sorted_devices@[j
                - 1].0 as int].spec_to_bytes()
        }
    }

    /// The full simulated response payload for the values `vals`.
    pub open spec fn spec_simulated_payload(self, vals: Seq<TypedData>) -> Seq<u8> {
        self.spec_payload_prefix(vals, self.sorted_devices@.len() as int)
    }

    /// Each payload prefix is exactly as long as the slot offsets say.
    proof fn lemma_prefix_len(self, s: Seq<TypedDevice>, vals: Seq<TypedData>, j: int)
        requires
            self.spec_is_from(s),
            vals.len() == s.len(),
            forall|i: int|
                0 <= i < s.len() ==> (#[trigger] vals[i]).wf() && vals[i].spec_get_type()
                    == s[i].data_type,
            0 <= j <= self.sorted_devices@.len(),
        ensures
            self.spec_payload_prefix(vals, j).len() == self.spec_offset(j),
        decreases j,
    {
        if j > 0 {
            self.lemma_prefix_len(s, vals, j - 1);
            let idx = self.sorted_devices@[j - 1].0 as int;
            lemma_to_bytes_len(vals[idx]);
        }
    }

    /// The slot bytes of slot `j` inside any longer prefix are the wire
    /// bytes of the value at the slot's caller index.
    #[verifier::rlimit(100)]
    #[verifier::spinoff_prover]
    proof fn lemma_slot_extract(
        self,
        s: Seq<TypedDevice>,
        vals: Seq<TypedData>,
        j: int,
        j2: int,
    )
        requires
            self.spec_is_from(s),
            vals.len() == s.len(),
            forall|i: int|
                0 <= i < s.len() ==> (#[trigger] vals[i]).wf() && vals[i].spec_get_type()
                    == s[i].data_type,
            0 <= j < j2 <= self.sorted_devices@.len(),
        ensures
            self.spec_payload_prefix(vals, j2).subrange(
                self.spec_offset(j),
                self.spec_offset(j) + spec_value_len(self.sorted_devices@[j].1.data_type),
            ) =~= vals[self.sorted_devices@[j].0 as int].spec_to_bytes(),
        decreases j2 - j,
    {
        let idx = self.sorted_devices@[j].0 as int;
        let bytes = vals[idx].spec_to_bytes();
        let vl = spec_value_len(self.sorted_devices@[j].1.data_type);
        let off = self.spec_offset(j);
        lemma_to_bytes_len(vals[idx]);
        assert(bytes.len() == vl);
        if j2 == j + 1 {
            self.lemma_prefix_len(s, vals, j);
            let prefix = self.spec_payload_prefix(vals, j);
            assert(self.spec_payload_prefix(vals, j2) == prefix + bytes);
            assert(prefix.len() == off);
            lemma_append_tail_subrange(prefix, bytes);
        } else {
            self.lemma_slot_extract(s, vals, j, j2 - 1);
            self.lemma_prefix_len(s, vals, j2 - 1);
            let small = self.spec_payload_prefix(vals, j2 - 1);
            let idx2 = self.sorted_devices@[j2 - 1].0 as int;
            let b2 = vals[idx2].spec_to_bytes();
            lemma_to_bytes_len(vals[idx2]);
            let big = self.spec_payload_prefix(vals, j2);
            assert(big == small + b2);
            self.lemma_offset_monotone_from(s, 0, j);
            self.lemma_offset_monotone_from(s, j + 1, j2 - 1);
            assert(0 <= off);
            assert(off + vl == self.spec_offset(j + 1));
            assert(off + vl <= small.len());
            lemma_append_preserves_subrange(small, b2, off, off + vl);
        }
    }

    /// Offset monotonicity under `spec_is_from` typing.
    proof fn lemma_offset_monotone_from(self, s: Seq<TypedDevice>, j1: int, j2: int)
        requires
            self.spec_is_from(s),
            0 <= j1 <= j2,
        ensures
            self.spec_offset(j1) <= self.spec_offset(j2),
        decreases j2 - j1,
    {
        if j1 < j2 {
            self.lemma_offset_monotone_from(s, j1, j2 - 1);
            if 0 < j2 <= self.sorted_devices@.len() {
                assert(spec_value_len(self.sorted_devices@[j2 - 1].1.data_type) >= 0);
            }
        }
    }

    /// Round-trip law of the random-access protocol: parsing the payload
    /// a server would send for caller-order values hands those values
    /// back in caller order, each with its own device.
    pub proof fn lemma_parse_round_trip(
        self,
        s: Seq<TypedDevice>,
        vals: Seq<TypedData>,
        r: Seq<DeviceData>,
    )
        requires
            self.wf(),
            self.spec_is_from(s),
            vals.len() == s.len(),
            forall|i: int|
                0 <= i < s.len() ==> (#[trigger] vals[i]).wf() && vals[i].spec_get_type()
                    == s[i].data_type,
            self.spec_parse_result_matches(self.spec_simulated_payload(vals), r),
        ensures
            r.len() == s.len(),
            forall|i: int|
                0 <= i < s.len() ==> r[i] == (DeviceData {
                    device: s[i].device,
                    data: vals[i],
                }),
    {
        let n = self.sorted_devices@.len() as int;
        let payload = self.spec_simulated_payload(vals);
        assert forall|i: int| 0 <= i < s.len() implies r[i] == (DeviceData {
            device: s[i].device,
            data: vals[i],
        }) by {
            assert(spec_contains_index(self.spec_index_seq(), i));
            let j = choose|j: int|
                0 <= j < self.spec_index_seq().len() && (self.spec_index_seq()[j] as int) == i;
            assert(self.sorted_devices@[j].0 as int == i);
            assert(self.sorted_devices@[j].1 == s[i]);
            self.lemma_slot_extract(s, vals, j, n);
            assert(self.spec_slot_bytes(payload, j) =~= vals[i].spec_to_bytes());
            assert(spec_data_matches(r[i].data, vals[i].spec_to_bytes(), s[i].data_type));
            lemma_typed_data_round_trip(vals[i], r[i].data);
            assert(r[i].device == s[i].device);
        }
    }
}

} // verus!
