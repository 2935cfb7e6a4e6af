//! Typed values and their wire encoding.
//!
//! Every value is little-endian on the wire except booleans, which encode
//! as a full word `01 00` / `00 00`, and strings, which are Shift-JIS
//! bytes NUL-padded to their device words.  Floating-point values are
//! carried as their IEEE-754 bit patterns (`u32` / `u64`), so the codec
//! itself stays bit-exact.

use vstd::prelude::*;
use crate::device::DeviceSize;
use crate::wire::{
    spec_u16_le,
    spec_u16_of_le,
    spec_u32_le,
    spec_u32_of_le,
    spec_u64_le,
    spec_u64_of_le,
    lemma_u16_le_round_trip,
    lemma_u32_le_round_trip,
    lemma_u64_le_round_trip,
    push_u16_le,
    push_u32_le,
    push_u64_le,
    read_u16_le,
    read_u32_le,
};

pub mod string;

pub use string::PLCString;

verus! {

/// Data type of one typed access.  The `String` payload is the number of
/// device words the text occupies (1..=32).
#[derive(Clone, Copy, Debug, PartialEq, Eq, Structural)]
pub enum DataType {
    Bool,
    BitArray16,
    U16,
    I16,
    U32,
    I32,
    F32,
    F64,
    String(u8),
}

/// Rank of a data type in the protocol ordering: single-word types come
/// first, then multi-word types, then double-word types.  The random
/// access layout leans on this ordering.
pub open spec fn spec_type_order(t: DataType) -> int {
    match t {
        DataType::Bool => 1,
        DataType::BitArray16 => 2,
        DataType::U16 => 3,
        DataType::I16 => 4,
        DataType::F64 => 5,
        DataType::String(_) => 6,
        DataType::U32 => 7,
        DataType::I32 => 8,
        DataType::F32 => 9,
    }
}

/// Number of value bytes of one element in a bulk transfer.
pub open spec fn spec_byte_size(t: DataType) -> int {
    match t {
        DataType::Bool => 1,
        DataType::BitArray16 | DataType::U16 | DataType::I16 => 2,
        DataType::U32 | DataType::I32 | DataType::F32 => 4,
        DataType::F64 => 8,
        DataType::String(n) => 2 * n,
    }
}

/// Size class of the data type in the random-access protocol.
pub open spec fn spec_device_size(t: DataType) -> DeviceSize {
    match t {
        DataType::Bool => DeviceSize::Bit,
        DataType::BitArray16 | DataType::U16 | DataType::I16 => DeviceSize::SingleWord,
        DataType::U32 | DataType::I32 | DataType::F32 => DeviceSize::DoubleWord,
        DataType::F64 => DeviceSize::MultiWord(4),
        DataType::String(n) => DeviceSize::MultiWord(n),
    }
}

/// Number of bytes one value of this type occupies in a response slot.
/// Booleans occupy a full word there, unlike in bulk bit transfers.
pub open spec fn spec_value_len(t: DataType) -> int {
    match t {
        DataType::Bool => 2,
        _ => spec_byte_size(t),
    }
}

impl DataType {
    /// A string type must fit the 32-word buffer and cover at least one
    /// word; every other type is unconditionally valid.
    pub open spec fn wf(self) -> bool {
        match self {
            DataType::String(n) => 1 <= n <= 32,
            _ => true,
        }
    }

    /// Number of value bytes of one element in a bulk transfer.
    pub fn byte_size(&self) -> (r: usize)
        ensures
            r == spec_byte_size(*self),
    {
        match self {
            DataType::Bool => 1,
            DataType::BitArray16 | DataType::U16 | DataType::I16 => 2,
            DataType::U32 | DataType::I32 | DataType::F32 => 4,
            DataType::F64 => 8,
            DataType::String(n) => 2 * *n as usize,
        }
    }

    /// Size class of the data type in the random-access protocol.
    pub fn device_size(&self) -> (r: DeviceSize)
        ensures
            r == spec_device_size(*self),
    {
        match self {
            DataType::Bool => DeviceSize::Bit,
            DataType::BitArray16 | DataType::U16 | DataType::I16 => DeviceSize::SingleWord,
            DataType::U32 | DataType::I32 | DataType::F32 => DeviceSize::DoubleWord,
            DataType::F64 => DeviceSize::MultiWord(4),
            DataType::String(n) => DeviceSize::MultiWord(*n),
        }
    }

    /// Rank of the data type in the protocol ordering.
    pub fn type_order(&self) -> (r: u8)
        ensures
            r == spec_type_order(*self),
    {
        match self {
            DataType::Bool => 1,
            DataType::BitArray16 => 2,
            DataType::U16 => 3,
            DataType::I16 => 4,
            DataType::F64 => 5,
            DataType::String(_) => 6,
            DataType::U32 => 7,
            DataType::I32 => 8,
            DataType::F32 => 9,
        }
    }

    /// Number of bytes one value of this type occupies in a response
    /// slot.  Booleans occupy a full word there.
    pub fn value_len(&self) -> (r: usize)
        ensures
            r == spec_value_len(*self),
    {
        match self {
            DataType::Bool => 2,
            _ => self.byte_size(),
        }
    }

    /// Number of device words one element occupies in a bulk transfer.
    pub fn word_count(&self) -> (r: u16)
        ensures
            r == spec_word_count(*self),
    {
        match self {
            DataType::Bool => 1,
            DataType::BitArray16 | DataType::U16 | DataType::I16 => 1,
            DataType::U32 | DataType::I32 | DataType::F32 => 2,
            DataType::F64 => 4,
            DataType::String(n) => *n as u16,
        }
    }
}

/// Number of device words one element occupies in a bulk transfer.
pub open spec fn spec_word_count(t: DataType) -> int {
    match spec_device_size(t) {
        DeviceSize::Bit => 1,
        DeviceSize::SingleWord => 1,
        DeviceSize::DoubleWord => 2,
        DeviceSize::MultiWord(n) => n as int,
    }
}

/// A typed value.  `F32` and `F64` carry the IEEE-754 bit pattern of the
/// number; `BitArray16` carries sixteen bits packed least-significant
/// first.
#[derive(Clone, Copy, Debug, PartialEq)]
pub enum TypedData {
    Bool(bool),
    BitArray16(u16),
    U16(u16),
    I16(i16),
    U32(u32),
    I32(i32),
    F32(u32),
    F64(u64),
    String(PLCString),
}

impl TypedData {
    /// The data type of the value.
    pub open spec fn spec_get_type(self) -> DataType {
        match self {
            TypedData::Bool(_) => DataType::Bool,
            TypedData::BitArray16(_) => DataType::BitArray16,
            TypedData::U16(_) => DataType::U16,
            TypedData::I16(_) => DataType::I16,
            TypedData::U32(_) => DataType::U32,
            TypedData::I32(_) => DataType::I32,
            TypedData::F32(_) => DataType::F32,
            TypedData::F64(_) => DataType::F64,
            TypedData::String(s) => DataType::String(s.device_size),
        }
    }

    /// A string value must carry a well-formed buffer.
    pub open spec fn wf(self) -> bool {
        match self {
            TypedData::String(s) => s.wf(),
            _ => true,
        }
    }

    /// The wire bytes of the value.
    pub open spec fn spec_to_bytes(self) -> Seq<u8> {
        match self {
            TypedData::Bool(b) => seq![if b { 1u8 } else { 0u8 }, 0u8],
            TypedData::BitArray16(w) => spec_u16_le(w),
            TypedData::U16(x) => spec_u16_le(x),
            TypedData::I16(x) => spec_u16_le(x as u16),
            TypedData::U32(x) => spec_u32_le(x),
            TypedData::I32(x) => spec_u32_le(x as u32),
            TypedData::F32(x) => spec_u32_le(x),
            TypedData::F64(x) => spec_u64_le(x),
            TypedData::String(s) => s.spec_bytes(),
        }
    }

    /// The data type of the value.
    pub fn get_type(&self) -> (r: DataType)
        ensures
            r == self.spec_get_type(),
    {
        match self {
            TypedData::Bool(_) => DataType::Bool,
            TypedData::BitArray16(_) => DataType::BitArray16,
            TypedData::U16(_) => DataType::U16,
            TypedData::I16(_) => DataType::I16,
            TypedData::U32(_) => DataType::U32,
            TypedData::I32(_) => DataType::I32,
            TypedData::F32(_) => DataType::F32,
            TypedData::F64(_) => DataType::F64,
            TypedData::String(s) => DataType::String(s.device_size),
        }
    }

    /// Append the wire bytes of the value.
    pub fn to_bytes_into(&self, out: &mut Vec<u8>)
        requires
            self.wf(),
        ensures
            final(out)@ =~= old(out)@ + self.spec_to_bytes(),
    {
        match self {
            TypedData::Bool(b) => {
                out.push(if *b {
                    1
                } else {
                    0
                });
                out.push(0);
            },
            TypedData::BitArray16(w) => push_u16_le(out, *w),
            TypedData::U16(x) => push_u16_le(out, *x),
            TypedData::I16(x) => push_u16_le(out, *x as u16),
            TypedData::U32(x) => push_u32_le(out, *x),
            TypedData::I32(x) => push_u32_le(out, *x as u32),
            TypedData::F32(x) => push_u32_le(out, *x),
            TypedData::F64(x) => push_u64_le(out, *x),
            TypedData::String(s) => {
                let bytes = s.as_bytes();
                out.extend_from_slice(bytes);
            },
        }
    }

    /// The wire bytes of the value.
    pub fn to_bytes(&self) -> (r: Vec<u8>)
        requires
            self.wf(),
        ensures
            r@ =~= self.spec_to_bytes(),
            r@.len() == spec_value_len(self.spec_get_type()),
    {
        let mut out: Vec<u8> = Vec::new();
        self.to_bytes_into(&mut out);
        out
    }

    /// Read a value of the given type back from its wire bytes.
    pub fn from_bytes(value: &[u8], data_type: DataType) -> (r: TypedData)
        requires
            data_type.wf(),
            value@.len() == spec_value_len(data_type),
        ensures
            spec_data_matches(r, value@, data_type),
            r.wf(),
            r.spec_get_type() == data_type,
    {
        match data_type {
            DataType::Bool => TypedData::Bool(read_u16_le(value, 0) % 2 == 1),
            DataType::BitArray16 => TypedData::BitArray16(read_u16_le(value, 0)),
            DataType::U16 => TypedData::U16(read_u16_le(value, 0)),
            DataType::I16 => TypedData::I16(read_u16_le(value, 0) as i16),
            DataType::U32 => TypedData::U32(read_u32_le(value, 0)),
            DataType::I32 => TypedData::I32(read_u32_le(value, 0) as i32),
            DataType::F32 => TypedData::F32(read_u32_le(value, 0)),
            DataType::F64 => {
                let lo: u32 = read_u32_le(value, 0);
                let hi: u32 = read_u32_le(value, 4);
                let x: u64 = lo as u64 + 0x100000000 * (hi as u64);
                proof {
                    let b = value@;
                    assert(x as int == b[0] + 256 * (b[1] as int) + 0x10000 * (b[2] as int)
                        + 0x1000000 * (b[3] as int) + 0x100000000 * (b[4] as int) + 0x10000000000
                        * (b[5] as int) + 0x1000000000000 * (b[6] as int) + 0x100000000000000 * (
                    b[7] as int));
                }
                TypedData::F64(x)
            },
            DataType::String(n) => TypedData::String(
                PLCString::from_shift_jis_bytes(value, n),
            ),
        }
    }
}

/// What `from_bytes` returns for the given bytes and type, stated as a
/// relation so that the string case can describe the buffer field by
/// field.
pub open spec fn spec_data_matches(r: TypedData, b: Seq<u8>, t: DataType) -> bool
    recommends
        b.len() == spec_value_len(t),
{
    match t {
        DataType::Bool => r == TypedData::Bool(spec_u16_of_le(b[0], b[1]) % 2 == 1),
        DataType::BitArray16 => r == TypedData::BitArray16(spec_u16_of_le(b[0], b[1])),
        DataType::U16 => r == TypedData::U16(spec_u16_of_le(b[0], b[1])),
        DataType::I16 => r == TypedData::I16(spec_u16_of_le(b[0], b[1]) as i16),
        DataType::U32 => r == TypedData::U32(spec_u32_of_le(b[0], b[1], b[2], b[3])),
        DataType::I32 => r == TypedData::I32(spec_u32_of_le(b[0], b[1], b[2], b[3]) as i32),
        DataType::F32 => r == TypedData::F32(spec_u32_of_le(b[0], b[1], b[2], b[3])),
        DataType::F64 => r == TypedData::F64(spec_u64_of_le(b)),
        DataType::String(n) => r matches TypedData::String(s) && {
            &&& s.device_size == if n > 32 { 32u8 } else { n }
            &&& s.effective_len == if string::spec_first_nul(b) < 2 * s.device_size {
                string::spec_first_nul(b)
            } else {
                2 * s.device_size as int
            }
            &&& forall|k: int| 0 <= k < s.effective_len ==> s.data@[k] == b[k]
            &&& forall|k: int| s.effective_len <= k < 64 ==> s.data@[k] == 0
        },
    }
}

/// The wire bytes of a well-formed value are exactly as long as its
/// response slot.
pub proof fn lemma_to_bytes_len(v: TypedData)
    requires
        v.wf(),
    ensures
        v.spec_to_bytes().len() == spec_value_len(v.spec_get_type()),
{
}

/// Round-trip law: reading a value's wire bytes back at its own type
/// yields the value itself.
pub proof fn lemma_typed_data_round_trip(v: TypedData, r: TypedData)
    requires
        v.wf(),
        spec_data_matches(r, v.spec_to_bytes(), v.spec_get_type()),
    ensures
        r == v,
{
    broadcast use vstd::array::axiom_array_ext_equal;

    match v {
        TypedData::Bool(flag) => {
            assert(spec_u16_of_le(if flag { 1u8 } else { 0u8 }, 0u8) == if flag {
                1u16
            } else {
                0u16
            });
        },
        TypedData::BitArray16(w) => {
            lemma_u16_le_round_trip(w);
        },
        TypedData::U16(x) => {
            lemma_u16_le_round_trip(x);
        },
        TypedData::I16(x) => {
            lemma_u16_le_round_trip(x as u16);
            assert((x as u16) as i16 == x) by (bit_vector);
        },
        TypedData::U32(x) => {
            lemma_u32_le_round_trip(x);
        },
        TypedData::I32(x) => {
            lemma_u32_le_round_trip(x as u32);
            assert((x as u32) as i32 == x) by (bit_vector);
        },
        TypedData::F32(x) => {
            lemma_u32_le_round_trip(x);
        },
        TypedData::F64(x) => {
            lemma_u64_le_round_trip(x);
        },
        TypedData::String(s) => {
            let b = v.spec_to_bytes();
            assert(b.len() == 2 * s.device_size);
            string::lemma_first_nul_character(b);
            assert(string::spec_first_nul(b) == s.effective_len) by {
                if string::spec_first_nul(b) < s.effective_len {
                    assert(b[string::spec_first_nul(b)] == 0);
                    assert(s.data@[string::spec_first_nul(b)] == 0);
                } else if string::spec_first_nul(b) > s.effective_len {
                    if s.effective_len < b.len() {
                        assert(b[s.effective_len as int] != 0);
                        assert(s.data@[s.effective_len as int] != 0);
                    }
                }
            }
            let rs = r->String_0;
            assert(rs.device_size == s.device_size);
            assert(rs.effective_len == s.effective_len);
            assert forall|k: int| 0 <= k < 64 implies rs.data@[k] == s.data@[k] by {
                if k < s.effective_len {
                    assert(rs.data@[k] == b[k]);
                    assert(b[k] == s.data@[k]);
                } else {
                    assert(rs.data@[k] == 0);
                    assert(s.data@[k] == 0);
                }
            }
            assert(rs.data =~= s.data);
        },
    }
}

} // verus!
