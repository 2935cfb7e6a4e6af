//! Devices: the addressable memory cells of a PLC.
//!
//! A device is a family letter (X, Y, M, D, ...) plus an unsigned address.
//! On the wire a device is three little-endian address bytes followed by
//! the family code; R-series CPUs widen both fields with a zero byte.

use vstd::prelude::*;
use crate::wire::spec_u32_le;

verus! {

/// CPU family of the connected PLC.  Governs address-code width,
/// subcommand codes, bit-record width and password length.
#[derive(Clone, Copy, Debug, PartialEq, Eq, Structural)]
pub enum CPU {
    Q,
    L,
    R,
}

/// Whether a request addresses whole words or single bits.
#[derive(Clone, Copy, Debug, PartialEq, Eq, Structural)]
pub enum AccessType {
    Bit,
    Word,
}

impl AccessType {
    /// Sort rank of the access type: word blocks come before bit blocks
    /// inside a block request.
    pub open spec fn spec_order(self) -> int {
        match self {
            AccessType::Word => 1,
            AccessType::Bit => 2,
        }
    }

    /// Sort rank of the access type, executable form.
    pub fn order(&self) -> (r: u8)
        ensures
            r == self.spec_order(),
    {
        match self {
            AccessType::Word => 1,
            AccessType::Bit => 2,
        }
    }
}

/// Size class of one access point of the random-access protocol.
/// A multi-word value is carried by `n` consecutive single-word points.
#[derive(Clone, Copy, Debug, PartialEq, Eq, Structural)]
pub enum DeviceSize {
    Bit,
    SingleWord,
    DoubleWord,
    MultiWord(u8),
}

/// Device family of a Mitsubishi PLC.
#[derive(Clone, Copy, Debug, PartialEq, Eq, Structural)]
pub enum DeviceType {
    X,
    Y,
    M,
    L,
    F,
    V,
    B,
    D,
    W,
    S,
    Z,
    R,
    TS,
    TC,
    TN,
    SS,
    SC,
    SN,
    CS,
    CC,
    CN,
    SB,
    SD,
    SM,
    SW,
    DX,
    DY,
    ZR,
}

/// The fixed one-byte code of a device family on the wire.
pub open spec fn spec_device_type_code(t: DeviceType) -> u8 {
    match t {
        DeviceType::X => 0x9c,
        DeviceType::Y => 0x9d,
        DeviceType::M => 0x90,
        DeviceType::L => 0x92,
        DeviceType::F => 0x93,
        DeviceType::V => 0x94,
        DeviceType::B => 0xa0,
        DeviceType::D => 0xa8,
        DeviceType::W => 0xb4,
        DeviceType::S => 0x98,
        DeviceType::Z => 0xcc,
        DeviceType::R => 0xaf,
        DeviceType::TS => 0xc1,
        DeviceType::TC => 0xc0,
        DeviceType::TN => 0xc2,
        DeviceType::SS => 0xc7,
        DeviceType::SC => 0xc6,
        DeviceType::SN => 0xc8,
        DeviceType::CS => 0xc4,
        DeviceType::CC => 0xc3,
        DeviceType::CN => 0xc5,
        DeviceType::SB => 0xa1,
        DeviceType::SD => 0xa9,
        DeviceType::SM => 0x91,
        DeviceType::SW => 0xb5,
        DeviceType::DX => 0xa2,
        DeviceType::DY => 0xa3,
        DeviceType::ZR => 0xb0,
    }
}

impl DeviceType {
    /// Convert a device family into its byte code for SLMP communication.
    pub fn to_code(&self) -> (r: u8)
        ensures
            r == spec_device_type_code(*self),
    {
        match self {
            Self::X => 0x9c,
            Self::Y => 0x9d,
            Self::M => 0x90,
            Self::L => 0x92,
            Self::F => 0x93,
            Self::V => 0x94,
            Self::B => 0xa0,
            Self::D => 0xa8,
            Self::W => 0xb4,
            Self::S => 0x98,
            Self::Z => 0xcc,
            Self::R => 0xaf,
            Self::TS => 0xc1,
            Self::TC => 0xc0,
            Self::TN => 0xc2,
            Self::SS => 0xc7,
            Self::SC => 0xc6,
            Self::SN => 0xc8,
            Self::CS => 0xc4,
            Self::CC => 0xc3,
            Self::CN => 0xc5,
            Self::SB => 0xa1,
            Self::SD => 0xa9,
            Self::SM => 0x91,
            Self::SW => 0xb5,
            Self::DX => 0xa2,
            Self::DY => 0xa3,
            Self::ZR => 0xb0,
        }
    }
}

/// One addressable memory cell of the PLC.
#[derive(Clone, Copy, Debug, PartialEq, Eq, Structural)]
pub struct Device {
    pub device_type: DeviceType,
    pub address: usize,
}

/// Wire bytes of one device: three little-endian address bytes and the
/// family code, widened with zero bytes on R CPUs.
pub open spec fn spec_device_bytes(d: Device, cpu: CPU) -> Seq<u8> {
    let a = spec_u32_le(d.address as u32);
    match cpu {
        CPU::Q | CPU::L => seq![a[0], a[1], a[2], spec_device_type_code(d.device_type)],
        CPU::R => seq![a[0], a[1], a[2], 0u8, spec_device_type_code(d.device_type), 0u8],
    }
}

/// Byte length of one serialised device for the given CPU.
pub open spec fn spec_addr_code_len(cpu: CPU) -> int {
    match cpu {
        CPU::Q | CPU::L => 4,
        CPU::R => 6,
    }
}

impl Device {
    /// Append the wire form of this device pointer.
    pub fn serialize_into(&self, cpu: CPU, out: &mut Vec<u8>)
        ensures
            final(out)@ =~= old(out)@ + spec_device_bytes(*self, cpu),
    {
        let a: u32 = self.address as u32;
        out.push((a % 256) as u8);
        out.push(((a / 256) % 256) as u8);
        out.push(((a / 0x10000) % 256) as u8);
        match cpu {
            CPU::Q | CPU::L => {
                out.push(self.device_type.to_code());
            },
            CPU::R => {
                out.push(0x00);
                out.push(self.device_type.to_code());
                out.push(0x00);
            },
        }
    }

    /// Convert a device pointer to its byte code for SLMP communication.
    pub fn serialize(&self, cpu: CPU) -> (r: Vec<u8>)
        ensures
            r@ =~= spec_device_bytes(*self, cpu),
    {
        let mut out: Vec<u8> = Vec::new();
        self.serialize_into(cpu, &mut out);
        out
    }

    /// Byte length of one serialised device pointer for the given CPU.
    pub fn addr_code_len(cpu: CPU) -> (r: u8)
        ensures
            r as int == spec_addr_code_len(cpu),
            r as int == spec_device_bytes(
                Device { device_type: DeviceType::D, address: 0 },
                cpu,
            ).len(),
    {
        match cpu {
            CPU::Q | CPU::L => 4,
            CPU::R => 6,
        }
    }
}

/// The serialised length of a device equals `spec_addr_code_len`.
pub proof fn lemma_device_bytes_len(d: Device, cpu: CPU)
    ensures
        spec_device_bytes(d, cpu).len() == spec_addr_code_len(cpu),
{
}

/// A device pointer together with the data type to read from it.
#[derive(Clone, Copy, Debug, PartialEq, Eq, Structural)]
pub struct TypedDevice {
    pub device: Device,
    pub data_type: crate::data::DataType,
}

/// A contiguous run of devices, accessed by word or by bit, used in block
/// requests.
#[derive(Clone, Copy, Debug, PartialEq, Eq, Structural)]
pub struct DeviceBlock {
    pub access_type: AccessType,
    pub start_device: Device,
    pub size: usize,
}

/// A device together with its value: the input of a random write and the
/// unified result of every read.
#[derive(Clone, Copy, Debug, PartialEq)]
pub struct DeviceData {
    pub device: Device,
    pub data: crate::data::TypedData,
}

/// A run of values written to consecutive devices in one block of a
/// block-write request.
#[derive(Clone, Debug, PartialEq)]
pub struct BlockedDeviceData {
    pub access_type: AccessType,
    pub start_device: Device,
    pub data: Vec<crate::data::TypedData>,
}

} // verus!
