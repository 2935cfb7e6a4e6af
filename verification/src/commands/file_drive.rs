//! Drives, attributes and modes of the PLC file system commands.

use vstd::prelude::*;

verus! {

/// File drive of an R-series CPU.
#[derive(Clone, Copy, Debug, PartialEq, Eq, Structural)]
pub enum FileDriveForR {
    Device,
    SDMemory,
    DataMemory,
}

impl FileDriveForR {
    /// The two-byte drive code of the drive.
    pub fn to_drive_code(&self) -> (r: u16)
        ensures
            r == spec_drive_code_r(*self),
    {
        match self {
            Self::DataMemory => 0x0001,
            Self::SDMemory => 0x0002,
            Self::Device => 0x0003,
        }
    }
}

/// The drive code of an R-series drive.
pub open spec fn spec_drive_code_r(d: FileDriveForR) -> u16 {
    match d {
        FileDriveForR::DataMemory => 0x0001,
        FileDriveForR::SDMemory => 0x0002,
        FileDriveForR::Device => 0x0003,
    }
}

/// File drive of a Q- or L-series CPU.
#[derive(Clone, Copy, Debug, PartialEq, Eq, Structural)]
pub enum FileDriveForQL {
    ProgramMemory,
    SRAMCard,
    SDMemory,
    DefaultRAM,
    DefaultROM,
}

impl FileDriveForQL {
    /// The two-byte drive code of the drive.
    pub fn to_drive_code(&self) -> (r: u16)
        ensures
            r == spec_drive_code_ql(*self),
    {
        match self {
            Self::ProgramMemory => 0x0000,
            Self::SRAMCard => 0x0001,
            Self::SDMemory => 0x0002,
            Self::DefaultRAM => 0x0003,
            Self::DefaultROM => 0x0003,
        }
    }
}

/// The drive code of a Q/L-series drive.
pub open spec fn spec_drive_code_ql(d: FileDriveForQL) -> u16 {
    match d {
        FileDriveForQL::ProgramMemory => 0x0000,
        FileDriveForQL::SRAMCard => 0x0001,
        FileDriveForQL::SDMemory => 0x0002,
        FileDriveForQL::DefaultRAM => 0x0003,
        FileDriveForQL::DefaultROM => 0x0003,
    }
}

/// File drive of either CPU family.
#[derive(Clone, Copy, Debug, PartialEq, Eq, Structural)]
pub enum FileDrive {
    R(FileDriveForR),
    QL(FileDriveForQL),
}

impl FileDrive {
    /// The two-byte drive code of the drive.
    pub fn to_drive_code(&self) -> (r: u16)
        ensures
            r == match *self {
                FileDrive::R(d) => spec_drive_code_r(d),
                FileDrive::QL(d) => spec_drive_code_ql(d),
            },
    {
        match self {
            Self::R(drive) => drive.to_drive_code(),
            Self::QL(drive) => drive.to_drive_code(),
        }
    }
}

/// File name extension of a PLC file.
#[derive(Clone, Copy, Debug, PartialEq, Eq, Structural)]
pub enum FileExtension {
    DAT,
    PRG,
    QPG,
    PFB,
    QCD,
    DCM,
    QDI,
    DID,
}

/// Attribute of a file: read-only or read-write, with or without the
/// display flag.
#[derive(Clone, Copy, Debug, PartialEq, Eq, Structural)]
pub enum FileAttribute {
    ReadOnly(bool),
    ReadWrite(bool),
}

impl FileAttribute {
    /// The two-byte attribute code of the file attribute.
    pub fn to_attribute_code(&self) -> (r: u16)
        ensures
            r == match *self {
                FileAttribute::ReadOnly(false) => 0x0001u16,
                FileAttribute::ReadOnly(true) => 0x0021u16,
                FileAttribute::ReadWrite(false) => 0x0000u16,
                FileAttribute::ReadWrite(true) => 0x0020u16,
            },
    {
        match self {
            Self::ReadOnly(false) => 0x0001,
            Self::ReadOnly(true) => 0x0021,
            Self::ReadWrite(false) => 0x0000,
            Self::ReadWrite(true) => 0x0020,
        }
    }
}

/// Attribute of a folder: read-only or read-write, with or without the
/// display flag.
#[derive(Clone, Copy, Debug, PartialEq, Eq, Structural)]
pub enum FolderAttribute {
    ReadOnly(bool),
    ReadWrite(bool),
}

impl FolderAttribute {
    /// The two-byte attribute code of the folder attribute.
    pub fn to_attribute_code(&self) -> (r: u16)
        ensures
            r == match *self {
                FolderAttribute::ReadOnly(false) => 0x0011u16,
                FolderAttribute::ReadOnly(true) => 0x0031u16,
                FolderAttribute::ReadWrite(false) => 0x0010u16,
                FolderAttribute::ReadWrite(true) => 0x0030u16,
            },
    {
        match self {
            Self::ReadOnly(false) => 0x0011,
            Self::ReadOnly(true) => 0x0031,
            Self::ReadWrite(false) => 0x0010,
            Self::ReadWrite(true) => 0x0030,
        }
    }
}

/// Open mode of a PLC file.
#[derive(Clone, Copy, Debug, PartialEq, Eq, Structural)]
pub enum FileOpenMode {
    Read,
    Write,
}

impl FileOpenMode {
    /// The two-byte mode code of the open mode.
    pub fn to_mode_code(&self) -> (r: u16)
        ensures
            r == match *self {
                FileOpenMode::Read => 0x0000u16,
                FileOpenMode::Write => 0x0100u16,
            },
    {
        match self {
            Self::Read => 0x0000,
            Self::Write => 0x0100,
        }
    }
}

} // verus!
