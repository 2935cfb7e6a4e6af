//! Builders for every supported command frame.
//!
//! Each submodule owns one command: its query type, the exact bytes of
//! its payload as a spec function, and the executable builder proved to
//! emit exactly those bytes wrapped in a 4E frame.

use vstd::prelude::*;
use crate::device::{AccessType, CPU};

pub mod bulk_read;
pub mod bulk_write;
pub mod random_read;
pub mod random_write;
pub mod monitor_access;
pub mod block_read;
pub mod block_write;
pub mod file_control;
pub mod file_drive;
pub mod unit_control;

verus! {

/// Subcommand code of a device-access command: it selects bit or word
/// access, and R CPUs use their own pair of codes.
pub open spec fn spec_subcommand(cpu: CPU, access: AccessType) -> u16 {
    match (access, cpu) {
        (AccessType::Bit, CPU::Q) | (AccessType::Bit, CPU::L) => 0x0001,
        (AccessType::Bit, CPU::R) => 0x0003,
        (AccessType::Word, CPU::Q) | (AccessType::Word, CPU::L) => 0x0000,
        (AccessType::Word, CPU::R) => 0x0002,
    }
}

/// Subcommand code of a device-access command for the given CPU and
/// access type.
pub fn get_subcommand(cpu: CPU, access_type: AccessType) -> (r: u16)
    ensures
        r == spec_subcommand(cpu, access_type),
{
    match (access_type, cpu) {
        (AccessType::Bit, CPU::Q) | (AccessType::Bit, CPU::L) => 0x0001,
        (AccessType::Bit, CPU::R) => 0x0003,
        (AccessType::Word, CPU::Q) | (AccessType::Word, CPU::L) => 0x0000,
        (AccessType::Word, CPU::R) => 0x0002,
    }
}

} // verus!
