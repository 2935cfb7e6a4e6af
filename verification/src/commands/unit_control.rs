//! Remote CPU control commands: run, stop, pause, latch clear, reset,
//! CPU type read, lock, unlock and echo.

use vstd::prelude::*;
use crate::device::CPU;
use crate::error::SLMPError;
use crate::frame::{SLMP4EConnectionProps, build_frame, spec_frame};
use crate::wire::{spec_u16_le, push_u16_le};
use vstd::string::StringSliceAdditionalSpecFns;

verus! {

/// The four fixed message bytes of the echo command.
pub open spec fn spec_echo_message() -> Seq<u8> {
    seq![0x41u8, 0x31u8, 0x47u8, 0x35u8]
}

/// Build the remote-run request: forced run mode with memory clear.
pub fn remote_run(connection_props: &SLMP4EConnectionProps) -> (r: Vec<u8>)
    ensures
        r@ =~= spec_frame(
            *connection_props,
            0x1001,
            0x0000,
            seq![0x03u8, 0x00u8, 0x02u8, 0x00u8],
        ),
{
    let mut payload: Vec<u8> = Vec::new();
    payload.push(0x03);
    payload.push(0x00);
    payload.push(0x02);
    payload.push(0x00);
    build_frame(connection_props, 0x1001, 0x0000, payload)
}

/// Build the remote-stop request.
pub fn remote_stop(connection_props: &SLMP4EConnectionProps) -> (r: Vec<u8>)
    ensures
        r@ =~= spec_frame(*connection_props, 0x1002, 0x0000, seq![0x01u8, 0x00u8]),
{
    let mut payload: Vec<u8> = Vec::new();
    payload.push(0x01);
    payload.push(0x00);
    build_frame(connection_props, 0x1002, 0x0000, payload)
}

/// Build the remote-pause request: forced pause mode.
pub fn remote_pause(connection_props: &SLMP4EConnectionProps) -> (r: Vec<u8>)
    ensures
        r@ =~= spec_frame(*connection_props, 0x1003, 0x0000, seq![0x03u8, 0x00u8]),
{
    let mut payload: Vec<u8> = Vec::new();
    payload.push(0x03);
    payload.push(0x00);
    build_frame(connection_props, 0x1003, 0x0000, payload)
}

/// Build the latch-clear request.
pub fn remote_latch_clear(connection_props: &SLMP4EConnectionProps) -> (r: Vec<u8>)
    ensures
        r@ =~= spec_frame(*connection_props, 0x1005, 0x0000, seq![0x01u8, 0x00u8]),
{
    let mut payload: Vec<u8> = Vec::new();
    payload.push(0x01);
    payload.push(0x00);
    build_frame(connection_props, 0x1005, 0x0000, payload)
}

/// Build the remote-reset request.
pub fn remote_reset(connection_props: &SLMP4EConnectionProps) -> (r: Vec<u8>)
    ensures
        r@ =~= spec_frame(*connection_props, 0x1006, 0x0000, seq![0x01u8, 0x00u8]),
{
    let mut payload: Vec<u8> = Vec::new();
    payload.push(0x01);
    payload.push(0x00);
    build_frame(connection_props, 0x1006, 0x0000, payload)
}

/// Build the CPU-type read request; its payload is empty.
pub fn get_cpu_type(connection_props: &SLMP4EConnectionProps) -> (r: Vec<u8>)
    ensures
        r@ =~= spec_frame(*connection_props, 0x0101, 0x0000, Seq::<u8>::empty()),
{
    let payload: Vec<u8> = Vec::new();
    proof {
        assert(payload@ =~= Seq::<u8>::empty());
    }
    build_frame(connection_props, 0x0101, 0x0000, payload)
}

/// Whether the password length is acceptable for the CPU family: Q and L
/// take exactly four bytes, R takes six to thirty-two.
pub open spec fn spec_password_ok(cpu: CPU, len: int) -> bool {
    match cpu {
        CPU::Q | CPU::L => len == 4,
        CPU::R => 6 <= len <= 32,
    }
}

/// Check the password length for the CPU family.
///
/// Fails with `Validation` exactly when the length is outside the range
/// the CPU family accepts.
pub fn validate_password(cpu: CPU, password: &str) -> (r: Result<(), SLMPError>)
    ensures
        r is Ok <==> spec_password_ok(cpu, password.spec_bytes().len() as int),
        r is Err ==> r == Err::<(), SLMPError>(SLMPError::Validation),
{
    let len = password.as_bytes().len();
    match cpu {
        CPU::Q | CPU::L => {
            if len != 4 {
                Err(SLMPError::Validation)
            } else {
                Ok(())
            }
        },
        CPU::R => {
            if len < 6 || len > 32 {
                Err(SLMPError::Validation)
            } else {
                Ok(())
            }
        },
    }
}

/// The payload of a lock or unlock request: password length, then the
/// password bytes.
pub open spec fn spec_password_payload(password: Seq<u8>) -> Seq<u8> {
    spec_u16_le(password.len() as u16) + password
}

/// Append the password payload to a buffer.
fn push_password_payload(out: &mut Vec<u8>, password: &str)
    requires
        password.spec_bytes().len() <= 32,
    ensures
        final(out)@ =~= old(out)@ + spec_password_payload(password.spec_bytes()),
{
    let bytes = password.as_bytes();
    push_u16_le(out, bytes.len() as u16);
    out.extend_from_slice(bytes);
}

/// Build the unlock request that presents the password to the CPU.
///
/// Fails with `Validation` exactly when the password length is outside
/// the range the CPU family accepts.
pub fn unlock_cpu(connection_props: &SLMP4EConnectionProps, password: &str) -> (r: Result<
    Vec<u8>,
    SLMPError,
>)
    ensures
        match r {
            Ok(v) => {
                &&& spec_password_ok(connection_props.cpu, password.spec_bytes().len() as int)
                &&& v@ == spec_frame(
                    *connection_props,
                    0x1630,
                    0x0000,
                    spec_password_payload(password.spec_bytes()),
                )
            },
            Err(e) => {
                &&& e == SLMPError::Validation
                &&& !spec_password_ok(connection_props.cpu, password.spec_bytes().len() as int)
            },
        },
{
    validate_password(connection_props.cpu, password)?;
    let mut payload: Vec<u8> = Vec::new();
    push_password_payload(&mut payload, password);
    Ok(build_frame(connection_props, 0x1630, 0x0000, payload))
}

/// Build the lock request that re-protects the CPU with the password.
///
/// Fails with `Validation` exactly when the password length is outside
/// the range the CPU family accepts.
pub fn lock_cpu(connection_props: &SLMP4EConnectionProps, password: &str) -> (r: Result<
    Vec<u8>,
    SLMPError,
>)
    ensures
        match r {
            Ok(v) => {
                &&& spec_password_ok(connection_props.cpu, password.spec_bytes().len() as int)
                &&& v@ == spec_frame(
                    *connection_props,
                    0x1631,
                    0x0000,
                    spec_password_payload(password.spec_bytes()),
                )
            },
            Err(e) => {
                &&& e == SLMPError::Validation
                &&& !spec_password_ok(connection_props.cpu, password.spec_bytes().len() as int)
            },
        },
{
    validate_password(connection_props.cpu, password)?;
    let mut payload: Vec<u8> = Vec::new();
    push_password_payload(&mut payload, password);
    Ok(build_frame(connection_props, 0x1631, 0x0000, payload))
}

/// Build the echo (loopback test) request: the fixed four-byte message
/// preceded by its length.
pub fn echo(connection_props: &SLMP4EConnectionProps) -> (r: Vec<u8>)
    ensures
        r@ =~= spec_frame(
            *connection_props,
            0x0619,
            0x0000,
            seq![0x04u8, 0x00u8] + spec_echo_message(),
        ),
{
    let mut payload: Vec<u8> = Vec::new();
    payload.push(0x04);
    payload.push(0x00);
    payload.push(0x41);
    payload.push(0x31);
    payload.push(0x47);
    payload.push(0x35);
    build_frame(connection_props, 0x0619, 0x0000, payload)
}

} // verus!
