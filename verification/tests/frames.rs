//! Frame assembly, decoding, and response validation.

use slmp::commands::unit_control;
use slmp::frame::{build_frame, decode_request_frame, validate_response};
use slmp::{CPU, ProtocolCode, SLMP4EConnectionProps, SLMPError};

fn props(cpu: CPU) -> SLMP4EConnectionProps {
    SLMP4EConnectionProps {
        ip: String::from("192.168.3.10"),
        port: 5007,
        cpu,
        serial_id: 0x0001,
        network_id: 0x00,
        pc_id: 0xff,
        io_id: 0x03ff,
        area_id: 0x00,
        cpu_timer: 0x0010,
    }
}

fn header(data_len: u16) -> Vec<u8> {
    let dl = data_len.to_le_bytes();
    vec![
        0x54, 0x00, 0x01, 0x00, 0x00, 0x00, 0x00, 0xff, 0xff, 0x03, 0x00, dl[0], dl[1], 0x10,
        0x00,
    ]
}

#[test]
fn generated_header_bytes() {
    let h = props(CPU::Q).generate_header(0x001c);
    assert_eq!(h, header(0x001c));
}

#[test]
fn frame_length_field_counts_from_cpu_timer() {
    // The length field at bytes 11..13 equals the frame length minus the
    // 13 fixed prefix bytes, for frames of several payload sizes.
    for payload_len in [0usize, 1, 2, 6, 100] {
        let payload = vec![0xabu8; payload_len];
        let frame = build_frame(&props(CPU::Q), 0x0401, 0x0000, payload);
        assert_eq!(frame.len(), 19 + payload_len);
        let field = u16::from_le_bytes([frame[11], frame[12]]) as usize;
        assert_eq!(field, frame.len() - 13);
    }
}

#[test]
fn decode_inverts_build() {
    let payload = vec![0xde, 0xad, 0xbe, 0xef];
    let frame = build_frame(&props(CPU::R), 0x1402, 0x0003, payload.clone());
    let (command, subcommand, body) = decode_request_frame(frame.as_slice()).unwrap();
    assert_eq!(command, 0x1402);
    assert_eq!(subcommand, 0x0003);
    assert_eq!(body, payload);
}

#[test]
fn decode_rejects_malformed() {
    assert_eq!(
        decode_request_frame(&[0x54, 0x00]),
        Err(SLMPError::WireFormat)
    );
    let mut frame = build_frame(&props(CPU::Q), 0x0401, 0x0000, vec![1, 2, 3]);
    frame[11] = frame[11].wrapping_add(1);
    assert_eq!(decode_request_frame(frame.as_slice()), Err(SLMPError::WireFormat));
}

#[test]
fn unit_control_frames() {
    let p = props(CPU::Q);
    let mut expected = header(10);
    expected.extend([0x01, 0x10, 0x00, 0x00, 0x03, 0x00, 0x02, 0x00]);
    assert_eq!(unit_control::remote_run(&p), expected);

    let mut expected = header(8);
    expected.extend([0x02, 0x10, 0x00, 0x00, 0x01, 0x00]);
    assert_eq!(unit_control::remote_stop(&p), expected);

    let mut expected = header(8);
    expected.extend([0x03, 0x10, 0x00, 0x00, 0x03, 0x00]);
    assert_eq!(unit_control::remote_pause(&p), expected);

    let mut expected = header(8);
    expected.extend([0x05, 0x10, 0x00, 0x00, 0x01, 0x00]);
    assert_eq!(unit_control::remote_latch_clear(&p), expected);

    let mut expected = header(8);
    expected.extend([0x06, 0x10, 0x00, 0x00, 0x01, 0x00]);
    assert_eq!(unit_control::remote_reset(&p), expected);

    let mut expected = header(6);
    expected.extend([0x01, 0x01, 0x00, 0x00]);
    assert_eq!(unit_control::get_cpu_type(&p), expected);

    // Echo carries the fixed four message bytes after their length.
    let mut expected = header(12);
    expected.extend([0x19, 0x06, 0x00, 0x00, 0x04, 0x00, 0x41, 0x31, 0x47, 0x35]);
    assert_eq!(unit_control::echo(&p), expected);
}

#[test]
fn password_rules() {
    // Q and L CPUs take exactly four bytes.
    assert!(unit_control::validate_password(CPU::Q, "abcd").is_ok());
    assert_eq!(
        unit_control::validate_password(CPU::Q, "abc"),
        Err(SLMPError::Validation)
    );
    assert_eq!(
        unit_control::validate_password(CPU::L, "abcde"),
        Err(SLMPError::Validation)
    );
    // R CPUs take six to thirty-two bytes.
    assert_eq!(
        unit_control::validate_password(CPU::R, "abcd"),
        Err(SLMPError::Validation)
    );
    assert!(unit_control::validate_password(CPU::R, "abcdef").is_ok());
    assert!(unit_control::validate_password(CPU::R, &"a".repeat(32)).is_ok());
    assert_eq!(
        unit_control::validate_password(CPU::R, &"a".repeat(33)),
        Err(SLMPError::Validation)
    );
}

#[test]
fn lock_unlock_frames() {
    let p = props(CPU::Q);
    let mut expected = header(12);
    expected.extend([0x30, 0x16, 0x00, 0x00, 0x04, 0x00]);
    expected.extend(b"pass");
    assert_eq!(unlockable(&p), expected);
    let mut expected = header(12);
    expected.extend([0x31, 0x16, 0x00, 0x00, 0x04, 0x00]);
    expected.extend(b"pass");
    assert_eq!(unit_control::lock_cpu(&p, "pass").unwrap(), expected);
    assert_eq!(
        unit_control::lock_cpu(&p, "short"),
        Err(SLMPError::Validation)
    );
}

fn unlockable(p: &SLMP4EConnectionProps) -> Vec<u8> {
    unit_control::unlock_cpu(p, "pass").unwrap()
}

fn ok_response(payload: &[u8]) -> Vec<u8> {
    let mut r = vec![0xd4, 0x00, 0x01, 0x00, 0x00, 0x00, 0x00, 0xff, 0xff, 0x03, 0x00];
    let dl = ((2 + payload.len()) as u16).to_le_bytes();
    r.extend([dl[0], dl[1]]);
    r.extend([0x00, 0x00]);
    r.extend(payload);
    r
}

#[test]
fn validate_accepts_good_response() {
    let p = props(CPU::Q);
    assert!(validate_response(&p, ok_response(&[0x0a, 0x00]).as_slice()).is_ok());
    assert!(validate_response(&p, ok_response(&[]).as_slice()).is_ok());
}

#[test]
fn validate_rejects_short_and_mismatched() {
    let p = props(CPU::Q);
    assert_eq!(
        validate_response(&p, &[0xd4, 0x00, 0x01]),
        Err(SLMPError::WireFormat)
    );
    let mut r = ok_response(&[0x0a, 0x00]);
    r[11] = r[11].wrapping_add(1);
    assert_eq!(validate_response(&p, r.as_slice()), Err(SLMPError::WireFormat));

    let mut r = ok_response(&[]);
    r[0] = 0x50;
    assert_eq!(validate_response(&p, r.as_slice()), Err(SLMPError::WireFormat));

    let mut r = ok_response(&[]);
    r[2] = 0x02;
    assert_eq!(validate_response(&p, r.as_slice()), Err(SLMPError::WireFormat));

    let mut r = ok_response(&[]);
    r[6] = 0x01;
    assert_eq!(validate_response(&p, r.as_slice()), Err(SLMPError::WireFormat));
}

#[test]
fn protocol_error_is_surfaced_with_name() {
    let p = props(CPU::Q);
    let mut r = ok_response(&[]);
    r[13] = 0x59;
    r[14] = 0xc0;
    assert_eq!(
        validate_response(&p, r.as_slice()),
        Err(SLMPError::Protocol(ProtocolCode::WrongCommand, 0xc059))
    );
    let mut r = ok_response(&[]);
    r[13] = 0xe0;
    r[14] = 0xce;
    assert_eq!(
        validate_response(&p, r.as_slice()),
        Err(SLMPError::Protocol(ProtocolCode::Busy, 0xcee0))
    );
    let mut r = ok_response(&[]);
    r[13] = 0x99;
    r[14] = 0x99;
    assert_eq!(
        validate_response(&p, r.as_slice()),
        Err(SLMPError::Protocol(ProtocolCode::Unknown, 0x9999))
    );
}

#[test]
fn file_props_frame() {
    let p = props(CPU::Q);
    let frame = slmp::commands::file_control::read_file_and_folder_props_for_ql(
        &p,
        slmp::FileDriveForQL::ProgramMemory,
        1,
        16,
        16,
    );
    let mut expected = header(18);
    expected.extend([0x10, 0x18, 0x00, 0x00]);
    expected.extend([0x30, 0x30, 0x30, 0x30]);
    expected.extend([0x00, 0x00, 0x01, 0x00, 0x10, 0x00, 0x10, 0x00]);
    assert_eq!(frame, expected);
}

#[test]
fn error_kinds_have_names() {
    assert_eq!(SLMPError::Validation.describe(), "validation error");
    assert_eq!(SLMPError::Timeout.describe(), "timeout");
    assert_eq!(SLMPError::NotConnected.describe(), "not connected");
    assert_eq!(SLMPError::WireFormat.describe(), "invalid response frame");
    assert_eq!(
        SLMPError::Protocol(ProtocolCode::Busy, 0xcee0).describe(),
        "server returned an error code"
    );
    assert_eq!(SLMPError::Io.describe(), "i/o error");
}

#[test]
fn drive_and_attribute_codes() {
    assert_eq!(slmp::FileDriveForR::DataMemory.to_drive_code(), 0x0001);
    assert_eq!(slmp::FileDriveForR::SDMemory.to_drive_code(), 0x0002);
    assert_eq!(slmp::FileDriveForR::Device.to_drive_code(), 0x0003);
    assert_eq!(slmp::FileDriveForQL::DefaultROM.to_drive_code(), 0x0003);
    assert_eq!(
        slmp::FileDrive::R(slmp::FileDriveForR::Device).to_drive_code(),
        0x0003
    );
    assert_eq!(slmp::FileAttribute::ReadOnly(false).to_attribute_code(), 0x0001);
    assert_eq!(slmp::FileAttribute::ReadWrite(true).to_attribute_code(), 0x0020);
    assert_eq!(slmp::FolderAttribute::ReadOnly(true).to_attribute_code(), 0x0031);
    assert_eq!(slmp::FileOpenMode::Write.to_mode_code(), 0x0100);
}
