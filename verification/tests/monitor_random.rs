//! Monitor list ordering, access-point counts, and the random-access
//! round trip with mixed widths.

use slmp::commands::{random_read, random_write};
use slmp::{
    CPU, DataType, Device, DeviceData, DeviceType, MonitorList, PLCString, SLMP4EConnectionProps,
    SLMPError, TypedData, TypedDevice,
};

fn props(cpu: CPU) -> SLMP4EConnectionProps {
    SLMP4EConnectionProps {
        ip: String::from("127.0.0.1"),
        port: 5007,
        cpu,
        serial_id: 0x0001,
        network_id: 0x00,
        pc_id: 0xff,
        io_id: 0x03ff,
        area_id: 0x00,
        cpu_timer: 0x0010,
    }
}

fn dev(t: DeviceType, address: usize) -> Device {
    Device { device_type: t, address }
}

fn mixed_devices() -> Vec<TypedDevice> {
    vec![
        TypedDevice { device: dev(DeviceType::D, 20), data_type: DataType::U16 },
        TypedDevice { device: dev(DeviceType::D, 30), data_type: DataType::I32 },
        TypedDevice { device: dev(DeviceType::D, 40), data_type: DataType::String(4) },
        TypedDevice { device: dev(DeviceType::M, 0), data_type: DataType::Bool },
    ]
}

#[test]
fn monitor_list_sorts_and_counts() {
    let list = MonitorList::from_devices(&mixed_devices()).unwrap();
    // Sorted: single-word types first (Bool, then U16), then the
    // multi-word string, then the double-word integer.
    let order: Vec<usize> = list.sorted_devices.iter().map(|p| p.0).collect();
    assert_eq!(order, vec![3, 0, 2, 1]);
    // Header counts: Bool and U16 are one single-word point each, the
    // four-word string expands into four more; one double-word point.
    assert_eq!(list.single_word_access_points, 6);
    assert_eq!(list.double_word_access_points, 1);
    assert_eq!(list.multi_word_access_points, 1);
    assert_eq!(list.single_word_access_points_for_multi_word_communication, 4);
}

#[test]
fn monitor_list_orders_by_address_within_type() {
    let devices = vec![
        TypedDevice { device: dev(DeviceType::D, 35), data_type: DataType::U16 },
        TypedDevice { device: dev(DeviceType::D, 20), data_type: DataType::U16 },
        TypedDevice { device: dev(DeviceType::D, 25), data_type: DataType::U16 },
    ];
    let list = MonitorList::from_devices(&devices).unwrap();
    let order: Vec<usize> = list.sorted_devices.iter().map(|p| p.0).collect();
    assert_eq!(order, vec![1, 2, 0]);
}

#[test]
fn access_point_limit_is_validation() {
    // 192 booleans are exactly at the limit.
    let mut devices: Vec<TypedDevice> = Vec::new();
    for a in 0..192 {
        devices.push(TypedDevice { device: dev(DeviceType::M, a), data_type: DataType::Bool });
    }
    assert!(MonitorList::from_devices(&devices).is_ok());
    // One more crosses it.
    devices.push(TypedDevice { device: dev(DeviceType::M, 192), data_type: DataType::Bool });
    assert_eq!(MonitorList::from_devices(&devices), Err(SLMPError::Validation));
    // Seven eight-word floats also cross it together with the rest.
    let mut devices: Vec<TypedDevice> = Vec::new();
    for a in 0..49 {
        devices.push(TypedDevice { device: dev(DeviceType::D, a * 4), data_type: DataType::F64 });
    }
    assert_eq!(MonitorList::from_devices(&devices), Err(SLMPError::Validation));
}

#[test]
fn random_read_frame_mixed_widths_r_cpu() {
    let list = MonitorList::from_devices(&mixed_devices()).unwrap();
    let query = random_read::SLMPRandomReadQuery {
        connection_props: props(CPU::R),
        monitor_list: list,
    };
    let frame = random_read::construct_frame(&query).0;
    // Command 0x0403, word subcommand 0x0002 on R.
    assert_eq!(&frame[15..19], &[0x03, 0x04, 0x02, 0x00]);
    // Counts: six single-word points, one double-word point.
    assert_eq!(&frame[19..21], &[0x06, 0x01]);
    // Devices in sorted order, the string expanded to D40..D43.
    let mut expected: Vec<u8> = Vec::new();
    expected.extend([0x00, 0x00, 0x00, 0x00, 0x90, 0x00]); // M0
    expected.extend([0x14, 0x00, 0x00, 0x00, 0xa8, 0x00]); // D20
    expected.extend([0x28, 0x00, 0x00, 0x00, 0xa8, 0x00]); // D40
    expected.extend([0x29, 0x00, 0x00, 0x00, 0xa8, 0x00]); // D41
    expected.extend([0x2a, 0x00, 0x00, 0x00, 0xa8, 0x00]); // D42
    expected.extend([0x2b, 0x00, 0x00, 0x00, 0xa8, 0x00]); // D43
    expected.extend([0x1e, 0x00, 0x00, 0x00, 0xa8, 0x00]); // D30
    assert_eq!(&frame[21..], expected.as_slice());
    // The length field covers CPU timer, command, subcommand, payload.
    assert_eq!(
        u16::from_le_bytes([frame[11], frame[12]]) as usize,
        frame.len() - 13
    );
}

#[test]
fn random_read_parse_restores_caller_order() {
    let list = MonitorList::from_devices(&mixed_devices()).unwrap();
    // Simulated server payload in sorted slot order: Bool, U16, the
    // string's four words, then the double word.
    let mut payload: Vec<u8> = Vec::new();
    payload.extend([0x01, 0x00]); // Bool true
    payload.extend(0x1234u16.to_le_bytes()); // U16
    payload.extend(b"AB");
    payload.extend([0x00; 6]); // String "AB" padded to four words
    payload.extend((-5i32).to_le_bytes()); // I32
    assert_eq!(payload.len(), list.response_len());
    let parsed = list.parse(payload.as_slice());
    assert_eq!(parsed.len(), 4);
    assert_eq!(parsed[0].device, dev(DeviceType::D, 20));
    assert_eq!(parsed[0].data, TypedData::U16(0x1234));
    assert_eq!(parsed[1].device, dev(DeviceType::D, 30));
    assert_eq!(parsed[1].data, TypedData::I32(-5));
    assert_eq!(parsed[2].device, dev(DeviceType::D, 40));
    match &parsed[2].data {
        TypedData::String(s) => assert_eq!(s.to_string(), "AB"),
        _ => panic!("expected a string"),
    }
    assert_eq!(parsed[3].device, dev(DeviceType::M, 0));
    assert_eq!(parsed[3].data, TypedData::Bool(true));
}

#[test]
fn random_write_word_frame() {
    let data = vec![
        DeviceData { device: dev(DeviceType::D, 20), data: TypedData::U16(10) },
        DeviceData { device: dev(DeviceType::D, 25), data: TypedData::U16(20) },
        DeviceData { device: dev(DeviceType::D, 30), data: TypedData::I16(-40) },
        DeviceData { device: dev(DeviceType::D, 35), data: TypedData::U32(80000) },
    ];
    let tds = random_write::typed_devices_of(&data);
    let list = MonitorList::from_devices(&tds).unwrap();
    let query = random_write::SLMPRandomWriteQuery {
        connection_props: props(CPU::Q),
        data,
        monitor_list: list,
    };
    let frame = random_write::construct_frame(&query).unwrap().unwrap().0;
    // Command 0x1402, word subcommand 0x0000 on Q.
    assert_eq!(&frame[15..19], &[0x02, 0x14, 0x00, 0x00]);
    // Three single-word points, one double-word point.
    assert_eq!(&frame[19..21], &[0x03, 0x01]);
    let mut expected: Vec<u8> = Vec::new();
    expected.extend([0x14, 0x00, 0x00, 0xa8, 0x0a, 0x00]); // D20 = 10
    expected.extend([0x19, 0x00, 0x00, 0xa8, 0x14, 0x00]); // D25 = 20
    expected.extend([0x1e, 0x00, 0x00, 0xa8]); // D30
    expected.extend((-40i16).to_le_bytes()); // = -40
    expected.extend([0x23, 0x00, 0x00, 0xa8, 0x80, 0x38, 0x01, 0x00]); // D35 = 80000
    assert_eq!(&frame[21..], expected.as_slice());
}

#[test]
fn random_write_expands_multi_word_values() {
    let s = PLCString::from_text("AB", 2).unwrap();
    let data = vec![DeviceData { device: dev(DeviceType::D, 100), data: TypedData::String(s) }];
    let tds = random_write::typed_devices_of(&data);
    let list = MonitorList::from_devices(&tds).unwrap();
    let query = random_write::SLMPRandomWriteQuery {
        connection_props: props(CPU::Q),
        data,
        monitor_list: list,
    };
    let frame = random_write::construct_frame(&query).unwrap().unwrap().0;
    // Two expanded single-word records, no double words.
    assert_eq!(&frame[19..21], &[0x02, 0x00]);
    let mut expected: Vec<u8> = Vec::new();
    expected.extend([0x64, 0x00, 0x00, 0xa8, 0x41, 0x42]); // D100 = "AB"
    expected.extend([0x65, 0x00, 0x00, 0xa8, 0x00, 0x00]); // D101 = NUL pad
    assert_eq!(&frame[21..], expected.as_slice());
}

#[test]
fn random_write_bit_frame_r_pads_each_record() {
    let data = vec![
        DeviceData { device: dev(DeviceType::M, 0), data: TypedData::Bool(true) },
        DeviceData { device: dev(DeviceType::M, 1), data: TypedData::Bool(false) },
    ];
    let tds = random_write::typed_devices_of(&data);
    let list = MonitorList::from_devices(&tds).unwrap();
    let query = random_write::SLMPRandomWriteQuery {
        connection_props: props(CPU::R),
        data,
        monitor_list: list,
    };
    let frame = random_write::construct_frame(&query).unwrap().unwrap().0;
    // Command 0x1402, bit subcommand 0x0003 on R.
    assert_eq!(&frame[15..19], &[0x02, 0x14, 0x03, 0x00]);
    let mut expected: Vec<u8> = vec![0x02];
    expected.extend([0x00, 0x00, 0x00, 0x00, 0x90, 0x00, 0x01, 0x00]); // M0 = 1, pad
    expected.extend([0x01, 0x00, 0x00, 0x00, 0x90, 0x00, 0x00, 0x00]); // M1 = 0, pad
    assert_eq!(&frame[19..], expected.as_slice());
}

#[test]
fn random_write_bit_frame_q_has_no_pad() {
    let data = vec![DeviceData { device: dev(DeviceType::M, 3), data: TypedData::Bool(true) }];
    let tds = random_write::typed_devices_of(&data);
    let list = MonitorList::from_devices(&tds).unwrap();
    let query = random_write::SLMPRandomWriteQuery {
        connection_props: props(CPU::Q),
        data,
        monitor_list: list,
    };
    let frame = random_write::construct_frame(&query).unwrap().unwrap().0;
    assert_eq!(&frame[15..19], &[0x02, 0x14, 0x01, 0x00]);
    assert_eq!(&frame[19..], &[0x01, 0x03, 0x00, 0x00, 0x90, 0x01]);
}

#[test]
fn random_write_empty_sends_nothing() {
    let data: Vec<DeviceData> = Vec::new();
    let tds = random_write::typed_devices_of(&data);
    let list = MonitorList::from_devices(&tds).unwrap();
    let query = random_write::SLMPRandomWriteQuery {
        connection_props: props(CPU::Q),
        data,
        monitor_list: list,
    };
    assert!(random_write::construct_frame(&query).unwrap().is_none());
}

#[test]
fn random_write_mixed_bits_and_words_is_validation() {
    let data = vec![
        DeviceData { device: dev(DeviceType::M, 0), data: TypedData::Bool(true) },
        DeviceData { device: dev(DeviceType::D, 0), data: TypedData::U16(1) },
    ];
    let tds = random_write::typed_devices_of(&data);
    let list = MonitorList::from_devices(&tds).unwrap();
    let query = random_write::SLMPRandomWriteQuery {
        connection_props: props(CPU::Q),
        data,
        monitor_list: list,
    };
    assert_eq!(random_write::construct_frame(&query), Err(SLMPError::Validation));
}

#[test]
fn monitor_register_frame_matches_random_read_payload() {
    let list = MonitorList::from_devices(&mixed_devices()).unwrap();
    let read_frame = random_read::construct_frame(
        &random_read::SLMPRandomReadQuery {
            connection_props: props(CPU::Q),
            monitor_list: list.clone(),
        },
    ).0;
    let register_frame = slmp::commands::monitor_access::construct_register_frame(
        &slmp::commands::monitor_access::SLMPMonitorRegisterQuery {
            connection_props: props(CPU::Q),
            monitor_list: list,
        },
    ).0;
    // Same payload, different command code.
    assert_eq!(&register_frame[15..17], &[0x01, 0x08]);
    assert_eq!(&register_frame[19..], &read_frame[19..]);
    let read_only = slmp::commands::monitor_access::construct_read_frame(
        &slmp::commands::monitor_access::SLMPMonitorReadQuery { connection_props: props(CPU::Q) },
    ).0;
    assert_eq!(&read_only[15..19], &[0x02, 0x08, 0x00, 0x00]);
    assert_eq!(read_only.len(), 19);
}

#[test]
fn monitor_list_new_is_empty() {
    let list = MonitorList::new();
    assert_eq!(list.sorted_devices.len(), 0);
    assert_eq!(list.single_word_access_points, 0);
    assert_eq!(list.double_word_access_points, 0);
    assert_eq!(list.response_len(), 0);
    let parsed = list.parse(&[]);
    assert!(parsed.is_empty());
}
