//! Bulk and block transfers: frame bytes and response parsing.

use slmp::commands::{block_read, block_write, bulk_read, bulk_write};
use slmp::{
    AccessType, CPU, DataType, Device, DeviceBlock, DeviceType, BlockedDeviceData,
    SLMP4EConnectionProps, SLMPError, TypedData,
};

fn props(cpu: CPU) -> SLMP4EConnectionProps {
    SLMP4EConnectionProps {
        ip: String::from("127.0.0.1"),
        port: 5007,
        cpu,
        serial_id: 0x0001,
        network_id: 0x00,
        pc_id: 0xff,
        io_id: 0x03ff,
        area_id: 0x00,
        cpu_timer: 0x0010,
    }
}

fn dev(t: DeviceType, address: usize) -> Device {
    Device { device_type: t, address }
}

#[test]
fn bulk_write_words_q_cpu() {
    // Write D4000..D4003 as four 32-bit values.
    let query = bulk_write::SLMPBulkWriteQuery {
        connection_props: props(CPU::Q),
        start_device: dev(DeviceType::D, 4000),
        data: vec![
            TypedData::U32(10),
            TypedData::U32(20),
            TypedData::U32(30),
            TypedData::U32(40),
        ],
    };
    let frame = bulk_write::construct_frame(&query).unwrap().unwrap().0;
    let mut expected = vec![
        0x54, 0x00, 0x01, 0x00, 0x00, 0x00, 0x00, 0xff, 0xff, 0x03, 0x00, 0x1c, 0x00, 0x10, 0x00,
    ];
    expected.extend([0x01, 0x14, 0x00, 0x00]);
    expected.extend([0xa0, 0x0f, 0x00, 0xa8]); // D4000
    expected.extend([0x08, 0x00]); // eight device words
    expected.extend(10u32.to_le_bytes());
    expected.extend(20u32.to_le_bytes());
    expected.extend(30u32.to_le_bytes());
    expected.extend(40u32.to_le_bytes());
    assert_eq!(frame, expected);
}

#[test]
fn bulk_read_frame_counts_device_words() {
    // One U32 covers two device words.
    let query = bulk_read::SLMPBulkReadQuery {
        connection_props: props(CPU::Q),
        start_device: dev(DeviceType::D, 4000),
        device_num: 1,
        data_type: DataType::U32,
    };
    let frame = bulk_read::construct_frame(&query).unwrap().0;
    assert_eq!(&frame[15..19], &[0x01, 0x04, 0x00, 0x00]);
    assert_eq!(&frame[19..], &[0xa0, 0x0f, 0x00, 0xa8, 0x02, 0x00]);
}

#[test]
fn bulk_word_round_trip() {
    // Parsing the response of a read at the written device yields the
    // written value.
    let recv = 10u32.to_le_bytes();
    let parsed = bulk_read::parse_bulk_read(dev(DeviceType::D, 4000), 1, DataType::U32, &recv);
    assert_eq!(parsed.len(), 1);
    assert_eq!(parsed[0].device, dev(DeviceType::D, 4000));
    assert_eq!(parsed[0].data, TypedData::U32(10));
}

#[test]
fn bulk_read_word_addresses_advance_by_word_count() {
    let mut recv: Vec<u8> = Vec::new();
    recv.extend(7u32.to_le_bytes());
    recv.extend(8u32.to_le_bytes());
    let parsed = bulk_read::parse_bulk_read(dev(DeviceType::D, 100), 2, DataType::U32, &recv);
    assert_eq!(parsed[0].device, dev(DeviceType::D, 100));
    assert_eq!(parsed[1].device, dev(DeviceType::D, 102));
    assert_eq!(parsed[1].data, TypedData::U32(8));
}

#[test]
fn bulk_write_bits() {
    // Write M0..M3 = [true, false, false, true]: two bits per byte,
    // high nibble first.
    let query = bulk_write::SLMPBulkWriteQuery {
        connection_props: props(CPU::Q),
        start_device: dev(DeviceType::M, 0),
        data: vec![
            TypedData::Bool(true),
            TypedData::Bool(false),
            TypedData::Bool(false),
            TypedData::Bool(true),
        ],
    };
    let frame = bulk_write::construct_frame(&query).unwrap().unwrap().0;
    assert_eq!(&frame[15..19], &[0x01, 0x14, 0x01, 0x00]);
    assert_eq!(
        &frame[19..],
        &[0x00, 0x00, 0x00, 0x90, 0x04, 0x00, 0x10, 0x01]
    );
}

#[test]
fn bulk_bit_round_trip() {
    // The written bits come back from the matching bit read.
    let recv = [0x10, 0x01];
    let parsed = bulk_read::parse_bulk_read(dev(DeviceType::M, 0), 4, DataType::Bool, &recv);
    let bits: Vec<TypedData> = parsed.iter().map(|d| d.data).collect();
    assert_eq!(
        bits,
        vec![
            TypedData::Bool(true),
            TypedData::Bool(false),
            TypedData::Bool(false),
            TypedData::Bool(true),
        ]
    );
    assert_eq!(parsed[3].device, dev(DeviceType::M, 3));
}

#[test]
fn bulk_bit_odd_count_truncates() {
    let recv = [0x11, 0x10];
    let parsed = bulk_read::parse_bulk_read(dev(DeviceType::M, 0), 3, DataType::Bool, &recv);
    assert_eq!(parsed.len(), 3);
    let bits: Vec<TypedData> = parsed.iter().map(|d| d.data).collect();
    assert_eq!(
        bits,
        vec![TypedData::Bool(true), TypedData::Bool(true), TypedData::Bool(true)]
    );
}

#[test]
fn bulk_write_empty_sends_nothing() {
    let query = bulk_write::SLMPBulkWriteQuery {
        connection_props: props(CPU::Q),
        start_device: dev(DeviceType::D, 0),
        data: Vec::new(),
    };
    assert!(bulk_write::construct_frame(&query).unwrap().is_none());
}

#[test]
fn block_write_frame() {
    let data = vec![
        BlockedDeviceData {
            access_type: AccessType::Word,
            start_device: dev(DeviceType::D, 10),
            data: vec![TypedData::U16(10), TypedData::U16(20)],
        },
        BlockedDeviceData {
            access_type: AccessType::Word,
            start_device: dev(DeviceType::D, 20),
            data: vec![TypedData::U16(30), TypedData::U16(40)],
        },
        BlockedDeviceData {
            access_type: AccessType::Bit,
            start_device: dev(DeviceType::M, 0),
            data: vec![
                TypedData::Bool(true),
                TypedData::Bool(false),
                TypedData::Bool(true),
            ],
        },
    ];
    let query = block_write::SLMPBlockWriteQuery::new(props(CPU::Q), data).unwrap();
    assert_eq!(query.word_access_points, 2);
    assert_eq!(query.bit_access_points, 1);
    let frame = block_write::construct_frame(&query).unwrap().0;
    assert_eq!(&frame[15..19], &[0x06, 0x14, 0x00, 0x00]);
    let mut expected: Vec<u8> = vec![0x02, 0x01];
    expected.extend([0x0a, 0x00, 0x00, 0xa8, 0x02, 0x00, 0x0a, 0x00, 0x14, 0x00]);
    expected.extend([0x14, 0x00, 0x00, 0xa8, 0x02, 0x00, 0x1e, 0x00, 0x28, 0x00]);
    // Bit block: one word of sixteen bits, LSB first: 0b101 = 0x05.
    expected.extend([0x00, 0x00, 0x00, 0x90, 0x01, 0x00, 0x05, 0x00]);
    assert_eq!(&frame[19..], expected.as_slice());
}

#[test]
fn block_write_sorts_word_blocks_first() {
    let data = vec![
        BlockedDeviceData {
            access_type: AccessType::Bit,
            start_device: dev(DeviceType::M, 0),
            data: vec![TypedData::Bool(true)],
        },
        BlockedDeviceData {
            access_type: AccessType::Word,
            start_device: dev(DeviceType::D, 0),
            data: vec![TypedData::U16(1)],
        },
    ];
    let query = block_write::SLMPBlockWriteQuery::new(props(CPU::Q), data).unwrap();
    assert_eq!(query.order, vec![1, 0]);
}

#[test]
fn block_read_frame_and_parse() {
    let blocks = vec![
        DeviceBlock { access_type: AccessType::Word, start_device: dev(DeviceType::D, 10), size: 2 },
        DeviceBlock { access_type: AccessType::Word, start_device: dev(DeviceType::D, 20), size: 2 },
        DeviceBlock { access_type: AccessType::Bit, start_device: dev(DeviceType::M, 0), size: 3 },
    ];
    let query = block_read::SLMPBlockReadQuery::new(props(CPU::Q), &blocks).unwrap();
    assert_eq!(query.word_access_points, 2);
    assert_eq!(query.bit_access_points, 1);
    let frame = block_read::construct_frame(&query).0;
    assert_eq!(&frame[15..19], &[0x06, 0x04, 0x00, 0x00]);
    let mut expected: Vec<u8> = vec![0x02, 0x01];
    expected.extend([0x0a, 0x00, 0x00, 0xa8, 0x02, 0x00]);
    expected.extend([0x14, 0x00, 0x00, 0xa8, 0x02, 0x00]);
    expected.extend([0x00, 0x00, 0x00, 0x90, 0x01, 0x00]); // three bits: one byte
    assert_eq!(&frame[19..], expected.as_slice());

    // Simulated response: the written values come back block by block.
    let mut recv: Vec<u8> = Vec::new();
    recv.extend(10u16.to_le_bytes());
    recv.extend(20u16.to_le_bytes());
    recv.extend(30u16.to_le_bytes());
    recv.extend(40u16.to_le_bytes());
    recv.push(0x05); // bits true, false, true, LSB first
    let parsed = block_read::parse_block_read(&query.sorted_block, recv.as_slice());
    assert_eq!(parsed.len(), 7);
    assert_eq!(parsed[0].device, dev(DeviceType::D, 10));
    assert_eq!(parsed[0].data, TypedData::U16(10));
    assert_eq!(parsed[1].device, dev(DeviceType::D, 11));
    assert_eq!(parsed[1].data, TypedData::U16(20));
    assert_eq!(parsed[2].device, dev(DeviceType::D, 20));
    assert_eq!(parsed[2].data, TypedData::U16(30));
    assert_eq!(parsed[3].data, TypedData::U16(40));
    assert_eq!(parsed[4].device, dev(DeviceType::M, 0));
    assert_eq!(parsed[4].data, TypedData::Bool(true));
    assert_eq!(parsed[5].data, TypedData::Bool(false));
    assert_eq!(parsed[6].device, dev(DeviceType::M, 2));
    assert_eq!(parsed[6].data, TypedData::Bool(true));
}

#[test]
fn block_read_sorts_by_address_within_class() {
    let blocks = vec![
        DeviceBlock { access_type: AccessType::Word, start_device: dev(DeviceType::D, 50), size: 1 },
        DeviceBlock { access_type: AccessType::Word, start_device: dev(DeviceType::D, 10), size: 1 },
    ];
    let query = block_read::SLMPBlockReadQuery::new(props(CPU::Q), &blocks).unwrap();
    assert_eq!(query.sorted_block[0].start_device.address, 10);
    assert_eq!(query.sorted_block[1].start_device.address, 50);
}

#[test]
fn bulk_read_count_overflow_is_validation() {
    let query = bulk_read::SLMPBulkReadQuery {
        connection_props: props(CPU::Q),
        start_device: dev(DeviceType::D, 0),
        device_num: 40000,
        data_type: DataType::U32,
    };
    assert!(matches!(
        bulk_read::construct_frame(&query),
        Err(SLMPError::Validation)
    ));
}
