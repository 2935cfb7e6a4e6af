//! Write/read round trips with a simulated server: the response payload
//! a PLC would send for the written values is parsed back and compared
//! with what was written.

use slmp::commands::{block_read, block_write, bulk_read, bulk_write, random_read, random_write};
use slmp::{
    AccessType, BlockedDeviceData, CPU, DataType, Device, DeviceBlock, DeviceData, DeviceType,
    MonitorList, SLMP4EConnectionProps, TypedData, TypedDevice,
};

fn slmp_props() -> SLMP4EConnectionProps {
    SLMP4EConnectionProps {
        ip: String::from("192.168.3.10"),
        port: 5007,
        cpu: CPU::R,
        serial_id: 0x0001,
        network_id: 0x00,
        pc_id: 0xff,
        io_id: 0x03ff,
        area_id: 0x00,
        cpu_timer: 0x0010,
    }
}

/// The payload a server holding exactly the written values answers to a
/// bulk read: the value bytes back to back (the word path), or two bits
/// per byte (the bit path).
fn simulated_bulk_payload(data: &[TypedData]) -> Vec<u8> {
    if data.iter().all(|x| matches!(x, TypedData::Bool(_))) {
        let mut out = Vec::new();
        for pair in data.chunks(2) {
            let hi = if matches!(pair[0], TypedData::Bool(true)) { 0x10u8 } else { 0 };
            let lo = if pair.len() > 1 && matches!(pair[1], TypedData::Bool(true)) { 1 } else { 0 };
            out.push(hi + lo);
        }
        out
    } else {
        let mut out = Vec::new();
        for x in data {
            out.extend(x.to_bytes());
        }
        out
    }
}

#[test]
fn test_bulk_access() {
    let props = slmp_props();

    // Word data: D4000..D4003 as four 32-bit values.
    let start_device = Device { device_type: DeviceType::D, address: 4000 };
    let data = [
        TypedData::U32(10),
        TypedData::U32(20),
        TypedData::U32(30),
        TypedData::U32(40),
    ];
    let write = bulk_write::construct_frame(&bulk_write::SLMPBulkWriteQuery {
        connection_props: props.clone(),
        start_device,
        data: data.to_vec(),
    });
    assert!(write.unwrap().is_some());

    let recv = simulated_bulk_payload(&data);
    let ret = bulk_read::parse_bulk_read(start_device, 4, DataType::U32, &recv);
    let ret: Vec<TypedData> = ret.into_iter().map(|x| x.data).collect();
    assert_eq!(data.to_vec(), ret);

    // Bit data: M0..M3.
    let start_device = Device { device_type: DeviceType::M, address: 0 };
    let data = vec![
        TypedData::Bool(true),
        TypedData::Bool(false),
        TypedData::Bool(false),
        TypedData::Bool(true),
    ];
    let write = bulk_write::construct_frame(&bulk_write::SLMPBulkWriteQuery {
        connection_props: props,
        start_device,
        data: data.clone(),
    });
    assert!(write.unwrap().is_some());

    let recv = simulated_bulk_payload(&data);
    let ret = bulk_read::parse_bulk_read(start_device, data.len(), DataType::Bool, &recv);
    let ret: Vec<TypedData> = ret.into_iter().map(|x| x.data).collect();
    assert_eq!(data, ret);
}

#[test]
fn test_random_access() {
    let props = slmp_props();

    let devices = [
        Device { device_type: DeviceType::D, address: 20 },
        Device { device_type: DeviceType::D, address: 25 },
        Device { device_type: DeviceType::D, address: 30 },
        Device { device_type: DeviceType::D, address: 35 },
    ];
    let data = [
        TypedData::U16(10),
        TypedData::U16(20),
        TypedData::I16(-40),
        TypedData::U32(80000),
    ];

    let wr_data: Vec<DeviceData> = devices
        .iter()
        .zip(data.iter())
        .map(|(d, v)| DeviceData { device: *d, data: *v })
        .collect();
    let tds = random_write::typed_devices_of(&wr_data);
    let list = MonitorList::from_devices(&tds).unwrap();
    let frame = random_write::construct_frame(&random_write::SLMPRandomWriteQuery {
        connection_props: props.clone(),
        data: wr_data,
        monitor_list: list,
    });
    assert!(frame.unwrap().is_some());

    // Read the same devices back; the server answers in sorted slot
    // order, which here is the caller order (three single words before
    // the double word).
    let typed = vec![
        TypedDevice { device: devices[0], data_type: DataType::U16 },
        TypedDevice { device: devices[1], data_type: DataType::U16 },
        TypedDevice { device: devices[2], data_type: DataType::I16 },
        TypedDevice { device: devices[3], data_type: DataType::U32 },
    ];
    let list = MonitorList::from_devices(&typed).unwrap();
    let _frame = random_read::construct_frame(&random_read::SLMPRandomReadQuery {
        connection_props: props,
        monitor_list: list.clone(),
    });
    let mut recv = Vec::new();
    for (j, _) in &list.sorted_devices {
        recv.extend(data[*j].to_bytes());
    }
    assert_eq!(recv.len(), list.response_len());
    let ret = list.parse(&recv);
    let ret: Vec<TypedData> = ret.into_iter().map(|x| x.data).collect();
    assert_eq!(data.to_vec(), ret);
}

#[test]
fn test_block_access() {
    let props = slmp_props();

    let data = [
        BlockedDeviceData {
            access_type: AccessType::Word,
            start_device: Device { device_type: DeviceType::D, address: 10 },
            data: vec![TypedData::U16(10), TypedData::U16(20)],
        },
        BlockedDeviceData {
            access_type: AccessType::Word,
            start_device: Device { device_type: DeviceType::D, address: 20 },
            data: vec![TypedData::U16(30), TypedData::U16(40)],
        },
        BlockedDeviceData {
            access_type: AccessType::Bit,
            start_device: Device { device_type: DeviceType::M, address: 0 },
            data: vec![TypedData::Bool(true), TypedData::Bool(false), TypedData::Bool(true)],
        },
    ];
    let write_query =
        block_write::SLMPBlockWriteQuery::new(props.clone(), data.to_vec()).unwrap();
    block_write::construct_frame(&write_query).unwrap();

    let device_blocks = vec![
        DeviceBlock {
            access_type: data[0].access_type,
            start_device: data[0].start_device,
            size: data[0].data.len(),
        },
        DeviceBlock {
            access_type: data[1].access_type,
            start_device: data[1].start_device,
            size: data[1].data.len(),
        },
        DeviceBlock {
            access_type: data[2].access_type,
            start_device: data[2].start_device,
            size: data[2].data.len(),
        },
    ];
    let read_query = block_read::SLMPBlockReadQuery::new(props, &device_blocks).unwrap();
    block_read::construct_frame(&read_query);

    // The server answers with the written words, then the bits packed
    // eight per byte.
    let mut recv = Vec::new();
    for v in [10u16, 20, 30, 40] {
        recv.extend(v.to_le_bytes());
    }
    recv.push(0b101);
    let ret = block_read::parse_block_read(&read_query.sorted_block, &recv);
    let values: Vec<TypedData> = ret.iter().map(|x| x.data).collect();
    assert_eq!(
        values,
        vec![
            TypedData::U16(10),
            TypedData::U16(20),
            TypedData::U16(30),
            TypedData::U16(40),
            TypedData::Bool(true),
            TypedData::Bool(false),
            TypedData::Bool(true),
        ]
    );
}
