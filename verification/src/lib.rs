//! Client-side building blocks for the SLMP binary protocol (4E frame over
//! TCP), as spoken by Mitsubishi Q-, L- and R-series PLC CPUs.
//!
//! The crate covers the wire codec (little-endian fields, frame headers,
//! bit packing, Shift-JIS strings), the typed data model, the builders for
//! every supported command frame, the response validators and parsers, and
//! the decision logic of the cyclic reader.  Cyclic reading follows the
//! multi-rate design: each monitored device carries its own polling
//! interval, every tick composes one random read of the devices that are
//! due, and no server-side registration is needed; the monitor-register
//! and monitor-read commands remain available for the server-registered
//! style.  Networking itself is left to the embedding application; every
//! function here is a pure computation from values to values.

pub mod error;
pub mod wire;
pub mod device;
pub mod data;
pub mod frame;
pub mod sort;
pub mod monitor;
pub mod commands;
pub mod poller;
pub mod fleet;

pub use error::{ProtocolCode, SLMPError};
pub use device::{AccessType, CPU, Device, DeviceBlock, DeviceSize, DeviceType, TypedDevice};
pub use data::{DataType, PLCString, TypedData};
pub use frame::SLMP4EConnectionProps;
pub use device::{BlockedDeviceData, DeviceData};
pub use monitor::MonitorList;
pub use poller::{MonitorDevice, PollingInterval};
pub use fleet::{Endpoint, MonitorRequest, MonitoredDevice, PLCData};
pub use commands::bulk_read::{SLMPBulkReadCommand, SLMPBulkReadQuery};
pub use commands::bulk_write::{SLMPBulkWriteCommand, SLMPBulkWriteQuery};
pub use commands::random_read::{SLMPRandomReadCommand, SLMPRandomReadQuery};
pub use commands::random_write::{SLMPRandomWriteCommand, SLMPRandomWriteQuery};
pub use commands::block_read::{SLMPBlockReadCommand, SLMPBlockReadQuery};
pub use commands::block_write::{SLMPBlockWriteCommand, SLMPBlockWriteQuery};
pub use commands::monitor_access::{
    SLMPMonitorReadCommand,
    SLMPMonitorReadQuery,
    SLMPMonitorRegisterCommand,
    SLMPMonitorRegisterQuery,
};
pub use commands::file_drive::{
    FileAttribute,
    FileDrive,
    FileDriveForQL,
    FileDriveForR,
    FileExtension,
    FileOpenMode,
    FolderAttribute,
};
