//! Monitor registration and monitor read: the server-side variant of
//! cyclic reading, where the device list is registered once and then
//! read back without resending it.

use vstd::prelude::*;
use crate::commands::{get_subcommand, spec_subcommand};
use crate::commands::random_read::{
    push_expanded_devices,
    spec_random_read_payload,
    lemma_random_read_payload_len,
};
use crate::device::AccessType;
use crate::frame::{SLMP4EConnectionProps, build_frame, spec_frame};
use crate::monitor::MonitorList;

verus! {

/// What a monitor registration carries: the sorted monitor list to
/// register on the server.
#[derive(Clone, Debug, PartialEq)]
pub struct SLMPMonitorRegisterQuery {
    pub connection_props: SLMP4EConnectionProps,
    pub monitor_list: MonitorList,
}

/// A built monitor-register request frame.
#[derive(Clone, Debug, PartialEq)]
pub struct SLMPMonitorRegisterCommand(pub Vec<u8>);

/// What a monitor read carries: nothing but the connection identity.
#[derive(Clone, Debug, PartialEq)]
pub struct SLMPMonitorReadQuery {
    pub connection_props: SLMP4EConnectionProps,
}

/// A built monitor-read request frame.
#[derive(Clone, Debug, PartialEq)]
pub struct SLMPMonitorReadCommand(pub Vec<u8>);

/// Build the monitor-register request frame.  Its payload is the same
/// counted, expanded device list a random read sends.
pub fn construct_register_frame(query: &SLMPMonitorRegisterQuery) -> (r:
    SLMPMonitorRegisterCommand)
    requires
        query.monitor_list.wf(),
    ensures
        r.0@ == spec_frame(
            query.connection_props,
            0x0801,
            spec_subcommand(query.connection_props.cpu, AccessType::Word),
            spec_random_read_payload(query.connection_props.cpu, query.monitor_list),
        ),
{
    let cpu = query.connection_props.cpu;
    let mut payload: Vec<u8> = Vec::new();
    payload.push(query.monitor_list.single_word_access_points);
    payload.push(query.monitor_list.double_word_access_points);
    push_expanded_devices(cpu, &query.monitor_list, &mut payload);
    proof {
        lemma_random_read_payload_len(cpu, query.monitor_list);
        assert(payload@ =~= spec_random_read_payload(cpu, query.monitor_list));
    }
    let sub = get_subcommand(cpu, AccessType::Word);
    SLMPMonitorRegisterCommand(build_frame(&query.connection_props, 0x0801, sub, payload))
}

/// Build the monitor-read request frame; its payload is empty.
pub fn construct_read_frame(query: &SLMPMonitorReadQuery) -> (r: SLMPMonitorReadCommand)
    ensures
        r.0@ == spec_frame(query.connection_props, 0x0802, 0x0000, Seq::<u8>::empty()),
{
    let payload: Vec<u8> = Vec::new();
    proof {
        assert(payload@ =~= Seq::<u8>::empty());
    }
    SLMPMonitorReadCommand(build_frame(&query.connection_props, 0x0802, 0x0000, payload))
}

} // verus!
