//! Data model of the fleet scheduler.
//!
//! A fleet manages one session per endpoint.  Registration requests
//! carry the connection identity together with the device to monitor
//! and its polling interval; results are delivered to the user callback
//! tagged with the endpoint they came from.  The scheduler's loop lives
//! with the embedding application; the grouping decisions are here.

use vstd::prelude::*;
use crate::device::{DeviceData, TypedDevice};
use crate::frame::SLMP4EConnectionProps;
use crate::poller::{MonitorDevice, PollingInterval};

verus! {

/// The identity of one session of the fleet: host and TCP port.
#[derive(Clone, Debug, PartialEq, Eq, Hash)]
pub struct Endpoint {
    pub ip: String,
    pub port: u16,
}

/// A request to monitor one device of one PLC at a given rate.
#[derive(Clone, Debug)]
pub struct MonitorRequest {
    pub connection_props: SLMP4EConnectionProps,
    pub monitor_device: TypedDevice,
    pub interval: PollingInterval,
}

/// A device the fleet now monitors, tagged with its endpoint.
#[derive(Clone, Debug)]
pub struct MonitoredDevice {
    pub endpoint: Endpoint,
    pub monitor_device: TypedDevice,
}

/// One polled value, tagged with the endpoint it came from.
#[derive(Clone, Debug)]
pub struct PLCData {
    pub endpoint: Endpoint,
    pub device_data: DeviceData,
}

/// Whether a request addresses the given endpoint.
pub open spec fn spec_request_at(r: MonitorRequest, ip: Seq<char>, port: u16) -> bool {
    r.connection_props.ip@ == ip && r.connection_props.port == port
}

/// The monitored devices of all requests that address the endpoint, in
/// request order.
pub open spec fn spec_targets_at(
    requests: Seq<MonitorRequest>,
    ip: Seq<char>,
    port: u16,
) -> Seq<MonitorDevice>
    decreases requests.len(),
{
    if requests.len() == 0 {
        Seq::empty()
    } else {
        spec_targets_at(requests.drop_last(), ip, port) + if spec_request_at(
            requests.last(),
            ip,
            port,
        ) {
            seq![
                MonitorDevice {
                    monitor_device: requests.last().monitor_device,
                    interval: requests.last().interval,
                },
            ]
        } else {
            Seq::empty()
        }
    }
}

/// Collect the monitor targets of one endpoint from a request list, in
/// request order.
pub fn targets_for_endpoint(requests: &Vec<MonitorRequest>, endpoint: &Endpoint) -> (r: Vec<
    MonitorDevice,
>)
    ensures
        r@ =~= spec_targets_at(requests@, endpoint.ip@, endpoint.port),
{
    let mut out: Vec<MonitorDevice> = Vec::new();
    let n = requests.len();
    let mut i: usize = 0;
    while i < n
        invariant
            n == requests@.len(),
            0 <= i <= n,
            out@ =~= spec_targets_at(requests@.take(i as int), endpoint.ip@, endpoint.port),
        decreases n - i,
    {
        let ghost prefix2 = requests@.take(i as int + 1);
        proof {
            assert(prefix2.drop_last() =~= requests@.take(i as int));
            assert(prefix2.last() == requests@[i as int]);
        }
        let req = &requests[i];
        if req.connection_props.ip.eq(&endpoint.ip) && req.connection_props.port
            == endpoint.port {
            out.push(
                MonitorDevice {
                    monitor_device: req.monitor_device,
                    interval: req.interval,
                },
            );
        }
        i = i + 1;
    }
    proof {
        assert(requests@.take(n as int) =~= requests@);
    }
    out
}

} // verus!
