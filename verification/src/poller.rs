//! Decision logic of the multi-rate poller.
//!
//! The fleet scheduler ticks every 100 milliseconds and keeps a counter
//! cycling through 0..=49.  Each monitored device carries a polling
//! interval; a tick polls exactly the devices whose interval is due at
//! the current counter value.  The scheduler composes the due devices
//! into one random read per tick.  The loop itself — timers, channels,
//! cancellation — lives with the embedding application; everything that
//! decides is here.

use vstd::prelude::*;
use crate::device::TypedDevice;

verus! {

/// How often a monitored device is polled: every tick, every fifth,
/// every tenth, or once per full counter cycle.
#[derive(Clone, Copy, Debug, PartialEq, Eq, Structural)]
pub enum PollingInterval {
    Fast,
    Medium,
    Slow,
    Watch,
}

/// One monitored device of the fleet scheduler: what to read and how
/// often.
#[derive(Clone, Copy, Debug, PartialEq, Eq, Structural)]
pub struct MonitorDevice {
    pub monitor_device: TypedDevice,
    pub interval: PollingInterval,
}

/// Whether the interval is due at the given tick counter: `Fast` every
/// tick, `Medium` every fifth, `Slow` every tenth, `Watch` only on the
/// last counter value of the cycle.
pub open spec fn spec_interval_due(interval: PollingInterval, cnt: u8) -> bool {
    match interval {
        PollingInterval::Fast => true,
        PollingInterval::Medium => cnt % 5 == 0,
        PollingInterval::Slow => cnt % 10 == 0,
        PollingInterval::Watch => cnt == 49,
    }
}

/// Whether the interval is due at the given tick counter.
pub fn interval_due(interval: PollingInterval, cnt: u8) -> (r: bool)
    ensures
        r == spec_interval_due(interval, cnt),
{
    match interval {
        PollingInterval::Fast => true,
        PollingInterval::Medium => cnt % 5 == 0,
        PollingInterval::Slow => cnt % 10 == 0,
        PollingInterval::Watch => cnt == 49,
    }
}

/// The tick counter after one tick: it walks up to 49 and then restarts
/// the cycle at 1.
pub open spec fn spec_next_tick_counter(cnt: u8) -> u8 {
    if cnt >= 49 {
        1
    } else {
        (cnt + 1) as u8
    }
}

/// The tick counter after one tick.
pub fn next_tick_counter(cnt: u8) -> (r: u8)
    ensures
        r == spec_next_tick_counter(cnt),
        1 <= r <= 49,
{
    if cnt >= 49 {
        1
    } else {
        cnt + 1
    }
}

/// The devices whose intervals are due at the given tick counter, in
/// registration order.
pub open spec fn spec_due_devices(targets: Seq<MonitorDevice>, cnt: u8) -> Seq<TypedDevice>
    decreases targets.len(),
{
    if targets.len() == 0 {
        Seq::empty()
    } else {
        spec_due_devices(targets.drop_last(), cnt) + if spec_interval_due(
            targets.last().interval,
            cnt,
        ) {
            seq![targets.last().monitor_device]
        } else {
            Seq::empty()
        }
    }
}

/// Collect the devices to poll at this tick, in registration order.
/// The caller turns them into one random read, or skips the tick when
/// nothing is due.
pub fn due_devices(targets: &Vec<MonitorDevice>, cnt: u8) -> (r: Vec<TypedDevice>)
    ensures
        r@ =~= spec_due_devices(targets@, cnt),
{
    let mut out: Vec<TypedDevice> = Vec::new();
    let n = targets.len();
    let mut i: usize = 0;
    while i < n
        invariant
            n == targets@.len(),
            0 <= i <= n,
            out@ =~= spec_due_devices(targets@.take(i as int), cnt),
        decreases n - i,
    {
        let ghost prefix2 = targets@.take(i as int + 1);
        proof {
            assert(prefix2.drop_last() =~= targets@.take(i as int));
            assert(prefix2.last() == targets@[i as int]);
        }
        let t = targets[i];
        if interval_due(t.interval, cnt) {
            out.push(t.monitor_device);
        }
        i = i + 1;
    }
    proof {
        assert(targets@.take(n as int) =~= targets@);
    }
    out
}

} // verus!
