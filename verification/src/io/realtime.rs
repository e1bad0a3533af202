//! Real-time settings of the IO thread.

use vstd::prelude::*;

verus! {

/// Real-time settings applied to the IO thread when it starts. Linux only;
/// on other platforms any non-default setting makes the thread fail to start.
///
/// These affect only the IO thread. Process-wide settings, such as
/// `mlockall`, are left to the application.
#[derive(Debug, Clone, PartialEq, Eq)]
pub struct RealtimeConfig {
    /// Run the IO thread under `SCHED_FIFO` at this priority (1-99). Needs
    /// `CAP_SYS_NICE` or an `rtprio` limit.
    pub fifo_priority: Option<i32>,
    /// Pin the IO thread to these CPUs.
    pub cpu_affinity: Vec<usize>,
    /// Timer slack for the IO thread, nanoseconds. The kernel default of 50 µs
    /// delays every wakeup by up to that much; `SCHED_FIFO` threads ignore it.
    pub timer_slack_ns: Option<u64>,
}

impl Default for RealtimeConfig {
    /// No priority, no affinity, the kernel's timer slack.
    fn default() -> (r: Self)
        ensures
            r.fifo_priority is None,
            r.cpu_affinity@.len() == 0,
            r.timer_slack_ns is None,
    {
        RealtimeConfig { fifo_priority: None, cpu_affinity: Vec::new(), timer_slack_ns: None }
    }
}

impl RealtimeConfig {
    /// Nothing is set: the thread runs as any other.
    pub fn is_default(&self) -> (r: bool)
        ensures
            r == (self.fifo_priority is None && self.cpu_affinity@.len() == 0 && self.timer_slack_ns is None),
    {
        self.fifo_priority.is_none() && self.cpu_affinity.len() == 0 && self.timer_slack_ns.is_none()
    }
}

} // verus!
