//! Decisions of the accept loop and of the heartbeat task.
//!
//! Both loops race their work against a shutdown signal that turns on once
//! and never resets. Connections already being served are never cancelled
//! by it: the loop only stops accepting.
use vstd::prelude::*;

verus! {

/// What the accept loop observed.
#[derive(Debug, Clone, Copy, PartialEq, Eq, Structural)]
pub enum ListenerEvent {
    Accepted,
    AcceptFailed,
    ShutdownSignalled,
}

/// What the accept loop does next.
#[derive(Debug, Clone, Copy, PartialEq, Eq, Structural)]
pub enum ListenerAction {
    /// Hand the connection to a task of its own, then accept again.
    Serve,
    /// Log the failure and accept again.
    KeepAccepting,
    /// Stop accepting and return.
    Stop,
}

/// The accept loop's state: whether shutdown has been observed.
#[derive(Debug, Clone, Copy, PartialEq, Eq, Structural)]
pub struct Listener {
    pub stopping: bool,
}

pub open spec fn listener_step(l: Listener, ev: ListenerEvent) -> (Listener, ListenerAction) {
    if l.stopping {
        (l, ListenerAction::Stop)
    } else {
        match ev {
            ListenerEvent::Accepted => (l, ListenerAction::Serve),
            ListenerEvent::AcceptFailed => (l, ListenerAction::KeepAccepting),
            ListenerEvent::ShutdownSignalled => (Listener { stopping: true }, ListenerAction::Stop),
        }
    }
}

impl Listener {
    pub fn new() -> (r: Listener)
        ensures
            !r.stopping,
    {
        Listener { stopping: false }
    }

    /// Reacts to one observation; a failed accept never stops the loop.
    pub fn on_event(&mut self, ev: ListenerEvent) -> (r: ListenerAction)
        ensures
            (*final(self), r) == listener_step(*old(self), ev),
    {
        if self.stopping {
            return ListenerAction::Stop;
        }
        match ev {
            ListenerEvent::Accepted => ListenerAction::Serve,
            ListenerEvent::AcceptFailed => ListenerAction::KeepAccepting,
            ListenerEvent::ShutdownSignalled => {
                self.stopping = true;
                ListenerAction::Stop
            },
        }
    }
}

/// Shutdown is final: once observed, it stays observed and every later
/// event stops the loop.
pub proof fn lemma_shutdown_final(l: Listener, ev: ListenerEvent)
    requires
        l.stopping,
    ensures
        listener_step(l, ev).0.stopping,
        listener_step(l, ev).1 == ListenerAction::Stop,
{
}

/// What a heartbeat round reports.
#[derive(Debug, Clone, Copy, PartialEq, Eq, Structural)]
pub enum HeartbeatReport {
    /// Succeeded, as did the previous round.
    Healthy,
    /// Succeeded after this many failures in a row.
    Recovered(u32),
    /// Failed; this many rounds in a row have now failed.
    Failed(u32),
}

/// Count of heartbeat rounds that failed in a row. A failure never stops
/// the task; the next round comes at the same interval.
#[derive(Debug, Clone, Copy, PartialEq, Eq, Structural)]
pub struct HeartbeatMonitor {
    pub consecutive_failures: u32,
}

pub open spec fn heartbeat_step(m: HeartbeatMonitor, ok: bool) -> (HeartbeatMonitor, HeartbeatReport) {
    if ok {
        (
            HeartbeatMonitor { consecutive_failures: 0 },
            if m.consecutive_failures == 0 {
                HeartbeatReport::Healthy
            } else {
                HeartbeatReport::Recovered(m.consecutive_failures)
            },
        )
    } else {
        let n = if m.consecutive_failures == u32::MAX {
            u32::MAX
        } else {
            (m.consecutive_failures + 1) as u32
        };
        (HeartbeatMonitor { consecutive_failures: n }, HeartbeatReport::Failed(n))
    }
}

impl HeartbeatMonitor {
    pub fn new() -> (r: HeartbeatMonitor)
        ensures
            r.consecutive_failures == 0,
    {
        HeartbeatMonitor { consecutive_failures: 0 }
    }

    /// Records the outcome of one round; the count saturates at `u32::MAX`.
    pub fn record(&mut self, ok: bool) -> (r: HeartbeatReport)
        ensures
            (*final(self), r) == heartbeat_step(*old(self), ok),
    {
        if ok {
            let prev = self.consecutive_failures;
            self.consecutive_failures = 0;
            if prev == 0 {
                HeartbeatReport::Healthy
            } else {
                HeartbeatReport::Recovered(prev)
            }
        } else {
            self.consecutive_failures = self.consecutive_failures.saturating_add(1);
            HeartbeatReport::Failed(self.consecutive_failures)
        }
    }
}

} // verus!
