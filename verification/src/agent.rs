//! The monitoring agent's shared state: whether it runs, the last metrics
//! collected and the alerts raised, of which only the most recent are kept.
use vstd::prelude::*;
use vstd::string::*;
use crate::history::{keep_last, lemma_keep_last_append};
use crate::text::{decimal, push_decimal};

verus! {

/// The most alerts the agent state keeps.
pub const MAX_ALERTS: usize = 100;

/// Bytes in a mebibyte, the unit of the memory figures in alert details.
pub const BYTES_PER_MB: u64 = 1048576;

#[derive(Debug, Clone, Copy, PartialEq, Eq, Structural)]
pub enum AlertSeverity {
    Info,
    Warning,
    Critical,
}

#[derive(Debug, Clone, Copy, PartialEq, Eq, Structural)]
pub enum AlertCategory {
    Thermal,
    Memory,
    Disk,
    Network,
    System,
    Hyprland,
}

/// System alert.
#[derive(Debug, Clone)]
pub struct Alert {
    pub timestamp: u64,
    pub severity: AlertSeverity,
    pub category: AlertCategory,
    pub message: String,
    pub details: Option<String>,
}

/// Agent state; `M` is the type of a metrics snapshot.
#[derive(Debug, Clone)]
pub struct AgentState<M> {
    pub running: bool,
    pub last_metrics: Option<M>,
    pub alerts: Vec<Alert>,
    pub hyprland_connected: bool,
}

impl<M> AgentState<M> {
    /// The state keeps no more than `MAX_ALERTS` alerts.
    pub open spec fn wf(&self) -> bool {
        self.alerts@.len() <= MAX_ALERTS
    }

    /// The state of an agent that has not started: not running, no metrics,
    /// no alerts, and connected to Hyprland as given.
    pub fn new(hyprland_connected: bool) -> (r: Self)
        ensures
            r.wf(),
            !r.running,
            r.last_metrics is None,
            r.alerts@.len() == 0,
            r.hyprland_connected == hyprland_connected,
    {
        AgentState { running: false, last_metrics: None, alerts: Vec::new(), hyprland_connected }
    }

    /// Records one monitoring cycle: its metrics become the last metrics and
    /// its alerts are appended, the oldest alerts dropped beyond `MAX_ALERTS`.
    pub fn record_cycle(&mut self, metrics: M, new_alerts: Vec<Alert>)
        ensures
            final(self).wf(),
            final(self).last_metrics == Some(metrics),
            final(self).alerts@ == keep_last(old(self).alerts@ + new_alerts@, MAX_ALERTS as nat),
            final(self).running == old(self).running,
            final(self).hyprland_connected == old(self).hyprland_connected,
    {
        self.last_metrics = Some(metrics);
        let mut incoming = new_alerts;
        self.alerts.append(&mut incoming);
        let len = self.alerts.len();
        if len > MAX_ALERTS {
            let tail = self.alerts.split_off(len - MAX_ALERTS);
            self.alerts = tail;
        }
    }
}

/// Whatever cycles are recorded, the state holds the latest `MAX_ALERTS`
/// alerts of all that were raised: recording `b` after `a` keeps what
/// recording `a` and `b` at once keeps.
pub proof fn lemma_alerts_are_latest(kept: Seq<Alert>, a: Seq<Alert>, b: Seq<Alert>)
    ensures
        keep_last(keep_last(kept + a, MAX_ALERTS as nat) + b, MAX_ALERTS as nat) == keep_last(
            kept + a + b,
            MAX_ALERTS as nat,
        ),
{
    lemma_keep_last_append(kept + a, b, MAX_ALERTS as nat);
    assert(kept + a + b =~= (kept + a) + b);
}

/// The details of a high-memory alert: used and total memory in whole MB.
pub open spec fn memory_alert_details_spec(used_bytes: u64, total_bytes: u64) -> Seq<char> {
    "Used: "@ + decimal((used_bytes / BYTES_PER_MB) as nat) + " MB, Total: "@ + decimal(
        (total_bytes / BYTES_PER_MB) as nat,
    ) + " MB"@
}

/// The details of a high-memory alert.
pub fn memory_alert_details(used_bytes: u64, total_bytes: u64) -> (r: String)
    ensures
        r@ == memory_alert_details_spec(used_bytes, total_bytes),
{
    let mut out = String::from_str("Used: ");
    push_decimal(&mut out, used_bytes / BYTES_PER_MB);
    out.append(" MB, Total: ");
    push_decimal(&mut out, total_bytes / BYTES_PER_MB);
    out.append(" MB");
    proof {
        assert(out@ =~= memory_alert_details_spec(used_bytes, total_bytes));
    }
    out
}

} // verus!
