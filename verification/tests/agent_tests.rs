use ai_agent_os::agent::{memory_alert_details, AgentState, Alert, AlertCategory, AlertSeverity};
use ai_agent_os::network::{NetworkInterface, NetworkMetrics};

fn alert(ts: u64) -> Alert {
    Alert {
        timestamp: ts,
        severity: AlertSeverity::Warning,
        category: AlertCategory::Memory,
        message: format!("alert {}", ts),
        details: None,
    }
}

fn iface(name: &str, rx: u64, tx: u64) -> NetworkInterface {
    NetworkInterface { name: name.to_string(), rx_bytes: rx, tx_bytes: tx, rx_packets: 1, tx_packets: 2 }
}

#[test]
fn new_state_is_not_running() {
    let state: AgentState<()> = AgentState::new(true);
    assert!(!state.running);
    assert!(state.hyprland_connected);
    assert!(state.last_metrics.is_none());
    assert!(state.alerts.is_empty());
}

#[test]
fn keeps_only_last_hundred_alerts() {
    let mut state: AgentState<u64> = AgentState::new(false);
    for cycle in 0..30u64 {
        let alerts = (0..7).map(|k| alert(cycle * 7 + k)).collect();
        state.record_cycle(cycle, alerts);
    }
    assert_eq!(state.alerts.len(), 100);
    assert_eq!(state.alerts[0].timestamp, 110);
    assert_eq!(state.alerts[99].timestamp, 209);
    assert_eq!(state.last_metrics, Some(29));
}

#[test]
fn cycle_without_alerts_keeps_alerts() {
    let mut state: AgentState<u8> = AgentState::new(false);
    state.record_cycle(1, vec![alert(1), alert(2)]);
    state.record_cycle(2, vec![]);
    assert_eq!(state.alerts.len(), 2);
    assert_eq!(state.last_metrics, Some(2));
}

#[test]
fn memory_details_in_megabytes() {
    assert_eq!(
        memory_alert_details(8 * 1048576 + 5, 16 * 1048576),
        "Used: 8 MB, Total: 16 MB"
    );
    assert_eq!(memory_alert_details(0, 1048575), "Used: 0 MB, Total: 0 MB");
}

#[test]
fn network_totals() {
    let m = NetworkMetrics::from_interfaces(vec![iface("lo", 10, 20), iface("eth0", 5, 7)]);
    assert_eq!(m.total_rx_bytes, 15);
    assert_eq!(m.total_tx_bytes, 27);
    assert_eq!(m.interfaces.len(), 2);
    let empty = NetworkMetrics::from_interfaces(vec![]);
    assert_eq!(empty.total_rx_bytes, 0);
}

#[test]
fn network_totals_that_overflow_are_refused() {
    let r = NetworkMetrics::try_from_interfaces(vec![iface("a", u64::MAX, 0), iface("b", 1, 0)]);
    assert!(r.is_err());
    let r = NetworkMetrics::try_from_interfaces(vec![iface("a", u64::MAX, 0)]);
    assert_eq!(r.unwrap().total_rx_bytes, u64::MAX);
}
