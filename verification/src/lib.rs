//! Verified core of a system-monitoring agent: log records, compositor
//! events, alert bookkeeping, remediation planning and configuration rules.
pub mod text;
pub mod log;
pub mod hyprland;
pub mod history;
pub mod agent;
pub mod intelligence;
pub mod anomaly;
pub mod remediation;
pub mod decision;
pub mod phantom;
pub mod network;
pub mod nats;
pub mod gui;
