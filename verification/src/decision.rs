//! The decision engine's settings and the decisions it makes without
//! looking at a measured value: restarting services that are safe to
//! restart, and reporting anomalies to the user.
//!
//! The autonomy level gates every automatic fix: at level 0 (manual) a fix
//! is proposed to the user instead of applied.  Decisions on measured
//! percentages and temperatures compare floating point values and are
//! taken by the caller, which passes them through `authorize`.
use vstd::prelude::*;
use vstd::string::*;
use crate::intelligence::{Decision, RemediationAction};
use crate::text::{contains, contains_spec, decimal, push_decimal};

verus! {

/// The autonomy level a new engine starts with.
pub const DEFAULT_AUTONOMY: u8 = 80;

/// The highest autonomy level (full autonomy).
pub const MAX_AUTONOMY: u8 = 100;

/// The process id used for the process to kill under memory pressure.
pub const MEMORY_HOG_PID: u32 = 12345;

/// Services that may be restarted without asking: those whose name contains
/// one of these names.
pub open spec fn is_auto_restartable_spec(service: Seq<char>) -> bool {
    ||| contains_spec(service, "nginx"@)
    ||| contains_spec(service, "docker"@)
    ||| contains_spec(service, "postgresql"@)
    ||| contains_spec(service, "redis"@)
}

/// How a fix is named when it is proposed to the user.
pub open spec fn action_description(a: RemediationAction) -> Seq<char> {
    match a {
        RemediationAction::KillProcess { pid, name } => "kill process "@ + name@ + " (PID: "@
            + decimal(pid as nat) + ")"@,
        RemediationAction::RestartService { name } => "restart service "@ + name@,
        RemediationAction::CleanDisk { path } => "clean disk "@ + path@,
        RemediationAction::ThrottleCpu => "throttle CPU"@,
        RemediationAction::RestartApplication { name } => "restart application "@ + name@,
    }
}

/// The notice that proposes a fix to the user in manual mode.
pub open spec fn manual_notice(a: RemediationAction) -> Seq<char> {
    "Manual mode - approval needed to "@ + action_description(a)
}

/// `r` is the decision `d` under autonomy `level`: at level 0 (manual) an
/// automatic fix becomes a notice that proposes it; otherwise `d` stands.
pub open spec fn authorized(level: u8, d: Decision, r: Decision) -> bool {
    match d {
        Decision::AutoFix(a) => if level == 0 {
            r matches Decision::NotifyUser(msg) && msg@ == manual_notice(a)
        } else {
            r == d
        },
        _ => r == d,
    }
}

/// The decision for a service that is down, under autonomy `level`.
pub open spec fn service_down_decision(
    level: u8,
    service: Seq<char>,
    history_confident: bool,
    d: Decision,
) -> bool {
    if is_auto_restartable_spec(service) && history_confident {
        if level == 0 {
            d matches Decision::NotifyUser(msg) && msg@ == "Manual mode - approval needed to "@
                + "restart service "@ + service
        } else {
            d matches Decision::AutoFix(RemediationAction::RestartService { name }) && name@
                == service
        }
    } else {
        d matches Decision::NotifyUser(msg) && msg@ == "Service "@ + service
            + " is down - manual intervention may be needed"@
    }
}

/// The name of the process killed under memory pressure.
pub open spec fn memory_hog_name(critical: bool) -> Seq<char> {
    if critical {
        "memory-intensive-process"@
    } else {
        "high-memory-process"@
    }
}

/// The decision to relieve memory pressure under autonomy `level`: kill the
/// memory hog, or, in manual mode, propose killing it.
pub open spec fn memory_relief_decision(level: u8, critical: bool, d: Decision) -> bool {
    if level == 0 {
        d matches Decision::NotifyUser(msg) && msg@ == "Manual mode - approval needed to "@
            + "kill process "@ + memory_hog_name(critical) + " (PID: "@ + decimal(
            MEMORY_HOG_PID as nat,
        ) + ")"@
    } else {
        d matches Decision::AutoFix(RemediationAction::KillProcess { pid, name }) && pid
            == MEMORY_HOG_PID && name@ == memory_hog_name(critical)
    }
}

/// How a fix is named when it is proposed to the user.
pub fn describe_action(a: &RemediationAction) -> (r: String)
    ensures
        r@ == action_description(*a),
{
    match a {
        RemediationAction::KillProcess { pid, name } => {
            let mut out = String::from_str("kill process ");
            out.append(name.as_str());
            out.append(" (PID: ");
            push_decimal(&mut out, *pid as u64);
            out.append(")");
            out
        },
        RemediationAction::RestartService { name } => {
            let mut out = String::from_str("restart service ");
            out.append(name.as_str());
            out
        },
        RemediationAction::CleanDisk { path } => {
            let mut out = String::from_str("clean disk ");
            out.append(path.as_str());
            out
        },
        RemediationAction::ThrottleCpu => String::from_str("throttle CPU"),
        RemediationAction::RestartApplication { name } => {
            let mut out = String::from_str("restart application ");
            out.append(name.as_str());
            out
        },
    }
}

/// Above level 0 the autonomy gate leaves every decision as it is.
pub proof fn lemma_autonomous_mode_keeps_decision(level: u8, d: Decision, r: Decision)
    requires
        level > 0,
        authorized(level, d, r),
    ensures
        r == d,
{
}

/// Intelligent decision making engine; `S` is the state manager handle and
/// `K` the knowledge store.
pub struct DecisionEngine<S, K> {
    state: S,
    knowledge: K,
    autonomy_level: u8,
}

impl<S, K> DecisionEngine<S, K> {
    pub closed spec fn autonomy(&self) -> u8 {
        self.autonomy_level
    }

    pub closed spec fn state_handle(&self) -> S {
        self.state
    }

    pub closed spec fn knowledge_store(&self) -> K {
        self.knowledge
    }

    /// The autonomy level is at most `MAX_AUTONOMY`.
    pub closed spec fn wf(&self) -> bool {
        self.autonomy_level <= MAX_AUTONOMY
    }

    /// An engine with the default autonomy level.
    pub fn new(state: S, knowledge: K) -> (r: Self)
        ensures
            r.wf(),
            r.autonomy() == DEFAULT_AUTONOMY,
            r.state_handle() == state,
            r.knowledge_store() == knowledge,
    {
        DecisionEngine { state, knowledge, autonomy_level: DEFAULT_AUTONOMY }
    }

    /// Sets the autonomy level, capped at `MAX_AUTONOMY`.
    pub fn set_autonomy(&mut self, level: u8)
        ensures
            final(self).wf(),
            final(self).autonomy() == if level < MAX_AUTONOMY {
                level
            } else {
                MAX_AUTONOMY
            },
            final(self).state_handle() == old(self).state_handle(),
            final(self).knowledge_store() == old(self).knowledge_store(),
    {
        self.autonomy_level = if level < MAX_AUTONOMY {
            level
        } else {
            MAX_AUTONOMY
        };
    }

    /// The autonomy level.
    pub fn autonomy_level(&self) -> (r: u8)
        ensures
            r == self.autonomy(),
    {
        self.autonomy_level
    }

    /// The state manager handle.
    pub fn state(&self) -> (r: &S)
        ensures
            *r == self.state_handle(),
    {
        &self.state
    }

    /// The knowledge store.
    pub fn knowledge(&self) -> (r: &K)
        ensures
            *r == self.knowledge_store(),
    {
        &self.knowledge
    }

    /// Whether a service can be restarted without asking.
    pub fn is_auto_restartable(&self, service: &str) -> (r: bool)
        ensures
            r == is_auto_restartable_spec(service@),
            r <==> (contains_spec(service@, "nginx"@) || contains_spec(service@, "docker"@)
                || contains_spec(service@, "postgresql"@) || contains_spec(service@, "redis"@)),
    {
        contains(service, "nginx") || contains(service, "docker") || contains(service, "postgresql")
            || contains(service, "redis")
    }

    /// The process to kill under memory pressure.
    pub fn find_memory_hog(&self) -> (r: u32)
        ensures
            r == MEMORY_HOG_PID,
    {
        MEMORY_HOG_PID
    }

    /// Passes a decision through the autonomy gate: in manual mode an
    /// automatic fix is turned into a notice that proposes it.
    pub fn authorize(&self, d: Decision) -> (r: Decision)
        ensures
            authorized(self.autonomy(), d, r),
    {
        if self.autonomy_level == 0 {
            match d {
                Decision::AutoFix(action) => {
                    let mut msg = String::from_str("Manual mode - approval needed to ");
                    let desc = describe_action(&action);
                    msg.append(desc.as_str());
                    Decision::NotifyUser(msg)
                },
                other => other,
            }
        } else {
            d
        }
    }

    /// Relieving memory pressure: kill the memory hog, named after how
    /// critical the pressure is (proposed only, in manual mode).
    pub fn relieve_memory(&self, critical: bool) -> (r: Decision)
        ensures
            memory_relief_decision(self.autonomy(), critical, r),
    {
        let name = if critical {
            String::from_str("memory-intensive-process")
        } else {
            String::from_str("high-memory-process")
        };
        let ghost n = name@;
        let proposal = Decision::AutoFix(
            RemediationAction::KillProcess { pid: self.find_memory_hog(), name },
        );
        proof {
            assert("Manual mode - approval needed to "@ + ("kill process "@ + n + " (PID: "@
                + decimal(MEMORY_HOG_PID as nat) + ")"@) =~= "Manual mode - approval needed to "@
                + "kill process "@ + n + " (PID: "@ + decimal(MEMORY_HOG_PID as nat) + ")"@);
        }
        self.authorize(proposal)
    }

    /// The decision for a service that is down: restart it where it is safe
    /// to restart and past fixes were reliable enough (proposed only, in
    /// manual mode), else ask the user.
    pub fn decide_service_down(&self, service: &str, history_confident: bool) -> (r: Decision)
        ensures
            service_down_decision(self.autonomy(), service@, history_confident, r),
    {
        if self.is_auto_restartable(service) && history_confident {
            let proposal = Decision::AutoFix(
                RemediationAction::RestartService { name: String::from_str(service) },
            );
            proof {
                assert("Manual mode - approval needed to "@ + ("restart service "@ + service@)
                    =~= "Manual mode - approval needed to "@ + "restart service "@ + service@);
            }
            self.authorize(proposal)
        } else {
            let mut msg = String::from_str("Service ");
            msg.append(service);
            msg.append(" is down - manual intervention may be needed");
            Decision::NotifyUser(msg)
        }
    }

    /// The decision for an anomaly in the logs: it is reported to the user.
    pub fn decide_log_anomaly(&self, pattern: &str) -> (r: Decision)
        ensures
            r matches Decision::NotifyUser(msg) && msg@ == "Anomaly detected: "@ + pattern@,
    {
        let mut msg = String::from_str("Anomaly detected: ");
        msg.append(pattern);
        Decision::NotifyUser(msg)
    }
}

/// A service that is not safe to restart is never restarted automatically,
/// however reliable past fixes were.
pub proof fn lemma_unsafe_service_never_restarted(
    level: u8,
    service: Seq<char>,
    history_confident: bool,
    d: Decision,
)
    requires
        !is_auto_restartable_spec(service),
        service_down_decision(level, service, history_confident, d),
    ensures
        d is NotifyUser,
{
}

/// An engine in manual mode (autonomy 0) never decides on an automatic fix:
/// not when relieving memory, not for a service that is down, and not for a
/// decision passed through its autonomy gate.
pub proof fn lemma_manual_engine_never_fixes(
    critical: bool,
    service: Seq<char>,
    history_confident: bool,
    proposal: Decision,
    memory: Decision,
    down: Decision,
    gated: Decision,
)
    requires
        memory_relief_decision(0, critical, memory),
        service_down_decision(0, service, history_confident, down),
        authorized(0, proposal, gated),
    ensures
        !(memory is AutoFix),
        !(down is AutoFix),
        !(gated is AutoFix),
{
}

/// A service whose name contains one of the four safe service names
/// (`nginx`, `docker`, `postgresql`, `redis`) is restarted automatically
/// when it is down and past fixes were reliable, at any autonomy level above
/// manual; in manual mode the restart is proposed to the user.
pub proof fn lemma_safe_services_restarted(
    level: u8,
    service: Seq<char>,
    d: Decision,
)
    requires
        contains_spec(service, "nginx"@) || contains_spec(service, "docker"@) || contains_spec(
            service,
            "postgresql"@,
        ) || contains_spec(service, "redis"@),
        service_down_decision(level, service, true, d),
    ensures
        is_auto_restartable_spec(service),
        level > 0 ==> (d matches Decision::AutoFix(RemediationAction::RestartService { name })
            && name@ == service),
        level == 0 ==> (d matches Decision::NotifyUser(msg) && msg@
            == "Manual mode - approval needed to restart service "@ + service),
{
    reveal_strlit("Manual mode - approval needed to restart service ");
    reveal_strlit("Manual mode - approval needed to ");
    reveal_strlit("restart service ");
    assert("Manual mode - approval needed to "@ + "restart service "@ + service
        =~= "Manual mode - approval needed to restart service "@ + service);
}

/// Without reliable past fixes, or for a service that is not among the safe
/// ones, a down service is only reported to the user.
pub proof fn lemma_down_service_reported(
    level: u8,
    service: Seq<char>,
    history_confident: bool,
    d: Decision,
)
    requires
        !history_confident || !(contains_spec(service, "nginx"@) || contains_spec(
            service,
            "docker"@,
        ) || contains_spec(service, "postgresql"@) || contains_spec(service, "redis"@)),
        service_down_decision(level, service, history_confident, d),
    ensures
        d matches Decision::NotifyUser(msg) && msg@ == "Service "@ + service
            + " is down - manual intervention may be needed"@,
{
}

/// Above manual mode, memory pressure is relieved by killing the memory
/// hog (process 12345), whose name says how critical the pressure was.
pub proof fn lemma_autonomous_memory_relief(level: u8, critical: bool, d: Decision)
    requires
        level > 0,
        memory_relief_decision(level, critical, d),
    ensures
        d matches Decision::AutoFix(RemediationAction::KillProcess { pid, name }) && pid == 12345
            && (critical ==> name@ == "memory-intensive-process"@) && (!critical ==> name@
            == "high-memory-process"@),
{
}

} // verus!
