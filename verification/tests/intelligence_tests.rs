use ai_agent_os::anomaly::AnomalyDetector;
use ai_agent_os::decision::DecisionEngine;
use ai_agent_os::intelligence::{
    remediation_outcome, Decision, RemediationAction, RemediationOutcome, RemediationResult,
    StateManager, StateUpdate,
};
use ai_agent_os::remediation::{
    action_result, pause_before_result, spawn_failure_is_error, AutoRemediation, CommandOutcome,
    RemediationPlan,
};

fn ok() -> CommandOutcome {
    CommandOutcome::Exited { success: true, stderr: String::new() }
}

fn failed(err: &str) -> CommandOutcome {
    CommandOutcome::Exited { success: false, stderr: err.to_string() }
}

fn commands(plan: &RemediationPlan) -> Vec<Vec<String>> {
    match plan {
        RemediationPlan::Run(cmds) => cmds
            .iter()
            .map(|c| {
                let mut v = vec![c.program.clone()];
                v.extend(c.args.iter().cloned());
                v
            })
            .collect(),
        RemediationPlan::Refuse(_) => panic!("refused"),
    }
}

#[test]
fn test_critical_process_detection() {
    let remediation = AutoRemediation::new(());
    assert!(remediation.is_critical_process("systemd"));
    assert!(remediation.is_critical_process("hyprland"));
    assert!(!remediation.is_critical_process("firefox"));
}

#[test]
fn test_service_restartability() {
    let engine = DecisionEngine::new((), ());
    assert!(engine.is_auto_restartable("nginx"));
    assert!(!engine.is_auto_restartable("sshd"));
}

#[test]
fn safe_mode_refuses_to_kill_critical_process() {
    let r = AutoRemediation::new(());
    assert!(r.safe_mode());
    let plan = r.plan(&RemediationAction::KillProcess { pid: 1, name: "systemd-journald".to_string() });
    match plan {
        RemediationPlan::Refuse(res) => {
            assert!(!res.success);
            assert_eq!(res.message, "Process systemd-journald is critical, skipping");
        }
        RemediationPlan::Run(_) => panic!("critical process would be killed"),
    }
}

#[test]
fn plans_the_documented_commands() {
    let r = AutoRemediation::new(());
    let kill = RemediationAction::KillProcess { pid: 4242, name: "firefox".to_string() };
    assert_eq!(commands(&r.plan(&kill)), vec![vec!["kill", "-9", "4242"]]);
    let svc = RemediationAction::RestartService { name: "nginx".to_string() };
    assert_eq!(commands(&r.plan(&svc)), vec![vec!["systemctl", "restart", "nginx"]]);
    let root = RemediationAction::CleanDisk { path: "/".to_string() };
    assert_eq!(
        commands(&r.plan(&root)),
        vec![vec!["journalctl", "--vacuum-size=100M"], vec!["nix-collect-garbage", "-d"]]
    );
    let home = RemediationAction::CleanDisk { path: "/home".to_string() };
    assert_eq!(commands(&r.plan(&home)), vec![vec!["journalctl", "--vacuum-size=100M"]]);
    assert_eq!(
        commands(&r.plan(&RemediationAction::ThrottleCpu)),
        vec![vec!["cpupower", "frequency-set", "-g", "powersave"]]
    );
    let app = RemediationAction::RestartApplication { name: "slack".to_string() };
    assert_eq!(commands(&r.plan(&app)), vec![vec!["pkill", "slack"]]);
}

#[test]
fn results_of_each_action() {
    let kill = RemediationAction::KillProcess { pid: 12345, name: "hog".to_string() };
    let res = action_result(&kill, &vec![ok()]);
    assert!(res.success);
    assert_eq!(res.message, "Killed process hog (PID: 12345)");
    let res = action_result(&kill, &vec![failed("no such process")]);
    assert!(!res.success);
    assert_eq!(res.message, "Failed to kill process: no such process");

    let svc = RemediationAction::RestartService { name: "redis".to_string() };
    assert_eq!(action_result(&svc, &vec![ok()]).message, "Service redis restarted successfully");
    assert_eq!(action_result(&svc, &vec![failed("denied")]).message, "Failed to restart: denied");

    let root = RemediationAction::CleanDisk { path: "/".to_string() };
    let res = action_result(&root, &vec![ok(), ok()]);
    assert!(res.success);
    assert_eq!(res.message, "Cleaned ~600MB of disk space");
    assert_eq!(action_result(&root, &vec![failed(""), ok()]).message, "Cleaned ~500MB of disk space");
    let home = RemediationAction::CleanDisk { path: "/home".to_string() };
    let res = action_result(&home, &vec![failed("")]);
    assert!(res.success);
    assert_eq!(res.message, "Cleaned ~0MB of disk space");

    let cpu = RemediationAction::ThrottleCpu;
    assert_eq!(action_result(&cpu, &vec![ok()]).message, "CPU set to powersave mode");
    let res = action_result(&cpu, &vec![CommandOutcome::SpawnFailed]);
    assert!(!res.success);
    assert_eq!(res.message, "CPU throttling unavailable");

    let app = RemediationAction::RestartApplication { name: "slack".to_string() };
    assert_eq!(action_result(&app, &vec![ok()]).message, "Application slack terminated");
    assert_eq!(action_result(&app, &vec![failed("")]).message, "Could not find application slack");
}

#[test]
fn waits_only_after_terminating_an_application() {
    let app = RemediationAction::RestartApplication { name: "slack".to_string() };
    assert_eq!(pause_before_result(&app, &vec![ok()]), 2);
    assert_eq!(pause_before_result(&app, &vec![failed("")]), 0);
    assert_eq!(pause_before_result(&RemediationAction::ThrottleCpu, &vec![ok()]), 0);
    assert!(spawn_failure_is_error(&app));
    assert!(!spawn_failure_is_error(&RemediationAction::ThrottleCpu));
}

#[test]
fn captured_metrics() {
    assert_eq!(AutoRemediation::new(()).capture_metrics(), "cpu=45%,mem=55%,temp=65C");
}

#[test]
fn autonomy_is_capped() {
    let mut engine = DecisionEngine::new((), ());
    assert_eq!(engine.autonomy_level(), 80);
    engine.set_autonomy(150);
    assert_eq!(engine.autonomy_level(), 100);
    engine.set_autonomy(30);
    assert_eq!(engine.autonomy_level(), 30);
}

#[test]
fn service_and_anomaly_decisions() {
    let engine = DecisionEngine::new((), ());
    assert_eq!(
        engine.decide_service_down("docker.service", true),
        Decision::AutoFix(RemediationAction::RestartService { name: "docker.service".to_string() })
    );
    assert_eq!(
        engine.decide_service_down("docker.service", false),
        Decision::NotifyUser("Service docker.service is down - manual intervention may be needed".to_string())
    );
    assert_eq!(
        engine.decide_service_down("sshd", true),
        Decision::NotifyUser("Service sshd is down - manual intervention may be needed".to_string())
    );
    assert_eq!(
        engine.decide_log_anomaly("CPU anomaly"),
        Decision::NotifyUser("Anomaly detected: CPU anomaly".to_string())
    );
    assert_eq!(
        engine.relieve_memory(true),
        Decision::AutoFix(RemediationAction::KillProcess { pid: 12345, name: "memory-intensive-process".to_string() })
    );
    assert_eq!(
        engine.relieve_memory(false),
        Decision::AutoFix(RemediationAction::KillProcess { pid: 12345, name: "high-memory-process".to_string() })
    );
}

#[test]
fn manual_mode_proposes_instead_of_fixing() {
    let mut engine = DecisionEngine::new((), ());
    engine.set_autonomy(0);
    assert_eq!(
        engine.relieve_memory(true),
        Decision::NotifyUser(
            "Manual mode - approval needed to kill process memory-intensive-process (PID: 12345)"
                .to_string()
        )
    );
    assert_eq!(
        engine.relieve_memory(false),
        Decision::NotifyUser(
            "Manual mode - approval needed to kill process high-memory-process (PID: 12345)".to_string()
        )
    );
    assert_eq!(
        engine.decide_service_down("nginx.service", true),
        Decision::NotifyUser("Manual mode - approval needed to restart service nginx.service".to_string())
    );
    assert_eq!(
        engine.decide_service_down("sshd", true),
        Decision::NotifyUser("Service sshd is down - manual intervention may be needed".to_string())
    );
    assert_eq!(
        engine.authorize(Decision::AutoFix(RemediationAction::ThrottleCpu)),
        Decision::NotifyUser("Manual mode - approval needed to throttle CPU".to_string())
    );
    assert_eq!(
        engine.authorize(Decision::AutoFix(RemediationAction::CleanDisk { path: "/".to_string() })),
        Decision::NotifyUser("Manual mode - approval needed to clean disk /".to_string())
    );
    assert_eq!(
        engine.authorize(Decision::AutoFix(RemediationAction::RestartApplication {
            name: "slack".to_string()
        })),
        Decision::NotifyUser("Manual mode - approval needed to restart application slack".to_string())
    );
    assert_eq!(engine.authorize(Decision::Observe), Decision::Observe);
    assert_eq!(
        engine.authorize(Decision::NotifyUser("hi".to_string())),
        Decision::NotifyUser("hi".to_string())
    );
}

#[test]
fn any_positive_autonomy_lets_fixes_through() {
    let mut engine = DecisionEngine::new((), ());
    engine.set_autonomy(1);
    assert_eq!(
        engine.authorize(Decision::AutoFix(RemediationAction::ThrottleCpu)),
        Decision::AutoFix(RemediationAction::ThrottleCpu)
    );
    assert_eq!(
        engine.decide_service_down("redis", true),
        Decision::AutoFix(RemediationAction::RestartService { name: "redis".to_string() })
    );
}

fn result(success: bool, message: &str) -> RemediationResult {
    RemediationResult {
        success,
        message: message.to_string(),
        metrics_before: "b".to_string(),
        metrics_after: "a".to_string(),
    }
}

#[test]
fn outcomes_of_remediation_attempts() {
    assert_eq!(
        remediation_outcome(Ok(result(true, "CPU set to powersave mode"))),
        RemediationOutcome::Success(result(true, "CPU set to powersave mode"))
    );
    assert_eq!(
        remediation_outcome(Ok(result(false, "Failed to restart: denied"))),
        RemediationOutcome::Failure("Failed to restart: denied".to_string())
    );
    assert_eq!(
        remediation_outcome(Err("spawn failed".to_string())),
        RemediationOutcome::Failure("spawn failed".to_string())
    );
}

#[test]
fn state_history_keeps_latest_thousand() {
    let mut sm: StateManager<u32, ()> = StateManager::new((), (0, 0));
    for i in 0..1005u32 {
        sm.record_snapshot((i as i64, 0), i);
    }
    assert_eq!(sm.history_len(), 1000);
    let recent = sm.get_recent_snapshots(3);
    assert_eq!(recent, vec![&1004, &1003, &1002]);
    assert_eq!(sm.get_recent_snapshots(5000).len(), 1000);
    assert_eq!(*sm.get_recent_snapshots(5000)[999], 5);
}

#[test]
fn cleanup_drops_old_snapshots() {
    let mut sm: StateManager<&str, ()> = StateManager::new((), (0, 0));
    let now = 1_000_000i64;
    sm.record_snapshot((now - 90_000, 0), "old");
    sm.record_snapshot((now - 86_400, 0), "boundary");
    sm.record_snapshot((now - 86_400, 1), "just inside");
    sm.record_snapshot((now - 10, 0), "recent");
    let removed = sm.cleanup_old_data((now, 0));
    assert_eq!(removed, 2);
    assert_eq!(sm.get_recent_snapshots(10), vec![&"recent", &"just inside"]);
    assert_eq!(sm.cleanup_old_data((now, 0)), 0);
}

#[test]
fn counters_and_current_state() {
    let mut sm: StateManager<(), ()> = StateManager::new((), (0, 0));
    sm.update_state(StateUpdate::ProblemDetected);
    sm.update_state(StateUpdate::ProblemDetected);
    sm.update_state(StateUpdate::ProblemFixed);
    sm.update_state(StateUpdate::ActionExecuted("restart nginx".to_string()));
    sm.update_state(StateUpdate::LearningStarted);
    let st = sm.get_current_state(3600);
    assert_eq!(st.problems_detected, 2);
    assert_eq!(st.problems_fixed, 1);
    assert!(st.is_learning);
    assert_eq!(st.uptime_seconds, 3600);
    assert_eq!(st.last_action.as_deref(), Some("restart nginx"));
    sm.update_state(StateUpdate::LearningCompleted);
    assert!(!sm.get_current_state(0).is_learning);
    assert_eq!(sm.get_current_state(-1).uptime_seconds, u64::MAX);
}

#[test]
fn anomaly_windows_and_model_updates() {
    let mut d: AnomalyDetector<f32, &str> = AnomalyDetector::new();
    for i in 0..9 {
        d.add_snapshot(i as f32, 50.0, 65.0);
    }
    d.update_model("cpu", "mem", "temp");
    assert!(d.cpu_baseline().is_none());
    d.add_snapshot(9.0, 50.0, 65.0);
    d.update_model("cpu", "mem", "temp");
    assert_eq!(*d.cpu_baseline(), Some("cpu"));
    assert_eq!(*d.temp_baseline(), Some("temp"));
    for i in 0..60 {
        d.add_snapshot(100.0 + i as f32, 50.0, 65.0);
    }
    assert_eq!(d.cpu_window().len(), 50);
    assert_eq!(d.cpu_window().items().front(), Some(&110.0));
    assert_eq!(d.cpu_window().items().back(), Some(&159.0));
}
