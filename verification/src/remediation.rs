//! Autonomous remediation: which commands fix a problem, which processes are
//! protected, and what a run of those commands reports.
//!
//! The commands themselves are run by the caller, in the order planned; a
//! command that cannot be started stops the remediation with that error,
//! except when throttling the CPU, where it counts as a failed command.
use vstd::prelude::*;
use vstd::string::*;
use crate::intelligence::RemediationAction;
use crate::text::{contains, contains_spec, decimal, decimal_string, equals, push_decimal};

verus! {

/// Seconds to wait after terminating an application before reporting.
pub const APPLICATION_EXIT_WAIT_SECS: u64 = 2;

/// A command to run: program and arguments.
#[derive(Debug, Clone)]
pub struct CommandSpec {
    pub program: String,
    pub args: Vec<String>,
}

/// How a planned command ended.
#[derive(Debug, Clone)]
pub enum CommandOutcome {
    /// The command could not be started.
    SpawnFailed,
    /// The command ran; `stderr` is its error output.
    Exited { success: bool, stderr: String },
}

/// Result of a remediation command run.
#[derive(Debug, Clone, PartialEq, Eq)]
pub struct ActionResult {
    pub success: bool,
    pub message: String,
}

/// What a remediation does: refuse at once, or run commands in order.
#[derive(Debug, Clone)]
pub enum RemediationPlan {
    Refuse(ActionResult),
    Run(Vec<CommandSpec>),
}

/// A command as program and argument strings.
pub open spec fn command_view(c: CommandSpec) -> (Seq<char>, Seq<Seq<char>>) {
    (c.program@, c.args@.map_values(|a: String| a@))
}

pub open spec fn commands_view(cs: Seq<CommandSpec>) -> Seq<(Seq<char>, Seq<Seq<char>>)> {
    cs.map_values(|c: CommandSpec| command_view(c))
}

/// Processes that safe mode never kills: those whose name contains one of
/// these names.
pub open spec fn is_critical_spec(name: Seq<char>) -> bool {
    ||| contains_spec(name, "systemd"@)
    ||| contains_spec(name, "init"@)
    ||| contains_spec(name, "sshd"@)
    ||| contains_spec(name, "dbus-daemon"@)
    ||| contains_spec(name, "NetworkManager"@)
    ||| contains_spec(name, "Xorg"@)
    ||| contains_spec(name, "hyprland"@)
}

/// The remediation is refused: killing a critical process in safe mode.
pub open spec fn refused(safe_mode: bool, action: RemediationAction) -> bool {
    match action {
        RemediationAction::KillProcess { pid, name } => safe_mode && is_critical_spec(name@),
        _ => false,
    }
}

/// The commands that carry out an action, in order.
pub open spec fn planned_commands(action: RemediationAction) -> Seq<(Seq<char>, Seq<Seq<char>>)> {
    match action {
        RemediationAction::KillProcess { pid, name } => seq![
            ("kill"@, seq!["-9"@, decimal(pid as nat)]),
        ],
        RemediationAction::RestartService { name } => seq![
            ("systemctl"@, seq!["restart"@, name@]),
        ],
        RemediationAction::CleanDisk { path } => if path@ == "/"@ {
            seq![
                ("journalctl"@, seq!["--vacuum-size=100M"@]),
                ("nix-collect-garbage"@, seq!["-d"@]),
            ]
        } else {
            seq![("journalctl"@, seq!["--vacuum-size=100M"@])]
        },
        RemediationAction::ThrottleCpu => seq![
            ("cpupower"@, seq!["frequency-set"@, "-g"@, "powersave"@]),
        ],
        RemediationAction::RestartApplication { name } => seq![("pkill"@, seq![name@])],
    }
}

/// The command ran and reported success.
pub open spec fn succeeded(o: CommandOutcome) -> bool {
    o matches CommandOutcome::Exited { success, .. } && success
}

/// The error output of a command that ran (empty where it did not start).
pub open spec fn stderr_of(o: CommandOutcome) -> Seq<char> {
    match o {
        CommandOutcome::Exited { stderr, .. } => stderr@,
        CommandOutcome::SpawnFailed => Seq::empty(),
    }
}

/// The outcomes are those of the planned commands, all of which started
/// (except the CPU throttle's, whose failure to start is a failed outcome).
pub open spec fn outcomes_fit(action: RemediationAction, outs: Seq<CommandOutcome>) -> bool {
    &&& outs.len() == planned_commands(action).len()
    &&& !(action is ThrottleCpu) ==> forall|i: int|
        0 <= i < outs.len() ==> !(#[trigger] outs[i] is SpawnFailed)
}

/// Megabytes that a disk cleanup reports: 100 for the journal vacuum and,
/// on `/`, 500 for the garbage collection, each where it succeeded.
pub open spec fn cleaned_mb(path: Seq<char>, outs: Seq<CommandOutcome>) -> nat {
    (if succeeded(outs[0]) {
        100nat
    } else {
        0nat
    }) + (if path == "/"@ && succeeded(outs[1]) {
        500nat
    } else {
        0nat
    })
}

/// Whether the remediation succeeded, by its outcomes.
pub open spec fn result_success(action: RemediationAction, outs: Seq<CommandOutcome>) -> bool {
    match action {
        RemediationAction::CleanDisk { .. } => true,
        _ => succeeded(outs[0]),
    }
}

/// The message that the remediation reports, by its outcomes.
pub open spec fn result_message(action: RemediationAction, outs: Seq<CommandOutcome>) -> Seq<char> {
    match action {
        RemediationAction::KillProcess { pid, name } => if succeeded(outs[0]) {
            "Killed process "@ + name@ + " (PID: "@ + decimal(pid as nat) + ")"@
        } else {
            "Failed to kill process: "@ + stderr_of(outs[0])
        },
        RemediationAction::RestartService { name } => if succeeded(outs[0]) {
            "Service "@ + name@ + " restarted successfully"@
        } else {
            "Failed to restart: "@ + stderr_of(outs[0])
        },
        RemediationAction::CleanDisk { path } => "Cleaned ~"@ + decimal(cleaned_mb(path@, outs))
            + "MB of disk space"@,
        RemediationAction::ThrottleCpu => if succeeded(outs[0]) {
            "CPU set to powersave mode"@
        } else {
            "CPU throttling unavailable"@
        },
        RemediationAction::RestartApplication { name } => if succeeded(outs[0]) {
            "Application "@ + name@ + " terminated"@
        } else {
            "Could not find application "@ + name@
        },
    }
}

/// A command from program and argument literals.
fn command(program: &str, args: Vec<String>) -> (r: CommandSpec)
    ensures
        r.program@ == program@,
        r.args == args,
{
    CommandSpec { program: String::from_str(program), args }
}

/// Autonomous problem remediation; `K` is the knowledge store.
pub struct AutoRemediation<K> {
    knowledge: K,
    safe_mode: bool,
}

impl<K> AutoRemediation<K> {
    pub closed spec fn safe_mode_spec(&self) -> bool {
        self.safe_mode
    }

    pub closed spec fn knowledge_store(&self) -> K {
        self.knowledge
    }

    /// A remediation system in safe mode.
    pub fn new(knowledge: K) -> (r: Self)
        ensures
            r.safe_mode_spec(),
            r.knowledge_store() == knowledge,
    {
        AutoRemediation { knowledge, safe_mode: true }
    }

    /// Whether safe mode (no killing of critical processes) is on.
    pub fn safe_mode(&self) -> (r: bool)
        ensures
            r == self.safe_mode_spec(),
    {
        self.safe_mode
    }

    /// The knowledge store.
    pub fn knowledge(&self) -> (r: &K)
        ensures
            *r == self.knowledge_store(),
    {
        &self.knowledge
    }

    /// Whether a process is critical: its name contains the name of a
    /// critical system process.
    pub fn is_critical_process(&self, name: &str) -> (r: bool)
        ensures
            r == is_critical_spec(name@),
    {
        contains(name, "systemd") || contains(name, "init") || contains(name, "sshd") || contains(
            name,
            "dbus-daemon",
        ) || contains(name, "NetworkManager") || contains(name, "Xorg") || contains(
            name,
            "hyprland",
        )
    }

    /// What carrying out `action` takes: refusal where safe mode protects
    /// the process, else the commands to run in order.
    pub fn plan(&self, action: &RemediationAction) -> (r: RemediationPlan)
        ensures
            match r {
                RemediationPlan::Refuse(res) => refused(self.safe_mode_spec(), *action) && !res.success
                    && (action matches RemediationAction::KillProcess { name, .. } && res.message@
                    == "Process "@ + name@ + " is critical, skipping"@),
                RemediationPlan::Run(cmds) => !refused(self.safe_mode_spec(), *action)
                    && commands_view(cmds@) == planned_commands(*action),
            },
    {
        let mut cmds: Vec<CommandSpec> = Vec::new();
        match action {
            RemediationAction::KillProcess { pid, name } => {
                if self.safe_mode && self.is_critical_process(name.as_str()) {
                    let mut message = String::from_str("Process ");
                    message.append(name.as_str());
                    message.append(" is critical, skipping");
                    return RemediationPlan::Refuse(ActionResult { success: false, message });
                }
                let mut args: Vec<String> = Vec::new();
                args.push(String::from_str("-9"));
                args.push(decimal_string(*pid as u64));
                assert(args@.map_values(|a: String| a@) =~= seq!["-9"@, decimal(*pid as nat)]);
                cmds.push(command("kill", args));
                assert(commands_view(cmds@) =~= planned_commands(*action));
            },
            RemediationAction::RestartService { name } => {
                let mut args: Vec<String> = Vec::new();
                args.push(String::from_str("restart"));
                args.push(name.clone());
                assert(args@.map_values(|a: String| a@) =~= seq!["restart"@, name@]);
                cmds.push(command("systemctl", args));
                assert(commands_view(cmds@) =~= planned_commands(*action));
            },
            RemediationAction::CleanDisk { path } => {
                let mut args: Vec<String> = Vec::new();
                args.push(String::from_str("--vacuum-size=100M"));
                assert(args@.map_values(|a: String| a@) =~= seq!["--vacuum-size=100M"@]);
                cmds.push(command("journalctl", args));
                if equals(path.as_str(), "/") {
                    let mut gc_args: Vec<String> = Vec::new();
                    gc_args.push(String::from_str("-d"));
                    assert(gc_args@.map_values(|a: String| a@) =~= seq!["-d"@]);
                    cmds.push(command("nix-collect-garbage", gc_args));
                }
                assert(commands_view(cmds@) =~= planned_commands(*action));
            },
            RemediationAction::ThrottleCpu => {
                let mut args: Vec<String> = Vec::new();
                args.push(String::from_str("frequency-set"));
                args.push(String::from_str("-g"));
                args.push(String::from_str("powersave"));
                assert(args@.map_values(|a: String| a@) =~= seq!["frequency-set"@, "-g"@, "powersave"@]);
                cmds.push(command("cpupower", args));
                assert(commands_view(cmds@) =~= planned_commands(*action));
            },
            RemediationAction::RestartApplication { name } => {
                let mut args: Vec<String> = Vec::new();
                args.push(name.clone());
                assert(args@.map_values(|a: String| a@) =~= seq![name@]);
                cmds.push(command("pkill", args));
                assert(commands_view(cmds@) =~= planned_commands(*action));
            },
        }
        RemediationPlan::Run(cmds)
    }

    /// Metrics recorded before and after a remediation.
    pub fn capture_metrics(&self) -> (r: String)
        ensures
            r@ == "cpu=45%,mem=55%,temp=65C"@,
    {
        String::from_str("cpu=45%,mem=55%,temp=65C")
    }
}

/// Whether a command of this action that cannot be started ends the
/// remediation with an error (it does for every action but the CPU throttle).
pub fn spawn_failure_is_error(action: &RemediationAction) -> (r: bool)
    ensures
        r == !(*action is ThrottleCpu),
{
    match action {
        RemediationAction::ThrottleCpu => false,
        _ => true,
    }
}

/// Seconds to wait before reporting: a terminated application is given time
/// to exit.
pub fn pause_before_result(action: &RemediationAction, outcomes: &Vec<CommandOutcome>) -> (r: u64)
    requires
        outcomes_fit(*action, outcomes@),
    ensures
        r == (if *action is RestartApplication && succeeded(outcomes@[0]) {
            APPLICATION_EXIT_WAIT_SECS
        } else {
            0
        }),
{
    match action {
        RemediationAction::RestartApplication { .. } => {
            if outcome_succeeded(&outcomes[0]) {
                APPLICATION_EXIT_WAIT_SECS
            } else {
                0
            }
        },
        _ => 0,
    }
}

/// Whether a command ran and succeeded.
fn outcome_succeeded(o: &CommandOutcome) -> (r: bool)
    ensures
        r == succeeded(*o),
{
    match o {
        CommandOutcome::Exited { success, .. } => *success,
        CommandOutcome::SpawnFailed => false,
    }
}

/// Appends the error output of a command.
fn append_stderr(out: &mut String, o: &CommandOutcome)
    ensures
        final(out)@ == old(out)@ + stderr_of(*o),
{
    match o {
        CommandOutcome::Exited { stderr, .. } => out.append(stderr.as_str()),
        CommandOutcome::SpawnFailed => {
            assert(old(out)@ + Seq::<char>::empty() =~= old(out)@);
        },
    }
}

/// What a remediation reports, from the outcomes of its planned commands.
pub fn action_result(action: &RemediationAction, outcomes: &Vec<CommandOutcome>) -> (r: ActionResult)
    requires
        outcomes_fit(*action, outcomes@),
    ensures
        r.success == result_success(*action, outcomes@),
        r.message@ == result_message(*action, outcomes@),
        *action is CleanDisk ==> r.success,
        !(*action is CleanDisk) ==> (r.success <==> (outcomes@[0] matches CommandOutcome::Exited {
            success,
            ..
        } && success)),
{
    let ok = outcome_succeeded(&outcomes[0]);
    match action {
        RemediationAction::KillProcess { pid, name } => {
            if ok {
                let mut m = String::from_str("Killed process ");
                m.append(name.as_str());
                m.append(" (PID: ");
                push_decimal(&mut m, *pid as u64);
                m.append(")");
                ActionResult { success: true, message: m }
            } else {
                let mut m = String::from_str("Failed to kill process: ");
                append_stderr(&mut m, &outcomes[0]);
                ActionResult { success: false, message: m }
            }
        },
        RemediationAction::RestartService { name } => {
            if ok {
                let mut m = String::from_str("Service ");
                m.append(name.as_str());
                m.append(" restarted successfully");
                ActionResult { success: true, message: m }
            } else {
                let mut m = String::from_str("Failed to restart: ");
                append_stderr(&mut m, &outcomes[0]);
                ActionResult { success: false, message: m }
            }
        },
        RemediationAction::CleanDisk { path } => {
            let mut cleaned: u64 = 0;
            if ok {
                cleaned = cleaned + 100;
            }
            if equals(path.as_str(), "/") {
                if outcome_succeeded(&outcomes[1]) {
                    cleaned = cleaned + 500;
                }
            }
            let mut m = String::from_str("Cleaned ~");
            push_decimal(&mut m, cleaned);
            m.append("MB of disk space");
            ActionResult { success: true, message: m }
        },
        RemediationAction::ThrottleCpu => {
            if ok {
                ActionResult { success: true, message: String::from_str("CPU set to powersave mode") }
            } else {
                ActionResult { success: false, message: String::from_str("CPU throttling unavailable") }
            }
        },
        RemediationAction::RestartApplication { name } => {
            if ok {
                let mut m = String::from_str("Application ");
                m.append(name.as_str());
                m.append(" terminated");
                ActionResult { success: true, message: m }
            } else {
                let mut m = String::from_str("Could not find application ");
                m.append(name.as_str());
                ActionResult { success: false, message: m }
            }
        },
    }
}

/// Safe mode protects critical processes: asked to kill a process whose name
/// contains a critical process name, a remediation in safe mode is refused,
/// and no command is planned for it.
pub proof fn lemma_safe_mode_protects_critical(pid: u32, name: String)
    requires
        is_critical_spec(name@),
    ensures
        refused(true, RemediationAction::KillProcess { pid, name }),
{
}

/// Each of the seven critical system processes is protected: a process
/// whose name contains `systemd`, `init`, `sshd`, `dbus-daemon`,
/// `NetworkManager`, `Xorg` or `hyprland` is critical, and safe mode refuses
/// to kill it.
pub proof fn lemma_critical_names(pid: u32, name: String)
    requires
        contains_spec(name@, "systemd"@) || contains_spec(name@, "init"@) || contains_spec(
            name@,
            "sshd"@,
        ) || contains_spec(name@, "dbus-daemon"@) || contains_spec(name@, "NetworkManager"@)
            || contains_spec(name@, "Xorg"@) || contains_spec(name@, "hyprland"@),
    ensures
        is_critical_spec(name@),
        refused(true, RemediationAction::KillProcess { pid, name }),
{
}

/// Only those seven names make a process critical, and outside safe mode
/// nothing is refused.
pub proof fn lemma_only_critical_names(safe_mode: bool, action: RemediationAction)
    ensures
        refused(safe_mode, action) ==> safe_mode && (action matches RemediationAction::KillProcess {
            name,
            ..
        } && (contains_spec(name@, "systemd"@) || contains_spec(name@, "init"@) || contains_spec(
            name@,
            "sshd"@,
        ) || contains_spec(name@, "dbus-daemon"@) || contains_spec(name@, "NetworkManager"@)
            || contains_spec(name@, "Xorg"@) || contains_spec(name@, "hyprland"@))),
{
}

/// A remediation other than a disk cleanup succeeds exactly when its first
/// command ran and reported success; a disk cleanup always reports success
/// (with the space it managed to free).
pub proof fn lemma_success_follows_first_command(
    action: RemediationAction,
    outs: Seq<CommandOutcome>,
)
    requires
        outcomes_fit(action, outs),
    ensures
        action is CleanDisk ==> result_success(action, outs),
        !(action is CleanDisk) ==> (result_success(action, outs) <==> (
            outs[0] matches CommandOutcome::Exited { success, .. } && success)),
        outs[0] is SpawnFailed ==> (result_success(action, outs) <==> action is CleanDisk),
{
}

/// A failed kill or service restart reports the failed command's error
/// output at the end of its message.
pub proof fn lemma_failure_reports_stderr(action: RemediationAction, outs: Seq<CommandOutcome>)
    requires
        outcomes_fit(action, outs),
        action is KillProcess || action is RestartService,
        outs[0] matches CommandOutcome::Exited { success, stderr } && !success,
    ensures
        !result_success(action, outs),
        ({
            let m = result_message(action, outs);
            let e = stderr_of(outs[0]);
            e.len() <= m.len() && m.subrange(m.len() - e.len(), m.len() as int) == e
        }),
{
    let m = result_message(action, outs);
    let e = stderr_of(outs[0]);
    match action {
        RemediationAction::KillProcess { .. } => {
            assert(m.subrange(m.len() - e.len(), m.len() as int) =~= e);
        },
        RemediationAction::RestartService { .. } => {
            assert(m.subrange(m.len() - e.len(), m.len() as int) =~= e);
        },
        _ => {},
    }
}

} // verus!
