//! The repair of a port that Windows has reserved.
//!
//! The service that reserves ports is stopped, the port is excluded from
//! reservation for good, and the service is started again. All of it takes an
//! administrator, so a process without these rights starts another with them.

use vstd::prelude::*;

use crate::cli::diagnostics::{DiagnosisModel, PortDiagnosis};
use crate::decimal::{decimal, decimal_text};
use crate::split::{contains, has_part};
use crate::text::{chars_of, trim, trimmed};

verus! {

// ---------------------------------------------------------------------------
// The steps
// ---------------------------------------------------------------------------

/// A command of the repair.
#[derive(Debug)]
pub struct RepairCommand {
    pub label: String,
    pub program: String,
    pub args: Vec<String>,
}

/// The model of a [`RepairCommand`].
pub struct CommandModel {
    pub label: Seq<char>,
    pub program: Seq<char>,
    pub args: Seq<Seq<char>>,
}

impl DeepView for RepairCommand {
    type V = CommandModel;

    open spec fn deep_view(&self) -> CommandModel {
        CommandModel {
            label: self.label@,
            program: self.program@,
            args: self.args.deep_view(),
        }
    }
}

/// The commands of the repair, in order.
pub open spec fn repair_of(port: u16) -> Seq<CommandModel> {
    seq![
        CommandModel {
            label: "停止 winnat 服务"@,
            program: "net"@,
            args: seq!["stop"@, "winnat"@],
        },
        CommandModel {
            label: "添加端口排除"@,
            program: "netsh"@,
            args: seq![
                "int"@,
                "ipv4"@,
                "add"@,
                "excludedportrange"@,
                "protocol=tcp"@,
                "startport="@ + decimal(port as nat),
                "numberofports=1"@,
            ],
        },
        CommandModel {
            label: "启动 winnat 服务"@,
            program: "net"@,
            args: seq!["start"@, "winnat"@],
        },
    ]
}

/// A command with two arguments.
fn service_command(label: &str, verb: &str) -> (r: RepairCommand)
    ensures
        r.deep_view() == (CommandModel {
            label: label@,
            program: "net"@,
            args: seq![verb@, "winnat"@],
        }),
{
    let mut args: Vec<String> = Vec::new();
    args.push(verb.to_string());
    args.push("winnat".to_string());
    assert(args.deep_view() =~= seq![verb@, "winnat"@]);
    RepairCommand { label: label.to_string(), program: "net".to_string(), args }
}

/// The commands of the repair, in order.
pub fn repair_commands(port: u16) -> (r: Vec<RepairCommand>)
    ensures
        r.deep_view() == repair_of(port),
{
    let mut start = "startport=".to_string();
    start.push_str(decimal_text(port as u64).as_str());
    let mut args: Vec<String> = Vec::new();
    args.push("int".to_string());
    args.push("ipv4".to_string());
    args.push("add".to_string());
    args.push("excludedportrange".to_string());
    args.push("protocol=tcp".to_string());
    args.push(start);
    args.push("numberofports=1".to_string());
    assert(args.deep_view() =~= repair_of(port)[1].args);
    let mut out: Vec<RepairCommand> = Vec::new();
    out.push(service_command("停止 winnat 服务", "stop"));
    out.push(
        RepairCommand {
            label: "添加端口排除".to_string(),
            program: "netsh".to_string(),
            args,
        },
    );
    out.push(service_command("启动 winnat 服务", "start"));
    assert(out.deep_view() =~= repair_of(port));
    out
}

/// What a command of the repair led to.
#[derive(Debug)]
pub enum StepResult {
    Done,
    /// The port was excluded before.
    AlreadyExcluded,
    /// The repair is broken off.
    Failed(String),
}

/// The model of a [`StepResult`].
pub enum StepModel {
    Done,
    AlreadyExcluded,
    Failed(Seq<char>),
}

impl DeepView for StepResult {
    type V = StepModel;

    open spec fn deep_view(&self) -> StepModel {
        match self {
            StepResult::Done => StepModel::Done,
            StepResult::AlreadyExcluded => StepModel::AlreadyExcluded,
            StepResult::Failed(message) => StepModel::Failed(message@),
        }
    }
}

/// What the command with this index led to. That the port is excluded already
/// is no failure of the command that excludes it.
pub open spec fn step_result_of(
    index: usize,
    label: Seq<char>,
    success: bool,
    stdout: Seq<char>,
    stderr: Seq<char>,
) -> StepModel {
    if success {
        StepModel::Done
    } else if index == 1 && (has_part(stderr, "已存在"@) || has_part(stderr, "already exists"@)) {
        StepModel::AlreadyExcluded
    } else {
        StepModel::Failed(
            label + " 失败:\n  stdout: "@ + trimmed(stdout) + "\n  stderr: "@ + trimmed(stderr),
        )
    }
}

/// What the command with this index led to.
pub fn step_result(index: usize, label: &str, success: bool, stdout: &str, stderr: &str) -> (r:
    StepResult)
    ensures
        r.deep_view() == step_result_of(index, label@, success, stdout@, stderr@),
{
    if success {
        return StepResult::Done;
    }
    if index == 1 && (contains(stderr, "已存在") || contains(stderr, "already exists")) {
        return StepResult::AlreadyExcluded;
    }
    let mut message = label.to_string();
    message.push_str(" 失败:\n  stdout: ");
    message.push_str(trim(stdout).as_str());
    message.push_str("\n  stderr: ");
    message.push_str(trim(stderr).as_str());
    StepResult::Failed(message)
}

/// What a command that could not be started led to.
pub open spec fn start_failure_of(program: Seq<char>, cause: Seq<char>) -> StepModel {
    StepModel::Failed("执行 "@ + program + " 失败: "@ + cause)
}

/// What a command that could not be started led to.
pub fn start_failure(program: &str, cause: &str) -> (r: StepResult)
    ensures
        r.deep_view() == start_failure_of(program@, cause@),
{
    let mut message = "执行 ".to_string();
    message.push_str(program);
    message.push_str(" 失败: ");
    message.push_str(cause);
    StepResult::Failed(message)
}

/// How many commands the repair has.
pub const REPAIR_STEPS: usize = 3;

/// Where the repair stands.
#[derive(Debug)]
pub enum RepairProgress {
    /// The command with this index is to be run.
    Run(usize),
    /// All is done.
    Done,
    /// A command failed with this message, and no other is run.
    Broken(String),
}

/// The model of a [`RepairProgress`].
pub enum ProgressModel {
    Run(nat),
    Done,
    Broken(Seq<char>),
}

impl DeepView for RepairProgress {
    type V = ProgressModel;

    open spec fn deep_view(&self) -> ProgressModel {
        match self {
            RepairProgress::Run(index) => ProgressModel::Run(*index as nat),
            RepairProgress::Done => ProgressModel::Done,
            RepairProgress::Broken(message) => ProgressModel::Broken(message@),
        }
    }
}

/// Where the repair stands after the command with this index.
pub open spec fn after_command(index: nat, result: StepModel) -> ProgressModel {
    match result {
        StepModel::Failed(message) => ProgressModel::Broken(message),
        _ => if index + 1 < REPAIR_STEPS {
            ProgressModel::Run(index + 1)
        } else {
            ProgressModel::Done
        },
    }
}

/// Decides how the repair goes on after the command with this index: with the
/// next one, unless it failed or was the last.
pub fn next_command(index: usize, result: StepResult) -> (r: RepairProgress)
    ensures
        r.deep_view() == after_command(index as nat, result.deep_view()),
{
    match result {
        StepResult::Failed(message) => RepairProgress::Broken(message),
        _ => if index < REPAIR_STEPS - 1 {
            RepairProgress::Run(index + 1)
        } else {
            RepairProgress::Done
        },
    }
}

/// Where the repair stands after commands with these results.
pub open spec fn after_commands(results: Seq<StepModel>) -> ProgressModel
    decreases results.len(),
{
    if results.len() == 0 {
        ProgressModel::Run(0)
    } else {
        match after_commands(results.drop_last()) {
            ProgressModel::Run(index) => after_command(index, results.last()),
            stopped => stopped,
        }
    }
}

/// As long as no command fails, the next one is run, and after the last the
/// repair is done.
proof fn commands_follow_each_other(results: Seq<StepModel>)
    requires
        forall|i: int| 0 <= i < results.len() ==> !((#[trigger] results[i]) is Failed),
    ensures
        after_commands(results) == if results.len() < REPAIR_STEPS {
            ProgressModel::Run(results.len())
        } else {
            ProgressModel::Done
        },
    decreases results.len(),
{
    if results.len() > 0 {
        let rest = results.drop_last();
        assert forall|i: int| 0 <= i < rest.len() implies !((#[trigger] rest[i]) is Failed) by {
            assert(rest[i] == results[i]);
        }
        commands_follow_each_other(rest);
        assert(!(results[results.len() - 1] is Failed));
    }
}

/// The first command that fails ends the repair with its message: it is the
/// last that is run.
pub proof fn failure_ends_the_repair(results: Seq<StepModel>, k: int, message: Seq<char>)
    requires
        0 <= k < results.len(),
        k < REPAIR_STEPS,
        forall|i: int| 0 <= i < k ==> !((#[trigger] results[i]) is Failed),
        results[k] == StepModel::Failed(message),
    ensures
        after_commands(results.take(k)) == ProgressModel::Run(k as nat),
        after_commands(results) == ProgressModel::Broken(message),
    decreases results.len(),
{
    let before = results.take(k);
    assert forall|i: int| 0 <= i < before.len() implies !((#[trigger] before[i]) is Failed) by {
        assert(before[i] == results[i]);
    }
    commands_follow_each_other(before);
    if k == results.len() - 1 {
        assert(results.drop_last() =~= before);
    } else {
        let rest = results.drop_last();
        assert forall|i: int| 0 <= i < k implies !((#[trigger] rest[i]) is Failed) by {
            assert(rest[i] == results[i]);
        }
        assert(rest[k] == results[k]);
        failure_ends_the_repair(rest, k, message);
    }
}

/// The repair succeeds if and only if each of its commands does, in their
/// order; that the port was excluded before counts as success.
pub proof fn repair_succeeds_with_all_commands(port: u16, results: Seq<StepModel>)
    requires
        results.len() == repair_of(port).len(),
    ensures
        after_commands(results) is Done <==> forall|i: int|
            0 <= i < results.len() ==> !((#[trigger] results[i]) is Failed),
{
    if forall|i: int| 0 <= i < results.len() ==> !((#[trigger] results[i]) is Failed) {
        commands_follow_each_other(results);
    } else {
        let k = first_failure(results);
        failure_ends_the_repair(results, k, results[k]->Failed_0);
    }
}

proof fn first_failure(results: Seq<StepModel>) -> (k: int)
    requires
        exists|i: int| 0 <= i < results.len() && (#[trigger] results[i]) is Failed,
    ensures
        0 <= k < results.len(),
        results[k] is Failed,
        forall|i: int| 0 <= i < k ==> !((#[trigger] results[i]) is Failed),
    decreases results.len(),
{
    let rest = results.drop_last();
    if exists|i: int| 0 <= i < rest.len() && (#[trigger] rest[i]) is Failed {
        let k = first_failure(rest);
        assert forall|i: int| 0 <= i < k implies !((#[trigger] results[i]) is Failed) by {
            assert(rest[i] == results[i]);
        }
        k
    } else {
        assert forall|i: int| 0 <= i < results.len() - 1 implies !((#[trigger] results[i])
            is Failed) by {
            assert(rest[i] == results[i]);
        }
        results.len() - 1
    }
}

/// The commands for a repair by hand.
pub open spec fn manual_of(port: u16) -> Seq<Seq<char>> {
    seq![
        "net stop winnat"@,
        "netsh int ipv4 add excludedportrange protocol=tcp startport="@ + decimal(port as nat)
            + " numberofports=1"@,
        "net start winnat"@,
    ]
}

/// The commands for a repair by hand.
pub fn manual_commands(port: u16) -> (r: Vec<String>)
    ensures
        r.deep_view() == manual_of(port),
{
    let mut exclude =
        "netsh int ipv4 add excludedportrange protocol=tcp startport=".to_string();
    exclude.push_str(decimal_text(port as u64).as_str());
    exclude.push_str(" numberofports=1");
    let mut out: Vec<String> = Vec::new();
    out.push("net stop winnat".to_string());
    out.push(exclude);
    out.push("net start winnat".to_string());
    assert(out.deep_view() =~= manual_of(port));
    out
}

// ---------------------------------------------------------------------------
// More rights
// ---------------------------------------------------------------------------

/// A text with each quote doubled.
pub open spec fn doubled_quotes(s: Seq<char>) -> Seq<char>
    decreases s.len(),
{
    if s.len() == 0 {
        Seq::empty()
    } else if s.last() == '\'' {
        doubled_quotes(s.drop_last()) + seq!['\'', '\'']
    } else {
        doubled_quotes(s.drop_last()).push(s.last())
    }
}

/// A text as a quoted string of PowerShell.
pub open spec fn quoted(s: Seq<char>) -> Seq<char> {
    "'"@ + doubled_quotes(s) + "'"@
}

/// A text with each quote doubled.
fn double_quotes(s: &str) -> (r: String)
    ensures
        r@ == doubled_quotes(s@),
{
    let chars = chars_of(s);
    let mut out = String::new();
    let mut i: usize = 0;
    assert(chars@.take(0) =~= Seq::<char>::empty());
    assert(out@ =~= doubled_quotes(chars@.take(0)));
    while i < chars.len()
        invariant
            chars@ == s@,
            i <= chars@.len(),
            out@ == doubled_quotes(chars@.take(i as int)),
        decreases chars.len() - i,
    {
        let ghost so_far = out@;
        assert(chars@.take(i + 1).drop_last() =~= chars@.take(i as int));
        if chars[i] == '\'' {
            out.push('\'');
            out.push('\'');
            assert(out@ =~= so_far + seq!['\'', '\'']);
        } else {
            out.push(chars[i]);
        }
        i += 1;
    }
    assert(chars@.take(i as int) =~= chars@);
    out
}

/// A text as a quoted string of PowerShell.
pub fn quote(s: &str) -> (r: String)
    ensures
        r@ == quoted(s@),
{
    let mut out = "'".to_string();
    out.push_str(double_quotes(s).as_str());
    out.push_str("'");
    out
}

/// The quoted arguments with commas between them.
pub open spec fn argument_list(args: Seq<Seq<char>>) -> Seq<char>
    decreases args.len(),
{
    if args.len() == 0 {
        Seq::empty()
    } else if args.len() == 1 {
        quoted(args[0])
    } else {
        argument_list(args.drop_last()) + ","@ + quoted(args.last())
    }
}

/// The command that starts `exe` with the rights of an administrator.
pub open spec fn relaunch_of(exe: Seq<char>, args: Seq<Seq<char>>) -> Seq<char> {
    "Start-Process -FilePath "@ + quoted(exe) + " -ArgumentList "@ + (if args.len() == 0 {
        "@()"@
    } else {
        argument_list(args)
    }) + " -Verb RunAs -Wait"@
}

/// The command of PowerShell that starts `exe` with the rights of an
/// administrator.
pub fn relaunch_command(exe: &str, args: &Vec<String>) -> (r: String)
    ensures
        r@ == relaunch_of(exe@, args.deep_view()),
{
    let mut list = String::new();
    let ghost models = args.deep_view();
    let mut i: usize = 0;
    assert(models.take(0) =~= Seq::<Seq<char>>::empty());
    assert(list@ =~= argument_list(models.take(0)));
    while i < args.len()
        invariant
            i <= args@.len(),
            models == args.deep_view(),
            list@ == argument_list(models.take(i as int)),
        decreases args.len() - i,
    {
        assert(models.take(i + 1).drop_last() =~= models.take(i as int));
        assert(models[i as int] == args@[i as int]@);
        if i > 0 {
            list.push_str(",");
        }
        let ghost so_far = list@;
        list.push_str(quote(args[i].as_str()).as_str());
        assert(list@ =~= argument_list(models.take(i + 1)));
        i += 1;
    }
    assert(models.take(i as int) =~= models);
    if args.len() == 0 {
        list = "@()".to_string();
    }
    let mut out = "Start-Process -FilePath ".to_string();
    out.push_str(quote(exe).as_str());
    out.push_str(" -ArgumentList ");
    out.push_str(list.as_str());
    out.push_str(" -Verb RunAs -Wait");
    out
}

/// A text with each pair of quotes made into one.
pub open spec fn single_quotes(s: Seq<char>) -> Seq<char>
    decreases s.len(),
{
    if s.len() == 0 {
        Seq::empty()
    } else if s.len() >= 2 && s[s.len() - 1] == '\'' && s[s.len() - 2] == '\'' {
        single_quotes(s.take(s.len() - 2)).push('\'')
    } else {
        single_quotes(s.drop_last()).push(s.last())
    }
}

/// PowerShell reads a quoted text back as it was.
pub proof fn quoting_is_undone(s: Seq<char>)
    ensures
        single_quotes(doubled_quotes(s)) == s,
    decreases s.len(),
{
    if s.len() > 0 {
        let rest = doubled_quotes(s.drop_last());
        let d = doubled_quotes(s);
        quoting_is_undone(s.drop_last());
        if s.last() == '\'' {
            assert(d.take(d.len() - 2) =~= rest);
        } else {
            assert(d.drop_last() =~= rest);
        }
        assert(single_quotes(d) =~= s.drop_last().push(s.last()));
        assert(s.drop_last().push(s.last()) =~= s);
    }
}

// ---------------------------------------------------------------------------
// The course of the repair
// ---------------------------------------------------------------------------

/// What the repair does next.
#[derive(Debug)]
pub enum RepairAction {
    /// Find out why the port cannot be used.
    Diagnose,
    /// Find out whether this process has the rights of an administrator.
    CheckRights { range: (u16, u16) },
    /// Start a process that has them.
    Relaunch,
    /// Run the commands of the repair.
    Repair,
    /// Find out whether the port can be used now.
    Verify,
    /// Stop.
    Stop(RepairOutcome),
}

/// How the repair ended.
#[derive(Debug)]
pub enum RepairOutcome {
    /// A process holds the port; processes are not ended here.
    HeldByProcess { pid: u32, name: String },
    /// Nothing is wrong with the port.
    NotNeeded,
    /// A process with more rights has done it.
    DoneByOther,
    /// No process with more rights could be started.
    NoRights(String),
    /// A command failed.
    Broken(String),
    /// The port is still reserved.
    StillReserved,
    /// The port can be used.
    Fixed,
}

/// What the action before led to.
#[derive(Debug)]
pub enum RepairEvent {
    Diagnosed(PortDiagnosis),
    Rights(bool),
    Relaunched(Result<(), String>),
    Repaired(Result<(), String>),
}

/// The model of a [`RepairOutcome`].
pub enum OutcomeModel {
    HeldByProcess { pid: u32, name: Seq<char> },
    NotNeeded,
    DoneByOther,
    NoRights(Seq<char>),
    Broken(Seq<char>),
    StillReserved,
    Fixed,
}

impl DeepView for RepairOutcome {
    type V = OutcomeModel;

    open spec fn deep_view(&self) -> OutcomeModel {
        match self {
            RepairOutcome::HeldByProcess { pid, name } => OutcomeModel::HeldByProcess {
                pid: *pid,
                name: name@,
            },
            RepairOutcome::NotNeeded => OutcomeModel::NotNeeded,
            RepairOutcome::DoneByOther => OutcomeModel::DoneByOther,
            RepairOutcome::NoRights(cause) => OutcomeModel::NoRights(cause@),
            RepairOutcome::Broken(cause) => OutcomeModel::Broken(cause@),
            RepairOutcome::StillReserved => OutcomeModel::StillReserved,
            RepairOutcome::Fixed => OutcomeModel::Fixed,
        }
    }
}

/// The model of a [`RepairAction`].
pub enum ActionModel {
    Diagnose,
    CheckRights { range: (u16, u16) },
    Relaunch,
    Repair,
    Verify,
    Stop(OutcomeModel),
}

impl DeepView for RepairAction {
    type V = ActionModel;

    open spec fn deep_view(&self) -> ActionModel {
        match self {
            RepairAction::Diagnose => ActionModel::Diagnose,
            RepairAction::CheckRights { range } => ActionModel::CheckRights { range: *range },
            RepairAction::Relaunch => ActionModel::Relaunch,
            RepairAction::Repair => ActionModel::Repair,
            RepairAction::Verify => ActionModel::Verify,
            RepairAction::Stop(outcome) => ActionModel::Stop(outcome.deep_view()),
        }
    }
}

/// What the repair does after an action that led to `event`. An event that
/// the action cannot lead to changes nothing.
pub open spec fn after_repair_event(action: ActionModel, event: RepairEvent) -> ActionModel {
    match (action, event) {
        (ActionModel::Diagnose, RepairEvent::Diagnosed(diagnosis)) => match diagnosis.deep_view() {
            DiagnosisModel::WindowsReserved { reserved_range, .. } => ActionModel::CheckRights {
                range: reserved_range,
            },
            DiagnosisModel::HeldByProcess { pid, name, .. } => ActionModel::Stop(
                OutcomeModel::HeldByProcess { pid, name },
            ),
            DiagnosisModel::Unknown { .. } => ActionModel::Stop(OutcomeModel::NotNeeded),
        },
        (ActionModel::CheckRights { .. }, RepairEvent::Rights(elevated)) => if elevated {
            ActionModel::Repair
        } else {
            ActionModel::Relaunch
        },
        (ActionModel::Relaunch, RepairEvent::Relaunched(result)) => match result {
            Ok(_) => ActionModel::Stop(OutcomeModel::DoneByOther),
            Err(cause) => ActionModel::Stop(OutcomeModel::NoRights(cause@)),
        },
        (ActionModel::Repair, RepairEvent::Repaired(result)) => match result {
            Ok(_) => ActionModel::Verify,
            Err(cause) => ActionModel::Stop(OutcomeModel::Broken(cause@)),
        },
        (ActionModel::Verify, RepairEvent::Diagnosed(diagnosis)) => match diagnosis.deep_view() {
            DiagnosisModel::WindowsReserved { .. } => ActionModel::Stop(
                OutcomeModel::StillReserved,
            ),
            _ => ActionModel::Stop(OutcomeModel::Fixed),
        },
        _ => action,
    }
}

impl RepairAction {
    /// What the repair does after this action, which led to `event`.
    pub fn next(self, event: RepairEvent) -> (r: RepairAction)
        ensures
            r.deep_view() == after_repair_event(self.deep_view(), event),
    {
        match (self, event) {
            (RepairAction::Diagnose, RepairEvent::Diagnosed(diagnosis)) => match diagnosis {
                PortDiagnosis::WindowsReserved { reserved_range, .. } =>
                    RepairAction::CheckRights { range: reserved_range },
                PortDiagnosis::HeldByProcess { pid, name, .. } => RepairAction::Stop(
                    RepairOutcome::HeldByProcess { pid, name },
                ),
                PortDiagnosis::Unknown { .. } => RepairAction::Stop(RepairOutcome::NotNeeded),
            },
            (RepairAction::CheckRights { .. }, RepairEvent::Rights(elevated)) => if elevated {
                RepairAction::Repair
            } else {
                RepairAction::Relaunch
            },
            (RepairAction::Relaunch, RepairEvent::Relaunched(result)) => match result {
                Ok(_) => RepairAction::Stop(RepairOutcome::DoneByOther),
                Err(cause) => RepairAction::Stop(RepairOutcome::NoRights(cause)),
            },
            (RepairAction::Repair, RepairEvent::Repaired(result)) => match result {
                Ok(_) => RepairAction::Verify,
                Err(cause) => RepairAction::Stop(RepairOutcome::Broken(cause)),
            },
            (RepairAction::Verify, RepairEvent::Diagnosed(diagnosis)) => match diagnosis {
                PortDiagnosis::WindowsReserved { .. } => RepairAction::Stop(
                    RepairOutcome::StillReserved,
                ),
                _ => RepairAction::Stop(RepairOutcome::Fixed),
            },
            (action, _) => action,
        }
    }
}

/// The repair commands run only for a port that is reserved, and only with the
/// rights that they take.
pub proof fn repair_needs_reservation_and_rights(action: ActionModel, event: RepairEvent)
    requires
        after_repair_event(action, event) is Repair,
        !(action is Repair),
    ensures
        action is CheckRights,
        event == RepairEvent::Rights(true),
{
}

/// Only a reserved port leads to the question for rights.
pub proof fn only_reserved_ports_are_repaired(action: ActionModel, event: RepairEvent)
    requires
        after_repair_event(action, event) is CheckRights,
        !(action is CheckRights),
    ensures
        action is Diagnose,
        event matches RepairEvent::Diagnosed(diagnosis) && diagnosis.deep_view()
            is WindowsReserved,
{
}

} // verus!
