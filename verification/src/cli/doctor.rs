//! The check-up.

use vstd::prelude::*;

use crate::cli::daemon::DEFAULT_PORT;
use crate::cli::diagnostics::{in_range, DiagnosisModel, PortDiagnosis};
use crate::config::ProxyConfig;

verus! {

/// How many reserved ranges are shown.
pub const SHOWN_RANGES: usize = 10;

/// The settings that the check-up goes by.
pub open spec fn settings_for_check(
    file: Option<Result<ProxyConfig, String>>,
    environment: Result<ProxyConfig, String>,
) -> Option<ProxyConfig> {
    match file {
        Some(Ok(config)) => Some(config),
        _ => match environment {
            Ok(config) => Some(config),
            Err(_) => None,
        },
    }
}

/// The settings, where there are any: those of the settings file if it can be
/// read, and else those of the environment.
pub fn load_config(
    file: Option<Result<ProxyConfig, String>>,
    environment: Result<ProxyConfig, String>,
) -> (r: Option<ProxyConfig>)
    ensures
        r == match file {
            Some(Ok(config)) => Some(config),
            _ => match environment {
                Ok(config) => Some(config),
                Err(_) => None,
            },
        },
        r == settings_for_check(file, environment),
{
    match file {
        Some(Ok(config)) => Some(config),
        _ => match environment {
            Ok(config) => Some(config),
            Err(_) => None,
        },
    }
}

/// The port that is looked at: that of the settings, or else the default.
pub open spec fn checked_port(config: Option<ProxyConfig>) -> u16 {
    match config {
        Some(config) => config.port,
        None => DEFAULT_PORT,
    }
}

/// The port that is looked at.
pub fn port_to_check(config: &Option<ProxyConfig>) -> (r: u16)
    ensures
        r == checked_port(*config),
{
    match config {
        Some(config) => config.port,
        None => DEFAULT_PORT,
    }
}

/// What is said of the process.
#[derive(Debug, Clone, Copy, PartialEq, Eq, Structural)]
#[allow(inconsistent_fields)]
pub enum ProcessStatus {
    /// The proxy answers; its process id is recorded or not.
    Running { pid: Option<u32> },
    /// The proxy does not answer, and no process is recorded.
    Stopped,
    /// The recorded process runs but does not answer.
    Silent { pid: u32 },
    /// The recorded process has ended.
    Gone { pid: u32 },
}

/// What is said of the process. `recorded` is the recorded process id, and
/// whether that process runs.
pub open spec fn process_status_of(
    running: bool,
    recorded: Option<(u32, bool)>,
) -> ProcessStatus {
    if running {
        ProcessStatus::Running {
            pid: match recorded {
                Some((pid, _)) => Some(pid),
                None => None,
            },
        }
    } else {
        match recorded {
            Some((pid, alive)) => if alive {
                ProcessStatus::Silent { pid }
            } else {
                ProcessStatus::Gone { pid }
            },
            None => ProcessStatus::Stopped,
        }
    }
}

/// What is said of the process.
pub fn process_status(running: bool, recorded: Option<(u32, bool)>) -> (r: ProcessStatus)
    ensures
        r == process_status_of(running, recorded),
{
    if running {
        match recorded {
            Some((pid, _)) => ProcessStatus::Running { pid: Some(pid) },
            None => ProcessStatus::Running { pid: None },
        }
    } else {
        match recorded {
            Some((pid, alive)) => if alive {
                ProcessStatus::Silent { pid }
            } else {
                ProcessStatus::Gone { pid }
            },
            None => ProcessStatus::Stopped,
        }
    }
}

/// What is said of the port.
#[derive(Debug)]
pub enum PortStatus {
    /// Something is wrong with it.
    Trouble(PortDiagnosis),
    /// The proxy holds it itself.
    OwnPort { pid: u32, name: String },
    /// It is free; `running` says whether the proxy answers.
    Free { running: bool },
}

/// The model of a [`PortStatus`].
pub enum PortStatusModel {
    Trouble(DiagnosisModel),
    OwnPort { pid: u32, name: Seq<char> },
    Free { running: bool },
}

impl DeepView for PortStatus {
    type V = PortStatusModel;

    open spec fn deep_view(&self) -> PortStatusModel {
        match self {
            PortStatus::Trouble(diagnosis) => PortStatusModel::Trouble(diagnosis.deep_view()),
            PortStatus::OwnPort { pid, name } => PortStatusModel::OwnPort { pid: *pid, name: name@ },
            PortStatus::Free { running } => PortStatusModel::Free { running: *running },
        }
    }
}

/// What is said of the port. That the recorded process holds it is no trouble.
pub open spec fn port_status_of(
    diagnosis: DiagnosisModel,
    running: bool,
    recorded: Option<(u32, bool)>,
) -> PortStatusModel {
    match diagnosis {
        DiagnosisModel::WindowsReserved { .. } => PortStatusModel::Trouble(diagnosis),
        DiagnosisModel::HeldByProcess { pid, name, .. } => match recorded {
            Some((own, _)) => if own == pid {
                PortStatusModel::OwnPort { pid, name }
            } else {
                PortStatusModel::Trouble(diagnosis)
            },
            None => PortStatusModel::Trouble(diagnosis),
        },
        DiagnosisModel::Unknown { .. } => PortStatusModel::Free { running },
    }
}

/// A line about a reserved range.
#[derive(Debug, Clone, Copy, PartialEq, Eq, Structural)]
pub struct RangeLine {
    pub number: usize,
    pub start: u16,
    pub end: u16,
    /// How many ports it holds.
    pub count: u32,
    /// Whether the port is one of them.
    pub hit: bool,
}

/// The line about the range with this index.
pub open spec fn range_line(index: int, range: (u16, u16), port: u16) -> RangeLine {
    RangeLine {
        number: (index + 1) as usize,
        start: range.0,
        end: range.1,
        count: (range.1 - range.0 + 1) as u32,
        hit: in_range(port, range),
    }
}

/// The lines about the reserved ranges, of which only the first are shown.
pub open spec fn range_lines(ranges: Seq<(u16, u16)>, port: u16) -> Seq<RangeLine> {
    Seq::new(
        if ranges.len() <= SHOWN_RANGES {
            ranges.len()
        } else {
            SHOWN_RANGES as nat
        },
        |i: int| range_line(i, ranges[i], port),
    )
}

/// All that the check-up says.
#[derive(Debug)]
pub struct CheckReport {
    pub port: u16,
    pub process: ProcessStatus,
    pub port_status: PortStatus,
    pub ranges: Vec<RangeLine>,
    /// How many ranges there are, where not all are shown.
    pub all_ranges: Option<usize>,
    /// Whether the repair is recommended.
    pub suggests_repair: bool,
}

/// Puts the check-up together. `running` says whether the proxy answers,
/// `recorded` which process is recorded and whether it runs.
pub fn check_report(
    config: &Option<ProxyConfig>,
    running: bool,
    recorded: Option<(u32, bool)>,
    diagnosis: PortDiagnosis,
    ranges: &Vec<(u16, u16)>,
) -> (r: CheckReport)
    requires
        forall|i: int| 0 <= i < ranges@.len() ==> (#[trigger] ranges@[i]).0 <= ranges@[i].1,
    ensures
        r.port == checked_port(*config),
        r.process == process_status_of(running, recorded),
        r.port_status.deep_view() == port_status_of(diagnosis.deep_view(), running, recorded),
        r.ranges@ == range_lines(ranges@, checked_port(*config)),
        r.all_ranges == if ranges@.len() > SHOWN_RANGES {
            Some(ranges@.len() as usize)
        } else {
            None
        },
        r.suggests_repair == (diagnosis.deep_view() is WindowsReserved),
{
    let port: u16 = port_to_check(config);
    let process = process_status(running, recorded);
    let suggests_repair = match &diagnosis {
        PortDiagnosis::WindowsReserved { .. } => true,
        _ => false,
    };
    let port_status = match diagnosis {
        PortDiagnosis::HeldByProcess { port, pid, name } => {
            let own = match recorded {
                Some((own, _)) => own == pid,
                None => false,
            };
            if own {
                PortStatus::OwnPort { pid, name }
            } else {
                PortStatus::Trouble(PortDiagnosis::HeldByProcess { port, pid, name })
            }
        },
        PortDiagnosis::Unknown { .. } => PortStatus::Free { running },
        reserved => PortStatus::Trouble(reserved),
    };
    let shown: usize = if ranges.len() <= SHOWN_RANGES {
        ranges.len()
    } else {
        SHOWN_RANGES
    };
    let mut lines: Vec<RangeLine> = Vec::new();
    let mut i: usize = 0;
    while i < shown
        invariant
            i <= shown,
            shown <= ranges@.len(),
            shown <= SHOWN_RANGES,
            forall|k: int| 0 <= k < ranges@.len() ==> (#[trigger] ranges@[k]).0 <= ranges@[k].1,
            lines@ == Seq::new(i as nat, |k: int| range_line(k, ranges@[k], port)),
        decreases shown - i,
    {
        let range = ranges[i];
        assert(ranges@[i as int].0 <= ranges@[i as int].1);
        lines.push(
            RangeLine {
                number: i + 1,
                start: range.0,
                end: range.1,
                count: range.1 as u32 - range.0 as u32 + 1,
                hit: range.0 <= port && port <= range.1,
            },
        );
        i += 1;
        assert(lines@ =~= Seq::new(i as nat, |k: int| range_line(k, ranges@[k], port)));
    }
    assert(lines@ =~= range_lines(ranges@, port));
    CheckReport {
        port,
        process,
        port_status,
        ranges: lines,
        all_ranges: if ranges.len() > SHOWN_RANGES {
            Some(ranges.len())
        } else {
            None
        },
        suggests_repair,
    }
}

/// A range that is shown is marked just where it holds the port.
pub proof fn hit_is_marked(ranges: Seq<(u16, u16)>, port: u16, i: int)
    requires
        0 <= i < ranges.len(),
        i < SHOWN_RANGES,
    ensures
        range_lines(ranges, port)[i].hit <==> in_range(port, ranges[i]),
{
}

} // verus!
