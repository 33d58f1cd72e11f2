use cc_proxy::cli::daemon::{
    configured_port, health_request, is_healthy_answer, is_listed, parse_pid, pid_text,
    read_log_tail, refusal_message, shown_lines, StartEvent, StartState,
};
use cc_proxy::cli::diagnostics::{
    diagnose_port, find_port_holder, is_addr_in_use, listening_pid, parse_windows_excluded_ports,
    process_name, windows_excluded_range_containing, PortDiagnosis, PortListing,
};
use cc_proxy::cli::doctor;
use cc_proxy::cli::doctor::{check_report, process_status, PortStatus, ProcessStatus};
use cc_proxy::cli::repair::{
    manual_commands, next_command, quote, relaunch_command, repair_commands, start_failure,
    step_result, RepairAction, RepairEvent, RepairOutcome, RepairProgress, StepResult,
    REPAIR_STEPS,
};
use cc_proxy::cli::start::{load_config, startup_banner};
use cc_proxy::config::ProxyConfig;

#[test]
fn parse_excluded_ports_basic() {
    let sample = r#"
Protocol tcp Port Exclusion Ranges

Start Port    End Port
----------    --------
      1024        1123
      8080        8179
     50000       50059

* - Administered port exclusions.
"#;
    let ranges = parse_windows_excluded_ports(sample);
    assert_eq!(ranges, vec![(1024, 1123), (8080, 8179), (50000, 50059)]);
}

#[test]
fn port_in_range() {
    let ranges = vec![(8080u16, 8179u16)];
    let port = 8082u16;
    let hit = windows_excluded_range_containing(&ranges, port);
    assert!(hit.is_some());
}

#[test]
fn odd_lines_hold_no_range() {
    let listing = "1 2 3\n5 4\n+7 8\r\n70000 70001\n1\n-1 2\n 9 9 *\n";
    assert_eq!(parse_windows_excluded_ports(listing), vec![(7, 8)]);
    assert_eq!(windows_excluded_range_containing(&vec![(1, 5), (5, 9)], 5), Some((1, 5)));
    assert_eq!(windows_excluded_range_containing(&vec![(1, 5)], 6), None);
}

#[test]
fn holders_are_read_from_lsof() {
    let listing = PortListing::Lsof("px\np123\ncnode\nf5\nn*:8082\np9\ncother\n".into());
    assert_eq!(find_port_holder(8082, &listing), Some((123, "node".to_string())));
    let listing = PortListing::Lsof("p7\n".into());
    assert_eq!(find_port_holder(8082, &listing), Some((7, "unknown".to_string())));
    assert_eq!(find_port_holder(8082, &PortListing::Lsof("cnode\n".into())), None);
    assert_eq!(find_port_holder(8082, &PortListing::Unavailable), None);
}

#[test]
fn holders_are_read_from_netstat() {
    let netstat = "  TCP    0.0.0.0:80      0.0.0.0:0    LISTENING    4\r\n  \
                   TCP    127.0.0.1:8082  1.2.3.4:5    ESTABLISHED  77\r\n  \
                   TCP    0.0.0.0:8082    0.0.0.0:0    LISTENING    x\r\n  \
                   TCP    0.0.0.0:8082    0.0.0.0:0    LISTENING    1234\r\n";
    assert_eq!(listening_pid(netstat, 8082), Some(1234));
    assert_eq!(listening_pid(netstat, 81), None);
    let other = "TCP 0.0.0.0:8080 0.0.0.0:0 LISTENING 1234";
    assert_eq!(listening_pid(other, 80), None);
    assert_eq!(listening_pid(other, 8080), Some(1234));
    assert_eq!(listening_pid(other, 0), None);
    assert_eq!(listening_pid("TCP [::]:80 [::]:0 LISTENING 9", 80), Some(9));
    let task = "\"node.exe\",\"1234\",\"Console\"\r\n";
    assert_eq!(process_name(task).as_deref(), Some("node.exe"));
    assert_eq!(process_name("\"\",1"), None);
    assert_eq!(process_name(""), None);
    let listing = PortListing::Netstat {
        listing: netstat.into(),
        task: Some(task.into()),
    };
    assert_eq!(find_port_holder(8082, &listing), Some((1234, "node.exe".to_string())));
    let listing = PortListing::Netstat {
        listing: netstat.into(),
        task: None,
    };
    assert_eq!(find_port_holder(8082, &listing), Some((1234, "unknown".to_string())));
}

#[test]
fn reservation_comes_before_a_process() {
    let held = Some((5, "x".to_string()));
    assert!(matches!(
        diagnose_port(8082, &vec![(8000, 9000)], held.clone()),
        PortDiagnosis::WindowsReserved { port: 8082, reserved_range: (8000, 9000) }
    ));
    assert!(matches!(
        diagnose_port(8082, &vec![(1, 2)], held),
        PortDiagnosis::HeldByProcess { port: 8082, pid: 5, name } if name == "x"
    ));
    assert!(matches!(
        diagnose_port(8082, &vec![], None),
        PortDiagnosis::Unknown { port: 8082 }
    ));
}

#[test]
fn addresses_in_use_are_recognised() {
    assert!(is_addr_in_use(true, None));
    for code in [48, 98, 10048] {
        assert!(is_addr_in_use(false, Some(code)));
    }
    assert!(!is_addr_in_use(false, Some(13)));
    assert!(!is_addr_in_use(false, None));
}

#[test]
fn repair_runs_three_commands() {
    let commands = repair_commands(8082);
    let programs: Vec<&str> = commands.iter().map(|c| c.program.as_str()).collect();
    assert_eq!(programs, vec!["net", "netsh", "net"]);
    assert_eq!(
        commands[1].args.join(" "),
        "int ipv4 add excludedportrange protocol=tcp startport=8082 numberofports=1"
    );
    assert_eq!(commands[0].args, vec!["stop", "winnat"]);
    assert_eq!(commands[2].args, vec!["start", "winnat"]);
    assert_eq!(
        manual_commands(8082),
        vec![
            "net stop winnat",
            "netsh int ipv4 add excludedportrange protocol=tcp startport=8082 numberofports=1",
            "net start winnat"
        ]
    );
}

#[test]
fn known_exclusion_is_no_failure() {
    assert!(matches!(step_result(0, "l", true, "", ""), StepResult::Done));
    assert!(matches!(
        step_result(1, "l", false, "", "it already exists."),
        StepResult::AlreadyExcluded
    ));
    assert!(matches!(step_result(1, "l", false, "", "对象已存在"), StepResult::AlreadyExcluded));
    match step_result(2, "l", false, " o \n", " already exists ") {
        StepResult::Failed(message) => {
            assert_eq!(message, "l 失败:\n  stdout: o\n  stderr: already exists")
        }
        other => panic!("unexpected {other:?}"),
    }
}

#[test]
fn commands_are_quoted() {
    assert_eq!(quote("it's"), "'it''s'");
    assert_eq!(
        relaunch_command("C:\\a'b.exe", &vec!["doctor".into(), "--fix".into()]),
        "Start-Process -FilePath 'C:\\a''b.exe' -ArgumentList 'doctor','--fix' -Verb RunAs -Wait"
    );
    assert_eq!(
        relaunch_command("x", &vec![]),
        "Start-Process -FilePath 'x' -ArgumentList @() -Verb RunAs -Wait"
    );
}

fn reserved() -> PortDiagnosis {
    PortDiagnosis::WindowsReserved {
        port: 8082,
        reserved_range: (8000, 9000),
    }
}

#[test]
fn repair_takes_its_course() {
    let action = RepairAction::Diagnose.next(RepairEvent::Diagnosed(reserved()));
    assert!(matches!(action, RepairAction::CheckRights { range: (8000, 9000) }));
    let action = action.next(RepairEvent::Rights(true));
    assert!(matches!(action, RepairAction::Repair));
    let action = action.next(RepairEvent::Repaired(Ok(())));
    assert!(matches!(action, RepairAction::Verify));
    let action = action.next(RepairEvent::Diagnosed(PortDiagnosis::Unknown { port: 8082 }));
    assert!(matches!(action, RepairAction::Stop(RepairOutcome::Fixed)));
    assert!(matches!(
        RepairAction::Verify.next(RepairEvent::Diagnosed(reserved())),
        RepairAction::Stop(RepairOutcome::StillReserved)
    ));
    assert!(matches!(
        RepairAction::Repair.next(RepairEvent::Repaired(Err("e".into()))),
        RepairAction::Stop(RepairOutcome::Broken(cause)) if cause == "e"
    ));
    let relaunch = RepairAction::CheckRights { range: (1, 2) }.next(RepairEvent::Rights(false));
    assert!(matches!(relaunch, RepairAction::Relaunch));
    assert!(matches!(
        relaunch.next(RepairEvent::Relaunched(Ok(()))),
        RepairAction::Stop(RepairOutcome::DoneByOther)
    ));
    assert!(matches!(
        RepairAction::Relaunch.next(RepairEvent::Relaunched(Err("no".into()))),
        RepairAction::Stop(RepairOutcome::NoRights(cause)) if cause == "no"
    ));
    assert!(matches!(
        RepairAction::Diagnose.next(RepairEvent::Diagnosed(PortDiagnosis::Unknown { port: 1 })),
        RepairAction::Stop(RepairOutcome::NotNeeded)
    ));
    assert!(matches!(
        RepairAction::Diagnose.next(RepairEvent::Diagnosed(PortDiagnosis::HeldByProcess {
            port: 1,
            pid: 2,
            name: "n".into()
        })),
        RepairAction::Stop(RepairOutcome::HeldByProcess { pid: 2, .. })
    ));
}

fn config() -> ProxyConfig {
    ProxyConfig {
        openai_api_key: "k".into(),
        openai_base_url: "http://up".into(),
        big_model: "big".into(),
        middle_model: None,
        small_model: "small".into(),
        host: "0.0.0.0".into(),
        port: 9000,
        anthropic_api_key: Some("a".into()),
        azure_api_version: None,
        log_level: "info".into(),
        max_tokens_limit: 1,
        min_tokens_limit: 1,
        request_timeout: 1,
        streaming_first_byte_timeout: 1,
        streaming_idle_timeout: 1,
        connect_timeout: 1,
        custom_headers: vec![],
        reasoning_effort: "none".into(),
        big_reasoning: Some("high".into()),
        middle_reasoning: None,
        small_reasoning: None,
    }
}

#[test]
fn settings_file_comes_first() {
    let file = load_config(Some(Ok(config())), Err("env".into()));
    assert_eq!(file.unwrap().port, 9000);
    assert_eq!(load_config(Some(Err("bad".into())), Ok(config())).unwrap_err(), "bad");
    assert_eq!(load_config(None, Err("env".into())).unwrap_err(), "env");
    assert!(doctor::load_config(Some(Err("bad".into())), Ok(config())).is_some());
    assert!(doctor::load_config(None, Err("env".into())).is_none());
    assert_eq!(configured_port(Some(1), Some(2)), 1);
    assert_eq!(configured_port(None, Some(2)), 2);
    assert_eq!(configured_port(None, None), 8082);
}

#[test]
fn banner_tells_the_settings() {
    assert_eq!(
        startup_banner(&config(), "0.2.3"),
        vec![
            "🚀 cc-proxy v0.2.3",
            "   Base URL:     http://up",
            "   Big Model:    big (reasoning: high)",
            "   Middle Model: big (reasoning: none)",
            "   Small Model:  small (reasoning: none)",
            "   Server:       0.0.0.0:9000",
            "   Auth:         enabled"
        ]
    );
}

#[test]
fn check_up_of_a_healthy_proxy() {
    let held = PortDiagnosis::HeldByProcess {
        port: 9000,
        pid: 4,
        name: "cc-proxy".into(),
    };
    let report = check_report(&Some(config()), true, Some((4, true)), held, &vec![]);
    assert_eq!(report.port, 9000);
    assert_eq!(report.process, ProcessStatus::Running { pid: Some(4) });
    assert!(matches!(report.port_status, PortStatus::OwnPort { pid: 4, .. }));
    assert!(report.ranges.is_empty());
    assert!(!report.suggests_repair);
}

#[test]
fn check_up_of_a_reserved_port() {
    let mut ranges: Vec<(u16, u16)> = (0..11).map(|i| (i * 10, i * 10 + 3)).collect();
    ranges[1] = (8000, 8999);
    let report = check_report(&None, false, Some((4, false)), reserved(), &ranges);
    assert_eq!(report.port, 8082);
    assert_eq!(report.process, ProcessStatus::Gone { pid: 4 });
    assert!(matches!(report.port_status, PortStatus::Trouble(_)));
    assert_eq!(report.ranges.len(), 10);
    assert_eq!(report.all_ranges, Some(11));
    assert!(report.suggests_repair);
    assert!(report.ranges[1].hit);
    assert_eq!(report.ranges[1].count, 1000);
    assert_eq!(report.ranges[1].number, 2);
    assert!(!report.ranges[0].hit);
}

#[test]
fn check_up_of_a_stopped_proxy() {
    let free = || PortDiagnosis::Unknown { port: 8082 };
    let report = check_report(&None, false, None, free(), &vec![(0, 65535)]);
    assert_eq!(report.process, ProcessStatus::Stopped);
    assert!(matches!(report.port_status, PortStatus::Free { running: false }));
    assert_eq!(report.ranges[0].count, 65536);
    assert_eq!(report.all_ranges, None);
    let report = check_report(&None, false, Some((4, true)), free(), &vec![]);
    assert_eq!(report.process, ProcessStatus::Silent { pid: 4 });
    let held = PortDiagnosis::HeldByProcess {
        port: 1,
        pid: 5,
        name: "x".into(),
    };
    let report = check_report(&None, true, None, held, &vec![]);
    assert_eq!(report.process, ProcessStatus::Running { pid: None });
    assert!(matches!(report.port_status, PortStatus::Trouble(_)));
}

#[test]
fn process_ids_are_read_back() {
    for pid in [0u32, 1, 42, u32::MAX] {
        assert_eq!(parse_pid(&pid_text(pid)), Some(pid));
        assert_eq!(parse_pid(&format!(" {pid}\n")), Some(pid));
    }
    assert_eq!(parse_pid("4294967296"), None);
    assert_eq!(parse_pid(""), None);
    assert_eq!(parse_pid("-1"), None);
    assert!(is_listed("node.exe  1234 Console", 1234));
    assert!(!is_listed("INFO: No tasks", 1234));
}

#[test]
fn health_is_asked_for_and_told() {
    assert_eq!(
        health_request(8082),
        "GET /health HTTP/1.1\r\nHost: localhost:8082\r\nConnection: close\r\n\r\n"
    );
    assert!(is_healthy_answer(&b"HTTP/1.1 200 OK\r\n".to_vec()));
    assert!(is_healthy_answer(&b"HTTP/1.0 200".to_vec()));
    assert!(!is_healthy_answer(&b"HTTP/1.1 500 X\r\n".to_vec()));
    assert!(!is_healthy_answer(&b"HTTP/1.2 200".to_vec()));
    assert!(!is_healthy_answer(&b"HTTP/1.1 20".to_vec()));
}

#[test]
fn end_of_a_log() {
    assert_eq!(read_log_tail("short\nlog", 9), "short\nlog");
    assert_eq!(read_log_tail("one\ntwo\nthree\n", 8), "three\n");
    assert_eq!(read_log_tail("abcdef", 3), "def");
    assert_eq!(read_log_tail("äbc", 2), "bc");
    let lines: Vec<String> = (0..20).map(|i| format!("line {i}")).collect();
    let shown = shown_lines(&format!("\n{}\n\n", lines.join("\n")), 15);
    assert_eq!(shown, lines[5..].to_vec());
    assert_eq!(shown_lines(" a\n", 15), vec!["a"]);
    assert!(shown_lines(" \n", 15).is_empty());
}

#[test]
fn start_in_the_background() {
    let waiting = StartState::CheckingPort
        .next(StartEvent::PortFree)
        .next(StartEvent::Spawned);
    assert_eq!(waiting, StartState::Waiting);
    let silent = StartEvent::Polled { alive: true, healthy: false };
    assert_eq!(waiting.next(silent), StartState::Waiting);
    assert_eq!(
        waiting.next(StartEvent::Polled { alive: true, healthy: true }),
        StartState::Started
    );
    let dead = waiting.next(StartEvent::Polled { alive: false, healthy: true });
    assert_eq!(dead, StartState::Failed { alive: false });
    assert!(dead.drops_pid());
    let late = waiting.next(StartEvent::TimeOver);
    assert_eq!(late, StartState::Failed { alive: true });
    assert!(!late.drops_pid());
    assert_eq!(
        StartState::CheckingPort.next(StartEvent::PortTaken).next(StartEvent::Spawned),
        StartState::Refused
    );
    assert_eq!(refusal_message(8082), "端口 8082 不可用，请先解决上述问题再启动");
}

#[test]
fn repair_runs_each_command_until_one_fails() {
    assert_eq!(REPAIR_STEPS, 3);
    assert!(matches!(next_command(0, StepResult::Done), RepairProgress::Run(1)));
    assert!(matches!(next_command(1, StepResult::AlreadyExcluded), RepairProgress::Run(2)));
    assert!(matches!(next_command(2, StepResult::Done), RepairProgress::Done));
    for index in 0..REPAIR_STEPS {
        match next_command(index, StepResult::Failed("m".into())) {
            RepairProgress::Broken(message) => assert_eq!(message, "m"),
            _ => panic!("expected Broken"),
        }
    }
    match start_failure("netsh", "not found") {
        StepResult::Failed(message) => assert_eq!(message, "执行 netsh 失败: not found"),
        _ => panic!("expected Failed"),
    }
}

#[test]
fn process_is_described_by_its_answer_and_record() {
    assert!(matches!(
        process_status(true, Some((7, false))),
        ProcessStatus::Running { pid: Some(7) }
    ));
    assert!(matches!(process_status(true, None), ProcessStatus::Running { pid: None }));
    assert!(matches!(process_status(false, Some((7, true))), ProcessStatus::Silent { pid: 7 }));
    assert!(matches!(process_status(false, Some((7, false))), ProcessStatus::Gone { pid: 7 }));
    assert!(matches!(process_status(false, None), ProcessStatus::Stopped));
}
