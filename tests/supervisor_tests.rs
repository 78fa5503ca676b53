use janus::config::{Config, ConfigManager, EnvVars, GlobalConfig, ProcessConfig};
use janus::env::merge_env;
use janus::error::{classify_error, error_type_to_string, ErrorType, JanusError};
use janus::process::{decide, Decision, ProcessManager, ProcessStatus, StartStep, StopPurpose, StopStep};
use janus::status::{format_duration, StatusReporter};

fn vars(pairs: &[(&str, &str)]) -> EnvVars {
    pairs.iter().map(|(k, v)| (k.to_string(), v.to_string())).collect()
}

fn entry(name: &str, command: &str) -> ProcessConfig {
    ProcessConfig {
        name: name.to_string(),
        command: command.to_string(),
        args: None,
        working_dir: None,
        env: None,
        auto_restart: None,
        restart_limit: None,
        restart_delay: None,
    }
}

fn manager(processes: Vec<ProcessConfig>, global: GlobalConfig) -> ProcessManager<u32> {
    let cm = ConfigManager::new("janus.toml", Config { global, process: processes }).unwrap();
    ProcessManager::new(cm)
}

fn launch(m: &mut ProcessManager<u32>, name: &str, handle: u32, now: u64) {
    match m.start_plan(name).unwrap() {
        StartStep::Launch(i) => m.finish_start(i, Ok(handle), now).unwrap(),
        StartStep::AlreadyRunning => panic!("already running"),
    }
}

fn index(m: &ProcessManager<u32>, name: &str) -> usize {
    m.find(name).unwrap()
}

#[test]
fn basic_lifecycle() {
    let mut p = entry("sleeper", "sleep");
    p.args = Some(vec!["10".to_string()]);
    let mut m = manager(vec![p], GlobalConfig::default());
    launch(&mut m, "sleeper", 7, 1_000);
    {
        let rows = StatusReporter::new(&m).report_all(6_500);
        assert!(rows[3].contains("RUNNING"));
        assert!(rows[3].contains("5s"));
    }
    let i = match m.request_stop("sleeper").unwrap() {
        StopStep::Kill(i) => i,
        StopStep::NotRunning => panic!("not running"),
    };
    assert!(m.get_all_processes()[i].stop_requested);
    let report = m.record_exit(i, None);
    assert_eq!(report.exit_code, -1);
    assert!(report.supervisor_initiated);
    assert_eq!(report.decision, Decision::StopFinal);
    assert_eq!(report.handle, Some(7));
    let rows = StatusReporter::new(&m).report_all(9_000);
    assert!(rows[3].contains("STOPPED"));
    assert_eq!(rows[3], format!("{:<20} {:<10} {:<15} {:<10}", "sleeper", "STOPPED", "-", 0));
    let p = &m.get_all_processes()[i];
    assert!(p.process.is_none() && p.start_time.is_none());
}

#[test]
fn auto_restart_with_limit() {
    let mut p = entry("flaky", "false");
    p.auto_restart = Some(true);
    p.restart_limit = Some(3);
    p.restart_delay = Some(0);
    let mut m = manager(vec![p], GlobalConfig::default());
    launch(&mut m, "flaky", 1, 0);
    let i = index(&m, "flaky");
    let mut limited = 0;
    let mut relaunches = 0;
    for round in 0..10u32 {
        let report = m.record_exit(i, Some(1));
        assert_eq!(report.error_type, ErrorType::StartFailed);
        match report.decision {
            Decision::RestartAfter(d) => {
                assert_eq!(d, 0);
                assert!(m.begin_relaunch(i));
                relaunches += 1;
                m.finish_start(i, Ok(round + 2), 10).unwrap();
            }
            Decision::GiveUp(t) => {
                assert_eq!(error_type_to_string(&t), "RESTART_LIMITED");
                limited += 1;
                break;
            }
            Decision::StopFinal => panic!("stopped"),
        }
    }
    assert_eq!(limited, 1);
    assert_eq!(relaunches, 3);
    let p = &m.get_all_processes()[i];
    assert_eq!(p.status, ProcessStatus::Failed);
    assert_eq!(p.restart_count, 3);
    assert!(!m.begin_relaunch(i));
}

#[test]
fn shutdown_stops_everything_without_restart() {
    let mut a = entry("a", "run-a");
    a.auto_restart = Some(true);
    let mut b = entry("b", "run-b");
    b.auto_restart = Some(true);
    let mut m = manager(vec![a, b], GlobalConfig::default());
    launch(&mut m, "a", 1, 5);
    launch(&mut m, "b", 2, 5);
    let marked = m.stop_all();
    assert_eq!(marked, vec![0, 1]);
    for i in marked {
        let report = m.record_exit(i, Some(0));
        assert!(report.supervisor_initiated);
        assert_eq!(report.decision, Decision::StopFinal);
        assert!(!m.begin_relaunch(i));
    }
    for p in m.get_all_processes() {
        assert_eq!(p.status, ProcessStatus::Stopped);
        assert_eq!(p.restart_count, 0);
    }
}

#[test]
fn environment_merge() {
    let g = vars(&[("A", "1"), ("B", "2")]);
    let own = vars(&[("B", "20"), ("C", "3")]);
    let merged = merge_env(&g, &own);
    assert_eq!(merged, vars(&[("A", "1"), ("B", "20"), ("C", "3")]));

    let global = GlobalConfig { working_dir: Some("/app".to_string()), log_level: None, env: Some(g) };
    let mut p = entry("web", "node");
    p.env = Some(own);
    let m = manager(vec![p], global);
    let rec = &m.get_all_processes()[0];
    assert_eq!(rec.env, vars(&[("A", "1"), ("B", "20"), ("C", "3")]));
    assert_eq!(rec.working_dir.as_deref(), Some("/app"));
    assert_eq!(rec.restart_delay, 1);
    assert!(!rec.auto_restart);
}

#[test]
fn start_on_running_is_noop() {
    let mut m = manager(vec![entry("a", "run")], GlobalConfig::default());
    launch(&mut m, "a", 3, 100);
    assert!(matches!(m.start_plan("a"), Ok(StartStep::AlreadyRunning)));
    let p = &m.get_all_processes()[0];
    assert_eq!(p.status, ProcessStatus::Running);
    assert_eq!(p.start_time, Some(100));
}

#[test]
fn stop_on_stopped_is_noop() {
    let mut m = manager(vec![entry("a", "run")], GlobalConfig::default());
    assert!(matches!(m.request_stop("a"), Ok(StopStep::NotRunning)));
    assert_eq!(m.get_all_processes()[0].status, ProcessStatus::Stopped);
    assert!(!m.get_all_processes()[0].stop_requested);
}

#[test]
fn manual_restart_keeps_count_and_moves_start_time() {
    let mut p = entry("a", "run");
    p.auto_restart = Some(true);
    let mut m = manager(vec![p], GlobalConfig::default());
    launch(&mut m, "a", 1, 100);
    let i = match m.request_stop("a").unwrap() {
        StopStep::Kill(i) => i,
        StopStep::NotRunning => panic!("not running"),
    };
    let report = m.record_exit(i, Some(143));
    assert_eq!(report.decision, Decision::StopFinal);
    launch(&mut m, "a", 2, 250);
    let p = &m.get_all_processes()[0];
    assert_eq!(p.status, ProcessStatus::Running);
    assert_eq!(p.restart_count, 0);
    assert!(p.start_time.unwrap() > 100);
}

#[test]
fn unknown_names_are_reported() {
    let mut m = manager(vec![entry("a", "run")], GlobalConfig::default());
    match m.start_plan("zzz") {
        Err(JanusError::Process(t)) => assert_eq!(t, "Process not found: zzz"),
        _ => panic!("expected an error"),
    }
    assert!(m.request_stop("zzz").is_err());
    assert!(StatusReporter::new(&m).report_process("zzz", 0).is_err());
    assert!(m.get_process("zzz").is_none());
    assert_eq!(m.get_process("a").unwrap().command, "run");
}

#[test]
fn spawn_failure_marks_failed() {
    let mut m = manager(vec![entry("a", "missing")], GlobalConfig::default());
    let r = m.finish_start(0, Err("No such file or directory".to_string()), 1);
    match r {
        Err(JanusError::Process(t)) => assert_eq!(t, "Failed to start process: No such file or directory"),
        _ => panic!("expected an error"),
    }
    assert_eq!(m.get_all_processes()[0].status, ProcessStatus::Failed);
}

#[test]
fn kill_failure_withdraws_request() {
    let mut m = manager(vec![entry("a", "run")], GlobalConfig::default());
    launch(&mut m, "a", 4, 1);
    let _ = m.request_stop("a").unwrap();
    let e = m.kill_failed(0, StopPurpose::Stop, "denied");
    assert_eq!(e.message(), "Process error: Failed to kill process: denied");
    assert_eq!(e.detail(), "Failed to kill process: denied");
    let p = &m.get_all_processes()[0];
    assert!(!p.stop_requested);
    assert_eq!(p.status, ProcessStatus::Running);
}

#[test]
fn no_auto_restart_stays_down() {
    let mut m = manager(vec![entry("a", "run")], GlobalConfig::default());
    launch(&mut m, "a", 4, 1);
    let report = m.record_exit(0, Some(0));
    assert_eq!(report.error_type, ErrorType::AbnormalExit);
    assert!(!report.supervisor_initiated);
    assert_eq!(report.decision, Decision::StopFinal);
    assert!(!m.begin_relaunch(0));
    assert_eq!(m.get_all_processes()[0].status, ProcessStatus::Stopped);
}

#[test]
fn policy_decisions() {
    let mut p = entry("a", "run");
    p.auto_restart = Some(true);
    p.restart_limit = Some(0);
    p.restart_delay = Some(4);
    let m = manager(vec![p, entry("b", "run")], GlobalConfig::default());
    let a = &m.get_all_processes()[0];
    let b = &m.get_all_processes()[1];
    assert_eq!(decide(a, false), Decision::GiveUp(ErrorType::RestartLimited));
    assert_eq!(decide(a, true), Decision::StopFinal);
    assert_eq!(decide(b, false), Decision::StopFinal);
    let mut c = entry("c", "run");
    c.auto_restart = Some(true);
    c.restart_delay = Some(4);
    let m2 = manager(vec![c], GlobalConfig::default());
    assert_eq!(decide(&m2.get_all_processes()[0], false), Decision::RestartAfter(4));
}

#[test]
fn classifies_exit_codes() {
    assert_eq!(classify_error(0), ErrorType::AbnormalExit);
    assert_eq!(classify_error(1), ErrorType::StartFailed);
    assert_eq!(classify_error(-1), ErrorType::StartFailed);
    assert_eq!(error_type_to_string(&ErrorType::StartFailed), "START_FAILED");
    assert_eq!(error_type_to_string(&ErrorType::AbnormalExit), "ABNORMAL_EXIT");
    assert_eq!(error_type_to_string(&ErrorType::ConfigInvalid), "CONFIG_INVALID");
}

#[test]
fn durations() {
    assert_eq!(format_duration(0), "0s");
    assert_eq!(format_duration(59), "59s");
    assert_eq!(format_duration(61), "1m 1s");
    assert_eq!(format_duration(3600), "1h 0m 0s");
    assert_eq!(format_duration(3661), "1h 1m 1s");
    assert_eq!(format_duration(90061), "1d 1h 1m 1s");
}

#[test]
fn process_report_lines() {
    let mut p = entry("web", "node");
    p.args = Some(vec!["server.js".to_string(), "--port".to_string()]);
    p.env = Some(vars(&[("PORT", "8080")]));
    p.restart_limit = Some(5);
    let mut m = manager(vec![p], GlobalConfig::default());
    launch(&mut m, "web", 9, 0);
    let lines = StatusReporter::new(&m).report_process("web", 62_000).unwrap();
    let expected: Vec<String> = [
        "Process: web",
        "Command: node server.js --port",
        "Status: RUNNING",
        "Uptime: 1m 2s",
        "Auto restart: false",
        "Restart count: 0",
        "Restart limit: 5",
        "Restart delay: 1 seconds",
        "",
        "Environment variables:",
        "  PORT=8080",
    ]
    .iter()
    .map(|s| s.to_string())
    .collect();
    assert_eq!(lines, expected);
}

#[test]
fn table_header_rows() {
    let m = manager(vec![entry("a", "run")], GlobalConfig::default());
    let rows = StatusReporter::new(&m).report_all(0);
    assert_eq!(rows[0], "Process Status");
    assert_eq!(rows[1], format!("{:<20} {:<10} {:<15} {:<10}", "NAME", "STATUS", "UPTIME", "RESTARTS"));
    assert_eq!(rows[2], "-".repeat(55));
    assert_eq!(rows.len(), 4);
}

#[test]
fn stop_all_marks_only_running() {
    let mut m = manager(vec![entry("a", "run"), entry("b", "run"), entry("c", "run")], GlobalConfig::default());
    launch(&mut m, "a", 1, 5);
    launch(&mut m, "c", 3, 5);
    let marked = m.stop_all();
    assert_eq!(marked, vec![0, 2]);
    let all = m.get_all_processes();
    assert!(all[0].stop_requested && !all[1].stop_requested && all[2].stop_requested);
    assert_eq!(all[1].status, ProcessStatus::Stopped);
}

#[test]
fn restart_kill_refusal_words() {
    let mut m = manager(vec![entry("a", "run")], GlobalConfig::default());
    launch(&mut m, "a", 4, 1);
    let _ = m.request_stop("a").unwrap();
    let e = m.kill_failed(0, StopPurpose::Restart, "denied");
    assert_eq!(e.detail(), "Failed to stop process: denied");
    let _ = m.request_stop("a").unwrap();
    let e = m.kill_failed(0, StopPurpose::StopAll, "gone");
    assert_eq!(e.detail(), "Failed to stop process: gone");
    let p = &m.get_all_processes()[0];
    assert_eq!(p.status, ProcessStatus::Running);
    assert_eq!(p.process, Some(4));
    assert_eq!(p.start_time, Some(1));
}

#[test]
fn restart_in_the_same_millisecond_moves_start_time() {
    let mut m = manager(vec![entry("a", "run")], GlobalConfig::default());
    launch(&mut m, "a", 1, 500);
    let _ = m.request_stop("a").unwrap();
    let _ = m.record_exit(0, Some(0));
    launch(&mut m, "a", 2, 500);
    assert_eq!(m.get_all_processes()[0].start_time, Some(501));
    let _ = m.request_stop("a").unwrap();
    let _ = m.record_exit(0, Some(0));
    launch(&mut m, "a", 3, 400);
    assert_eq!(m.get_all_processes()[0].start_time, Some(502));
    let _ = m.request_stop("a").unwrap();
    let _ = m.record_exit(0, Some(0));
    launch(&mut m, "a", 4, 9_000);
    assert_eq!(m.get_all_processes()[0].start_time, Some(9_000));
}

#[test]
fn table_from_config() {
    let cfg = Config { global: GlobalConfig::default(), process: vec![entry("b", "run"), entry("a", "run")] };
    let m: ProcessManager<u32> = ProcessManager::from_config("janus.toml", cfg).unwrap();
    assert_eq!(m.names_in_order(), vec!["b".to_string(), "a".to_string()]);
    let bad = Config { global: GlobalConfig::default(), process: vec![entry("svc", "x"), entry("svc", "y")] };
    match ProcessManager::<u32>::from_config("janus.toml", bad) {
        Err(JanusError::Config(t)) => assert_eq!(t, "Duplicate process name: svc"),
        _ => panic!("expected a configuration error"),
    }
}
