use janus::config::{Config, ConfigManager, GlobalConfig, ProcessConfig};
use janus::error::JanusError;

fn process(name: &str, command: &str, args: &[&str]) -> ProcessConfig {
    ProcessConfig {
        name: name.to_string(),
        command: command.to_string(),
        args: Some(args.iter().map(|a| a.to_string()).collect()),
        working_dir: None,
        env: None,
        auto_restart: None,
        restart_limit: None,
        restart_delay: None,
    }
}

fn config_message(r: Result<ConfigManager, JanusError>) -> String {
    match r {
        Err(JanusError::Config(m)) => m,
        Err(e) => panic!("unexpected error: {}", e.message()),
        Ok(_) => panic!("configuration accepted"),
    }
}

#[test]
fn test_config_loading() {
    let global = GlobalConfig {
        working_dir: None,
        log_level: Some("debug".to_string()),
        env: None,
    };
    let config = Config { global, process: vec![process("test-process", "echo", &["Hello, World!"])] };
    let config_manager = ConfigManager::new("test_config.toml", config).unwrap();

    assert_eq!(config_manager.get_global_config().log_level.as_deref().unwrap(), "debug");

    let processes = config_manager.get_process_configs();
    assert_eq!(processes.len(), 1);
    assert_eq!(processes[0].name, "test-process");
    assert_eq!(processes[0].command, "echo");
    assert_eq!(processes[0].args.as_ref().unwrap(), &vec!["Hello, World!".to_string()]);
    assert_eq!(config_manager.get_config_path(), "test_config.toml");
}

#[test]
fn test_duplicate_process_names() {
    let config = Config {
        global: GlobalConfig::default(),
        process: vec![
            process("test-process", "echo", &["First"]),
            process("test-process", "echo", &["Second"]),
        ],
    };
    let result = ConfigManager::new("invalid_config.toml", config);
    assert!(result.is_err());
}

#[test]
fn duplicate_name_message() {
    let config = Config {
        global: GlobalConfig::default(),
        process: vec![process("svc", "a", &[]), process("svc", "b", &[])],
    };
    let m = config_message(ConfigManager::new("janus.toml", config));
    assert_eq!(m, "Duplicate process name: svc");
}

#[test]
fn empty_command_message() {
    let config = Config { global: GlobalConfig::default(), process: vec![process("x", "   ", &[])] };
    let m = config_message(ConfigManager::new("janus.toml", config));
    assert_eq!(m, "Empty command for process: x");
}

#[test]
fn first_problem_decides_the_error() {
    let config = Config {
        global: GlobalConfig::default(),
        process: vec![process("a", "\t\n", &[]), process("b", "run", &[]), process("b", "run", &[])],
    };
    let m = config_message(ConfigManager::new("janus.toml", config));
    assert_eq!(m, "Empty command for process: a");
}

#[test]
fn reload_replaces_and_checks() {
    let config = Config { global: GlobalConfig::default(), process: vec![process("a", "run", &[])] };
    let mut manager = ConfigManager::new("janus.toml", config).unwrap();
    let bad = Config { global: GlobalConfig::default(), process: vec![process("b", "", &[])] };
    assert!(manager.reload(bad).is_err());
    assert_eq!(manager.get_process_configs()[0].name, "a");
    assert!(manager.validate().is_ok());
    let good = Config { global: GlobalConfig::default(), process: vec![process("c", "run", &[])] };
    assert!(manager.reload(good).is_ok());
    assert!(manager.validate().is_ok());
    assert_eq!(manager.get_process_configs()[0].name, "c");
}

#[test]
fn global_defaults() {
    let g = GlobalConfig::default();
    assert!(g.working_dir.is_none());
    assert_eq!(g.log_level.as_deref(), Some("info"));
    assert_eq!(g.env.map(|e| e.len()), Some(0));
}

#[test]
fn blank_commands() {
    assert!(janus::config::blank(""));
    assert!(janus::config::blank(" \t\n\u{a0}"));
    assert!(!janus::config::blank(" a "));
}

#[test]
fn whitespace_matches_std() {
    for u in 0..=0x10FFFFu32 {
        if let Some(c) = char::from_u32(u) {
            assert_eq!(janus::config::char_is_whitespace(c), c.is_whitespace(), "U+{:04X}", u);
        }
    }
    assert!(!janus::config::blank("echo"));
    assert!(janus::config::blank("\u{3000}\u{2028}"));
}
