use indrajala::cli::{CliCommand, IndraCli, IndraClientConfig};
use indrajala::config::{DbType, IndraMainConfig, MqttConfig, SQLxConfig, SignalConfig};

#[test]
fn mqtt_defaults() {
    let c = MqttConfig::default();
    assert_eq!(c.name, "MQTT.1");
    assert!(!c.active);
    assert_eq!(c.port, 1883);
    assert_eq!(c.topics, vec!["#".to_string()]);
}

#[test]
fn signal_is_active_by_default() {
    let c = SignalConfig::default();
    assert!(c.active);
    assert_eq!(c.shutdown_delay_ms, 1000);
}

#[test]
fn storage_defaults() {
    let c = SQLxConfig::default();
    assert!(c.db_type == DbType::SQLite);
    assert_eq!(c.persistent_domains, vec!["$event/".to_string()]);
}

#[test]
fn machine_name_drops_domain() {
    let c = IndraMainConfig::with_host("box.example.org", "/etc/x".to_string(), "/var/x".to_string());
    assert_eq!(c.machine_name, "box");
    assert_eq!(c.check_internet_interval, 5);
    assert_eq!(c.default_term_log, "info");
}

#[test]
fn cli_starts_from_builtin_defaults() {
    let c = IndraCli::new(None);
    assert!(!c.connected);
    assert_eq!(c.cfg.output_path, "indra_backup.json");
    assert_eq!(c.cfg.mode, "offline");
}

#[test]
fn cli_keeps_saved_defaults() {
    let saved = IndraClientConfig {
        uri: "ws://h".to_string(),
        version: "02".to_string(),
        db_path: "db".to_string(),
        output_path: "out".to_string(),
        mode: "online".to_string(),
    };
    let c = IndraCli::new(Some(saved));
    assert_eq!(c.cfg.uri, "ws://h");
    assert_eq!(c.cfg.version, "02");
}

#[test]
fn cli_updates_known_defaults_only() {
    let mut c = IndraCli::new(None);
    assert!(c.update_default("db_path", "/tmp/db"));
    assert_eq!(c.cfg.db_path, "/tmp/db");
    assert!(!c.update_default("colour", "red"));
    assert_eq!(c.cfg.mode, "offline");
    c.connect("ws://x");
    assert!(c.connected);
    assert_eq!(c.cfg.uri, "ws://x");
    c.disconnect();
    assert!(!c.connected);
}

fn words(s: &str) -> Vec<String> {
    s.split_whitespace().map(|w| w.to_string()).collect()
}

#[test]
fn cli_parses_commands() {
    let c = IndraCli::new(None);
    assert!(matches!(c.parse_command(&words("connect")), CliCommand::Connect));
    assert!(matches!(c.parse_command(&words("connect ws://x")), CliCommand::ConnectUsage));
    assert!(matches!(c.parse_command(&words("exit")), CliCommand::Exit));
    assert!(matches!(c.parse_command(&words("")), CliCommand::Invalid));
    assert!(matches!(c.parse_command(&words("bogus")), CliCommand::Invalid));
    assert!(matches!(c.parse_command(&words("mode=")), CliCommand::Invalid));
    assert!(matches!(c.parse_command(&words("=x")), CliCommand::Invalid));
    match c.parse_command(&words("backup version=02 output=a.json output=b.json")) {
        CliCommand::Backup { version, input, output } => {
            assert_eq!(version, "02");
            assert_eq!(input, "");
            assert_eq!(output, "b.json");
        }
        other => panic!("unexpected {:?}", other),
    }
    match c.parse_command(&words("restore input=x.json")) {
        CliCommand::Restore { version, output, input } => {
            assert_eq!(version, "");
            assert_eq!(output, "");
            assert_eq!(input, "x.json");
        }
        other => panic!("unexpected {:?}", other),
    }
    match c.parse_command(&words("db_path=/a=b")) {
        CliCommand::SetDefault { variable, value } => {
            assert_eq!(variable, "db_path");
            assert_eq!(value, "/a=b");
        }
        other => panic!("unexpected {:?}", other),
    }
}
