//! Task configuration records and their defaults.

use vstd::prelude::*;
use vstd::string::StringExecFns;
use crate::topic::{first_segment, first_segment_of};

verus! {

/// An MQTT bridge task.
#[derive(Clone, Debug)]
pub struct MqttConfig {
    pub name: String,
    pub active: bool,
    pub host: String,
    pub port: u16,
    pub username: String,
    pub password: String,
    pub client_id: String,
    pub to_scope: String,
    pub topics: Vec<String>,
}

impl Default for MqttConfig {
    fn default() -> (r: MqttConfig)
        ensures
            r.name@ == "MQTT.1"@,
            !r.active,
            r.host@ == "localhost"@,
            r.port == 1883,
            r.username@ == ""@,
            r.password@ == ""@,
            r.client_id@ == "indra_{{machine_name}}"@,
            r.to_scope@ == "home"@,
            r.topics@.len() == 1,
            r.topics@[0]@ == "#"@,
    {
        MqttConfig {
            name: String::from_str("MQTT.1"),
            active: false,
            host: String::from_str("localhost"),
            port: 1883,
            username: String::from_str(""),
            password: String::from_str(""),
            client_id: String::from_str("indra_{{machine_name}}"),
            to_scope: String::from_str("home"),
            topics: vec![String::from_str("#")],
        }
    }
}

/// A timer task that publishes a fixed message.
#[derive(Clone, Debug)]
pub struct DingDongConfig {
    pub name: String,
    pub active: bool,
    pub timer: u64,
    pub topic: String,
    pub message: String,
}

impl Default for DingDongConfig {
    fn default() -> (r: DingDongConfig)
        ensures
            r.name@ == "DingDong.1"@,
            !r.active,
            r.timer == 1000,
            r.topic@ == "Ding"@,
            r.message@ == "Dong"@,
    {
        DingDongConfig {
            name: String::from_str("DingDong.1"),
            active: false,
            timer: 1000,
            topic: String::from_str("Ding"),
            message: String::from_str("Dong"),
        }
    }
}

/// The task that turns OS signals into the shutdown command.
#[derive(Clone, Debug)]
pub struct SignalConfig {
    pub name: String,
    pub active: bool,
    pub shutdown_delay_ms: u64,
}

impl Default for SignalConfig {
    fn default() -> (r: SignalConfig)
        ensures
            r.name@ == "Signal.1"@,
            r.active,
            r.shutdown_delay_ms == 1000,
    {
        SignalConfig { name: String::from_str("Signal.1"), active: true, shutdown_delay_ms: 1000 }
    }
}

/// A REST gateway task.
#[derive(Clone, Debug)]
pub struct WebConfig {
    pub name: String,
    pub active: bool,
    pub address: String,
    pub url: String,
    pub ssl: bool,
    pub cert: String,
    pub key: String,
}

impl Default for WebConfig {
    fn default() -> (r: WebConfig)
        ensures
            r.name@ == "Web.1"@,
            !r.active,
            r.address@ == "0.0.0.0:8081"@,
            r.url@ == "/api/v1"@,
            r.ssl,
            r.cert@ == "{{data_directory}}/certs/{{machine_name}}.pem"@,
            r.key@ == "{{data_directory}}/certs/{{machine_name}}-key.pem"@,
    {
        WebConfig {
            name: String::from_str("Web.1"),
            active: false,
            address: String::from_str("0.0.0.0:8081"),
            url: String::from_str("/api/v1"),
            ssl: true,
            cert: String::from_str("{{data_directory}}/certs/{{machine_name}}.pem"),
            key: String::from_str("{{data_directory}}/certs/{{machine_name}}-key.pem"),
        }
    }
}

/// A websocket gateway task.
#[derive(Clone, Debug)]
pub struct WsConfig {
    pub name: String,
    pub active: bool,
    pub address: String,
    pub url: String,
    pub ssl: bool,
    pub cert: String,
    pub key: String,
}

impl Default for WsConfig {
    fn default() -> (r: WsConfig)
        ensures
            r.name@ == "Ws.1"@,
            !r.active,
            r.address@ == "0.0.0.0:8082"@,
            r.url@ == "/ws/v1"@,
            r.ssl,
            r.cert@ == "{{data_directory}}/certs/{{machine_name}}.pem"@,
            r.key@ == "{{data_directory}}/certs/{{machine_name}}-key.pem"@,
    {
        WsConfig {
            name: String::from_str("Ws.1"),
            active: false,
            address: String::from_str("0.0.0.0:8082"),
            url: String::from_str("/ws/v1"),
            ssl: true,
            cert: String::from_str("{{data_directory}}/certs/{{machine_name}}.pem"),
            key: String::from_str("{{data_directory}}/certs/{{machine_name}}-key.pem"),
        }
    }
}

/// Database engines of the persistence task.
#[derive(Clone, Copy, Debug, PartialEq, Eq, Structural)]
pub enum DbType {
    Postgres,
    MySQL,
    SQLite,
}

/// Whether the persistence task writes synchronously.
#[derive(Clone, Copy, Debug, PartialEq, Eq, Structural)]
pub enum DbSync {
    Sync,
    Async,
}

/// The persistence task.
#[derive(Clone, Debug)]
pub struct SQLxConfig {
    pub name: String,
    pub active: bool,
    pub db_type: DbType,
    pub db_sync: DbSync,
    pub database_url: String,
    pub last_state_file: String,
    pub persistent_domains: Vec<String>,
    pub volatile_domains: Vec<String>,
}

impl Default for SQLxConfig {
    fn default() -> (r: SQLxConfig)
        ensures
            r.name@ == "SQLx.1"@,
            !r.active,
            r.db_type == DbType::SQLite,
            r.db_sync == DbSync::Async,
            r.database_url@ == "{{data_directory}}/db/indrajala.db"@,
            r.last_state_file@ == "{{data_directory}}/db/last_state.json"@,
            r.persistent_domains@.len() == 1,
            r.persistent_domains@[0]@ == "$event/"@,
            r.volatile_domains@.len() == 1,
            r.volatile_domains@[0]@ == "$forecast/"@,
    {
        SQLxConfig {
            name: String::from_str("SQLx.1"),
            active: false,
            db_type: DbType::SQLite,
            db_sync: DbSync::Async,
            database_url: String::from_str("{{data_directory}}/db/indrajala.db"),
            last_state_file: String::from_str("{{data_directory}}/db/last_state.json"),
            persistent_domains: vec![String::from_str("$event/")],
            volatile_domains: vec![String::from_str("$forecast/")],
        }
    }
}

/// How a subprocess task runs its command.
#[derive(Clone, Copy, Debug, PartialEq, Eq, Structural)]
pub enum TaskerMode {
    Periodic,
    Oneshot,
    Continuous,
}

/// How a subprocess task talks to its command.
#[derive(Clone, Copy, Debug, PartialEq, Eq, Structural)]
pub enum TaskerIpc {
    Stdio,
    Net,
}

/// A subprocess task.
#[derive(Clone, Debug)]
pub struct TaskerConfig {
    pub name: String,
    pub active: bool,
    pub cmd: String,
    pub args: Vec<String>,
}

impl Default for TaskerConfig {
    fn default() -> (r: TaskerConfig)
        ensures
            r.name@ == "Tasker.1"@,
            !r.active,
            r.cmd@ == "echo"@,
            r.args@.len() == 1,
            r.args@[0]@ == "Hello World"@,
    {
        TaskerConfig {
            name: String::from_str("Tasker.1"),
            active: false,
            cmd: String::from_str("echo"),
            args: vec![String::from_str("Hello World")],
        }
    }
}

/// The persistence task's saved state.
#[derive(Clone, Copy, Debug, PartialEq, Eq, Structural)]
pub struct LastState {
    pub last_seq_no: i64,
}

/// Process-wide settings.
#[derive(Clone, Debug)]
pub struct IndraMainConfig {
    pub machine_name: String,
    pub check_internet: bool,
    pub check_internet_interval: u64,
    pub check_internet_max_duration: u64,
    pub config_directory: String,
    pub data_directory: String,
    pub default_term_log: String,
    pub default_file_log: String,
}

impl IndraMainConfig {
    /// The default settings on a machine whose host name is `host_name`: the
    /// machine name is the host name without its domain part.
    pub fn with_host(host_name: &str, config_directory: String, data_directory: String) -> (r:
        IndraMainConfig)
        ensures
            r.machine_name@ == first_segment(host_name@, '.'),
            r.check_internet,
            r.check_internet_interval == 5,
            r.check_internet_max_duration == 60,
            r.config_directory@ == config_directory@,
            r.data_directory@ == data_directory@,
            r.default_term_log@ == "info"@,
            r.default_file_log@ == "info"@,
    {
        IndraMainConfig {
            machine_name: String::from_str(first_segment_of(host_name, '.')),
            check_internet: true,
            check_internet_interval: 5,
            check_internet_max_duration: 60,
            config_directory,
            data_directory,
            default_term_log: String::from_str("info"),
            default_file_log: String::from_str("info"),
        }
    }
}

} // verus!
