//! Configuration for the relay: where log output goes, which optional
//! message fields are populated, retry ceilings and delays, and the
//! log-everything switch that bypasses the noise filter.

use vstd::prelude::*;

verus! {

/// Where rendered log lines go: the console, a file, or the relay itself.
#[derive(Clone, Copy, PartialEq, Eq, Structural, Debug)]
pub enum LogOutput {
    Console,
    File,
    Grpc,
}

/// Which optional fields of a relayed message are populated. A field that is
/// off stays absent, not empty.
#[derive(Clone, Copy, PartialEq, Eq, Structural, Debug)]
pub struct LogFieldsConfig {
    pub include_thread_id: bool,
    pub include_target: bool,
    pub include_file: bool,
    pub include_line: bool,
    pub include_timestamp: bool,
}

impl Default for LogFieldsConfig {
    /// Every optional field off.
    fn default() -> (r: Self)
        ensures
            !r.include_thread_id,
            !r.include_target,
            !r.include_file,
            !r.include_line,
            !r.include_timestamp,
    {
        LogFieldsConfig {
            include_thread_id: false,
            include_target: false,
            include_file: false,
            include_line: false,
            include_timestamp: false,
        }
    }
}

/// Self-test traffic: when enabled, the relay emits a test message on a
/// fixed interval.
#[derive(Clone, Copy, PartialEq, Eq, Structural, Debug)]
pub struct DebugConfig {
    pub enabled: bool,
    pub test_interval_secs: u64,
}

impl Default for DebugConfig {
    /// Disabled, with no interval.
    fn default() -> (r: Self)
        ensures
            !r.enabled,
            r.test_interval_secs == 0,
    {
        DebugConfig { enabled: false, test_interval_secs: 0 }
    }
}

/// Where the relay's streaming endpoint listens.
pub struct GrpcConfig {
    pub address: String,
    pub port: u16,
}

/// Retry policy for the relay's own server-side attempts: few retries,
/// short delays.
#[derive(Clone, Copy, PartialEq, Eq, Structural, Debug)]
pub struct ServerRetryConfig {
    pub max_retries: u32,
    pub base_delay_secs: u64,
}

impl Default for ServerRetryConfig {
    /// No retries, no delay.
    fn default() -> (r: Self)
        ensures
            r.max_retries == 0,
            r.base_delay_secs == 0,
    {
        ServerRetryConfig { max_retries: 0, base_delay_secs: 0 }
    }
}

/// Retry policy for a subscribing client: many retries, and a flat
/// reconnect delay once a stream that was up drops.
#[derive(Clone, Copy, PartialEq, Eq, Structural, Debug)]
pub struct ClientRetryConfig {
    pub max_retries: u32,
    pub base_delay_secs: u64,
    pub reconnect_delay_secs: u64,
}

impl Default for ClientRetryConfig {
    /// No retries, no delays.
    fn default() -> (r: Self)
        ensures
            r.max_retries == 0,
            r.base_delay_secs == 0,
            r.reconnect_delay_secs == 0,
    {
        ClientRetryConfig { max_retries: 0, base_delay_secs: 0, reconnect_delay_secs: 0 }
    }
}

/// The relay's whole configuration surface.
pub struct LogConfig {
    pub output: LogOutput,
    pub level: String,
    pub server_id: Option<String>,
    pub file_path: Option<String>,
    pub file_name: Option<String>,
    pub grpc: Option<GrpcConfig>,
    pub server_retry: ServerRetryConfig,
    pub client_retry: ClientRetryConfig,
    pub log_fields: LogFieldsConfig,
    pub debug_mode: DebugConfig,
    pub log_all_messages: bool,
}

impl Default for LogConfig {
    /// Console output at level "info", no relay identity, no file, no
    /// endpoint, every retry and field-inclusion knob at its own default,
    /// and the noise filter in force.
    fn default() -> (r: Self)
        ensures
            r.output == LogOutput::Console,
            r.level@ == "info"@,
            r.server_id is None,
            r.file_path is None,
            r.file_name is None,
            r.grpc is None,
            r.server_retry == (ServerRetryConfig { max_retries: 0, base_delay_secs: 0 }),
            r.client_retry == (ClientRetryConfig {
                max_retries: 0,
                base_delay_secs: 0,
                reconnect_delay_secs: 0,
            }),
            r.log_fields == (LogFieldsConfig {
                include_thread_id: false,
                include_target: false,
                include_file: false,
                include_line: false,
                include_timestamp: false,
            }),
            r.debug_mode == (DebugConfig { enabled: false, test_interval_secs: 0 }),
            !r.log_all_messages,
    {
        LogConfig {
            output: LogOutput::Console,
            level: String::from_str("info"),
            server_id: None,
            file_path: None,
            file_name: None,
            grpc: None,
            server_retry: ServerRetryConfig::default(),
            client_retry: ClientRetryConfig::default(),
            log_fields: LogFieldsConfig::default(),
            debug_mode: DebugConfig::default(),
            log_all_messages: false,
        }
    }
}

/// A severity, from chattiest to gravest.
#[derive(Clone, Copy, PartialEq, Eq, Structural, Debug)]
pub enum LogLevel {
    Trace,
    Debug,
    Info,
    Warn,
    Error,
}

/// The written-out lowercase form of a configured level string.
pub uninterp spec fn lower_of(s: Seq<char>) -> Seq<char>;

/// Relies on str::to_lowercase: the lowercase form depends on the
/// characters alone.
#[verifier::external_body]
fn lowercase(s: &str) -> (r: String)
    ensures
        r@ == lower_of(s@),
{
    s.to_lowercase()
}

/// Which level a lowercase name denotes; anything unrecognized reads as
/// `Info`.
pub open spec fn spec_parse_level(l: Seq<char>) -> LogLevel {
    if l == "trace"@ {
        LogLevel::Trace
    } else if l == "debug"@ {
        LogLevel::Debug
    } else if l == "info"@ {
        LogLevel::Info
    } else if l == "warn"@ {
        LogLevel::Warn
    } else if l == "error"@ {
        LogLevel::Error
    } else {
        LogLevel::Info
    }
}

/// The severity a configured level string denotes, case-insensitively;
/// anything unrecognized reads as `Info`.
pub fn parse_level(level: &str) -> (r: LogLevel)
    ensures
        r == spec_parse_level(lower_of(level@)),
{
    let lowered = lowercase(level);
    if lowered == String::from_str("trace") {
        LogLevel::Trace
    } else if lowered == String::from_str("debug") {
        LogLevel::Debug
    } else if lowered == String::from_str("info") {
        LogLevel::Info
    } else if lowered == String::from_str("warn") {
        LogLevel::Warn
    } else if lowered == String::from_str("error") {
        LogLevel::Error
    } else {
        LogLevel::Info
    }
}

/// A timestamp and formatter pair for the local console/file sink. The
/// rendering itself is the sink's business, outside the relay's core; the
/// relay only carries the identity and field policy the formatter uses.
pub struct CustomTimer;

/// The local sink's line formatter: the relay identity it prefixes and the
/// field-inclusion policy it honors.
pub struct CustomFormatter {
    pub server_id: Option<String>,
    pub config: LogFieldsConfig,
}

} // verus!
