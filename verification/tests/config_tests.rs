use grpc_logger::config::{
    parse_level, ClientRetryConfig, DebugConfig, LogFieldsConfig, LogLevel, ServerRetryConfig,
};
use grpc_logger::{LogConfig, LogOutput};

#[test]
fn level_names_parse_case_insensitively() {
    assert_eq!(parse_level("trace"), LogLevel::Trace);
    assert_eq!(parse_level("debug"), LogLevel::Debug);
    assert_eq!(parse_level("info"), LogLevel::Info);
    assert_eq!(parse_level("warn"), LogLevel::Warn);
    assert_eq!(parse_level("error"), LogLevel::Error);
    assert_eq!(parse_level("TRACE"), LogLevel::Trace);
    assert_eq!(parse_level("Error"), LogLevel::Error);
}

#[test]
fn unrecognized_levels_read_as_info() {
    assert_eq!(parse_level(""), LogLevel::Info);
    assert_eq!(parse_level("verbose"), LogLevel::Info);
    assert_eq!(parse_level("warning!"), LogLevel::Info);
}

#[test]
fn the_default_configuration_is_quiet_console_logging() {
    let config = LogConfig::default();
    assert_eq!(config.output, LogOutput::Console);
    assert_eq!(config.level, "info");
    assert!(config.server_id.is_none());
    assert!(config.file_path.is_none());
    assert!(config.file_name.is_none());
    assert!(config.grpc.is_none());
    assert!(!config.log_all_messages);
    assert_eq!(
        config.server_retry,
        ServerRetryConfig {
            max_retries: 0,
            base_delay_secs: 0
        }
    );
    assert_eq!(
        config.client_retry,
        ClientRetryConfig {
            max_retries: 0,
            base_delay_secs: 0,
            reconnect_delay_secs: 0
        }
    );
    assert_eq!(config.log_fields, LogFieldsConfig::default());
    assert_eq!(
        config.debug_mode,
        DebugConfig {
            enabled: false,
            test_interval_secs: 0
        }
    );
}

#[test]
fn field_inclusion_defaults_to_nothing() {
    let fields = LogFieldsConfig::default();
    assert!(!fields.include_thread_id);
    assert!(!fields.include_target);
    assert!(!fields.include_file);
    assert!(!fields.include_line);
    assert!(!fields.include_timestamp);
}
