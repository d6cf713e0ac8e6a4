use std::path::PathBuf;

use loghound::config::{default_log_dir, push_name, Config, ConfigError, FilterConfig, LogConfig};

/// The default configuration of this (non-Windows) machine, whose temporary
/// directory is `/tmp`.
fn default_config() -> Config {
    Config::default_for(None, "/tmp".to_string(), false)
}

#[test]
fn default_config_is_valid() {
    assert!(default_config().validate().is_ok());
}

#[test]
fn rejects_zero_max_days() {
    let mut c = default_config();
    c.log.max_days = 0;
    assert!(c.validate().is_err());
}

#[test]
fn rejects_empty_prefix() {
    let mut c = default_config();
    c.log.file_prefix = "   ".to_string();
    assert!(c.validate().is_err());
}

#[test]
fn validation_errors_name_the_broken_rule() {
    let mut c = default_config();
    c.log.max_days = 0;
    c.log.file_prefix = String::new();
    assert_eq!(
        c.validate(),
        Err(ConfigError::Invalid("log.max_days 必须 >= 1".to_string()))
    );
    c.log.max_days = 1;
    assert_eq!(
        c.validate(),
        Err(ConfigError::Invalid("log.file_prefix 不能为空".to_string()))
    );
    c.log.file_prefix = "\t\u{3000}\n".to_string();
    assert!(c.validate().is_err());
    c.log.file_prefix = " p ".to_string();
    assert_eq!(c.validate(), Ok(()));
}

#[test]
fn default_values_are_the_documented_ones() {
    let c = default_config();
    assert_eq!(c.log.dir, "/tmp/loghound/logs");
    assert_eq!(c.log.file_prefix, "loghound");
    assert_eq!(c.log.max_days, 15);
    assert_eq!(c.log.line_format, "{time} [{pid} {process}] {message}");
    assert_eq!(c.filter.process_names, vec!["ISVCommServer.exe".to_string()]);
    assert!(c.filter.pids.is_empty());
    assert_eq!(FilterConfig::default(), c.filter);
    assert_eq!(LogConfig::default_for(None, "/tmp".to_string(), false), c.log);
}

#[test]
fn with_log_dir_keeps_other_defaults() {
    let c = Config::with_log_dir("/tmp/x".to_string());
    assert_eq!(c.log.dir, "/tmp/x");
    assert_eq!(c.log.max_days, 15);
    assert_eq!(c.filter, FilterConfig::default());
    assert!(c.validate().is_ok());
}

#[test]
fn default_log_dir_on_windows_uses_program_data() {
    assert_eq!(
        default_log_dir(Some("D:\\Data".to_string()), "/tmp".to_string(), true),
        "D:\\Data\\loghound\\logs"
    );
    assert_eq!(
        default_log_dir(None, "/tmp".to_string(), true),
        "C:\\ProgramData\\loghound\\logs"
    );
    assert_eq!(
        default_log_dir(Some("E:\\".to_string()), String::new(), true),
        "E:\\loghound\\logs"
    );
    assert_eq!(
        default_log_dir(Some("C:".to_string()), String::new(), true),
        "C:loghound\\logs"
    );
    assert_eq!(
        default_log_dir(Some("C:/Data/".to_string()), String::new(), true),
        "C:/Data/loghound\\logs"
    );
}

#[test]
fn default_log_dir_elsewhere_uses_the_temporary_directory() {
    for tmp in ["/tmp", "/var/tmp/", "", "rel", "a\\b"] {
        let expected = PathBuf::from(tmp).join("loghound").join("logs");
        assert_eq!(
            default_log_dir(Some("D:\\Data".to_string()), tmp.to_string(), false),
            expected.to_string_lossy()
        );
        assert_eq!(push_name(tmp, "x", false), PathBuf::from(tmp).join("x").to_string_lossy());
    }
}
