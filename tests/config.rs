use lazy_acme::config::{log_level_named, parse_decimal, parse_log_level, provider_config_file, AppConfig};
use lazy_acme::logging::LogLevel;

#[test]
fn decimal_settings_parse_like_unsigned_integers() {
    assert_eq!(parse_decimal("24", u64::MAX), Some(24));
    assert_eq!(parse_decimal("+7", u64::MAX), Some(7));
    assert_eq!(parse_decimal("007", u64::MAX), Some(7));
    assert_eq!(parse_decimal("18446744073709551615", u64::MAX), Some(u64::MAX));
    assert_eq!(parse_decimal("18446744073709551616", u64::MAX), None);
    assert_eq!(parse_decimal("65535", 65535), Some(65535));
    assert_eq!(parse_decimal("65536", 65535), None);
}

#[test]
fn malformed_decimal_settings_are_rejected() {
    for s in ["", "+", "-1", " 1", "1 ", "1a", "++1", "١"] {
        assert_eq!(parse_decimal(s, u64::MAX), None, "{s:?}");
    }
}

#[test]
fn log_level_names_ignore_case() {
    assert_eq!(parse_log_level("DEBUG"), LogLevel::Debug);
    assert_eq!(parse_log_level("Warn"), LogLevel::Warn);
    assert_eq!(parse_log_level("error"), LogLevel::Error);
    assert_eq!(parse_log_level("verbose"), LogLevel::Info);
    assert_eq!(log_level_named("DEBUG"), LogLevel::Info);
}

#[test]
fn missing_or_malformed_settings_take_their_defaults() {
    let c = AppConfig::from_settings(None, None, "/data".to_string(), None);
    assert_eq!(c.log_level, LogLevel::Info);
    assert_eq!(c.update_interval_secs, 24 * 3600);
    assert_eq!(c.dir_path, "/data");
    assert_eq!(c.bind_port, 33301);
    let d = AppConfig::from_settings(Some("nope"), Some("x"), "/d".to_string(), Some("70000"));
    assert_eq!(d.update_interval_secs, 24 * 3600);
    assert_eq!(d.bind_port, 33301);
}

#[test]
fn given_settings_are_used() {
    let c = AppConfig::from_settings(Some("warn"), Some("6"), "/srv".to_string(), Some("8080"));
    assert_eq!(c.log_level, LogLevel::Warn);
    assert_eq!(c.update_interval_secs, 6 * 3600);
    assert_eq!(c.bind_port, 8080);
    let big = AppConfig::from_settings(None, Some("18446744073709551615"), "/".to_string(), None);
    assert_eq!(big.update_interval_secs, u64::MAX);
}

#[test]
fn provider_file_name_is_trimmed() {
    assert_eq!(provider_config_file(" cloudflare\n"), "cloudflare.dns.toml");
}
