use vex_bridge::crash_report::{
    crash_reports_dir, format_rfc3339, looks_like_secret, redact, redact_known_secrets, report_file_name,
    sanitize_component, trim_secret_punctuation, CrashReport, Paths, GENERIC_PLACEHOLDER, TOKEN_PLACEHOLDER,
};

fn sample_report(message: &str, backtrace: Option<&str>) -> CrashReport {
    CrashReport::build(
        1_706_000_000,
        "vex-desktop".to_string(),
        "main".to_string(),
        Some("src/desktop.rs:42:9".to_string()),
        message.to_string(),
        backtrace.map(str::to_string),
        "0.1.0".to_string(),
        "linux".to_string(),
        None,
        &Vec::new(),
    )
}

fn sample_token_like_value() -> String {
    "TestToken1234567890AbcDefGhiJklMno".to_string()
}

#[test]
fn format_rfc3339_matches_known_epoch() {
    assert_eq!(format_rfc3339(1_706_000_000), "2024-01-23T08:53:20Z");
    assert_eq!(format_rfc3339(0), "1970-01-01T00:00:00Z");
    assert_eq!(format_rfc3339(1_709_208_000), "2024-02-29T12:00:00Z");
}

#[test]
fn format_rfc3339_handles_times_before_the_epoch() {
    assert_eq!(format_rfc3339(-1), "1969-12-31T23:59:59Z");
    assert_eq!(format_rfc3339(951_782_400), "2000-02-29T00:00:00Z");
}

#[test]
fn report_metadata_captures_expected_fields() {
    let report = sample_report("boom", Some("0: vex_bridge::desktop::run"));
    assert_eq!(report.executable, "vex-desktop");
    assert_eq!(report.thread, "main");
    assert_eq!(report.version, "0.1.0");
    assert_eq!(report.os, "linux");
    assert_eq!(report.location.as_deref(), Some("src/desktop.rs:42:9"));
    assert_eq!(report.timestamp, "2024-01-23T08:53:20Z");
    assert_eq!(report.message, "boom");
    assert_eq!(report.backtrace.as_deref(), Some("0: vex_bridge::desktop::run"));
}

#[test]
fn looks_like_secret_flags_long_mixed_alphanumeric_tokens() {
    assert!(looks_like_secret("QWxhZGRpbjpvcGVuIHNlc2FtZTEyMzQ1Njc4"));
    assert!(!looks_like_secret("abc123"));
    assert!(!looks_like_secret(&"a".repeat(30)));
    assert!(!looks_like_secret(&"1".repeat(30)));
}

#[test]
fn trim_secret_punctuation_strips_wrapping_punctuation_only() {
    assert_eq!(trim_secret_punctuation("(token=abc123XYZ789def456UVW),"), "token=abc123XYZ789def456UVW");
}

#[test]
fn redact_known_secrets_replaces_exact_matches_only() {
    let secrets = vec!["s3cr3t-access-token-value".to_string()];
    let text = "failed to auth with s3cr3t-access-token-value while loading config";
    let redacted = redact_known_secrets(text, &secrets);
    assert!(!redacted.contains("s3cr3t-access-token-value"));
    assert!(redacted.contains(TOKEN_PLACEHOLDER));
    assert!(redacted.contains("failed to auth with"));
}

#[test]
fn redact_known_secrets_ignores_short_secrets() {
    let secrets = vec!["short".to_string()];
    assert_eq!(redact_known_secrets("a short note", &secrets), "a short note");
}

#[test]
fn redact_replaces_long_token_like_words_but_keeps_prose() {
    let sample_token = sample_token_like_value();
    let text = format!("panic while posting X-Vex-Bridge-Token: {sample_token} to host");
    let redacted = redact(&text, None, &Vec::new());
    assert!(!redacted.contains(&sample_token));
    assert!(redacted.contains(GENERIC_PLACEHOLDER));
    assert!(redacted.contains("panic while posting X-Vex-Bridge-Token:"));
    assert!(redacted.contains("to host"));
}

#[test]
fn redact_leaves_ordinary_file_paths_and_short_ids_alone() {
    let text = "could not open C:\\Users\\alex\\AppData\\Roaming\\vex-bridge\\config.toml (id=7f3a91)";
    let redacted = redact(text, None, &Vec::new());
    assert_eq!(redacted, text);
}

#[test]
fn redact_replaces_the_home_directory() {
    let redacted = redact("open /home/alex/project/model.ifc", Some("/home/alex"), &Vec::new());
    assert_eq!(redacted, "open ~/project/model.ifc");
}

#[test]
fn crash_report_build_redacts_message_and_backtrace() {
    let secret = sample_token_like_value();
    let message = format!("panic: token {secret} rejected");
    let backtrace = format!("0: handler with token {secret}");
    let report = sample_report(&message, Some(&backtrace));
    assert!(!report.message.contains(&secret));
    assert!(!report.backtrace.as_ref().unwrap().contains(&secret));
}

#[test]
fn report_file_name_is_filesystem_safe() {
    let name = report_file_name("vex tray/../evil", 1_706_000_000, 4242);
    assert_eq!(name, "vex_tray____evil-1706000000-4242.json");
    assert!(!name.contains('/'));
    assert!(!name.contains('\\'));
    assert!(!name.contains(".."));
}

#[test]
fn sanitize_component_falls_back_when_fully_stripped() {
    assert_eq!(sanitize_component(""), "crash");
    assert_eq!(sanitize_component("vex-desktop"), "vex-desktop");
    assert_eq!(sanitize_component("///"), "___");
}

#[test]
fn crash_reports_dir_is_under_data_dir() {
    let paths = Paths {
        config_dir: "C:/fake/config".to_string(),
        data_dir: "C:/fake/data".to_string(),
        config_file: "C:/fake/config/config.toml".to_string(),
        state_file: "C:/fake/data/state.json".to_string(),
        access_token_file: "C:/fake/config/access-token".to_string(),
        log_file: "C:/fake/data/vex-bridge.log".to_string(),
        daemon_lock_file: "C:/fake/data/daemon.lock".to_string(),
    };
    assert_eq!(crash_reports_dir(&paths), "C:/fake/data/crash-reports");
}

#[test]
fn a_known_secret_is_gone_after_redaction_even_when_glued_to_other_text() {
    let secret = "hunter2-pass.word".to_string();
    let text = format!("a{secret}{secret}b and again:{secret}. and '{secret}'");
    let out = redact(&text, Some("/home/someone"), &vec![secret.clone()]);
    assert!(!out.contains(&secret), "{out}");
    assert_eq!(out.matches(TOKEN_PLACEHOLDER).count(), 4);
}
