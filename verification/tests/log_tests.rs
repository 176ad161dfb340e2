use swerve::log::{format_log_line, kind_label, LogConfig, LogKind};

#[test]
fn labels_per_level() {
    assert_eq!(kind_label(LogKind::Info), "INFO");
    assert_eq!(kind_label(LogKind::Success), "DONE");
    assert_eq!(kind_label(LogKind::Warn), "WARN");
    assert_eq!(kind_label(LogKind::Error), "FAIL");
}

#[test]
fn line_layout() {
    let line = format_log_line("2021-01-01 00:00:00", LogKind::Info, "Serving path");
    assert_eq!(line, "[2021-01-01 00:00:00] [INFO] Serving path");
}

#[test]
fn silence_switch() {
    let mut cfg = LogConfig::new();
    assert!(cfg.should_log());
    cfg.set_silent(true);
    assert!(!cfg.should_log());
    cfg.set_silent(false);
    assert!(cfg.should_log());
}
