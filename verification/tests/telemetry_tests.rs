use monitor_host::telemetry::{LogLevel, AlertSeverity, parse_level, parse_severity, create_alert,
    log_bridge_event, metric_bridge_event, log_event_from_row, metric_from_row, alert_from_row};
use monitor_host::store::{TelemetryStore, StorageMsg, apply_msg, LOGS_READ_LIMIT,
    METRICS_READ_LIMIT, ALERTS_READ_LIMIT};

#[test]
fn severity_names_round_trip() {
    assert_eq!(parse_severity("Warning"), AlertSeverity::Warning);
    assert_eq!(parse_severity("Critical"), AlertSeverity::Critical);
    assert_eq!(parse_severity("Info"), AlertSeverity::Info);
    assert_eq!(AlertSeverity::Warning.name(), "Warning");
    assert_eq!(AlertSeverity::Critical.name(), "Critical");
    assert_eq!(AlertSeverity::Info.name(), "Info");
}

#[test]
fn unknown_severity_reads_as_info() {
    assert_eq!(parse_severity("NUCLEAR"), AlertSeverity::Info);
}

#[test]
fn level_names_round_trip() {
    assert_eq!(parse_level("Debug"), LogLevel::Debug);
    assert_eq!(parse_level("Info"), LogLevel::Info);
    assert_eq!(parse_level("Warn"), LogLevel::Warn);
    assert_eq!(parse_level("Error"), LogLevel::Error);
    assert_eq!(parse_level("noise"), LogLevel::Info);
    assert_eq!(LogLevel::Warn.name(), "Warn");
}

#[test]
fn alert_creation_stores_warning_and_reads_back_first() {
    let mut store = TelemetryStore::new();
    let a = create_alert(
        "x".to_string(),
        "cpu".to_string(),
        "Warning",
        "t".to_string(),
        "m".to_string(),
        1000,
    );
    assert_eq!(a.severity, AlertSeverity::Warning);
    store.insert_alert(a);
    let newest = store.latest_alerts(ALERTS_READ_LIMIT);
    assert_eq!(newest.len(), 1);
    assert_eq!(newest[0].plugin, "x");
    assert_eq!(newest[0].metric_name, "cpu");
    assert_eq!(newest[0].severity, AlertSeverity::Warning);
    assert_eq!(newest[0].title, "t");
    assert_eq!(newest[0].message, "m");
}

#[test]
fn unknown_severity_is_stored_as_info() {
    let a = create_alert(
        "x".to_string(),
        "cpu".to_string(),
        "NUCLEAR",
        "t".to_string(),
        "m".to_string(),
        1000,
    );
    assert_eq!(a.severity, AlertSeverity::Info);
}

#[test]
fn latest_reads_newest_first_up_to_limit() {
    let mut store = TelemetryStore::new();
    for i in 0..5i64 {
        let a = create_alert(
            format!("p{}", i),
            "m".to_string(),
            "Info",
            "t".to_string(),
            "msg".to_string(),
            i,
        );
        store.insert_alert(a);
    }
    let newest = store.latest_alerts(3);
    assert_eq!(newest.len(), 3);
    assert_eq!(newest[0].plugin, "p4");
    assert_eq!(newest[1].plugin, "p3");
    assert_eq!(newest[2].plugin, "p2");
}

#[test]
fn read_limits_match_the_api() {
    assert_eq!(LOGS_READ_LIMIT, 100);
    assert_eq!(METRICS_READ_LIMIT, 200);
    assert_eq!(ALERTS_READ_LIMIT, 200);
}

#[test]
fn log_bridge_attributes_to_tagged_plugin() {
    let e = log_bridge_event(
        LogLevel::Info,
        Some(b"hello".to_vec()),
        Some("cpu-monitor".to_string()),
        7,
    )
    .unwrap();
    assert_eq!(e.plugin.as_deref(), Some("cpu-monitor"));
    assert_eq!(e.message, "hello");
    assert_eq!(e.level, LogLevel::Info);
    assert_eq!(e.time_ms, 7);
}

#[test]
fn log_bridge_drops_null_message() {
    assert!(log_bridge_event(LogLevel::Info, None, Some("p".to_string()), 7).is_none());
}

#[test]
fn log_bridge_untagged_thread_has_no_plugin() {
    let e = log_bridge_event(LogLevel::Warn, Some(b"x".to_vec()), None, 7).unwrap();
    assert!(e.plugin.is_none());
}

#[test]
fn log_bridge_marks_invalid_utf8() {
    let e = log_bridge_event(LogLevel::Info, Some(vec![0xff, 0xfe]), None, 7).unwrap();
    assert_eq!(e.message, "<invalid utf-8>");
}

#[test]
fn metric_bridge_attributes_and_defaults_to_unknown() {
    let m = metric_bridge_event(
        Some(b"cpu_usage".to_vec()),
        42.0f64.to_bits(),
        1_700_000_000_000,
        Some("cpu-monitor".to_string()),
        5,
    );
    assert_eq!(m.plugin, "cpu-monitor");
    assert_eq!(m.name, "cpu_usage");
    assert_eq!(f64::from_bits(m.value_bits), 42.0);
    assert_eq!(m.time_ms, 1_700_000_000_000);

    let m2 = metric_bridge_event(Some(b"x".to_vec()), 0, 5, None, 9);
    assert_eq!(m2.plugin, "unknown");
}

#[test]
fn metric_bridge_names_fall_back() {
    let m = metric_bridge_event(None, 0, 5, None, 9);
    assert_eq!(m.name, "<unnamed>");
    let m2 = metric_bridge_event(Some(vec![0xff]), 0, 5, None, 9);
    assert_eq!(m2.name, "<invalid metric name>");
}

#[test]
fn metric_bridge_out_of_range_time_falls_back_to_now() {
    let m = metric_bridge_event(Some(b"x".to_vec()), 0, i64::MIN, None, 99);
    assert_eq!(m.time_ms, 99);
}

#[test]
fn channel_messages_land_in_their_tables() {
    let mut store = TelemetryStore::new();
    let e = log_bridge_event(LogLevel::Info, Some(b"m".to_vec()), Some("p".to_string()), 1)
        .unwrap();
    apply_msg(&mut store, StorageMsg::Log(e));
    let m = metric_bridge_event(Some(b"n".to_vec()), 0, 1, Some("p".to_string()), 1);
    apply_msg(&mut store, StorageMsg::Metric(m));
    let logs = store.latest_logs(LOGS_READ_LIMIT);
    let metrics = store.latest_metrics(METRICS_READ_LIMIT);
    assert_eq!(logs.len(), 1);
    assert_eq!(logs[0].plugin.as_deref(), Some("p"));
    assert_eq!(metrics.len(), 1);
    assert_eq!(metrics[0].plugin, "p");
}

#[test]
fn plugin_api_registry_upserts() {
    let mut store = TelemetryStore::new();
    store.upsert_plugin_api("a".to_string(), "http://127.0.0.1:1/".to_string());
    store.upsert_plugin_api("a".to_string(), "http://127.0.0.1:2/".to_string());
    store.upsert_plugin_api("b".to_string(), "http://127.0.0.1:3/".to_string());
    let all = store.get_all_plugin_apis();
    assert_eq!(all.len(), 2);
    assert_eq!(all[0], ("a".to_string(), "http://127.0.0.1:2/".to_string()));
    assert_eq!(all[1], ("b".to_string(), "http://127.0.0.1:3/".to_string()));
}

#[test]
fn row_times_parse_rfc3339_with_fallback() {
    let e = log_event_from_row("2024-01-01T00:00:00Z", "Warn", None, "m".to_string(), 5);
    assert_eq!(e.time_ms, 1_704_067_200_000);
    assert_eq!(e.level, LogLevel::Warn);
    let e2 = log_event_from_row("not a time", "Warn", None, "m".to_string(), 5);
    assert_eq!(e2.time_ms, 5);
}

#[test]
fn metric_and_alert_rows_convert() {
    let m = metric_from_row("bad", "p".to_string(), "n".to_string(), 7, 3);
    assert_eq!(m.time_ms, 3);
    assert_eq!(m.value_bits, 7);
    let a = alert_from_row(
        "2024-01-01T00:00:00+00:00",
        "p".to_string(),
        "n".to_string(),
        "Critical",
        "t".to_string(),
        "m".to_string(),
        3,
    );
    assert_eq!(a.time_ms, 1_704_067_200_000);
    assert_eq!(a.severity, AlertSeverity::Critical);
}
