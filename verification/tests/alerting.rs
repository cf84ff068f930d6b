//! The alert state machines, cooldown rules, snapshot store, bot
//! gatekeeping and configuration rules, exercised on concrete cycles.

use monitord::alerts::{collect_resource_alerts, cpu_temperature_from_state, should_emit};
use monitord::botauth::{should_handle_message, RateLimiter};
use monitord::config::{AlertsConfig, Config, TelegramConfig};
use monitord::state::{AlertEventKind, ResourceAlertKind, State};
use monitord::stats::{DiskStat, HttpCheckResult, NetStat, TempStat};
use monitord::checks::{collect_checks, HttpOutcome, TcpOutcome};
use std::collections::HashSet;

fn alerts_cfg() -> AlertsConfig {
    AlertsConfig {
        enabled_by_default: false,
        repeat_interval_secs: 1800,
        fail_threshold: 3,
        recovery_notify: true,
        ..AlertsConfig::default()
    }
}

fn failing_http(name: &str) -> HttpCheckResult {
    HttpCheckResult {
        name: name.to_string(),
        up: false,
        latency_ms: 100,
        status_code: 500,
    }
}

#[test]
fn alerts_fail_threshold_and_repeat_and_recovery() {
    let mut state = State::new(0);
    let cfg = alerts_cfg();

    for i in 1..=2 {
        state.checks.http = vec![failing_http("my-api")];
        let events = state.apply_alert_rules(&cfg, i);
        assert!(events.is_empty(), "unexpected event at fail {}", i);
    }

    state.checks.http = vec![failing_http("my-api")];
    let events = state.apply_alert_rules(&cfg, 3);
    assert_eq!(events.len(), 1);
    assert!(matches!(events[0].kind, AlertEventKind::Down));

    state.checks.http = vec![failing_http("my-api")];
    let events = state.apply_alert_rules(&cfg, 4);
    assert!(events.is_empty());

    state.checks.http = vec![failing_http("my-api")];
    let events = state.apply_alert_rules(&cfg, 3 + 1800);
    assert_eq!(events.len(), 1);
    assert!(matches!(events[0].kind, AlertEventKind::Repeat));

    state.checks.http = vec![HttpCheckResult {
        name: "my-api".to_string(),
        up: true,
        latency_ms: 100,
        status_code: 200,
    }];
    let events = state.apply_alert_rules(&cfg, 20000);
    assert_eq!(events.len(), 1);
    assert!(matches!(events[0].kind, AlertEventKind::Recovered));
}

#[test]
fn authorization_ignores_non_private_and_not_allowed() {
    let allowed: HashSet<i64> = [100].into_iter().collect();

    assert!(!should_handle_message(false, 100, &allowed));
    assert!(!should_handle_message(true, 101, &allowed));
    assert!(should_handle_message(true, 100, &allowed));
}

#[test]
fn rate_limiter_enforces_limit() {
    let mut limiter = RateLimiter::new(2);
    assert!(limiter.allow(1, 10));
    assert!(limiter.allow(1, 20));
    assert!(!limiter.allow(1, 30));
    assert!(limiter.allow(1, 71));
}

#[test]
fn rate_limiter_tracks_chats_separately() {
    let mut limiter = RateLimiter::new(1);
    assert!(limiter.allow(1, 10));
    assert!(limiter.allow(2, 10));
    assert!(!limiter.allow(1, 11));
}

#[test]
fn telegram_enabled_allows_empty_allowed_chat_ids() {
    let mut cfg = valid_config();
    cfg.telegram.enabled = true;
    cfg.telegram.allowed_chat_ids = vec![];
    cfg.validate()
        .expect("validation must pass; chat ids are checked at startup");
}

fn valid_config() -> Config {
    Config {
        listen: "127.0.0.1:9108".to_string(),
        interval_secs: 5,
        http_checks: vec![],
        tcp_checks: vec![],
        telegram: TelegramConfig {
            enabled: false,
            bot_token_env: "TEST_TOKEN_ENV".to_string(),
            bot_token: None,
            allowed_chat_ids: vec![],
            rate_limit_per_minute: 30,
            public_base_url: None,
            alerts: AlertsConfig::default(),
        },
    }
}

#[test]
fn config_rejects_duplicate_check_names() {
    let mut cfg = valid_config();
    cfg.http_checks = vec![
        monitord::config::HttpCheckConfig {
            name: "a".to_string(),
            url: "http://x".to_string(),
            timeout_ms: 100,
            expected_status: 200,
        },
        monitord::config::HttpCheckConfig {
            name: "a".to_string(),
            url: "http://y".to_string(),
            timeout_ms: 100,
            expected_status: 200,
        },
    ];
    assert!(cfg.validate().is_err());
}

#[test]
fn config_rejects_zero_timeout() {
    let mut cfg = valid_config();
    cfg.tcp_checks = vec![monitord::config::TcpCheckConfig {
        name: "t".to_string(),
        host: "h".to_string(),
        port: 80,
        timeout_ms: 0,
    }];
    assert!(cfg.validate().is_err());
}

#[test]
fn config_rejects_out_of_range_threshold() {
    let mut cfg = valid_config();
    cfg.telegram.alerts.cpu_load_threshold_centi_pct = 10001;
    assert!(cfg.validate().is_err());
}

#[test]
fn resource_alert_cooldown_dedups_and_reopens() {
    let mut state = State::new(0);
    state.cpu_usage_centi_pct = 9500;
    let mut cfg = AlertsConfig::default();
    cfg.resource_alert_cooldown_secs = 10;

    let mut last_sent: Vec<(String, i64)> = Vec::new();
    let first = collect_resource_alerts(&state, &cfg, 100, &mut last_sent);
    assert_eq!(first.len(), 1);
    assert!(matches!(first[0].kind, ResourceAlertKind::CpuLoad));

    let second = collect_resource_alerts(&state, &cfg, 105, &mut last_sent);
    assert!(second.is_empty());

    let third = collect_resource_alerts(&state, &cfg, 110, &mut last_sent);
    assert_eq!(third.len(), 1);
    assert!(matches!(third[0].kind, ResourceAlertKind::CpuLoad));
}

#[test]
fn resource_alert_text_carries_values() {
    let mut state = State::new(0);
    state.cpu_usage_centi_pct = 9550;
    let cfg = AlertsConfig::default();
    let mut last_sent: Vec<(String, i64)> = Vec::new();
    let alerts = collect_resource_alerts(&state, &cfg, 100, &mut last_sent);
    assert_eq!(alerts.len(), 1);
    assert!(alerts[0].text.contains("95.5"));
    assert!(alerts[0].text.contains("92.0"));
}

#[test]
fn disabled_resource_alerts_fire_nothing() {
    let mut state = State::new(0);
    state.cpu_usage_centi_pct = 9999;
    let mut cfg = AlertsConfig::default();
    cfg.resource_alerts_enabled = false;
    let mut last_sent: Vec<(String, i64)> = Vec::new();
    assert!(collect_resource_alerts(&state, &cfg, 100, &mut last_sent).is_empty());
    assert!(last_sent.is_empty());
}

#[test]
fn should_emit_respects_window() {
    let mut last_sent: Vec<(String, i64)> = Vec::new();
    assert!(should_emit("cpu_load", 100, 10, &mut last_sent));
    assert!(!should_emit("cpu_load", 105, 10, &mut last_sent));
    assert!(should_emit("gpu_load", 105, 10, &mut last_sent));
    assert!(should_emit("cpu_load", 110, 10, &mut last_sent));
}

#[test]
fn cpu_temperature_prefers_cpu_markers() {
    let mut state = State::new(0);
    state.temps = vec![
        TempStat {
            sensor: "nvidia gpu".to_string(),
            temperature_centi: 9000,
            critical_temperature_centi: None,
        },
        TempStat {
            sensor: "CPU Package".to_string(),
            temperature_centi: 5500,
            critical_temperature_centi: None,
        },
        TempStat {
            sensor: "coretemp".to_string(),
            temperature_centi: 6100,
            critical_temperature_centi: None,
        },
    ];
    assert_eq!(cpu_temperature_from_state(&state), Some(6100));
}

#[test]
fn cpu_temperature_falls_back_to_acpi() {
    let mut state = State::new(0);
    state.temps = vec![
        TempStat {
            sensor: "amdgpu edge".to_string(),
            temperature_centi: 7000,
            critical_temperature_centi: None,
        },
        TempStat {
            sensor: "acpitz thermal zone".to_string(),
            temperature_centi: 4200,
            critical_temperature_centi: None,
        },
    ];
    // The zone label carries no direct CPU marker, but it is not
    // GPU-labelled either, so the second stage picks it.
    assert_eq!(cpu_temperature_from_state(&state), Some(4200));
}

#[test]
fn network_rates_derive_from_previous_cycle() {
    let mut state = State::new(0);
    state.update_collected(
        100,
        None,
        None,
        None,
        None,
        None,
        0,
        0,
        0,
        0,
        0,
        0,
        vec![],
        vec![NetStat {
            iface: "eth0".to_string(),
            rx_bytes_total: 1000,
            tx_bytes_total: 2000,
            rx_bytes_per_sec: 0,
            tx_bytes_per_sec: 0,
        }],
        None,
        vec![],
        vec![],
        vec![],
        Default::default(),
    );
    assert_eq!(state.net[0].rx_bytes_per_sec, 0);
    assert_eq!(state.net[0].tx_bytes_per_sec, 0);

    state.update_collected(
        110,
        None,
        None,
        None,
        None,
        None,
        0,
        0,
        0,
        0,
        0,
        0,
        vec![],
        vec![NetStat {
            iface: "eth0".to_string(),
            rx_bytes_total: 6000,
            tx_bytes_total: 2100,
            rx_bytes_per_sec: 0,
            tx_bytes_per_sec: 0,
        }],
        None,
        vec![],
        vec![],
        vec![],
        Default::default(),
    );
    assert_eq!(state.net[0].rx_bytes_per_sec, 500);
    assert_eq!(state.net[0].tx_bytes_per_sec, 10);
}

#[test]
fn network_rate_survives_counter_reset() {
    let mut state = State::new(0);
    state.update_collected(
        100, None, None, None, None, None, 0, 0, 0, 0, 0, 0,
        vec![],
        vec![NetStat {
            iface: "eth0".to_string(),
            rx_bytes_total: 9000,
            tx_bytes_total: 9000,
            rx_bytes_per_sec: 0,
            tx_bytes_per_sec: 0,
        }],
        None,
        vec![],
        vec![],
        vec![],
        Default::default(),
    );
    state.update_collected(
        110, None, None, None, None, None, 0, 0, 0, 0, 0, 0,
        vec![],
        vec![NetStat {
            iface: "eth0".to_string(),
            rx_bytes_total: 100,
            tx_bytes_total: 100,
            rx_bytes_per_sec: 0,
            tx_bytes_per_sec: 0,
        }],
        None,
        vec![],
        vec![],
        vec![],
        Default::default(),
    );
    assert_eq!(state.net[0].rx_bytes_per_sec, 0);
}

#[test]
fn disk_percent_handles_empty_and_partial() {
    let empty = DiskStat {
        mount: "/".to_string(),
        used_bytes: 0,
        total_bytes: 0,
    };
    assert_eq!(monitord::stats::disk_used_pct(&empty), 0);

    let quarter = DiskStat {
        mount: "/".to_string(),
        used_bytes: 50,
        total_bytes: 200,
    };
    assert_eq!(monitord::stats::disk_used_pct(&quarter), 2500);
}

#[test]
fn chat_preferences_round_trip() {
    let mut state = State::new(0);
    assert!(state.check_alerts_enabled_for_chat(7));
    assert!(!state.alerts_enabled_for_chat(7, false));
    assert!(state.alerts_enabled_for_chat(7, true));

    state.set_alerts_enabled_for_chat(7, true);
    assert!(state.alerts_enabled_for_chat(7, false));

    state.set_check_alerts_enabled_for_chat(7, false);
    assert!(!state.check_alerts_enabled_for_chat(7));

    assert!(state.resource_alert_enabled_for_chat(7, ResourceAlertKind::GpuTemp));
    state.set_resource_alert_enabled_for_chat(7, ResourceAlertKind::GpuTemp, false);
    assert!(!state.resource_alert_enabled_for_chat(7, ResourceAlertKind::GpuTemp));
    assert!(state.resource_alert_enabled_for_chat(7, ResourceAlertKind::CpuTemp));
}

#[test]
fn check_outcomes_fold_into_results() {
    let (results, errors) = collect_checks(
        vec![
            HttpOutcome {
                name: "ok".to_string(),
                expected_status: 200,
                status: Some(200),
                latency_ms: 12,
            },
            HttpOutcome {
                name: "wrong-code".to_string(),
                expected_status: 200,
                status: Some(503),
                latency_ms: 20,
            },
            HttpOutcome {
                name: "down".to_string(),
                expected_status: 200,
                status: None,
                latency_ms: 5000,
            },
        ],
        vec![
            TcpOutcome {
                name: "db".to_string(),
                connected: true,
                latency_ms: 3,
            },
            TcpOutcome {
                name: "cache".to_string(),
                connected: false,
                latency_ms: 2000,
            },
        ],
    );
    assert_eq!(errors, 2);
    assert!(results.http[0].up);
    assert!(!results.http[1].up);
    assert_eq!(results.http[1].status_code, 503);
    assert!(!results.http[2].up);
    assert_eq!(results.http[2].status_code, 0);
    assert!(results.tcp[0].up);
    assert!(!results.tcp[1].up);
}
