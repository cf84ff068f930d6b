//! The validated configuration model the core reads: check definitions,
//! collection interval, and alert thresholds, cooldowns and toggles.
//!
//! Threshold percentages and temperatures are centi-values (hundredths),
//! like every other fractional quantity in the crate. Loading the model
//! from a file and checking the listening address's syntax belong to the
//! runtime around the library; the structural rules live here.

use crate::text::{is_blank, spec_trim};
use vstd::prelude::*;
use vstd::string::StringExecFns;

verus! {

/// One configured HTTP reachability check.
#[derive(Debug, Clone, PartialEq)]
pub struct HttpCheckConfig {
    pub name: String,
    pub url: String,
    pub timeout_ms: u64,
    pub expected_status: u16,
}

/// One configured TCP reachability check.
#[derive(Debug, Clone, PartialEq)]
pub struct TcpCheckConfig {
    pub name: String,
    pub host: String,
    pub port: u16,
    pub timeout_ms: u64,
}

/// Alerting thresholds and the hysteresis / cooldown parameters.
#[derive(Debug, Clone, PartialEq)]
pub struct AlertsConfig {
    pub enabled_by_default: bool,
    pub repeat_interval_secs: u64,
    pub fail_threshold: u32,
    pub recovery_notify: bool,
    pub resource_alerts_enabled: bool,
    pub gpu_load_threshold_centi_pct: i64,
    pub gpu_temp_threshold_centi: i64,
    pub cpu_temp_threshold_centi: i64,
    pub cpu_load_threshold_centi_pct: i64,
    pub ram_usage_threshold_centi_pct: i64,
    pub disk_usage_threshold_centi_pct: i64,
    pub resource_alert_cooldown_secs: u64,
}

/// Settings of the notification bot.
#[derive(Debug, Clone, PartialEq)]
pub struct TelegramConfig {
    pub enabled: bool,
    pub bot_token_env: String,
    pub bot_token: Option<String>,
    pub allowed_chat_ids: Vec<i64>,
    pub rate_limit_per_minute: u32,
    pub public_base_url: Option<String>,
    pub alerts: AlertsConfig,
}

/// The whole agent configuration.
#[derive(Debug, Clone, PartialEq)]
pub struct Config {
    pub listen: String,
    pub interval_secs: u64,
    pub http_checks: Vec<HttpCheckConfig>,
    pub tcp_checks: Vec<TcpCheckConfig>,
    pub telegram: TelegramConfig,
}

/// A structural rule the configuration breaks.
#[derive(Debug, Clone, PartialEq)]
pub enum ConfigError {
    Validation(String),
}

impl ConfigError {
    /// The human-readable description of the violation.
    pub fn message(&self) -> (r: String)
        ensures
            self matches ConfigError::Validation(m) ==> r@ == m@,
    {
        match self {
            ConfigError::Validation(m) => m.clone(),
        }
    }
}

pub fn default_expected_status() -> (r: u16)
    ensures
        r == 200,
{
    200
}

pub fn default_bot_token_env() -> (r: String)
    ensures
        r@ == "TELEGRAM_BOT_TOKEN"@,
{
    String::from_str("TELEGRAM_BOT_TOKEN")
}

pub fn default_rate_limit_per_minute() -> (r: u32)
    ensures
        r == 30,
{
    30
}

pub fn default_repeat_interval_secs() -> (r: u64)
    ensures
        r == 1800,
{
    1800
}

pub fn default_fail_threshold() -> (r: u32)
    ensures
        r == 3,
{
    3
}

pub fn default_recovery_notify() -> (r: bool)
    ensures
        r == true,
{
    true
}

pub fn default_resource_alerts_enabled() -> (r: bool)
    ensures
        r == true,
{
    true
}

/// 92%, in hundredths of a percent.
pub fn default_gpu_load_threshold_percent() -> (r: i64)
    ensures
        r == 9200,
{
    9200
}

/// 75 degrees Celsius, in hundredths.
pub fn default_gpu_temp_threshold_celsius() -> (r: i64)
    ensures
        r == 7500,
{
    7500
}

/// 85 degrees Celsius, in hundredths.
pub fn default_cpu_temp_threshold_celsius() -> (r: i64)
    ensures
        r == 8500,
{
    8500
}

/// 92%, in hundredths of a percent.
pub fn default_cpu_load_threshold_percent() -> (r: i64)
    ensures
        r == 9200,
{
    9200
}

/// 92%, in hundredths of a percent.
pub fn default_ram_usage_threshold_percent() -> (r: i64)
    ensures
        r == 9200,
{
    9200
}

/// 95%, in hundredths of a percent.
pub fn default_disk_usage_threshold_percent() -> (r: i64)
    ensures
        r == 9500,
{
    9500
}

pub fn default_resource_alert_cooldown_secs() -> (r: u64)
    ensures
        r == 10,
{
    10
}

impl Default for AlertsConfig {
    /// Alerting defaults: enabled, threshold of three consecutive failures,
    /// half-hour repeats.
    fn default() -> (r: Self)
        ensures
            r.enabled_by_default == true,
            r.repeat_interval_secs == 1800,
            r.fail_threshold == 3,
            r.recovery_notify == true,
            r.resource_alerts_enabled == true,
            r.gpu_load_threshold_centi_pct == 9200,
            r.gpu_temp_threshold_centi == 7500,
            r.cpu_temp_threshold_centi == 8500,
            r.cpu_load_threshold_centi_pct == 9200,
            r.ram_usage_threshold_centi_pct == 9200,
            r.disk_usage_threshold_centi_pct == 9500,
            r.resource_alert_cooldown_secs == 10,
    {
        AlertsConfig {
            enabled_by_default: true,
            repeat_interval_secs: default_repeat_interval_secs(),
            fail_threshold: default_fail_threshold(),
            recovery_notify: default_recovery_notify(),
            resource_alerts_enabled: default_resource_alerts_enabled(),
            gpu_load_threshold_centi_pct: default_gpu_load_threshold_percent(),
            gpu_temp_threshold_centi: default_gpu_temp_threshold_celsius(),
            cpu_temp_threshold_centi: default_cpu_temp_threshold_celsius(),
            cpu_load_threshold_centi_pct: default_cpu_load_threshold_percent(),
            ram_usage_threshold_centi_pct: default_ram_usage_threshold_percent(),
            disk_usage_threshold_centi_pct: default_disk_usage_threshold_percent(),
            resource_alert_cooldown_secs: default_resource_alert_cooldown_secs(),
        }
    }
}

impl Default for TelegramConfig {
    /// Bot defaults: disabled, token taken from the conventional
    /// environment variable name, thirty requests per minute.
    fn default() -> (r: Self)
        ensures
            r.enabled == false,
            r.bot_token_env@ == "TELEGRAM_BOT_TOKEN"@,
            r.bot_token is None,
            r.allowed_chat_ids@.len() == 0,
            r.rate_limit_per_minute == 30,
            r.public_base_url is None,
    {
        TelegramConfig {
            enabled: false,
            bot_token_env: default_bot_token_env(),
            bot_token: None,
            allowed_chat_ids: Vec::new(),
            rate_limit_per_minute: default_rate_limit_per_minute(),
            public_base_url: None,
            alerts: AlertsConfig::default(),
        }
    }
}

/// The structural rules on HTTP checks: non-blank unique names, a
/// non-blank URL, and a positive timeout.
pub open spec fn spec_http_checks_valid(checks: Seq<HttpCheckConfig>) -> bool {
    &&& forall|i: int| 0 <= i < checks.len() ==> spec_trim(#[trigger] checks[i].name@).len() > 0
    &&& forall|i: int, j: int|
        0 <= i < j < checks.len() ==> #[trigger] checks[i].name@ != #[trigger] checks[j].name@
    &&& forall|i: int| 0 <= i < checks.len() ==> #[trigger] checks[i].timeout_ms > 0
    &&& forall|i: int| 0 <= i < checks.len() ==> spec_trim(#[trigger] checks[i].url@).len() > 0
}

/// The structural rules on TCP checks: non-blank unique names, a
/// non-blank host, a non-zero port, and a positive timeout.
pub open spec fn spec_tcp_checks_valid(checks: Seq<TcpCheckConfig>) -> bool {
    &&& forall|i: int| 0 <= i < checks.len() ==> spec_trim(#[trigger] checks[i].name@).len() > 0
    &&& forall|i: int, j: int|
        0 <= i < j < checks.len() ==> #[trigger] checks[i].name@ != #[trigger] checks[j].name@
    &&& forall|i: int| 0 <= i < checks.len() ==> #[trigger] checks[i].host@.len() > 0
        && spec_trim(checks[i].host@).len() > 0
    &&& forall|i: int| 0 <= i < checks.len() ==> #[trigger] checks[i].port != 0
    &&& forall|i: int| 0 <= i < checks.len() ==> #[trigger] checks[i].timeout_ms > 0
}

/// The structural rules on the bot settings and thresholds.
pub open spec fn spec_telegram_valid(cfg: TelegramConfig) -> bool {
    &&& cfg.rate_limit_per_minute >= 1
    &&& cfg.alerts.fail_threshold >= 1
    &&& cfg.alerts.repeat_interval_secs >= 60
    &&& 0 <= cfg.alerts.gpu_load_threshold_centi_pct <= 10000
    &&& cfg.alerts.gpu_temp_threshold_centi > 0
    &&& cfg.alerts.cpu_temp_threshold_centi > 0
    &&& 0 <= cfg.alerts.cpu_load_threshold_centi_pct <= 10000
    &&& 0 <= cfg.alerts.ram_usage_threshold_centi_pct <= 10000
    &&& 0 <= cfg.alerts.disk_usage_threshold_centi_pct <= 10000
    &&& cfg.alerts.resource_alert_cooldown_secs >= 1
}

/// The structural rules on the whole configuration.
pub open spec fn spec_config_valid(cfg: Config) -> bool {
    &&& spec_trim(cfg.listen@).len() > 0
    &&& cfg.interval_secs >= 1
    &&& spec_http_checks_valid(cfg.http_checks@)
    &&& spec_tcp_checks_valid(cfg.tcp_checks@)
    &&& spec_telegram_valid(cfg.telegram)
}

/// A validation error carrying the given description and, where one is
/// given, the name of the offending check.
fn validation_error(msg: &str, name: Option<&String>) -> (r: ConfigError)
    ensures
        r is Validation,
{
    let mut text = String::from_str(msg);
    match name {
        Some(n) => {
            text.append(": '");
            text.append(n.as_str());
            text.append("'");
        },
        None => {},
    }
    ConfigError::Validation(text)
}

/// Checks the structural rules on the HTTP checks, in order: a blank
/// name, a reused name, a zero timeout or a blank URL each reject the
/// configuration.
pub fn validate_http_checks(checks: &Vec<HttpCheckConfig>) -> (r: Result<(), ConfigError>)
    ensures
        r is Ok <==> spec_http_checks_valid(checks@),
{
    let mut i: usize = 0;
    while i < checks.len()
        invariant
            i <= checks@.len(),
            forall|k: int| 0 <= k < i ==> spec_trim(#[trigger] checks@[k].name@).len() > 0,
            forall|k: int, j: int|
                0 <= k < j < i ==> #[trigger] checks@[k].name@ != #[trigger] checks@[j].name@,
            forall|k: int| 0 <= k < i ==> #[trigger] checks@[k].timeout_ms > 0,
            forall|k: int| 0 <= k < i ==> spec_trim(#[trigger] checks@[k].url@).len() > 0,
        decreases checks.len() - i,
    {
        if is_blank(checks[i].name.as_str()) {
            return Err(validation_error("http check name must not be blank", None));
        }
        let mut j: usize = 0;
        while j < i
            invariant
                j <= i < checks@.len(),
                forall|k: int| 0 <= k < j ==> #[trigger] checks@[k].name@ != checks@[i as int].name@,
            decreases i - j,
        {
            if checks[j].name == checks[i].name {
                return Err(
                    validation_error("http check name must be unique", Some(&checks[i].name)),
                );
            }
            j = j + 1;
        }
        if checks[i].timeout_ms == 0 {
            return Err(validation_error("http check timeout_ms must be > 0", Some(&checks[i].name)));
        }
        if is_blank(checks[i].url.as_str()) {
            return Err(
                validation_error("http check url must not be blank", Some(&checks[i].name)),
            );
        }
        i = i + 1;
    }
    Ok(())
}

/// Checks the structural rules on the TCP checks, in order: a blank name,
/// a reused name, a blank host, a zero port or a zero timeout each reject
/// the configuration.
pub fn validate_tcp_checks(checks: &Vec<TcpCheckConfig>) -> (r: Result<(), ConfigError>)
    ensures
        r is Ok <==> spec_tcp_checks_valid(checks@),
{
    let mut i: usize = 0;
    while i < checks.len()
        invariant
            i <= checks@.len(),
            forall|k: int| 0 <= k < i ==> spec_trim(#[trigger] checks@[k].name@).len() > 0,
            forall|k: int, j: int|
                0 <= k < j < i ==> #[trigger] checks@[k].name@ != #[trigger] checks@[j].name@,
            forall|k: int| 0 <= k < i ==> #[trigger] checks@[k].host@.len() > 0 && spec_trim(
                checks@[k].host@,
            ).len() > 0,
            forall|k: int| 0 <= k < i ==> #[trigger] checks@[k].port != 0,
            forall|k: int| 0 <= k < i ==> #[trigger] checks@[k].timeout_ms > 0,
        decreases checks.len() - i,
    {
        if is_blank(checks[i].name.as_str()) {
            return Err(validation_error("tcp check name must not be blank", None));
        }
        let mut j: usize = 0;
        while j < i
            invariant
                j <= i < checks@.len(),
                forall|k: int| 0 <= k < j ==> #[trigger] checks@[k].name@ != checks@[i as int].name@,
            decreases i - j,
        {
            if checks[j].name == checks[i].name {
                return Err(
                    validation_error("tcp check name must be unique", Some(&checks[i].name)),
                );
            }
            j = j + 1;
        }
        if checks[i].host.as_str().is_empty() || is_blank(checks[i].host.as_str()) {
            return Err(
                validation_error("tcp check host must not be blank", Some(&checks[i].name)),
            );
        }
        if checks[i].port == 0 {
            return Err(
                validation_error("tcp check port must be in 1..65535", Some(&checks[i].name)),
            );
        }
        if checks[i].timeout_ms == 0 {
            return Err(
                validation_error("tcp check timeout_ms must be > 0", Some(&checks[i].name)),
            );
        }
        i = i + 1;
    }
    Ok(())
}

/// Checks the bot settings and alert thresholds.
pub fn validate_telegram(cfg: &TelegramConfig) -> (r: Result<(), ConfigError>)
    ensures
        r is Ok <==> spec_telegram_valid(*cfg),
{
    if cfg.rate_limit_per_minute < 1 {
        return Err(validation_error("telegram.rate_limit_per_minute must be >= 1", None));
    }
    if cfg.alerts.fail_threshold < 1 {
        return Err(validation_error("telegram.alerts.fail_threshold must be >= 1", None));
    }
    if cfg.alerts.repeat_interval_secs < 60 {
        return Err(validation_error("telegram.alerts.repeat_interval_secs must be >= 60", None));
    }
    if cfg.alerts.gpu_load_threshold_centi_pct < 0 || cfg.alerts.gpu_load_threshold_centi_pct
        > 10000 {
        return Err(
            validation_error("telegram.alerts.gpu_load_threshold_percent must be in 0..100", None),
        );
    }
    if cfg.alerts.gpu_temp_threshold_centi <= 0 {
        return Err(
            validation_error("telegram.alerts.gpu_temp_threshold_celsius must be > 0", None),
        );
    }
    if cfg.alerts.cpu_temp_threshold_centi <= 0 {
        return Err(
            validation_error("telegram.alerts.cpu_temp_threshold_celsius must be > 0", None),
        );
    }
    if cfg.alerts.cpu_load_threshold_centi_pct < 0 || cfg.alerts.cpu_load_threshold_centi_pct
        > 10000 {
        return Err(
            validation_error("telegram.alerts.cpu_load_threshold_percent must be in 0..100", None),
        );
    }
    if cfg.alerts.ram_usage_threshold_centi_pct < 0 || cfg.alerts.ram_usage_threshold_centi_pct
        > 10000 {
        return Err(
            validation_error("telegram.alerts.ram_usage_threshold_percent must be in 0..100", None),
        );
    }
    if cfg.alerts.disk_usage_threshold_centi_pct < 0 || cfg.alerts.disk_usage_threshold_centi_pct
        > 10000 {
        return Err(
            validation_error(
                "telegram.alerts.disk_usage_threshold_percent must be in 0..100",
                None,
            ),
        );
    }
    if cfg.alerts.resource_alert_cooldown_secs < 1 {
        return Err(
            validation_error("telegram.alerts.resource_alert_cooldown_secs must be >= 1", None),
        );
    }
    Ok(())
}

impl Config {
    /// Checks every structural rule of the configuration. The syntax of
    /// the listening address is the server's concern and is checked where
    /// the listener is bound.
    pub fn validate(&self) -> (r: Result<(), ConfigError>)
        ensures
            r is Ok <==> spec_config_valid(*self),
    {
        if is_blank(self.listen.as_str()) {
            return Err(validation_error("the listen field is required", None));
        }
        if self.interval_secs < 1 {
            return Err(validation_error("interval_secs must be >= 1", None));
        }
        match validate_http_checks(&self.http_checks) {
            Ok(()) => {},
            Err(e) => {
                return Err(e);
            },
        }
        match validate_tcp_checks(&self.tcp_checks) {
            Ok(()) => {},
            Err(e) => {
                return Err(e);
            },
        }
        match validate_telegram(&self.telegram) {
            Ok(()) => {},
            Err(e) => {
                return Err(e);
            },
        }
        Ok(())
    }
}

} // verus!
