//! The snapshot store and the per-check alert state machine.
//!
//! `State` holds the latest merged telemetry snapshot plus the alert
//! bookkeeping that survives across collection cycles. The per-check
//! hysteresis machine requires a configured number of consecutive failures
//! before a `Down` event, repeats the alert at a configured interval while
//! the check stays down, and emits `Recovered` on the way back up.

use crate::config::AlertsConfig;
use crate::stats::{
    CheckId, CheckKind, CheckResults, DiskStat, GpuStat, HttpCheckResult, InternetSpeedStat,
    NetStat, SensorStat, TcpCheckResult, TempStat,
};
use std::time::SystemTime;
use std::time::UNIX_EPOCH;
use vstd::prelude::*;

verus! {

/// Alert bookkeeping of one check, persisted across cycles.
#[derive(Debug, Clone, Copy, PartialEq)]
pub struct AlertTrackState {
    pub consecutive_failures: u32,
    pub is_down: bool,
    pub last_alert_sent_at: Option<i64>,
    pub last_state_change_at: Option<i64>,
}

/// The bookkeeping a check starts with: up, with no failures recorded.
pub open spec fn spec_track_default() -> AlertTrackState {
    AlertTrackState {
        consecutive_failures: 0,
        is_down: false,
        last_alert_sent_at: None,
        last_state_change_at: None,
    }
}

impl Default for AlertTrackState {
    fn default() -> (r: Self)
        ensures
            r == spec_track_default(),
    {
        AlertTrackState {
            consecutive_failures: 0,
            is_down: false,
            last_alert_sent_at: None,
            last_state_change_at: None,
        }
    }
}

/// What an alert event reports about a check.
#[derive(Debug, Clone, Copy, PartialEq, Eq, Structural)]
pub enum AlertEventKind {
    Down,
    Repeat,
    Recovered,
}

/// One check-based alert event of a collection cycle.
#[derive(Debug, Clone, PartialEq)]
pub struct AlertEvent {
    pub check_id: CheckId,
    pub kind: AlertEventKind,
}

/// The resource metrics that threshold alerts watch.
#[derive(Debug, Clone, Copy, PartialEq, Eq, Hash, Structural)]
pub enum ResourceAlertKind {
    CpuTemp,
    GpuTemp,
    CpuLoad,
    GpuLoad,
    RamUsage,
    DiskUsage,
}

/// One threshold alert with its rendered text.
#[derive(Debug, Clone, PartialEq)]
pub struct ResourceAlert {
    pub kind: ResourceAlertKind,
    pub text: String,
}

/// Per-chat switches for each resource alert kind.
#[derive(Debug, Clone, PartialEq)]
pub struct ResourceAlertPrefs {
    pub cpu_temp: bool,
    pub gpu_temp: bool,
    pub cpu_load: bool,
    pub gpu_load: bool,
    pub ram_usage: bool,
    pub disk_usage: bool,
}

/// All resource alerts start enabled.
pub open spec fn spec_prefs_default() -> ResourceAlertPrefs {
    ResourceAlertPrefs {
        cpu_temp: true,
        gpu_temp: true,
        cpu_load: true,
        gpu_load: true,
        ram_usage: true,
        disk_usage: true,
    }
}

impl Default for ResourceAlertPrefs {
    fn default() -> (r: Self)
        ensures
            r == spec_prefs_default(),
    {
        ResourceAlertPrefs {
            cpu_temp: true,
            gpu_temp: true,
            cpu_load: true,
            gpu_load: true,
            ram_usage: true,
            disk_usage: true,
        }
    }
}

/// Which switch of the preferences governs a kind.
pub open spec fn spec_pref_for(p: ResourceAlertPrefs, kind: ResourceAlertKind) -> bool {
    match kind {
        ResourceAlertKind::CpuTemp => p.cpu_temp,
        ResourceAlertKind::GpuTemp => p.gpu_temp,
        ResourceAlertKind::CpuLoad => p.cpu_load,
        ResourceAlertKind::GpuLoad => p.gpu_load,
        ResourceAlertKind::RamUsage => p.ram_usage,
        ResourceAlertKind::DiskUsage => p.disk_usage,
    }
}

/// One step of the per-check hysteresis machine: the new bookkeeping and
/// the event it emits, if any.
///
/// On success the failure counter resets, and leaving the down state emits
/// `Recovered` when recovery notifications are enabled. On failure the
/// counter grows (saturating); an up check goes down with a `Down` event
/// once the counter reaches the threshold; a down check re-alerts with
/// `Repeat` when the repeat interval has passed since the last alert.
pub open spec fn spec_fsm_step(
    prev: AlertTrackState,
    is_up: bool,
    cfg: AlertsConfig,
    now: i64,
) -> (AlertTrackState, Option<AlertEventKind>) {
    if is_up {
        let nw = AlertTrackState {
            consecutive_failures: 0,
            is_down: false,
            last_alert_sent_at: prev.last_alert_sent_at,
            last_state_change_at: if prev.is_down {
                Some(now)
            } else {
                prev.last_state_change_at
            },
        };
        if prev.is_down && cfg.recovery_notify {
            (nw, Some(AlertEventKind::Recovered))
        } else {
            (nw, None)
        }
    } else {
        let fails: u32 = if prev.consecutive_failures < 0xffff_ffffu32 {
            (prev.consecutive_failures + 1) as u32
        } else {
            prev.consecutive_failures
        };
        if !prev.is_down && fails >= cfg.fail_threshold {
            (
                AlertTrackState {
                    consecutive_failures: fails,
                    is_down: true,
                    last_alert_sent_at: Some(now),
                    last_state_change_at: Some(now),
                },
                Some(AlertEventKind::Down),
            )
        } else if prev.is_down {
            match prev.last_alert_sent_at {
                Some(last) => if now - last >= cfg.repeat_interval_secs {
                    (
                        AlertTrackState {
                            consecutive_failures: fails,
                            is_down: true,
                            last_alert_sent_at: Some(now),
                            last_state_change_at: prev.last_state_change_at,
                        },
                        Some(AlertEventKind::Repeat),
                    )
                } else {
                    (
                        AlertTrackState {
                            consecutive_failures: fails,
                            is_down: true,
                            last_alert_sent_at: prev.last_alert_sent_at,
                            last_state_change_at: prev.last_state_change_at,
                        },
                        None,
                    )
                },
                None => (
                    AlertTrackState {
                        consecutive_failures: fails,
                        is_down: true,
                        last_alert_sent_at: Some(now),
                        last_state_change_at: prev.last_state_change_at,
                    },
                    Some(AlertEventKind::Repeat),
                ),
            }
        } else {
            (
                AlertTrackState {
                    consecutive_failures: fails,
                    is_down: false,
                    last_alert_sent_at: prev.last_alert_sent_at,
                    last_state_change_at: prev.last_state_change_at,
                },
                None,
            )
        }
    }
}

/// Tracking entries reduced to what contracts compare: check kind, check
/// name, bookkeeping.
pub open spec fn track_models(t: Seq<(CheckId, AlertTrackState)>) -> Seq<
    (CheckKind, Seq<char>, AlertTrackState),
> {
    Seq::new(t.len(), |i: int| (t[i].0.kind, t[i].0.name@, t[i].1))
}

/// Alert events reduced to check kind, check name and event kind.
pub open spec fn event_models(e: Seq<AlertEvent>) -> Seq<(CheckKind, Seq<char>, AlertEventKind)> {
    Seq::new(e.len(), |i: int| (e[i].check_id.kind, e[i].check_id.name@, e[i].kind))
}

/// Index of the entry tracking the check `(kind, name)`, or -1.
pub open spec fn spec_track_find(
    t: Seq<(CheckKind, Seq<char>, AlertTrackState)>,
    kind: CheckKind,
    name: Seq<char>,
) -> int
    decreases t.len(),
{
    if t.len() == 0 {
        -1
    } else if t[0].0 == kind && t[0].1 == name {
        0
    } else {
        let r = spec_track_find(t.drop_first(), kind, name);
        if r == -1 {
            -1
        } else {
            1 + r
        }
    }
}

/// A found index is in bounds and matches.
pub proof fn lemma_track_find_bounds(
    t: Seq<(CheckKind, Seq<char>, AlertTrackState)>,
    kind: CheckKind,
    name: Seq<char>,
)
    ensures
        spec_track_find(t, kind, name) == -1 || (0 <= spec_track_find(t, kind, name) < t.len()
            && t[spec_track_find(t, kind, name)].0 == kind && t[spec_track_find(t, kind, name)].1
            == name),
    decreases t.len(),
{
    if t.len() > 0 && !(t[0].0 == kind && t[0].1 == name) {
        lemma_track_find_bounds(t.drop_first(), kind, name);
        let r = spec_track_find(t.drop_first(), kind, name);
        if r != -1 {
            assert(t.drop_first()[r] == t[r + 1]);
        }
    }
}

/// Finds the entry tracking `(kind, name)`.
fn track_find_index(
    tracking: &Vec<(CheckId, AlertTrackState)>,
    kind: CheckKind,
    name: &String,
) -> (r: Option<usize>)
    ensures
        ({
            let ti = spec_track_find(track_models(tracking@), kind, name@);
            match r {
                Some(i) => ti == i as int && i < tracking@.len(),
                None => ti == -1,
            }
        }),
{
    let ghost t0 = track_models(tracking@);
    proof {
        assert(t0.skip(0) =~= t0);
    }
    let mut i: usize = 0;
    while i < tracking.len()
        invariant
            i <= tracking@.len(),
            t0 == track_models(tracking@),
            ({
                let rest = spec_track_find(t0.skip(i as int), kind, name@);
                let whole = spec_track_find(t0, kind, name@);
                if rest == -1 {
                    whole == -1
                } else {
                    whole == i + rest
                }
            }),
        decreases tracking.len() - i,
    {
        if tracking[i].0.kind == kind && tracking[i].0.name == *name {
            proof {
                assert(t0.skip(i as int)[0] == t0[i as int]);
                assert(spec_track_find(t0.skip(i as int), kind, name@) == 0);
            }
            return Some(i);
        }
        proof {
            assert(t0.skip(i as int)[0] == t0[i as int]);
            assert(t0.skip(i as int).drop_first() =~= t0.skip(i as int + 1));
            lemma_track_find_bounds(t0.skip(i as int + 1), kind, name@);
        }
        i = i + 1;
    }
    proof {
        assert(t0.skip(tracking@.len() as int) =~= Seq::<
            (CheckKind, Seq<char>, AlertTrackState),
        >::empty());
    }
    None
}

/// One tracked check processed against its new result: the updated
/// tracking model and the event emitted, if any. A check seen for the
/// first time starts from the default bookkeeping and is appended.
pub open spec fn spec_track_step(
    t: Seq<(CheckKind, Seq<char>, AlertTrackState)>,
    kind: CheckKind,
    name: Seq<char>,
    is_up: bool,
    cfg: AlertsConfig,
    now: i64,
) -> (Seq<(CheckKind, Seq<char>, AlertTrackState)>, Option<AlertEventKind>) {
    let ti = spec_track_find(t, kind, name);
    let prev = if ti >= 0 {
        t[ti].2
    } else {
        spec_track_default()
    };
    let step = spec_fsm_step(prev, is_up, cfg, now);
    let t2 = if ti >= 0 {
        t.update(ti, (t[ti].0, t[ti].1, step.0))
    } else {
        t.push((kind, name, step.0))
    };
    (t2, step.1)
}

/// Applies one check result to the tracking store, appending the emitted
/// event, if any, to `events`.
pub fn update_alert_state(
    tracking: &mut Vec<(CheckId, AlertTrackState)>,
    check_id: CheckId,
    is_up: bool,
    cfg: &AlertsConfig,
    now_unix: i64,
    events: &mut Vec<AlertEvent>,
)
    ensures
        ({
            let step = spec_track_step(
                track_models(old(tracking)@),
                check_id.kind,
                check_id.name@,
                is_up,
                *cfg,
                now_unix,
            );
            &&& track_models(final(tracking)@) == step.0
            &&& match step.1 {
                Some(k) => final(events)@ == old(events)@.push(
                    AlertEvent { check_id: check_id, kind: k },
                ),
                None => final(events)@ == old(events)@,
            }
        }),
{
    let ghost t0 = track_models(tracking@);
    let found: Option<usize> = track_find_index(tracking, check_id.kind, &check_id.name);
    let ghost ti = spec_track_find(t0, check_id.kind, check_id.name@);
    let prev: AlertTrackState = match found {
        Some(i) => tracking[i].1,
        None => AlertTrackState::default(),
    };
    let ghost step = spec_fsm_step(prev, is_up, *cfg, now_unix);
    let (next, event) = fsm_step(&prev, is_up, cfg, now_unix);
    match found {
        Some(i) => {
            let id_keep = CheckId { kind: tracking[i].0.kind, name: tracking[i].0.name.clone() };
            tracking.set(i, (id_keep, next));
            proof {
                assert(track_models(tracking@) =~~= t0.update(ti, (t0[ti].0, t0[ti].1, step.0)));
            }
        },
        None => {
            let id_new = CheckId { kind: check_id.kind, name: check_id.name.clone() };
            tracking.push((id_new, next));
            proof {
                assert(track_models(tracking@) =~~= t0.push(
                    (check_id.kind, check_id.name@, step.0),
                ));
            }
        },
    }
    match event {
        Some(k) => {
            events.push(AlertEvent { check_id, kind: k });
        },
        None => {},
    }
}

/// The executable step of the hysteresis machine.
pub fn fsm_step(prev: &AlertTrackState, is_up: bool, cfg: &AlertsConfig, now: i64) -> (r: (
    AlertTrackState,
    Option<AlertEventKind>,
))
    ensures
        r == spec_fsm_step(*prev, is_up, *cfg, now),
{
    if is_up {
        let nw = AlertTrackState {
            consecutive_failures: 0,
            is_down: false,
            last_alert_sent_at: prev.last_alert_sent_at,
            last_state_change_at: if prev.is_down {
                Some(now)
            } else {
                prev.last_state_change_at
            },
        };
        if prev.is_down && cfg.recovery_notify {
            (nw, Some(AlertEventKind::Recovered))
        } else {
            (nw, None)
        }
    } else {
        let fails: u32 = if prev.consecutive_failures < 0xffff_ffffu32 {
            prev.consecutive_failures + 1
        } else {
            prev.consecutive_failures
        };
        if !prev.is_down && fails >= cfg.fail_threshold {
            (
                AlertTrackState {
                    consecutive_failures: fails,
                    is_down: true,
                    last_alert_sent_at: Some(now),
                    last_state_change_at: Some(now),
                },
                Some(AlertEventKind::Down),
            )
        } else if prev.is_down {
            let repeat_due: bool = match prev.last_alert_sent_at {
                Some(last) => (now as i128) - (last as i128) >= (cfg.repeat_interval_secs as i128),
                None => true,
            };
            if repeat_due {
                (
                    AlertTrackState {
                        consecutive_failures: fails,
                        is_down: true,
                        last_alert_sent_at: Some(now),
                        last_state_change_at: prev.last_state_change_at,
                    },
                    Some(AlertEventKind::Repeat),
                )
            } else {
                (
                    AlertTrackState {
                        consecutive_failures: fails,
                        is_down: true,
                        last_alert_sent_at: prev.last_alert_sent_at,
                        last_state_change_at: prev.last_state_change_at,
                    },
                    None,
                )
            }
        } else {
            (
                AlertTrackState {
                    consecutive_failures: fails,
                    is_down: false,
                    last_alert_sent_at: prev.last_alert_sent_at,
                    last_state_change_at: prev.last_state_change_at,
                },
                None,
            )
        }
    }
}

/// The wall clock as whole seconds since the Unix epoch. Relies on
/// `std::time::SystemTime::now` and `duration_since`; a clock before the
/// epoch reads as zero, so the result is never negative.
#[verifier::external_body]
pub fn now_unix() -> (r: i64)
    ensures
        r >= 0,
{
    SystemTime::now().duration_since(UNIX_EPOCH).map(|d| d.as_secs() as i64).unwrap_or(0)
}

/// The latest merged snapshot plus the alert bookkeeping, owned by the
/// collection cycle.
#[derive(Debug, Clone)]
pub struct State {
    pub started_at_unix: i64,
    pub last_collect_timestamp_seconds: i64,
    pub host_name: Option<String>,
    pub os_name: Option<String>,
    pub os_version: Option<String>,
    pub kernel_version: Option<String>,
    pub cpu_brand: Option<String>,
    pub system_uptime_seconds: u64,
    pub process_count: u64,
    pub cpu_core_count: u32,
    pub cpu_usage_centi_pct: i64,
    pub memory_used_bytes: u64,
    pub memory_total_bytes: u64,
    pub disks: Vec<DiskStat>,
    pub net: Vec<NetStat>,
    pub internet_speed: Option<InternetSpeedStat>,
    pub temps: Vec<TempStat>,
    pub gpus: Vec<GpuStat>,
    pub sensors: Vec<SensorStat>,
    pub checks: CheckResults,
    pub alert_tracking: Vec<(CheckId, AlertTrackState)>,
    pub chat_alert_prefs: Vec<(i64, bool)>,
    pub chat_check_alert_prefs: Vec<(i64, bool)>,
    pub chat_resource_alert_prefs: Vec<(i64, ResourceAlertPrefs)>,
}

/// `a` and `b` agree on everything but the alert tracking store.
pub open spec fn eq_except_tracking(a: State, b: State) -> bool {
    &&& a.started_at_unix == b.started_at_unix
    &&& a.last_collect_timestamp_seconds == b.last_collect_timestamp_seconds
    &&& a.host_name == b.host_name
    &&& a.os_name == b.os_name
    &&& a.os_version == b.os_version
    &&& a.kernel_version == b.kernel_version
    &&& a.cpu_brand == b.cpu_brand
    &&& a.system_uptime_seconds == b.system_uptime_seconds
    &&& a.process_count == b.process_count
    &&& a.cpu_core_count == b.cpu_core_count
    &&& a.cpu_usage_centi_pct == b.cpu_usage_centi_pct
    &&& a.memory_used_bytes == b.memory_used_bytes
    &&& a.memory_total_bytes == b.memory_total_bytes
    &&& a.disks == b.disks
    &&& a.net == b.net
    &&& a.internet_speed == b.internet_speed
    &&& a.temps == b.temps
    &&& a.gpus == b.gpus
    &&& a.sensors == b.sensors
    &&& a.checks == b.checks
    &&& a.chat_alert_prefs == b.chat_alert_prefs
    &&& a.chat_check_alert_prefs == b.chat_check_alert_prefs
    &&& a.chat_resource_alert_prefs == b.chat_resource_alert_prefs
}

/// `a` and `b` agree on everything but the per-chat preference lists.
pub open spec fn eq_except_prefs(a: State, b: State) -> bool {
    &&& a.started_at_unix == b.started_at_unix
    &&& a.last_collect_timestamp_seconds == b.last_collect_timestamp_seconds
    &&& a.host_name == b.host_name
    &&& a.os_name == b.os_name
    &&& a.os_version == b.os_version
    &&& a.kernel_version == b.kernel_version
    &&& a.cpu_brand == b.cpu_brand
    &&& a.system_uptime_seconds == b.system_uptime_seconds
    &&& a.process_count == b.process_count
    &&& a.cpu_core_count == b.cpu_core_count
    &&& a.cpu_usage_centi_pct == b.cpu_usage_centi_pct
    &&& a.memory_used_bytes == b.memory_used_bytes
    &&& a.memory_total_bytes == b.memory_total_bytes
    &&& a.disks == b.disks
    &&& a.net == b.net
    &&& a.internet_speed == b.internet_speed
    &&& a.temps == b.temps
    &&& a.gpus == b.gpus
    &&& a.sensors == b.sensors
    &&& a.checks == b.checks
    &&& a.alert_tracking == b.alert_tracking
}

/// Index of the entry for `id` in an association list, or -1.
pub open spec fn spec_assoc_find<T>(s: Seq<(i64, T)>, id: i64) -> int
    decreases s.len(),
{
    if s.len() == 0 {
        -1
    } else if s[0].0 == id {
        0
    } else {
        let r = spec_assoc_find(s.drop_first(), id);
        if r == -1 {
            -1
        } else {
            1 + r
        }
    }
}

/// A found index is in bounds and matches.
pub proof fn lemma_assoc_find_bounds<T>(s: Seq<(i64, T)>, id: i64)
    ensures
        spec_assoc_find(s, id) == -1 || (0 <= spec_assoc_find(s, id) < s.len() && s[spec_assoc_find(
            s,
            id,
        )].0 == id),
    decreases s.len(),
{
    if s.len() > 0 && s[0].0 != id {
        lemma_assoc_find_bounds(s.drop_first(), id);
        let r = spec_assoc_find(s.drop_first(), id);
        if r != -1 {
            assert(s.drop_first()[r] == s[r + 1]);
        }
    }
}

/// Finds the entry for `id` in an association list.
fn assoc_find<T>(v: &Vec<(i64, T)>, id: i64) -> (r: Option<usize>)
    ensures
        ({
            let ti = spec_assoc_find(v@, id);
            match r {
                Some(i) => ti == i as int && i < v@.len(),
                None => ti == -1,
            }
        }),
{
    proof {
        assert(v@.skip(0) =~= v@);
    }
    let mut i: usize = 0;
    while i < v.len()
        invariant
            i <= v@.len(),
            ({
                let rest = spec_assoc_find(v@.skip(i as int), id);
                let whole = spec_assoc_find(v@, id);
                if rest == -1 {
                    whole == -1
                } else {
                    whole == i + rest
                }
            }),
        decreases v.len() - i,
    {
        if v[i].0 == id {
            proof {
                assert(v@.skip(i as int)[0] == v@[i as int]);
                assert(spec_assoc_find(v@.skip(i as int), id) == 0);
            }
            return Some(i);
        }
        proof {
            assert(v@.skip(i as int)[0] == v@[i as int]);
            assert(v@.skip(i as int).drop_first() =~= v@.skip(i as int + 1));
            lemma_assoc_find_bounds(v@.skip(i as int + 1), id);
        }
        i = i + 1;
    }
    proof {
        assert(v@.skip(v@.len() as int) =~= Seq::<(i64, T)>::empty());
    }
    None
}

/// The flag stored for `id`, or the given default.
pub open spec fn spec_assoc_flag(s: Seq<(i64, bool)>, id: i64, dflt: bool) -> bool {
    let i = spec_assoc_find(s, id);
    if i >= 0 {
        s[i].1
    } else {
        dflt
    }
}

/// The association list with the entry for `id` set to `value`: updated in
/// place when present, appended otherwise.
pub open spec fn spec_assoc_set<T>(s: Seq<(i64, T)>, id: i64, value: T) -> Seq<(i64, T)> {
    let i = spec_assoc_find(s, id);
    if i >= 0 {
        s.update(i, (id, value))
    } else {
        s.push((id, value))
    }
}

/// Sets the entry for `id` in an association list.
fn assoc_set<T>(v: &mut Vec<(i64, T)>, id: i64, value: T)
    ensures
        final(v)@ == spec_assoc_set(old(v)@, id, value),
{
    proof {
        lemma_assoc_find_bounds(v@, id);
    }
    match assoc_find(v, id) {
        Some(i) => {
            v.set(i, (id, value));
            proof {
                assert(old(v)@[spec_assoc_find(old(v)@, id)].0 == id);
                assert(v@ =~= spec_assoc_set(old(v)@, id, value));
            }
        },
        None => {
            v.push((id, value));
        },
    }
}

impl State {
    /// A fresh store that has not yet collected anything.
    pub fn new(now_unix: i64) -> (r: Self)
        ensures
            r.started_at_unix == now_unix,
            r.last_collect_timestamp_seconds == 0,
            r.host_name is None,
            r.os_name is None,
            r.os_version is None,
            r.kernel_version is None,
            r.cpu_brand is None,
            r.system_uptime_seconds == 0,
            r.process_count == 0,
            r.cpu_core_count == 0,
            r.cpu_usage_centi_pct == 0,
            r.memory_used_bytes == 0,
            r.memory_total_bytes == 0,
            r.disks@.len() == 0,
            r.net@.len() == 0,
            r.internet_speed is None,
            r.temps@.len() == 0,
            r.gpus@.len() == 0,
            r.sensors@.len() == 0,
            r.checks.http@.len() == 0,
            r.checks.tcp@.len() == 0,
            r.alert_tracking@.len() == 0,
            r.chat_alert_prefs@.len() == 0,
            r.chat_check_alert_prefs@.len() == 0,
            r.chat_resource_alert_prefs@.len() == 0,
    {
        State {
            started_at_unix: now_unix,
            last_collect_timestamp_seconds: 0,
            host_name: None,
            os_name: None,
            os_version: None,
            kernel_version: None,
            cpu_brand: None,
            system_uptime_seconds: 0,
            process_count: 0,
            cpu_core_count: 0,
            cpu_usage_centi_pct: 0,
            memory_used_bytes: 0,
            memory_total_bytes: 0,
            disks: Vec::new(),
            net: Vec::new(),
            internet_speed: None,
            temps: Vec::new(),
            gpus: Vec::new(),
            sensors: Vec::new(),
            checks: CheckResults { http: Vec::new(), tcp: Vec::new() },
            alert_tracking: Vec::new(),
            chat_alert_prefs: Vec::new(),
            chat_check_alert_prefs: Vec::new(),
            chat_resource_alert_prefs: Vec::new(),
        }
    }

    /// Whether alerts are on for a chat; a chat without a stored choice
    /// follows the configured default.
    pub fn alerts_enabled_for_chat(&self, chat_id: i64, default_enabled: bool) -> (r: bool)
        ensures
            r == spec_assoc_flag(self.chat_alert_prefs@, chat_id, default_enabled),
    {
        proof {
            lemma_assoc_find_bounds(self.chat_alert_prefs@, chat_id);
        }
        match assoc_find(&self.chat_alert_prefs, chat_id) {
            Some(i) => self.chat_alert_prefs[i].1,
            None => default_enabled,
        }
    }

    /// Stores the chat's overall alert choice.
    pub fn set_alerts_enabled_for_chat(&mut self, chat_id: i64, enabled: bool)
        ensures
            final(self).chat_alert_prefs@ == spec_assoc_set(
                old(self).chat_alert_prefs@,
                chat_id,
                enabled,
            ),
            eq_except_prefs(*final(self), *old(self)),
            final(self).chat_check_alert_prefs == old(self).chat_check_alert_prefs,
            final(self).chat_resource_alert_prefs == old(self).chat_resource_alert_prefs,
    {
        assoc_set(&mut self.chat_alert_prefs, chat_id, enabled);
    }

    /// Whether check alerts are on for a chat; on by default.
    pub fn check_alerts_enabled_for_chat(&self, chat_id: i64) -> (r: bool)
        ensures
            r == spec_assoc_flag(self.chat_check_alert_prefs@, chat_id, true),
    {
        proof {
            lemma_assoc_find_bounds(self.chat_check_alert_prefs@, chat_id);
        }
        match assoc_find(&self.chat_check_alert_prefs, chat_id) {
            Some(i) => self.chat_check_alert_prefs[i].1,
            None => true,
        }
    }

    /// Stores the chat's check alert choice.
    pub fn set_check_alerts_enabled_for_chat(&mut self, chat_id: i64, enabled: bool)
        ensures
            final(self).chat_check_alert_prefs@ == spec_assoc_set(
                old(self).chat_check_alert_prefs@,
                chat_id,
                enabled,
            ),
            eq_except_prefs(*final(self), *old(self)),
            final(self).chat_alert_prefs == old(self).chat_alert_prefs,
            final(self).chat_resource_alert_prefs == old(self).chat_resource_alert_prefs,
    {
        assoc_set(&mut self.chat_check_alert_prefs, chat_id, enabled);
    }

    /// Whether one resource alert kind is on for a chat; every kind is on
    /// for a chat without stored preferences.
    pub fn resource_alert_enabled_for_chat(&self, chat_id: i64, kind: ResourceAlertKind) -> (r:
        bool)
        ensures
            ({
                let i = spec_assoc_find(self.chat_resource_alert_prefs@, chat_id);
                r == spec_pref_for(
                    if i >= 0 {
                        self.chat_resource_alert_prefs@[i].1
                    } else {
                        spec_prefs_default()
                    },
                    kind,
                )
            }),
    {
        proof {
            lemma_assoc_find_bounds(self.chat_resource_alert_prefs@, chat_id);
        }
        let prefs: ResourceAlertPrefs = match assoc_find(&self.chat_resource_alert_prefs, chat_id) {
            Some(i) => clone_prefs(&self.chat_resource_alert_prefs[i].1),
            None => ResourceAlertPrefs::default(),
        };
        match kind {
            ResourceAlertKind::CpuTemp => prefs.cpu_temp,
            ResourceAlertKind::GpuTemp => prefs.gpu_temp,
            ResourceAlertKind::CpuLoad => prefs.cpu_load,
            ResourceAlertKind::GpuLoad => prefs.gpu_load,
            ResourceAlertKind::RamUsage => prefs.ram_usage,
            ResourceAlertKind::DiskUsage => prefs.disk_usage,
        }
    }

    /// Stores one resource alert choice for a chat, starting from the
    /// defaults for a chat without stored preferences.
    pub fn set_resource_alert_enabled_for_chat(
        &mut self,
        chat_id: i64,
        kind: ResourceAlertKind,
        enabled: bool,
    )
        ensures
            ({
                let i = spec_assoc_find(old(self).chat_resource_alert_prefs@, chat_id);
                let base = if i >= 0 {
                    old(self).chat_resource_alert_prefs@[i].1
                } else {
                    spec_prefs_default()
                };
                final(self).chat_resource_alert_prefs@ == spec_assoc_set(
                    old(self).chat_resource_alert_prefs@,
                    chat_id,
                    spec_set_pref(base, kind, enabled),
                )
            }),
            eq_except_prefs(*final(self), *old(self)),
            final(self).chat_alert_prefs == old(self).chat_alert_prefs,
            final(self).chat_check_alert_prefs == old(self).chat_check_alert_prefs,
    {
        proof {
            lemma_assoc_find_bounds(self.chat_resource_alert_prefs@, chat_id);
        }
        let base: ResourceAlertPrefs = match assoc_find(&self.chat_resource_alert_prefs, chat_id) {
            Some(i) => clone_prefs(&self.chat_resource_alert_prefs[i].1),
            None => ResourceAlertPrefs::default(),
        };
        let updated = set_pref(base, kind, enabled);
        assoc_set(&mut self.chat_resource_alert_prefs, chat_id, updated);
    }
}

/// The preferences with one kind's switch replaced.
pub open spec fn spec_set_pref(
    p: ResourceAlertPrefs,
    kind: ResourceAlertKind,
    enabled: bool,
) -> ResourceAlertPrefs {
    match kind {
        ResourceAlertKind::CpuTemp => ResourceAlertPrefs { cpu_temp: enabled, ..p },
        ResourceAlertKind::GpuTemp => ResourceAlertPrefs { gpu_temp: enabled, ..p },
        ResourceAlertKind::CpuLoad => ResourceAlertPrefs { cpu_load: enabled, ..p },
        ResourceAlertKind::GpuLoad => ResourceAlertPrefs { gpu_load: enabled, ..p },
        ResourceAlertKind::RamUsage => ResourceAlertPrefs { ram_usage: enabled, ..p },
        ResourceAlertKind::DiskUsage => ResourceAlertPrefs { disk_usage: enabled, ..p },
    }
}

/// Replaces one kind's switch.
fn set_pref(p: ResourceAlertPrefs, kind: ResourceAlertKind, enabled: bool) -> (r:
    ResourceAlertPrefs)
    ensures
        r == spec_set_pref(p, kind, enabled),
{
    match kind {
        ResourceAlertKind::CpuTemp => ResourceAlertPrefs { cpu_temp: enabled, ..p },
        ResourceAlertKind::GpuTemp => ResourceAlertPrefs { gpu_temp: enabled, ..p },
        ResourceAlertKind::CpuLoad => ResourceAlertPrefs { cpu_load: enabled, ..p },
        ResourceAlertKind::GpuLoad => ResourceAlertPrefs { gpu_load: enabled, ..p },
        ResourceAlertKind::RamUsage => ResourceAlertPrefs { ram_usage: enabled, ..p },
        ResourceAlertKind::DiskUsage => ResourceAlertPrefs { disk_usage: enabled, ..p },
    }
}

/// A field-for-field copy of the preferences.
fn clone_prefs(p: &ResourceAlertPrefs) -> (r: ResourceAlertPrefs)
    ensures
        r == *p,
{
    ResourceAlertPrefs {
        cpu_temp: p.cpu_temp,
        gpu_temp: p.gpu_temp,
        cpu_load: p.cpu_load,
        gpu_load: p.gpu_load,
        ram_usage: p.ram_usage,
        disk_usage: p.disk_usage,
    }
}

/// HTTP results as the items the alert evaluator walks.
pub open spec fn http_items(s: Seq<HttpCheckResult>) -> Seq<(CheckKind, Seq<char>, bool)> {
    Seq::new(s.len(), |i: int| (CheckKind::Http, s[i].name@, s[i].up))
}

/// TCP results as the items the alert evaluator walks.
pub open spec fn tcp_items(s: Seq<TcpCheckResult>) -> Seq<(CheckKind, Seq<char>, bool)> {
    Seq::new(s.len(), |i: int| (CheckKind::Tcp, s[i].name@, s[i].up))
}

/// The whole evaluation round: every item stepped through the tracking
/// store in order, collecting the emitted events.
pub open spec fn spec_alert_fold(
    t: Seq<(CheckKind, Seq<char>, AlertTrackState)>,
    items: Seq<(CheckKind, Seq<char>, bool)>,
    cfg: AlertsConfig,
    now: i64,
) -> (Seq<(CheckKind, Seq<char>, AlertTrackState)>, Seq<(CheckKind, Seq<char>, AlertEventKind)>)
    decreases items.len(),
{
    if items.len() == 0 {
        (t, Seq::empty())
    } else {
        let prev = spec_alert_fold(t, items.drop_last(), cfg, now);
        let it = items.last();
        let step = spec_track_step(prev.0, it.0, it.1, it.2, cfg, now);
        (
            step.0,
            match step.1 {
                Some(k) => prev.1.push((it.0, it.1, k)),
                None => prev.1,
            },
        )
    }
}

impl State {
    /// Runs the hysteresis machine over this cycle's check results: every
    /// HTTP result, then every TCP result, in order. Returns the events of
    /// the cycle; the tracking store keeps the updated bookkeeping.
    pub fn apply_alert_rules(&mut self, cfg: &AlertsConfig, now_unix: i64) -> (events: Vec<
        AlertEvent,
    >)
        ensures
            ({
                let items = http_items(old(self).checks.http@) + tcp_items(old(self).checks.tcp@);
                let fr = spec_alert_fold(
                    track_models(old(self).alert_tracking@),
                    items,
                    *cfg,
                    now_unix,
                );
                &&& track_models(final(self).alert_tracking@) == fr.0
                &&& event_models(events@) == fr.1
            }),
            eq_except_tracking(*final(self), *old(self)),
    {
        let ghost init = track_models(self.alert_tracking@);
        let ghost items = http_items(self.checks.http@) + tcp_items(self.checks.tcp@);
        let mut events: Vec<AlertEvent> = Vec::new();
        proof {
            assert(items.take(0) =~= Seq::<(CheckKind, Seq<char>, bool)>::empty());
            assert(event_models(events@) =~= spec_alert_fold(init, items.take(0), *cfg, now_unix).1);
        }
        let http_len: usize = self.checks.http.len();
        let mut i: usize = 0;
        while i < http_len
            invariant
                http_len == self.checks.http@.len(),
                i <= http_len,
                items == http_items(self.checks.http@) + tcp_items(self.checks.tcp@),
                track_models(self.alert_tracking@) == spec_alert_fold(
                    init,
                    items.take(i as int),
                    *cfg,
                    now_unix,
                ).0,
                event_models(events@) == spec_alert_fold(init, items.take(i as int), *cfg, now_unix).1,
                eq_except_tracking(*self, *old(self)),
            decreases http_len - i,
        {
            let check_id = CheckId { kind: CheckKind::Http, name: self.checks.http[i].name.clone() };
            let up: bool = self.checks.http[i].up;
            let ghost before_events = events@;
            proof {
                assert(items.take(i as int + 1).drop_last() =~= items.take(i as int));
                assert(items[i as int] == (CheckKind::Http, self.checks.http@[i as int].name@, up));
            }
            update_alert_state(&mut self.alert_tracking, check_id, up, cfg, now_unix, &mut events);
            proof {
                let fr = spec_alert_fold(init, items.take(i as int + 1), *cfg, now_unix);
                assert(event_models(events@) =~~= fr.1);
            }
            i = i + 1;
        }
        let tcp_len: usize = self.checks.tcp.len();
        let mut j: usize = 0;
        while j < tcp_len
            invariant
                http_len == self.checks.http@.len(),
                tcp_len == self.checks.tcp@.len(),
                j <= tcp_len,
                items == http_items(self.checks.http@) + tcp_items(self.checks.tcp@),
                track_models(self.alert_tracking@) == spec_alert_fold(
                    init,
                    items.take(http_len as int + j as int),
                    *cfg,
                    now_unix,
                ).0,
                event_models(events@) == spec_alert_fold(
                    init,
                    items.take(http_len as int + j as int),
                    *cfg,
                    now_unix,
                ).1,
                eq_except_tracking(*self, *old(self)),
            decreases tcp_len - j,
        {
            let check_id = CheckId { kind: CheckKind::Tcp, name: self.checks.tcp[j].name.clone() };
            let up: bool = self.checks.tcp[j].up;
            proof {
                assert(items.take(http_len as int + j as int + 1).drop_last() =~= items.take(
                    http_len as int + j as int,
                ));
                assert(items[http_len as int + j as int] == (
                    CheckKind::Tcp,
                    self.checks.tcp@[j as int].name@,
                    up,
                ));
            }
            update_alert_state(&mut self.alert_tracking, check_id, up, cfg, now_unix, &mut events);
            proof {
                let fr = spec_alert_fold(
                    init,
                    items.take(http_len as int + j as int + 1),
                    *cfg,
                    now_unix,
                );
                assert(event_models(events@) =~~= fr.1);
            }
            j = j + 1;
        }
        proof {
            assert(items.take(items.len() as int) =~= items);
        }
        events
    }
}

/// Elapsed whole seconds between two collection stamps, floored at one to
/// avoid division by zero and never negative even across a clock step.
pub open spec fn spec_elapsed(now: int, prev: int) -> int {
    if now - prev < 1 {
        1
    } else {
        now - prev
    }
}

/// Saturating subtraction of counters.
pub open spec fn spec_sat_sub(a: int, b: int) -> int {
    if a >= b {
        a - b
    } else {
        0
    }
}

/// Index of the last entry of `s` with interface name `name`, or -1.
pub open spec fn spec_net_find_last(s: Seq<NetStat>, name: Seq<char>) -> int
    decreases s.len(),
{
    if s.len() == 0 {
        -1
    } else if s.last().iface@ == name {
        s.len() - 1
    } else {
        spec_net_find_last(s.drop_last(), name)
    }
}

/// Finds the last entry with the given interface name.
fn net_find_last(v: &Vec<NetStat>, name: &String) -> (r: Option<usize>)
    ensures
        ({
            let ti = spec_net_find_last(v@, name@);
            match r {
                Some(i) => ti == i as int && i < v@.len(),
                None => ti == -1,
            }
        }),
{
    proof {
        assert(v@.take(v@.len() as int) =~= v@);
    }
    let mut i: usize = v.len();
    while i > 0
        invariant
            i <= v@.len(),
            spec_net_find_last(v@, name@) == spec_net_find_last(v@.take(i as int), name@),
        decreases i,
    {
        proof {
            assert(v@.take(i as int).drop_last() =~= v@.take(i as int - 1));
            assert(v@.take(i as int).last() == v@[i as int - 1]);
        }
        if v[i - 1].iface == *name {
            return Some(i - 1);
        }
        i = i - 1;
    }
    proof {
        assert(v@.take(0) =~= Seq::<NetStat>::empty());
    }
    None
}

/// The per-second rate of a counter: the growth since the previous cycle
/// divided by the elapsed seconds; zero for an interface without a
/// previous reading.
pub open spec fn spec_rate(new_total: int, prev_total: int, dt: int) -> int
    recommends
        dt >= 1,
{
    spec_sat_sub(new_total, prev_total) / dt
}

impl State {
    /// Publishes a newly collected snapshot wholesale, deriving each
    /// interface's per-second rates from the previous snapshot's counters:
    /// an interface absent from the previous snapshot reads zero, any
    /// other reads the counter growth over the elapsed seconds (floored at
    /// one second). Alert bookkeeping and chat preferences are untouched.
    pub fn update_collected(
        &mut self,
        now_unix: i64,
        host_name: Option<String>,
        os_name: Option<String>,
        os_version: Option<String>,
        kernel_version: Option<String>,
        cpu_brand: Option<String>,
        uptime_seconds: u64,
        process_count: u64,
        cpu_core_count: u32,
        cpu_usage_centi_pct: i64,
        memory_used_bytes: u64,
        memory_total_bytes: u64,
        disks: Vec<DiskStat>,
        net: Vec<NetStat>,
        internet_speed: Option<InternetSpeedStat>,
        temps: Vec<TempStat>,
        gpus: Vec<GpuStat>,
        sensors: Vec<SensorStat>,
        checks: CheckResults,
    )
        ensures
            ({
                let dt = spec_elapsed(
                    now_unix as int,
                    old(self).last_collect_timestamp_seconds as int,
                );
                &&& final(self).net@.len() == net@.len()
                &&& forall|i: int|
                    0 <= i < net@.len() ==> {
                        let prev = spec_net_find_last(old(self).net@, net@[i].iface@);
                        let entry = #[trigger] final(self).net@[i];
                        &&& entry.iface == net@[i].iface
                        &&& entry.rx_bytes_total == net@[i].rx_bytes_total
                        &&& entry.tx_bytes_total == net@[i].tx_bytes_total
                        &&& entry.rx_bytes_per_sec as int == (if prev >= 0 {
                            spec_rate(
                                net@[i].rx_bytes_total as int,
                                old(self).net@[prev].rx_bytes_total as int,
                                dt,
                            )
                        } else {
                            0
                        })
                        &&& entry.tx_bytes_per_sec as int == (if prev >= 0 {
                            spec_rate(
                                net@[i].tx_bytes_total as int,
                                old(self).net@[prev].tx_bytes_total as int,
                                dt,
                            )
                        } else {
                            0
                        })
                    }
            }),
            final(self).last_collect_timestamp_seconds == now_unix,
            final(self).host_name == host_name,
            final(self).os_name == os_name,
            final(self).os_version == os_version,
            final(self).kernel_version == kernel_version,
            final(self).cpu_brand == cpu_brand,
            final(self).system_uptime_seconds == uptime_seconds,
            final(self).process_count == process_count,
            final(self).cpu_core_count == cpu_core_count,
            final(self).cpu_usage_centi_pct == cpu_usage_centi_pct,
            final(self).memory_used_bytes == memory_used_bytes,
            final(self).memory_total_bytes == memory_total_bytes,
            final(self).disks == disks,
            final(self).internet_speed == internet_speed,
            final(self).temps == temps,
            final(self).gpus == gpus,
            final(self).sensors == sensors,
            final(self).checks == checks,
            final(self).started_at_unix == old(self).started_at_unix,
            final(self).alert_tracking == old(self).alert_tracking,
            final(self).chat_alert_prefs == old(self).chat_alert_prefs,
            final(self).chat_check_alert_prefs == old(self).chat_check_alert_prefs,
            final(self).chat_resource_alert_prefs == old(self).chat_resource_alert_prefs,
    {
        let prev_ts: i64 = self.last_collect_timestamp_seconds;
        let diff: i128 = (now_unix as i128) - (prev_ts as i128);
        let dt: u64 = if diff < 1 {
            1
        } else {
            diff as u64
        };
        let ghost dtg = spec_elapsed(now_unix as int, prev_ts as int);
        assert(dt as int == dtg);
        let mut new_net: Vec<NetStat> = Vec::new();
        let mut i: usize = 0;
        while i < net.len()
            invariant
                i <= net@.len(),
                dt as int == spec_elapsed(now_unix as int, prev_ts as int),
                dt >= 1,
                new_net@.len() == i,
                forall|k: int|
                    0 <= k < i ==> {
                        let prev = spec_net_find_last(self.net@, net@[k].iface@);
                        let entry = #[trigger] new_net@[k];
                        &&& entry.iface == net@[k].iface
                        &&& entry.rx_bytes_total == net@[k].rx_bytes_total
                        &&& entry.tx_bytes_total == net@[k].tx_bytes_total
                        &&& entry.rx_bytes_per_sec as int == (if prev >= 0 {
                            spec_rate(
                                net@[k].rx_bytes_total as int,
                                self.net@[prev].rx_bytes_total as int,
                                dt as int,
                            )
                        } else {
                            0
                        })
                        &&& entry.tx_bytes_per_sec as int == (if prev >= 0 {
                            spec_rate(
                                net@[k].tx_bytes_total as int,
                                self.net@[prev].tx_bytes_total as int,
                                dt as int,
                            )
                        } else {
                            0
                        })
                    },
            decreases net.len() - i,
        {
            let entry = &net[i];
            let (rx_rate, tx_rate): (u64, u64) = match net_find_last(&self.net, &entry.iface) {
                Some(p) => {
                    let prx = self.net[p].rx_bytes_total;
                    let ptx = self.net[p].tx_bytes_total;
                    (
                        entry.rx_bytes_total.saturating_sub(prx) / dt,
                        entry.tx_bytes_total.saturating_sub(ptx) / dt,
                    )
                },
                None => (0, 0),
            };
            new_net.push(
                NetStat {
                    iface: entry.iface.clone(),
                    rx_bytes_total: entry.rx_bytes_total,
                    tx_bytes_total: entry.tx_bytes_total,
                    rx_bytes_per_sec: rx_rate,
                    tx_bytes_per_sec: tx_rate,
                },
            );
            i = i + 1;
        }
        self.last_collect_timestamp_seconds = now_unix;
        self.host_name = host_name;
        self.os_name = os_name;
        self.os_version = os_version;
        self.kernel_version = kernel_version;
        self.cpu_brand = cpu_brand;
        self.system_uptime_seconds = uptime_seconds;
        self.process_count = process_count;
        self.cpu_core_count = cpu_core_count;
        self.cpu_usage_centi_pct = cpu_usage_centi_pct;
        self.memory_used_bytes = memory_used_bytes;
        self.memory_total_bytes = memory_total_bytes;
        self.disks = disks;
        self.net = new_net;
        self.internet_speed = internet_speed;
        self.temps = temps;
        self.gpus = gpus;
        self.sensors = sensors;
        self.checks = checks;
    }
}

} // verus!
