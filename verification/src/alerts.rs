//! Threshold alerts over the snapshot, with per-metric cooldown.
//!
//! Each of the six watched metrics (GPU load, GPU temperature, CPU
//! temperature, CPU load, RAM usage, worst-disk usage) is compared against
//! its configured threshold every cycle; a breach fires at most once per
//! cooldown window, keyed by the metric's name. The CPU temperature is
//! inferred from the temperature list: the hottest reading with a CPU
//! marker, avoiding GPU- and ACPI-labelled sensors, with two fallbacks.

use crate::config::AlertsConfig;
use crate::numeric::{format_centi_1dp, spec_centi_1dp};
use crate::state::{ResourceAlert, ResourceAlertKind, State};
use crate::stats::{percent_centi_sat, spec_percent_centi_sat, DiskStat, GpuStat, TempStat};
use crate::text::{chars_vec, contains_ci, contains_ci_lit, str_eq};
use vstd::prelude::*;
use vstd::string::StringExecFns;

verus! {

/// The label names a GPU-related sensor.
pub open spec fn has_gpu_marker(s: Seq<char>) -> bool {
    ||| contains_ci(s, "gpu"@)
    ||| contains_ci(s, "nvidia"@)
    ||| contains_ci(s, "amdgpu"@)
    ||| contains_ci(s, "radeon"@)
}

/// The label names a CPU temperature source directly.
pub open spec fn has_primary_cpu_marker(s: Seq<char>) -> bool {
    ||| contains_ci(s, "cpu"@)
    ||| contains_ci(s, "package"@)
    ||| contains_ci(s, "tctl"@)
    ||| contains_ci(s, "tdie"@)
    ||| contains_ci(s, "coretemp"@)
    ||| contains_ci(s, "k10temp"@)
}

/// The label names an ACPI thermal zone.
pub open spec fn has_acpi_marker(s: Seq<char>) -> bool {
    ||| contains_ci(s, "acpi"@)
    ||| contains_ci(s, "thermal zone"@)
    ||| contains_ci(s, "_tz"@)
}

/// The stages of the CPU-temperature inference chain.
#[derive(Debug, Clone, Copy, PartialEq, Eq, Structural)]
pub enum TempFilter {
    /// A plausible reading whose label has a CPU marker and neither a GPU
    /// nor an ACPI marker.
    Primary,
    /// Any plausible reading without a GPU marker.
    NonGpu,
    /// A plausible ACPI thermal-zone reading.
    Acpi,
}

/// Whether one reading belongs to a stage.
pub open spec fn spec_temp_matches(f: TempFilter, t: TempStat) -> bool {
    &&& 0 <= t.temperature_centi <= 13000
    &&& match f {
        TempFilter::Primary => has_primary_cpu_marker(t.sensor@) && !has_gpu_marker(t.sensor@)
            && !has_acpi_marker(t.sensor@),
        TempFilter::NonGpu => !has_gpu_marker(t.sensor@),
        TempFilter::Acpi => has_acpi_marker(t.sensor@),
    }
}

/// Whether one reading belongs to a stage.
fn temp_matches(f: TempFilter, t: &TempStat) -> (r: bool)
    ensures
        r == spec_temp_matches(f, *t),
{
    if t.temperature_centi < 0 || t.temperature_centi > 13000 {
        return false;
    }
    let s = chars_vec(t.sensor.as_str());
    let gpu = contains_ci_lit(&s, "gpu") || contains_ci_lit(&s, "nvidia") || contains_ci_lit(
        &s,
        "amdgpu",
    ) || contains_ci_lit(&s, "radeon");
    match f {
        TempFilter::Primary => {
            let cpu = contains_ci_lit(&s, "cpu") || contains_ci_lit(&s, "package")
                || contains_ci_lit(&s, "tctl") || contains_ci_lit(&s, "tdie") || contains_ci_lit(
                &s,
                "coretemp",
            ) || contains_ci_lit(&s, "k10temp");
            let acpi = contains_ci_lit(&s, "acpi") || contains_ci_lit(&s, "thermal zone")
                || contains_ci_lit(&s, "_tz");
            cpu && !gpu && !acpi
        },
        TempFilter::NonGpu => !gpu,
        TempFilter::Acpi => {
            contains_ci_lit(&s, "acpi") || contains_ci_lit(&s, "thermal zone") || contains_ci_lit(
                &s,
                "_tz",
            )
        },
    }
}

/// The hottest reading of a stage, if the stage has any.
pub open spec fn spec_max_temp(f: TempFilter, s: Seq<TempStat>) -> Option<int>
    decreases s.len(),
{
    if s.len() == 0 {
        None
    } else {
        let rest = spec_max_temp(f, s.drop_last());
        if spec_temp_matches(f, s.last()) {
            match rest {
                None => Some(s.last().temperature_centi as int),
                Some(m) => Some(
                    if s.last().temperature_centi > m {
                        s.last().temperature_centi as int
                    } else {
                        m
                    },
                ),
            }
        } else {
            rest
        }
    }
}

/// The hottest reading of a stage.
fn max_temp_filtered(temps: &Vec<TempStat>, f: TempFilter) -> (r: Option<i64>)
    ensures
        r matches Some(v) ==> spec_max_temp(f, temps@) == Some(v as int),
        r is None ==> spec_max_temp(f, temps@) is None,
{
    let mut best: Option<i64> = None;
    let mut i: usize = 0;
    proof {
        assert(temps@.take(0) =~= Seq::<TempStat>::empty());
    }
    while i < temps.len()
        invariant
            i <= temps@.len(),
            best matches Some(v) ==> spec_max_temp(f, temps@.take(i as int)) == Some(v as int),
            best is None ==> spec_max_temp(f, temps@.take(i as int)) is None,
        decreases temps.len() - i,
    {
        proof {
            assert(temps@.take(i as int + 1).drop_last() =~= temps@.take(i as int));
        }
        if temp_matches(f, &temps[i]) {
            best = match best {
                None => Some(temps[i].temperature_centi),
                Some(m) => if temps[i].temperature_centi > m {
                    Some(temps[i].temperature_centi)
                } else {
                    Some(m)
                },
            };
        }
        i = i + 1;
    }
    proof {
        assert(temps@.take(temps@.len() as int) =~= temps@);
    }
    best
}

/// The inferred CPU temperature of the snapshot: the hottest primary
/// reading, else the hottest non-GPU reading, else the hottest ACPI
/// thermal-zone reading.
pub open spec fn spec_cpu_temperature(s: Seq<TempStat>) -> Option<int> {
    match spec_max_temp(TempFilter::Primary, s) {
        Some(v) => Some(v),
        None => match spec_max_temp(TempFilter::NonGpu, s) {
            Some(v) => Some(v),
            None => spec_max_temp(TempFilter::Acpi, s),
        },
    }
}

/// Infers the CPU temperature from the snapshot's temperature list.
pub fn cpu_temperature_from_state(state: &State) -> (r: Option<i64>)
    ensures
        r matches Some(v) ==> spec_cpu_temperature(state.temps@) == Some(v as int),
        r is None ==> spec_cpu_temperature(state.temps@) is None,
{
    match max_temp_filtered(&state.temps, TempFilter::Primary) {
        Some(v) => Some(v),
        None => match max_temp_filtered(&state.temps, TempFilter::NonGpu) {
            Some(v) => Some(v),
            None => max_temp_filtered(&state.temps, TempFilter::Acpi),
        },
    }
}

/// The highest reported GPU utilization, never below zero.
pub open spec fn spec_gpu_load_max(s: Seq<GpuStat>) -> int
    decreases s.len(),
{
    if s.len() == 0 {
        0
    } else {
        let rest = spec_gpu_load_max(s.drop_last());
        match s.last().utilization_centi_pct {
            Some(u) => if u > rest {
                u as int
            } else {
                rest
            },
            None => rest,
        }
    }
}

/// The highest reported GPU temperature, never below zero.
pub open spec fn spec_gpu_temp_max(s: Seq<GpuStat>) -> int
    decreases s.len(),
{
    if s.len() == 0 {
        0
    } else {
        let rest = spec_gpu_temp_max(s.drop_last());
        match s.last().temperature_centi {
            Some(u) => if u > rest {
                u as int
            } else {
                rest
            },
            None => rest,
        }
    }
}

/// The highest reported GPU utilization.
fn gpu_load_max(gpus: &Vec<GpuStat>) -> (r: i64)
    ensures
        r as int == spec_gpu_load_max(gpus@),
{
    let mut acc: i64 = 0;
    let mut i: usize = 0;
    proof {
        assert(gpus@.take(0) =~= Seq::<GpuStat>::empty());
    }
    while i < gpus.len()
        invariant
            i <= gpus@.len(),
            acc as int == spec_gpu_load_max(gpus@.take(i as int)),
        decreases gpus.len() - i,
    {
        proof {
            assert(gpus@.take(i as int + 1).drop_last() =~= gpus@.take(i as int));
        }
        match gpus[i].utilization_centi_pct {
            Some(u) => {
                if u > acc {
                    acc = u;
                }
            },
            None => {},
        }
        i = i + 1;
    }
    proof {
        assert(gpus@.take(gpus@.len() as int) =~= gpus@);
    }
    acc
}

/// The highest reported GPU temperature.
fn gpu_temp_max(gpus: &Vec<GpuStat>) -> (r: i64)
    ensures
        r as int == spec_gpu_temp_max(gpus@),
{
    let mut acc: i64 = 0;
    let mut i: usize = 0;
    proof {
        assert(gpus@.take(0) =~= Seq::<GpuStat>::empty());
    }
    while i < gpus.len()
        invariant
            i <= gpus@.len(),
            acc as int == spec_gpu_temp_max(gpus@.take(i as int)),
        decreases gpus.len() - i,
    {
        proof {
            assert(gpus@.take(i as int + 1).drop_last() =~= gpus@.take(i as int));
        }
        match gpus[i].temperature_centi {
            Some(u) => {
                if u > acc {
                    acc = u;
                }
            },
            None => {},
        }
        i = i + 1;
    }
    proof {
        assert(gpus@.take(gpus@.len() as int) =~= gpus@);
    }
    acc
}

/// Index of the fullest disk, ties resolved to the later entry; -1 when
/// there are no disks.
pub open spec fn spec_worst_disk(s: Seq<DiskStat>) -> int
    decreases s.len(),
{
    if s.len() == 0 {
        -1
    } else {
        let r = spec_worst_disk(s.drop_last());
        if r == -1 {
            s.len() - 1
        } else if spec_percent_centi_sat(
            s.last().used_bytes as int,
            s.last().total_bytes as int,
        ) >= spec_percent_centi_sat(s[r].used_bytes as int, s[r].total_bytes as int) {
            s.len() - 1
        } else {
            r
        }
    }
}

/// Finds the fullest disk.
fn worst_disk(disks: &Vec<DiskStat>) -> (r: Option<usize>)
    ensures
        match r {
            Some(i) => spec_worst_disk(disks@) == i as int && i < disks@.len(),
            None => disks@.len() == 0 && spec_worst_disk(disks@) == -1,
        },
{
    if disks.len() == 0 {
        return None;
    }
    proof {
        assert(disks@.take(1).drop_last() =~= disks@.take(0));
        assert(disks@.take(0) =~= Seq::<DiskStat>::empty());
        assert(spec_worst_disk(Seq::<DiskStat>::empty()) == -1);
        assert(disks@.take(1).last() == disks@[0]);
        assert(spec_worst_disk(disks@.take(1)) == 0);
    }
    let mut best: usize = 0;
    let mut best_pct: i64 = percent_centi_sat(disks[0].used_bytes, disks[0].total_bytes);
    let mut i: usize = 1;
    while i < disks.len()
        invariant
            1 <= i <= disks@.len(),
            best < i,
            spec_worst_disk(disks@.take(i as int)) == best as int,
            best_pct as int == spec_percent_centi_sat(
                disks@[best as int].used_bytes as int,
                disks@[best as int].total_bytes as int,
            ),
        decreases disks.len() - i,
    {
        proof {
            assert(disks@.take(i as int + 1).drop_last() =~= disks@.take(i as int));
        }
        let pct: i64 = percent_centi_sat(disks[i].used_bytes, disks[i].total_bytes);
        if pct >= best_pct {
            best = i;
            best_pct = pct;
        }
        i = i + 1;
    }
    proof {
        assert(disks@.take(disks@.len() as int) =~= disks@);
    }
    Some(best)
}

/// Cooldown entries reduced to key text and stamp.
pub open spec fn cd_models(s: Seq<(String, i64)>) -> Seq<(Seq<char>, int)> {
    Seq::new(s.len(), |i: int| (s[i].0@, s[i].1 as int))
}

/// Index of a cooldown key, or -1.
pub open spec fn spec_cd_find(s: Seq<(Seq<char>, int)>, key: Seq<char>) -> int
    decreases s.len(),
{
    if s.len() == 0 {
        -1
    } else if s[0].0 == key {
        0
    } else {
        let r = spec_cd_find(s.drop_first(), key);
        if r == -1 {
            -1
        } else {
            1 + r
        }
    }
}

/// A found index is in bounds and matches.
pub proof fn lemma_cd_find_bounds(s: Seq<(Seq<char>, int)>, key: Seq<char>)
    ensures
        spec_cd_find(s, key) == -1 || (0 <= spec_cd_find(s, key) < s.len() && s[spec_cd_find(
            s,
            key,
        )].0 == key),
    decreases s.len(),
{
    if s.len() > 0 && s[0].0 != key {
        lemma_cd_find_bounds(s.drop_first(), key);
        let r = spec_cd_find(s.drop_first(), key);
        if r != -1 {
            assert(s.drop_first()[r] == s[r + 1]);
        }
    }
}

/// Finds the cooldown entry for `key`.
fn cd_find_index(v: &Vec<(String, i64)>, key: &str) -> (r: Option<usize>)
    ensures
        ({
            let ti = spec_cd_find(cd_models(v@), key@);
            match r {
                Some(i) => ti == i as int && i < v@.len(),
                None => ti == -1,
            }
        }),
{
    let ghost cd0 = cd_models(v@);
    proof {
        assert(cd0.skip(0) =~= cd0);
    }
    let mut i: usize = 0;
    while i < v.len()
        invariant
            i <= v@.len(),
            cd0 == cd_models(v@),
            ({
                let rest = spec_cd_find(cd0.skip(i as int), key@);
                let whole = spec_cd_find(cd0, key@);
                if rest == -1 {
                    whole == -1
                } else {
                    whole == i + rest
                }
            }),
        decreases v.len() - i,
    {
        proof {
            assert(cd0.skip(i as int)[0] == cd0[i as int]);
        }
        if str_eq(v[i].0.as_str(), key) {
            proof {
                assert(spec_cd_find(cd0.skip(i as int), key@) == 0);
            }
            return Some(i);
        }
        proof {
            assert(cd0.skip(i as int).drop_first() =~= cd0.skip(i as int + 1));
            lemma_cd_find_bounds(cd0.skip(i as int + 1), key@);
        }
        i = i + 1;
    }
    proof {
        assert(cd0.skip(v@.len() as int) =~= Seq::<(Seq<char>, int)>::empty());
    }
    None
}

/// Whether an alert keyed by `key` may fire at `now`, and the bookkeeping
/// that results: a key inside its cooldown window stays silent and
/// unchanged; any other key fires and is stamped with `now`.
pub open spec fn spec_should_emit(
    cd: Seq<(Seq<char>, int)>,
    key: Seq<char>,
    now: int,
    cooldown: int,
) -> (bool, Seq<(Seq<char>, int)>) {
    let i = spec_cd_find(cd, key);
    if i >= 0 && now - cd[i].1 < cooldown {
        (false, cd)
    } else if i >= 0 {
        (true, cd.update(i, (key, now)))
    } else {
        (true, cd.push((key, now)))
    }
}

/// Consults and stamps the cooldown bookkeeping for one metric key.
pub fn should_emit(key: &str, now_unix: i64, cooldown_secs: i64, last_sent: &mut Vec<(String, i64)>)
    -> (r: bool)
    ensures
        ({
            let se = spec_should_emit(
                cd_models(old(last_sent)@),
                key@,
                now_unix as int,
                cooldown_secs as int,
            );
            &&& r == se.0
            &&& cd_models(final(last_sent)@) == se.1
        }),
{
    let ghost cd0 = cd_models(last_sent@);
    let found: Option<usize> = cd_find_index(last_sent, key);
    match found {
        Some(fi) => {
            let last: i64 = last_sent[fi].1;
            if (now_unix as i128) - (last as i128) < (cooldown_secs as i128) {
                return false;
            }
            last_sent.set(fi, (key.to_owned(), now_unix));
            proof {
                assert(cd_models(last_sent@) =~~= cd0.update(fi as int, (key@, now_unix as int)));
            }
            true
        },
        None => {
            last_sent.push((key.to_owned(), now_unix));
            proof {
                assert(cd_models(last_sent@) =~~= cd0.push((key@, now_unix as int)));
            }
            true
        },
    }
}

/// A freshly appended key is found at the end.
pub proof fn lemma_cd_find_push(s: Seq<(Seq<char>, int)>, key: Seq<char>, stamp: int)
    requires
        spec_cd_find(s, key) == -1,
    ensures
        spec_cd_find(s.push((key, stamp)), key) == s.len(),
    decreases s.len(),
{
    let pushed = s.push((key, stamp));
    if s.len() == 0 {
        assert(pushed[0].0 == key);
    } else {
        lemma_cd_find_bounds(s.drop_first(), key);
        lemma_cd_find_push(s.drop_first(), key, stamp);
        assert(pushed.drop_first() =~= s.drop_first().push((key, stamp)));
    }
}

/// An updated key is still found at the same place.
pub proof fn lemma_cd_find_update(s: Seq<(Seq<char>, int)>, key: Seq<char>, stamp: int)
    requires
        spec_cd_find(s, key) >= 0,
    ensures
        spec_cd_find(s.update(spec_cd_find(s, key), (key, stamp)), key) == spec_cd_find(s, key),
    decreases s.len(),
{
    lemma_cd_find_bounds(s, key);
    let ti = spec_cd_find(s, key);
    let upd = s.update(ti, (key, stamp));
    if s[0].0 == key {
        assert(upd[0].0 == key);
    } else {
        lemma_cd_find_update(s.drop_first(), key, stamp);
        assert(upd[0] == s[0]);
        assert(upd.drop_first() =~= s.drop_first().update(ti - 1, (key, stamp)));
    }
}

/// The cooldown law: once an alert for a key has fired, a second breach
/// within the cooldown window stays silent, and a breach at or past the
/// window's end fires again.
pub proof fn lemma_cooldown_dedup(
    cd: Seq<(Seq<char>, int)>,
    key: Seq<char>,
    t1: int,
    t2: int,
    t3: int,
    cooldown: int,
)
    requires
        spec_should_emit(cd, key, t1, cooldown).0,
        t2 - t1 < cooldown,
        t3 - t1 >= cooldown,
    ensures
        !spec_should_emit(spec_should_emit(cd, key, t1, cooldown).1, key, t2, cooldown).0,
        spec_should_emit(spec_should_emit(cd, key, t1, cooldown).1, key, t3, cooldown).0,
{
    let cd1 = spec_should_emit(cd, key, t1, cooldown).1;
    let ti = spec_cd_find(cd, key);
    lemma_cd_find_bounds(cd, key);
    if ti >= 0 {
        lemma_cd_find_update(cd, key, t1);
        assert(cd1[spec_cd_find(cd1, key)].1 == t1);
    } else {
        lemma_cd_find_push(cd, key, t1);
        assert(cd1[spec_cd_find(cd1, key)].1 == t1);
    }
}

/// The rendered text of a value-versus-threshold alert.
pub open spec fn spec_value_alert_text(
    header: Seq<char>,
    v: int,
    thr: int,
    unit: Seq<char>,
) -> Seq<char> {
    header + spec_centi_1dp(v) + unit + " (порог "@ + spec_centi_1dp(thr) + unit + ")"@
}

/// Renders a value-versus-threshold alert.
fn render_value_alert(header: &str, v: i64, thr: i64, unit: &str) -> (r: String)
    ensures
        r@ == spec_value_alert_text(header@, v as int, thr as int, unit@),
{
    let mut s = String::from_str(header);
    s.append(format_centi_1dp(v).as_str());
    s.append(unit);
    s.append(" (порог ");
    s.append(format_centi_1dp(thr).as_str());
    s.append(unit);
    s.append(")");
    s
}

/// Alerts reduced to kind and text.
pub open spec fn alert_models(s: Seq<ResourceAlert>) -> Seq<(ResourceAlertKind, Seq<char>)> {
    Seq::new(s.len(), |i: int| (s[i].kind, s[i].text@))
}

/// The whole per-cycle resource evaluation: which alerts fire, in the
/// fixed order GPU load, GPU temperature, CPU temperature, CPU load, RAM,
/// worst disk, and the cooldown bookkeeping that results. Disabled
/// resource alerting fires nothing and leaves the bookkeeping alone.
pub open spec fn spec_resource_alerts(
    st: State,
    cfg: AlertsConfig,
    now: int,
    cd0: Seq<(Seq<char>, int)>,
) -> (Seq<(ResourceAlertKind, Seq<char>)>, Seq<(Seq<char>, int)>) {
    if !cfg.resource_alerts_enabled {
        (Seq::empty(), cd0)
    } else {
        let c = cfg.resource_alert_cooldown_secs as i64 as int;
        let out0 = Seq::<(ResourceAlertKind, Seq<char>)>::empty();
        let gl = spec_gpu_load_max(st.gpus@);
        let s1 = if gl >= cfg.gpu_load_threshold_centi_pct {
            spec_should_emit(cd0, "gpu_load"@, now, c)
        } else {
            (false, cd0)
        };
        let out1 = if s1.0 {
            out0.push(
                (
                    ResourceAlertKind::GpuLoad,
                    spec_value_alert_text(
                        "⚠ <b>Высокая нагрузка GPU</b>\nТекущее значение: "@,
                        gl,
                        cfg.gpu_load_threshold_centi_pct as int,
                        "%"@,
                    ),
                ),
            )
        } else {
            out0
        };
        let gt = spec_gpu_temp_max(st.gpus@);
        let s2 = if gt >= cfg.gpu_temp_threshold_centi {
            spec_should_emit(s1.1, "gpu_temp"@, now, c)
        } else {
            (false, s1.1)
        };
        let out2 = if s2.0 {
            out1.push(
                (
                    ResourceAlertKind::GpuTemp,
                    spec_value_alert_text(
                        "🔥 <b>Высокая температура GPU</b>\nТекущее значение: "@,
                        gt,
                        cfg.gpu_temp_threshold_centi as int,
                        "°C"@,
                    ),
                ),
            )
        } else {
            out1
        };
        let ct = spec_cpu_temperature(st.temps@);
        let s3 = if ct matches Some(v) && v >= cfg.cpu_temp_threshold_centi {
            spec_should_emit(s2.1, "cpu_temp"@, now, c)
        } else {
            (false, s2.1)
        };
        let out3 = if s3.0 {
            out2.push(
                (
                    ResourceAlertKind::CpuTemp,
                    spec_value_alert_text(
                        "🔥 <b>Высокая температура CPU</b>\nТекущее значение: "@,
                        ct->Some_0,
                        cfg.cpu_temp_threshold_centi as int,
                        "°C"@,
                    ),
                ),
            )
        } else {
            out2
        };
        let s4 = if st.cpu_usage_centi_pct >= cfg.cpu_load_threshold_centi_pct {
            spec_should_emit(s3.1, "cpu_load"@, now, c)
        } else {
            (false, s3.1)
        };
        let out4 = if s4.0 {
            out3.push(
                (
                    ResourceAlertKind::CpuLoad,
                    spec_value_alert_text(
                        "⚠ <b>Высокая нагрузка CPU</b>\nТекущее значение: "@,
                        st.cpu_usage_centi_pct as int,
                        cfg.cpu_load_threshold_centi_pct as int,
                        "%"@,
                    ),
                ),
            )
        } else {
            out3
        };
        let ram = spec_percent_centi_sat(
            st.memory_used_bytes as int,
            st.memory_total_bytes as int,
        );
        let s5 = if ram >= cfg.ram_usage_threshold_centi_pct {
            spec_should_emit(s4.1, "ram_usage"@, now, c)
        } else {
            (false, s4.1)
        };
        let out5 = if s5.0 {
            out4.push(
                (
                    ResourceAlertKind::RamUsage,
                    spec_value_alert_text(
                        "⚠ <b>Высокое использование RAM</b>\nТекущее значение: "@,
                        ram,
                        cfg.ram_usage_threshold_centi_pct as int,
                        "%"@,
                    ),
                ),
            )
        } else {
            out4
        };
        let wd = spec_worst_disk(st.disks@);
        let dpct = if wd >= 0 {
            spec_percent_centi_sat(
                st.disks@[wd].used_bytes as int,
                st.disks@[wd].total_bytes as int,
            )
        } else {
            0
        };
        let s6 = if wd >= 0 && dpct >= cfg.disk_usage_threshold_centi_pct {
            spec_should_emit(s5.1, "disk_usage"@, now, c)
        } else {
            (false, s5.1)
        };
        let out6 = if s6.0 {
            out5.push(
                (
                    ResourceAlertKind::DiskUsage,
                    spec_value_alert_text(
                        "⚠ <b>Высокая заполненность диска</b>\nДиск: "@
                            + st.disks@[wd].mount@ + "\nТекущее значение: "@,
                        dpct,
                        cfg.disk_usage_threshold_centi_pct as int,
                        "%"@,
                    ),
                ),
            )
        } else {
            out5
        };
        (out6, s6.1)
    }
}

/// Evaluates every resource metric of the snapshot against its threshold,
/// firing at most once per metric and cooldown window.
#[verifier::rlimit(60)]
pub fn collect_resource_alerts(
    state: &State,
    alerts: &AlertsConfig,
    now_unix: i64,
    last_sent: &mut Vec<(String, i64)>,
) -> (out: Vec<ResourceAlert>)
    ensures
        ({
            let fr = spec_resource_alerts(
                *state,
                *alerts,
                now_unix as int,
                cd_models(old(last_sent)@),
            );
            &&& alert_models(out@) == fr.0
            &&& cd_models(final(last_sent)@) == fr.1
        }),
{
    let mut out: Vec<ResourceAlert> = Vec::new();
    if !alerts.resource_alerts_enabled {
        proof {
            assert(alert_models(out@) =~= Seq::<(ResourceAlertKind, Seq<char>)>::empty());
        }
        return out;
    }
    #[verifier::truncate]
    let cooldown: i64 = alerts.resource_alert_cooldown_secs as i64;
    let ghost cd0 = cd_models(last_sent@);
    let ghost fr = spec_resource_alerts(*state, *alerts, now_unix as int, cd0);

    let ghost c = alerts.resource_alert_cooldown_secs as i64 as int;
    let ghost out0 = Seq::<(ResourceAlertKind, Seq<char>)>::empty();

    let gl: i64 = gpu_load_max(&state.gpus);
    let ghost s1 = if gl as int >= alerts.gpu_load_threshold_centi_pct {
        spec_should_emit(cd0, "gpu_load"@, now_unix as int, c)
    } else {
        (false, cd0)
    };
    if gl >= alerts.gpu_load_threshold_centi_pct {
        if should_emit("gpu_load", now_unix, cooldown, last_sent) {
            out.push(
                ResourceAlert {
                    kind: ResourceAlertKind::GpuLoad,
                    text: render_value_alert(
                        "⚠ <b>Высокая нагрузка GPU</b>\nТекущее значение: ",
                        gl,
                        alerts.gpu_load_threshold_centi_pct,
                        "%",
                    ),
                },
            );
        }
    }
    proof {
        assert(cd_models(last_sent@) == s1.1);
    }
    let ghost out1 = alert_models(out@);

    let gt: i64 = gpu_temp_max(&state.gpus);
    let ghost s2 = if gt as int >= alerts.gpu_temp_threshold_centi {
        spec_should_emit(s1.1, "gpu_temp"@, now_unix as int, c)
    } else {
        (false, s1.1)
    };
    if gt >= alerts.gpu_temp_threshold_centi {
        if should_emit("gpu_temp", now_unix, cooldown, last_sent) {
            out.push(
                ResourceAlert {
                    kind: ResourceAlertKind::GpuTemp,
                    text: render_value_alert(
                        "🔥 <b>Высокая температура GPU</b>\nТекущее значение: ",
                        gt,
                        alerts.gpu_temp_threshold_centi,
                        "°C",
                    ),
                },
            );
        }
    }
    proof {
        assert(cd_models(last_sent@) == s2.1);
    }
    let ghost out2 = alert_models(out@);

    let cpu_t: Option<i64> = cpu_temperature_from_state(state);
    let ghost s3 = if spec_cpu_temperature(state.temps@) matches Some(v) && v
        >= alerts.cpu_temp_threshold_centi {
        spec_should_emit(s2.1, "cpu_temp"@, now_unix as int, c)
    } else {
        (false, s2.1)
    };
    match cpu_t {
        Some(ct) => {
            if ct >= alerts.cpu_temp_threshold_centi {
                if should_emit("cpu_temp", now_unix, cooldown, last_sent) {
                    out.push(
                        ResourceAlert {
                            kind: ResourceAlertKind::CpuTemp,
                            text: render_value_alert(
                                "🔥 <b>Высокая температура CPU</b>\nТекущее значение: ",
                                ct,
                                alerts.cpu_temp_threshold_centi,
                                "°C",
                            ),
                        },
                    );
                }
            }
        },
        None => {},
    }
    proof {
        assert(cd_models(last_sent@) == s3.1);
    }
    let ghost out3 = alert_models(out@);

    let ghost s4 = if state.cpu_usage_centi_pct >= alerts.cpu_load_threshold_centi_pct {
        spec_should_emit(s3.1, "cpu_load"@, now_unix as int, c)
    } else {
        (false, s3.1)
    };
    if state.cpu_usage_centi_pct >= alerts.cpu_load_threshold_centi_pct {
        if should_emit("cpu_load", now_unix, cooldown, last_sent) {
            out.push(
                ResourceAlert {
                    kind: ResourceAlertKind::CpuLoad,
                    text: render_value_alert(
                        "⚠ <b>Высокая нагрузка CPU</b>\nТекущее значение: ",
                        state.cpu_usage_centi_pct,
                        alerts.cpu_load_threshold_centi_pct,
                        "%",
                    ),
                },
            );
        }
    }
    proof {
        assert(cd_models(last_sent@) == s4.1);
    }
    let ghost out4 = alert_models(out@);

    let ram: i64 = percent_centi_sat(state.memory_used_bytes, state.memory_total_bytes);
    let ghost s5 = if ram as int >= alerts.ram_usage_threshold_centi_pct {
        spec_should_emit(s4.1, "ram_usage"@, now_unix as int, c)
    } else {
        (false, s4.1)
    };
    if ram >= alerts.ram_usage_threshold_centi_pct {
        if should_emit("ram_usage", now_unix, cooldown, last_sent) {
            out.push(
                ResourceAlert {
                    kind: ResourceAlertKind::RamUsage,
                    text: render_value_alert(
                        "⚠ <b>Высокое использование RAM</b>\nТекущее значение: ",
                        ram,
                        alerts.ram_usage_threshold_centi_pct,
                        "%",
                    ),
                },
            );
        }
    }
    proof {
        assert(cd_models(last_sent@) == s5.1);
    }
    let ghost out5 = alert_models(out@);

    match worst_disk(&state.disks) {
        Some(wd) => {
            let dpct: i64 = percent_centi_sat(
                state.disks[wd].used_bytes,
                state.disks[wd].total_bytes,
            );
            if dpct >= alerts.disk_usage_threshold_centi_pct {
                if should_emit("disk_usage", now_unix, cooldown, last_sent) {
                    let mut header = String::from_str(
                        "⚠ <b>Высокая заполненность диска</b>\nДиск: ",
                    );
                    header.append(state.disks[wd].mount.as_str());
                    header.append("\nТекущее значение: ");
                    out.push(
                        ResourceAlert {
                            kind: ResourceAlertKind::DiskUsage,
                            text: render_value_alert(
                                header.as_str(),
                                dpct,
                                alerts.disk_usage_threshold_centi_pct,
                                "%",
                            ),
                        },
                    );
                }
            }
        },
        None => {},
    }
    proof {
        assert(alert_models(out@) =~~= fr.0);
        assert(cd_models(last_sent@) =~~= fr.1);
    }
    out
}

} // verus!
