//! The merge engine: combining normalized partial results from all
//! sources into one snapshot per telemetry category.
//!
//! Temperatures are concatenated (several sensors may legitimately
//! coexist). GPU lists are merged record by record on an id-or-name match,
//! the overlay winning field by field only where it actually has a value.
//! Generic sensors are merged on the `(sensor_type, identifier)` key, the
//! overlay's entry winning on a collision.

use crate::stats::{clone_gpu, clone_sensor, clone_temp, GpuStat, SensorStat, TempStat};
use crate::text::{
    chars_vec, contains_ci, contains_ci_lit, eq_ci, eq_ignore_ascii_case_chars, lower_chars,
    spec_lower_char, spec_trim, trim_chars,
};
use vstd::prelude::*;

verus! {

/// Two GPU records describe the same device: equal non-empty ids, or
/// names equal up to ASCII case.
pub open spec fn gpu_match(b: GpuStat, e: GpuStat) -> bool {
    eq_ci(b.name@, e.name@) || (b.id@.len() > 0 && e.id@.len() > 0 && b.id@ == e.id@)
}

/// The base record with every field the overlay actually carries replaced
/// by the overlay's value; fields the overlay leaves unset pass through.
/// A blank overlay name keeps the base name; the id always stays the
/// base's.
pub open spec fn gpu_overlay(b: GpuStat, e: GpuStat) -> GpuStat {
    GpuStat {
        id: b.id,
        name: if spec_trim(e.name@).len() > 0 {
            e.name
        } else {
            b.name
        },
        utilization_centi_pct: if e.utilization_centi_pct is Some {
            e.utilization_centi_pct
        } else {
            b.utilization_centi_pct
        },
        memory_used_bytes: if e.memory_used_bytes is Some {
            e.memory_used_bytes
        } else {
            b.memory_used_bytes
        },
        memory_total_bytes: if e.memory_total_bytes is Some {
            e.memory_total_bytes
        } else {
            b.memory_total_bytes
        },
        temperature_centi: if e.temperature_centi is Some {
            e.temperature_centi
        } else {
            b.temperature_centi
        },
    }
}

/// Every field the overlay sets wins in the merged record; every field it
/// leaves unset passes through unchanged from the base.
pub proof fn lemma_gpu_overlay_fields(b: GpuStat, e: GpuStat)
    ensures
        e.utilization_centi_pct is Some ==> gpu_overlay(b, e).utilization_centi_pct
            == e.utilization_centi_pct,
        e.utilization_centi_pct is None ==> gpu_overlay(b, e).utilization_centi_pct
            == b.utilization_centi_pct,
        e.memory_used_bytes is Some ==> gpu_overlay(b, e).memory_used_bytes == e.memory_used_bytes,
        e.memory_used_bytes is None ==> gpu_overlay(b, e).memory_used_bytes == b.memory_used_bytes,
        e.memory_total_bytes is Some ==> gpu_overlay(b, e).memory_total_bytes
            == e.memory_total_bytes,
        e.memory_total_bytes is None ==> gpu_overlay(b, e).memory_total_bytes
            == b.memory_total_bytes,
        e.temperature_centi is Some ==> gpu_overlay(b, e).temperature_centi == e.temperature_centi,
        e.temperature_centi is None ==> gpu_overlay(b, e).temperature_centi == b.temperature_centi,
        spec_trim(e.name@).len() > 0 ==> gpu_overlay(b, e).name == e.name,
        spec_trim(e.name@).len() == 0 ==> gpu_overlay(b, e).name == b.name,
        gpu_overlay(b, e).id == b.id,
{
}

/// Index of the first record of `s` matching `e`, or -1.
pub open spec fn spec_find_gpu_match(s: Seq<GpuStat>, e: GpuStat) -> int
    decreases s.len(),
{
    if s.len() == 0 {
        -1
    } else if gpu_match(s[0], e) {
        0
    } else {
        let r = spec_find_gpu_match(s.drop_first(), e);
        if r == -1 {
            -1
        } else {
            1 + r
        }
    }
}

/// A found index is in bounds and matches.
pub proof fn lemma_find_gpu_match_bounds(s: Seq<GpuStat>, e: GpuStat)
    ensures
        spec_find_gpu_match(s, e) == -1 || (0 <= spec_find_gpu_match(s, e) < s.len() && gpu_match(
            s[spec_find_gpu_match(s, e)],
            e,
        )),
    decreases s.len(),
{
    if s.len() > 0 && !gpu_match(s[0], e) {
        lemma_find_gpu_match_bounds(s.drop_first(), e);
        let r = spec_find_gpu_match(s.drop_first(), e);
        if r != -1 {
            assert(s.drop_first()[r] == s[r + 1]);
        }
    }
}

/// One overlay record folded into the accumulated list: merged into the
/// first match, or appended as a new GPU.
pub open spec fn spec_merge_gpu_step(acc: Seq<GpuStat>, e: GpuStat) -> Seq<GpuStat> {
    let i = spec_find_gpu_match(acc, e);
    if i >= 0 {
        acc.update(i, gpu_overlay(acc[i], e))
    } else {
        acc.push(e)
    }
}

/// The overlay records folded into the base, in order.
pub open spec fn spec_merge_gpu_fold(base: Seq<GpuStat>, extra: Seq<GpuStat>) -> Seq<GpuStat>
    decreases extra.len(),
{
    if extra.len() == 0 {
        base
    } else {
        spec_merge_gpu_step(spec_merge_gpu_fold(base, extra.drop_last()), extra.last())
    }
}

/// The GPU merge: an empty side passes the other through unchanged;
/// otherwise every overlay record is folded into the base in order.
pub open spec fn spec_merge_gpu_stats(base: Seq<GpuStat>, extra: Seq<GpuStat>) -> Seq<GpuStat> {
    if base.len() == 0 {
        extra
    } else if extra.len() == 0 {
        base
    } else {
        spec_merge_gpu_fold(base, extra)
    }
}

/// Do two GPU records describe the same device?
fn gpu_match_exec(b: &GpuStat, e: &GpuStat) -> (r: bool)
    ensures
        r == gpu_match(*b, *e),
{
    let bn = chars_vec(b.name.as_str());
    let en = chars_vec(e.name.as_str());
    if eq_ignore_ascii_case_chars(&bn, &en) {
        return true;
    }
    !b.id.as_str().is_empty() && !e.id.as_str().is_empty() && b.id == e.id
}

/// Finds the first record matching `e`.
fn find_gpu_match(v: &Vec<GpuStat>, e: &GpuStat) -> (r: Option<usize>)
    ensures
        ({
            let ti = spec_find_gpu_match(v@, *e);
            match r {
                Some(i) => ti == i as int && i < v@.len(),
                None => ti == -1,
            }
        }),
{
    proof {
        assert(v@.skip(0) =~= v@);
    }
    let mut i: usize = 0;
    while i < v.len()
        invariant
            i <= v@.len(),
            ({
                let rest = spec_find_gpu_match(v@.skip(i as int), *e);
                let whole = spec_find_gpu_match(v@, *e);
                if rest == -1 {
                    whole == -1
                } else {
                    whole == i + rest
                }
            }),
        decreases v.len() - i,
    {
        proof {
            assert(v@.skip(i as int)[0] == v@[i as int]);
        }
        if gpu_match_exec(&v[i], e) {
            proof {
                assert(spec_find_gpu_match(v@.skip(i as int), *e) == 0);
            }
            return Some(i);
        }
        proof {
            assert(v@.skip(i as int).drop_first() =~= v@.skip(i as int + 1));
            lemma_find_gpu_match_bounds(v@.skip(i as int + 1), *e);
        }
        i = i + 1;
    }
    proof {
        assert(v@.skip(v@.len() as int) =~= Seq::<GpuStat>::empty());
    }
    None
}

/// Merges the overlay GPU list into the base list: for each overlay
/// record the first base record matched by id-or-name takes the overlay's
/// set fields; unmatched overlay records are appended as new GPUs. An
/// empty side passes the other through.
pub fn merge_gpu_stats(base: Vec<GpuStat>, extra: Vec<GpuStat>) -> (r: Vec<GpuStat>)
    ensures
        r@ == spec_merge_gpu_stats(base@, extra@),
{
    if base.len() == 0 {
        return extra;
    }
    if extra.len() == 0 {
        return base;
    }
    let mut merged: Vec<GpuStat> = base;
    let ghost base0 = merged@;
    let mut k: usize = 0;
    proof {
        assert(extra@.take(0) =~= Seq::<GpuStat>::empty());
    }
    while k < extra.len()
        invariant
            k <= extra@.len(),
            merged@ == spec_merge_gpu_fold(base0, extra@.take(k as int)),
        decreases extra.len() - k,
    {
        proof {
            assert(extra@.take(k as int + 1).drop_last() =~= extra@.take(k as int));
        }
        let e = &extra[k];
        match find_gpu_match(&merged, e) {
            Some(i) => {
                let b = &merged[i];
                let updated = GpuStat {
                    id: b.id.clone(),
                    name: if !is_blank_name(e) {
                        e.name.clone()
                    } else {
                        b.name.clone()
                    },
                    utilization_centi_pct: if e.utilization_centi_pct.is_some() {
                        e.utilization_centi_pct
                    } else {
                        b.utilization_centi_pct
                    },
                    memory_used_bytes: if e.memory_used_bytes.is_some() {
                        e.memory_used_bytes
                    } else {
                        b.memory_used_bytes
                    },
                    memory_total_bytes: if e.memory_total_bytes.is_some() {
                        e.memory_total_bytes
                    } else {
                        b.memory_total_bytes
                    },
                    temperature_centi: if e.temperature_centi.is_some() {
                        e.temperature_centi
                    } else {
                        b.temperature_centi
                    },
                };
                merged.set(i, updated);
            },
            None => {
                merged.push(clone_gpu(e));
            },
        }
        k = k + 1;
    }
    proof {
        assert(extra@.take(extra@.len() as int) =~= extra@);
    }
    merged
}

/// Is the record's name blank?
fn is_blank_name(g: &GpuStat) -> (r: bool)
    ensures
        r == (spec_trim(g.name@).len() == 0),
{
    let nv = chars_vec(g.name.as_str());
    let t = trim_chars(&nv);
    t.len() == 0
}

/// Two sensor records carry the same `(sensor_type, identifier)` key.
pub open spec fn sensor_key_eq(a: SensorStat, b: SensorStat) -> bool {
    a.sensor_type@ == b.sensor_type@ && a.identifier@ == b.identifier@
}

/// Index of the last record of `s` with the given key, or -1; the last
/// record wins where one source repeats a key.
pub open spec fn spec_sensor_find_last(s: Seq<SensorStat>, ty: Seq<char>, id: Seq<char>) -> int
    decreases s.len(),
{
    if s.len() == 0 {
        -1
    } else if s.last().sensor_type@ == ty && s.last().identifier@ == id {
        s.len() - 1
    } else {
        spec_sensor_find_last(s.drop_last(), ty, id)
    }
}

/// A found index is in bounds and matches.
pub proof fn lemma_sensor_find_last_bounds(s: Seq<SensorStat>, ty: Seq<char>, id: Seq<char>)
    ensures
        spec_sensor_find_last(s, ty, id) == -1 || (0 <= spec_sensor_find_last(s, ty, id) < s.len()
            && s[spec_sensor_find_last(s, ty, id)].sensor_type@ == ty && s[spec_sensor_find_last(
            s,
            ty,
            id,
        )].identifier@ == id),
    decreases s.len(),
{
    if s.len() > 0 && !(s.last().sensor_type@ == ty && s.last().identifier@ == id) {
        lemma_sensor_find_last_bounds(s.drop_last(), ty, id);
    }
}

/// A record with the key at any index means the key is found.
pub proof fn lemma_sensor_find_last_present(s: Seq<SensorStat>, k: int)
    requires
        0 <= k < s.len(),
    ensures
        spec_sensor_find_last(s, s[k].sensor_type@, s[k].identifier@) >= 0,
    decreases s.len(),
{
    if !(s.last().sensor_type@ == s[k].sensor_type@ && s.last().identifier@ == s[k].identifier@) {
        assert(k < s.len() - 1);
        assert(s.drop_last()[k] == s[k]);
        lemma_sensor_find_last_present(s.drop_last(), k);
    }
}

/// A key that is not found matches no record.
pub proof fn lemma_sensor_find_last_absent(s: Seq<SensorStat>, ty: Seq<char>, id: Seq<char>)
    requires
        spec_sensor_find_last(s, ty, id) == -1,
    ensures
        forall|k: int|
            0 <= k < s.len() ==> !(#[trigger] s[k].sensor_type@ == ty && s[k].identifier@ == id),
    decreases s.len(),
{
    if s.len() > 0 {
        lemma_sensor_find_last_absent(s.drop_last(), ty, id);
        assert(forall|k: int| 0 <= k < s.len() - 1 ==> #[trigger] s[k] == s.drop_last()[k]);
    }
}

/// Presence of a key survives appending more records.
pub proof fn lemma_sensor_find_last_push(s: Seq<SensorStat>, x: SensorStat, ty: Seq<char>, id: Seq<
    char,
>)
    requires
        spec_sensor_find_last(s, ty, id) >= 0,
    ensures
        spec_sensor_find_last(s.push(x), ty, id) >= 0,
{
    assert(s.push(x).drop_last() =~= s);
}

/// Finds the last record with the given key.
fn sensor_find_last(v: &Vec<SensorStat>, ty: &String, id: &String) -> (r: Option<usize>)
    ensures
        ({
            let ti = spec_sensor_find_last(v@, ty@, id@);
            match r {
                Some(i) => ti == i as int && i < v@.len(),
                None => ti == -1,
            }
        }),
{
    proof {
        assert(v@.take(v@.len() as int) =~= v@);
    }
    let mut i: usize = v.len();
    while i > 0
        invariant
            i <= v@.len(),
            spec_sensor_find_last(v@, ty@, id@) == spec_sensor_find_last(
                v@.take(i as int),
                ty@,
                id@,
            ),
        decreases i,
    {
        proof {
            assert(v@.take(i as int).drop_last() =~= v@.take(i as int - 1));
            assert(v@.take(i as int).last() == v@[i as int - 1]);
        }
        if v[i - 1].sensor_type == *ty && v[i - 1].identifier == *id {
            return Some(i - 1);
        }
        i = i - 1;
    }
    proof {
        assert(v@.take(0) =~= Seq::<SensorStat>::empty());
    }
    None
}

/// The sensor merge on the `(sensor_type, identifier)` key: the overlay's
/// entry wins exactly where keys collide, entries unique to either side
/// are preserved in full, and each key appears once. Within one side the
/// later record wins a repeated key. An empty side passes the other
/// through unchanged.
pub fn merge_sensors(base: Vec<SensorStat>, extra: Vec<SensorStat>) -> (r: Vec<SensorStat>)
    ensures
        base@.len() == 0 ==> r@ == extra@,
        base@.len() > 0 && extra@.len() == 0 ==> r@ == base@,
        base@.len() > 0 && extra@.len() > 0 ==> {
            &&& forall|i: int, j: int|
                0 <= i < j < r@.len() ==> !sensor_key_eq(#[trigger] r@[i], #[trigger] r@[j])
            &&& forall|i: int|
                0 <= i < r@.len() ==> {
                    let le = spec_sensor_find_last(
                        extra@,
                        #[trigger] r@[i].sensor_type@,
                        r@[i].identifier@,
                    );
                    let lb = spec_sensor_find_last(base@, r@[i].sensor_type@, r@[i].identifier@);
                    if le >= 0 {
                        r@[i] == extra@[le]
                    } else {
                        lb >= 0 && r@[i] == base@[lb]
                    }
                }
            &&& forall|k: int|
                0 <= k < base@.len() ==> spec_sensor_find_last(
                    r@,
                    #[trigger] base@[k].sensor_type@,
                    base@[k].identifier@,
                ) >= 0
            &&& forall|k: int|
                0 <= k < extra@.len() ==> spec_sensor_find_last(
                    r@,
                    #[trigger] extra@[k].sensor_type@,
                    extra@[k].identifier@,
                ) >= 0
        },
{
    if base.len() == 0 {
        return extra;
    }
    if extra.len() == 0 {
        return base;
    }
    let mut out: Vec<SensorStat> = Vec::new();
    let mut i: usize = 0;
    while i < base.len()
        invariant
            i <= base@.len(),
            forall|a: int, b: int|
                0 <= a < b < out@.len() ==> !sensor_key_eq(#[trigger] out@[a], #[trigger] out@[b]),
            forall|a: int|
                0 <= a < out@.len() ==> {
                    let le = spec_sensor_find_last(
                        extra@,
                        #[trigger] out@[a].sensor_type@,
                        out@[a].identifier@,
                    );
                    let lb = spec_sensor_find_last(
                        base@,
                        out@[a].sensor_type@,
                        out@[a].identifier@,
                    );
                    if le >= 0 {
                        out@[a] == extra@[le]
                    } else {
                        lb >= 0 && out@[a] == base@[lb]
                    }
                },
            forall|k: int|
                0 <= k < i ==> spec_sensor_find_last(
                    out@,
                    #[trigger] base@[k].sensor_type@,
                    base@[k].identifier@,
                ) >= 0,
        decreases base.len() - i,
    {
        let ty = &base[i].sensor_type;
        let id = &base[i].identifier;
        match sensor_find_last(&out, ty, id) {
            Some(_) => {},
            None => {
                let ghost out_before = out@;
                let chosen: SensorStat = match sensor_find_last(&extra, ty, id) {
                    Some(le) => clone_sensor(&extra[le]),
                    None => {
                        match sensor_find_last(&base, ty, id) {
                            Some(lb) => clone_sensor(&base[lb]),
                            None => {
                                proof {
                                    lemma_sensor_find_last_present(base@, i as int);
                                    assert(false);
                                }
                                clone_sensor(&base[i])
                            },
                        }
                    },
                };
                proof {
                    lemma_sensor_find_last_bounds(extra@, ty@, id@);
                    lemma_sensor_find_last_bounds(base@, ty@, id@);
                    assert(chosen.sensor_type@ == ty@ && chosen.identifier@ == id@);
                    lemma_sensor_find_last_absent(out_before, ty@, id@);
                }
                out.push(chosen);
                proof {
                    assert(out@.drop_last() =~= out_before);
                    assert(forall|a: int|
                        0 <= a < out_before.len() ==> #[trigger] out@[a] == out_before[a]);
                    assert(out@.last() == chosen);
                    assert forall|k: int| 0 <= k < i implies spec_sensor_find_last(
                        out@,
                        #[trigger] base@[k].sensor_type@,
                        base@[k].identifier@,
                    ) >= 0 by {
                        lemma_sensor_find_last_push(
                            out_before,
                            chosen,
                            base@[k].sensor_type@,
                            base@[k].identifier@,
                        );
                    }
                    assert(spec_sensor_find_last(out@, ty@, id@) >= 0);
                    assert(forall|a: int|
                        0 <= a < out_before.len() ==> !sensor_key_eq(
                            #[trigger] out@[a],
                            out@[out@.len() - 1],
                        ));
                }
            },
        }
        i = i + 1;
    }
    let ghost after_base = out@;
    let mut j: usize = 0;
    while j < extra.len()
        invariant
            j <= extra@.len(),
            forall|a: int, b: int|
                0 <= a < b < out@.len() ==> !sensor_key_eq(#[trigger] out@[a], #[trigger] out@[b]),
            forall|a: int|
                0 <= a < out@.len() ==> {
                    let le = spec_sensor_find_last(
                        extra@,
                        #[trigger] out@[a].sensor_type@,
                        out@[a].identifier@,
                    );
                    let lb = spec_sensor_find_last(
                        base@,
                        out@[a].sensor_type@,
                        out@[a].identifier@,
                    );
                    if le >= 0 {
                        out@[a] == extra@[le]
                    } else {
                        lb >= 0 && out@[a] == base@[lb]
                    }
                },
            forall|k: int|
                0 <= k < base@.len() ==> spec_sensor_find_last(
                    out@,
                    #[trigger] base@[k].sensor_type@,
                    base@[k].identifier@,
                ) >= 0,
            forall|k: int|
                0 <= k < j ==> spec_sensor_find_last(
                    out@,
                    #[trigger] extra@[k].sensor_type@,
                    extra@[k].identifier@,
                ) >= 0,
        decreases extra.len() - j,
    {
        let ty = &extra[j].sensor_type;
        let id = &extra[j].identifier;
        match sensor_find_last(&out, ty, id) {
            Some(_) => {},
            None => {
                let ghost out_before = out@;
                let chosen: SensorStat = match sensor_find_last(&extra, ty, id) {
                    Some(le) => clone_sensor(&extra[le]),
                    None => {
                        proof {
                            lemma_sensor_find_last_present(extra@, j as int);
                            assert(false);
                        }
                        clone_sensor(&extra[j])
                    },
                };
                proof {
                    lemma_sensor_find_last_bounds(extra@, ty@, id@);
                    assert(chosen.sensor_type@ == ty@ && chosen.identifier@ == id@);
                    lemma_sensor_find_last_absent(out_before, ty@, id@);
                }
                out.push(chosen);
                proof {
                    assert(out@.drop_last() =~= out_before);
                    assert(forall|a: int|
                        0 <= a < out_before.len() ==> #[trigger] out@[a] == out_before[a]);
                    assert(out@.last() == chosen);
                    assert forall|k: int| 0 <= k < base@.len() implies spec_sensor_find_last(
                        out@,
                        #[trigger] base@[k].sensor_type@,
                        base@[k].identifier@,
                    ) >= 0 by {
                        lemma_sensor_find_last_push(
                            out_before,
                            chosen,
                            base@[k].sensor_type@,
                            base@[k].identifier@,
                        );
                    }
                    assert forall|k: int| 0 <= k < j implies spec_sensor_find_last(
                        out@,
                        #[trigger] extra@[k].sensor_type@,
                        extra@[k].identifier@,
                    ) >= 0 by {
                        lemma_sensor_find_last_push(
                            out_before,
                            chosen,
                            extra@[k].sensor_type@,
                            extra@[k].identifier@,
                        );
                    }
                    assert(spec_sensor_find_last(out@, ty@, id@) >= 0);
                    assert(forall|a: int|
                        0 <= a < out_before.len() ==> !sensor_key_eq(
                            #[trigger] out@[a],
                            out@[out@.len() - 1],
                        ));
                }
            },
        }
        j = j + 1;
    }
    out
}

/// The temperature lists of all sources, concatenated in source order:
/// built-in readings, then the GPU tool's, then the Windows fallback's,
/// then the kernel interface's, then the hardware-monitor bridge's.
pub fn combine_temps(
    builtin: Vec<TempStat>,
    nvidia: Vec<TempStat>,
    windows: Vec<TempStat>,
    linux: Vec<TempStat>,
    bridge: Vec<TempStat>,
) -> (r: Vec<TempStat>)
    ensures
        r@ == builtin@ + nvidia@ + windows@ + linux@ + bridge@,
{
    let mut out = builtin;
    let mut a = nvidia;
    let mut b = windows;
    let mut c = linux;
    let mut d = bridge;
    out.append(&mut a);
    out.append(&mut b);
    out.append(&mut c);
    out.append(&mut d);
    out
}

/// Only the physically plausible readings: strictly above zero.
pub open spec fn spec_positive_temps(s: Seq<TempStat>) -> Seq<TempStat>
    decreases s.len(),
{
    if s.len() == 0 {
        s
    } else {
        let rest = spec_positive_temps(s.drop_last());
        if s.last().temperature_centi > 0 {
            rest.push(s.last())
        } else {
            rest
        }
    }
}

/// Drops readings at or below zero degrees.
pub fn filter_positive_temps(temps: &Vec<TempStat>) -> (r: Vec<TempStat>)
    ensures
        r@ == spec_positive_temps(temps@),
{
    let mut out: Vec<TempStat> = Vec::new();
    let mut i: usize = 0;
    proof {
        assert(temps@.take(0) =~= Seq::<TempStat>::empty());
    }
    while i < temps.len()
        invariant
            i <= temps@.len(),
            out@ == spec_positive_temps(temps@.take(i as int)),
        decreases temps.len() - i,
    {
        proof {
            assert(temps@.take(i as int + 1).drop_last() =~= temps@.take(i as int));
        }
        if temps[i].temperature_centi > 0 {
            out.push(clone_temp(&temps[i]));
        }
        i = i + 1;
    }
    proof {
        assert(temps@.take(temps@.len() as int) =~= temps@);
    }
    out
}

/// A component label that marks a GPU.
pub open spec fn spec_gpu_label(s: Seq<char>) -> bool {
    contains_ci(s, "gpu"@) || contains_ci(s, "nvidia"@) || contains_ci(s, "amdgpu"@)
}

/// The GPU records synthesized from GPU-labelled components, in order:
/// the lower-cased label as id, the label as name, the reading as
/// temperature.
pub open spec fn spec_gpus_from_components(s: Seq<TempStat>) -> Seq<GpuStat>
    decreases s.len(),
{
    if s.len() == 0 {
        Seq::empty()
    } else {
        let rest = spec_gpus_from_components(s.drop_last());
        if spec_gpu_label(s.last().sensor@) {
            rest.push(
                GpuStat {
                    id: s.last().sensor,
                    name: s.last().sensor,
                    utilization_centi_pct: None,
                    memory_used_bytes: None,
                    memory_total_bytes: None,
                    temperature_centi: Some(s.last().temperature_centi),
                },
            )
        } else {
            rest
        }
    }
}

/// Builds GPU records from GPU-labelled component readings. The record's
/// id carries the label lowered to ASCII lower case.
pub fn gpus_from_components(components: &Vec<TempStat>) -> (r: Vec<GpuStat>)
    ensures
        r@.len() == spec_gpus_from_components(components@).len(),
        forall|k: int|
            0 <= k < r@.len() ==> {
                let m = #[trigger] spec_gpus_from_components(components@)[k];
                &&& r@[k].id@.len() == m.id@.len()
                &&& (forall|c: int|
                    0 <= c < m.id@.len() ==> r@[k].id@[c] == spec_lower_char(#[trigger] m.id@[c]))
                &&& r@[k].name == m.name
                &&& r@[k].utilization_centi_pct is None
                &&& r@[k].memory_used_bytes is None
                &&& r@[k].memory_total_bytes is None
                &&& r@[k].temperature_centi == m.temperature_centi
            },
{
    let mut out: Vec<GpuStat> = Vec::new();
    let mut i: usize = 0;
    proof {
        assert(components@.take(0) =~= Seq::<TempStat>::empty());
    }
    while i < components.len()
        invariant
            i <= components@.len(),
            out@.len() == spec_gpus_from_components(components@.take(i as int)).len(),
            forall|k: int|
                0 <= k < out@.len() ==> {
                    let m = #[trigger] spec_gpus_from_components(components@.take(i as int))[k];
                    &&& out@[k].id@.len() == m.id@.len()
                    &&& (forall|c: int|
                        0 <= c < m.id@.len() ==> out@[k].id@[c] == spec_lower_char(
                            #[trigger] m.id@[c],
                        ))
                    &&& out@[k].name == m.name
                    &&& out@[k].utilization_centi_pct is None
                    &&& out@[k].memory_used_bytes is None
                    &&& out@[k].memory_total_bytes is None
                    &&& out@[k].temperature_centi == m.temperature_centi
                },
        decreases components.len() - i,
    {
        proof {
            assert(components@.take(i as int + 1).drop_last() =~= components@.take(i as int));
        }
        let label = chars_vec(components[i].sensor.as_str());
        if contains_ci_lit(&label, "gpu") || contains_ci_lit(&label, "nvidia") || contains_ci_lit(
            &label,
            "amdgpu",
        ) {
            let lowered = lower_chars(&label);
            out.push(
                GpuStat {
                    id: crate::text::string_from_chars(&lowered),
                    name: components[i].sensor.clone(),
                    utilization_centi_pct: None,
                    memory_used_bytes: None,
                    memory_total_bytes: None,
                    temperature_centi: Some(components[i].temperature_centi),
                },
            );
        }
        i = i + 1;
    }
    proof {
        assert(components@.take(components@.len() as int) =~= components@);
    }
    out
}

/// The GPU base list by source precedence: the GPU tool's records where
/// it produced any, else the GPU-labelled components, else the
/// performance-counter records.
pub fn select_gpu_base(
    nvidia: Vec<GpuStat>,
    components: Vec<GpuStat>,
    windows: Vec<GpuStat>,
) -> (r: Vec<GpuStat>)
    ensures
        nvidia@.len() > 0 ==> r@ == nvidia@,
        nvidia@.len() == 0 && components@.len() > 0 ==> r@ == components@,
        nvidia@.len() == 0 && components@.len() == 0 ==> r@ == windows@,
{
    if nvidia.len() > 0 {
        nvidia
    } else if components.len() > 0 {
        components
    } else {
        windows
    }
}

} // verus!
