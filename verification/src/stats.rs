//! Telemetry record types and the small derived quantities on them.
//!
//! Former floating-point readings are carried in hundredths of their unit:
//! `temperature_centi` of 4725 is 47.25 degrees Celsius, a
//! `utilization_centi_pct` of 9150 is 91.5 percent.

use vstd::prelude::*;

verus! {

/// One mounted filesystem; `used_bytes <= total_bytes` by construction
/// (used space is derived upstream by saturating subtraction).
#[derive(Debug, Clone, PartialEq)]
pub struct DiskStat {
    pub mount: String,
    pub used_bytes: u64,
    pub total_bytes: u64,
}

impl DiskStat {
    /// The record's invariant: used space never exceeds the capacity.
    pub open spec fn wf(&self) -> bool {
        self.used_bytes <= self.total_bytes
    }
}

/// One network interface with cumulative counters and the per-second rates
/// derived from the previous collection cycle.
#[derive(Debug, Clone, PartialEq)]
pub struct NetStat {
    pub iface: String,
    pub rx_bytes_total: u64,
    pub tx_bytes_total: u64,
    pub rx_bytes_per_sec: u64,
    pub tx_bytes_per_sec: u64,
}

/// One temperature sensor reading, in centi-degrees Celsius.
#[derive(Debug, Clone, PartialEq)]
pub struct TempStat {
    pub sensor: String,
    pub temperature_centi: i64,
    pub critical_temperature_centi: Option<i64>,
}

/// One internet speed measurement, in centi-megabits per second and
/// centi-milliseconds.
#[derive(Debug, Clone, PartialEq)]
pub struct InternetSpeedStat {
    pub download_centi_mbps: i64,
    pub upload_centi_mbps: i64,
    pub latency_centi_ms: Option<i64>,
    pub measured_at_unix: i64,
}

/// One GPU; every measured field is optional because the sources differ in
/// what they can report.
#[derive(Debug, Clone, PartialEq)]
pub struct GpuStat {
    pub id: String,
    pub name: String,
    pub utilization_centi_pct: Option<i64>,
    pub memory_used_bytes: Option<u64>,
    pub memory_total_bytes: Option<u64>,
    pub temperature_centi: Option<i64>,
}

/// One generic typed sensor reading; unique per
/// `(sensor_type, identifier)`.
#[derive(Debug, Clone, PartialEq)]
pub struct SensorStat {
    pub sensor_type: String,
    pub name: String,
    pub identifier: String,
    pub parent: String,
    pub value_centi: i64,
    pub min_centi: Option<i64>,
    pub max_centi: Option<i64>,
}

/// Result of one HTTP reachability check.
#[derive(Debug, Clone, PartialEq)]
pub struct HttpCheckResult {
    pub name: String,
    pub up: bool,
    pub latency_ms: u64,
    pub status_code: u16,
}

/// Result of one TCP reachability check.
#[derive(Debug, Clone, PartialEq)]
pub struct TcpCheckResult {
    pub name: String,
    pub up: bool,
    pub latency_ms: u64,
}

/// All check results of one collection cycle.
#[derive(Debug, Clone, PartialEq, Default)]
pub struct CheckResults {
    pub http: Vec<HttpCheckResult>,
    pub tcp: Vec<TcpCheckResult>,
}

/// The kind of a configured reachability check.
#[derive(Debug, Clone, Copy, PartialEq, Eq, Structural)]
pub enum CheckKind {
    Http,
    Tcp,
}

/// Stable identity of a configured check across cycles.
#[derive(Debug, Clone, PartialEq)]
pub struct CheckId {
    pub kind: CheckKind,
    pub name: String,
}

impl CheckId {
    /// Identity as contracts speak of it.
    pub open spec fn key(&self) -> (CheckKind, Seq<char>) {
        (self.kind, self.name@)
    }
}

/// A field-for-field copy of a temperature reading.
pub fn clone_temp(t: &TempStat) -> (r: TempStat)
    ensures
        r == *t,
{
    TempStat {
        sensor: t.sensor.clone(),
        temperature_centi: t.temperature_centi,
        critical_temperature_centi: t.critical_temperature_centi,
    }
}

/// A field-for-field copy of a GPU record.
pub fn clone_gpu(g: &GpuStat) -> (r: GpuStat)
    ensures
        r == *g,
{
    GpuStat {
        id: g.id.clone(),
        name: g.name.clone(),
        utilization_centi_pct: g.utilization_centi_pct,
        memory_used_bytes: g.memory_used_bytes,
        memory_total_bytes: g.memory_total_bytes,
        temperature_centi: g.temperature_centi,
    }
}

/// A field-for-field copy of a sensor record.
pub fn clone_sensor(s: &SensorStat) -> (r: SensorStat)
    ensures
        r == *s,
{
    SensorStat {
        sensor_type: s.sensor_type.clone(),
        name: s.name.clone(),
        identifier: s.identifier.clone(),
        parent: s.parent.clone(),
        value_centi: s.value_centi,
        min_centi: s.min_centi,
        max_centi: s.max_centi,
    }
}

/// Percentage in hundredths of a percent: 0 when there is no capacity,
/// `used / total * 100` otherwise.
pub open spec fn spec_percent_centi(used: int, total: int) -> int {
    if total <= 0 {
        0
    } else {
        used * 10000 / total
    }
}

/// A percentage of non-negative quantities is never negative, and is
/// bounded by 10000 (100%) whenever usage does not exceed capacity.
pub proof fn lemma_percent_centi_range(used: int, total: int)
    requires
        0 <= used,
        0 <= total,
    ensures
        spec_percent_centi(used, total) >= 0,
        used <= total ==> spec_percent_centi(used, total) <= 10000,
{
    if total > 0 {
        vstd::arithmetic::div_mod::lemma_div_is_ordered(0, used * 10000, total);
        if used <= total {
            vstd::arithmetic::div_mod::lemma_div_is_ordered(used * 10000, total * 10000, total);
            vstd::arithmetic::div_mod::lemma_div_multiples_vanish(10000, total);
        }
    }
}

/// Usage percent in hundredths, for quantities with `used <= total`.
pub fn percent_centi(used: u64, total: u64) -> (r: u64)
    requires
        used <= total,
    ensures
        r as int == spec_percent_centi(used as int, total as int),
        r <= 10000,
{
    if total == 0 {
        return 0;
    }
    let wide: u128 = (used as u128) * 10000 / (total as u128);
    proof {
        lemma_percent_centi_range(used as int, total as int);
    }
    wide as u64
}

/// Percentage in hundredths, saturating for the pathological case of
/// usage far above capacity.
pub open spec fn spec_percent_centi_sat(used: int, total: int) -> int {
    if spec_percent_centi(used, total) > i64::MAX {
        i64::MAX as int
    } else {
        spec_percent_centi(used, total)
    }
}

/// Usage percent in hundredths, saturating; safe for unrelated counters.
pub fn percent_centi_sat(used: u64, total: u64) -> (r: i64)
    ensures
        r as int == spec_percent_centi_sat(used as int, total as int),
        r >= 0,
{
    if total == 0 {
        return 0;
    }
    let wide: u128 = (used as u128) * 10000 / (total as u128);
    proof {
        vstd::arithmetic::div_mod::lemma_div_is_ordered(0, used as int * 10000, total as int);
    }
    if wide > 0x7fff_ffff_ffff_ffffu128 {
        i64::MAX
    } else {
        wide as i64
    }
}

/// How full a disk is, in hundredths of a percent; 0 for a zero-capacity
/// disk.
pub fn disk_used_pct(d: &DiskStat) -> (r: u64)
    requires
        d.wf(),
    ensures
        r as int == spec_percent_centi(d.used_bytes as int, d.total_bytes as int),
        r <= 10000,
{
    percent_centi(d.used_bytes, d.total_bytes)
}

/// Saturating subtraction on byte counters.
pub open spec fn spec_sat_sub_u64(a: int, b: int) -> int {
    if a >= b {
        a - b
    } else {
        0
    }
}

/// Saturating subtraction on byte counters.
pub fn sat_sub_u64(a: u64, b: u64) -> (r: u64)
    ensures
        r as int == spec_sat_sub_u64(a as int, b as int),
{
    a.saturating_sub(b)
}

/// Saturating addition on byte counters.
pub open spec fn spec_sat_add(a: int, b: int) -> int {
    if a + b > u64::MAX {
        u64::MAX as int
    } else {
        a + b
    }
}

/// The saturating sum of all receive rates of a prefix of interfaces.
pub open spec fn spec_rx_rate_total(s: Seq<NetStat>) -> int
    decreases s.len(),
{
    if s.len() == 0 {
        0
    } else {
        spec_sat_add(spec_rx_rate_total(s.drop_last()), s.last().rx_bytes_per_sec as int)
    }
}

/// The saturating sum of all transmit rates of a prefix of interfaces.
pub open spec fn spec_tx_rate_total(s: Seq<NetStat>) -> int
    decreases s.len(),
{
    if s.len() == 0 {
        0
    } else {
        spec_sat_add(spec_tx_rate_total(s.drop_last()), s.last().tx_bytes_per_sec as int)
    }
}

/// Total receive and transmit rates over all interfaces, each sum
/// saturating at the counter maximum.
pub fn network_speed_totals(net: &Vec<NetStat>) -> (r: (u64, u64))
    ensures
        r.0 as int == spec_rx_rate_total(net@),
        r.1 as int == spec_tx_rate_total(net@),
{
    let mut rx: u64 = 0;
    let mut tx: u64 = 0;
    let mut i: usize = 0;
    proof {
        assert(net@.take(0) =~= Seq::<NetStat>::empty());
    }
    while i < net.len()
        invariant
            i <= net@.len(),
            rx as int == spec_rx_rate_total(net@.take(i as int)),
            tx as int == spec_tx_rate_total(net@.take(i as int)),
        decreases net.len() - i,
    {
        proof {
            assert(net@.take(i as int + 1).drop_last() =~= net@.take(i as int));
        }
        rx = rx.saturating_add(net[i].rx_bytes_per_sec);
        tx = tx.saturating_add(net[i].tx_bytes_per_sec);
        i = i + 1;
    }
    proof {
        assert(net@.take(net@.len() as int) =~= net@);
    }
    (rx, tx)
}

/// Bytes as hundredths of a gigabyte (2^30 bytes), fraction truncated.
pub open spec fn spec_centi_gb(bytes: int) -> int {
    bytes * 100 / 0x40000000
}

/// Bytes as hundredths of a gigabyte.
pub fn centi_gb(bytes: u64) -> (r: i64)
    ensures
        r as int == spec_centi_gb(bytes as int),
        r >= 0,
{
    let wide: u128 = (bytes as u128) * 100 / 0x40000000;
    proof {
        vstd::arithmetic::div_mod::lemma_div_is_ordered(0, bytes as int * 100, 0x40000000);
        vstd::arithmetic::div_mod::lemma_div_is_ordered(
            bytes as int * 100,
            0xffffffffffffffff as int * 100,
            0x40000000,
        );
    }
    wide as i64
}

/// Bytes as hundredths of a megabyte (2^20 bytes), fraction truncated.
pub open spec fn spec_centi_mb(bytes: int) -> int {
    bytes * 100 / 0x100000
}

/// Bytes as hundredths of a megabyte.
pub fn centi_mb(bytes: u64) -> (r: i64)
    ensures
        r as int == spec_centi_mb(bytes as int),
        r >= 0,
{
    let wide: u128 = (bytes as u128) * 100 / 0x100000;
    proof {
        vstd::arithmetic::div_mod::lemma_div_is_ordered(0, bytes as int * 100, 0x100000);
        vstd::arithmetic::div_mod::lemma_div_is_ordered(
            bytes as int * 100,
            0xffffffffffffffff as int * 100,
            0x100000,
        );
    }
    wide as i64
}

} // verus!
