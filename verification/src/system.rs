//! The arithmetic of the built-in system probe.
//!
//! The operating-system facilities are read outside the library; the
//! numbers they hand over are folded into snapshot fields here: the
//! average CPU load over all cores, kilobyte counters scaled to bytes,
//! and used disk space derived by saturating subtraction so that a
//! `DiskStat` always satisfies its invariant.

use crate::stats::{sat_sub_u64, DiskStat, NetStat};
use vstd::prelude::*;

verus! {

/// The sum of per-core loads.
pub open spec fn spec_sum_i64(s: Seq<i64>) -> int
    decreases s.len(),
{
    if s.len() == 0 {
        0
    } else {
        spec_sum_i64(s.drop_last()) + s.last()
    }
}

/// Integer division truncating toward zero, as the machine divides.
pub open spec fn spec_tdiv(a: int, b: int) -> int {
    if a >= 0 {
        a / b
    } else {
        -((-a) / b)
    }
}

/// The average per-core load of a cycle: zero without cores, else the sum
/// over the count, truncated toward zero.
pub fn average_cpu_usage(per_core: &Vec<i64>) -> (r: i64)
    ensures
        per_core@.len() == 0 ==> r == 0,
        per_core@.len() > 0 ==> r as int == spec_tdiv(
            spec_sum_i64(per_core@),
            per_core@.len() as int,
        ),
{
    let n: usize = per_core.len();
    if n == 0 {
        return 0;
    }
    let mut sum: i128 = 0;
    let mut i: usize = 0;
    proof {
        assert(per_core@.take(0) =~= Seq::<i64>::empty());
    }
    while i < n
        invariant
            n == per_core@.len(),
            i <= n,
            sum as int == spec_sum_i64(per_core@.take(i as int)),
            i * (i64::MIN as int) <= sum <= i * (i64::MAX as int),
        decreases n - i,
    {
        proof {
            assert(per_core@.take(i as int + 1).drop_last() =~= per_core@.take(i as int));
            vstd::arithmetic::mul::lemma_mul_is_distributive_add_other_way(
                i64::MIN as int,
                i as int,
                1,
            );
            vstd::arithmetic::mul::lemma_mul_is_distributive_add_other_way(
                i64::MAX as int,
                i as int,
                1,
            );
            vstd::arithmetic::mul::lemma_mul_inequality(
                i as int + 1,
                0x1_0000_0000_0000_0000,
                i64::MAX as int,
            );
            vstd::arithmetic::mul::lemma_mul_inequality(
                i as int + 1,
                0x1_0000_0000_0000_0000,
                -(i64::MIN as int),
            );
        }
        sum = sum + (per_core[i] as i128);
        i = i + 1;
    }
    proof {
        assert(per_core@.take(n as int) =~= per_core@);
    }
    let avg: i128 = if sum >= 0 {
        sum / (n as i128)
    } else {
        -((-sum) / (n as i128))
    };
    proof {
        lemma_tdiv_in_range(sum as int, n as int);
    }
    avg as i64
}

/// A quotient of a bounded sum stays within the element bounds.
proof fn lemma_tdiv_in_range(sum: int, n: int)
    requires
        n >= 1,
        n * (i64::MIN as int) <= sum <= n * (i64::MAX as int),
    ensures
        i64::MIN as int <= spec_tdiv(sum, n) <= i64::MAX as int,
{
    if sum >= 0 {
        vstd::arithmetic::div_mod::lemma_div_is_ordered(sum, n * (i64::MAX as int), n);
        vstd::arithmetic::div_mod::lemma_div_multiples_vanish(i64::MAX as int, n);
        vstd::arithmetic::div_mod::lemma_div_is_ordered(0, sum, n);
    } else {
        vstd::arithmetic::div_mod::lemma_div_is_ordered(-sum, n * (-(i64::MIN as int)), n);
        vstd::arithmetic::div_mod::lemma_div_multiples_vanish(-(i64::MIN as int), n);
        vstd::arithmetic::div_mod::lemma_div_is_ordered(0, -sum, n);
    }
}

/// Kilobyte counters scaled to bytes, saturating.
pub fn kb_to_bytes(kb: u64) -> (r: u64)
    ensures
        r as int == (if kb as int * 1024 > u64::MAX {
            u64::MAX as int
        } else {
            kb as int * 1024
        }),
{
    match kb.checked_mul(1024) {
        Some(v) => v,
        None => u64::MAX,
    }
}

/// One disk record from the probe's raw capacity and free-space readings;
/// used space is what is not available, so the invariant holds by
/// construction.
pub fn disk_stat_from_raw(mount: String, total_bytes: u64, available_bytes: u64) -> (r: DiskStat)
    ensures
        r.mount == mount,
        r.total_bytes == total_bytes,
        r.used_bytes as int == crate::stats::spec_sat_sub_u64(
            total_bytes as int,
            available_bytes as int,
        ),
        r.wf(),
{
    let used = sat_sub_u64(total_bytes, available_bytes);
    DiskStat { mount, used_bytes: used, total_bytes }
}

/// One interface record from the probe's cumulative counters; the rates
/// start at zero and are derived when the snapshot is published.
pub fn net_stat_from_totals(iface: String, rx_bytes_total: u64, tx_bytes_total: u64) -> (r: NetStat)
    ensures
        r.iface == iface,
        r.rx_bytes_total == rx_bytes_total,
        r.tx_bytes_total == tx_bytes_total,
        r.rx_bytes_per_sec == 0,
        r.tx_bytes_per_sec == 0,
{
    NetStat { iface, rx_bytes_total, tx_bytes_total, rx_bytes_per_sec: 0, tx_bytes_per_sec: 0 }
}

} // verus!
