//! Unit normalization rules for raw temperature readings.
//!
//! Thermal-zone counters may report tenths of Kelvin, whole Kelvin, or
//! already-converted Celsius; one rule handles all three encodings. Values
//! are centi-degrees: 27315 is 273.15.

use vstd::prelude::*;

verus! {

/// Lowest plausible result, in centi-degrees Celsius.
pub const MIN_PLAUSIBLE_CENTI: i64 = 0;

/// Highest plausible result, in centi-degrees Celsius.
pub const MAX_PLAUSIBLE_CENTI: i64 = 13000;

/// The thermal-zone rule on a raw centi-value: reject non-positive input,
/// divide by 10 when the reading looks like tenths of Kelvin (> 1000 units),
/// subtract 273.15 when the result still looks like Kelvin (> 200 units),
/// then require a plausible Celsius value in [0, 130].
pub open spec fn spec_thermal_zone_celsius(raw: int) -> Option<int> {
    if raw <= 0 {
        None
    } else {
        let scaled = if raw > 100000 { raw / 10 } else { raw };
        let celsius = if scaled > 20000 { scaled - 27315 } else { scaled };
        if 0 <= celsius <= 13000 {
            Some(celsius)
        } else {
            None
        }
    }
}

/// Normalizes one raw thermal-zone reading to centi-degrees Celsius,
/// or rejects it as physically implausible.
pub fn normalize_windows_thermal_zone_temp(raw: i64) -> (r: Option<i64>)
    ensures
        r matches Some(v) ==> spec_thermal_zone_celsius(raw as int) == Some(v as int),
        r is None ==> spec_thermal_zone_celsius(raw as int) is None,
{
    if raw <= 0 {
        return None;
    }
    let scaled: i64 = if raw > 100000 { raw / 10 } else { raw };
    let celsius: i64 = if scaled > 20000 { scaled - 27315 } else { scaled };
    if 0 <= celsius && celsius <= 13000 {
        Some(celsius)
    } else {
        None
    }
}

/// An already-correct Celsius reading in (0, 130] passes through the
/// thermal-zone rule unchanged; non-positive raw values are always
/// rejected; and whatever the rule accepts lies in [0, 130].
pub proof fn lemma_thermal_zone_rule_stable(raw: int)
    ensures
        0 < raw <= 13000 ==> spec_thermal_zone_celsius(raw) == Some(raw),
        raw <= 0 ==> spec_thermal_zone_celsius(raw) is None,
        spec_thermal_zone_celsius(raw) matches Some(v) ==> 0 <= v <= 13000,
{
}

} // verus!
