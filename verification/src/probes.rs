//! Parsers for the probe tools' raw output.
//!
//! Every probe source degrades to an empty contribution on failure: a
//! malformed line or field is skipped, its siblings still parsed. The
//! formats handled here are the GPU tool's fixed-column CSV, the
//! instrumentation bridges' `key|value|...` records, kernel thermal-zone
//! file pairs, and free-form performance-counter text.

use crate::normalize::{normalize_windows_thermal_zone_temp, spec_thermal_zone_celsius};
use crate::numeric::{
    parse_value_loose_chars, spec_loose_centi, spec_parse_decimal_bounded, u64_dec_string,
    spec_dec_digits,
};
use crate::stats::{GpuStat, TempStat};
use crate::text::{
    chars_vec, spec_trim, split_on, split_on_char, string_from_chars, trim_chars,
};
use vstd::prelude::*;
use vstd::string::StringExecFns;

verus! {

/// What contracts compare of a temperature record.
#[verifier::ext_equal]
pub struct TempModel {
    pub sensor: Seq<char>,
    pub temperature: int,
    pub critical: Option<int>,
}

/// The model of one temperature record.
pub open spec fn temp_model(t: TempStat) -> TempModel {
    TempModel {
        sensor: t.sensor@,
        temperature: t.temperature_centi as int,
        critical: match t.critical_temperature_centi {
            Some(v) => Some(v as int),
            None => None,
        },
    }
}

/// The models of a temperature list.
pub open spec fn temp_models(s: Seq<TempStat>) -> Seq<TempModel> {
    Seq::new(s.len(), |i: int| temp_model(s[i]))
}

/// What contracts compare of a GPU record.
#[verifier::ext_equal]
pub struct GpuModel {
    pub id: Seq<char>,
    pub name: Seq<char>,
    pub util: Option<int>,
    pub mem_used: Option<int>,
    pub mem_total: Option<int>,
    pub temp: Option<int>,
}

/// The model of one GPU record.
pub open spec fn gpu_model(g: GpuStat) -> GpuModel {
    GpuModel {
        id: g.id@,
        name: g.name@,
        util: match g.utilization_centi_pct {
            Some(v) => Some(v as int),
            None => None,
        },
        mem_used: match g.memory_used_bytes {
            Some(v) => Some(v as int),
            None => None,
        },
        mem_total: match g.memory_total_bytes {
            Some(v) => Some(v as int),
            None => None,
        },
        temp: match g.temperature_centi {
            Some(v) => Some(v as int),
            None => None,
        },
    }
}

/// The models of a GPU list.
pub open spec fn gpu_models(s: Seq<GpuStat>) -> Seq<GpuModel> {
    Seq::new(s.len(), |i: int| gpu_model(s[i]))
}

/// The loose value, or zero where there is none.
pub open spec fn spec_loose_or0(s: Seq<char>) -> int {
    match spec_loose_centi(s) {
        Some(v) => v,
        None => 0,
    }
}

/// The loose value as whole non-negative units, or zero.
pub open spec fn spec_loose_units_or0(s: Seq<char>) -> int {
    match spec_loose_centi(s) {
        Some(v) => if v < 0 {
            0
        } else {
            v / 100
        },
        None => 0,
    }
}

/// Megabytes as bytes, saturating at the counter maximum.
pub open spec fn spec_mb_bytes(v: int) -> int {
    if v * 0x100000 > u64::MAX {
        u64::MAX as int
    } else {
        v * 0x100000
    }
}

/// The loose value of a field, or zero.
fn loose_or0(piece: &Vec<char>) -> (r: i64)
    ensures
        r as int == spec_loose_or0(piece@),
{
    match parse_value_loose_chars(piece) {
        Some(v) => v,
        None => 0,
    }
}

/// The loose value of a field as whole units scaled from megabytes to
/// bytes, or zero.
fn loose_mb_bytes_or0(piece: &Vec<char>) -> (r: u64)
    ensures
        r as int == spec_mb_bytes(spec_loose_units_or0(piece@)),
{
    let units: u64 = match parse_value_loose_chars(piece) {
        Some(v) => if v < 0 {
            0
        } else {
            (v / 100) as u64
        },
        None => 0,
    };
    match units.checked_mul(0x100000) {
        Some(v) => v,
        None => u64::MAX,
    }
}

/// The trimmed text of a field.
fn trimmed_string(piece: &Vec<char>) -> (r: String)
    ensures
        r@ == spec_trim(piece@),
{
    let t = trim_chars(piece);
    string_from_chars(&t)
}

/// Whether valid UTF-16LE words decode `words`; the decoded text where
/// they do. Decoding is a function of the words alone.
pub uninterp spec fn utf16le_decode(words: Seq<u16>) -> Option<Seq<char>>;

/// The replacement-character decoding of `bytes`, a function of the bytes
/// alone.
pub uninterp spec fn utf8_lossy_decode(bytes: Seq<u8>) -> Seq<char>;

/// Relies on `std::str::from_utf8`: succeeds exactly on valid UTF-8, and
/// then yields the decoded characters.
#[verifier::external_body]
fn utf8_to_string(bytes: &[u8]) -> (r: Option<String>)
    ensures
        match r {
            Some(s) => vstd::utf8::valid_utf8(bytes@) && s@ == vstd::utf8::decode_utf8(bytes@),
            None => !vstd::utf8::valid_utf8(bytes@),
        },
{
    std::str::from_utf8(bytes).ok().map(|s| s.to_string())
}

/// Relies on `String::from_utf16`: whether the words decode, and the
/// decoded text, depend on the words alone.
#[verifier::external_body]
fn utf16le_to_string(words: &Vec<u16>) -> (r: Option<String>)
    ensures
        match r {
            Some(s) => utf16le_decode(words@) == Some(s@),
            None => utf16le_decode(words@) is None,
        },
{
    String::from_utf16(words).ok()
}

/// Relies on `String::from_utf8_lossy`: the replacement-character
/// decoding depends on the bytes alone.
#[verifier::external_body]
fn utf8_lossy_to_string(bytes: &[u8]) -> (r: String)
    ensures
        r@ == utf8_lossy_decode(bytes@),
{
    String::from_utf8_lossy(bytes).to_string()
}

/// The words read little-endian from an even run of bytes.
pub open spec fn le_words(b: Seq<u8>) -> Seq<u16> {
    Seq::new(b.len() / 2, |i: int| (b[2 * i] + 256 * b[2 * i + 1]) as u16)
}

/// The text of a tool's standard output: UTF-8 where it is valid, else
/// UTF-16LE where the bytes pair up and decode, else the
/// replacement-character reading.
pub open spec fn spec_decode_cmd_stdout(b: Seq<u8>) -> Seq<char> {
    if vstd::utf8::valid_utf8(b) {
        vstd::utf8::decode_utf8(b)
    } else if b.len() >= 2 && b.len() % 2 == 0 && utf16le_decode(le_words(b)) is Some {
        utf16le_decode(le_words(b))->Some_0
    } else {
        utf8_lossy_decode(b)
    }
}

/// Decodes a tool's standard output: UTF-8 first, then UTF-16LE for the
/// Windows tools that emit it, then lossily.
pub fn decode_cmd_stdout(bytes: &[u8]) -> (r: String)
    ensures
        r@ == spec_decode_cmd_stdout(bytes@),
{
    match utf8_to_string(bytes) {
        Some(s) => s,
        None => {
            let n: usize = bytes.len();
            if n >= 2 && n % 2 == 0 {
                let mut words: Vec<u16> = Vec::new();
                let mut i: usize = 0;
                while i + 1 < n
                    invariant
                        n == bytes@.len(),
                        n % 2 == 0,
                        i % 2 == 0,
                        i <= n,
                        words@.len() == i / 2,
                        forall|k: int|
                            0 <= k < words@.len() ==> words@[k] == (bytes@[2 * k] + 256 * bytes@[2
                                * k + 1]) as u16,
                    decreases n - i,
                {
                    let w: u16 = (bytes[i] as u16) + 256 * (bytes[i + 1] as u16);
                    words.push(w);
                    i = i + 2;
                }
                proof {
                    assert(words@ =~= le_words(bytes@));
                }
                match utf16le_to_string(&words) {
                    Some(s) => s,
                    None => utf8_lossy_to_string(bytes),
                }
            } else {
                utf8_lossy_to_string(bytes)
            }
        },
    }
}

/// The record parsed from one line of the GPU tool's CSV output, with the
/// fixed column order index, name, utilization, memory used, memory
/// total, temperature; memory columns are megabytes. A line with fewer
/// than six columns is skipped.
pub open spec fn spec_nvidia_gpu_line(l: Seq<char>) -> Option<GpuModel> {
    let ps = split_on(l, ',');
    if ps.len() < 6 {
        None
    } else {
        Some(
            GpuModel {
                id: spec_trim(ps[0]),
                name: spec_trim(ps[1]),
                util: Some(spec_loose_or0(ps[2])),
                mem_used: Some(spec_mb_bytes(spec_loose_units_or0(ps[3]))),
                mem_total: Some(spec_mb_bytes(spec_loose_units_or0(ps[4]))),
                temp: spec_loose_centi(ps[5]),
            },
        )
    }
}

/// The records of every well-formed line of the GPU tool's output.
pub open spec fn spec_nvidia_gpus(lines: Seq<Seq<char>>) -> Seq<GpuModel>
    decreases lines.len(),
{
    if lines.len() == 0 {
        Seq::empty()
    } else {
        let rest = spec_nvidia_gpus(lines.drop_last());
        match spec_nvidia_gpu_line(lines.last()) {
            Some(m) => rest.push(m),
            None => rest,
        }
    }
}

/// Parses the GPU tool's CSV utilization/memory/temperature output.
pub fn parse_nvidia_gpus(text: &str) -> (r: Vec<GpuStat>)
    ensures
        gpu_models(r@) == spec_nvidia_gpus(split_on(text@, '\n')),
{
    let cv = chars_vec(text);
    let lines = split_on_char(&cv, '\n');
    let ghost lseq = split_on(text@, '\n');
    let mut out: Vec<GpuStat> = Vec::new();
    let mut i: usize = 0;
    proof {
        assert(lseq.take(0) =~= Seq::<Seq<char>>::empty());
        assert(gpu_models(out@) =~= spec_nvidia_gpus(lseq.take(0)));
    }
    while i < lines.len()
        invariant
            lines@.len() == lseq.len(),
            forall|k: int| 0 <= k < lseq.len() ==> #[trigger] lines@[k]@ == lseq[k],
            i <= lseq.len(),
            gpu_models(out@) == spec_nvidia_gpus(lseq.take(i as int)),
        decreases lines.len() - i,
    {
        proof {
            assert(lseq.take(i as int + 1).drop_last() =~= lseq.take(i as int));
        }
        let parts = split_on_char(&lines[i], ',');
        if parts.len() >= 6 {
            let ghost before = out@;
            let g = GpuStat {
                id: trimmed_string(&parts[0]),
                name: trimmed_string(&parts[1]),
                utilization_centi_pct: Some(loose_or0(&parts[2])),
                memory_used_bytes: Some(loose_mb_bytes_or0(&parts[3])),
                memory_total_bytes: Some(loose_mb_bytes_or0(&parts[4])),
                temperature_centi: parse_value_loose_chars(&parts[5]),
            };
            out.push(g);
            proof {
                assert(gpu_models(out@) =~~= spec_nvidia_gpus(lseq.take(i as int + 1)));
            }
        }
        i = i + 1;
    }
    proof {
        assert(lseq.take(lseq.len() as int) =~= lseq);
    }
    out
}

/// The reading parsed from one line of the GPU tool's name,temperature
/// output: skipped with fewer than two columns, an unparsable value, or a
/// non-positive temperature; the sensor label is `GPU ` before the name.
pub open spec fn spec_nvidia_temp_line(l: Seq<char>) -> Option<TempModel> {
    let ps = split_on(l, ',');
    if ps.len() < 2 {
        None
    } else {
        match spec_loose_centi(ps[1]) {
            Some(v) => if v > 0 {
                Some(TempModel { sensor: "GPU "@ + spec_trim(ps[0]), temperature: v, critical: None })
            } else {
                None
            },
            None => None,
        }
    }
}

/// The readings of every well-formed line.
pub open spec fn spec_nvidia_temps(lines: Seq<Seq<char>>) -> Seq<TempModel>
    decreases lines.len(),
{
    if lines.len() == 0 {
        Seq::empty()
    } else {
        let rest = spec_nvidia_temps(lines.drop_last());
        match spec_nvidia_temp_line(lines.last()) {
            Some(m) => rest.push(m),
            None => rest,
        }
    }
}

/// Parses the GPU tool's name,temperature output.
pub fn parse_nvidia_temps(text: &str) -> (r: Vec<TempStat>)
    ensures
        temp_models(r@) == spec_nvidia_temps(split_on(text@, '\n')),
{
    let cv = chars_vec(text);
    let lines = split_on_char(&cv, '\n');
    let ghost lseq = split_on(text@, '\n');
    let mut out: Vec<TempStat> = Vec::new();
    let mut i: usize = 0;
    proof {
        assert(lseq.take(0) =~= Seq::<Seq<char>>::empty());
        assert(temp_models(out@) =~= spec_nvidia_temps(lseq.take(0)));
    }
    while i < lines.len()
        invariant
            lines@.len() == lseq.len(),
            forall|k: int| 0 <= k < lseq.len() ==> #[trigger] lines@[k]@ == lseq[k],
            i <= lseq.len(),
            temp_models(out@) == spec_nvidia_temps(lseq.take(i as int)),
        decreases lines.len() - i,
    {
        proof {
            assert(lseq.take(i as int + 1).drop_last() =~= lseq.take(i as int));
        }
        let parts = split_on_char(&lines[i], ',');
        if parts.len() >= 2 {
            match parse_value_loose_chars(&parts[1]) {
                Some(v) => {
                    if v > 0 {
                        let mut sensor = String::from_str("GPU ");
                        let name = trimmed_string(&parts[0]);
                        sensor.append(name.as_str());
                        out.push(
                            TempStat {
                                sensor,
                                temperature_centi: v,
                                critical_temperature_centi: None,
                            },
                        );
                        proof {
                            assert(temp_models(out@) =~~= spec_nvidia_temps(
                                lseq.take(i as int + 1),
                            ));
                        }
                    }
                },
                None => {},
            }
        }
        i = i + 1;
    }
    proof {
        assert(lseq.take(lseq.len() as int) =~= lseq);
    }
    out
}

/// The reading of one kernel thermal zone, from the zone's `type` file
/// content (or the directory name where the file is missing) and its
/// `temp` file content: the raw number, read as a plain decimal, is
/// millidegrees when above 1000 and degrees otherwise, and must come out
/// positive.
pub open spec fn spec_linux_zone_temp(
    type_text: Option<Seq<char>>,
    zone_name: Seq<char>,
    temp_text: Seq<char>,
) -> Option<TempModel> {
    match spec_parse_decimal_bounded(spec_trim(temp_text)) {
        Some(raw) => {
            let celsius = if raw > 100000 {
                raw / 1000
            } else {
                raw
            };
            if celsius > 0 {
                Some(
                    TempModel {
                        sensor: match type_text {
                            Some(t) => spec_trim(t),
                            None => zone_name,
                        },
                        temperature: celsius,
                        critical: None,
                    },
                )
            } else {
                None
            }
        },
        None => None,
    }
}

/// Reads one kernel thermal zone.
pub fn linux_zone_temp(type_text: Option<&str>, zone_name: &str, temp_text: &str) -> (r: Option<
    TempStat,
>)
    ensures
        match r {
            Some(t) => spec_linux_zone_temp(
                match type_text {
                    Some(tt) => Some(tt@),
                    None => None,
                },
                zone_name@,
                temp_text@,
            ) == Some(temp_model(t)),
            None => spec_linux_zone_temp(
                match type_text {
                    Some(tt) => Some(tt@),
                    None => None,
                },
                zone_name@,
                temp_text@,
            ) is None,
        },
{
    let tv = chars_vec(temp_text);
    let trimmed = trim_chars(&tv);
    let raw: Option<i64> = crate::numeric::parse_decimal_bounded(&trimmed);
    match raw {
        Some(v) => {
            let celsius: i64 = if v > 100000 {
                v / 1000
            } else {
                v
            };
            if celsius > 0 {
                let sensor: String = match type_text {
                    Some(tt) => {
                        let c = chars_vec(tt);
                        trimmed_string(&c)
                    },
                    None => String::from_str(zone_name),
                };
                Some(TempStat { sensor, temperature_centi: celsius, critical_temperature_centi: None })
            } else {
                None
            }
        },
        None => None,
    }
}

/// A piece of a character run.
fn sub_vec(v: &Vec<char>, from: usize, to: usize) -> (out: Vec<char>)
    requires
        from <= to <= v@.len(),
    ensures
        out@ == v@.subrange(from as int, to as int),
{
    let mut out: Vec<char> = Vec::new();
    let mut i: usize = from;
    while i < to
        invariant
            from <= i <= to <= v@.len(),
            out@ =~= v@.subrange(from as int, i as int),
        decreases to - i,
    {
        out.push(v[i]);
        proof {
            assert(out@ =~= v@.subrange(from as int, i as int + 1));
        }
        i = i + 1;
    }
    out
}

/// The reading parsed from one line of the ACPI thermal zone CSV: at
/// least three comma-separated columns, the third a plain positive
/// decimal that the thermal-zone rule accepts; the label is `ACPI ` plus
/// the instance name plus ` (fallback)`.
pub open spec fn spec_wmic_temp_line(l: Seq<char>) -> Option<TempModel> {
    let ps = split_on(l, ',');
    if ps.len() < 3 {
        None
    } else {
        match spec_parse_decimal_bounded(spec_trim(ps[2])) {
            Some(raw) => if raw <= 0 {
                None
            } else {
                match spec_thermal_zone_celsius(raw) {
                    Some(c) => Some(
                        TempModel {
                            sensor: "ACPI "@ + spec_trim(ps[1]) + " (fallback)"@,
                            temperature: c,
                            critical: None,
                        },
                    ),
                    None => None,
                }
            },
            None => None,
        }
    }
}

/// The readings of every well-formed CSV line.
pub open spec fn spec_wmic_temps(lines: Seq<Seq<char>>) -> Seq<TempModel>
    decreases lines.len(),
{
    if lines.len() == 0 {
        Seq::empty()
    } else {
        let rest = spec_wmic_temps(lines.drop_last());
        match spec_wmic_temp_line(lines.last()) {
            Some(m) => rest.push(m),
            None => rest,
        }
    }
}

/// Parses the low-level instrumentation query's CSV thermal-zone output.
pub fn parse_wmic_temps(text: &str) -> (r: Vec<TempStat>)
    ensures
        temp_models(r@) == spec_wmic_temps(split_on(text@, '\n')),
{
    let cv = chars_vec(text);
    let lines = split_on_char(&cv, '\n');
    let ghost lseq = split_on(text@, '\n');
    let mut out: Vec<TempStat> = Vec::new();
    let mut i: usize = 0;
    proof {
        assert(lseq.take(0) =~= Seq::<Seq<char>>::empty());
        assert(temp_models(out@) =~= spec_wmic_temps(lseq.take(0)));
    }
    while i < lines.len()
        invariant
            lines@.len() == lseq.len(),
            forall|k: int| 0 <= k < lseq.len() ==> #[trigger] lines@[k]@ == lseq[k],
            i <= lseq.len(),
            temp_models(out@) == spec_wmic_temps(lseq.take(i as int)),
        decreases lines.len() - i,
    {
        proof {
            assert(lseq.take(i as int + 1).drop_last() =~= lseq.take(i as int));
        }
        let parts = split_on_char(&lines[i], ',');
        if parts.len() >= 3 {
            let trimmed = trim_chars(&parts[2]);
            match crate::numeric::parse_decimal_bounded(&trimmed) {
                Some(raw) => {
                    if raw > 0 {
                        match normalize_windows_thermal_zone_temp(raw) {
                            Some(c) => {
                                let mut sensor = String::from_str("ACPI ");
                                let instance = trimmed_string(&parts[1]);
                                sensor.append(instance.as_str());
                                sensor.append(" (fallback)");
                                out.push(
                                    TempStat {
                                        sensor,
                                        temperature_centi: c,
                                        critical_temperature_centi: None,
                                    },
                                );
                                proof {
                                    assert(temp_models(out@) =~~= spec_wmic_temps(
                                        lseq.take(i as int + 1),
                                    ));
                                }
                            },
                            None => {},
                        }
                    }
                },
                None => {},
            }
        }
        i = i + 1;
    }
    proof {
        assert(lseq.take(lseq.len() as int) =~= lseq);
    }
    out
}

/// The reading parsed from one `name|value` record: the line must hold a
/// separator, a non-empty trimmed name, and a plain positive decimal
/// value that the thermal-zone rule accepts.
pub open spec fn spec_cim_temp_line(l: Seq<char>) -> Option<TempModel> {
    let cut = crate::text::find_char(l, '|');
    if cut >= l.len() {
        None
    } else {
        let sensor = spec_trim(l.take(cut));
        let value_text = spec_trim(l.skip(cut + 1));
        if sensor.len() == 0 {
            None
        } else {
            match spec_parse_decimal_bounded(value_text) {
                Some(raw) => if raw <= 0 {
                    None
                } else {
                    match spec_thermal_zone_celsius(raw) {
                        Some(c) => Some(
                            TempModel {
                                sensor: "ACPI "@ + sensor + " (fallback)"@,
                                temperature: c,
                                critical: None,
                            },
                        ),
                        None => None,
                    }
                },
                None => None,
            }
        }
    }
}

/// The readings of every well-formed record.
pub open spec fn spec_cim_temps(lines: Seq<Seq<char>>) -> Seq<TempModel>
    decreases lines.len(),
{
    if lines.len() == 0 {
        Seq::empty()
    } else {
        let rest = spec_cim_temps(lines.drop_last());
        match spec_cim_temp_line(lines.last()) {
            Some(m) => rest.push(m),
            None => rest,
        }
    }
}

/// Parses the higher-level instrumentation bridge's `name|value`
/// thermal-zone records.
pub fn parse_cim_temps(text: &str) -> (r: Vec<TempStat>)
    ensures
        temp_models(r@) == spec_cim_temps(split_on(text@, '\n')),
{
    let cv = chars_vec(text);
    let lines = split_on_char(&cv, '\n');
    let ghost lseq = split_on(text@, '\n');
    let mut out: Vec<TempStat> = Vec::new();
    let mut i: usize = 0;
    proof {
        assert(lseq.take(0) =~= Seq::<Seq<char>>::empty());
        assert(temp_models(out@) =~= spec_cim_temps(lseq.take(0)));
    }
    while i < lines.len()
        invariant
            lines@.len() == lseq.len(),
            forall|k: int| 0 <= k < lseq.len() ==> #[trigger] lines@[k]@ == lseq[k],
            i <= lseq.len(),
            temp_models(out@) == spec_cim_temps(lseq.take(i as int)),
        decreases lines.len() - i,
    {
        proof {
            assert(lseq.take(i as int + 1).drop_last() =~= lseq.take(i as int));
        }
        let line = &lines[i];
        let cut: usize = crate::text::find_char_exec(line, '|');
        if cut < line.len() {
            let head = sub_vec(line, 0, cut);
            let tail = sub_vec(line, cut + 1, line.len());
            proof {
                assert(head@ =~= lseq[i as int].take(crate::text::find_char(lseq[i as int], '|')));
                assert(tail@ =~= lseq[i as int].skip(
                    crate::text::find_char(lseq[i as int], '|') + 1,
                ));
            }
            let sensor_t = trim_chars(&head);
            let value_t = trim_chars(&tail);
            if sensor_t.len() > 0 {
                match crate::numeric::parse_decimal_bounded(&value_t) {
                    Some(raw) => {
                        if raw > 0 {
                            match normalize_windows_thermal_zone_temp(raw) {
                                Some(c) => {
                                    let mut sensor = String::from_str("ACPI ");
                                    sensor.append(string_from_chars(&sensor_t).as_str());
                                    sensor.append(" (fallback)");
                                    out.push(
                                        TempStat {
                                            sensor,
                                            temperature_centi: c,
                                            critical_temperature_centi: None,
                                        },
                                    );
                                    proof {
                                        assert(temp_models(out@) =~~= spec_cim_temps(
                                            lseq.take(i as int + 1),
                                        ));
                                    }
                                },
                                None => {},
                            }
                        }
                    },
                    None => {},
                }
            }
        }
        i = i + 1;
    }
    proof {
        assert(lseq.take(lseq.len() as int) =~= lseq);
    }
    out
}

/// The record parsed from one `index|name|utilization|used|total` line of
/// the GPU performance-counter output; at least five columns.
pub open spec fn spec_win_gpu_line(l: Seq<char>) -> Option<GpuModel> {
    let ps = split_on(l, '|');
    if ps.len() < 5 {
        None
    } else {
        Some(
            GpuModel {
                id: spec_trim(ps[0]),
                name: spec_trim(ps[1]),
                util: spec_loose_centi(ps[2]),
                mem_used: match spec_loose_centi(ps[3]) {
                    Some(v) => Some(
                        if v < 0 {
                            0
                        } else {
                            v / 100
                        },
                    ),
                    None => None,
                },
                mem_total: match spec_loose_centi(ps[4]) {
                    Some(v) => Some(
                        if v < 0 {
                            0
                        } else {
                            v / 100
                        },
                    ),
                    None => None,
                },
                temp: None,
            },
        )
    }
}

/// The records of every well-formed line.
pub open spec fn spec_win_gpus(lines: Seq<Seq<char>>) -> Seq<GpuModel>
    decreases lines.len(),
{
    if lines.len() == 0 {
        Seq::empty()
    } else {
        let rest = spec_win_gpus(lines.drop_last());
        match spec_win_gpu_line(lines.last()) {
            Some(m) => rest.push(m),
            None => rest,
        }
    }
}

/// Parses the GPU performance-counter bridge's output.
pub fn parse_windows_gpus(text: &str) -> (r: Vec<GpuStat>)
    ensures
        gpu_models(r@) == spec_win_gpus(split_on(text@, '\n')),
{
    let cv = chars_vec(text);
    let lines = split_on_char(&cv, '\n');
    let ghost lseq = split_on(text@, '\n');
    let mut out: Vec<GpuStat> = Vec::new();
    let mut i: usize = 0;
    proof {
        assert(lseq.take(0) =~= Seq::<Seq<char>>::empty());
        assert(gpu_models(out@) =~= spec_win_gpus(lseq.take(0)));
    }
    while i < lines.len()
        invariant
            lines@.len() == lseq.len(),
            forall|k: int| 0 <= k < lseq.len() ==> #[trigger] lines@[k]@ == lseq[k],
            i <= lseq.len(),
            gpu_models(out@) == spec_win_gpus(lseq.take(i as int)),
        decreases lines.len() - i,
    {
        proof {
            assert(lseq.take(i as int + 1).drop_last() =~= lseq.take(i as int));
        }
        let parts = split_on_char(&lines[i], '|');
        if parts.len() >= 5 {
            let mem_used: Option<u64> = match parse_value_loose_chars(&parts[3]) {
                Some(v) => Some(
                    if v < 0 {
                        0
                    } else {
                        (v / 100) as u64
                    },
                ),
                None => None,
            };
            let mem_total: Option<u64> = match parse_value_loose_chars(&parts[4]) {
                Some(v) => Some(
                    if v < 0 {
                        0
                    } else {
                        (v / 100) as u64
                    },
                ),
                None => None,
            };
            out.push(
                GpuStat {
                    id: trimmed_string(&parts[0]),
                    name: trimmed_string(&parts[1]),
                    utilization_centi_pct: parse_value_loose_chars(&parts[2]),
                    memory_used_bytes: mem_used,
                    memory_total_bytes: mem_total,
                    temperature_centi: None,
                },
            );
            proof {
                assert(gpu_models(out@) =~~= spec_win_gpus(lseq.take(i as int + 1)));
            }
        }
        i = i + 1;
    }
    proof {
        assert(lseq.take(lseq.len() as int) =~= lseq);
    }
    out
}

/// The separators of the performance-counter text.
pub open spec fn is_tp_delim(c: char) -> bool {
    c == ',' || c == '"' || c == ';' || c == ' '
}

/// The text split on any performance-counter separator.
pub open spec fn split_tp(s: Seq<char>) -> Seq<Seq<char>>
    decreases s.len(),
{
    if s.len() == 0 {
        seq![Seq::<char>::empty()]
    } else {
        let rest = split_tp(s.drop_last());
        if is_tp_delim(s.last()) {
            rest.push(Seq::<char>::empty())
        } else {
            rest.update(rest.len() - 1, rest.last().push(s.last()))
        }
    }
}

/// Splitting always yields at least one piece.
pub proof fn lemma_split_tp_nonempty(s: Seq<char>)
    ensures
        split_tp(s).len() >= 1,
    decreases s.len(),
{
    if s.len() > 0 {
        lemma_split_tp_nonempty(s.drop_last());
    }
}

/// Splits on the performance-counter separators.
fn split_tp_chars(v: &Vec<char>) -> (out: Vec<Vec<char>>)
    ensures
        out@.len() == split_tp(v@).len(),
        forall|k: int| 0 <= k < out@.len() ==> out@[k]@ == split_tp(v@)[k],
{
    let mut done: Vec<Vec<char>> = Vec::new();
    let mut cur: Vec<char> = Vec::new();
    proof {
        assert(v@.take(0) =~= Seq::<char>::empty());
    }
    let mut i: usize = 0;
    while i < v.len()
        invariant
            i <= v@.len(),
            done@.len() + 1 == split_tp(v@.take(i as int)).len(),
            forall|k: int|
                0 <= k < done@.len() ==> done@[k]@ == #[trigger] split_tp(v@.take(i as int))[k],
            cur@ == split_tp(v@.take(i as int)).last(),
        decreases v.len() - i,
    {
        proof {
            assert(v@.take(i as int + 1).drop_last() =~= v@.take(i as int));
            lemma_split_tp_nonempty(v@.take(i as int));
        }
        let c = v[i];
        if c == ',' || c == '"' || c == ';' || c == ' ' {
            done.push(cur);
            cur = Vec::new();
        } else {
            cur.push(c);
        }
        i = i + 1;
    }
    proof {
        assert(v@.take(v@.len() as int) =~= v@);
        lemma_split_tp_nonempty(v@);
    }
    done.push(cur);
    done
}

/// `s` starts with the prefix `p`.
pub open spec fn spec_starts_with(s: Seq<char>, p: Seq<char>) -> bool {
    s.len() >= p.len() && s.take(p.len() as int) =~= p
}

/// The candidate value of one token: non-empty, free of timestamp
/// punctuation, and loosely parsing above one hundred units.
pub open spec fn tp_token_candidate(tok: Seq<char>) -> Option<int> {
    if tok.len() > 0 && !tok.contains(':') && !tok.contains('/') && !tok.contains('\\') {
        match spec_loose_centi(tok) {
            Some(v) => if v > 10000 {
                Some(v)
            } else {
                None
            },
            None => None,
        }
    } else {
        None
    }
}

/// The candidates of a token list, in order.
pub open spec fn tp_tokens_candidates(toks: Seq<Seq<char>>) -> Seq<int>
    decreases toks.len(),
{
    if toks.len() == 0 {
        Seq::empty()
    } else {
        let rest = tp_tokens_candidates(toks.drop_last());
        match tp_token_candidate(toks.last()) {
            Some(v) => rest.push(v),
            None => rest,
        }
    }
}

/// The candidates of one line: none for a blank line or the tool's
/// chatter, else the candidates of its tokens.
pub open spec fn tp_line_candidates(l: Seq<char>) -> Seq<int> {
    let t = spec_trim(l);
    if t.len() == 0 || spec_starts_with(t, "Exiting"@) || spec_starts_with(t, "The command"@) {
        Seq::empty()
    } else {
        tp_tokens_candidates(split_tp(t))
    }
}

/// The candidates of the whole output, in order.
pub open spec fn tp_all_candidates(lines: Seq<Seq<char>>) -> Seq<int>
    decreases lines.len(),
{
    if lines.len() == 0 {
        Seq::empty()
    } else {
        tp_all_candidates(lines.drop_last()) + tp_line_candidates(lines.last())
    }
}

/// The largest of a non-empty run of values.
pub open spec fn seq_max_int(s: Seq<int>) -> int
    decreases s.len(),
{
    if s.len() <= 1 {
        s[0]
    } else {
        let m = seq_max_int(s.drop_last());
        if s.last() > m {
            s.last()
        } else {
            m
        }
    }
}

/// The one reading inferred from the free-form performance-counter text:
/// the largest plausible candidate value, put through the thermal-zone
/// rule; none when no candidate survives.
pub open spec fn spec_typeperf_temps(text: Seq<char>) -> Seq<TempModel> {
    let cands = tp_all_candidates(split_on(text, '\n'));
    if cands.len() == 0 {
        Seq::empty()
    } else {
        match spec_thermal_zone_celsius(seq_max_int(cands)) {
            Some(v) => seq![
                TempModel {
                    sensor: "ACPI CPU thermal zone (fallback)"@,
                    temperature: v,
                    critical: None,
                },
            ],
            None => Seq::empty(),
        }
    }
}

/// Parses the performance-counter probe's free-form text, inferring the
/// one relevant counter from its tokens.
pub fn parse_typeperf_temps(text: &str) -> (r: Vec<TempStat>)
    ensures
        temp_models(r@) == spec_typeperf_temps(text@),
{
    let cv = chars_vec(text);
    let lines = split_on_char(&cv, '\n');
    let ghost lseq = split_on(text@, '\n');
    let mut best: Option<i64> = None;
    let ghost mut cands = Seq::<int>::empty();
    let mut i: usize = 0;
    proof {
        assert(lseq.take(0) =~= Seq::<Seq<char>>::empty());
    }
    while i < lines.len()
        invariant
            lines@.len() == lseq.len(),
            forall|k: int| 0 <= k < lseq.len() ==> #[trigger] lines@[k]@ == lseq[k],
            i <= lseq.len(),
            cands == tp_all_candidates(lseq.take(i as int)),
            best is None <==> cands.len() == 0,
            best matches Some(m) ==> cands.len() > 0 && m as int == seq_max_int(cands),
        decreases lines.len() - i,
    {
        proof {
            assert(lseq.take(i as int + 1).drop_last() =~= lseq.take(i as int));
        }
        let t = trim_chars(&lines[i]);
        let skip_line: bool = t.len() == 0 || crate::text::starts_with_lit(&t, "Exiting")
            || crate::text::starts_with_lit(&t, "The command");
        if skip_line {
            proof {
                assert(tp_line_candidates(lseq[i as int]) =~= Seq::<int>::empty());
                assert(cands =~= tp_all_candidates(lseq.take(i as int + 1)));
            }
        } else {
            let toks = split_tp_chars(&t);
            let ghost tseq = split_tp(t@);
            let ghost line_start = cands;
            let mut j: usize = 0;
            proof {
                assert(tseq.take(0) =~= Seq::<Seq<char>>::empty());
                assert(cands =~= line_start + tp_tokens_candidates(tseq.take(0)));
            }
            while j < toks.len()
                invariant
                    toks@.len() == tseq.len(),
                    forall|k: int| 0 <= k < tseq.len() ==> #[trigger] toks@[k]@ == tseq[k],
                    j <= tseq.len(),
                    cands == line_start + tp_tokens_candidates(tseq.take(j as int)),
                    best is None <==> cands.len() == 0,
                    best matches Some(m) ==> cands.len() > 0 && m as int == seq_max_int(cands),
                decreases toks.len() - j,
            {
                proof {
                    assert(tseq.take(j as int + 1).drop_last() =~= tseq.take(j as int));
                }
                let tok = &toks[j];
                if tok.len() > 0 && !crate::text::contains_char(tok, ':')
                    && !crate::text::contains_char(tok, '/') && !crate::text::contains_char(
                    tok,
                    '\\',
                ) {
                    match parse_value_loose_chars(tok) {
                        Some(v) => {
                            if v > 10000 {
                                let ghost old_cands = cands;
                                proof {
                                    cands = cands.push(v as int);
                                    assert(cands =~= line_start + tp_tokens_candidates(
                                        tseq.take(j as int + 1),
                                    ));
                                    if old_cands.len() > 0 {
                                        assert(cands.drop_last() =~= old_cands);
                                    } else {
                                        assert(cands.len() == 1);
                                    }
                                }
                                best = match best {
                                    None => Some(v),
                                    Some(m) => if v > m {
                                        Some(v)
                                    } else {
                                        Some(m)
                                    },
                                };
                            }
                        },
                        None => {},
                    }
                }
                j = j + 1;
            }
            proof {
                assert(tseq.take(tseq.len() as int) =~= tseq);
                assert(cands =~= tp_all_candidates(lseq.take(i as int + 1)));
            }
        }
        i = i + 1;
    }
    proof {
        assert(lseq.take(lseq.len() as int) =~= lseq);
    }
    let mut out: Vec<TempStat> = Vec::new();
    match best {
        Some(m) => {
            match normalize_windows_thermal_zone_temp(m) {
                Some(v) => {
                    out.push(
                        TempStat {
                            sensor: String::from_str("ACPI CPU thermal zone (fallback)"),
                            temperature_centi: v,
                            critical_temperature_centi: None,
                        },
                    );
                },
                None => {},
            }
        },
        None => {},
    }
    proof {
        assert(temp_models(out@) =~~= spec_typeperf_temps(text@));
    }
    out
}

/// The seven fields of one hardware-monitor record, trimmed; type and
/// identifier are ASCII-lowered.
#[verifier::ext_equal]
pub struct LhmFields {
    pub stype: Seq<char>,
    pub name: Seq<char>,
    pub value: Option<int>,
    pub vmin: Option<int>,
    pub vmax: Option<int>,
    pub ident: Seq<char>,
    pub parent: Seq<char>,
}

/// The fields of one `type|name|value|min|max|identifier|parent` line;
/// a line with fewer than seven fields is skipped.
pub open spec fn spec_lhm_fields(l: Seq<char>) -> Option<LhmFields> {
    let ps = split_on(l, '|');
    if ps.len() < 7 {
        None
    } else {
        Some(
            LhmFields {
                stype: crate::text::spec_lower_seq(spec_trim(ps[0])),
                name: spec_trim(ps[1]),
                value: spec_loose_centi(ps[2]),
                vmin: spec_loose_centi(ps[3]),
                vmax: spec_loose_centi(ps[4]),
                ident: crate::text::spec_lower_seq(spec_trim(ps[5])),
                parent: spec_trim(ps[6]),
            },
        )
    }
}

/// The sensor record of one line, where the line parses and carries a
/// value.
pub open spec fn spec_lhm_sensor_line(l: Seq<char>) -> Option<crate::sensors::SensorModel> {
    match spec_lhm_fields(l) {
        Some(f) => match f.value {
            Some(v) => Some(
                crate::sensors::SensorModel {
                    sensor_type: f.stype,
                    name: f.name,
                    identifier: f.ident,
                    parent: f.parent,
                    value: v,
                    min: f.vmin,
                    max: f.vmax,
                },
            ),
            None => None,
        },
        None => None,
    }
}

/// The sensor records of every well-formed line.
pub open spec fn spec_lhm_sensors(lines: Seq<Seq<char>>) -> Seq<crate::sensors::SensorModel>
    decreases lines.len(),
{
    if lines.len() == 0 {
        Seq::empty()
    } else {
        let rest = spec_lhm_sensors(lines.drop_last());
        match spec_lhm_sensor_line(lines.last()) {
            Some(m) => rest.push(m),
            None => rest,
        }
    }
}

/// Whether a hardware-monitor record, given its lowered identifier,
/// lowered parent and lowered name, positively reads as a CPU
/// temperature: no GPU vendor marker anywhere, at least one CPU marker,
/// and at least one temperature marker.
pub open spec fn spec_is_lhm_cpu(ident: Seq<char>, parent: Seq<char>, name: Seq<char>) -> bool {
    let combined = ident + seq!['|'] + parent + seq!['|'] + name;
    let has_gpu = crate::text::contains_seq(combined, "gpu"@) || crate::text::contains_seq(
        combined,
        "nvidia"@,
    ) || crate::text::contains_seq(combined, "amdgpu"@) || crate::text::contains_seq(
        combined,
        "radeon"@,
    );
    let has_cpu = crate::text::contains_seq(combined, "/intelcpu/"@) || crate::text::contains_seq(
        combined,
        "/amdcpu/"@,
    ) || crate::text::contains_seq(combined, "/cpu/"@) || crate::text::contains_seq(
        combined,
        "cpu package"@,
    ) || crate::text::contains_seq(combined, "cpu core"@) || crate::text::contains_seq(
        combined,
        "package"@,
    ) || crate::text::contains_seq(combined, "tctl"@) || crate::text::contains_seq(
        combined,
        "tdie"@,
    ) || crate::text::contains_seq(combined, "core"@) || crate::text::contains_seq(
        combined,
        "ccd"@,
    ) || crate::text::contains_seq(combined, "ccx"@);
    let has_temp = crate::text::contains_seq(combined, "temperature"@) || crate::text::contains_seq(
        combined,
        "temp"@,
    ) || crate::text::contains_seq(combined, "tctl"@) || crate::text::contains_seq(
        combined,
        "tdie"@,
    ) || crate::text::contains_seq(combined, "package"@);
    !has_gpu && has_cpu && has_temp
}

/// Decides whether a record reads as a CPU temperature, from its lowered
/// identifier, parent and name.
pub fn is_lhm_cpu_temp_sensor(identifier: &str, parent: &str, name: &str) -> (r: bool)
    ensures
        r == spec_is_lhm_cpu(identifier@, parent@, name@),
{
    let mut combined: Vec<char> = chars_vec(identifier);
    let mut pv = chars_vec(parent);
    let mut nv = chars_vec(name);
    combined.push('|');
    combined.append(&mut pv);
    combined.push('|');
    combined.append(&mut nv);
    proof {
        assert(combined@ =~= identifier@ + seq!['|'] + parent@ + seq!['|'] + name@);
    }
    let has_gpu = crate::text::contains_lit(&combined, "gpu") || crate::text::contains_lit(
        &combined,
        "nvidia",
    ) || crate::text::contains_lit(&combined, "amdgpu") || crate::text::contains_lit(
        &combined,
        "radeon",
    );
    if has_gpu {
        return false;
    }
    let has_cpu = crate::text::contains_lit(&combined, "/intelcpu/") || crate::text::contains_lit(
        &combined,
        "/amdcpu/",
    ) || crate::text::contains_lit(&combined, "/cpu/") || crate::text::contains_lit(
        &combined,
        "cpu package",
    ) || crate::text::contains_lit(&combined, "cpu core") || crate::text::contains_lit(
        &combined,
        "package",
    ) || crate::text::contains_lit(&combined, "tctl") || crate::text::contains_lit(
        &combined,
        "tdie",
    ) || crate::text::contains_lit(&combined, "core") || crate::text::contains_lit(
        &combined,
        "ccd",
    ) || crate::text::contains_lit(&combined, "ccx");
    if !has_cpu {
        return false;
    }
    crate::text::contains_lit(&combined, "temperature") || crate::text::contains_lit(
        &combined,
        "temp",
    ) || crate::text::contains_lit(&combined, "tctl") || crate::text::contains_lit(
        &combined,
        "tdie",
    ) || crate::text::contains_lit(&combined, "package")
}

/// The CPU temperature reading of one line: a temperature-typed record
/// that positively reads as a CPU sensor, with a positive value; the
/// label is `CPU ` before the record's name.
pub open spec fn spec_lhm_cpu_temp_line(l: Seq<char>) -> Option<TempModel> {
    match spec_lhm_fields(l) {
        Some(f) => {
            if f.stype == "temperature"@ && spec_is_lhm_cpu(
                f.ident,
                crate::text::spec_lower_seq(f.parent),
                crate::text::spec_lower_seq(f.name),
            ) && (f.value matches Some(v) && v > 0) {
                Some(TempModel { sensor: "CPU "@ + f.name, temperature: f.value->Some_0, critical: None })
            } else {
                None
            }
        },
        None => None,
    }
}

/// The CPU temperature readings of every well-formed line.
pub open spec fn spec_lhm_cpu_temps(lines: Seq<Seq<char>>) -> Seq<TempModel>
    decreases lines.len(),
{
    if lines.len() == 0 {
        Seq::empty()
    } else {
        let rest = spec_lhm_cpu_temps(lines.drop_last());
        match spec_lhm_cpu_temp_line(lines.last()) {
            Some(m) => rest.push(m),
            None => rest,
        }
    }
}

/// One GPU being accumulated from bridge records: keyed by parent (or
/// identifier), collecting whichever measurements its records carry.
#[verifier::ext_equal]
pub struct LhmAcc {
    pub key: Seq<char>,
    pub util: Option<int>,
    pub mem_used: Option<int>,
    pub mem_total: Option<int>,
    pub temp: Option<int>,
}

/// Index of the accumulator with `key`, or -1.
pub open spec fn lhm_acc_find(accs: Seq<LhmAcc>, key: Seq<char>) -> int
    decreases accs.len(),
{
    if accs.len() == 0 {
        -1
    } else if accs[0].key == key {
        0
    } else {
        let r = lhm_acc_find(accs.drop_first(), key);
        if r == -1 {
            -1
        } else {
            1 + r
        }
    }
}

/// A found index is in bounds and matches.
pub proof fn lemma_lhm_acc_find_bounds(accs: Seq<LhmAcc>, key: Seq<char>)
    ensures
        lhm_acc_find(accs, key) == -1 || (0 <= lhm_acc_find(accs, key) < accs.len() && accs[
            lhm_acc_find(accs, key)
        ].key == key),
    decreases accs.len(),
{
    if accs.len() > 0 && accs[0].key != key {
        lemma_lhm_acc_find_bounds(accs.drop_first(), key);
        let r = lhm_acc_find(accs.drop_first(), key);
        if r != -1 {
            assert(accs.drop_first()[r] == accs[r + 1]);
        }
    }
}

/// Megabyte readings clamped non-negative and scaled to bytes.
pub open spec fn spec_lhm_mem_bytes(v: int) -> int {
    spec_mb_bytes(
        if v < 0 {
            0
        } else {
            v / 100
        },
    )
}

/// One line folded into the GPU accumulators: a record whose identifier
/// mentions `/gpu-` joins (or creates) the accumulator keyed by its
/// parent — or its identifier when the parent is blank — and contributes
/// its measurement according to its type.
pub open spec fn spec_lhm_gpu_step(accs: Seq<LhmAcc>, l: Seq<char>) -> Seq<LhmAcc> {
    match spec_lhm_fields(l) {
        None => accs,
        Some(f) => {
            if !crate::text::contains_seq(f.ident, "/gpu-"@) {
                accs
            } else {
                let key = if f.parent.len() == 0 {
                    f.ident
                } else {
                    f.parent
                };
                let accs1 = if lhm_acc_find(accs, key) >= 0 {
                    accs
                } else {
                    accs.push(
                        LhmAcc { key, util: None, mem_used: None, mem_total: None, temp: None },
                    )
                };
                let idx = lhm_acc_find(accs1, key);
                let a = accs1[idx];
                let a2 = if f.stype == "temperature"@ {
                    match f.value {
                        Some(v) => if v > 0 {
                            LhmAcc { temp: Some(v), ..a }
                        } else {
                            a
                        },
                        None => a,
                    }
                } else if f.stype == "load"@ {
                    if crate::text::contains_ci(f.name, "core"@) || crate::text::contains_ci(
                        f.name,
                        "d3d"@,
                    ) || crate::text::contains_ci(f.name, "gpu"@) {
                        match f.value {
                            Some(v) => LhmAcc { util: Some(v), ..a },
                            None => a,
                        }
                    } else {
                        a
                    }
                } else if f.stype == "smalldata"@ || f.stype == "data"@ {
                    match f.value {
                        Some(v) => if crate::text::contains_ci(f.name, "memory used"@) {
                            LhmAcc { mem_used: Some(spec_lhm_mem_bytes(v)), ..a }
                        } else if crate::text::contains_ci(f.name, "memory total"@) {
                            LhmAcc { mem_total: Some(spec_lhm_mem_bytes(v)), ..a }
                        } else {
                            a
                        },
                        None => a,
                    }
                } else {
                    a
                };
                accs1.update(idx, a2)
            }
        },
    }
}

/// The GPU accumulators of the whole output, in first-appearance order.
pub open spec fn spec_lhm_accs(lines: Seq<Seq<char>>) -> Seq<LhmAcc>
    decreases lines.len(),
{
    if lines.len() == 0 {
        Seq::empty()
    } else {
        spec_lhm_gpu_step(spec_lhm_accs(lines.drop_last()), lines.last())
    }
}

/// The GPU records of the accumulators: ids are decimal positions, the
/// key is the name.
pub open spec fn spec_lhm_gpus(lines: Seq<Seq<char>>) -> Seq<GpuModel> {
    let accs = spec_lhm_accs(lines);
    Seq::new(
        accs.len(),
        |i: int|
            GpuModel {
                id: spec_dec_digits(i),
                name: if accs[i].key.len() == 0 {
                    "gpu-"@ + spec_dec_digits(i)
                } else {
                    accs[i].key
                },
                util: accs[i].util,
                mem_used: accs[i].mem_used,
                mem_total: accs[i].mem_total,
                temp: accs[i].temp,
            },
    )
}

/// One GPU accumulator's measurements.
#[derive(Clone, Copy)]
struct GpuAcc {
    util: Option<i64>,
    mem_used: Option<u64>,
    mem_total: Option<u64>,
    temp: Option<i64>,
}

/// The accumulator models of the executable store.
spec fn lhm_acc_models_of(s: Seq<(String, GpuAcc)>) -> Seq<LhmAcc> {
    Seq::new(
        s.len(),
        |i: int|
            LhmAcc {
                key: s[i].0@,
                util: match s[i].1.util {
                    Some(v) => Some(v as int),
                    None => None,
                },
                mem_used: match s[i].1.mem_used {
                    Some(v) => Some(v as int),
                    None => None,
                },
                mem_total: match s[i].1.mem_total {
                    Some(v) => Some(v as int),
                    None => None,
                },
                temp: match s[i].1.temp {
                    Some(v) => Some(v as int),
                    None => None,
                },
            },
    )
}

/// Finds the accumulator with `key`.
fn lhm_find(accs: &Vec<(String, GpuAcc)>, key: &String) -> (r: Option<usize>)
    ensures
        ({
            let ti = lhm_acc_find(lhm_acc_models_of(accs@), key@);
            match r {
                Some(i) => ti == i as int && i < accs@.len(),
                None => ti == -1,
            }
        }),
{
    let ghost t0 = lhm_acc_models_of(accs@);
    proof {
        assert(t0.skip(0) =~= t0);
    }
    let mut i: usize = 0;
    while i < accs.len()
        invariant
            i <= accs@.len(),
            t0 == lhm_acc_models_of(accs@),
            ({
                let rest = lhm_acc_find(t0.skip(i as int), key@);
                let whole = lhm_acc_find(t0, key@);
                if rest == -1 {
                    whole == -1
                } else {
                    whole == i + rest
                }
            }),
        decreases accs.len() - i,
    {
        proof {
            assert(t0.skip(i as int)[0] == t0[i as int]);
        }
        if accs[i].0 == *key {
            proof {
                assert(lhm_acc_find(t0.skip(i as int), key@) == 0);
            }
            return Some(i);
        }
        proof {
            assert(t0.skip(i as int).drop_first() =~= t0.skip(i as int + 1));
            lemma_lhm_acc_find_bounds(t0.skip(i as int + 1), key@);
        }
        i = i + 1;
    }
    proof {
        assert(t0.skip(accs@.len() as int) =~= Seq::<LhmAcc>::empty());
    }
    None
}

/// The parsed fields of one line.
struct LhmExecFields {
    stype: String,
    name_t: Vec<char>,
    name_s: String,
    value: Option<i64>,
    vmin: Option<i64>,
    vmax: Option<i64>,
    ident_t: Vec<char>,
    ident_s: String,
    parent_t: Vec<char>,
    parent_s: String,
}

/// Extracts one line's fields.
fn lhm_fields_exec(line: &Vec<char>) -> (r: Option<LhmExecFields>)
    ensures
        match r {
            Some(f) => spec_lhm_fields(line@) matches Some(m) && f.stype@ == m.stype && f.name_t@
                == m.name && f.name_s@ == m.name && (match f.value {
                Some(v) => m.value == Some(v as int),
                None => m.value is None,
            }) && (match f.vmin {
                Some(v) => m.vmin == Some(v as int),
                None => m.vmin is None,
            }) && (match f.vmax {
                Some(v) => m.vmax == Some(v as int),
                None => m.vmax is None,
            }) && f.ident_t@ == m.ident && f.ident_s@ == m.ident && f.parent_t@ == m.parent
                && f.parent_s@ == m.parent,
            None => spec_lhm_fields(line@) is None,
        },
{
    let parts = split_on_char(line, '|');
    if parts.len() < 7 {
        return None;
    }
    let stype_t = crate::text::lower_chars(&trim_chars(&parts[0]));
    let name_t = trim_chars(&parts[1]);
    let ident_t = crate::text::lower_chars(&trim_chars(&parts[5]));
    let parent_t = trim_chars(&parts[6]);
    proof {
        let m = spec_lhm_fields(line@)->Some_0;
        assert(stype_t@ =~= m.stype);
        assert(ident_t@ =~= m.ident);
    }
    Some(
        LhmExecFields {
            stype: string_from_chars(&stype_t),
            name_s: string_from_chars(&name_t),
            name_t,
            value: parse_value_loose_chars(&parts[2]),
            vmin: parse_value_loose_chars(&parts[3]),
            vmax: parse_value_loose_chars(&parts[4]),
            ident_s: string_from_chars(&ident_t),
            ident_t,
            parent_s: string_from_chars(&parent_t),
            parent_t,
        },
    )
}

/// Parses the bridge's flat sensor records.
pub fn parse_lhm_sensors(text: &str) -> (r: Vec<crate::stats::SensorStat>)
    ensures
        crate::sensors::sensor_models(r@) == spec_lhm_sensors(split_on(text@, '\n')),
{
    let cv = chars_vec(text);
    let lines = split_on_char(&cv, '\n');
    let ghost lseq = split_on(text@, '\n');
    let mut out: Vec<crate::stats::SensorStat> = Vec::new();
    let mut i: usize = 0;
    proof {
        assert(lseq.take(0) =~= Seq::<Seq<char>>::empty());
        assert(crate::sensors::sensor_models(out@) =~= spec_lhm_sensors(lseq.take(0)));
    }
    while i < lines.len()
        invariant
            lines@.len() == lseq.len(),
            forall|k: int| 0 <= k < lseq.len() ==> #[trigger] lines@[k]@ == lseq[k],
            i <= lseq.len(),
            crate::sensors::sensor_models(out@) == spec_lhm_sensors(lseq.take(i as int)),
        decreases lines.len() - i,
    {
        proof {
            assert(lseq.take(i as int + 1).drop_last() =~= lseq.take(i as int));
        }
        match lhm_fields_exec(&lines[i]) {
            Some(f) => {
                match f.value {
                    Some(v) => {
                        out.push(
                            crate::stats::SensorStat {
                                sensor_type: f.stype,
                                name: f.name_s,
                                identifier: f.ident_s,
                                parent: f.parent_s,
                                value_centi: v,
                                min_centi: f.vmin,
                                max_centi: f.vmax,
                            },
                        );
                        proof {
                            assert(crate::sensors::sensor_models(out@) =~~= spec_lhm_sensors(
                                lseq.take(i as int + 1),
                            ));
                        }
                    },
                    None => {},
                }
            },
            None => {},
        }
        i = i + 1;
    }
    proof {
        assert(lseq.take(lseq.len() as int) =~= lseq);
    }
    out
}

/// Parses the bridge's records into CPU temperature readings.
pub fn parse_lhm_cpu_temps(text: &str) -> (r: Vec<TempStat>)
    ensures
        temp_models(r@) == spec_lhm_cpu_temps(split_on(text@, '\n')),
{
    let cv = chars_vec(text);
    let lines = split_on_char(&cv, '\n');
    let ghost lseq = split_on(text@, '\n');
    let mut out: Vec<TempStat> = Vec::new();
    let mut i: usize = 0;
    proof {
        assert(lseq.take(0) =~= Seq::<Seq<char>>::empty());
        assert(temp_models(out@) =~= spec_lhm_cpu_temps(lseq.take(0)));
    }
    while i < lines.len()
        invariant
            lines@.len() == lseq.len(),
            forall|k: int| 0 <= k < lseq.len() ==> #[trigger] lines@[k]@ == lseq[k],
            i <= lseq.len(),
            temp_models(out@) == spec_lhm_cpu_temps(lseq.take(i as int)),
        decreases lines.len() - i,
    {
        proof {
            assert(lseq.take(i as int + 1).drop_last() =~= lseq.take(i as int));
        }
        match lhm_fields_exec(&lines[i]) {
            Some(f) => {
                if crate::text::str_eq(f.stype.as_str(), "temperature") {
                    let parent_lc = string_from_chars(&crate::text::lower_chars(&f.parent_t));
                    let name_lc = string_from_chars(&crate::text::lower_chars(&f.name_t));
                    proof {
                        let m = spec_lhm_fields(lseq[i as int])->Some_0;
                        assert(parent_lc@ =~= crate::text::spec_lower_seq(m.parent));
                        assert(name_lc@ =~= crate::text::spec_lower_seq(m.name));
                    }
                    if is_lhm_cpu_temp_sensor(
                        f.ident_s.as_str(),
                        parent_lc.as_str(),
                        name_lc.as_str(),
                    ) {
                        match f.value {
                            Some(v) => {
                                if v > 0 {
                                    let mut sensor = String::from_str("CPU ");
                                    sensor.append(f.name_s.as_str());
                                    out.push(
                                        TempStat {
                                            sensor,
                                            temperature_centi: v,
                                            critical_temperature_centi: None,
                                        },
                                    );
                                    proof {
                                        assert(temp_models(out@) =~~= spec_lhm_cpu_temps(
                                            lseq.take(i as int + 1),
                                        ));
                                    }
                                }
                            },
                            None => {},
                        }
                    }
                }
            },
            None => {},
        }
        i = i + 1;
    }
    proof {
        assert(lseq.take(lseq.len() as int) =~= lseq);
    }
    out
}

/// Parses the bridge's records into accumulated GPU records.
pub fn parse_lhm_gpus(text: &str) -> (r: Vec<GpuStat>)
    ensures
        gpu_models(r@) == spec_lhm_gpus(split_on(text@, '\n')),
{
    let cv = chars_vec(text);
    let lines = split_on_char(&cv, '\n');
    let ghost lseq = split_on(text@, '\n');
    let mut accs: Vec<(String, GpuAcc)> = Vec::new();
    let mut i: usize = 0;
    proof {
        assert(lseq.take(0) =~= Seq::<Seq<char>>::empty());
        assert(lhm_acc_models_of(accs@) =~= spec_lhm_accs(lseq.take(0)));
    }
    while i < lines.len()
        invariant
            lines@.len() == lseq.len(),
            forall|k: int| 0 <= k < lseq.len() ==> #[trigger] lines@[k]@ == lseq[k],
            i <= lseq.len(),
            lhm_acc_models_of(accs@) == spec_lhm_accs(lseq.take(i as int)),
        decreases lines.len() - i,
    {
        proof {
            assert(lseq.take(i as int + 1).drop_last() =~= lseq.take(i as int));
        }
        match lhm_fields_exec(&lines[i]) {
            Some(f) => {
                if crate::text::contains_lit(&f.ident_t, "/gpu-") {
                    let key: String = if f.parent_t.len() == 0 {
                        f.ident_s.clone()
                    } else {
                        f.parent_s.clone()
                    };
                    let ghost before = lhm_acc_models_of(accs@);
                    let idx: usize = match lhm_find(&accs, &key) {
                        Some(x) => x,
                        None => {
                            accs.push(
                                (
                                    key.clone(),
                                    GpuAcc {
                                        util: None,
                                        mem_used: None,
                                        mem_total: None,
                                        temp: None,
                                    },
                                ),
                            );
                            proof {
                                assert(lhm_acc_models_of(accs@) =~~= before.push(
                                    LhmAcc {
                                        key: key@,
                                        util: None,
                                        mem_used: None,
                                        mem_total: None,
                                        temp: None,
                                    },
                                ));
                                lemma_lhm_acc_find_bounds(before, key@);
                                assert(lhm_acc_models_of(accs@)[accs@.len() - 1].key == key@);
                                assert(lhm_acc_find(
                                    lhm_acc_models_of(accs@),
                                    key@,
                                ) == accs@.len() - 1) by {
                                    lemma_lhm_find_push(before, key@);
                                }
                            }
                            accs.len() - 1
                        },
                    };
                    let ghost accs1 = lhm_acc_models_of(accs@);
                    proof {
                        assert(lhm_acc_find(accs1, key@) == idx as int);
                    }
                    let a: GpuAcc = accs[idx].1;
                    let mut a2: GpuAcc = a;
                    if crate::text::str_eq(f.stype.as_str(), "temperature") {
                        match f.value {
                            Some(v) => {
                                if v > 0 {
                                    a2 = GpuAcc { temp: Some(v), ..a };
                                }
                            },
                            None => {},
                        }
                    } else if crate::text::str_eq(f.stype.as_str(), "load") {
                        if crate::text::contains_ci_lit(&f.name_t, "core")
                            || crate::text::contains_ci_lit(&f.name_t, "d3d")
                            || crate::text::contains_ci_lit(&f.name_t, "gpu") {
                            match f.value {
                                Some(v) => {
                                    a2 = GpuAcc { util: Some(v), ..a };
                                },
                                None => {},
                            }
                        }
                    } else if crate::text::str_eq(f.stype.as_str(), "smalldata")
                        || crate::text::str_eq(f.stype.as_str(), "data") {
                        match f.value {
                            Some(v) => {
                                if crate::text::contains_ci_lit(&f.name_t, "memory used") {
                                    a2 = GpuAcc { mem_used: Some(lhm_mem_bytes(v)), ..a };
                                } else if crate::text::contains_ci_lit(&f.name_t, "memory total") {
                                    a2 = GpuAcc { mem_total: Some(lhm_mem_bytes(v)), ..a };
                                }
                            },
                            None => {},
                        }
                    }
                    let key_keep: String = accs[idx].0.clone();
                    accs.set(idx, (key_keep, a2));
                    proof {
                        assert(lhm_acc_models_of(accs@) =~~= spec_lhm_gpu_step(
                            before,
                            lseq[i as int],
                        ));
                    }
                }
            },
            None => {},
        }
        i = i + 1;
    }
    proof {
        assert(lseq.take(lseq.len() as int) =~= lseq);
    }
    let ghost accs_final = lhm_acc_models_of(accs@);
    let mut out: Vec<GpuStat> = Vec::new();
    let mut k: usize = 0;
    while k < accs.len()
        invariant
            accs_final == lhm_acc_models_of(accs@),
            accs_final == spec_lhm_accs(split_on(text@, '\n')),
            k <= accs@.len(),
            gpu_models(out@).len() == k,
            forall|j: int|
                0 <= j < k ==> #[trigger] gpu_models(out@)[j] == spec_lhm_gpus(
                    split_on(text@, '\n'),
                )[j],
        decreases accs.len() - k,
    {
        let digits: String = u64_dec_string(k as u64);
        let name: String = if accs[k].0.as_str().is_empty() {
            let mut n = String::from_str("gpu-");
            n.append(digits.as_str());
            n
        } else {
            accs[k].0.clone()
        };
        let acc: GpuAcc = accs[k].1;
        let ghost before_out = out@;
        out.push(
            GpuStat {
                id: digits,
                name,
                utilization_centi_pct: acc.util,
                memory_used_bytes: acc.mem_used,
                memory_total_bytes: acc.mem_total,
                temperature_centi: acc.temp,
            },
        );
        proof {
            assert(forall|j: int| 0 <= j < before_out.len() ==> #[trigger] out@[j] == before_out[j]);
            assert(forall|j: int|
                0 <= j < before_out.len() ==> #[trigger] gpu_models(out@)[j] == gpu_models(
                    before_out,
                )[j]);
            assert(gpu_models(out@)[k as int] =~~= spec_lhm_gpus(split_on(text@, '\n'))[k as int]);
        }
        k = k + 1;
    }
    proof {
        assert(gpu_models(out@) =~~= spec_lhm_gpus(split_on(text@, '\n')));
    }
    out
}

/// A freshly appended key is found at the end.
proof fn lemma_lhm_find_push(accs: Seq<LhmAcc>, key: Seq<char>)
    requires
        lhm_acc_find(accs, key) == -1,
    ensures
        lhm_acc_find(
            accs.push(LhmAcc { key, util: None, mem_used: None, mem_total: None, temp: None }),
            key,
        ) == accs.len(),
    decreases accs.len(),
{
    let pushed = accs.push(LhmAcc { key, util: None, mem_used: None, mem_total: None, temp: None });
    if accs.len() == 0 {
        assert(pushed[0].key == key);
    } else {
        lemma_lhm_acc_find_bounds(accs.drop_first(), key);
        lemma_lhm_find_push(accs.drop_first(), key);
        assert(pushed.drop_first() =~= accs.drop_first().push(
            LhmAcc { key, util: None, mem_used: None, mem_total: None, temp: None },
        ));
    }
}

/// Megabyte readings clamped non-negative and scaled to bytes.
fn lhm_mem_bytes(v: i64) -> (r: u64)
    ensures
        r as int == spec_lhm_mem_bytes(v as int),
{
    let units: u64 = if v < 0 {
        0
    } else {
        (v / 100) as u64
    };
    match units.checked_mul(0x100000) {
        Some(b) => b,
        None => u64::MAX,
    }
}

/// Index of the record the fallback CPU inference picks: the hottest
/// temperature-typed record whose texts carry no GPU vendor marker and at
/// least one CPU marker; later records win ties. -1 when none qualifies.
pub open spec fn spec_lhm_fallback(sensors: Seq<crate::stats::SensorStat>) -> int
    decreases sensors.len(),
{
    if sensors.len() == 0 {
        -1
    } else {
        let r = spec_lhm_fallback(sensors.drop_last());
        if spec_lhm_fb_candidate(sensors.last()) {
            if r == -1 || sensors.last().value_centi >= sensors[r].value_centi {
                sensors.len() - 1
            } else {
                r
            }
        } else {
            r
        }
    }
}

/// Whether a record qualifies for the fallback CPU inference.
pub open spec fn spec_lhm_fb_candidate(s: crate::stats::SensorStat) -> bool {
    let txt = s.name@ + seq![' '] + s.parent@ + seq![' '] + s.identifier@;
    &&& s.sensor_type@ == "temperature"@
    &&& !crate::text::contains_ci(txt, "gpu"@)
    &&& !crate::text::contains_ci(txt, "nvidia"@)
    &&& !crate::text::contains_ci(txt, "amdgpu"@)
    &&& !crate::text::contains_ci(txt, "radeon"@)
    &&& (crate::text::contains_ci(txt, "cpu"@) || crate::text::contains_ci(txt, "package"@)
        || crate::text::contains_ci(txt, "core"@) || crate::text::contains_ci(txt, "tctl"@)
        || crate::text::contains_ci(txt, "tdie"@) || crate::text::contains_ci(txt, "amdcpu"@)
        || crate::text::contains_ci(txt, "intelcpu"@))
}

/// A found index is in bounds.
pub proof fn lemma_lhm_fallback_bounds(sensors: Seq<crate::stats::SensorStat>)
    ensures
        spec_lhm_fallback(sensors) == -1 || (0 <= spec_lhm_fallback(sensors) < sensors.len()
            && spec_lhm_fb_candidate(sensors[spec_lhm_fallback(sensors)])),
    decreases sensors.len(),
{
    if sensors.len() > 0 {
        lemma_lhm_fallback_bounds(sensors.drop_last());
    }
}

/// Whether a record qualifies for the fallback CPU inference.
fn lhm_fb_candidate(s: &crate::stats::SensorStat) -> (r: bool)
    ensures
        r == spec_lhm_fb_candidate(*s),
{
    if !crate::text::str_eq(s.sensor_type.as_str(), "temperature") {
        return false;
    }
    let mut txt: Vec<char> = chars_vec(s.name.as_str());
    let mut pv = chars_vec(s.parent.as_str());
    let mut iv = chars_vec(s.identifier.as_str());
    txt.push(' ');
    txt.append(&mut pv);
    txt.push(' ');
    txt.append(&mut iv);
    proof {
        assert(txt@ =~= s.name@ + seq![' '] + s.parent@ + seq![' '] + s.identifier@);
    }
    if crate::text::contains_ci_lit(&txt, "gpu") || crate::text::contains_ci_lit(&txt, "nvidia")
        || crate::text::contains_ci_lit(&txt, "amdgpu") || crate::text::contains_ci_lit(
        &txt,
        "radeon",
    ) {
        return false;
    }
    crate::text::contains_ci_lit(&txt, "cpu") || crate::text::contains_ci_lit(&txt, "package")
        || crate::text::contains_ci_lit(&txt, "core") || crate::text::contains_ci_lit(&txt, "tctl")
        || crate::text::contains_ci_lit(&txt, "tdie") || crate::text::contains_ci_lit(
        &txt,
        "amdcpu",
    ) || crate::text::contains_ci_lit(&txt, "intelcpu")
}

/// The fallback CPU reading: the hottest qualifying record, labelled
/// `CPU ` plus its name, its maximum as the critical threshold.
pub fn lhm_fallback_cpu_temp(sensors: &Vec<crate::stats::SensorStat>) -> (r: Option<TempStat>)
    ensures
        ({
            let fi = spec_lhm_fallback(sensors@);
            match r {
                Some(t) => fi >= 0 && temp_model(t) == (TempModel {
                    sensor: "CPU "@ + sensors@[fi].name@,
                    temperature: sensors@[fi].value_centi as int,
                    critical: match sensors@[fi].max_centi {
                        Some(v) => Some(v as int),
                        None => None,
                    },
                }),
                None => fi == -1,
            }
        }),
{
    let mut best: Option<usize> = None;
    let mut i: usize = 0;
    proof {
        assert(sensors@.take(0) =~= Seq::<crate::stats::SensorStat>::empty());
    }
    while i < sensors.len()
        invariant
            i <= sensors@.len(),
            ({
                let fi = spec_lhm_fallback(sensors@.take(i as int));
                match best {
                    Some(b) => fi == b as int && b < i,
                    None => fi == -1,
                }
            }),
        decreases sensors.len() - i,
    {
        proof {
            assert(sensors@.take(i as int + 1).drop_last() =~= sensors@.take(i as int));
            assert(sensors@.take(i as int + 1).last() == sensors@[i as int]);
            lemma_lhm_fallback_bounds(sensors@.take(i as int));
        }
        if lhm_fb_candidate(&sensors[i]) {
            best = match best {
                Some(b) => {
                    if sensors[i].value_centi >= sensors[b].value_centi {
                        Some(i)
                    } else {
                        Some(b)
                    }
                },
                None => Some(i),
            };
        }
        i = i + 1;
    }
    proof {
        assert(sensors@.take(sensors@.len() as int) =~= sensors@);
    }
    match best {
        Some(b) => {
            let mut sensor = String::from_str("CPU ");
            sensor.append(sensors[b].name.as_str());
            Some(
                TempStat {
                    sensor,
                    temperature_centi: sensors[b].value_centi,
                    critical_temperature_centi: sensors[b].max_centi,
                },
            )
        },
        None => None,
    }
}

/// Parses the whole hardware-monitor bridge output: the flat sensor
/// records, the CPU temperature readings (falling back to the hottest
/// qualifying record when no positive match exists), and the accumulated
/// GPU records.
pub fn parse_lhm_snapshot(text: &str) -> (r: (Vec<TempStat>, Vec<GpuStat>, Vec<
    crate::stats::SensorStat,
>))
    ensures
        crate::sensors::sensor_models(r.2@) == spec_lhm_sensors(split_on(text@, '\n')),
        gpu_models(r.1@) == spec_lhm_gpus(split_on(text@, '\n')),
        spec_lhm_cpu_temps(split_on(text@, '\n')).len() > 0 ==> temp_models(r.0@)
            == spec_lhm_cpu_temps(split_on(text@, '\n')),
        spec_lhm_cpu_temps(split_on(text@, '\n')).len() == 0 ==> ({
            let fi = spec_lhm_fallback(r.2@);
            if fi >= 0 {
                temp_models(r.0@) =~= seq![
                    TempModel {
                        sensor: "CPU "@ + r.2@[fi].name@,
                        temperature: r.2@[fi].value_centi as int,
                        critical: match r.2@[fi].max_centi {
                            Some(v) => Some(v as int),
                            None => None,
                        },
                    },
                ]
            } else {
                temp_models(r.0@).len() == 0
            }
        }),
{
    let sensors = parse_lhm_sensors(text);
    let mut temps = parse_lhm_cpu_temps(text);
    if temps.len() == 0 {
        match lhm_fallback_cpu_temp(&sensors) {
            Some(t) => {
                temps.push(t);
                proof {
                    assert(temp_models(temps@) =~~= seq![
                        TempModel {
                            sensor: "CPU "@ + sensors@[spec_lhm_fallback(sensors@)].name@,
                            temperature: sensors@[spec_lhm_fallback(
                                sensors@,
                            )].value_centi as int,
                            critical: match sensors@[spec_lhm_fallback(sensors@)].max_centi {
                                Some(v) => Some(v as int),
                                None => None,
                            },
                        },
                    ]);
                }
            },
            None => {},
        }
    }
    let gpus = parse_lhm_gpus(text);
    (temps, gpus, sensors)
}

/// The Windows temperature fallbacks in strict priority order: the first
/// source with a non-empty result wins.
pub fn pick_fallback_temps(
    wmic: Vec<TempStat>,
    cim: Vec<TempStat>,
    typeperf: Vec<TempStat>,
) -> (r: Vec<TempStat>)
    ensures
        wmic@.len() > 0 ==> r@ == wmic@,
        wmic@.len() == 0 && cim@.len() > 0 ==> r@ == cim@,
        wmic@.len() == 0 && cim@.len() == 0 ==> r@ == typeperf@,
{
    if wmic.len() > 0 {
        wmic
    } else if cim.len() > 0 {
        cim
    } else {
        typeperf
    }
}

} // verus!
