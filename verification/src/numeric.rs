//! Loose numeric parsing of probe output, in centi-units.
//!
//! Tool output may use comma decimal separators or carry stray characters.
//! Parsing first tries the text as a plain decimal, then with commas turned
//! into dots, then with every non-numeric character stripped; only if all
//! three fail is there no value. Accepted decimals are `[+-]?` digits with an
//! optional fraction (at least one digit in all); exponents and the named
//! float values are not recognized, and magnitudes above
//! [`CENTI_LIMIT`] hundredths are rejected as implausible telemetry.

use crate::text::{chars_vec, spec_trim, split_on, split_on_char, trim_chars};
use vstd::prelude::*;
use vstd::string::StringExecFns;

verus! {

/// Largest accepted magnitude, in hundredths (40 trillion units).
pub const CENTI_LIMIT: i64 = 4_000_000_000_000_000;

/// ASCII decimal digit.
pub open spec fn is_digit(c: char) -> bool {
    48 <= c as u32 && c as u32 <= 57
}

/// Numeric value of a digit character.
pub open spec fn digit_val(c: char) -> int {
    c as u32 - 48
}

/// Every character is a digit.
pub open spec fn all_digits(s: Seq<char>) -> bool {
    forall|i: int| 0 <= i < s.len() ==> is_digit(#[trigger] s[i])
}

/// The base-10 value of a digit run (0 for the empty run).
pub open spec fn digits_val(s: Seq<char>) -> int
    decreases s.len(),
{
    if s.len() == 0 {
        0
    } else {
        digits_val(s.drop_last()) * 10 + digit_val(s.last())
    }
}

/// A digit run has a non-negative value.
pub proof fn lemma_digits_val_nonneg(s: Seq<char>)
    requires
        all_digits(s),
    ensures
        digits_val(s) >= 0,
    decreases s.len(),
{
    if s.len() > 0 {
        assert(all_digits(s.drop_last()));
        lemma_digits_val_nonneg(s.drop_last());
    }
}

/// A prefix of a digit run is worth no more than the whole run.
pub proof fn lemma_digits_val_prefix(s: Seq<char>, i: int)
    requires
        all_digits(s),
        0 <= i <= s.len(),
    ensures
        digits_val(s.take(i)) <= digits_val(s),
    decreases s.len(),
{
    if i < s.len() {
        assert(all_digits(s.drop_last()));
        assert(s.take(i) =~= s.drop_last().take(i));
        lemma_digits_val_prefix(s.drop_last(), i);
        lemma_digits_val_nonneg(s.drop_last());
    } else {
        assert(s.take(i) =~= s);
    }
}

/// The first two fraction digits, scaled to hundredths; further digits are
/// ignored.
pub open spec fn frac_centi(s: Seq<char>) -> int {
    if s.len() == 0 {
        0
    } else if s.len() == 1 {
        digit_val(s[0]) * 10
    } else {
        digit_val(s[0]) * 10 + digit_val(s[1])
    }
}

/// The plain-decimal value of `s` in hundredths: an optional sign, then
/// digits split by at most one dot, with at least one digit in all.
pub open spec fn spec_parse_decimal(s: Seq<char>) -> Option<int> {
    let neg = s.len() > 0 && s[0] == '-';
    let body = if s.len() > 0 && (s[0] == '-' || s[0] == '+') {
        s.drop_first()
    } else {
        s
    };
    let ps = split_on(body, '.');
    if ps.len() == 1 && ps[0].len() > 0 && all_digits(ps[0]) {
        let v = digits_val(ps[0]) * 100;
        Some(if neg { -v } else { v })
    } else if ps.len() == 2 && ps[0].len() + ps[1].len() > 0 && all_digits(ps[0]) && all_digits(
        ps[1],
    ) {
        let v = digits_val(ps[0]) * 100 + frac_centi(ps[1]);
        Some(if neg { -v } else { v })
    } else {
        None
    }
}

/// The plain-decimal value, rejected when its magnitude is implausibly
/// large.
pub open spec fn spec_parse_decimal_bounded(s: Seq<char>) -> Option<int> {
    match spec_parse_decimal(s) {
        Some(v) => if -CENTI_LIMIT <= v <= CENTI_LIMIT {
            Some(v)
        } else {
            None
        },
        None => None,
    }
}

/// Commas turned into dots.
pub open spec fn map_commas(s: Seq<char>) -> Seq<char> {
    Seq::new(s.len(), |i: int| if s[i] == ',' { '.' } else { s[i] })
}

/// Characters kept by the stripping stage of loose parsing.
pub open spec fn keep_numericish(c: char) -> bool {
    is_digit(c) || c == '.' || c == ',' || c == 'e' || c == 'E' || c == '-' || c == '+'
}

/// `s` with everything but the numeric-looking characters removed.
pub open spec fn strip_numericish(s: Seq<char>) -> Seq<char>
    decreases s.len(),
{
    if s.len() == 0 {
        s
    } else {
        let rest = strip_numericish(s.drop_last());
        if keep_numericish(s.last()) {
            rest.push(s.last())
        } else {
            rest
        }
    }
}

/// The loose value of `s` in hundredths: trim, then plain decimal, then
/// comma-as-dot, then stripped of non-numeric characters.
pub open spec fn spec_loose_centi(s: Seq<char>) -> Option<int> {
    let t = spec_trim(s);
    match spec_parse_decimal_bounded(t) {
        Some(v) => Some(v),
        None => match spec_parse_decimal_bounded(map_commas(t)) {
            Some(v) => Some(v),
            None => {
                let f = strip_numericish(t);
                if f.len() == 0 {
                    None
                } else {
                    spec_parse_decimal_bounded(map_commas(f))
                }
            },
        },
    }
}

/// Reads a run of digits; `None` when a non-digit occurs or the value is
/// beyond [`CENTI_LIMIT`].
fn parse_digits_bounded(piece: &Vec<char>) -> (r: Option<i64>)
    ensures
        r matches Some(d) ==> all_digits(piece@) && digits_val(piece@) == d as int && 0 <= d
            <= CENTI_LIMIT,
        r is None ==> !all_digits(piece@) || digits_val(piece@) > CENTI_LIMIT,
{
    let len: usize = piece.len();
    let mut acc: i64 = 0;
    let mut i: usize = 0;
    while i < len
        invariant
            len == piece@.len(),
            i <= len,
            all_digits(piece@.take(i as int)),
            acc as int == digits_val(piece@.take(i as int)),
            0 <= acc <= CENTI_LIMIT,
        decreases len - i,
    {
        let code: u32 = piece[i] as u32;
        if code < 48 || code > 57 {
            assert(!is_digit(piece@[i as int]));
            return None;
        }
        proof {
            assert(piece@.take(i as int + 1).drop_last() =~= piece@.take(i as int));
        }
        acc = acc * 10 + ((code - 48) as i64);
        i = i + 1;
        if acc > CENTI_LIMIT {
            proof {
                if all_digits(piece@) {
                    lemma_digits_val_prefix(piece@, i as int);
                }
            }
            return None;
        }
    }
    proof {
        assert(piece@.take(len as int) =~= piece@);
    }
    Some(acc)
}

/// Is every character a digit?
fn check_all_digits(piece: &Vec<char>) -> (r: bool)
    ensures
        r == all_digits(piece@),
{
    let mut i: usize = 0;
    while i < piece.len()
        invariant
            i <= piece@.len(),
            forall|k: int| 0 <= k < i ==> is_digit(#[trigger] piece@[k]),
        decreases piece.len() - i,
    {
        let code: u32 = piece[i] as u32;
        if code < 48 || code > 57 {
            assert(!is_digit(piece@[i as int]));
            return false;
        }
        i = i + 1;
    }
    true
}

/// The characters of `v` from `start` on.
fn tail_vec(v: &Vec<char>, start: usize) -> (out: Vec<char>)
    requires
        start <= v@.len(),
    ensures
        out@ == v@.skip(start as int),
{
    let mut out: Vec<char> = Vec::new();
    let mut i: usize = start;
    while i < v.len()
        invariant
            start <= i <= v@.len(),
            out@ =~= v@.subrange(start as int, i as int),
        decreases v.len() - i,
    {
        out.push(v[i]);
        proof {
            assert(out@ =~= v@.subrange(start as int, i as int + 1));
        }
        i = i + 1;
    }
    proof {
        assert(out@ =~= v@.skip(start as int));
    }
    out
}

/// Parses `v` as a plain bounded decimal, in hundredths.
pub(crate) fn parse_decimal_bounded(v: &Vec<char>) -> (r: Option<i64>)
    ensures
        r matches Some(x) ==> spec_parse_decimal_bounded(v@) == Some(x as int),
        r is None ==> spec_parse_decimal_bounded(v@) is None,
{
    let negative: bool = v.len() > 0 && v[0] == '-';
    let signed: bool = v.len() > 0 && (v[0] == '-' || v[0] == '+');
    let body: Vec<char> = if signed {
        tail_vec(v, 1)
    } else {
        tail_vec(v, 0)
    };
    proof {
        if signed {
            assert(v@.skip(1) =~= v@.drop_first());
        } else {
            assert(v@.skip(0) =~= v@);
        }
    }
    let ps: Vec<Vec<char>> = split_on_char(&body, '.');
    if ps.len() == 1 {
        let intpart: &Vec<char> = &ps[0];
        if intpart.len() == 0 {
            return None;
        }
        match parse_digits_bounded(intpart) {
            Some(d) => {
                let scaled: i64 = d * 100;
                proof {
                    lemma_digits_val_nonneg(intpart@);
                }
                if scaled > CENTI_LIMIT {
                    return None;
                }
                if negative {
                    Some(-scaled)
                } else {
                    Some(scaled)
                }
            },
            None => {
                proof {
                    if all_digits(intpart@) {
                        lemma_digits_val_nonneg(intpart@);
                    }
                }
                None
            },
        }
    } else if ps.len() == 2 {
        let intpart: &Vec<char> = &ps[0];
        let fracpart: &Vec<char> = &ps[1];
        if intpart.len() == 0 && fracpart.len() == 0 {
            return None;
        }
        if !check_all_digits(fracpart) {
            return None;
        }
        match parse_digits_bounded(intpart) {
            Some(d) => {
                proof {
                    if fracpart@.len() >= 1 {
                        assert(is_digit(fracpart@[0]));
                    }
                    if fracpart@.len() >= 2 {
                        assert(is_digit(fracpart@[1]));
                    }
                }
                let f0: i64 = if fracpart.len() >= 1 {
                    ((fracpart[0] as u32 - 48) as i64) * 10
                } else {
                    0
                };
                let f1: i64 = if fracpart.len() >= 2 {
                    (fracpart[1] as u32 - 48) as i64
                } else {
                    0
                };
                proof {
                    lemma_digits_val_nonneg(intpart@);
                }
                let total: i64 = d * 100 + f0 + f1;
                if total > CENTI_LIMIT {
                    return None;
                }
                if negative {
                    Some(-total)
                } else {
                    Some(total)
                }
            },
            None => {
                proof {
                    if all_digits(intpart@) {
                        lemma_digits_val_nonneg(intpart@);
                        if fracpart@.len() >= 1 {
                            assert(is_digit(fracpart@[0]));
                        }
                        if fracpart@.len() >= 2 {
                            assert(is_digit(fracpart@[1]));
                        }
                        assert(frac_centi(fracpart@) >= 0);
                        assert(digits_val(intpart@) * 100 + frac_centi(fracpart@) > CENTI_LIMIT);
                    }
                }
                None
            },
        }
    } else {
        None
    }
}

/// Commas turned into dots.
fn replace_commas(v: &Vec<char>) -> (out: Vec<char>)
    ensures
        out@ == map_commas(v@),
{
    let mut out: Vec<char> = Vec::new();
    let mut i: usize = 0;
    while i < v.len()
        invariant
            i <= v@.len(),
            out@.len() == i,
            forall|k: int|
                0 <= k < i ==> out@[k] == (if v@[k] == ',' {
                    '.'
                } else {
                    v@[k]
                }),
        decreases v.len() - i,
    {
        if v[i] == ',' {
            out.push('.');
        } else {
            out.push(v[i]);
        }
        i = i + 1;
    }
    proof {
        assert(out@ =~= map_commas(v@));
    }
    out
}

/// Keeps only the numeric-looking characters.
fn filter_numericish(v: &Vec<char>) -> (out: Vec<char>)
    ensures
        out@ == strip_numericish(v@),
{
    let mut out: Vec<char> = Vec::new();
    let mut i: usize = 0;
    proof {
        assert(v@.take(0) =~= Seq::<char>::empty());
    }
    while i < v.len()
        invariant
            i <= v@.len(),
            out@ == strip_numericish(v@.take(i as int)),
        decreases v.len() - i,
    {
        proof {
            assert(v@.take(i as int + 1).drop_last() =~= v@.take(i as int));
        }
        let c: char = v[i];
        let code: u32 = c as u32;
        if (48 <= code && code <= 57) || c == '.' || c == ',' || c == 'e' || c == 'E' || c == '-'
            || c == '+' {
            assert(keep_numericish(v@[i as int]));
            out.push(c);
        } else {
            assert(!keep_numericish(v@[i as int]));
        }
        i = i + 1;
    }
    proof {
        assert(v@.take(v@.len() as int) =~= v@);
    }
    out
}

/// The loose numeric value of `s`, in hundredths of a unit.
pub fn parse_value_loose(s: &str) -> (r: Option<i64>)
    ensures
        r matches Some(x) ==> spec_loose_centi(s@) == Some(x as int),
        r is None ==> spec_loose_centi(s@) is None,
{
    let cv: Vec<char> = chars_vec(s);
    parse_value_loose_chars(&cv)
}

/// The loose numeric value of an already-collected character run.
pub fn parse_value_loose_chars(v: &Vec<char>) -> (r: Option<i64>)
    ensures
        r matches Some(x) ==> spec_loose_centi(v@) == Some(x as int),
        r is None ==> spec_loose_centi(v@) is None,
{
    let t: Vec<char> = trim_chars(v);
    match parse_decimal_bounded(&t) {
        Some(x) => Some(x),
        None => {
            let t2: Vec<char> = replace_commas(&t);
            match parse_decimal_bounded(&t2) {
                Some(x) => Some(x),
                None => {
                    let f: Vec<char> = filter_numericish(&t);
                    if f.len() == 0 {
                        None
                    } else {
                        let f2: Vec<char> = replace_commas(&f);
                        parse_decimal_bounded(&f2)
                    }
                },
            }
        },
    }
}

/// The decimal digit character for `d`.
pub open spec fn spec_digit_char(d: int) -> char {
    if d == 0 {
        '0'
    } else if d == 1 {
        '1'
    } else if d == 2 {
        '2'
    } else if d == 3 {
        '3'
    } else if d == 4 {
        '4'
    } else if d == 5 {
        '5'
    } else if d == 6 {
        '6'
    } else if d == 7 {
        '7'
    } else if d == 8 {
        '8'
    } else {
        '9'
    }
}

/// The decimal digits of a non-negative number, most significant first.
pub open spec fn spec_dec_digits(n: int) -> Seq<char>
    decreases n,
{
    if n < 10 {
        seq![spec_digit_char(n)]
    } else {
        spec_dec_digits(n / 10).push(spec_digit_char(n % 10))
    }
}

/// One decimal digit as text.
fn digit_str(d: u64) -> (r: &'static str)
    requires
        d < 10,
    ensures
        r@ == seq![spec_digit_char(d as int)],
{
    proof {
        reveal_strlit("0");
        reveal_strlit("1");
        reveal_strlit("2");
        reveal_strlit("3");
        reveal_strlit("4");
        reveal_strlit("5");
        reveal_strlit("6");
        reveal_strlit("7");
        reveal_strlit("8");
        reveal_strlit("9");
    }
    let r: &'static str = if d == 0 {
        "0"
    } else if d == 1 {
        "1"
    } else if d == 2 {
        "2"
    } else if d == 3 {
        "3"
    } else if d == 4 {
        "4"
    } else if d == 5 {
        "5"
    } else if d == 6 {
        "6"
    } else if d == 7 {
        "7"
    } else {
        "8"
    };
    if d == 9 {
        proof {
            assert("9"@ =~= seq![spec_digit_char(9)]);
        }
        return "9";
    }
    proof {
        assert(r@ =~= seq![spec_digit_char(d as int)]);
    }
    r
}

/// A number as decimal text.
pub fn u64_dec_string(n: u64) -> (r: String)
    ensures
        r@ == spec_dec_digits(n as int),
    decreases n,
{
    if n < 10 {
        String::from_str(digit_str(n))
    } else {
        let mut s = u64_dec_string(n / 10);
        s.append(digit_str(n % 10));
        proof {
            assert(s@ =~= spec_dec_digits(n as int));
        }
        s
    }
}

/// A non-negative centi-value rendered with one decimal place, rounding
/// the lost hundredth half-up: 8437 renders as "84.4".
pub open spec fn spec_centi_1dp_nonneg(v: int) -> Seq<char> {
    let tenths = (v + 5) / 10;
    spec_dec_digits(tenths / 10) + seq!['.'] + seq![spec_digit_char(tenths % 10)]
}

/// A centi-value rendered with one decimal place.
pub open spec fn spec_centi_1dp(v: int) -> Seq<char> {
    if v < 0 {
        seq!['-'] + spec_centi_1dp_nonneg(-v)
    } else {
        spec_centi_1dp_nonneg(v)
    }
}

/// Renders a centi-value with one decimal place.
pub fn format_centi_1dp(v: i64) -> (r: String)
    ensures
        r@ == spec_centi_1dp(v as int),
{
    let magnitude: u64 = if v < 0 {
        (-(v as i128)) as u64
    } else {
        v as u64
    };
    let tenths: u64 = (magnitude + 5) / 10;
    let mut s: String = if v < 0 {
        proof {
            reveal_strlit("-");
            assert("-"@ =~= seq!['-']);
        }
        String::from_str("-")
    } else {
        String::new()
    };
    s.append(u64_dec_string(tenths / 10).as_str());
    proof {
        reveal_strlit(".");
        assert("."@ =~= seq!['.']);
    }
    s.append(".");
    s.append(digit_str(tenths % 10));
    proof {
        assert(s@ =~= spec_centi_1dp(v as int));
    }
    s
}

/// The loose value clamped to whole non-negative units, as the byte and
/// megabyte counters need it: negative readings count as zero, fractions
/// are dropped.
pub fn parse_u64_loose(s: &str) -> (r: Option<u64>)
    ensures
        r matches Some(x) ==> spec_loose_centi(s@) matches Some(v) && x as int == (if v < 0 {
            0
        } else {
            v / 100
        }),
        r is None ==> spec_loose_centi(s@) is None,
{
    match parse_value_loose(s) {
        Some(v) => if v < 0 {
            Some(0)
        } else {
            Some((v / 100) as u64)
        },
        None => None,
    }
}

} // verus!
