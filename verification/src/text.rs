//! Character-level text utilities: ASCII case folding, case-insensitive
//! containment, trimming and splitting.
//!
//! Probe output arrives as free-form text; all decisions on it (marker
//! matching, field splitting) are made here over `Vec<char>` so that every
//! step has an exact specification over `Seq<char>`.

use vstd::prelude::*;

verus! {

/// True for the ASCII capital letters 'A'..='Z'.
pub open spec fn is_ascii_upper(c: char) -> bool {
    65 <= c as u32 && c as u32 <= 90
}

/// ASCII lowering of one character; anything but 'A'..='Z' is unchanged.
pub open spec fn spec_lower_char(c: char) -> char {
    if is_ascii_upper(c) {
        (c as u32 + 32) as char
    } else {
        c
    }
}

/// Case-insensitive character equality, ASCII letters only.
pub open spec fn char_eq_ci(a: char, b: char) -> bool {
    spec_lower_char(a) == spec_lower_char(b)
}

/// The needle `n` matches the haystack `h` at offset `i`, ignoring ASCII case.
pub open spec fn matches_ci_at(h: Seq<char>, n: Seq<char>, i: int) -> bool {
    forall|j: int| 0 <= j < n.len() ==> char_eq_ci(h[i + j], #[trigger] n[j])
}

/// `h` contains `n` as a contiguous run, ignoring ASCII case.
pub open spec fn contains_ci(h: Seq<char>, n: Seq<char>) -> bool {
    exists|i: int| 0 <= i <= h.len() - n.len() && matches_ci_at(h, n, i)
}

/// `a` and `b` are equal up to ASCII case.
pub open spec fn eq_ci(a: Seq<char>, b: Seq<char>) -> bool {
    a.len() == b.len() && (forall|j: int| 0 <= j < a.len() ==> char_eq_ci(a[j], #[trigger] b[j]))
}

/// The run ASCII-lowered character by character.
pub open spec fn spec_lower_seq(s: Seq<char>) -> Seq<char> {
    Seq::new(s.len(), |i: int| spec_lower_char(s[i]))
}

/// The needle `n` matches the haystack `h` at offset `i`, exactly.
pub open spec fn matches_at(h: Seq<char>, n: Seq<char>, i: int) -> bool {
    forall|j: int| 0 <= j < n.len() ==> h[i + j] == #[trigger] n[j]
}

/// `h` contains `n` as a contiguous run, exactly.
pub open spec fn contains_seq(h: Seq<char>, n: Seq<char>) -> bool {
    exists|i: int| 0 <= i <= h.len() - n.len() && matches_at(h, n, i)
}

/// Does `h` contain `n` exactly?
pub fn contains_chars(h: &Vec<char>, n: &Vec<char>) -> (r: bool)
    ensures
        r == contains_seq(h@, n@),
{
    let hlen: usize = h.len();
    let nlen: usize = n.len();
    if nlen > hlen {
        return false;
    }
    if nlen == 0 {
        assert(matches_at(h@, n@, 0));
        return true;
    }
    let last_start: usize = hlen - nlen;
    let mut i: usize = 0;
    while i <= last_start
        invariant
            hlen == h@.len(),
            nlen == n@.len(),
            1 <= nlen <= hlen,
            last_start == hlen - nlen,
            i <= last_start + 1,
            forall|i2: int| 0 <= i2 < i ==> !matches_at(h@, n@, i2),
        decreases last_start - i + 1,
    {
        let mut j: usize = 0;
        let mut hit: bool = true;
        while j < nlen
            invariant
                hlen == h@.len(),
                nlen == n@.len(),
                1 <= nlen <= hlen,
                i <= hlen - nlen,
                j <= nlen,
                hit ==> forall|k: int| 0 <= k < j ==> h@[i + k] == #[trigger] n@[k],
                !hit ==> !matches_at(h@, n@, i as int),
            decreases nlen - j,
        {
            if h[i + j] != n[j] {
                assert(h@[i as int + j as int] != n@[j as int]);
                hit = false;
                j = nlen;
            } else {
                j = j + 1;
            }
        }
        if hit {
            assert(matches_at(h@, n@, i as int));
            return true;
        }
        i = i + 1;
    }
    false
}

/// Does `h` contain the literal `n` exactly?
pub fn contains_lit(h: &Vec<char>, n: &str) -> (r: bool)
    ensures
        r == contains_seq(h@, n@),
{
    let nv = chars_vec(n);
    contains_chars(h, &nv)
}

/// ASCII whitespace, as trimmed from probe output fields.
pub open spec fn is_space(c: char) -> bool {
    c == ' ' || c == '\t' || c == '\r' || c == '\n'
}

/// `s` without leading whitespace.
pub open spec fn drop_leading_space(s: Seq<char>) -> Seq<char>
    decreases s.len(),
{
    if s.len() > 0 && is_space(s[0]) {
        drop_leading_space(s.drop_first())
    } else {
        s
    }
}

/// `s` without trailing whitespace.
pub open spec fn drop_trailing_space(s: Seq<char>) -> Seq<char>
    decreases s.len(),
{
    if s.len() > 0 && is_space(s.last()) {
        drop_trailing_space(s.drop_last())
    } else {
        s
    }
}

/// `s` without leading and trailing whitespace.
pub open spec fn spec_trim(s: Seq<char>) -> Seq<char> {
    drop_trailing_space(drop_leading_space(s))
}

/// `s` split on the separator `d`: the pieces contain no `d`, and joining
/// them with `d` restores `s`. Splitting the empty text gives one empty
/// piece.
pub open spec fn split_on(s: Seq<char>, d: char) -> Seq<Seq<char>>
    decreases s.len(),
{
    if s.len() == 0 {
        seq![Seq::<char>::empty()]
    } else {
        let rest = split_on(s.drop_last(), d);
        if s.last() == d {
            rest.push(Seq::<char>::empty())
        } else {
            rest.update(rest.len() - 1, rest.last().push(s.last()))
        }
    }
}

/// Splitting always yields at least one piece.
pub proof fn lemma_split_on_nonempty(s: Seq<char>, d: char)
    ensures
        split_on(s, d).len() >= 1,
    decreases s.len(),
{
    if s.len() > 0 {
        lemma_split_on_nonempty(s.drop_last(), d);
    }
}

/// Collects the characters of `s` into a vector.
pub fn chars_vec(s: &str) -> (out: Vec<char>)
    ensures
        out@ == s@,
{
    let mut out: Vec<char> = Vec::new();
    for c in it: s.chars()
        invariant
            out@ == it.seq().take(it.index() as int),
            it.seq() == s@,
    {
        out.push(c);
    }
    proof {
        assert(out@ =~= s@);
    }
    out
}

/// Rebuilds a `String` from characters. Relies on `Iterator::collect`
/// for `String`, which concatenates exactly the yielded characters.
#[verifier::external_body]
pub(crate) fn string_from_chars(v: &Vec<char>) -> (r: String)
    ensures
        r@ == v@,
{
    v.iter().collect()
}

/// ASCII-lowers one character.
pub fn lower_char(c: char) -> (r: char)
    ensures
        r == spec_lower_char(c),
{
    let code: u32 = c as u32;
    if 65 <= code && code <= 90 {
        ((code + 32) as u8) as char
    } else {
        c
    }
}

/// ASCII-lowers every character.
pub fn lower_chars(v: &Vec<char>) -> (out: Vec<char>)
    ensures
        out@.len() == v@.len(),
        forall|i: int| 0 <= i < v@.len() ==> out@[i] == spec_lower_char(#[trigger] v@[i]),
{
    let mut out: Vec<char> = Vec::new();
    let mut i: usize = 0;
    while i < v.len()
        invariant
            i <= v.len(),
            out@.len() == i,
            forall|j: int| 0 <= j < i ==> out@[j] == spec_lower_char(#[trigger] v@[j]),
        decreases v.len() - i,
    {
        out.push(lower_char(v[i]));
        i = i + 1;
    }
    out
}

/// Case-insensitive equality of two character runs.
pub fn eq_ignore_ascii_case_chars(a: &Vec<char>, b: &Vec<char>) -> (r: bool)
    ensures
        r == eq_ci(a@, b@),
{
    if a.len() != b.len() {
        return false;
    }
    let mut j: usize = 0;
    while j < a.len()
        invariant
            j <= a.len(),
            a@.len() == b@.len(),
            forall|k: int| 0 <= k < j ==> char_eq_ci(a@[k], #[trigger] b@[k]),
        decreases a.len() - j,
    {
        if lower_char(a[j]) != lower_char(b[j]) {
            return false;
        }
        j = j + 1;
    }
    true
}

/// Does `h` contain `n`, ignoring ASCII case?
pub fn contains_ci_chars(h: &Vec<char>, n: &Vec<char>) -> (r: bool)
    ensures
        r == contains_ci(h@, n@),
{
    let hlen: usize = h.len();
    let nlen: usize = n.len();
    if nlen > hlen {
        return false;
    }
    if nlen == 0 {
        assert(matches_ci_at(h@, n@, 0));
        return true;
    }
    let last_start: usize = hlen - nlen;
    let mut i: usize = 0;
    while i <= last_start
        invariant
            hlen == h@.len(),
            nlen == n@.len(),
            1 <= nlen <= hlen,
            last_start == hlen - nlen,
            i <= last_start + 1,
            forall|i2: int| 0 <= i2 < i ==> !matches_ci_at(h@, n@, i2),
        decreases last_start - i + 1,
    {
        let mut j: usize = 0;
        let mut hit: bool = true;
        while j < nlen
            invariant
                hlen == h@.len(),
                nlen == n@.len(),
                1 <= nlen <= hlen,
                i <= hlen - nlen,
                j <= nlen,
                hit ==> forall|k: int| 0 <= k < j ==> char_eq_ci(h@[i + k], #[trigger] n@[k]),
                !hit ==> !matches_ci_at(h@, n@, i as int),
            decreases nlen - j,
        {
            if lower_char(h[i + j]) != lower_char(n[j]) {
                assert(!char_eq_ci(h@[i as int + j as int], n@[j as int]));
                hit = false;
                j = nlen;
            } else {
                j = j + 1;
            }
        }
        if hit {
            assert(matches_ci_at(h@, n@, i as int));
            return true;
        }
        i = i + 1;
    }
    false
}

/// Does `h` contain the literal `n` (case-insensitively)?
pub fn contains_ci_lit(h: &Vec<char>, n: &str) -> (r: bool)
    ensures
        r == contains_ci(h@, n@),
{
    let nv = chars_vec(n);
    contains_ci_chars(h, &nv)
}

/// Trims ASCII whitespace from both ends.
pub fn trim_chars(v: &Vec<char>) -> (out: Vec<char>)
    ensures
        out@ == spec_trim(v@),
{
    proof {
        assert(v@.skip(0) =~= v@);
    }
    let mut lo: usize = 0;
    while lo < v.len() && is_space_exec(v[lo])
        invariant
            lo <= v.len(),
            drop_leading_space(v@) == drop_leading_space(v@.skip(lo as int)),
            forall|k: int| 0 <= k < lo ==> is_space(#[trigger] v@[k]),
        decreases v.len() - lo,
    {
        proof {
            assert(v@.skip(lo as int).drop_first() =~= v@.skip(lo as int + 1));
        }
        lo = lo + 1;
    }
    proof {
        if lo < v.len() {
            assert(drop_leading_space(v@.skip(lo as int)) == v@.skip(lo as int));
        } else {
            assert(v@.skip(lo as int) =~= Seq::<char>::empty());
            assert(drop_leading_space(v@.skip(lo as int)) == v@.skip(lo as int));
        }
    }
    proof {
        assert(v@.subrange(lo as int, v@.len() as int) =~= v@.skip(lo as int));
    }
    let mut hi: usize = v.len();
    while hi > lo && is_space_exec(v[hi - 1])
        invariant
            lo <= hi <= v.len(),
            drop_leading_space(v@) == v@.skip(lo as int),
            drop_trailing_space(v@.skip(lo as int)) == drop_trailing_space(
                v@.subrange(lo as int, hi as int),
            ),
        decreases hi,
    {
        proof {
            assert(v@.subrange(lo as int, hi as int).drop_last() =~= v@.subrange(
                lo as int,
                hi as int - 1,
            ));
        }
        hi = hi - 1;
    }
    proof {
        if hi > lo {
            assert(drop_trailing_space(v@.subrange(lo as int, hi as int)) == v@.subrange(
                lo as int,
                hi as int,
            ));
        } else {
            assert(v@.subrange(lo as int, hi as int) =~= Seq::<char>::empty());
        }
    }
    let mut out: Vec<char> = Vec::new();
    let mut k: usize = lo;
    while k < hi
        invariant
            lo <= k <= hi <= v.len(),
            out@ =~= v@.subrange(lo as int, k as int),
        decreases hi - k,
    {
        out.push(v[k]);
        proof {
            assert(out@ =~= v@.subrange(lo as int, k as int + 1));
        }
        k = k + 1;
    }
    proof {
        assert(out@ =~= v@.subrange(lo as int, hi as int));
    }
    out
}

/// ASCII whitespace test.
pub fn is_space_exec(c: char) -> (r: bool)
    ensures
        r == is_space(c),
{
    c == ' ' || c == '\t' || c == '\r' || c == '\n'
}

/// Splits `v` on the separator `d`. The pieces are `split_on(v@, d)`,
/// stated element by element.
pub fn split_on_char(v: &Vec<char>, d: char) -> (out: Vec<Vec<char>>)
    ensures
        out@.len() == split_on(v@, d).len(),
        forall|k: int| 0 <= k < out@.len() ==> out@[k]@ == split_on(v@, d)[k],
{
    let mut done: Vec<Vec<char>> = Vec::new();
    let mut cur: Vec<char> = Vec::new();
    proof {
        assert(v@.take(0) =~= Seq::<char>::empty());
    }
    let mut i: usize = 0;
    while i < v.len()
        invariant
            i <= v.len(),
            done@.len() + 1 == split_on(v@.take(i as int), d).len(),
            forall|k: int|
                0 <= k < done@.len() ==> done@[k]@ == #[trigger] split_on(v@.take(i as int), d)[k],
            cur@ == split_on(v@.take(i as int), d).last(),
        decreases v.len() - i,
    {
        proof {
            assert(v@.take(i as int + 1).drop_last() =~= v@.take(i as int));
            lemma_split_on_nonempty(v@.take(i as int), d);
        }
        if v[i] == d {
            done.push(cur);
            cur = Vec::new();
        } else {
            cur.push(v[i]);
        }
        i = i + 1;
    }
    proof {
        assert(v@.take(v@.len() as int) =~= v@);
        lemma_split_on_nonempty(v@, d);
    }
    done.push(cur);
    done
}

/// Does `h` start with `p` (exact characters)?
pub fn starts_with_lit(h: &Vec<char>, p: &str) -> (r: bool)
    ensures
        r == (h@.len() >= p@.len() && h@.take(p@.len() as int) =~= p@),
{
    let pv = chars_vec(p);
    if h.len() < pv.len() {
        return false;
    }
    let mut j: usize = 0;
    while j < pv.len()
        invariant
            pv@ == p@,
            pv@.len() <= h@.len(),
            j <= pv@.len(),
            forall|k: int| 0 <= k < j ==> h@[k] == pv@[k],
        decreases pv.len() - j,
    {
        if h[j] != pv[j] {
            assert(!(h@.take(p@.len() as int) =~= p@));
            return false;
        }
        j = j + 1;
    }
    proof {
        assert(h@.take(p@.len() as int) =~= p@);
    }
    true
}

/// Index of the first occurrence of `d` in `s`, or `s.len()`.
pub open spec fn find_char(s: Seq<char>, d: char) -> int
    decreases s.len(),
{
    if s.len() == 0 {
        0
    } else if s[0] == d {
        0
    } else {
        1 + find_char(s.drop_first(), d)
    }
}

/// The first occurrence lies between 0 and the length, and marks `d`
/// when it is inside.
pub proof fn lemma_find_char_bounds(s: Seq<char>, d: char)
    ensures
        0 <= find_char(s, d) <= s.len(),
        find_char(s, d) < s.len() ==> s[find_char(s, d)] == d,
    decreases s.len(),
{
    if s.len() > 0 && s[0] != d {
        lemma_find_char_bounds(s.drop_first(), d);
        let r = find_char(s.drop_first(), d);
        if r < s.drop_first().len() {
            assert(s.drop_first()[r] == s[r + 1]);
        }
    }
}

/// Finds the first occurrence of `d`, or the length when there is none.
pub fn find_char_exec(v: &Vec<char>, d: char) -> (r: usize)
    ensures
        r as int == find_char(v@, d),
        r <= v@.len(),
{
    proof {
        assert(v@.skip(0) =~= v@);
        lemma_find_char_bounds(v@, d);
    }
    let mut i: usize = 0;
    while i < v.len()
        invariant
            i <= v@.len(),
            ({
                let rest = find_char(v@.skip(i as int), d);
                find_char(v@, d) == i + rest
            }),
        decreases v.len() - i,
    {
        proof {
            assert(v@.skip(i as int)[0] == v@[i as int]);
        }
        if v[i] == d {
            proof {
                assert(find_char(v@.skip(i as int), d) == 0);
            }
            return i;
        }
        proof {
            assert(v@.skip(i as int).drop_first() =~= v@.skip(i as int + 1));
        }
        i = i + 1;
    }
    proof {
        assert(v@.skip(v@.len() as int) =~= Seq::<char>::empty());
    }
    v.len()
}

/// Exact character equality of two pieces of text.
pub fn str_eq(a: &str, b: &str) -> (r: bool)
    ensures
        r == (a@ == b@),
{
    let av = chars_vec(a);
    let bv = chars_vec(b);
    if av.len() != bv.len() {
        return false;
    }
    let mut j: usize = 0;
    while j < av.len()
        invariant
            av@ == a@,
            bv@ == b@,
            av@.len() == bv@.len(),
            j <= av@.len(),
            forall|k: int| 0 <= k < j ==> av@[k] == #[trigger] bv@[k],
        decreases av.len() - j,
    {
        if av[j] != bv[j] {
            return false;
        }
        j = j + 1;
    }
    proof {
        assert(a@ =~= b@);
    }
    true
}

/// Is `s` empty up to whitespace?
pub fn is_blank(s: &str) -> (r: bool)
    ensures
        r == (spec_trim(s@).len() == 0),
{
    let cv = chars_vec(s);
    let t = trim_chars(&cv);
    t.len() == 0
}

/// Does `h` contain the character `d`?
pub fn contains_char(h: &Vec<char>, d: char) -> (r: bool)
    ensures
        r == h@.contains(d),
{
    let mut i: usize = 0;
    while i < h.len()
        invariant
            i <= h.len(),
            forall|k: int| 0 <= k < i ==> h@[k] != d,
        decreases h.len() - i,
    {
        if h[i] == d {
            return true;
        }
        i = i + 1;
    }
    false
}

} // verus!
