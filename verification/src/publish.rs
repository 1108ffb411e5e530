//! The static site generator's pure parts: post titles, descriptions and
//! dates, and the pages and stylesheet of the site.

use crate::assets::{CSS, FAVICON, JS_INIT, JS_KATEX, JS_THEME_EARLY, KATEX_CSS, KATEX_JS};
use crate::html::{push_html_escaped, spec_html_escape};
use crate::strs::{
    decimal, extend_all, extend_str, from_chars, line_ranges, lines, push_decimal, rfind_char,
    rfind_char_in, slice_of, starts_with, to_chars, trim, trim_range, utf8_len, utf8_len_seq,
    char_utf8_len, digit_char,
};
use vstd::prelude::*;

verus! {

// ---------------------------------------------------------------------------
// Dates
// ---------------------------------------------------------------------------

/// A point in time as seconds since the Unix epoch.
pub struct DateTime {
    secs_since_epoch: i64,
}

/// Division rounding toward zero, as Rust's integer `/` does.
pub open spec fn tdiv(a: int, b: int) -> int {
    if a >= 0 {
        a / b
    } else {
        -((-a) / b)
    }
}

/// The proleptic Gregorian `(year, month, day)` of a day count since
/// 1970-01-01 (Howard Hinnant's `civil_from_days`).
pub open spec fn civil_from_days(days: int) -> (int, int, int) {
    let z = days + 719468;
    let era = tdiv(if z >= 0 {
        z
    } else {
        z - 146096
    }, 146097);
    let doe = z - era * 146097;
    let yoe = tdiv(doe - tdiv(doe, 1460) + tdiv(doe, 36524) - tdiv(doe, 146096), 365);
    let y = yoe + era * 400;
    let doy = doe - (365 * yoe + tdiv(yoe, 4) - tdiv(yoe, 100));
    let mp = tdiv(5 * doy + 2, 153);
    let d = doy - tdiv(153 * mp + 2, 5) + 1;
    let m = if mp < 10 {
        mp + 3
    } else {
        mp - 9
    };
    (if m <= 2 {
        y + 1
    } else {
        y
    }, m, d)
}

/// `k` zeros (none when `k` is not positive).
pub open spec fn zeros(k: int) -> Seq<char> {
    Seq::new(if k > 0 {
        k as nat
    } else {
        0nat
    }, |i: int| '0')
}

/// `n` in decimal, zero-padded to `width` characters with the sign counted,
/// as `{:0width$}` prints it.
pub open spec fn padded(n: int, width: int) -> Seq<char> {
    if n >= 0 {
        zeros(width - decimal(n as nat).len()) + decimal(n as nat)
    } else {
        seq!['-'] + zeros(width - 1 - decimal((-n) as nat).len()) + decimal((-n) as nat)
    }
}

/// What `DateTime::date` returns: `YYYY-MM-DD`.
pub open spec fn spec_date(secs: int) -> Seq<char> {
    let (y, m, d) = civil_from_days(tdiv(secs, 86400));
    padded(y, 4) + seq!['-'] + padded(m, 2) + seq!['-'] + padded(d, 2)
}

/// The year of the era (from March 1st) and the day of that year, for a
/// day of a 400-year era.
pub open spec fn era_year_day(doe: int) -> (int, int) {
    let yoe = (doe - doe / 1460 + doe / 36524 - doe / 146096) / 365;
    (yoe, doe - (365 * yoe + yoe / 4 - yoe / 100))
}

proof fn lemma_era_year_day_bounds(doe: int)
    requires
        0 <= doe <= 146096,
    ensures
        0 <= era_year_day(doe).0 <= 399,
        0 <= era_year_day(doe).1 <= 365,
{
}

/// The `(year, month, day)` of a day of a 400-year era, the year counted
/// within the era.
pub open spec fn era_civil(doe: int) -> (int, int, int) {
    let (yoe, doy) = era_year_day(doe);
    let mp = (5 * doy + 2) / 153;
    let d = doy - (153 * mp + 2) / 5 + 1;
    let m = if mp < 10 { mp + 3 } else { mp - 9 };
    (if m <= 2 { yoe + 1 } else { yoe }, m, d)
}

/// `a` comes no later than `b` in `(year, month, day)` order.
pub open spec fn date_le(a: (int, int, int), b: (int, int, int)) -> bool {
    a.0 < b.0 || (a.0 == b.0 && (a.1 < b.1 || (a.1 == b.1 && a.2 <= b.2)))
}

proof fn lemma_era_year_monotone(a: int, b: int)
    requires
        0 <= a <= b <= 146096,
    ensures
        era_year_day(a).0 <= era_year_day(b).0,
        era_year_day(a).0 == era_year_day(b).0 ==> era_year_day(b).1 - era_year_day(a).1 == b - a,
{
}

proof fn lemma_year_day_civil(yoe: int, doy: int)
    requires
        0 <= doy <= 365,
    ensures
        ({
            let mp = (5 * doy + 2) / 153;
            &&& 0 <= mp <= 11
            &&& 1 <= doy - (153 * mp + 2) / 5 + 1 <= 31
        }),
{
}

proof fn lemma_era_civil_monotone(a: int, b: int)
    requires
        0 <= a <= b <= 146096,
    ensures
        date_le(era_civil(a), era_civil(b)),
{
    lemma_era_year_day_bounds(a);
    lemma_era_year_day_bounds(b);
    lemma_era_year_monotone(a, b);
    let (ya, da) = era_year_day(a);
    let (yb, db) = era_year_day(b);
    lemma_year_day_civil(ya, da);
    lemma_year_day_civil(yb, db);
    let ma = (5 * da + 2) / 153;
    let mb = (5 * db + 2) / 153;
    if ya == yb {
        assert(ma <= mb) by (nonlinear_arith)
            requires da <= db, ma == (5 * da + 2) / 153, mb == (5 * db + 2) / 153;
    }
}

proof fn lemma_tdiv_nonneg(a: int, b: int)
    requires
        a >= 0,
        b > 0,
    ensures
        tdiv(a, b) == a / b,
{
}

/// For a day on or after 1970-01-01, the date is the era's date shifted by
/// the era's first year.
proof fn lemma_civil_by_era(days: int)
    requires
        days >= 0,
    ensures
        ({
            let z = days + 719468;
            let era = z / 146097;
            let e = era_civil(z - era * 146097);
            &&& 0 <= z - era * 146097 <= 146096
            &&& era >= 0
            &&& civil_from_days(days) == (e.0 + era * 400, e.1, e.2)
        }),
{
    let z = days + 719468;
    let era = z / 146097;
    let doe = z - era * 146097;
    lemma_tdiv_nonneg(z, 146097);
    lemma_era_year_day_bounds(doe);
    let (yoe, doy) = era_year_day(doe);
    lemma_year_day_civil(yoe, doy);
    lemma_tdiv_nonneg(doe, 1460);
    lemma_tdiv_nonneg(doe, 36524);
    lemma_tdiv_nonneg(doe, 146096);
    lemma_tdiv_nonneg(doe - doe / 1460 + doe / 36524 - doe / 146096, 365);
    lemma_tdiv_nonneg(yoe, 4);
    lemma_tdiv_nonneg(yoe, 100);
    lemma_tdiv_nonneg(5 * doy + 2, 153);
    let mp = (5 * doy + 2) / 153;
    lemma_tdiv_nonneg(153 * mp + 2, 5);
}

/// Later days never have earlier dates.
proof fn lemma_civil_monotone(a: int, b: int)
    requires
        0 <= a <= b,
    ensures
        date_le(civil_from_days(a), civil_from_days(b)),
{
    lemma_civil_by_era(a);
    lemma_civil_by_era(b);
    let za = a + 719468;
    let zb = b + 719468;
    let ea = za / 146097;
    let eb = zb / 146097;
    assert(ea <= eb) by (nonlinear_arith)
        requires za <= zb, ea == za / 146097, eb == zb / 146097;
    let da = za - ea * 146097;
    let db = zb - eb * 146097;
    lemma_era_year_day_bounds(da);
    lemma_era_year_day_bounds(db);
    lemma_year_day_civil(era_year_day(da).0, era_year_day(da).1);
    lemma_year_day_civil(era_year_day(db).0, era_year_day(db).1);
    if ea == eb {
        lemma_era_civil_monotone(da, db);
    } else {
        assert(ea * 400 + 400 <= eb * 400);
    }
}

/// Ten to the power `w`.
pub open spec fn pow10(w: nat) -> nat
    decreases w,
{
    if w == 0 { 1 } else { 10 * pow10((w - 1) as nat) }
}

/// The last `w` decimal digits of `n`, most significant first.
pub open spec fn digits(n: nat, w: nat) -> Seq<char>
    decreases w,
{
    if w == 0 { seq![] } else { digits(n / 10, (w - 1) as nat).push(digit_char((n % 10) as int)) }
}

proof fn lemma_digits_zero(w: nat)
    ensures
        digits(0, w) == zeros(w as int),
    decreases w,
{
    if w > 0 {
        lemma_digits_zero((w - 1) as nat);
        assert(digits(0, w) =~= zeros(w as int));
    }
}

/// A number below `10^w` printed zero-padded to `w` places is its last `w`
/// digits.
proof fn lemma_padded_digits(n: nat, w: nat)
    requires
        1 <= w,
        n < pow10(w),
    ensures
        padded(n as int, w as int) == digits(n, w),
        decimal(n).len() <= w,
    decreases n,
{
    if n < 10 {
        lemma_digits_zero((w - 1) as nat);
        assert(padded(n as int, w as int) =~= digits(n, w));
    } else {
        assert(w >= 2) by {
            if w == 1 {
                assert(pow10(1) == 10 * pow10(0));
            }
        }
        assert(pow10(w) == 10 * pow10((w - 1) as nat));
        assert(n / 10 < pow10((w - 1) as nat)) by (nonlinear_arith)
            requires n < 10 * pow10((w - 1) as nat);
        lemma_padded_digits(n / 10, (w - 1) as nat);
        assert(padded(n as int, w as int) =~= padded((n / 10) as int, w - 1).push(digit_char((n % 10) as int)));
    }
}

proof fn lemma_digits_len(n: nat, w: nat)
    ensures
        digits(n, w).len() == w,
    decreases w,
{
    if w > 0 {
        lemma_digits_len(n / 10, (w - 1) as nat);
    }
}

/// Of two numbers below `10^w`, the smaller has the smaller digit where
/// their `w` digits first differ.
proof fn lemma_digits_order(a: nat, b: nat, w: nat) -> (i: int)
    requires
        a < b < pow10(w),
    ensures
        0 <= i < w,
        digits(a, w).take(i) == digits(b, w).take(i),
        digits(a, w)[i] < digits(b, w)[i],
    decreases w,
{
    if w == 0 {
        assert(false);
        0
    } else {
        let v = (w - 1) as nat;
        lemma_digits_len(a, w);
        lemma_digits_len(b, w);
        lemma_digits_len(a / 10, v);
        lemma_digits_len(b / 10, v);
        assert(pow10(w) == 10 * pow10(v));
        if a / 10 < b / 10 {
            assert(b / 10 < pow10(v)) by (nonlinear_arith)
                requires b < 10 * pow10(v);
            let j = lemma_digits_order(a / 10, b / 10, v);
            assert(digits(a, w).take(j) =~= digits(a / 10, v).take(j));
            assert(digits(b, w).take(j) =~= digits(b / 10, v).take(j));
            j
        } else {
            assert(a / 10 == b / 10);
            assert(a % 10 < b % 10);
            assert(digits(a, w).take(v as int) =~= digits(a / 10, v));
            assert(digits(b, w).take(v as int) =~= digits(b / 10, v));
            v as int
        }
    }
}

/// `YYYY-MM-DD` of a `(year, month, day)`.
pub open spec fn date_text(t: (int, int, int)) -> Seq<char> {
    padded(t.0, 4) + seq!['-'] + padded(t.1, 2) + seq!['-'] + padded(t.2, 2)
}

/// `a` is `b`, or has the smaller character where they first differ (how
/// strings of one length sort).
pub open spec fn text_le(a: Seq<char>, b: Seq<char>) -> bool {
    a == b || exists|i: int| 0 <= i < a.len() && i < b.len() && a.take(i) == b.take(i) && a[i] < b[i]
}

proof fn lemma_date_text_order(t1: (int, int, int), t2: (int, int, int))
    requires
        0 <= t1.0 < 10000,
        0 <= t2.0 < 10000,
        0 <= t1.1 < 100,
        0 <= t2.1 < 100,
        0 <= t1.2 < 100,
        0 <= t2.2 < 100,
        date_le(t1, t2),
    ensures
        text_le(date_text(t1), date_text(t2)),
        date_text(t1).len() == 10,
{
    assert(pow10(2) == 100) by {
        reveal_with_fuel(pow10, 3);
    }
    assert(pow10(4) == 10000) by {
        reveal_with_fuel(pow10, 5);
    }
    lemma_padded_digits(t1.0 as nat, 4);
    lemma_padded_digits(t2.0 as nat, 4);
    lemma_padded_digits(t1.1 as nat, 2);
    lemma_padded_digits(t2.1 as nat, 2);
    lemma_padded_digits(t1.2 as nat, 2);
    lemma_padded_digits(t2.2 as nat, 2);
    lemma_digits_len(t1.0 as nat, 4);
    lemma_digits_len(t2.0 as nat, 4);
    lemma_digits_len(t1.1 as nat, 2);
    lemma_digits_len(t2.1 as nat, 2);
    lemma_digits_len(t1.2 as nat, 2);
    lemma_digits_len(t2.2 as nat, 2);
    let s1 = date_text(t1);
    let s2 = date_text(t2);
    let y1 = padded(t1.0, 4);
    let y2 = padded(t2.0, 4);
    let m1 = padded(t1.1, 2);
    let m2 = padded(t2.1, 2);
    let d1 = padded(t1.2, 2);
    let d2 = padded(t2.2, 2);
    if t1.0 < t2.0 {
        let i = lemma_digits_order(t1.0 as nat, t2.0 as nat, 4);
        assert(s1.take(i) =~= y1.take(i));
        assert(s2.take(i) =~= y2.take(i));
        assert(s1[i] == y1[i]);
        assert(s2[i] == y2[i]);
    } else if t1.1 < t2.1 {
        let j = lemma_digits_order(t1.1 as nat, t2.1 as nat, 2);
        let i = 5 + j;
        assert(s1.take(i) =~= y1 + seq!['-'] + m1.take(j));
        assert(s2.take(i) =~= y2 + seq!['-'] + m2.take(j));
        assert(s1[i] == m1[j]);
        assert(s2[i] == m2[j]);
    } else if t1.2 < t2.2 {
        let j = lemma_digits_order(t1.2 as nat, t2.2 as nat, 2);
        let i = 8 + j;
        assert(s1.take(i) =~= y1 + seq!['-'] + m1 + seq!['-'] + d1.take(j));
        assert(s2.take(i) =~= y2 + seq!['-'] + m2 + seq!['-'] + d2.take(j));
        assert(s1[i] == d1[j]);
        assert(s2[i] == d2[j]);
    }
}

/// Dates sort as text in time order: of two moments from the epoch to the
/// end of the year 9999, the earlier one's `YYYY-MM-DD` (ten characters)
/// sorts no later than the later one's.
pub proof fn lemma_date_text_follows_time(n1: int, n2: int)
    requires
        0 <= n1 <= n2 <= 253402300799,
    ensures
        spec_date(n1).len() == 10,
        text_le(spec_date(n1), spec_date(n2)),
{
    let a = n1 / 86400;
    let b = n2 / 86400;
    lemma_tdiv_nonneg(n1, 86400);
    lemma_tdiv_nonneg(n2, 86400);
    assert(a <= b <= 2932896) by (nonlinear_arith)
        requires 0 <= n1 <= n2 <= 253402300799, a == n1 / 86400, b == n2 / 86400;
    lemma_civil_monotone(a, b);
    lemma_civil_monotone(0, a);
    lemma_civil_monotone(b, 2932896);
    lemma_civil_by_era(0);
    lemma_civil_by_era(2932896);
    lemma_civil_by_era(a);
    lemma_civil_by_era(b);
    let ca = civil_from_days(a);
    let cb = civil_from_days(b);
    let za = a + 719468;
    let zb = b + 719468;
    let da = za - (za / 146097) * 146097;
    let db = zb - (zb / 146097) * 146097;
    lemma_era_year_day_bounds(da);
    lemma_era_year_day_bounds(db);
    lemma_year_day_civil(era_year_day(da).0, era_year_day(da).1);
    lemma_year_day_civil(era_year_day(db).0, era_year_day(db).1);
    assert(civil_from_days(0) == (1970int, 1int, 1int));
    assert(civil_from_days(2932896) == (9999int, 12int, 31int));
    lemma_date_text_order(ca, cb);
    lemma_date_text_order(ca, ca);
}

fn push_padded(out: &mut Vec<char>, n: i64, width: usize)
    requires
        1 <= width <= 4,
        n > i64::MIN,
    ensures
        final(out)@ == old(out)@ + padded(n as int, width as int),
{
    let ghost start = out@;
    let mut digits: Vec<char> = Vec::new();
    let neg = n < 0;
    let a: u64 = if neg {
        (-n) as u64
    } else {
        n as u64
    };
    push_decimal(&mut digits, a);
    assert(digits@ =~= decimal(a as nat));
    if neg {
        out.push('-');
    }
    let sign: usize = if neg {
        1
    } else {
        0
    };
    let len = digits.len();
    let pad: usize = if len < width - sign {
        width - sign - len
    } else {
        0
    };
    let ghost before = out@;
    let mut i: usize = 0;
    while i < pad
        invariant
            i <= pad,
            out@ == before + Seq::new(i as nat, |j: int| '0'),
        decreases pad - i,
    {
        out.push('0');
        i = i + 1;
        assert(out@ =~= before + Seq::new(i as nat, |j: int| '0'));
    }
    extend_all(out, &digits);
    proof {
        assert(Seq::new(pad as nat, |j: int| '0') =~= zeros(width - sign - len));
        assert(out@ =~= start + padded(n as int, width as int));
    }
}

fn civil(days: i64) -> (r: (i64, i64, i64))
    requires
        -200_000_000_000_000 <= days <= 200_000_000_000_000,
    ensures
        (r.0 as int, r.1 as int, r.2 as int) == civil_from_days(days as int),
        r.0 > i64::MIN,
        r.1 > i64::MIN,
        r.2 > i64::MIN,
{
    let z = days + 719468;
    let era: i64 = if z >= 0 {
        z / 146097
    } else {
        (z - 146096) / 146097
    };
    assert(0 <= z - era * 146097 <= 146096);
    let doe = z - era * 146097;
    let yoe = (doe - doe / 1460 + doe / 36524 - doe / 146096) / 365;
    assert(0 <= yoe <= 400);
    let y = yoe + era * 400;
    let doy = doe - (365 * yoe + yoe / 4 - yoe / 100);
    let mp = (5 * doy + 2) / 153;
    let d = doy - (153 * mp + 2) / 5 + 1;
    let m = if mp < 10 {
        mp + 3
    } else {
        mp - 9
    };
    let y = if m <= 2 {
        y + 1
    } else {
        y
    };
    (y, m, d)
}

impl DateTime {
    /// The moment `secs` seconds after the Unix epoch.
    pub fn from_secs(secs: i64) -> (t: DateTime)
        ensures
            t.secs() == secs,
    {
        DateTime { secs_since_epoch: secs }
    }

    /// Seconds since the Unix epoch.
    pub closed spec fn secs(&self) -> int {
        self.secs_since_epoch as int
    }

    /// The calendar date, `YYYY-MM-DD`.
    pub fn date(&self) -> (s: String)
        ensures
            s@ == spec_date(self.secs()),
    {
        let (y, m, d) = civil(self.secs_since_epoch / 86400);
        let mut out: Vec<char> = Vec::new();
        push_padded(&mut out, y, 4);
        out.push('-');
        push_padded(&mut out, m, 2);
        out.push('-');
        push_padded(&mut out, d, 2);
        from_chars(&out)
    }
}

// ---------------------------------------------------------------------------
// Titles and descriptions
// ---------------------------------------------------------------------------

/// The title of a `# ` heading line (trimmed), if the line is one.
pub open spec fn h1_title(line: Seq<char>) -> Option<Seq<char>> {
    let t = trim(line);
    if t.len() >= 2 && t[0] == '#' && t[1] == ' ' {
        Some(trim(t.skip(2)))
    } else {
        None
    }
}

/// The first `# ` heading title among `ls` from index `k` on.
pub open spec fn first_h1(ls: Seq<Seq<char>>, k: int) -> Option<Seq<char>>
    decreases ls.len() - k,
{
    if k < 0 || k >= ls.len() {
        None
    } else {
        match h1_title(ls[k]) {
            Some(t) => Some(t),
            None => first_h1(ls, k + 1),
        }
    }
}

/// The text of the first `# ` heading of a document.
pub fn extract_first_heading(markdown: &str) -> (r: Option<String>)
    ensures
        match r {
            Some(t) => first_h1(lines(markdown@), 0) == Some(t@),
            None => first_h1(lines(markdown@), 0) is None,
        },
{
    let cs = to_chars(markdown);
    let ranges = line_ranges(&cs);
    let ghost ls = lines(cs@);
    let mut k: usize = 0;
    while k < ranges.len()
        invariant
            k <= ranges@.len() == ls.len(),
            ls == lines(cs@),
            cs@ == markdown@,
            forall|i: int|
                0 <= i < ranges@.len() ==> {
                    &&& (#[trigger] ranges@[i]).0 <= ranges@[i].1 <= cs@.len()
                    &&& cs@.subrange(ranges@[i].0 as int, ranges@[i].1 as int) == ls[i]
                },
            first_h1(ls, 0) == first_h1(ls, k as int),
        decreases ranges.len() - k,
    {
        let (lo, hi) = ranges[k];
        let (a, b) = trim_range(&cs, lo, hi);
        let ghost t = cs@.subrange(a as int, b as int);
        if b - a >= 2 && cs[a] == '#' && cs[a + 1] == ' ' {
            let (c, d) = trim_range(&cs, a + 2, b);
            assert(t.skip(2) =~= cs@.subrange(a + 2, b as int));
            let v = slice_of(&cs, c, d);
            return Some(from_chars(&v));
        }
        proof {
            if t.len() >= 2 {
                assert(t[0] == cs@[a as int] && t[1] == cs@[a + 1]);
            }
        }
        k = k + 1;
    }
    None
}

/// Whether a trimmed line is structure rather than prose: a heading, an
/// image, a code fence or a rule.
pub open spec fn is_structure_line(t: Seq<char>) -> bool {
    starts_with(t, seq!['#']) || starts_with(t, seq!['!', '[']) || starts_with(t, seq!['`', '`', '`'])
        || starts_with(t, seq!['-', '-', '-'])
}

/// The description scan: the text gathered so far and whether the first
/// paragraph has ended.
pub open spec fn description_scan(ls: Seq<Seq<char>>) -> (Seq<char>, bool)
    decreases ls.len(),
{
    if ls.len() == 0 {
        (seq![], false)
    } else {
        let st = description_scan(ls.drop_last());
        let t = trim(ls.last());
        if st.1 {
            st
        } else if t.len() == 0 {
            (st.0, st.0.len() > 0)
        } else if is_structure_line(t) {
            st
        } else if st.0.len() > 0 {
            (st.0 + seq![' '] + t, false)
        } else {
            (t, false)
        }
    }
}

/// The first paragraph of prose, its lines trimmed and joined by spaces;
/// blank lines before it and structure lines are skipped.
pub open spec fn spec_joined_description(markdown: Seq<char>) -> Seq<char> {
    description_scan(lines(markdown)).0
}

fn starts_with_lit(cs: &[char], a: usize, b: usize, p: &[char]) -> (r: bool)
    requires
        a <= b <= cs@.len(),
    ensures
        r == starts_with(cs@.subrange(a as int, b as int), p@),
{
    let ghost t = cs@.subrange(a as int, b as int);
    if b - a < p.len() {
        return false;
    }
    let mut i: usize = 0;
    while i < p.len()
        invariant
            i <= p@.len(),
            a + p@.len() <= b <= cs@.len(),
            t == cs@.subrange(a as int, b as int),
            forall|j: int| 0 <= j < i ==> t[j] == p@[j],
        decreases p.len() - i,
    {
        if cs[a + i] != p[i] {
            assert(t.subrange(0, p@.len() as int)[i as int] != p@[i as int]);
            return false;
        }
        i = i + 1;
    }
    assert(t.subrange(0, p@.len() as int) =~= p@);
    true
}

/// The first paragraph of prose of a document, its lines trimmed and joined
/// by spaces.
pub fn joined_description(markdown: &str) -> (r: String)
    ensures
        r@ == spec_joined_description(markdown@),
{
    let cs = to_chars(markdown);
    let ranges = line_ranges(&cs);
    let ghost ls = lines(cs@);
    let hash: Vec<char> = vec!['#'];
    let img: Vec<char> = vec!['!', '['];
    let fence: Vec<char> = vec!['`', '`', '`'];
    let rule: Vec<char> = vec!['-', '-', '-'];
    let mut desc: Vec<char> = Vec::new();
    let mut done = false;
    let mut k: usize = 0;
    while k < ranges.len()
        invariant
            k <= ranges@.len() == ls.len(),
            ls == lines(cs@),
            hash@ == seq!['#'],
            img@ == seq!['!', '['],
            fence@ == seq!['`', '`', '`'],
            rule@ == seq!['-', '-', '-'],
            forall|i: int|
                0 <= i < ranges@.len() ==> {
                    &&& (#[trigger] ranges@[i]).0 <= ranges@[i].1 <= cs@.len()
                    &&& cs@.subrange(ranges@[i].0 as int, ranges@[i].1 as int) == ls[i]
                },
            description_scan(ls.take(k as int)) == (desc@, done),
        decreases ranges.len() - k,
    {
        let (lo, hi) = ranges[k];
        assert(ls.take(k + 1).drop_last() =~= ls.take(k as int));
        assert(ls.take(k + 1).last() == ls[k as int]);
        if !done {
            let (a, b) = trim_range(&cs, lo, hi);
            if a == b {
                if desc.len() > 0 {
                    done = true;
                }
            } else if starts_with_lit(&cs, a, b, &hash) || starts_with_lit(&cs, a, b, &img)
                || starts_with_lit(&cs, a, b, &fence) || starts_with_lit(&cs, a, b, &rule) {
            } else {
                if desc.len() > 0 {
                    desc.push(' ');
                }
                extend_range_chars(&mut desc, &cs, a, b);
            }
        }
        k = k + 1;
    }
    assert(ls.take(k as int) =~= ls);
    from_chars(&desc)
}

fn extend_range_chars(out: &mut Vec<char>, s: &[char], lo: usize, hi: usize)
    requires
        lo <= hi <= s@.len(),
    ensures
        final(out)@ == old(out)@ + s@.subrange(lo as int, hi as int),
{
    crate::strs::extend_range(out, s, lo, hi);
}

/// The number of leading characters of `d` that fit, from `k` on, in `n`
/// bytes of UTF-8.
pub open spec fn byte_cut(d: Seq<char>, k: int, n: int) -> int
    decreases d.len() - k,
{
    if 0 <= k < d.len() && utf8_len_seq(d.take(k + 1)) <= n {
        byte_cut(d, k + 1, n)
    } else {
        k
    }
}

/// Whether the 160-byte cut of a long description falls between
/// characters (slicing a `str` elsewhere panics).
pub open spec fn description_cut_ok(d: Seq<char>) -> bool {
    utf8_len_seq(d) <= 160 || utf8_len_seq(d.take(byte_cut(d, 0, 160))) == 160
}

/// What `extract_description` returns: the joined description, or, when it
/// is over 160 bytes, its first 160 bytes cut back to the last space and
/// followed by `...`.
pub open spec fn spec_extract_description(markdown: Seq<char>) -> Seq<char> {
    let d = spec_joined_description(markdown);
    if utf8_len_seq(d) > 160 {
        let t = d.take(byte_cut(d, 0, 160));
        match rfind_char(t, ' ') {
            Some(i) => t.take(i) + seq!['.', '.', '.'],
            None => t + seq!['.', '.', '.'],
        }
    } else {
        d
    }
}

proof fn lemma_utf8_len_take_mono(s: Seq<char>, i: int, j: int)
    requires
        0 <= i <= j <= s.len(),
    ensures
        utf8_len_seq(s.take(i)) <= utf8_len_seq(s.take(j)),
    decreases j - i,
{
    if i < j {
        lemma_utf8_len_take_mono(s, i, j - 1);
        assert(s.take(j).drop_last() =~= s.take(j - 1));
    }
}

/// A short description of a post for its card and meta tags.
pub fn extract_description(markdown: &str) -> (r: String)
    requires
        description_cut_ok(spec_joined_description(markdown@)),
    ensures
        r@ == spec_extract_description(markdown@),
{
    let joined = joined_description(markdown);
    let d = to_chars(joined.as_str());
    let n = d.len();
    let mut k: usize = 0;
    let mut bytes: usize = 0;
    let mut total_over = false;
    while k < n && !total_over
        invariant
            k <= n == d@.len(),
            bytes == utf8_len_seq(d@.take(k as int)),
            bytes <= 160,
            byte_cut(d@, 0, 160) == byte_cut(d@, k as int, 160),
            total_over ==> k < n && utf8_len_seq(d@.take(k + 1)) > 160,
        decreases 2 * (n - k) + (if total_over {
            0int
        } else {
            1int
        }),
    {
        let w = char_utf8_len(d[k]);
        assert(d@.take(k + 1).drop_last() =~= d@.take(k as int));
        if w > 160 - bytes {
            total_over = true;
        } else {
            bytes = bytes + w;
            k = k + 1;
        }
    }
    proof {
        if !total_over {
            assert(d@.take(k as int) =~= d@);
        } else {
            lemma_utf8_len_take_mono(d@, k + 1, n as int);
            assert(d@.take(n as int) =~= d@);
            assert(byte_cut(d@, k as int, 160) == k);
        }
    }
    if !total_over {
        return joined;
    }
    assert(utf8_len_seq(d@) > 160);
    assert(byte_cut(d@, 0, 160) == k);
    let t = slice_of(&d, 0, k);
    assert(t@ =~= d@.take(k as int));
    let mut out: Vec<char> = match rfind_char_in(&t, ' ') {
        Some(i) => slice_of(&t, 0, i),
        None => t,
    };
    proof {
        match rfind_char(d@.take(k as int), ' ') {
            Some(i) => assert(out@ =~= d@.take(k as int).take(i)),
            None => {},
        }
    }
    out.push('.');
    out.push('.');
    out.push('.');
    from_chars(&out)
}

// ---------------------------------------------------------------------------
// Site pages
// ---------------------------------------------------------------------------

/// A post of the site.
#[derive(Debug, Clone)]
pub struct Post {
    pub title: String,
    pub date: String,
    pub slug: String,
    pub description: String,
    pub markdown: String,
}

/// A post page of the static site.
pub open spec fn blog_page_template(title: Seq<char>, description: Seq<char>, date: Seq<char>, body: Seq<char>) -> Seq<char> {
    r#"<!DOCTYPE html>
<html data-theme="dark">
<head>
    <meta charset="utf-8">
    <meta name="viewport" content="width=device-width, initial-scale=1">
    <title>"#@
        + title
        + r#"</title>
    <meta name="description" content=""#@
        + description
        + r#"">
    <meta property="og:title" content=""#@
        + title
        + r#"">
    <meta property="og:description" content=""#@
        + description
        + r#"">
    "#@
        + FAVICON@
        + r#"
    <link rel="stylesheet" href="../style.css">
    "#@
        + KATEX_CSS@
        + r#"
    "#@
        + KATEX_JS@
        + r#"
    <script>"#@
        + JS_THEME_EARLY@
        + r#"</script>
</head>
<body>
    <button id="theme-toggle"></button>
    <article class="markdown-body blog-post">
        <header class="post-header">
            <a href="../" class="back-link">&larr; Back</a>
            <h1 class="post-title">"#@
        + title
        + r#"</h1>
            <time class="post-date">"#@
        + date
        + r#"</time>
        </header>
        "#@
        + body
        + r#"
    </article>
    <script type="module">
        import mermaid from 'https://cdn.jsdelivr.net/npm/mermaid@11/dist/mermaid.esm.min.mjs';
        mermaid.initialize({ startOnLoad: false, theme: 'base', themeVariables: getMermaidThemeVars() });
        document.querySelectorAll('code.language-mermaid').forEach(el => {
            const pre = el.parentElement;
            const div = document.createElement('div');
            div.className = 'mermaid';
            const src = el.textContent;
            div.textContent = src;
            div.setAttribute('data-original', src);
            pre.replaceWith(div);
        });
        await mermaid.run();
        window.mermaid = mermaid;
    </script>
    <script>"#@
        + JS_INIT@
        + r#"</script>
    <script>"#@
        + JS_KATEX@
        + r#"</script>
</body>
</html>"#@
}

fn build_blog_page_template(title: &[char], description: &[char], date: &[char], body: &[char]) -> (out: Vec<char>)
    ensures
        out@ == blog_page_template(title@, description@, date@, body@),
{
    let mut out: Vec<char> = Vec::new();
    extend_str(&mut out, r#"<!DOCTYPE html>
<html data-theme="dark">
<head>
    <meta charset="utf-8">
    <meta name="viewport" content="width=device-width, initial-scale=1">
    <title>"#);
    assert(out@ =~= r#"<!DOCTYPE html>
<html data-theme="dark">
<head>
    <meta charset="utf-8">
    <meta name="viewport" content="width=device-width, initial-scale=1">
    <title>"#@);
    extend_all(&mut out, title);
    extend_str(&mut out, r#"</title>
    <meta name="description" content=""#);
    extend_all(&mut out, description);
    extend_str(&mut out, r#"">
    <meta property="og:title" content=""#);
    extend_all(&mut out, title);
    extend_str(&mut out, r#"">
    <meta property="og:description" content=""#);
    extend_all(&mut out, description);
    extend_str(&mut out, r#"">
    "#);
    extend_str(&mut out, FAVICON);
    extend_str(&mut out, r#"
    <link rel="stylesheet" href="../style.css">
    "#);
    extend_str(&mut out, KATEX_CSS);
    extend_str(&mut out, r#"
    "#);
    extend_str(&mut out, KATEX_JS);
    extend_str(&mut out, r#"
    <script>"#);
    extend_str(&mut out, JS_THEME_EARLY);
    extend_str(&mut out, r#"</script>
</head>
<body>
    <button id="theme-toggle"></button>
    <article class="markdown-body blog-post">
        <header class="post-header">
            <a href="../" class="back-link">&larr; Back</a>
            <h1 class="post-title">"#);
    extend_all(&mut out, title);
    extend_str(&mut out, r#"</h1>
            <time class="post-date">"#);
    extend_all(&mut out, date);
    extend_str(&mut out, r#"</time>
        </header>
        "#);
    extend_all(&mut out, body);
    extend_str(&mut out, r#"
    </article>
    <script type="module">
        import mermaid from 'https://cdn.jsdelivr.net/npm/mermaid@11/dist/mermaid.esm.min.mjs';
        mermaid.initialize({ startOnLoad: false, theme: 'base', themeVariables: getMermaidThemeVars() });
        document.querySelectorAll('code.language-mermaid').forEach(el => {
            const pre = el.parentElement;
            const div = document.createElement('div');
            div.className = 'mermaid';
            const src = el.textContent;
            div.textContent = src;
            div.setAttribute('data-original', src);
            pre.replaceWith(div);
        });
        await mermaid.run();
        window.mermaid = mermaid;
    </script>
    <script>"#);
    extend_str(&mut out, JS_INIT);
    extend_str(&mut out, r#"</script>
    <script>"#);
    extend_str(&mut out, JS_KATEX);
    extend_str(&mut out, r#"</script>
</body>
</html>"#);
    out
}

/// One post card of the site index.
pub open spec fn blog_card_template(slug: Seq<char>, title: Seq<char>, date: Seq<char>, desc: Seq<char>) -> Seq<char> {
    r#"<a class="blog-card" href=""#@
        + slug
        + r#"/">
    <h2 class="blog-card-title">"#@
        + title
        + r#"</h2>
    <time class="blog-card-date">"#@
        + date
        + r#"</time>
    <p class="blog-card-desc">"#@
        + desc
        + r#"</p>
</a>
"#@
}

fn build_blog_card_template(slug: &[char], title: &[char], date: &[char], desc: &[char]) -> (out: Vec<char>)
    ensures
        out@ == blog_card_template(slug@, title@, date@, desc@),
{
    let mut out: Vec<char> = Vec::new();
    extend_str(&mut out, r#"<a class="blog-card" href=""#);
    assert(out@ =~= r#"<a class="blog-card" href=""#@);
    extend_all(&mut out, slug);
    extend_str(&mut out, r#"/">
    <h2 class="blog-card-title">"#);
    extend_all(&mut out, title);
    extend_str(&mut out, r#"</h2>
    <time class="blog-card-date">"#);
    extend_all(&mut out, date);
    extend_str(&mut out, r#"</time>
    <p class="blog-card-desc">"#);
    extend_all(&mut out, desc);
    extend_str(&mut out, r#"</p>
</a>
"#);
    out
}

/// The site index page.
pub open spec fn blog_index_template(cards: Seq<char>) -> Seq<char> {
    r#"<!DOCTYPE html>
<html data-theme="dark">
<head>
    <meta charset="utf-8">
    <meta name="viewport" content="width=device-width, initial-scale=1">
    <title>Blog</title>
    "#@
        + FAVICON@
        + r#"
    <link rel="stylesheet" href="style.css">
    <script>"#@
        + JS_THEME_EARLY@
        + r#"</script>
</head>
<body>
    <button id="theme-toggle"></button>
    <article class="markdown-body blog-index">
        <h1>Posts</h1>
        <div class="blog-grid">"#@
        + cards
        + r#"</div>
    </article>
    <script>"#@
        + JS_INIT@
        + r#"</script>
</body>
</html>"#@
}

fn build_blog_index_template(cards: &[char]) -> (out: Vec<char>)
    ensures
        out@ == blog_index_template(cards@),
{
    let mut out: Vec<char> = Vec::new();
    extend_str(&mut out, r#"<!DOCTYPE html>
<html data-theme="dark">
<head>
    <meta charset="utf-8">
    <meta name="viewport" content="width=device-width, initial-scale=1">
    <title>Blog</title>
    "#);
    assert(out@ =~= r#"<!DOCTYPE html>
<html data-theme="dark">
<head>
    <meta charset="utf-8">
    <meta name="viewport" content="width=device-width, initial-scale=1">
    <title>Blog</title>
    "#@);
    extend_str(&mut out, FAVICON);
    extend_str(&mut out, r#"
    <link rel="stylesheet" href="style.css">
    <script>"#);
    extend_str(&mut out, JS_THEME_EARLY);
    extend_str(&mut out, r#"</script>
</head>
<body>
    <button id="theme-toggle"></button>
    <article class="markdown-body blog-index">
        <h1>Posts</h1>
        <div class="blog-grid">"#);
    extend_all(&mut out, cards);
    extend_str(&mut out, r#"</div>
    </article>
    <script>"#);
    extend_str(&mut out, JS_INIT);
    extend_str(&mut out, r#"</script>
</body>
</html>"#);
    out
}

/// The site stylesheet: the page stylesheet and the blog rules.
pub open spec fn blog_css_template() -> Seq<char> {
    CSS@
        + r#"

/* Blog-specific styles */
.blog-index {
    padding-top: 2rem;
}

.blog-grid {
    display: grid;
    gap: 1.5rem;
    margin-top: 1.5rem;
}

.blog-card {
    display: block;
    padding: 1.5rem;
    border: 1px solid var(--border);
    border-radius: 8px;
    text-decoration: none;
    color: var(--fg);
    transition: border-color 0.2s, transform 0.2s, box-shadow 0.2s;
}

.blog-card:hover {
    border-color: var(--accent);
    transform: translateY(-2px);
    box-shadow: 0 4px 12px rgba(0,0,0,0.15);
    text-decoration: none;
}

.blog-card-title {
    margin: 0 0 0.25em;
    font-size: 1.25em;
}

.blog-card-date {
    display: block;
    font-size: 0.85rem;
    color: var(--fg-muted);
    margin-bottom: 0.5em;
}

.blog-card-desc {
    margin: 0;
    color: var(--fg-muted);
    font-size: 0.9rem;
    line-height: 1.5;
}

.post-header {
    margin-bottom: 2rem;
}

.back-link {
    font-size: 0.9rem;
    color: var(--fg-muted);
    text-decoration: none;
}

.back-link:hover {
    color: var(--accent);
}

.post-title {
    margin-top: 0.5em;
    border-bottom: none;
    padding-bottom: 0;
}

.post-date {
    display: block;
    color: var(--fg-muted);
    font-size: 0.9rem;
}

@media print {
    body { background: white; color: black; padding: 0; }
    pre { border: 1px solid #ccc; page-break-inside: avoid; }
    table { page-break-inside: avoid; }
    h1, h2, h3, h4, h5, h6 { page-break-after: avoid; }
    img { page-break-inside: avoid; }
    #theme-toggle { display: none !important; }
}
"#@
}

fn build_blog_css_template() -> (out: Vec<char>)
    ensures
        out@ == blog_css_template(),
{
    let mut out: Vec<char> = Vec::new();
    extend_str(&mut out, CSS);
    assert(out@ =~= CSS@);
    extend_str(&mut out, r#"

/* Blog-specific styles */
.blog-index {
    padding-top: 2rem;
}

.blog-grid {
    display: grid;
    gap: 1.5rem;
    margin-top: 1.5rem;
}

.blog-card {
    display: block;
    padding: 1.5rem;
    border: 1px solid var(--border);
    border-radius: 8px;
    text-decoration: none;
    color: var(--fg);
    transition: border-color 0.2s, transform 0.2s, box-shadow 0.2s;
}

.blog-card:hover {
    border-color: var(--accent);
    transform: translateY(-2px);
    box-shadow: 0 4px 12px rgba(0,0,0,0.15);
    text-decoration: none;
}

.blog-card-title {
    margin: 0 0 0.25em;
    font-size: 1.25em;
}

.blog-card-date {
    display: block;
    font-size: 0.85rem;
    color: var(--fg-muted);
    margin-bottom: 0.5em;
}

.blog-card-desc {
    margin: 0;
    color: var(--fg-muted);
    font-size: 0.9rem;
    line-height: 1.5;
}

.post-header {
    margin-bottom: 2rem;
}

.back-link {
    font-size: 0.9rem;
    color: var(--fg-muted);
    text-decoration: none;
}

.back-link:hover {
    color: var(--accent);
}

.post-title {
    margin-top: 0.5em;
    border-bottom: none;
    padding-bottom: 0;
}

.post-date {
    display: block;
    color: var(--fg-muted);
    font-size: 0.9rem;
}

@media print {
    body { background: white; color: black; padding: 0; }
    pre { border: 1px solid #ccc; page-break-inside: avoid; }
    table { page-break-inside: avoid; }
    h1, h2, h3, h4, h5, h6 { page-break-after: avoid; }
    img { page-break-inside: avoid; }
    #theme-toggle { display: none !important; }
}
"#);
    out
}

/// A post's page around its rendered body, the title, description and date
/// escaped.
pub open spec fn spec_blog_page(post: Post, body: Seq<char>) -> Seq<char> {
    blog_page_template(
        spec_html_escape(post.title@),
        spec_html_escape(post.description@),
        spec_html_escape(post.date@),
        body,
    )
}

/// The page of one post around its rendered body.
pub fn blog_page_html(post: &Post, body: &str) -> (r: String)
    ensures
        r@ == spec_blog_page(*post, body@),
{
    let mut t: Vec<char> = Vec::new();
    push_html_escaped(&mut t, &to_chars(post.title.as_str()));
    let mut d: Vec<char> = Vec::new();
    push_html_escaped(&mut d, &to_chars(post.description.as_str()));
    let mut dt: Vec<char> = Vec::new();
    push_html_escaped(&mut dt, &to_chars(post.date.as_str()));
    let b = to_chars(body);
    let out = build_blog_page_template(&t, &d, &dt, &b);
    from_chars(&out)
}

/// The post cards of the site index, in order.
pub open spec fn blog_cards(posts: Seq<Post>) -> Seq<char>
    decreases posts.len(),
{
    if posts.len() == 0 {
        seq![]
    } else {
        let p = posts.last();
        blog_cards(posts.drop_last()) + blog_card_template(
            spec_html_escape(p.slug@),
            spec_html_escape(p.title@),
            spec_html_escape(p.date@),
            spec_html_escape(p.description@),
        )
    }
}

/// The site index page listing the posts as cards.
pub fn render_blog_index(posts: &[Post]) -> (r: String)
    ensures
        r@ == blog_index_template(blog_cards(posts@)),
{
    let mut cards: Vec<char> = Vec::new();
    let mut i: usize = 0;
    while i < posts.len()
        invariant
            i <= posts@.len(),
            cards@ == blog_cards(posts@.take(i as int)),
        decreases posts.len() - i,
    {
        let p = &posts[i];
        let mut s: Vec<char> = Vec::new();
        push_html_escaped(&mut s, &to_chars(p.slug.as_str()));
        let mut t: Vec<char> = Vec::new();
        push_html_escaped(&mut t, &to_chars(p.title.as_str()));
        let mut d: Vec<char> = Vec::new();
        push_html_escaped(&mut d, &to_chars(p.date.as_str()));
        let mut ds: Vec<char> = Vec::new();
        push_html_escaped(&mut ds, &to_chars(p.description.as_str()));
        let card = build_blog_card_template(&s, &t, &d, &ds);
        extend_all(&mut cards, &card);
        proof {
            assert(posts@.take(i + 1).drop_last() =~= posts@.take(i as int));
        }
        i = i + 1;
    }
    assert(posts@.take(i as int) =~= posts@);
    let out = build_blog_index_template(&cards);
    from_chars(&out)
}

/// The site stylesheet: the page stylesheet followed by the blog rules.
pub fn blog_css() -> (r: String)
    ensures
        r@ == blog_css_template(),
{
    let out = build_blog_css_template();
    from_chars(&out)
}

} // verus!
