//! The calendar behind millisecond timestamps: the date `days_to_ymd`
//! gives is the calendar date of the day it counts, and the text that
//! `format_ms_iso8601` writes sorts as the instants it names, so stored
//! messages ordered by their timestamp text come in the order they were
//! saved.
use vstd::prelude::*;
use crate::text::{decimal, digit_char, zero_pad};
use crate::chat_history::{civil_from_days, ms_timestamp_text};

verus! {

/// `s` comes before `t` in character order: at the first place where they
/// differ, `s` has the smaller character. (For these ASCII texts this is
/// also their byte order.)
pub open spec fn text_before(s: Seq<char>, t: Seq<char>) -> bool {
    exists|i: int|
        0 <= i < s.len() && i < t.len() && s.take(i) == t.take(i) && (#[trigger] s[i] as u32) < (
        t[i] as u32)
}

/// A text that comes first stays first when each is extended.
proof fn lemma_before_extend(s1: Seq<char>, s2: Seq<char>, t1: Seq<char>, t2: Seq<char>)
    requires
        s1.len() == t1.len(),
        text_before(s1, t1),
    ensures
        text_before(s1 + s2, t1 + t2),
{
    let i = choose|i: int|
        0 <= i < s1.len() && i < t1.len() && s1.take(i) == t1.take(i) && (#[trigger] s1[i] as u32)
            < (t1[i] as u32);
    assert((s1 + s2).take(i) =~= s1.take(i));
    assert((t1 + t2).take(i) =~= t1.take(i));
    assert((s1 + s2)[i] == s1[i]);
    assert((t1 + t2)[i] == t1[i]);
}

/// A common beginning keeps the order of what follows it.
proof fn lemma_before_prefix(p: Seq<char>, s: Seq<char>, t: Seq<char>)
    requires
        text_before(s, t),
    ensures
        text_before(p + s, p + t),
{
    let i = choose|i: int|
        0 <= i < s.len() && i < t.len() && s.take(i) == t.take(i) && (#[trigger] s[i] as u32) < (
        t[i] as u32);
    let j = p.len() + i;
    assert((p + s).take(j) =~= p + s.take(i));
    assert((p + t).take(j) =~= p + t.take(i));
    assert((p + s)[j] == s[i]);
    assert((p + t)[j] == t[i]);
}

/// Ten to the power `w`.
pub open spec fn pow10(w: nat) -> int
    decreases w,
{
    if w == 0 {
        1
    } else {
        10 * pow10((w - 1) as nat)
    }
}

/// The last `w` decimal digits of `x`, leading zeros included.
pub open spec fn fixed_digits(x: int, w: nat) -> Seq<char>
    decreases w,
{
    if w == 0 {
        Seq::empty()
    } else {
        fixed_digits(x / 10, (w - 1) as nat).push(digit_char((x % 10) as nat))
    }
}

proof fn lemma_fixed_digits_len(x: int, w: nat)
    ensures
        fixed_digits(x, w).len() == w,
    decreases w,
{
    if w > 0 {
        lemma_fixed_digits_len(x / 10, (w - 1) as nat);
    }
}

proof fn lemma_pow10_positive(w: nat)
    ensures
        pow10(w) >= 1,
    decreases w,
{
    if w > 0 {
        lemma_pow10_positive((w - 1) as nat);
    }
}

/// Fixed-width digits sort as the numbers they write.
proof fn lemma_fixed_digits_order(x: int, y: int, w: nat)
    requires
        0 <= x < y < pow10(w),
    ensures
        text_before(fixed_digits(x, w), fixed_digits(y, w)),
    decreases w,
{
    let x1 = x / 10;
    let y1 = y / 10;
    lemma_pow10_positive(w);
    if w == 0 {
    } else {
        let v = (w - 1) as nat;
        lemma_pow10_positive(v);
        assert(0 <= x1 <= y1 < pow10(v) && (x1 == y1 ==> x % 10 < y % 10) && 0 <= x % 10 < 10
            && 0 <= y % 10 < 10) by (nonlinear_arith)
            requires
                0 <= x < y < 10 * pow10(v),
                x1 == x / 10,
                y1 == y / 10,
                pow10(v) >= 1,
        ;
        lemma_fixed_digits_len(x1, v);
        lemma_fixed_digits_len(y1, v);
        let cx = digit_char((x % 10) as nat);
        let cy = digit_char((y % 10) as nat);
        if x1 < y1 {
            lemma_fixed_digits_order(x1, y1, v);
            lemma_before_extend(fixed_digits(x1, v), seq![cx], fixed_digits(y1, v), seq![cy]);
            assert(fixed_digits(x1, v) + seq![cx] =~= fixed_digits(x, w));
            assert(fixed_digits(y1, v) + seq![cy] =~= fixed_digits(y, w));
        } else {
            let sx = fixed_digits(x, w);
            let sy = fixed_digits(y, w);
            assert(sx.take(v as int) =~= sy.take(v as int));
            assert((sx[v as int] as u32) < (sy[v as int] as u32));
        }
    }
}

/// A number below ten has one digit.
proof fn lemma_decimal_one(x: int)
    requires
        0 <= x < 10,
    ensures
        decimal(x as nat) == fixed_digits(x, 1),
{
    assert(x / 10 == 0 && x % 10 == x);
    assert(fixed_digits(x / 10, 0) =~= Seq::<char>::empty());
    assert(decimal(x as nat) =~= seq![digit_char(x as nat)]);
    assert(fixed_digits(x, 1) =~= seq![digit_char(x as nat)]);
}

/// The decimal digits of a number with `k` digits.
proof fn lemma_decimal_fixed(x: int, k: nat)
    requires
        k >= 1,
        0 <= x < pow10(k),
        k == 1 || pow10((k - 1) as nat) <= x,
    ensures
        decimal(x as nat) == fixed_digits(x, k),
    decreases k,
{
    lemma_pow10_positive((k - 1) as nat);
    if k == 1 {
        assert(pow10(1) == 10);
        lemma_decimal_one(x);
    } else {
        let v = (k - 1) as nat;
        let u = (k - 2) as nat;
        lemma_pow10_positive(u);
        assert(pow10(u) <= x / 10 < pow10(v) && x >= 10 && 0 <= x % 10 < 10) by (nonlinear_arith)
            requires
                pow10(v) == 10 * pow10(u),
                pow10(u) >= 1,
                pow10(v) <= x < 10 * pow10(v),
        ;
        lemma_decimal_fixed(x / 10, v);
        assert(decimal(x as nat) == decimal((x / 10) as nat) + seq![digit_char((x % 10) as nat)]);
        assert(fixed_digits(x, k) =~= fixed_digits(x / 10, v) + seq![digit_char((x % 10) as nat)]);
    }
}

/// Zero digits above a number's own.
proof fn lemma_fixed_digits_widen(x: int, k: nat, w: nat)
    requires
        0 <= x < pow10(k),
        k <= w,
    ensures
        fixed_digits(x, w) == Seq::new((w - k) as nat, |i: int| '0') + fixed_digits(x, k),
    decreases w,
{
    lemma_pow10_positive(k);
    if w == k {
        assert(fixed_digits(x, w) =~= Seq::new(0, |i: int| '0') + fixed_digits(x, k));
    } else if k == 0 {
        assert(x == 0);
        lemma_fixed_digits_widen(0, 0, (w - 1) as nat);
        assert(fixed_digits(x, w) =~= Seq::new(w, |i: int| '0') + fixed_digits(x, k));
    } else {
        let v = (k - 1) as nat;
        lemma_pow10_positive(v);
        assert(0 <= x / 10 < pow10(v) && 0 <= x % 10 < 10) by (nonlinear_arith)
            requires
                pow10(k) == 10 * pow10(v),
                0 <= x < pow10(k),
        ;
        lemma_fixed_digits_widen(x / 10, v, (w - 1) as nat);
        assert(fixed_digits(x, w) =~= Seq::new((w - k) as nat, |i: int| '0') + fixed_digits(x, k));
    }
}

/// `zero_pad(decimal(x), w)` is the fixed-width digits of `x` when `x` has
/// at most `w` digits.
pub proof fn lemma_padded_digits(x: int, w: nat)
    requires
        w >= 1,
        0 <= x < pow10(w),
    ensures
        zero_pad(decimal(x as nat), w) == fixed_digits(x, w),
    decreases w,
{
    let k = choose_digits(x, w);
    lemma_pow10_positive(k);
    lemma_decimal_fixed(x, k);
    lemma_fixed_digits_len(x, k);
    lemma_fixed_digits_widen(x, k, w);
    assert(zero_pad(decimal(x as nat), w) =~= fixed_digits(x, w));
}

/// The number of digits of `x` (at least one), found below `w`.
proof fn choose_digits(x: int, w: nat) -> (k: nat)
    requires
        w >= 1,
        0 <= x < pow10(w),
    ensures
        1 <= k <= w,
        x < pow10(k),
        k == 1 || pow10((k - 1) as nat) <= x,
    decreases w,
{
    lemma_pow10_positive((w - 1) as nat);
    if w == 1 || x >= pow10((w - 1) as nat) {
        w
    } else {
        choose_digits(x, (w - 1) as nat)
    }
}

/// `a` is an earlier (year, month, day) than `b`.
pub open spec fn date_before(a: (int, int, int), b: (int, int, int)) -> bool {
    ||| a.0 < b.0
    ||| a.0 == b.0 && a.1 < b.1
    ||| a.0 == b.0 && a.1 == b.1 && a.2 < b.2
}

/// The year of an era (0 to 399) in which day `doe` of the era falls, the
/// year counted from March.
spec fn year_of_era(doe: int) -> int {
    (doe - doe / 1460 + doe / 36524 - doe / 146096) / 365
}

/// The day of that March-based year (0 to 365).
spec fn day_of_year(doe: int) -> int {
    let yoe = year_of_era(doe);
    doe - (365 * yoe + yoe / 4 - yoe / 100)
}

/// `x / c` grows by one exactly where `x + 1` is a multiple of `c`.
proof fn lemma_div_step(x: int, c: int)
    requires
        x >= 0,
        c > 0,
    ensures
        (x + 1) % c == 0 ==> (x + 1) / c == x / c + 1 && x - (x / c) * c == c - 1,
        (x + 1) % c != 0 ==> (x + 1) / c == x / c && (x + 1) - ((x + 1) / c) * c == x - (x / c)
            * c + 1,
{
    assert((x + 1) % c == 0 ==> (x + 1) / c == x / c + 1 && x - (x / c) * c == c - 1)
        by (nonlinear_arith)
        requires
            x >= 0,
            c > 0,
    ;
    assert((x + 1) % c != 0 ==> (x + 1) / c == x / c && (x + 1) - ((x + 1) / c) * c == x - (x
        / c) * c + 1) by (nonlinear_arith)
        requires
            x >= 0,
            c > 0,
    ;
}

/// The year of the era never goes back from one day to the next.
proof fn lemma_year_of_era_step(doe: int)
    requires
        0 <= doe < 146096,
    ensures
        year_of_era(doe) <= year_of_era(doe + 1),
        0 <= day_of_year(doe) <= 365,
{
    lemma_div_step(doe, 1460);
    lemma_div_step(doe, 36524);
    let g = doe - doe / 1460 + doe / 36524 - doe / 146096;
    let h = (doe + 1) - (doe + 1) / 1460 + (doe + 1) / 36524 - (doe + 1) / 146096;
    if doe + 1 == 146096 {
        assert(h == 145999);
        assert(g == 146095 - 100 + 3);
    } else {
        assert(doe / 146096 == 0 && (doe + 1) / 146096 == 0);
        assert((doe + 1) % 1460 == 0 ==> (doe + 1) % 36524 != 0) by (nonlinear_arith)
            requires
                0 < doe + 1 < 146096,
        ;
    }
    assert(g <= h);
    assert(g / 365 <= h / 365) by (nonlinear_arith)
        requires
            g <= h,
    ;
    assert(0 <= day_of_year(doe) <= 365) by (nonlinear_arith)
        requires
            0 <= doe < 146097,
    ;
}

/// From one day to the next, the month index (March first) never goes
/// back, and within one month the day goes up by one.
proof fn lemma_month_step(doy: int)
    requires
        0 <= doy < 365,
    ensures
        (5 * doy + 2) / 153 <= (5 * (doy + 1) + 2) / 153,
        (5 * doy + 2) / 153 == (5 * (doy + 1) + 2) / 153 ==> (doy + 1) - (153 * ((5 * (doy + 1)
            + 2) / 153) + 2) / 5 + 1 == doy - (153 * ((5 * doy + 2) / 153) + 2) / 5 + 2,
{
    assert((5 * doy + 2) / 153 <= (5 * (doy + 1) + 2) / 153) by (nonlinear_arith)
        requires
            0 <= doy,
    ;
}

/// The calendar date of a day from the March-based year, month index and
/// day.
spec fn date_of(y: int, mp: int, dd: int) -> (int, int, int) {
    if mp < 10 {
        (y, mp + 3, dd)
    } else {
        (y + 1, mp - 9, dd)
    }
}

/// An earlier March-based date is an earlier calendar date.
proof fn lemma_date_of_order(y: int, mp: int, dd: int, y2: int, mp2: int, dd2: int)
    requires
        0 <= mp <= 11,
        0 <= mp2 <= 11,
        date_before((y, mp, dd), (y2, mp2, dd2)),
    ensures
        date_before(date_of(y, mp, dd), date_of(y2, mp2, dd2)),
{
}

/// `civil_from_days` by its parts.
proof fn lemma_civil_parts(days: int)
    ensures
        ({
            let d = days + 719468;
            let era = d / 146097;
            let doe = d - era * 146097;
            let doy = day_of_year(doe);
            let mp = (5 * doy + 2) / 153;
            &&& 0 <= doe < 146097
            &&& 0 <= doy <= 365
            &&& 0 <= mp <= 11
            &&& 1 <= doy - (153 * mp + 2) / 5 + 1 <= 31
            &&& civil_from_days(days) == date_of(
                year_of_era(doe) + era * 400,
                mp,
                doy - (153 * mp + 2) / 5 + 1,
            )
        }),
{
    let d = days + 719468;
    let era = d / 146097;
    let doe = d - era * 146097;
    assert(0 <= doe < 146097) by (nonlinear_arith)
        requires
            era == d / 146097,
            doe == d - era * 146097,
    ;
    assert(era == d / 146097);
    assert(0 <= day_of_year(doe) <= 365) by (nonlinear_arith)
        requires
            0 <= doe < 146097,
    ;
    let doy = day_of_year(doe);
    assert(0 <= (5 * doy + 2) / 153 <= 11) by (nonlinear_arith)
        requires
            0 <= doy <= 365,
    ;
    let mp = (5 * doy + 2) / 153;
    assert(1 <= doy - (153 * mp + 2) / 5 + 1 <= 31) by (nonlinear_arith)
        requires
            0 <= doy <= 365,
            mp == (5 * doy + 2) / 153,
    ;
}

/// Each day's date comes before the next day's.
proof fn lemma_civil_step(days: int)
    requires
        days >= 0,
    ensures
        date_before(civil_from_days(days), civil_from_days(days + 1)),
{
    lemma_civil_parts(days);
    lemma_civil_parts(days + 1);
    let d = days + 719468;
    let era = d / 146097;
    let doe = d - era * 146097;
    let era2 = (d + 1) / 146097;
    let doe2 = (d + 1) - era2 * 146097;
    lemma_div_step(d, 146097);
    let doy = day_of_year(doe);
    let mp = (5 * doy + 2) / 153;
    let dd = doy - (153 * mp + 2) / 5 + 1;
    let doy2 = day_of_year(doe2);
    let mp2 = (5 * doy2 + 2) / 153;
    let dd2 = doy2 - (153 * mp2 + 2) / 5 + 1;
    let y = year_of_era(doe) + era * 400;
    let y2 = year_of_era(doe2) + era2 * 400;
    if (d + 1) % 146097 == 0 {
        assert(doe == 146096);
        assert(doe2 == 0);
        assert(year_of_era(146096) == 399);
        assert(year_of_era(0) == 0);
        assert(y < y2);
    } else {
        assert(doe2 == doe + 1);
        lemma_year_of_era_step(doe);
        if year_of_era(doe) == year_of_era(doe2) {
            assert(doy2 == doy + 1);
            lemma_month_step(doy);
        }
    }
    assert(date_before((y, mp, dd), (y2, mp2, dd2)));
    lemma_date_of_order(y, mp, dd, y2, mp2, dd2);
}

/// Later days have later dates.
pub proof fn lemma_civil_order(a: int, b: int)
    requires
        0 <= a < b,
    ensures
        date_before(civil_from_days(a), civil_from_days(b)),
    decreases b - a,
{
    lemma_civil_step(b - 1);
    if a < b - 1 {
        lemma_civil_order(a, b - 1);
    }
}

/// The hour, minute and second of a second of the day, as the timestamp
/// text computes them.
spec fn clock_of(r: int) -> (int, int, int) {
    (r / 3600, (r - (r / 3600) * 3600) / 60, r - (r / 60) * 60)
}

/// A later second of the day has a later (hour, minute, second).
proof fn lemma_clock_order(r1: int, r2: int)
    requires
        0 <= r1 < r2 < 86400,
    ensures
        date_before(clock_of(r1), clock_of(r2)),
        0 <= clock_of(r2).0 < 24 && 0 <= clock_of(r2).1 < 60 && 0 <= clock_of(r2).2 < 60,
        0 <= clock_of(r1).0 < 24 && 0 <= clock_of(r1).1 < 60 && 0 <= clock_of(r1).2 < 60,
{
    let h1 = r1 / 3600;
    let h2 = r2 / 3600;
    let x1 = r1 - h1 * 3600;
    let x2 = r2 - h2 * 3600;
    assert(0 <= h1 <= h2 < 24 && 0 <= x1 < 3600 && 0 <= x2 < 3600 && (h1 == h2 ==> x1 < x2))
        by (nonlinear_arith)
        requires
            0 <= r1 < r2 < 86400,
            h1 == r1 / 3600,
            h2 == r2 / 3600,
            x1 == r1 - h1 * 3600,
            x2 == r2 - h2 * 3600,
    ;
    assert(r1 - (r1 / 60) * 60 == x1 - (x1 / 60) * 60 && 0 <= x1 / 60 < 60 && 0 <= x1 - (x1 / 60)
        * 60 < 60) by (nonlinear_arith)
        requires
            r1 == h1 * 3600 + x1,
            0 <= x1 < 3600,
            0 <= h1,
    ;
    assert(r2 - (r2 / 60) * 60 == x2 - (x2 / 60) * 60 && 0 <= x2 / 60 < 60 && 0 <= x2 - (x2 / 60)
        * 60 < 60) by (nonlinear_arith)
        requires
            r2 == h2 * 3600 + x2,
            0 <= x2 < 3600,
            0 <= h2,
    ;
    if h1 == h2 {
        assert(x1 / 60 < x2 / 60 || (x1 / 60 == x2 / 60 && x1 - (x1 / 60) * 60 < x2 - (x2 / 60)
            * 60)) by (nonlinear_arith)
            requires
                0 <= x1 < x2,
        ;
    }
}

/// The date part of a timestamp text.
spec fn date_text(c: (int, int, int)) -> Seq<char> {
    fixed_digits(c.0, 4) + "-"@ + fixed_digits(c.1, 2) + "-"@ + fixed_digits(c.2, 2)
}

/// The time part of a timestamp text, from the space on.
spec fn clock_text(c: (int, int, int), millis: int) -> Seq<char> {
    " "@ + fixed_digits(c.0, 2) + ":"@ + fixed_digits(c.1, 2) + ":"@ + fixed_digits(c.2, 2) + "."@
        + fixed_digits(millis, 3)
}

/// Three fixed-width fields with separators sort as the triple they write.
proof fn lemma_fields_order(
    a: (int, int, int),
    b: (int, int, int),
    w0: nat,
    w1: nat,
    w2: nat,
    s1: Seq<char>,
    s2: Seq<char>,
)
    requires
        date_before(a, b),
        0 <= a.0 < pow10(w0) && 0 <= a.1 < pow10(w1) && 0 <= a.2 < pow10(w2),
        0 <= b.0 < pow10(w0) && 0 <= b.1 < pow10(w1) && 0 <= b.2 < pow10(w2),
    ensures
        text_before(
            fixed_digits(a.0, w0) + s1 + fixed_digits(a.1, w1) + s2 + fixed_digits(a.2, w2),
            fixed_digits(b.0, w0) + s1 + fixed_digits(b.1, w1) + s2 + fixed_digits(b.2, w2),
        ),
{
    let fa0 = fixed_digits(a.0, w0);
    let fa1 = fixed_digits(a.1, w1);
    let fa2 = fixed_digits(a.2, w2);
    let fb0 = fixed_digits(b.0, w0);
    let fb1 = fixed_digits(b.1, w1);
    let fb2 = fixed_digits(b.2, w2);
    lemma_fixed_digits_len(a.0, w0);
    lemma_fixed_digits_len(b.0, w0);
    lemma_fixed_digits_len(a.1, w1);
    lemma_fixed_digits_len(b.1, w1);
    assert(fa0 + s1 + fa1 + s2 + fa2 =~= fa0 + (s1 + fa1 + s2 + fa2));
    assert(fb0 + s1 + fb1 + s2 + fb2 =~= fb0 + (s1 + fb1 + s2 + fb2));
    if a.0 < b.0 {
        lemma_fixed_digits_order(a.0, b.0, w0);
        lemma_before_extend(fa0, s1 + fa1 + s2 + fa2, fb0, s1 + fb1 + s2 + fb2);
    } else if a.1 < b.1 {
        lemma_fixed_digits_order(a.1, b.1, w1);
        lemma_before_extend(fa1, s2 + fa2, fb1, s2 + fb2);
        lemma_before_prefix(fa0 + s1, fa1 + (s2 + fa2), fb1 + (s2 + fb2));
        assert(fa0 + s1 + (fa1 + (s2 + fa2)) =~= fa0 + s1 + fa1 + s2 + fa2);
        assert(fa0 + s1 + (fb1 + (s2 + fb2)) =~= fb0 + s1 + fb1 + s2 + fb2);
    } else {
        lemma_fixed_digits_order(a.2, b.2, w2);
        lemma_before_prefix(fa0 + s1 + fa1 + s2, fa2, fb2);
        assert(fa0 + s1 + fa1 + s2 == fb0 + s1 + fb1 + s2);
    }
}

/// The first day counted is 1970-01-01, and day 2932896 is 9999-12-31.
proof fn lemma_civil_ends()
    ensures
        civil_from_days(0) == (1970int, 1int, 1int),
        civil_from_days(2932896) == (9999int, 12int, 31int),
{
    assert(719468int / 146097 == 4);
    assert(135080int / 1460 == 92 && 135080int / 36524 == 3 && 135080int / 146096 == 0);
    assert(134991int / 365 == 369);
    assert(369int / 4 == 92 && 369int / 100 == 3);
    assert(1532int / 153 == 10 && 1532int / 5 == 306);
    assert(3652364int / 146097 == 24);
    assert(146036int / 1460 == 100 && 146036int / 36524 == 3 && 146036int / 146096 == 0);
    assert(145939int / 365 == 399);
    assert(399int / 4 == 99 && 399int / 100 == 3);
    assert(1532int / 153 == 10);
}

/// The millisecond at which the year 10000 begins (`10000-01-01`).
pub open spec fn year_10000_ms() -> int {
    253402300800000
}

/// The timestamp text of an instant from 1970 through the year 9999 is its
/// date followed by its time of day, each field written with fixed width.
proof fn lemma_text_parts(ms: int)
    requires
        0 <= ms < year_10000_ms(),
    ensures
        ({
            let secs = ms / 1000;
            let days = secs / 86400;
            let rem = secs - days * 86400;
            let c = civil_from_days(days);
            &&& 0 <= days <= 2932896
            &&& 0 <= rem < 86400
            &&& 1970 <= c.0 <= 9999 && 1 <= c.1 <= 12 && 1 <= c.2 <= 31
            &&& ms_timestamp_text(ms) == date_text(c) + clock_text(clock_of(rem), ms - secs * 1000)
            &&& date_text(c).len() == 10
            &&& clock_text(clock_of(rem), ms - secs * 1000).len() == 13
        }),
{
    let secs = ms / 1000;
    let millis = ms - secs * 1000;
    let days = secs / 86400;
    let rem = secs - days * 86400;
    assert(0 <= secs && 0 <= millis < 1000 && 0 <= days <= 2932896 && 0 <= rem < 86400)
        by (nonlinear_arith)
        requires
            0 <= ms < 253402300800000,
            secs == ms / 1000,
            millis == ms - secs * 1000,
            days == secs / 86400,
            rem == secs - days * 86400,
    ;
    let c = civil_from_days(days);
    lemma_civil_parts(days);
    lemma_civil_ends();
    if days > 0 {
        lemma_civil_order(0, days);
    }
    if days < 2932896 {
        lemma_civil_order(days, 2932896);
    }
    let k = clock_of(rem);
    if rem > 0 {
        lemma_clock_order(0, rem);
    } else {
        assert(k == (0int, 0int, 0int));
    }
    assert(rem - (rem / 3600) * 3600 >= 0) by (nonlinear_arith)
        requires
            rem >= 0,
    ;
    reveal_with_fuel(pow10, 5);
    lemma_padded_digits(c.0, 4);
    lemma_padded_digits(c.1, 2);
    lemma_padded_digits(c.2, 2);
    lemma_padded_digits(k.0, 2);
    lemma_padded_digits(k.1, 2);
    lemma_padded_digits(k.2, 2);
    lemma_padded_digits(millis, 3);
    lemma_fixed_digits_len(c.0, 4);
    lemma_fixed_digits_len(c.1, 2);
    lemma_fixed_digits_len(c.2, 2);
    lemma_fixed_digits_len(k.0, 2);
    lemma_fixed_digits_len(k.1, 2);
    lemma_fixed_digits_len(k.2, 2);
    lemma_fixed_digits_len(millis, 3);
    reveal_strlit("-");
    reveal_strlit(" ");
    reveal_strlit(":");
    reveal_strlit(".");
    assert(ms_timestamp_text(ms) =~= date_text(c) + clock_text(k, millis));
}

/// A later time of day (second, then millisecond) has a later time text.
proof fn lemma_clock_text_order(ra: int, ma: int, rb: int, mb: int)
    requires
        0 <= ra < 86400,
        0 <= rb < 86400,
        0 <= ma < 1000,
        0 <= mb < 1000,
        ra < rb || (ra == rb && ma < mb),
    ensures
        text_before(clock_text(clock_of(ra), ma), clock_text(clock_of(rb), mb)),
{
    let ka = clock_of(ra);
    let kb = clock_of(rb);
    reveal_with_fuel(pow10, 5);
    let fields_a = fixed_digits(ka.0, 2) + ":"@ + fixed_digits(ka.1, 2) + ":"@ + fixed_digits(
        ka.2,
        2,
    );
    let fields_b = fixed_digits(kb.0, 2) + ":"@ + fixed_digits(kb.1, 2) + ":"@ + fixed_digits(
        kb.2,
        2,
    );
    let msa = "."@ + fixed_digits(ma, 3);
    let msb = "."@ + fixed_digits(mb, 3);
    assert(clock_text(ka, ma) =~= " "@ + (fields_a + msa));
    assert(clock_text(kb, mb) =~= " "@ + (fields_b + msb));
    if ra < rb {
        lemma_clock_order(ra, rb);
        lemma_fields_order(ka, kb, 2, 2, 2, ":"@, ":"@);
        lemma_fixed_digits_len(ka.0, 2);
        lemma_fixed_digits_len(ka.1, 2);
        lemma_fixed_digits_len(ka.2, 2);
        lemma_fixed_digits_len(kb.0, 2);
        lemma_fixed_digits_len(kb.1, 2);
        lemma_fixed_digits_len(kb.2, 2);
        lemma_before_extend(fields_a, msa, fields_b, msb);
    } else {
        lemma_fixed_digits_order(ma, mb, 3);
        lemma_before_prefix("."@, fixed_digits(ma, 3), fixed_digits(mb, 3));
        lemma_before_prefix(fields_a, msa, msb);
    }
    lemma_before_prefix(" "@, fields_a + msa, fields_b + msb);
}

/// Timestamp texts sort as the instants they name: from 1970 through the
/// year 9999, the text of an earlier millisecond comes first in character
/// order (and so in byte order), and every such text has 23 characters, so
/// stored messages ordered by their timestamp text come in the order, to
/// the millisecond, in which they were saved.
pub proof fn law_timestamp_text_order(a: int, b: int)
    requires
        0 <= a < b < year_10000_ms(),
    ensures
        ms_timestamp_text(a).len() == 23,
        ms_timestamp_text(b).len() == 23,
        text_before(ms_timestamp_text(a), ms_timestamp_text(b)),
{
    lemma_text_parts(a);
    lemma_text_parts(b);
    let sa = a / 1000;
    let sb = b / 1000;
    let da = sa / 86400;
    let db = sb / 86400;
    let ra = sa - da * 86400;
    let rb = sb - db * 86400;
    let ma = a - sa * 1000;
    let mb = b - sb * 1000;
    assert(sa <= sb && (sa == sb ==> ma < mb) && 0 <= ma < 1000 && 0 <= mb < 1000)
        by (nonlinear_arith)
        requires
            0 <= a < b,
            sa == a / 1000,
            sb == b / 1000,
            ma == a - sa * 1000,
            mb == b - sb * 1000,
    ;
    assert(da <= db && (da == db ==> ra <= rb && (sa < sb ==> ra < rb))) by (nonlinear_arith)
        requires
            0 <= sa <= sb,
            da == sa / 86400,
            db == sb / 86400,
            ra == sa - da * 86400,
            rb == sb - db * 86400,
    ;
    let ca = civil_from_days(da);
    let cb = civil_from_days(db);
    let ta = clock_text(clock_of(ra), ma);
    let tb = clock_text(clock_of(rb), mb);
    if da < db {
        lemma_civil_order(da, db);
        reveal_with_fuel(pow10, 5);
        lemma_fields_order(ca, cb, 4, 2, 2, "-"@, "-"@);
        lemma_before_extend(date_text(ca), ta, date_text(cb), tb);
    } else {
        lemma_clock_text_order(ra, ma, rb, mb);
        lemma_before_prefix(date_text(ca), ta, tb);
    }
}

/// A leap year of the Gregorian calendar.
pub open spec fn is_leap_year(y: int) -> bool {
    (y % 4 == 0 && y % 100 != 0) || y % 400 == 0
}

/// The number of days in month `m` (1 to 12) of year `y`.
pub open spec fn month_length(y: int, m: int) -> int {
    if m == 2 {
        if is_leap_year(y) {
            29
        } else {
            28
        }
    } else if m == 4 || m == 6 || m == 9 || m == 11 {
        30
    } else {
        31
    }
}

/// The number of days in year `y`.
pub open spec fn year_length(y: int) -> int {
    if is_leap_year(y) {
        366
    } else {
        365
    }
}

/// The days of year `y` before month `m` begins.
pub open spec fn days_before_month(y: int, m: int) -> int
    decreases m,
{
    if m <= 1 {
        0
    } else {
        days_before_month(y, m - 1) + month_length(y, m - 1)
    }
}

/// The days from 1970-01-01 to the first day of year `y` (negative before
/// 1970).
pub open spec fn days_before_year(y: int) -> int
    decreases (if y >= 1970 {
        y - 1970
    } else {
        1970 - y
    }),
{
    if y == 1970 {
        0
    } else if y > 1970 {
        days_before_year(y - 1) + year_length(y - 1)
    } else {
        days_before_year(y + 1) - year_length(y)
    }
}

/// The day a date falls on, counted from 1970-01-01.
pub open spec fn day_number(y: int, m: int, d: int) -> int {
    days_before_year(y) + days_before_month(y, m) + d - 1
}

/// The leap days from year 0 through year `n` (by the Gregorian rule).
spec fn leap_days(n: int) -> int {
    n / 4 - n / 100 + n / 400
}

/// `y / c` goes up by one from `y - 1` exactly where `c` divides `y`.
proof fn lemma_floor_step(y: int, c: int)
    requires
        c > 0,
    ensures
        y / c - (y - 1) / c == (if y % c == 0 {
            1int
        } else {
            0int
        }),
{
    assert(y / c - (y - 1) / c == (if y % c == 0 {
        1int
    } else {
        0int
    })) by (nonlinear_arith)
        requires
            c > 0,
    ;
}

/// A year adds a leap day exactly when it is a leap year.
#[verifier::spinoff_prover]
proof fn lemma_leap_days_step(y: int)
    ensures
        leap_days(y) - leap_days(y - 1) == (if is_leap_year(y) {
            1int
        } else {
            0int
        }),
{
    lemma_floor_step(y, 4);
    lemma_floor_step(y, 100);
    lemma_floor_step(y, 400);
    assert(y % 400 == 0 ==> y % 100 == 0) by (nonlinear_arith);
    assert(y % 100 == 0 ==> y % 4 == 0) by (nonlinear_arith);
}

/// The days before a year, counted in whole years and leap days.
proof fn lemma_days_before_year(y: int)
    ensures
        days_before_year(y) == 365 * (y - 1970) + leap_days(y - 1) - 477,
    decreases (if y >= 1970 {
        y - 1970
    } else {
        1970 - y
    }),
{
    if y == 1970 {
        assert(leap_days(1969) == 477);
    } else if y > 1970 {
        lemma_days_before_year(y - 1);
        lemma_leap_days_step(y - 1);
    } else {
        lemma_days_before_year(y + 1);
        lemma_leap_days_step(y);
    }
}

/// The days before each month, in closed form.
proof fn lemma_days_before_month(y: int, m: int)
    requires
        1 <= m <= 12,
    ensures
        m == 1 ==> days_before_month(y, m) == 0,
        m == 2 ==> days_before_month(y, m) == 31,
        m >= 3 ==> days_before_month(y, m) == (153 * (m - 3) + 2) / 5 + 59 + (if is_leap_year(y) {
            1int
        } else {
            0int
        }),
{
    reveal_with_fuel(days_before_month, 13);
}

/// The leap days of a year within an era of 400 years.
proof fn lemma_leap_days_in_era(era: int, yoe: int)
    requires
        0 <= yoe <= 399,
    ensures
        leap_days(era * 400 + yoe) == 97 * era + yoe / 4 - yoe / 100,
{
    assert((era * 400 + yoe) / 4 == era * 100 + yoe / 4);
    assert((era * 400 + yoe) / 100 == era * 4 + yoe / 100);
    assert((era * 400 + yoe) / 400 == era);
}

/// The last day of a March-based year is a leap day: it falls in a year
/// whose February that follows has 29 days.
proof fn lemma_last_day_is_leap(doe: int)
    requires
        0 <= doe < 146097,
        day_of_year(doe) == 365,
    ensures
        (year_of_era(doe) + 1) % 4 == 0,
        (year_of_era(doe) + 1) % 100 != 0 || year_of_era(doe) == 399,
{
    let yoe = year_of_era(doe);
    assert((yoe + 1) % 4 == 0 && ((yoe + 1) % 100 != 0 || yoe == 399)) by (nonlinear_arith)
        requires
            0 <= doe < 146097,
            yoe == (doe - doe / 1460 + doe / 36524 - doe / 146096) / 365,
            doe - (365 * yoe + yoe / 4 - yoe / 100) == 365,
    ;
}

/// The calendar date of a day counted from 1970-01-01: its month is one
/// of the twelve, its day lies within that month's length, and counting
/// the days up to that date gives back the day it was made from.
pub proof fn law_civil_date_counts_back(days: int)
    ensures
        ({
            let c = civil_from_days(days);
            &&& 1 <= c.1 <= 12
            &&& 1 <= c.2 <= month_length(c.0, c.1)
            &&& day_number(c.0, c.1, c.2) == days
        }),
{
    lemma_civil_parts(days);
    let d = days + 719468;
    let era = d / 146097;
    let doe = d - era * 146097;
    let yoe = year_of_era(doe);
    let doy = day_of_year(doe);
    let mp = (5 * doy + 2) / 153;
    let dd = doy - (153 * mp + 2) / 5 + 1;
    let y = yoe + era * 400;
    let c = civil_from_days(days);
    assert(0 <= yoe <= 399) by (nonlinear_arith)
        requires
            0 <= doe < 146097,
            yoe == (doe - doe / 1460 + doe / 36524 - doe / 146096) / 365,
    ;
    lemma_leap_days_in_era(era, yoe);
    lemma_leap_days_step(y);
    lemma_days_before_month(c.0, c.1);
    if mp < 10 {
        lemma_days_before_year(y);
    } else {
        lemma_days_before_year(y + 1);
    }
    assert(day_number(c.0, c.1, c.2) == days);
    assert(dd <= month_length(c.0, c.1)) by {
        if mp == 11 {
            if doy == 365 {
                lemma_last_day_is_leap(doe);
                assert(is_leap_year(y + 1));
            }
        }
    }
}

} // verus!
