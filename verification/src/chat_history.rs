//! Stored chat history: its rows, the repair of messages that were saved
//! in the same second, millisecond timestamps, and achievements.
use vstd::prelude::*;
use crate::ai_service::trim_end_char;
use crate::text::{
    chars_of, decimal, decimal_chars, signed_padded, signed_padded_chars, string_of, str_equals,
    append_chars, zero_pad, zero_pad_exec,
};

verus! {

/// A stored chat message.
#[derive(Clone, Debug)]
pub struct ChatMessageRow {
    pub id: String,
    pub ghost_id: String,
    pub role: String,
    pub content: String,
    pub created_at: String,
}

/// A stored dream.
#[derive(Clone, Debug)]
pub struct DreamRow {
    pub id: String,
    pub ghost_id: String,
    pub summary: String,
    pub memory_snippet: Option<String>,
    pub dream_type: String,
    pub created_at: String,
}

/// An unlocked achievement.
#[derive(Clone, Debug)]
pub struct AchievementRow {
    pub id: String,
    pub ghost_id: String,
    pub achievement_key: String,
    pub unlocked_at: String,
}

/// A diary entry.
#[derive(Clone, Debug)]
pub struct DiaryRow {
    pub id: String,
    pub ghost_id: String,
    pub summary: String,
    pub entry_date: String,
    pub created_at: String,
}

/// An imported document and its summary.
#[derive(Clone, Debug)]
pub struct DocumentKnowledgeRow {
    pub id: String,
    pub title: String,
    pub file_path: String,
    pub file_type: String,
    pub word_count: i64,
    pub summary_json: Option<String>,
    pub full_text: Option<String>,
    pub import_status: String,
    pub error_message: Option<String>,
    pub created_at: String,
    pub updated_at: String,
}

/// A timestamp without fractional seconds (no `.`).
pub open spec fn low_precision(ts: Seq<char>) -> bool {
    !ts.contains('.')
}

/// The order of roles within one second: user, assistant, system, others.
pub open spec fn role_priority(role: Seq<char>) -> nat {
    if role == "user"@ {
        0
    } else if role == "assistant"@ {
        1
    } else if role == "system"@ {
        2
    } else {
        3
    }
}

/// The last index of the run that starts at `i`: the following rows that
/// share row `i`'s low-precision timestamp.
pub open spec fn run_end(rows: Seq<ChatMessageRow>, i: int, j: int) -> int
    decreases rows.len() - j,
{
    if 0 <= j && j + 1 < rows.len() && low_precision(rows[j + 1].created_at@) && rows[j
        + 1].created_at@ == rows[i].created_at@ {
        run_end(rows, i, j + 1)
    } else {
        j
    }
}

/// The rows of `g` whose role has priority `p`, in their order.
pub open spec fn with_priority(g: Seq<ChatMessageRow>, p: nat) -> Seq<ChatMessageRow>
    decreases g.len(),
{
    if g.len() == 0 {
        seq![]
    } else {
        let rest = with_priority(g.drop_last(), p);
        if role_priority(g.last().role@) == p {
            rest.push(g.last())
        } else {
            rest
        }
    }
}

/// A run of same-second rows in repaired order: by role priority, keeping
/// the stored order among equal roles (a stable sort by priority).
pub open spec fn ordered_run(g: Seq<ChatMessageRow>) -> Seq<ChatMessageRow> {
    with_priority(g, 0) + with_priority(g, 1) + with_priority(g, 2) + with_priority(g, 3)
}

/// The new timestamps of a run: the `k`-th row of the repaired order gets
/// its timestamp (trailing spaces dropped) followed by `.` and `k` padded
/// with zeros to three digits (`.000`, `.001`, ...).
pub open spec fn run_updates(g: Seq<ChatMessageRow>) -> Seq<(Seq<char>, Seq<char>)> {
    let o = ordered_run(g);
    Seq::new(
        o.len(),
        |k: int| (o[k].id@, trim_end_char(o[k].created_at@, ' ') + "."@ + zero_pad(decimal(k as nat), 3)),
    )
}

/// The timestamp updates that repair the rows from index `i` on: every run
/// of two or more rows sharing a low-precision timestamp is re-stamped.
pub open spec fn repair_plan(rows: Seq<ChatMessageRow>, i: int) -> Seq<(Seq<char>, Seq<char>)>
    decreases rows.len() - i,
{
    if i < 0 || i >= rows.len() {
        seq![]
    } else if !low_precision(rows[i].created_at@) {
        repair_plan(rows, i + 1)
    } else {
        let j = run_end(rows, i, i);
        proof {
            lemma_run_end_bounds(rows, i, i);
        }
        (if j > i {
            run_updates(rows.subrange(i, j + 1))
        } else {
            seq![]
        }) + repair_plan(rows, j + 1)
    }
}

/// A run ends within the rows, at or after where it was extended from.
pub proof fn lemma_run_end_bounds(rows: Seq<ChatMessageRow>, i: int, j: int)
    requires
        0 <= j < rows.len(),
    ensures
        j <= run_end(rows, i, j) < rows.len(),
    decreases rows.len() - j,
{
    if j + 1 < rows.len() && low_precision(rows[j + 1].created_at@) && rows[j + 1].created_at@
        == rows[i].created_at@ {
        lemma_run_end_bounds(rows, i, j + 1);
    }
}

/// The updates of the rows from index `i` on give fractional timestamps.
proof fn lemma_plan_stamps_precise(rows: Seq<ChatMessageRow>, i: int)
    ensures
        forall|k: int|
            0 <= k < repair_plan(rows, i).len() ==> !low_precision(#[trigger] repair_plan(rows, i)[k].1),
    decreases rows.len() - i,
{
    reveal_strlit(".");
    if 0 <= i < rows.len() {
        if !low_precision(rows[i].created_at@) {
            lemma_plan_stamps_precise(rows, i + 1);
        } else {
            let j = run_end(rows, i, i);
            lemma_run_end_bounds(rows, i, i);
            lemma_plan_stamps_precise(rows, j + 1);
            let head = if j > i {
                run_updates(rows.subrange(i, j + 1))
            } else {
                seq![]
            };
            let plan = repair_plan(rows, i);
            assert(plan == head + repair_plan(rows, j + 1));
            assert forall|k: int| 0 <= k < plan.len() implies !low_precision(#[trigger] plan[k].1) by {
                if k < head.len() {
                    let o = ordered_run(rows.subrange(i, j + 1));
                    let stamp = trim_end_char(o[k].created_at@, ' ') + "."@ + zero_pad(decimal(k as nat), 3);
                    assert(plan[k].1 == stamp);
                    let n = trim_end_char(o[k].created_at@, ' ').len();
                    assert(stamp[n as int] == '.');
                } else {
                    assert(plan[k] == repair_plan(rows, j + 1)[k - head.len()]);
                }
            }
        }
    }
}

/// Re-stamped messages are no longer taken for same-second ones: every
/// timestamp the repair writes has fractional seconds, so a second repair
/// leaves those messages alone.
pub proof fn law_repaired_stamps_precise(rows: Seq<ChatMessageRow>)
    ensures
        forall|k: int|
            0 <= k < repair_plan(rows, 0).len() ==> !low_precision(#[trigger] repair_plan(rows, 0)[k].1),
{
    lemma_plan_stamps_precise(rows, 0);
}

/// The views of the updates.
pub open spec fn update_views(u: Seq<(String, String)>) -> Seq<(Seq<char>, Seq<char>)> {
    u.map_values(|x: (String, String)| (x.0@, x.1@))
}

fn contains_char_exec(s: &str, c: char) -> (b: bool)
    ensures
        b == s@.contains(c),
{
    let cs = chars_of(s);
    let mut i: usize = 0;
    while i < cs.len()
        invariant
            i <= cs@.len(),
            cs@ == s@,
            forall|k: int| 0 <= k < i ==> cs@[k] != c,
        decreases cs@.len() - i,
    {
        if cs[i] == c {
            return true;
        }
        i = i + 1;
    }
    false
}

fn role_priority_exec(role: &str) -> (p: u8)
    ensures
        p == role_priority(role@),
{
    if str_equals(role, "user") {
        0
    } else if str_equals(role, "assistant") {
        1
    } else if str_equals(role, "system") {
        2
    } else {
        3
    }
}

/// The rows of `g` ordered by the priorities below `p`.
pub open spec fn prefix_order(g: Seq<ChatMessageRow>, p: nat) -> Seq<ChatMessageRow>
    decreases p,
{
    if p == 0 {
        seq![]
    } else {
        prefix_order(g, (p - 1) as nat) + with_priority(g, (p - 1) as nat)
    }
}

/// The rows that the indices pick out.
pub open spec fn picked(rows: Seq<ChatMessageRow>, idx: Seq<usize>) -> Seq<ChatMessageRow> {
    idx.map_values(|m: usize| rows[m as int])
}

/// The indices of the run `rows[i..=j]` in repaired order.
fn order_run(rows: &Vec<ChatMessageRow>, i: usize, j: usize) -> (ord: Vec<usize>)
    requires
        i <= j < rows@.len(),
    ensures
        picked(rows@, ord@) == ordered_run(rows@.subrange(i as int, j + 1)),
        forall|k: int| 0 <= k < ord@.len() ==> i <= #[trigger] ord@[k] <= j,
{
    let ghost g = rows@.subrange(i as int, j + 1);
    let mut ord: Vec<usize> = Vec::new();
    let mut p: u8 = 0;
    while p < 4
        invariant
            p <= 4,
            i <= j < rows@.len(),
            g == rows@.subrange(i as int, j + 1),
            picked(rows@, ord@) == prefix_order(g, p as nat),
            forall|k: int| 0 <= k < ord@.len() ==> i <= #[trigger] ord@[k] <= j,
            rows@.len() == rows.len(),
        decreases 4 - p,
    {
        let mut m: usize = i;
        assert(g.take(0) =~= Seq::<ChatMessageRow>::empty());
        assert(prefix_order(g, p as nat) + with_priority(g.take(0), p as nat) =~= prefix_order(g, p as nat));
        while m <= j
            invariant
                i <= m <= j + 1,
                j < rows@.len(),
                g == rows@.subrange(i as int, j + 1),
                picked(rows@, ord@) == prefix_order(g, p as nat) + with_priority(
                    g.take(m - i),
                    p as nat,
                ),
                forall|k: int| 0 <= k < ord@.len() ==> i <= #[trigger] ord@[k] <= j,
                rows@.len() == rows.len(),
            decreases j + 1 - m,
        {
            proof {
                assert(g.take(m + 1 - i).drop_last() =~= g.take(m - i));
                assert(g.take(m + 1 - i).last() == rows@[m as int]);
            }
            if role_priority_exec(rows[m].role.as_str()) == p {
                assert(picked(rows@, ord@.push(m)) =~= picked(rows@, ord@).push(rows@[m as int]));
                ord.push(m);
            }
            m = m + 1;
        }
        assert(g.take(j + 1 - i) =~= g);
        p = p + 1;
    }
    assert(prefix_order(g, 4) =~= with_priority(g, 0) + with_priority(g, 1) + with_priority(g, 2)
        + with_priority(g, 3)) by {
        reveal_with_fuel(prefix_order, 5);
    }
    ord
}

/// Appends to `out` the updates of the run `rows[i..=j]`.
fn plan_run(rows: &Vec<ChatMessageRow>, i: usize, j: usize, out: &mut Vec<(String, String)>)
    requires
        i <= j < rows@.len(),
    ensures
        update_views(final(out)@) == update_views(old(out)@) + run_updates(
            rows@.subrange(i as int, j + 1),
        ),
{
    let ghost g = rows@.subrange(i as int, j + 1);
    let ord = order_run(rows, i, j);
    let ghost o = ordered_run(g);
    let mut k: usize = 0;
    while k < ord.len()
        invariant
            k <= ord@.len(),
            i <= j < rows@.len(),
            g == rows@.subrange(i as int, j + 1),
            o == ordered_run(g),
            picked(rows@, ord@) == o,
            forall|q: int| 0 <= q < ord@.len() ==> i <= #[trigger] ord@[q] <= j,
            update_views(out@) == update_views(old(out)@) + run_updates(g).take(k as int),
        decreases ord@.len() - k,
    {
        let idx = ord[k];
        assert(picked(rows@, ord@)[k as int] == rows@[idx as int]);
        let id = rows[idx].id.clone();
        let ts_chars = chars_of(rows[idx].created_at.as_str());
        let trimmed = crate::ai_service::trim_end_char_exec(&ts_chars, ' ');
        let mut ts = string_of(&trimmed);
        ts.append(".");
        let digits = zero_pad_exec(decimal_chars(k as u64), 3);
        ts.append(string_of(&digits).as_str());
        proof {
            assert(run_updates(g).take(k + 1) =~= run_updates(g).take(k as int).push(
                (id@, ts@),
            ));
            assert(update_views(out@.push((id, ts))) =~= update_views(out@).push((id@, ts@)));
        }
        out.push((id, ts));
        k = k + 1;
    }
    assert(run_updates(g).take(ord@.len() as int) =~= run_updates(g));
}

/// The timestamp updates `(id, new timestamp)` that put the stored chat
/// history back in order: rows saved within the same second (timestamps
/// without fractions) are ordered user, assistant, system, keeping their
/// stored order among equal roles, and re-stamped `<timestamp>.<k>` with `k`
/// padded to three digits (`.000`, `.001`, ...). The
/// rows come ordered by timestamp, then id.
pub fn plan_chat_order_repair(rows: &Vec<ChatMessageRow>) -> (u: Vec<(String, String)>)
    ensures
        update_views(u@) == repair_plan(rows@, 0),
{
    let mut out: Vec<(String, String)> = Vec::new();
    let mut i: usize = 0;
    while i < rows.len()
        invariant
            i <= rows@.len(),
            update_views(out@) + repair_plan(rows@, i as int) == repair_plan(rows@, 0),
        decreases rows@.len() - i,
    {
        if !contains_char_exec(rows[i].created_at.as_str(), '.') {
            let mut j: usize = i;
            while j + 1 < rows.len() && !contains_char_exec(rows[j + 1].created_at.as_str(), '.')
                && str_equals(rows[j + 1].created_at.as_str(), rows[i].created_at.as_str())
                invariant
                    i <= j < rows@.len(),
                    rows@.len() == rows.len(),
                    low_precision(rows@[i as int].created_at@),
                    run_end(rows@, i as int, i as int) == run_end(rows@, i as int, j as int),
                decreases rows@.len() - j,
            {
                j = j + 1;
            }
            let ghost before = update_views(out@);
            if j > i {
                plan_run(rows, i, j, &mut out);
            }
            proof {
                assert(run_end(rows@, i as int, j as int) == j);
                assert(before + ((if j > i {
                    run_updates(rows@.subrange(i as int, j + 1))
                } else {
                    seq![]
                }) + repair_plan(rows@, j + 1)) =~= update_views(out@) + repair_plan(rows@, j + 1));
            }
            i = j + 1;
        } else {
            i = i + 1;
        }
    }
    assert(update_views(out@) + repair_plan(rows@, i as int) =~= update_views(out@));
    out
}

/// The civil date (year, month, day) of a day counted from 1970-01-01, in
/// the proleptic Gregorian calendar (days before the epoch are negative).
pub open spec fn civil_from_days(days: int) -> (int, int, int) {
    let d = days + 719468;
    let era = d / 146097;
    let doe = d - era * 146097;
    let yoe = (doe - doe / 1460 + doe / 36524 - doe / 146096) / 365;
    let y = yoe + era * 400;
    let doy = doe - (365 * yoe + yoe / 4 - yoe / 100);
    let mp = (5 * doy + 2) / 153;
    let m = if mp < 10 {
        mp + 3
    } else {
        mp - 9
    };
    let yy = if m <= 2 {
        y + 1
    } else {
        y
    };
    let dd = doy - (153 * mp + 2) / 5 + 1;
    (yy, m, dd)
}

/// The calendar date (year, month, day) of a day counted from 1970-01-01:
/// the date whose day number is `days`.
pub fn days_to_ymd(days: i64) -> (r: (i64, i64, i64))
    requires
        days <= i64::MAX - 719468,
    ensures
        (r.0 as int, r.1 as int, r.2 as int) == civil_from_days(days as int),
        1 <= r.1 <= 12,
        1 <= r.2 <= crate::stamp_order::month_length(r.0 as int, r.1 as int),
        crate::stamp_order::day_number(r.0 as int, r.1 as int, r.2 as int) == days,
{
    proof {
        crate::stamp_order::law_civil_date_counts_back(days as int);
    }
    let d: i64 = days + 719468;
    let era: i64 = if d >= 0 {
        ((d as u64) / 146097) as i64
    } else {
        -(((146096 - d) as u64 / 146097) as i64)
    };
    proof {
        if d < 0 {
            assert(era == d / 146097) by (nonlinear_arith)
                requires
                    d < 0,
                    era == -((146096 - d) / 146097),
            ;
        }
    }
    let doe: i64 = d - era * 146097;
    assert(0 <= doe < 146097) by (nonlinear_arith)
        requires
            era == d / 146097,
            doe == d - era * 146097,
    ;
    let yoe: i64 = (doe - doe / 1460 + doe / 36524 - doe / 146096) / 365;
    assert(0 <= yoe <= 399) by (nonlinear_arith)
        requires
            0 <= doe < 146097,
            yoe == (doe - doe / 1460 + doe / 36524 - doe / 146096) / 365,
    ;
    let y: i64 = yoe + era * 400;
    let doy: i64 = doe - (365 * yoe + yoe / 4 - yoe / 100);
    assert(0 <= doy <= 365) by (nonlinear_arith)
        requires
            0 <= doe < 146097,
            yoe == (doe - doe / 1460 + doe / 36524 - doe / 146096) / 365,
            doy == doe - (365 * yoe + yoe / 4 - yoe / 100),
    ;
    let mp: i64 = (5 * doy + 2) / 153;
    let m: i64 = if mp < 10 {
        mp + 3
    } else {
        mp - 9
    };
    let yy: i64 = if m <= 2 {
        y + 1
    } else {
        y
    };
    let dd: i64 = doy - (153 * mp + 2) / 5 + 1;
    assert(1 <= dd <= 31) by (nonlinear_arith)
        requires
            0 <= doy <= 365,
            mp == (5 * doy + 2) / 153,
            dd == doy - (153 * mp + 2) / 5 + 1,
    ;
    (yy, m, dd)
}

/// `n` rounded towards zero after division by `q`, and the remainder with
/// the sign of `n`, as Rust's `/` and `%` give them.
pub open spec fn rem_toward_zero(n: int, q: int) -> int {
    n - crate::clock::div_toward_zero(n, q) * q
}

/// A millisecond timestamp as `YYYY-MM-DD HH:MM:SS.mmm` (UTC), each field
/// zero-padded as `format!` pads signed numbers.
pub open spec fn ms_timestamp_text(ms: int) -> Seq<char> {
    let secs = crate::clock::div_toward_zero(ms, 1000);
    let millis = rem_toward_zero(ms, 1000);
    let days = crate::clock::div_toward_zero(secs, 86400);
    let rem_secs = rem_toward_zero(secs, 86400);
    let h = crate::clock::div_toward_zero(rem_secs, 3600);
    let mi = crate::clock::div_toward_zero(rem_toward_zero(rem_secs, 3600), 60);
    let s = rem_toward_zero(rem_secs, 60);
    let c = civil_from_days(days);
    signed_padded(c.0, 4) + "-"@ + signed_padded(c.1, 2) + "-"@ + signed_padded(c.2, 2) + " "@
        + signed_padded(h, 2) + ":"@ + signed_padded(mi, 2) + ":"@ + signed_padded(s, 2) + "."@
        + signed_padded(millis, 3)
}

fn tdiv(n: i64, q: i64) -> (r: i64)
    requires
        q > 0,
        n > i64::MIN,
    ensures
        r == crate::clock::div_toward_zero(n as int, q as int),
{
    if n >= 0 {
        n / q
    } else {
        -((-n) / q)
    }
}

fn trem(n: i64, q: i64) -> (r: i64)
    requires
        q > 0,
        n > i64::MIN,
    ensures
        r == rem_toward_zero(n as int, q as int),
        -q < r < q,
{
    let d: i64 = tdiv(n, q);
    assert(-q < n - d * q < q && (n >= 0 ==> 0 <= d * q <= n) && (n < 0 ==> n <= d * q <= 0))
        by (nonlinear_arith)
        requires
            q > 0,
            d == crate::clock::div_toward_zero(n as int, q as int),
    ;
    let p: i64 = d * q;
    n - p
}

/// Formats a millisecond Unix timestamp as `YYYY-MM-DD HH:MM:SS.mmm` (UTC),
/// so that messages saved within one second still sort by time.
pub fn format_ms_iso8601(ms: i64) -> (s: String)
    requires
        ms > i64::MIN,
    ensures
        s@ == ms_timestamp_text(ms as int),
{
    let secs = tdiv(ms, 1000);
    let millis = trem(ms, 1000);
    assert(-0x100_0000_0000 <= secs / 86400 <= 0x100_0000_0000) by (nonlinear_arith)
        requires
            secs == crate::clock::div_toward_zero(ms as int, 1000),
    ;
    let days = tdiv(secs, 86400);
    let rem_secs = trem(secs, 86400);
    let h = tdiv(rem_secs, 3600);
    let mi = tdiv(trem(rem_secs, 3600), 60);
    let sec = trem(rem_secs, 60);
    let (y, m, d) = days_to_ymd(days);
    let mut out: Vec<char> = signed_padded_chars(y, 4);
    out.push('-');
    append_chars(&mut out, &signed_padded_chars(m, 2));
    out.push('-');
    append_chars(&mut out, &signed_padded_chars(d, 2));
    out.push(' ');
    append_chars(&mut out, &signed_padded_chars(h, 2));
    out.push(':');
    append_chars(&mut out, &signed_padded_chars(mi, 2));
    out.push(':');
    append_chars(&mut out, &signed_padded_chars(sec, 2));
    out.push('.');
    append_chars(&mut out, &signed_padded_chars(millis, 3));
    proof {
        reveal_strlit("-");
        reveal_strlit(" ");
        reveal_strlit(":");
        reveal_strlit(".");
    }
    assert(out@ =~= ms_timestamp_text(ms as int));
    string_of(&out)
}

} // verus!
