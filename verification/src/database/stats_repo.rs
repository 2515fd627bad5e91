//! Statistics: focus time and completed tasks per local day, focus time per task,
//! the task overview and the recently completed tasks.
use crate::database::db::{self, SqlParam, SqlValue, params_view, pint, spec_int, spec_opt_int, spec_opt_text, spec_text};
use crate::database::task_query::opt_parse_rfc3339;
use crate::text::str_eq;
use crate::time::{Instant, instant_before, spec_parse_rfc3339};
use vstd::prelude::*;

verus! {

/// Focus of one local day.
#[derive(Debug, Clone)]
pub struct FocusDayStat {
    pub date: String,
    pub focus_seconds: i64,
    pub sessions: i64,
}

/// Tasks completed on one local day.
#[derive(Debug, Clone)]
pub struct TaskDayStat {
    pub date: String,
    pub completed: i64,
}

/// Counts over all tasks.
#[derive(Debug, Clone)]
pub struct TaskOverview {
    pub total: i64,
    pub completed: i64,
    pub pending: i64,
    pub overdue: i64,
    pub completed_late: i64,
}

/// A recently completed task.
#[derive(Debug, Clone)]
pub struct RecentTask {
    pub id: i64,
    pub title: String,
    pub completed_at: Option<String>,
    pub due_at: Option<String>,
    pub late: bool,
}

/// Focus time on one task (or on none).
#[derive(Debug, Clone)]
pub struct TaskFocusStat {
    pub task_id: Option<i64>,
    pub title: Option<String>,
    pub focus_seconds: i64,
    pub sessions: i64,
}

/// The number of days a range covers: 1 to 366.
pub open spec fn spec_range_days(days: i64) -> int {
    if days < 1 { 1 } else if days > 366 { 366 } else { days as int }
}

/// The days of a range ending today, oldest first: the first day, and all of them.
pub fn day_range_from(today: i32, days: i64) -> (r: (i32, Vec<i32>))
    requires
        crate::time::day_in_range(today),
    ensures
        r.0 == today - (spec_range_days(days) - 1),
        r.1.len() == spec_range_days(days),
        forall|i: int| 0 <= i < r.1.len() ==> #[trigger] r.1@[i] == r.0 + i,
{
    let n: i32 = if days < 1 { 1 } else if days > 366 { 366 } else { days as i32 };
    let start = today - (n - 1);
    let mut dates: Vec<i32> = Vec::new();
    let mut i: i32 = 0;
    while i < n
        invariant
            1 <= n <= 366,
            crate::time::day_in_range(today),
            start == today - (n - 1),
            0 <= i <= n,
            dates.len() == i,
            forall|k: int| 0 <= k < i ==> #[trigger] dates@[k] == start + k,
        decreases n - i,
    {
        dates.push(start + i);
        i += 1;
    }
    (start, dates)
}

/// The position of a day in a range of `len` days from `start`, if it lies in it.
pub fn bucket_index(len: usize, start: i32, day: i32) -> (r: Option<usize>)
    ensures
        r matches Some(k) ==> k < len && day == start + k,
        r is None <==> !(start <= day < start + len),
{
    let offset: i64 = day as i64 - start as i64;
    if offset >= 0 && (offset as u64) < (len as u64) {
        Some(offset as usize)
    } else {
        None
    }
}

/// Seconds of the entries that fall on a day.
pub open spec fn seconds_on(entries: Seq<(Option<i32>, i64)>, day: int) -> int
    decreases entries.len(),
{
    if entries.len() == 0 {
        0
    } else {
        seconds_on(entries.drop_last(), day) + (if entries.last().0 == Some(day as i32) && i32::MIN <= day <= i32::MAX { entries.last().1 as int } else { 0 })
    }
}

/// Number of the entries that fall on a day.
pub open spec fn count_on(entries: Seq<(Option<i32>, i64)>, day: int) -> int
    decreases entries.len(),
{
    if entries.len() == 0 {
        0
    } else {
        count_on(entries.drop_last(), day) + (if entries.last().0 == Some(day as i32) && i32::MIN <= day <= i32::MAX { 1int } else { 0 })
    }
}

/// Sum of the magnitudes of the entries' seconds.
pub open spec fn abs_total(entries: Seq<(Option<i32>, i64)>) -> int
    decreases entries.len(),
{
    if entries.len() == 0 {
        0
    } else {
        abs_total(entries.drop_last()) + (if entries.last().1 < 0 { -(entries.last().1 as int) } else { entries.last().1 as int })
    }
}

proof fn lemma_abs_total_prefix(entries: Seq<(Option<i32>, i64)>, i: int)
    requires
        0 <= i <= entries.len(),
    ensures
        abs_total(entries.take(i)) <= abs_total(entries),
        0 <= abs_total(entries.take(i)),
    decreases entries.len() - i,
{
    if i < entries.len() {
        lemma_abs_total_prefix(entries, i + 1);
        assert(entries.take(i + 1).drop_last() =~= entries.take(i));
        lemma_abs_total_nonneg(entries.take(i));
    } else {
        assert(entries.take(i) =~= entries);
        lemma_abs_total_nonneg(entries);
    }
}

proof fn lemma_abs_total_nonneg(entries: Seq<(Option<i32>, i64)>)
    ensures
        0 <= abs_total(entries),
    decreases entries.len(),
{
    if entries.len() > 0 {
        lemma_abs_total_nonneg(entries.drop_last());
    }
}

proof fn lemma_on_bounds(entries: Seq<(Option<i32>, i64)>, day: int)
    ensures
        -abs_total(entries) <= seconds_on(entries, day) <= abs_total(entries),
        0 <= count_on(entries, day) <= entries.len(),
    decreases entries.len(),
{
    if entries.len() > 0 {
        lemma_on_bounds(entries.drop_last(), day);
    }
}

/// Per day of the range `start..start + n`: the seconds and the number of entries on it.
pub fn bucket_by_day(start: i32, n: usize, entries: &Vec<(Option<i32>, i64)>) -> (r: Vec<(i64, i64)>)
    requires
        abs_total(entries@) <= i64::MAX,
        entries.len() < i64::MAX,
    ensures
        r.len() == n,
        forall|k: int| 0 <= k < n ==> (#[trigger] r@[k]).0 == seconds_on(entries@, start + k) && r@[k].1 == count_on(entries@, start + k),
{
    let mut b: Vec<(i64, i64)> = Vec::new();
    let mut k: usize = 0;
    while k < n
        invariant
            k <= n,
            b.len() == k,
            forall|m: int| 0 <= m < k ==> #[trigger] b@[m] == (0i64, 0i64),
        decreases n - k,
    {
        b.push((0, 0));
        k += 1;
    }
    let mut i: usize = 0;
    while i < entries.len()
        invariant
            abs_total(entries@) <= i64::MAX,
            entries.len() < i64::MAX,
            i <= entries.len(),
            b.len() == n,
            forall|m: int| 0 <= m < n ==> (#[trigger] b@[m]).0 == seconds_on(entries@.take(i as int), start + m) && b@[m].1 == count_on(entries@.take(i as int), start + m),
        decreases entries.len() - i,
    {
        proof {
            assert(entries@.take(i + 1).drop_last() =~= entries@.take(i as int));
            lemma_abs_total_prefix(entries@, i + 1);
        }
        let (day, secs) = entries[i];
        if let Some(d) = day {
            if let Some(idx) = bucket_index(n, start, d) {
                proof {
                    lemma_on_bounds(entries@.take(i + 1), start + idx);
                }
                let (s, c) = b[idx];
                b.set(idx, (s + secs, c + 1));
            }
        }
        i += 1;
    }
    assert(entries@.take(entries.len() as int) =~= entries@);
    b
}

/// Labels of the days of a range, as `YYYY-MM-DD`.
fn day_labels(dates: &Vec<i32>) -> (r: Option<Vec<String>>)
    ensures
        r matches Some(v) ==> v.len() == dates.len() && forall|i: int| 0 <= i < v.len() ==> (#[trigger] v@[i])@ == crate::time::day_label(dates@[i]),
        (forall|i: int| 0 <= i < dates.len() ==> crate::time::day_formattable(#[trigger] dates@[i])) ==> r is Some,
{
    let mut out: Vec<String> = Vec::new();
    let mut i: usize = 0;
    while i < dates.len()
        invariant
            i <= dates.len(),
            out.len() == i,
            forall|k: int| 0 <= k < i ==> (#[trigger] out@[k])@ == crate::time::day_label(dates@[k]),
        decreases dates.len() - i,
    {
        let label = crate::time::format_day(dates[i], crate::time::DAY_FORMAT)?;
        out.push(label);
        i += 1;
    }
    Some(out)
}

/// The (stamp, value) a row holds: a text stamp, then an integer value when
/// `with_value` (else the value 1); `None` for a row that holds no such pair.
pub open spec fn row_entry(row: Seq<SqlValue>, with_value: bool) -> Option<(Seq<char>, i64)> {
    if row.len() > 0 && spec_text(row[0]) is Some {
        let stamp = spec_text(row[0])->Some_0;
        if !with_value {
            Some((stamp, 1i64))
        } else if row.len() > 1 && spec_int(row[1]) is Some {
            Some((stamp, spec_int(row[1])->Some_0))
        } else {
            None
        }
    } else {
        None
    }
}

/// Every row holds an entry.
pub open spec fn rows_hold_entries(rows: Seq<Vec<SqlValue>>, with_value: bool) -> bool {
    forall|k: int| 0 <= k < rows.len() ==> (#[trigger] row_entry(rows[k]@, with_value)) is Some
}

/// `e` is the entry of the row entry `re`: the same value, and a local day exactly
/// when the stamp parses.
pub open spec fn entry_of(re: (Seq<char>, i64), e: (Option<i32>, i64)) -> bool {
    &&& e.1 == re.1
    &&& (e.0 is Some <==> spec_parse_rfc3339(re.0) is Some)
    &&& (e.0 matches Some(d) ==> crate::time::day_in_range(d))
}

/// `es` are the entries of the rows, one per row in order.
pub open spec fn entries_of_rows(rows: Seq<Vec<SqlValue>>, with_value: bool, es: Seq<(Option<i32>, i64)>) -> bool {
    &&& es.len() == rows.len()
    &&& forall|i: int| 0 <= i < rows.len() ==> entry_of(row_entry(rows[i]@, with_value)->Some_0, #[trigger] es[i])
}

/// Sum of the magnitudes of the rows' values.
pub open spec fn values_total(rows: Seq<Vec<SqlValue>>, with_value: bool) -> int
    decreases rows.len(),
{
    if rows.len() == 0 {
        0
    } else {
        let v = row_entry(rows.last()@, with_value)->Some_0.1;
        values_total(rows.drop_last(), with_value) + (if v < 0 { -(v as int) } else { v as int })
    }
}

/// The entries' magnitudes are the rows' values' magnitudes.
proof fn lemma_abs_total_values(rows: Seq<Vec<SqlValue>>, with_value: bool, es: Seq<(Option<i32>, i64)>)
    requires
        entries_of_rows(rows, with_value, es),
    ensures
        abs_total(es) == values_total(rows, with_value),
    decreases rows.len(),
{
    if rows.len() > 0 {
        let r2 = rows.drop_last();
        let e2 = es.drop_last();
        assert(entries_of_rows(r2, with_value, e2)) by {
            assert forall|i: int| 0 <= i < r2.len() implies entry_of(row_entry(r2[i]@, with_value)->Some_0, #[trigger] e2[i]) by {
                assert(entry_of(row_entry(rows[i]@, with_value)->Some_0, es[i]));
            }
        }
        lemma_abs_total_values(r2, with_value, e2);
        assert(entry_of(row_entry(rows[rows.len() - 1]@, with_value)->Some_0, es[es.len() - 1]));
    }
}

/// The entries (local day, value) of rows of (stamp, value), one per row in order;
/// stamps that do not parse get no day. `None` when a row does not hold a text stamp
/// (and, with `with_value`, an integer).
fn day_entries(rows: &Vec<Vec<SqlValue>>, with_value: bool) -> (r: Option<Vec<(Option<i32>, i64)>>)
    ensures
        r is Some <==> rows_hold_entries(rows@, with_value),
        r matches Some(v) ==> entries_of_rows(rows@, with_value, v@),
{
    let mut out: Vec<(Option<i32>, i64)> = Vec::new();
    let mut i: usize = 0;
    while i < rows.len()
        invariant
            i <= rows.len(),
            out.len() == i,
            forall|k: int| 0 <= k < i ==> (#[trigger] row_entry(rows@[k]@, with_value)) is Some,
            forall|k: int| 0 <= k < i ==> entry_of(row_entry(rows@[k]@, with_value)->Some_0, #[trigger] out@[k]),
        decreases rows.len() - i,
    {
        let row = &rows[i];
        if row.len() == 0 {
            assert(row_entry(rows@[i as int]@, with_value) is None);
            return None;
        }
        let stamp = match db::cell_text(&row[0]) {
            Some(t) => t,
            None => {
                assert(row_entry(rows@[i as int]@, with_value) is None);
                return None;
            },
        };
        let value = if with_value && row.len() > 1 { db::cell_int(&row[1]) } else if with_value { None } else { Some(1i64) };
        match value {
            Some(v) => {
                out.push((crate::time::local_day_of(stamp.as_str()), v));
            },
            None => {
                assert(row_entry(rows@[i as int]@, with_value) is None);
                return None;
            },
        }
        i += 1;
    }
    Some(out)
}

fn abs_sum_fits(entries: &Vec<(Option<i32>, i64)>) -> (r: bool)
    ensures
        r == (abs_total(entries@) <= i64::MAX && entries.len() < i64::MAX),
{
    if (entries.len() as u64) >= (i64::MAX as u64) {
        return false;
    }
    let mut total: i128 = 0;
    let mut i: usize = 0;
    while i < entries.len()
        invariant
            i <= entries.len(),
            total == abs_total(entries@.take(i as int)),
            total <= i64::MAX,
        decreases entries.len() - i,
    {
        proof {
            assert(entries@.take(i + 1).drop_last() =~= entries@.take(i as int));
        }
        let v = entries[i].1;
        let a: i128 = if v < 0 { -(v as i128) } else { v as i128 };
        if total + a > i64::MAX as i128 {
            proof {
                lemma_abs_total_prefix(entries@, i + 1);
            }
            return false;
        }
        total = total + a;
        i += 1;
    }
    assert(entries@.take(entries.len() as int) =~= entries@);
    true
}

/// `v` holds, for each day `start + k` of `n` days, its `YYYY-MM-DD` label and the
/// seconds and number of the entries on it.
pub open spec fn is_focus_days(v: Seq<FocusDayStat>, start: int, n: int, es: Seq<(Option<i32>, i64)>) -> bool {
    &&& v.len() == n
    &&& forall|k: int| 0 <= k < n ==> {
        &&& (#[trigger] v[k]).date@ == crate::time::day_label((start + k) as i32)
        &&& v[k].focus_seconds == seconds_on(es, start + k)
        &&& v[k].sessions == count_on(es, start + k)
    }
}

/// `v` holds, for each day `start + k` of `n` days, its label and the number of the
/// entries on it.
pub open spec fn is_task_days(v: Seq<TaskDayStat>, start: int, n: int, es: Seq<(Option<i32>, i64)>) -> bool {
    &&& v.len() == n
    &&& forall|k: int| 0 <= k < n ==> {
        &&& (#[trigger] v[k]).date@ == crate::time::day_label((start + k) as i32)
        &&& v[k].completed == count_on(es, start + k)
    }
}

/// The labels are those of the days `start`, `start + 1`, ...
pub open spec fn labels_from(labels: Seq<String>, start: int) -> bool {
    forall|k: int| 0 <= k < labels.len() ==> (#[trigger] labels[k])@ == crate::time::day_label((start + k) as i32)
}

/// The per-day focus of the rows (stamp, seconds) for the days labelled `labels`
/// from `start`: an error when a row does not hold a text stamp and an integer, or
/// when the seconds could overflow; otherwise each day's seconds and sessions.
pub fn focus_days_of_rows(start: i32, labels: Vec<String>, rows: &Vec<Vec<SqlValue>>) -> (r: Result<Vec<FocusDayStat>, String>)
    requires
        labels_from(labels@, start as int),
    ensures
        !rows_hold_entries(rows@, true) ==> (r matches Err(e) && e@ == "统计专注数据失败: Invalid column type"@),
        rows_hold_entries(rows@, true) && !(values_total(rows@, true) <= i64::MAX && rows.len() < i64::MAX) ==> (r matches Err(e)
            && e@ == "统计专注数据失败: 数值溢出"@),
        rows_hold_entries(rows@, true) && values_total(rows@, true) <= i64::MAX && rows.len() < i64::MAX ==> (r matches Ok(v)
            && exists|es: Seq<(Option<i32>, i64)>|
            #[trigger] entries_of_rows(rows@, true, es) && is_focus_days(v@, start as int, labels.len() as int, es)),
{
    let entries = match day_entries(rows, true) {
        Some(e) => e,
        None => {
            let m = db::prefixed("统计专注数据失败: ", String::from_str("Invalid column type"));
            proof {
                reveal_strlit("统计专注数据失败: ");
                reveal_strlit("Invalid column type");
                reveal_strlit("统计专注数据失败: Invalid column type");
                assert(m@ =~= "统计专注数据失败: Invalid column type"@);
            }
            return Err(m);
        },
    };
    proof {
        lemma_abs_total_values(rows@, true, entries@);
    }
    if !abs_sum_fits(&entries) {
        let m = db::prefixed("统计专注数据失败: ", String::from_str("数值溢出"));
        proof {
            reveal_strlit("统计专注数据失败: ");
            reveal_strlit("数值溢出");
            reveal_strlit("统计专注数据失败: 数值溢出");
            assert(m@ =~= "统计专注数据失败: 数值溢出"@);
        }
        return Err(m);
    }
    let sums = bucket_by_day(start, labels.len(), &entries);
    let out = focus_stats(labels, &sums);
    assert(is_focus_days(out@, start as int, sums.len() as int, entries@));
    Ok(out)
}

/// Focus time per local day for the last `days` days (today included), oldest first;
/// days without focus are kept with zeros. Only completed sessions count.
pub fn focus_daily(conn: &rusqlite::Connection, days: i64) -> (r: Result<Vec<FocusDayStat>, String>)
    ensures
        r matches Ok(v) ==> v.len() == spec_range_days(days),
        r matches Err(e) ==> "统计专注数据失败: "@.is_prefix_of(e@),
        r matches Ok(v) ==> exists|start: i32, rows: Seq<Vec<SqlValue>>, es: Seq<(Option<i32>, i64)>|
            #[trigger] entries_of_rows(rows, true, es) && #[trigger] is_focus_days(v@, start as int, spec_range_days(days), es),
{
    let (start, dates) = day_range_from(crate::time::today_local(), days);
    let labels = match day_labels(&dates) {
        Some(l) => l,
        None => return Err(db::prefixed("统计专注数据失败: ", String::from_str("日期超出范围"))),
    };
    let params = crate::database::focus_repo::since_params(crate::time::local_day_start_rfc3339(start).as_str());
    let rows = match db::query(
        conn,
        "SELECT started_at, actual_seconds FROM focus_sessions
             WHERE status = 'COMPLETED' AND started_at >= ?1",
        &params,
    ) {
        Ok(rows) => rows,
        Err(e) => return Err(db::prefixed("统计专注数据失败: ", e)),
    };
    assert(labels_from(labels@, start as int));
    let r = focus_days_of_rows(start, labels, &rows);
    proof {
        if r is Ok {
            let es = choose|es: Seq<(Option<i32>, i64)>| #[trigger] entries_of_rows(rows@, true, es) && is_focus_days(r->Ok_0@, start as int, dates.len() as int, es);
            assert(entries_of_rows(rows@, true, es) && is_focus_days(r->Ok_0@, start as int, spec_range_days(days), es));
        }
        if r is Err {
            let e = r->Err_0@;
            assert("统计专注数据失败: "@.is_prefix_of(e)) by {
                reveal_strlit("统计专注数据失败: ");
                reveal_strlit("统计专注数据失败: Invalid column type");
                reveal_strlit("统计专注数据失败: 数值溢出");
            }
        }
    }
    r
}

/// Day statistics from labels and per-day (seconds, sessions).
pub fn focus_stats(labels: Vec<String>, sums: &Vec<(i64, i64)>) -> (r: Vec<FocusDayStat>)
    requires
        labels.len() == sums.len(),
    ensures
        r.len() == sums.len(),
        forall|i: int| 0 <= i < r.len() ==> (#[trigger] r@[i]).date@ == labels@[i]@ && r@[i].focus_seconds == sums@[i].0 && r@[i].sessions == sums@[i].1,
{
    let mut out: Vec<FocusDayStat> = Vec::new();
    let mut labels = labels;
    let ghost all = labels@;
    let mut i: usize = 0;
    while i < sums.len()
        invariant
            all.len() == sums.len(),
            i <= sums.len(),
            labels@ == all.skip(i as int),
            out.len() == i,
            forall|k: int| 0 <= k < i ==> (#[trigger] out@[k]).date@ == all[k]@ && out@[k].focus_seconds == sums@[k].0 && out@[k].sessions == sums@[k].1,
        decreases sums.len() - i,
    {
        let label = labels.remove(0);
        assert(labels@ =~= all.skip(i + 1));
        out.push(FocusDayStat { date: label, focus_seconds: sums[i].0, sessions: sums[i].1 });
        i += 1;
    }
    out
}

/// Day statistics from labels and per-day (seconds, count): the count of each day.
pub fn task_stats(labels: Vec<String>, sums: &Vec<(i64, i64)>) -> (r: Vec<TaskDayStat>)
    requires
        labels.len() == sums.len(),
    ensures
        r.len() == sums.len(),
        forall|i: int| 0 <= i < r.len() ==> (#[trigger] r@[i]).date@ == labels@[i]@ && r@[i].completed == sums@[i].1,
{
    let mut out: Vec<TaskDayStat> = Vec::new();
    let mut labels = labels;
    let ghost all = labels@;
    let mut i: usize = 0;
    while i < sums.len()
        invariant
            all.len() == sums.len(),
            i <= sums.len(),
            labels@ == all.skip(i as int),
            out.len() == i,
            forall|k: int| 0 <= k < i ==> (#[trigger] out@[k]).date@ == all[k]@ && out@[k].completed == sums@[k].1,
        decreases sums.len() - i,
    {
        let label = labels.remove(0);
        assert(labels@ =~= all.skip(i + 1));
        out.push(TaskDayStat { date: label, completed: sums[i].1 });
        i += 1;
    }
    out
}

/// The per-day completed counts of the rows (completion stamp) for the days labelled
/// `labels` from `start`: an error when a row does not hold a text stamp; otherwise
/// the number of completions on each day.
pub fn task_days_of_rows(start: i32, labels: Vec<String>, rows: &Vec<Vec<SqlValue>>) -> (r: Result<Vec<TaskDayStat>, String>)
    requires
        labels_from(labels@, start as int),
    ensures
        !rows_hold_entries(rows@, false) ==> (r matches Err(e) && e@ == "统计任务数据失败: Invalid column type"@),
        rows_hold_entries(rows@, false) && !(values_total(rows@, false) <= i64::MAX && rows.len() < i64::MAX) ==> (r matches Err(e)
            && e@ == "统计任务数据失败: 数值溢出"@),
        rows_hold_entries(rows@, false) && values_total(rows@, false) <= i64::MAX && rows.len() < i64::MAX ==> (r matches Ok(v)
            && exists|es: Seq<(Option<i32>, i64)>|
            #[trigger] entries_of_rows(rows@, false, es) && is_task_days(v@, start as int, labels.len() as int, es)),
{
    let entries = match day_entries(rows, false) {
        Some(e) => e,
        None => {
            let m = db::prefixed("统计任务数据失败: ", String::from_str("Invalid column type"));
            proof {
                reveal_strlit("统计任务数据失败: ");
                reveal_strlit("Invalid column type");
                reveal_strlit("统计任务数据失败: Invalid column type");
                assert(m@ =~= "统计任务数据失败: Invalid column type"@);
            }
            return Err(m);
        },
    };
    proof {
        lemma_abs_total_values(rows@, false, entries@);
    }
    if !abs_sum_fits(&entries) {
        let m = db::prefixed("统计任务数据失败: ", String::from_str("数值溢出"));
        proof {
            reveal_strlit("统计任务数据失败: ");
            reveal_strlit("数值溢出");
            reveal_strlit("统计任务数据失败: 数值溢出");
            assert(m@ =~= "统计任务数据失败: 数值溢出"@);
        }
        return Err(m);
    }
    let sums = bucket_by_day(start, labels.len(), &entries);
    let out = task_stats(labels, &sums);
    assert(is_task_days(out@, start as int, sums.len() as int, entries@));
    Ok(out)
}

/// Completed tasks per local day of completion for the last `days` days, oldest first.
pub fn task_daily_completed(conn: &rusqlite::Connection, days: i64) -> (r: Result<Vec<TaskDayStat>, String>)
    ensures
        r matches Ok(v) ==> v.len() == spec_range_days(days),
        r matches Err(e) ==> "统计任务数据失败: "@.is_prefix_of(e@),
        r matches Ok(v) ==> exists|start: i32, rows: Seq<Vec<SqlValue>>, es: Seq<(Option<i32>, i64)>|
            #[trigger] entries_of_rows(rows, false, es) && #[trigger] is_task_days(v@, start as int, spec_range_days(days), es),
{
    let (start, dates) = day_range_from(crate::time::today_local(), days);
    let labels = match day_labels(&dates) {
        Some(l) => l,
        None => return Err(db::prefixed("统计任务数据失败: ", String::from_str("日期超出范围"))),
    };
    let params = crate::database::focus_repo::since_params(crate::time::local_day_start_rfc3339(start).as_str());
    let rows = match db::query(
        conn,
        "SELECT completed_at FROM tasks
             WHERE status = 'COMPLETED' AND completed_at IS NOT NULL AND completed_at >= ?1",
        &params,
    ) {
        Ok(rows) => rows,
        Err(e) => return Err(db::prefixed("统计任务数据失败: ", e)),
    };
    assert(labels_from(labels@, start as int));
    let r = task_days_of_rows(start, labels, &rows);
    proof {
        if r is Ok {
            let es = choose|es: Seq<(Option<i32>, i64)>| #[trigger] entries_of_rows(rows@, false, es) && is_task_days(r->Ok_0@, start as int, dates.len() as int, es);
            assert(entries_of_rows(rows@, false, es) && is_task_days(r->Ok_0@, start as int, spec_range_days(days), es));
        }
        if r is Err {
            let e = r->Err_0@;
            assert("统计任务数据失败: "@.is_prefix_of(e)) by {
                reveal_strlit("统计任务数据失败: ");
                reveal_strlit("统计任务数据失败: Invalid column type");
                reveal_strlit("统计任务数据失败: 数值溢出");
            }
        }
    }
    r
}

/// Time of each task over the range, largest first, by the database's grouping.
pub fn focus_by_task(conn: &rusqlite::Connection, days: i64) -> (r: Result<Vec<TaskFocusStat>, String>)
    ensures
        r matches Err(e) ==> "统计专注分布失败: "@.is_prefix_of(e@),
{
    let (start, _dates) = day_range_from(crate::time::today_local(), days);
    let params = crate::database::focus_repo::since_params(crate::time::local_day_start_rfc3339(start).as_str());
    let rows = match db::query(
        conn,
        "SELECT s.task_id, t.title, SUM(s.actual_seconds), COUNT(*)
             FROM focus_sessions s
             LEFT JOIN tasks t ON t.id = s.task_id
             WHERE s.status = 'COMPLETED' AND s.started_at >= ?1
             GROUP BY s.task_id
             ORDER BY SUM(s.actual_seconds) DESC",
        &params,
    ) {
        Ok(rows) => rows,
        Err(e) => return Err(db::prefixed("统计专注分布失败: ", e)),
    };
    Ok(task_focus_stats(&rows))
}

/// A row holds a focus statistic: four cells, an optional id, an optional title and
/// two optional counts.
pub open spec fn focus_row_ok(row: Seq<SqlValue>) -> bool {
    row.len() == 4 && spec_opt_int(row[0]) is Some && spec_opt_text(row[1]) is Some
        && spec_opt_int(row[2]) is Some && spec_opt_int(row[3]) is Some
}

/// `s` is the statistic of the row: its id and title, missing sums counting 0.
pub open spec fn is_task_focus(row: Seq<SqlValue>, s: TaskFocusStat) -> bool {
    row.len() == 4 && Some(s.task_id) == spec_opt_int(row[0])
        && Some(crate::database::task_query::opt_text_view(s.title)) == spec_opt_text(row[1])
        && spec_opt_int(row[2]) is Some && s.focus_seconds == (match spec_opt_int(row[2])->Some_0 { Some(v) => v, None => 0 })
        && spec_opt_int(row[3]) is Some && s.sessions == (match spec_opt_int(row[3])->Some_0 { Some(v) => v, None => 0 })
}

/// Positions of the rows that hold a focus statistic, in order.
pub open spec fn focus_rows(rows: Seq<Vec<SqlValue>>) -> Seq<int> {
    Seq::new(rows.len(), |i: int| i).filter(|i: int| 0 <= i < rows.len() && focus_row_ok(rows[i]@))
}

/// The statistics of the rows that hold one, in row order; other rows are skipped.
pub fn task_focus_stats(rows: &Vec<Vec<SqlValue>>) -> (r: Vec<TaskFocusStat>)
    ensures
        r.len() == focus_rows(rows@).len(),
        forall|i: int| 0 <= i < r.len() ==> is_task_focus(rows@[focus_rows(rows@)[i]]@, #[trigger] r@[i]),
{
    let mut out: Vec<TaskFocusStat> = Vec::new();
    let mut i: usize = 0;
    let ghost all = Seq::new(rows@.len(), |j: int| j);
    let ghost pred = |j: int| 0 <= j < rows@.len() && focus_row_ok(rows@[j]@);
    while i < rows.len()
        invariant
            i <= rows.len(),
            all == Seq::new(rows@.len(), |j: int| j),
            pred == (|j: int| 0 <= j < rows@.len() && focus_row_ok(rows@[j]@)),
            out.len() == all.take(i as int).filter(pred).len(),
            forall|k: int| 0 <= k < out.len() ==> is_task_focus(rows@[all.take(i as int).filter(pred)[k]]@, #[trigger] out@[k]),
        decreases rows.len() - i,
    {
        proof {
            assert(all.take(i + 1) =~= all.take(i as int).push(i as int));
            all.take(i as int).lemma_filter_push(i as int, pred);
        }
        if let Some(stat) = task_focus_from_row(&rows[i]) {
            out.push(stat);
        }
        i += 1;
    }
    proof {
        assert(all.take(rows@.len() as int) =~= all);
    }
    out
}

/// A row (task id, title, seconds, sessions) as a statistic; missing sums count 0.
pub fn task_focus_from_row(row: &Vec<SqlValue>) -> (r: Option<TaskFocusStat>)
    ensures
        r matches Some(s) ==> row@.len() == 4 && Some(s.task_id) == spec_opt_int(row@[0])
            && Some(crate::database::task_query::opt_text_view(s.title)) == spec_opt_text(row@[1])
            && spec_opt_int(row@[2]) is Some && s.focus_seconds == (match spec_opt_int(row@[2])->Some_0 { Some(v) => v, None => 0 })
            && spec_opt_int(row@[3]) is Some && s.sessions == (match spec_opt_int(row@[3])->Some_0 { Some(v) => v, None => 0 }),
        r is None <==> !(row@.len() == 4 && spec_opt_int(row@[0]) is Some && spec_opt_text(row@[1]) is Some
            && spec_opt_int(row@[2]) is Some && spec_opt_int(row@[3]) is Some),
{
    if row.len() != 4 {
        return None;
    }
    let task_id = db::cell_opt_int(&row[0])?;
    let title = db::cell_opt_text(&row[1])?;
    let secs = db::cell_opt_int(&row[2])?;
    let count = db::cell_opt_int(&row[3])?;
    Some(TaskFocusStat {
        task_id,
        title,
        focus_seconds: match secs { Some(v) => v, None => 0 },
        sessions: match count { Some(v) => v, None => 0 },
    })
}

/// A due stamp has passed: it parses and lies before now (a malformed stamp has not).
pub open spec fn spec_is_past_due(due_at: Option<Seq<char>>, now: Instant) -> bool {
    due_at matches Some(s) && spec_parse_rfc3339(s) matches Some(d) && d.before(now)
}

pub fn is_past_due(due_at: &Option<String>, now: Instant) -> (r: bool)
    ensures
        r == spec_is_past_due(crate::database::task_query::opt_text_view(*due_at), now),
{
    match due_at {
        Some(s) => match crate::time::parse_rfc3339(s.as_str()) {
            Some(d) => instant_before(d, now),
            None => false,
        },
        None => false,
    }
}

/// Completed after its due time: both stamps parse and the completion is later.
pub open spec fn spec_late(due_at: Option<Seq<char>>, completed_at: Option<Seq<char>>) -> bool {
    due_at matches Some(d) && completed_at matches Some(c) && spec_parse_rfc3339(d) matches Some(di)
        && spec_parse_rfc3339(c) matches Some(ci) && di.before(ci)
}

pub fn is_late(due_at: &Option<String>, completed_at: &Option<String>) -> (r: bool)
    ensures
        r == spec_late(crate::database::task_query::opt_text_view(*due_at), crate::database::task_query::opt_text_view(*completed_at)),
{
    match (due_at, completed_at) {
        (Some(d), Some(c)) => match (crate::time::parse_rfc3339(d.as_str()), crate::time::parse_rfc3339(c.as_str())) {
            (Some(di), Some(ci)) => instant_before(di, ci),
            _ => false,
        },
        _ => false,
    }
}

/// Number of stamps that have passed.
pub open spec fn count_past_due(dues: Seq<Option<Seq<char>>>, now: Instant) -> int
    decreases dues.len(),
{
    if dues.len() == 0 {
        0
    } else {
        count_past_due(dues.drop_last(), now) + (if spec_is_past_due(dues.last(), now) { 1int } else { 0 })
    }
}

/// Number of (due, completed) pairs completed late.
pub open spec fn count_late(pairs: Seq<(Option<Seq<char>>, Option<Seq<char>>)>) -> int
    decreases pairs.len(),
{
    if pairs.len() == 0 {
        0
    } else {
        count_late(pairs.drop_last()) + (if spec_late(pairs.last().0, pairs.last().1) { 1int } else { 0 })
    }
}

pub open spec fn opt_views(v: Seq<Option<String>>) -> Seq<Option<Seq<char>>> {
    Seq::new(v.len(), |i: int| crate::database::task_query::opt_text_view(v[i]))
}

pub open spec fn pair_views(v: Seq<(Option<String>, Option<String>)>) -> Seq<(Option<Seq<char>>, Option<Seq<char>>)> {
    Seq::new(v.len(), |i: int| (crate::database::task_query::opt_text_view(v[i].0), crate::database::task_query::opt_text_view(v[i].1)))
}

/// How many of the due stamps have passed.
pub fn past_due_count(dues: &Vec<Option<String>>, now: Instant) -> (r: i64)
    requires
        dues.len() <= i64::MAX,
    ensures
        r == count_past_due(opt_views(dues@), now),
{
    let mut n: i64 = 0;
    let mut i: usize = 0;
    while i < dues.len()
        invariant
            dues.len() <= i64::MAX,
            i <= dues.len(),
            n == count_past_due(opt_views(dues@).take(i as int), now),
            0 <= n <= i,
        decreases dues.len() - i,
    {
        proof {
            assert(opt_views(dues@).take(i + 1).drop_last() =~= opt_views(dues@).take(i as int));
        }
        if is_past_due(&dues[i], now) {
            n += 1;
        }
        i += 1;
    }
    assert(opt_views(dues@).take(dues.len() as int) =~= opt_views(dues@));
    n
}

/// How many of the (due, completed) pairs were completed late.
pub fn late_count(pairs: &Vec<(Option<String>, Option<String>)>) -> (r: i64)
    requires
        pairs.len() <= i64::MAX,
    ensures
        r == count_late(pair_views(pairs@)),
{
    let mut n: i64 = 0;
    let mut i: usize = 0;
    while i < pairs.len()
        invariant
            pairs.len() <= i64::MAX,
            i <= pairs.len(),
            n == count_late(pair_views(pairs@).take(i as int)),
            0 <= n <= i,
        decreases pairs.len() - i,
    {
        proof {
            assert(pair_views(pairs@).take(i + 1).drop_last() =~= pair_views(pairs@).take(i as int));
        }
        if is_late(&pairs[i].0, &pairs[i].1) {
            n += 1;
        }
        i += 1;
    }
    assert(pair_views(pairs@).take(pairs.len() as int) =~= pair_views(pairs@));
    n
}

/// The (total, completed, pending) counts in the first row of the count query.
pub open spec fn spec_counts(rows: Seq<Vec<SqlValue>>) -> Option<(i64, i64, i64)> {
    if rows.len() > 0 && rows[0]@.len() == 3 && spec_int(rows[0]@[0]) is Some && spec_int(rows[0]@[1]) is Some
        && spec_int(rows[0]@[2]) is Some {
        Some((spec_int(rows[0]@[0])->Some_0, spec_int(rows[0]@[1])->Some_0, spec_int(rows[0]@[2])->Some_0))
    } else {
        None
    }
}

/// The due stamps of the rows of the pending-with-due query (empty rows skipped);
/// `None` when a row's first cell is not NULL or text.
pub open spec fn spec_due_stamps(rows: Seq<Vec<SqlValue>>) -> Option<Seq<Option<Seq<char>>>>
    decreases rows.len(),
{
    if rows.len() == 0 {
        Some(Seq::empty())
    } else {
        match spec_due_stamps(rows.drop_last()) {
            None => None,
            Some(prev) => {
                let row = rows.last()@;
                if row.len() > 0 {
                    match spec_opt_text(row[0]) {
                        Some(d) => Some(prev.push(d)),
                        None => None,
                    }
                } else {
                    Some(prev)
                }
            },
        }
    }
}

/// The (due, completed) stamps of the rows of the completed-with-due query (rows of
/// fewer than two cells skipped); `None` when a cell is not NULL or text.
pub open spec fn spec_done_pairs(rows: Seq<Vec<SqlValue>>) -> Option<Seq<(Option<Seq<char>>, Option<Seq<char>>)>>
    decreases rows.len(),
{
    if rows.len() == 0 {
        Some(Seq::empty())
    } else {
        match spec_done_pairs(rows.drop_last()) {
            None => None,
            Some(prev) => {
                let row = rows.last()@;
                if row.len() > 1 {
                    match (spec_opt_text(row[0]), spec_opt_text(row[1])) {
                        (Some(d), Some(c)) => Some(prev.push((d, c))),
                        _ => None,
                    }
                } else {
                    Some(prev)
                }
            },
        }
    }
}

/// An overview as (total, completed, pending, overdue, completed late).
pub open spec fn overview_view(o: TaskOverview) -> (int, int, int, int, int) {
    (o.total as int, o.completed as int, o.pending as int, o.overdue as int, o.completed_late as int)
}

/// The overview the three query results give at `now`: the counts as the first row
/// holds them, the pending tasks whose due time has passed and the completed tasks
/// finished after their due time; `None` when a result does not decode or a count
/// would not fit.
pub open spec fn spec_overview_of(
    count_rows: Seq<Vec<SqlValue>>,
    due_rows: Seq<Vec<SqlValue>>,
    done_rows: Seq<Vec<SqlValue>>,
    now: Instant,
) -> Option<(int, int, int, int, int)> {
    match (spec_counts(count_rows), spec_due_stamps(due_rows), spec_done_pairs(done_rows)) {
        (Some(t), Some(ds), Some(ps)) => if ds.len() <= i64::MAX && ps.len() <= i64::MAX {
            Some((t.0 as int, t.1 as int, t.2 as int, count_past_due(ds, now), count_late(ps)))
        } else {
            None
        },
        _ => None,
    }
}

fn counts_of_rows(rows: &Vec<Vec<SqlValue>>) -> (r: Option<(i64, i64, i64)>)
    ensures
        r == spec_counts(rows@),
{
    if rows.len() == 0 || rows[0].len() != 3 {
        return None;
    }
    match (db::cell_int(&rows[0][0]), db::cell_int(&rows[0][1]), db::cell_int(&rows[0][2])) {
        (Some(a), Some(b), Some(c)) => Some((a, b, c)),
        _ => None,
    }
}

fn due_stamps_of_rows(rows: &Vec<Vec<SqlValue>>) -> (r: Option<Vec<Option<String>>>)
    ensures
        match spec_due_stamps(rows@) {
            None => r is None,
            Some(d) => r matches Some(v) && opt_views(v@) == d,
        },
{
    let mut dues: Vec<Option<String>> = Vec::new();
    let mut i: usize = 0;
    while i < rows.len()
        invariant
            i <= rows.len(),
            spec_due_stamps(rows@.take(i as int)) == Some(opt_views(dues@)),
        decreases rows.len() - i,
    {
        proof {
            assert(rows@.take(i + 1).drop_last() =~= rows@.take(i as int));
        }
        if rows[i].len() > 0 {
            match db::cell_opt_text(&rows[i][0]) {
                Some(d) => {
                    let ghost before = opt_views(dues@);
                    dues.push(d);
                    assert(opt_views(dues@) =~= before.push(crate::database::task_query::opt_text_view(dues@.last())));
                },
                None => {
                    proof {
                        lemma_due_stamps_none(rows@, i as int);
                    }
                    return None;
                },
            }
        }
        i += 1;
    }
    assert(rows@.take(rows.len() as int) =~= rows@);
    Some(dues)
}

/// A bad row makes every longer prefix fail too.
proof fn lemma_due_stamps_none(rows: Seq<Vec<SqlValue>>, i: int)
    requires
        0 <= i < rows.len(),
        spec_due_stamps(rows.take(i + 1)) is None,
    ensures
        spec_due_stamps(rows) is None,
    decreases rows.len() - i,
{
    if i + 1 < rows.len() {
        assert(rows.take(i + 2).drop_last() =~= rows.take(i + 1));
        lemma_due_stamps_none(rows, i + 1);
    } else {
        assert(rows.take(i + 1) =~= rows);
    }
}

/// A bad row makes every longer prefix fail too.
proof fn lemma_done_pairs_none(rows: Seq<Vec<SqlValue>>, i: int)
    requires
        0 <= i < rows.len(),
        spec_done_pairs(rows.take(i + 1)) is None,
    ensures
        spec_done_pairs(rows) is None,
    decreases rows.len() - i,
{
    if i + 1 < rows.len() {
        assert(rows.take(i + 2).drop_last() =~= rows.take(i + 1));
        lemma_done_pairs_none(rows, i + 1);
    } else {
        assert(rows.take(i + 1) =~= rows);
    }
}

fn done_pairs_of_rows(rows: &Vec<Vec<SqlValue>>) -> (r: Option<Vec<(Option<String>, Option<String>)>>)
    ensures
        match spec_done_pairs(rows@) {
            None => r is None,
            Some(d) => r matches Some(v) && pair_views(v@) == d,
        },
{
    let mut pairs: Vec<(Option<String>, Option<String>)> = Vec::new();
    let mut i: usize = 0;
    while i < rows.len()
        invariant
            i <= rows.len(),
            spec_done_pairs(rows@.take(i as int)) == Some(pair_views(pairs@)),
        decreases rows.len() - i,
    {
        proof {
            assert(rows@.take(i + 1).drop_last() =~= rows@.take(i as int));
        }
        if rows[i].len() > 1 {
            match (db::cell_opt_text(&rows[i][0]), db::cell_opt_text(&rows[i][1])) {
                (Some(d), Some(c)) => {
                    let ghost before = pair_views(pairs@);
                    pairs.push((d, c));
                    assert(pair_views(pairs@) =~= before.push(
                        (crate::database::task_query::opt_text_view(pairs@.last().0), crate::database::task_query::opt_text_view(pairs@.last().1)),
                    ));
                },
                _ => {
                    proof {
                        lemma_done_pairs_none(rows@, i as int);
                    }
                    return None;
                },
            }
        }
        i += 1;
    }
    assert(rows@.take(rows.len() as int) =~= rows@);
    Some(pairs)
}

/// The overview of the three query results at `now` (see `spec_overview_of`):
/// `None` when a result does not decode or a count would not fit.
pub fn overview_of_rows(
    count_rows: &Vec<Vec<SqlValue>>,
    due_rows: &Vec<Vec<SqlValue>>,
    done_rows: &Vec<Vec<SqlValue>>,
    now: Instant,
) -> (r: Option<TaskOverview>)
    ensures
        match spec_overview_of(count_rows@, due_rows@, done_rows@, now) {
            None => r is None,
            Some(v) => r matches Some(o) && overview_view(o) == v,
        },
{
    let (total, completed, pending) = counts_of_rows(count_rows)?;
    let dues = due_stamps_of_rows(due_rows)?;
    let pairs = done_pairs_of_rows(done_rows)?;
    if (dues.len() as u64) > (i64::MAX as u64) || (pairs.len() as u64) > (i64::MAX as u64) {
        return None;
    }
    let overdue = past_due_count(&dues, now);
    let completed_late = late_count(&pairs);
    Some(TaskOverview { total, completed, pending, overdue, completed_late })
}

/// One stored task as the overview reads it: (status, due stamp, completion stamp),
/// each NULL or text; `None` for any other row.
pub open spec fn spec_overview_task(row: Seq<SqlValue>) -> Option<(Option<Seq<char>>, Option<Seq<char>>, Option<Seq<char>>)> {
    if row.len() == 3 && spec_opt_text(row[0]) is Some && spec_opt_text(row[1]) is Some && spec_opt_text(row[2]) is Some {
        Some((spec_opt_text(row[0])->Some_0, spec_opt_text(row[1])->Some_0, spec_opt_text(row[2])->Some_0))
    } else {
        None
    }
}

/// The tasks of all rows, in order; `None` when a row does not decode.
pub open spec fn spec_overview_tasks(rows: Seq<Vec<SqlValue>>) -> Option<Seq<(Option<Seq<char>>, Option<Seq<char>>, Option<Seq<char>>)>>
    decreases rows.len(),
{
    if rows.len() == 0 {
        Some(Seq::empty())
    } else {
        match (spec_overview_tasks(rows.drop_last()), spec_overview_task(rows.last()@)) {
            (Some(prev), Some(t)) => Some(prev.push(t)),
            _ => None,
        }
    }
}

/// A task still to do: its status is TODO or IN_PROGRESS.
pub open spec fn is_pending_status(status: Option<Seq<char>>) -> bool {
    status == Some("TODO"@) || status == Some("IN_PROGRESS"@)
}

/// A finished task: its status is COMPLETED.
pub open spec fn is_completed_status(status: Option<Seq<char>>) -> bool {
    status == Some("COMPLETED"@)
}

/// Number of completed tasks.
pub open spec fn count_completed(ts: Seq<(Option<Seq<char>>, Option<Seq<char>>, Option<Seq<char>>)>) -> int
    decreases ts.len(),
{
    if ts.len() == 0 {
        0
    } else {
        count_completed(ts.drop_last()) + (if is_completed_status(ts.last().0) { 1int } else { 0 })
    }
}

/// Number of pending tasks.
pub open spec fn count_pending(ts: Seq<(Option<Seq<char>>, Option<Seq<char>>, Option<Seq<char>>)>) -> int
    decreases ts.len(),
{
    if ts.len() == 0 {
        0
    } else {
        count_pending(ts.drop_last()) + (if is_pending_status(ts.last().0) { 1int } else { 0 })
    }
}

/// Number of pending tasks whose due time has passed at `now`.
pub open spec fn count_overdue(ts: Seq<(Option<Seq<char>>, Option<Seq<char>>, Option<Seq<char>>)>, now: Instant) -> int
    decreases ts.len(),
{
    if ts.len() == 0 {
        0
    } else {
        count_overdue(ts.drop_last(), now) + (if is_pending_status(ts.last().0) && spec_is_past_due(ts.last().1, now) {
            1int
        } else {
            0
        })
    }
}

/// Number of completed tasks finished after their due time.
pub open spec fn count_completed_late(ts: Seq<(Option<Seq<char>>, Option<Seq<char>>, Option<Seq<char>>)>) -> int
    decreases ts.len(),
{
    if ts.len() == 0 {
        0
    } else {
        count_completed_late(ts.drop_last()) + (if is_completed_status(ts.last().0) && spec_late(ts.last().1, ts.last().2) {
            1int
        } else {
            0
        })
    }
}

/// The overview of the stored tasks at `now`: all of them, the completed ones, the
/// pending ones, the pending ones past due and the completed ones finished late;
/// `None` when a row does not decode or the count would not fit.
pub open spec fn spec_task_overview(rows: Seq<Vec<SqlValue>>, now: Instant) -> Option<(int, int, int, int, int)> {
    match spec_overview_tasks(rows) {
        Some(ts) => if ts.len() <= i64::MAX {
            Some((ts.len() as int, count_completed(ts), count_pending(ts), count_overdue(ts, now), count_completed_late(ts)))
        } else {
            None
        },
        None => None,
    }
}

/// Overdue tasks are pending ones and late tasks are completed ones: over any list of
/// tasks, overdue <= pending, completed late <= completed, and the completed and the
/// pending tasks together are no more than all of them.
pub proof fn lemma_overview_bounds(ts: Seq<(Option<Seq<char>>, Option<Seq<char>>, Option<Seq<char>>)>, now: Instant)
    ensures
        0 <= count_overdue(ts, now) <= count_pending(ts),
        0 <= count_completed_late(ts) <= count_completed(ts),
        count_completed(ts) + count_pending(ts) <= ts.len(),
    decreases ts.len(),
{
    lemma_completed_not_pending();
    if ts.len() > 0 {
        lemma_overview_bounds(ts.drop_last(), now);
    }
}

/// No status is both completed and pending.
proof fn lemma_completed_not_pending()
    ensures
        forall|s: Option<Seq<char>>| #[trigger] is_completed_status(s) ==> !is_pending_status(s),
{
    reveal_strlit("TODO");
    reveal_strlit("IN_PROGRESS");
    reveal_strlit("COMPLETED");
    assert("COMPLETED"@.len() != "TODO"@.len());
    assert("COMPLETED"@[0] != "IN_PROGRESS"@[0]);
}

/// Only a pending task can be overdue: adding a task that is not pending (a completed
/// one among them) leaves the overdue count as it was, whatever its due time, and adding
/// a pending task whose due time has passed raises it by one.
pub proof fn lemma_overdue_counts_pending_only(
    ts: Seq<(Option<Seq<char>>, Option<Seq<char>>, Option<Seq<char>>)>,
    t: (Option<Seq<char>>, Option<Seq<char>>, Option<Seq<char>>),
    now: Instant,
)
    ensures
        !is_pending_status(t.0) ==> count_overdue(ts.push(t), now) == count_overdue(ts, now),
        is_completed_status(t.0) ==> count_overdue(ts.push(t), now) == count_overdue(ts, now),
        is_pending_status(t.0) && spec_is_past_due(t.1, now) ==> count_overdue(ts.push(t), now) == count_overdue(ts, now) + 1,
        is_pending_status(t.0) && !spec_is_past_due(t.1, now) ==> count_overdue(ts.push(t), now) == count_overdue(ts, now),
{
    lemma_completed_not_pending();
    assert(ts.push(t).drop_last() =~= ts);
}

/// A decoded row list has one task per row.
proof fn lemma_overview_tasks_len(rows: Seq<Vec<SqlValue>>)
    ensures
        spec_overview_tasks(rows) matches Some(ts) ==> ts.len() == rows.len(),
    decreases rows.len(),
{
    if rows.len() > 0 {
        lemma_overview_tasks_len(rows.drop_last());
    }
}

/// A bad row makes every longer prefix fail too.
proof fn lemma_overview_tasks_none(rows: Seq<Vec<SqlValue>>, i: int)
    requires
        0 <= i < rows.len(),
        spec_overview_tasks(rows.take(i + 1)) is None,
    ensures
        spec_overview_tasks(rows) is None,
    decreases rows.len() - i,
{
    if i + 1 < rows.len() {
        assert(rows.take(i + 2).drop_last() =~= rows.take(i + 1));
        lemma_overview_tasks_none(rows, i + 1);
    } else {
        assert(rows.take(i + 1) =~= rows);
    }
}

/// The (status, due, completed) rows of every stored task.
pub const OVERVIEW_SQL: &'static str = "SELECT status, due_at, completed_at FROM tasks";

/// The overview of the stored tasks read as (status, due, completed) rows at `now`
/// (`spec_task_overview`): the rows are sorted into the count row, the due stamps of
/// the pending tasks that have one and the stamps of the completed tasks that have
/// both, which `overview_of_rows` reads; `None` when a row does not decode.
pub fn task_overview_of_rows(rows: &Vec<Vec<SqlValue>>, now: Instant) -> (r: Option<TaskOverview>)
    ensures
        match spec_task_overview(rows@, now) {
            None => r is None,
            Some(v) => r matches Some(o) && overview_view(o) == v,
        },
        r matches Some(o) ==> o.overdue <= o.pending && o.completed_late <= o.completed && o.completed + o.pending <= o.total,
        r matches Some(o) ==> exists|a: Seq<Vec<SqlValue>>, b: Seq<Vec<SqlValue>>, c: Seq<Vec<SqlValue>>|
            #[trigger] spec_overview_of(a, b, c, now) == Some(overview_view(o)),
{
    proof {
        lemma_overview_tasks_len(rows@);
    }
    if (rows.len() as u64) > (i64::MAX as u64) {
        return None;
    }
    let mut completed: i64 = 0;
    let mut pending: i64 = 0;
    let mut due_rows: Vec<Vec<SqlValue>> = Vec::new();
    let mut done_rows: Vec<Vec<SqlValue>> = Vec::new();
    let ghost mut ts: Seq<(Option<Seq<char>>, Option<Seq<char>>, Option<Seq<char>>)> = Seq::empty();
    let ghost mut ds: Seq<Option<Seq<char>>> = Seq::empty();
    let ghost mut ps: Seq<(Option<Seq<char>>, Option<Seq<char>>)> = Seq::empty();
    let mut i: usize = 0;
    while i < rows.len()
        invariant
            i <= rows.len(),
            rows.len() <= i64::MAX,
            spec_overview_tasks(rows@.take(i as int)) == Some(ts),
            ts.len() == i,
            completed == count_completed(ts),
            pending == count_pending(ts),
            0 <= completed <= i,
            0 <= pending <= i,
            spec_due_stamps(due_rows@) == Some(ds),
            ds.len() <= i,
            count_past_due(ds, now) == count_overdue(ts, now),
            spec_done_pairs(done_rows@) == Some(ps),
            ps.len() <= i,
            count_late(ps) == count_completed_late(ts),
        decreases rows.len() - i,
    {
        proof {
            assert(rows@.take(i + 1).drop_last() =~= rows@.take(i as int));
        }
        let row = &rows[i];
        if row.len() != 3 {
            proof {
                lemma_overview_tasks_none(rows@, i as int);
            }
            return None;
        }
        let (status, due, done) = match (db::cell_opt_text(&row[0]), db::cell_opt_text(&row[1]), db::cell_opt_text(&row[2])) {
            (Some(a), Some(b), Some(c)) => (a, b, c),
            _ => {
                proof {
                    lemma_overview_tasks_none(rows@, i as int);
                }
                return None;
            },
        };
        let ghost t = (db::opt_string_view(status), db::opt_string_view(due), db::opt_string_view(done));
        let is_completed = match &status {
            Some(s) => str_eq(s.as_str(), "COMPLETED"),
            None => false,
        };
        let is_pending = match &status {
            Some(s) => str_eq(s.as_str(), "TODO") || str_eq(s.as_str(), "IN_PROGRESS"),
            None => false,
        };
        assert(is_completed == is_completed_status(t.0));
        assert(is_pending == is_pending_status(t.0));
        proof {
            assert(ts.push(t).drop_last() =~= ts);
        }
        if is_completed {
            completed += 1;
            match (due, done) {
                (Some(d), Some(c)) => {
                    let ghost before = done_rows@;
                    let mut cells: Vec<SqlValue> = Vec::new();
                    cells.push(SqlValue::Text(d));
                    cells.push(SqlValue::Text(c));
                    done_rows.push(cells);
                    proof {
                        assert(done_rows@.drop_last() =~= before);
                        let p = (t.1, t.2);
                        assert(ps.push(p).drop_last() =~= ps);
                        ps = ps.push(p);
                    }
                },
                _ => {},
            }
        } else if is_pending {
            pending += 1;
            match due {
                Some(d) => {
                    let ghost before = due_rows@;
                    let mut cells: Vec<SqlValue> = Vec::new();
                    cells.push(SqlValue::Text(d));
                    due_rows.push(cells);
                    proof {
                        assert(due_rows@.drop_last() =~= before);
                        assert(ds.push(t.1).drop_last() =~= ds);
                        ds = ds.push(t.1);
                    }
                },
                None => {},
            }
        }
        proof {
            lemma_completed_not_pending();
            ts = ts.push(t);
        }
        i += 1;
    }
    proof {
        assert(rows@.take(rows.len() as int) =~= rows@);
        lemma_overview_bounds(ts, now);
    }
    let total = rows.len() as i64;
    let mut counts: Vec<SqlValue> = Vec::new();
    counts.push(SqlValue::Integer(total));
    counts.push(SqlValue::Integer(completed));
    counts.push(SqlValue::Integer(pending));
    let mut count_rows: Vec<Vec<SqlValue>> = Vec::new();
    count_rows.push(counts);
    let r = overview_of_rows(&count_rows, &due_rows, &done_rows, now);
    proof {
        assert(spec_counts(count_rows@) == Some((total, completed, pending)));
        assert(spec_overview_of(count_rows@, due_rows@, done_rows@, now) == spec_task_overview(rows@, now));
    }
    r
}

/// Total, completed, pending, overdue (pending past due) and completed-late counts of
/// the stored tasks: `spec_task_overview` of what `OVERVIEW_SQL` returns at the time
/// it is run.
pub fn task_overview(conn: &rusqlite::Connection) -> (r: Result<TaskOverview, String>)
    ensures
        r matches Err(e) ==> "统计任务总览失败: "@.is_prefix_of(e@) || "统计逾期任务失败: "@.is_prefix_of(e@)
            || "统计逾期完成任务失败: "@.is_prefix_of(e@),
        r matches Ok(o) ==> exists|a: Seq<Vec<SqlValue>>, b: Seq<Vec<SqlValue>>, c: Seq<Vec<SqlValue>>, now: Instant|
            #[trigger] spec_overview_of(a, b, c, now) == Some(overview_view(o)),
        r matches Ok(o) ==> exists|rows: Seq<Vec<SqlValue>>, now: Instant|
            #[trigger] spec_task_overview(rows, now) == Some(overview_view(o)),
        r matches Ok(o) ==> o.overdue <= o.pending && o.completed_late <= o.completed && o.completed + o.pending <= o.total,
{
    let rows = match db::query(conn, OVERVIEW_SQL, &Vec::new()) {
        Ok(rows) => rows,
        Err(e) => return Err(db::prefixed("统计任务总览失败: ", e)),
    };
    let now = crate::time::now();
    match task_overview_of_rows(&rows, now) {
        Some(o) => {
            proof {
                assert(spec_task_overview(rows@, now) == Some(overview_view(o)));
            }
            Ok(o)
        },
        None => Err(db::prefixed("统计任务总览失败: ", String::from_str("Invalid column type"))),
    }
}

/// A recent task from (id, title, completed, due), marked late when completed after due.
pub fn recent_task_of(id: i64, title: String, completed_at: Option<String>, due_at: Option<String>) -> (r: RecentTask)
    ensures
        r.id == id,
        r.title@ == title@,
        crate::database::task_query::opt_text_view(r.completed_at) == crate::database::task_query::opt_text_view(completed_at),
        crate::database::task_query::opt_text_view(r.due_at) == crate::database::task_query::opt_text_view(due_at),
        r.late == spec_late(crate::database::task_query::opt_text_view(due_at), crate::database::task_query::opt_text_view(completed_at)),
{
    let late = is_late(&due_at, &completed_at);
    RecentTask { id, title, completed_at, due_at, late }
}

/// `limit` brought into 1..=100.
pub open spec fn spec_limit(limit: i64) -> int {
    if limit < 1 { 1 } else if limit > 100 { 100 } else { limit as int }
}

/// How many recent tasks are asked for: `limit` brought into 1..=100.
pub fn limit_param(limit: i64) -> (r: i64)
    ensures
        r == spec_limit(limit),
{
    if limit < 1 { 1 } else if limit > 100 { 100 } else { limit }
}

/// The parameters of the recent-tasks query: the limit brought into 1..=100.
pub fn recent_params(limit: i64) -> (r: Vec<SqlParam>)
    ensures
        params_view(r@) == seq![pint(spec_limit(limit))],
{
    let mut params: Vec<SqlParam> = Vec::new();
    params.push(SqlParam::Integer(limit_param(limit)));
    assert(params_view(params@) =~= seq![pint(spec_limit(limit))]);
    params
}

/// `v` are the recent tasks of the rows, one per row in order.
pub open spec fn is_recent_list(rows: Seq<Vec<SqlValue>>, v: Seq<RecentTask>) -> bool {
    &&& forall|k: int| 0 <= k < rows.len() ==> (#[trigger] recent_row(rows[k]@)) is Some
    &&& v.len() == rows.len()
    &&& forall|i: int| 0 <= i < v.len() ==> is_recent_task(recent_row(rows[i]@)->Some_0, #[trigger] v[i])
}

/// The statement of the recent-tasks query, bound to `recent_params(limit)`.
pub const RECENT_SQL: &'static str = "SELECT id, title, completed_at, due_at FROM tasks
             WHERE status = 'COMPLETED' AND completed_at IS NOT NULL
             ORDER BY completed_at DESC LIMIT ?1";

/// The most recently completed tasks, latest first: `RECENT_SQL` bound to
/// `recent_params(limit)`, its rows decoded by `recent_tasks_of_rows`.
pub fn recent_completed_tasks(conn: &rusqlite::Connection, limit: i64) -> (r: Result<Vec<RecentTask>, String>)
    ensures
        r matches Err(e) ==> "查询最近完成任务失败: "@.is_prefix_of(e@),
        r is Ok ==> exists|rows: Seq<Vec<SqlValue>>| #[trigger] is_recent_list(rows, r->Ok_0@),
{
    let params = recent_params(limit);
    let rows = match db::query(conn, RECENT_SQL, &params) {
        Ok(rows) => rows,
        Err(e) => return Err(db::prefixed("查询最近完成任务失败: ", e)),
    };
    match recent_tasks_of_rows(&rows) {
        Some(v) => {
            let r: Result<Vec<RecentTask>, String> = Ok(v);
            assert(is_recent_list(rows@, r->Ok_0@));
            r
        },
        None => Err(db::prefixed("查询最近完成任务失败: ", String::from_str("Invalid column type"))),
    }
}

/// The (id, title, completed, due) a row holds, if it holds them.
pub open spec fn recent_row(row: Seq<SqlValue>) -> Option<(i64, Seq<char>, Option<Seq<char>>, Option<Seq<char>>)> {
    if row.len() == 4 && spec_int(row[0]) is Some && spec_text(row[1]) is Some && spec_opt_text(row[2]) is Some
        && spec_opt_text(row[3]) is Some {
        Some((spec_int(row[0])->Some_0, spec_text(row[1])->Some_0, spec_opt_text(row[2])->Some_0, spec_opt_text(row[3])->Some_0))
    } else {
        None
    }
}

/// `t` is the recent task of the row fields `x`, marked late when completed after due.
pub open spec fn is_recent_task(x: (i64, Seq<char>, Option<Seq<char>>, Option<Seq<char>>), t: RecentTask) -> bool {
    &&& t.id == x.0
    &&& t.title@ == x.1
    &&& crate::database::task_query::opt_text_view(t.completed_at) == x.2
    &&& crate::database::task_query::opt_text_view(t.due_at) == x.3
    &&& t.late == spec_late(x.3, x.2)
}

/// The recent tasks of the rows, in row order; `None` when a row does not hold one.
pub fn recent_tasks_of_rows(rows: &Vec<Vec<SqlValue>>) -> (r: Option<Vec<RecentTask>>)
    ensures
        r is Some <==> forall|k: int| 0 <= k < rows.len() ==> (#[trigger] recent_row(rows@[k]@)) is Some,
        r matches Some(v) ==> v.len() == rows.len() && forall|i: int|
            0 <= i < v.len() ==> is_recent_task(recent_row(rows@[i]@)->Some_0, #[trigger] v@[i]),
{
    let mut out: Vec<RecentTask> = Vec::new();
    let mut i: usize = 0;
    while i < rows.len()
        invariant
            i <= rows.len(),
            out.len() == i,
            forall|k: int| 0 <= k < i ==> (#[trigger] recent_row(rows@[k]@)) is Some,
            forall|k: int| 0 <= k < i ==> is_recent_task(recent_row(rows@[k]@)->Some_0, #[trigger] out@[k]),
        decreases rows.len() - i,
    {
        let row = &rows[i];
        if row.len() != 4 {
            assert(recent_row(rows@[i as int]@) is None);
            return None;
        }
        match (db::cell_int(&row[0]), db::cell_text(&row[1]), db::cell_opt_text(&row[2]), db::cell_opt_text(&row[3])) {
            (Some(id), Some(title), Some(c), Some(d)) => {
                out.push(recent_task_of(id, title, c, d));
            },
            _ => {
                assert(recent_row(rows@[i as int]@) is None);
                return None;
            },
        }
        i += 1;
    }
    Some(out)
}

} // verus!
