//! The statistics report: the per-day series and overviews of the statistics
//! module, put together with their totals.
use crate::database::stats_repo::{self, FocusDayStat, RecentTask, TaskDayStat, TaskFocusStat, TaskOverview};
use vstd::prelude::*;

verus! {

/// Days covered when none are asked for.
pub const DEFAULT_DAYS: i64 = 7;
pub const MAX_DAYS: i64 = 90;
/// How many recently completed tasks are listed.
pub const RECENT_TASKS_LIMIT: i64 = 10;

/// The statistics page's data.
#[derive(Debug, Clone)]
pub struct StatsReport {
    /// The number of days covered.
    pub days: i64,
    pub focus_days: Vec<FocusDayStat>,
    pub task_days: Vec<TaskDayStat>,
    /// Focus seconds and completed sessions over the covered days.
    pub focus_total_seconds: i64,
    pub focus_total_sessions: i64,
    /// Focus seconds of today (the last day of the series).
    pub focus_today_seconds: i64,
    pub task_overview: TaskOverview,
    pub recent_tasks: Vec<RecentTask>,
    /// Focus time per task over the covered days, longest first.
    pub focus_by_task: Vec<TaskFocusStat>,
}

pub open spec fn spec_clamp_days(days: i64) -> i64 {
    if days < 1 { 1 } else if days > MAX_DAYS { MAX_DAYS } else { days }
}

/// The covered days, brought into 1..=90.
pub fn clamp_days(days: i64) -> (r: i64)
    ensures
        r == spec_clamp_days(days),
{
    if days < 1 { 1 } else if days > MAX_DAYS { MAX_DAYS } else { days }
}

pub open spec fn sum_seconds(days: Seq<FocusDayStat>) -> int
    decreases days.len(),
{
    if days.len() == 0 { 0 } else { sum_seconds(days.drop_last()) + days.last().focus_seconds }
}

pub open spec fn sum_sessions(days: Seq<FocusDayStat>) -> int
    decreases days.len(),
{
    if days.len() == 0 { 0 } else { sum_sessions(days.drop_last()) + days.last().sessions }
}

pub open spec fn fits_i64(v: int) -> bool {
    i64::MIN <= v <= i64::MAX
}

/// The focus seconds and sessions summed over the days, when both sums fit in
/// 64 bits.
pub fn focus_totals(days: &Vec<FocusDayStat>) -> (r: Option<(i64, i64)>)
    ensures
        match r {
            Some((s, n)) => s == sum_seconds(days@) && n == sum_sessions(days@),
            None => !(fits_i64(sum_seconds(days@)) && fits_i64(sum_sessions(days@))),
        },
{
    let mut seconds: i128 = 0;
    let mut sessions: i128 = 0;
    let mut i: usize = 0;
    while i < days.len()
        invariant
            i <= days.len(),
            seconds == sum_seconds(days@.take(i as int)),
            sessions == sum_sessions(days@.take(i as int)),
            -(i as int) * 0x8000_0000_0000_0000 <= seconds <= (i as int) * 0x8000_0000_0000_0000,
            -(i as int) * 0x8000_0000_0000_0000 <= sessions <= (i as int) * 0x8000_0000_0000_0000,
        decreases days.len() - i,
    {
        assert(days@.take(i + 1).drop_last() =~= days@.take(i as int));
        proof {
            assert((i as int) * 0x8000_0000_0000_0000 + 0x8000_0000_0000_0000 <= 0x1_0000_0000_0000_0000 * 0x8000_0000_0000_0000)
                by (nonlinear_arith)
                requires
                    i < 0x1_0000_0000_0000_0000,
            ;
        }
        seconds = seconds + days[i].focus_seconds as i128;
        sessions = sessions + days[i].sessions as i128;
        i += 1;
        assert(-(i as int) * 0x8000_0000_0000_0000 == -((i - 1) as int) * 0x8000_0000_0000_0000 - 0x8000_0000_0000_0000);
    }
    assert(days@.take(days.len() as int) =~= days@);
    if seconds < i64::MIN as i128 || seconds > i64::MAX as i128 || sessions < i64::MIN as i128 || sessions
        > i64::MAX as i128 {
        return None;
    }
    Some((seconds as i64, sessions as i64))
}

/// Today's focus seconds: those of the last day of the series (0 when it is empty).
pub fn today_focus(days: &Vec<FocusDayStat>) -> (r: i64)
    ensures
        r == if days.len() == 0 { 0 } else { days@.last().focus_seconds },
{
    if days.len() == 0 {
        0
    } else {
        days[days.len() - 1].focus_seconds
    }
}

/// Builds the report for the last `days` days (brought into 1..=90), today included.
pub fn build_report(conn: &rusqlite::Connection, days: i64) -> (r: Result<StatsReport, String>)
    ensures
        r matches Ok(rep) ==> {
            &&& rep.days == spec_clamp_days(days)
            &&& rep.focus_days.len() == stats_repo::spec_range_days(spec_clamp_days(days))
            &&& rep.focus_total_seconds == sum_seconds(rep.focus_days@)
            &&& rep.focus_total_sessions == sum_sessions(rep.focus_days@)
            &&& rep.focus_today_seconds == if rep.focus_days.len() == 0 {
                0
            } else {
                rep.focus_days@.last().focus_seconds
            }
        },
{
    let days = clamp_days(days);
    let focus_days = stats_repo::focus_daily(conn, days)?;
    let task_days = stats_repo::task_daily_completed(conn, days)?;
    let (focus_total_seconds, focus_total_sessions) = match focus_totals(&focus_days) {
        Some(t) => t,
        None => {
            return Err(crate::database::db::prefixed("统计专注数据失败: ", String::from_str("数值溢出")));
        },
    };
    let focus_today_seconds = today_focus(&focus_days);
    let task_overview = stats_repo::task_overview(conn)?;
    let recent_tasks = stats_repo::recent_completed_tasks(conn, RECENT_TASKS_LIMIT)?;
    let focus_by_task = stats_repo::focus_by_task(conn, days)?;
    Ok(StatsReport {
        days,
        focus_days,
        task_days,
        focus_total_seconds,
        focus_total_sessions,
        focus_today_seconds,
        task_overview,
        recent_tasks,
        focus_by_task,
    })
}

} // verus!
