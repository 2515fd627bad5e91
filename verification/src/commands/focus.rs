//! Focus mode (a pomodoro cycle): a round of focus, then a round of rest, timed by
//! the back end. The running round is kept in memory as an `ActivePhase`; sessions are
//! stored in the focus table. The decisions of each step are pure functions here;
//! the steps that touch the database call them.
use crate::database::focus_repo;
use crate::database::models::{FocusSession, FocusStatus};
use crate::database::settings_repo;
use crate::time::{Instant, instant_before, instant_in_range, spec_plus_minutes, whole_seconds};
use vstd::prelude::*;

verus! {

pub const FOCUS_WORK_MINUTES_KEY: &'static str = "focusWorkMinutes";
pub const FOCUS_BREAK_MINUTES_KEY: &'static str = "focusBreakMinutes";
pub const DEFAULT_WORK_MINUTES: i64 = 25;
pub const DEFAULT_BREAK_MINUTES: i64 = 5;
/// Allowed length of a round, in minutes.
pub const MIN_MINUTES: i64 = 1;
pub const MAX_MINUTES: i64 = 180;

#[derive(Debug, Clone, Copy, PartialEq, Eq, Structural)]
pub enum Phase {
    Focus,
    Break,
}

/// The round in progress and when it ends.
#[derive(Debug, Clone, Copy, PartialEq, Eq, Structural)]
pub struct ActivePhase {
    pub phase: Phase,
    pub ends_at: Instant,
}

/// What the focus panel shows.
#[derive(Debug, Clone)]
pub struct FocusState {
    /// IDLE / FOCUS / BREAK
    pub phase: String,
    pub ends_at: Option<String>,
    pub session: Option<FocusSession>,
    pub work_minutes: i64,
    pub break_minutes: i64,
    pub today_seconds: i64,
}

pub open spec fn spec_clamp_minutes(m: i64) -> i64 {
    if m < MIN_MINUTES { MIN_MINUTES } else if m > MAX_MINUTES { MAX_MINUTES } else { m }
}

/// A round length brought into 1..=180 minutes.
pub fn clamp_minutes(minutes: i64) -> (r: i64)
    ensures
        r == spec_clamp_minutes(minutes),
        MIN_MINUTES <= r <= MAX_MINUTES,
{
    if minutes < MIN_MINUTES { MIN_MINUTES } else if minutes > MAX_MINUTES { MAX_MINUTES } else { minutes }
}

/// Clamping twice is clamping once.
pub proof fn lemma_clamp_minutes_idempotent(m: i64)
    ensures
        spec_clamp_minutes(spec_clamp_minutes(m)) == spec_clamp_minutes(m),
{
}

pub open spec fn spec_actual_focus_seconds(started_at: Instant, planned_minutes: i64, now: Instant) -> int {
    let planned_secs = (if planned_minutes < 0 { 0 } else { planned_minutes as int }) * 60;
    let ran = whole_seconds(now.total_nanos() - started_at.total_nanos());
    let ran0 = if ran < 0 { 0 } else { ran };
    if ran0 < planned_secs { ran0 } else { planned_secs }
}

/// Seconds of focus of a round stopped early: the whole seconds it ran, at least 0
/// and at most the planned length.
pub fn actual_focus_seconds(started_at: Instant, planned_minutes: i64, now: Instant) -> (r: i64)
    requires
        instant_in_range(started_at),
        instant_in_range(now),
        planned_minutes <= i64::MAX / 60,
    ensures
        r == spec_actual_focus_seconds(started_at, planned_minutes, now),
        0 <= r,
        planned_minutes >= 0 ==> r <= planned_minutes * 60,
{
    let planned_secs: i64 = (if planned_minutes < 0 { 0 } else { planned_minutes }) * 60;
    let ran = crate::time::seconds_between(now, started_at);
    let ran0 = if ran < 0 { 0 } else { ran };
    if ran0 < planned_secs { ran0 } else { planned_secs }
}

/// A minutes setting: the stored whole number when it lies in 1..=180, else the default.
pub open spec fn spec_minutes_setting(raw: Option<Seq<char>>, default: i64) -> i64 {
    match raw {
        Some(s) => match crate::text::spec_parse_int(s, i64::MIN as int, i64::MAX as int) {
            Some(v) => if MIN_MINUTES <= v <= MAX_MINUTES { v as i64 } else { default },
            None => default,
        },
        None => default,
    }
}

pub fn minutes_setting(raw: &Option<String>, default: i64) -> (r: i64)
    ensures
        r == spec_minutes_setting(crate::database::task_query::opt_text_view(*raw), default),
{
    match raw {
        Some(s) => match crate::text::parse_i64(s.as_str()) {
            Some(v) => if MIN_MINUTES <= v && v <= MAX_MINUTES { v } else { default },
            None => default,
        },
        None => default,
    }
}

/// Reads a minutes setting (see `spec_minutes_setting`).
pub fn read_minutes(conn: &rusqlite::Connection, key: &str, default: i64) -> (r: Result<i64, String>)
    ensures
        r matches Ok(v) ==> v == default || MIN_MINUTES <= v <= MAX_MINUTES,
{
    let raw = settings_repo::get(conn, key)?;
    Ok(minutes_setting(&raw, default))
}

/// What a tick of the scheduler does to the running round.
#[derive(Debug, Clone, Copy, PartialEq, Eq, Structural)]
pub enum TickOutcome {
    /// Nothing due yet (or nothing running).
    Unchanged,
    /// The focus round ran out: record the running session as completed with these
    /// seconds and start the rest round.
    FocusCompleted { seconds: i64 },
    /// The rest round ran out: back to idle.
    BreakOver,
}

/// The next round and what to record, for a tick at `now`.
pub open spec fn spec_tick(active: Option<ActivePhase>, now: Instant, work_minutes: i64, break_minutes: i64) -> (Option<ActivePhase>, TickOutcome) {
    match active {
        None => (None, TickOutcome::Unchanged),
        Some(a) => if now.before(a.ends_at) {
            (active, TickOutcome::Unchanged)
        } else {
            match a.phase {
                Phase::Focus => (
                    Some(ActivePhase { phase: Phase::Break, ends_at: spec_plus_minutes(now, break_minutes as int) }),
                    TickOutcome::FocusCompleted { seconds: (work_minutes * 60) as i64 },
                ),
                Phase::Break => (None, TickOutcome::BreakOver),
            }
        },
    }
}

/// A scheduler tick: a round whose end has come moves on (focus to rest, rest to idle).
pub fn tick_step(active: Option<ActivePhase>, now: Instant, work_minutes: i64, break_minutes: i64) -> (r: (Option<ActivePhase>, TickOutcome))
    requires
        instant_in_range(now),
        MIN_MINUTES <= work_minutes <= MAX_MINUTES,
        MIN_MINUTES <= break_minutes <= MAX_MINUTES,
    ensures
        r == spec_tick(active, now, work_minutes, break_minutes),
{
    match active {
        None => (None, TickOutcome::Unchanged),
        Some(a) => {
            if instant_before(now, a.ends_at) {
                (active, TickOutcome::Unchanged)
            } else {
                match a.phase {
                    Phase::Focus => (
                        Some(ActivePhase { phase: Phase::Break, ends_at: crate::time::plus_minutes(now, break_minutes) }),
                        TickOutcome::FocusCompleted { seconds: work_minutes * 60 },
                    ),
                    Phase::Break => (None, TickOutcome::BreakOver),
                }
            }
        },
    }
}

/// What starting a round decides.
#[derive(Debug, Clone, Copy, PartialEq, Eq, Structural)]
pub enum StartDecision {
    /// A round is already running: keep it.
    AlreadyActive,
    /// Open a running session of this many minutes and run the round.
    Begin { planned_minutes: i64, round: ActivePhase },
}

pub open spec fn spec_start(active: Option<ActivePhase>, now: Instant, requested: Option<i64>, work_minutes: i64) -> StartDecision {
    match active {
        Some(_) => StartDecision::AlreadyActive,
        None => {
            let planned = spec_clamp_minutes(match requested { Some(m) => m, None => work_minutes });
            StartDecision::Begin {
                planned_minutes: planned,
                round: ActivePhase { phase: Phase::Focus, ends_at: spec_plus_minutes(now, planned as int) },
            }
        },
    }
}

/// Starting a round: none while one runs; otherwise a focus round of the requested
/// length (the setting when none is requested), clamped to 1..=180 minutes.
pub fn start_step(active: Option<ActivePhase>, now: Instant, requested: Option<i64>, work_minutes: i64) -> (r: StartDecision)
    requires
        instant_in_range(now),
    ensures
        r == spec_start(active, now, requested, work_minutes),
{
    match active {
        Some(_) => StartDecision::AlreadyActive,
        None => {
            let planned = clamp_minutes(match requested { Some(m) => m, None => work_minutes });
            StartDecision::Begin {
                planned_minutes: planned,
                round: ActivePhase { phase: Phase::Focus, ends_at: crate::time::plus_minutes(now, planned) },
            }
        },
    }
}

/// Stopping: the runtime goes idle; a focus round in progress is recorded as
/// interrupted (the returned flag).
pub fn stop_step(active: Option<ActivePhase>) -> (r: (Option<ActivePhase>, bool))
    ensures
        r.0 is None,
        r.1 == (active matches Some(a) && a.phase == Phase::Focus),
{
    match active {
        Some(a) => (None, a.phase == Phase::Focus),
        None => (None, false),
    }
}

/// What restoring a session left running by an earlier run decides.
#[derive(Debug, Clone, Copy, PartialEq, Eq, Structural)]
pub enum RestoreDecision {
    /// Its time has passed: record it as completed with these seconds; stay idle.
    FinishCompleted { seconds: i64 },
    /// Still running: resume the focus round.
    Resume(ActivePhase),
}

/// Restoring a running session that started at `started` for `planned_minutes`.
pub fn restore_step(started: Instant, planned_minutes: i64, now: Instant) -> (r: RestoreDecision)
    requires
        instant_in_range(started),
        instant_in_range(now),
        crate::time::minutes_fit(planned_minutes),
        crate::time::chrono_secs(started.secs + planned_minutes * 60),
    ensures
        ({
            let ends = spec_plus_minutes(started, planned_minutes as int);
            if now.before(ends) {
                r == RestoreDecision::Resume(ActivePhase { phase: Phase::Focus, ends_at: ends })
            } else {
                r == RestoreDecision::FinishCompleted { seconds: (planned_minutes * 60) as i64 }
            }
        }),
{
    let ends = crate::time::plus_minutes(started, planned_minutes);
    if instant_before(now, ends) {
        RestoreDecision::Resume(ActivePhase { phase: Phase::Focus, ends_at: ends })
    } else {
        RestoreDecision::FinishCompleted { seconds: planned_minutes * 60 }
    }
}

/// A full cycle: from idle, a started round runs to its end, turns into rest, and the
/// rest round ends in idle; the session is recorded with the work length.
pub proof fn lemma_focus_cycle(now0: Instant, now1: Instant, now2: Instant, requested: Option<i64>, work: i64, rest: i64)
    requires
        spec_start(None, now0, requested, work) matches StartDecision::Begin { round, .. } && !now1.before(round.ends_at),
        !now2.before(spec_plus_minutes(now1, rest as int)),
    ensures
        ({
            let round = spec_start(None, now0, requested, work)->Begin_round;
            let t1 = spec_tick(Some(round), now1, work, rest);
            &&& t1.1 == TickOutcome::FocusCompleted { seconds: (work * 60) as i64 }
            &&& t1.0 matches Some(b) && b.phase == Phase::Break
            &&& spec_tick(t1.0, now2, work, rest) == (None::<ActivePhase>, TickOutcome::BreakOver)
        }),
{
}

/// Idle stays idle under ticks; stopping always ends in idle.
pub proof fn lemma_idle_is_stable(now: Instant, work: i64, rest: i64)
    ensures
        spec_tick(None, now, work, rest) == (None::<ActivePhase>, TickOutcome::Unchanged),
{
}

pub open spec fn spec_phase_name(active: Option<ActivePhase>) -> Seq<char> {
    match active {
        None => "IDLE"@,
        Some(a) => match a.phase {
            Phase::Focus => "FOCUS"@,
            Phase::Break => "BREAK"@,
        },
    }
}

/// Seconds of focus completed today (sessions started since local midnight).
pub fn today_seconds(conn: &rusqlite::Connection) -> (r: Result<i64, String>)
    ensures
        r matches Err(e) ==> "统计专注时长失败: "@.is_prefix_of(e@),
        r matches Ok(v) ==> exists|rows: Seq<Vec<crate::database::db::SqlValue>>|
            #[trigger] focus_repo::spec_seconds_of_rows(rows) == Some(v),
{
    let midnight = crate::time::local_day_start_rfc3339(crate::time::today_local());
    focus_repo::completed_seconds_since(conn, midnight.as_str())
}

/// The state the focus panel shows for the given round.
pub fn build_state(conn: &rusqlite::Connection, active: &Option<ActivePhase>) -> (r: Result<FocusState, String>)
    ensures
        r matches Ok(st) ==> st.phase@ == spec_phase_name(*active)
            && (active is None <==> st.ends_at is None)
            && (!(active matches Some(a) && a.phase == Phase::Focus) ==> st.session is None)
            && (active matches Some(a) ==> st.ends_at matches Some(e) && e@ == crate::time::spec_instant_rfc3339(a.ends_at))
            && (st.work_minutes == DEFAULT_WORK_MINUTES || MIN_MINUTES <= st.work_minutes <= MAX_MINUTES)
            && (st.break_minutes == DEFAULT_BREAK_MINUTES || MIN_MINUTES <= st.break_minutes <= MAX_MINUTES),
{
    let (phase, ends_at, session) = match active {
        Some(a) => {
            let session = match a.phase {
                Phase::Focus => focus_repo::running(conn)?,
                Phase::Break => None,
            };
            let ends = match crate::time::instant_rfc3339(a.ends_at) {
                Some(e) => e,
                None => return Err(String::from_str("专注状态时间无效")),
            };
            let name = match a.phase {
                Phase::Focus => "FOCUS",
                Phase::Break => "BREAK",
            };
            (name, Some(ends), session)
        },
        None => ("IDLE", None, None),
    };
    Ok(FocusState {
        phase: String::from_str(phase),
        ends_at,
        session,
        work_minutes: read_minutes(conn, FOCUS_WORK_MINUTES_KEY, DEFAULT_WORK_MINUTES)?,
        break_minutes: read_minutes(conn, FOCUS_BREAK_MINUTES_KEY, DEFAULT_BREAK_MINUTES)?,
        today_seconds: today_seconds(conn)?,
    })
}

/// How the running session is recorded after a tick: when the focus round ran out,
/// as completed with its seconds; otherwise not at all.
pub open spec fn spec_session_record(outcome: TickOutcome) -> Option<(i64, FocusStatus)> {
    match outcome {
        TickOutcome::FocusCompleted { seconds } => Some((seconds, FocusStatus::Completed)),
        _ => None,
    }
}

/// The record a tick's outcome asks for (see `spec_session_record`).
pub fn session_record(outcome: TickOutcome) -> (r: Option<(i64, FocusStatus)>)
    ensures
        r == spec_session_record(outcome),
{
    match outcome {
        TickOutcome::FocusCompleted { seconds } => Some((seconds, FocusStatus::Completed)),
        _ => None,
    }
}

/// A focus round that has run its course counts in full: a tick at or after its end
/// records the running session as COMPLETED with the work length in seconds. A tick
/// before the end, a tick on a rest round and a tick with nothing running record
/// nothing.
pub proof fn lemma_tick_records_completed_round(active: Option<ActivePhase>, now: Instant, work: i64, rest: i64)
    requires
        MIN_MINUTES <= work <= MAX_MINUTES,
    ensures
        (active matches Some(a) && a.phase == Phase::Focus && !now.before(a.ends_at)) ==> spec_session_record(
            spec_tick(active, now, work, rest).1,
        ) == Some(((work * 60) as i64, FocusStatus::Completed)),
        !(active matches Some(a) && a.phase == Phase::Focus && !now.before(a.ends_at)) ==> spec_session_record(
            spec_tick(active, now, work, rest).1,
        ) is None,
        spec_session_record(spec_tick(active, now, work, rest).1) matches Some(rec) ==> rec.1 != FocusStatus::Interrupted
            && rec.0 > 0,
{
}

/// A scheduler tick on the running round: when its end has come, a focus round is
/// recorded as completed (with the work length) and rest begins; a rest round ends.
/// Returns whether the round changed.
pub fn tick(conn: &rusqlite::Connection, active: &mut Option<ActivePhase>) -> (r: Result<bool, String>)
    ensures
        r matches Ok(false) ==> *final(active) == *old(active),
        r matches Ok(true) ==> ((*old(active)) matches Some(a) && (a.phase == Phase::Break ==> *final(active) is None)
            && (a.phase == Phase::Focus ==> ((*final(active)) matches Some(b) && b.phase == Phase::Break))),
        r is Err ==> *final(active) == *old(active),
        (*old(active)) is None ==> r == Ok::<bool, String>(false),
        ((*old(active)) matches Some(a) && a.phase == Phase::Break) ==> r is Ok,
{
    let current = match *active {
        Some(a) => a,
        None => return Ok(false),
    };
    let now = crate::time::now();
    if instant_before(now, current.ends_at) {
        return Ok(false);
    }
    match current.phase {
        Phase::Focus => {
            let minutes = read_minutes(conn, FOCUS_WORK_MINUTES_KEY, DEFAULT_WORK_MINUTES)?;
            let rest = read_minutes(conn, FOCUS_BREAK_MINUTES_KEY, DEFAULT_BREAK_MINUTES)?;
            let minutes = clamp_minutes(minutes);
            let rest = clamp_minutes(rest);
            let (next, outcome) = tick_step(Some(current), now, minutes, rest);
            if let Some((seconds, status)) = session_record(outcome) {
                if let Some(session) = focus_repo::running(conn)? {
                    focus_repo::finish(conn, session.id, seconds, &status)?;
                }
            }
            *active = next;
        },
        Phase::Break => {
            *active = None;
        },
    }
    Ok(true)
}

/// Starts a focus round unless one is running: opens a running session for the task
/// with the requested length (the setting when none), clamped to 1..=180 minutes.
pub fn start(conn: &rusqlite::Connection, active: &mut Option<ActivePhase>, task_id: Option<i64>, minutes: Option<i64>) -> (r: Result<(), String>)
    ensures
        (*old(active)) is Some ==> *final(active) == *old(active) && r is Ok,
        ((*old(active)) is None && r is Ok) ==> ((*final(active)) matches Some(a) && a.phase == Phase::Focus),
        ((*old(active)) is None && r is Ok) ==> exists|now: Instant, work: i64|
            #![trigger spec_start(None, now, minutes, work)]
            {
                &&& work == DEFAULT_WORK_MINUTES || MIN_MINUTES <= work <= MAX_MINUTES
                &&& spec_start(None, now, minutes, work) matches StartDecision::Begin { round, .. }
                &&& *final(active) == Some(spec_start(None, now, minutes, work)->Begin_round)
            },
        r is Err ==> *final(active) == *old(active),
{
    if active.is_some() {
        return Ok(());
    }
    let work = read_minutes(conn, FOCUS_WORK_MINUTES_KEY, DEFAULT_WORK_MINUTES)?;
    let now = crate::time::now();
    match start_step(None, now, minutes, work) {
        StartDecision::Begin { planned_minutes, round } => {
            focus_repo::create_running(conn, task_id, planned_minutes)?;
            *active = Some(round);
            Ok(())
        },
        StartDecision::AlreadyActive => Ok(()),
    }
}

/// Stops the round: the runtime goes idle; a focus round's running session is
/// recorded as interrupted with the seconds it ran (at most its planned length).
pub fn stop(conn: &rusqlite::Connection, active: &mut Option<ActivePhase>) -> (r: Result<(), String>)
    ensures
        *final(active) is None,
        !((*old(active)) matches Some(a) && a.phase == Phase::Focus) ==> r is Ok,
{
    let (next, interrupt) = stop_step(*active);
    *active = next;
    if interrupt {
        if let Some(session) = focus_repo::running(conn)? {
            let started = match crate::time::parse_rfc3339_or_error(session.started_at.as_str()) {
                Ok(t) => t,
                Err(e) => return Err(crate::database::db::prefixed("专注会话时间解析失败: ", e)),
            };
            if session.planned_minutes > i64::MAX / 60 {
                return Err(String::from_str("专注会话时长无效"));
            }
            let actual = actual_focus_seconds(started, session.planned_minutes, crate::time::now());
            focus_repo::finish(conn, session.id, actual, &FocusStatus::Interrupted)?;
        }
    }
    Ok(())
}

/// Picks up a session left running by an earlier run: resumes its round, or records it
/// as completed when its time has passed.
pub fn restore(conn: &rusqlite::Connection, active: &mut Option<ActivePhase>) -> (r: Result<(), String>)
    ensures
        r is Err ==> *final(active) == *old(active),
        (*final(active) != *old(active)) ==> ((*final(active)) matches Some(a) && a.phase == Phase::Focus),
{
    let session = match focus_repo::running(conn)? {
        Some(s) => s,
        None => return Ok(()),
    };
    let started = match crate::time::parse_rfc3339_or_error(session.started_at.as_str()) {
        Ok(t) => t,
        Err(e) => return Err(crate::database::db::prefixed("专注会话时间解析失败: ", e)),
    };
    let planned = session.planned_minutes;
    if planned < -153_722_867_280_912 || planned > 153_722_867_280_912
        || (started.secs as i128) + (planned as i128) * 60 < -8_200_000_000_000
        || (started.secs as i128) + (planned as i128) * 60 > 8_200_000_000_000 {
        return Err(String::from_str("专注会话时长无效"));
    }
    match restore_step(started, session.planned_minutes, crate::time::now()) {
        RestoreDecision::FinishCompleted { seconds } => {
            focus_repo::finish(conn, session.id, seconds, &FocusStatus::Completed)?;
            Ok(())
        },
        RestoreDecision::Resume(round) => {
            *active = Some(round);
            Ok(())
        },
    }
}

} // verus!
