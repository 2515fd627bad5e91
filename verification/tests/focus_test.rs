use chrono::TimeZone;
use floatdo::commands::focus::{
    actual_focus_seconds, clamp_minutes, restore_step, start_step, stop_step, tick_step, ActivePhase, Phase, RestoreDecision,
    StartDecision, TickOutcome,
};
use floatdo::time::Instant;

fn instant(d: chrono::DateTime<chrono::Utc>) -> Instant {
    Instant { secs: d.timestamp(), nanos: d.timestamp_subsec_nanos() }
}

#[test]
fn actual_seconds_capped_at_planned() {
    let start = chrono::Utc.with_ymd_and_hms(2026, 1, 1, 12, 0, 0).unwrap();
    assert_eq!(actual_focus_seconds(instant(start), 25, instant(start + chrono::Duration::minutes(10))), 600);
    assert_eq!(actual_focus_seconds(instant(start), 25, instant(start + chrono::Duration::minutes(30))), 25 * 60);
    assert_eq!(actual_focus_seconds(instant(start), 25, instant(start)), 0);
}

#[test]
fn minutes_are_clamped_into_range() {
    assert_eq!(clamp_minutes(0), 1);
    assert_eq!(clamp_minutes(500), 180);
    assert_eq!(clamp_minutes(25), 25);
    assert_eq!(clamp_minutes(clamp_minutes(-7)), clamp_minutes(-7));
}

fn at(minutes: i64) -> Instant {
    let base = chrono::Utc.with_ymd_and_hms(2026, 3, 2, 9, 0, 0).unwrap();
    instant(base + chrono::Duration::minutes(minutes))
}

#[test]
fn a_round_runs_into_rest_and_then_idle() {
    let round = match start_step(None, at(0), None, 25) {
        StartDecision::Begin { planned_minutes, round } => {
            assert_eq!(planned_minutes, 25);
            round
        }
        StartDecision::AlreadyActive => panic!("nothing was running"),
    };
    assert_eq!(round.phase, Phase::Focus);
    assert_eq!(round.ends_at, at(25));
    assert_eq!(tick_step(Some(round), at(10), 25, 5), (Some(round), TickOutcome::Unchanged));
    let (next, outcome) = tick_step(Some(round), at(25), 25, 5);
    assert_eq!(outcome, TickOutcome::FocusCompleted { seconds: 1500 });
    let rest = next.unwrap();
    assert_eq!(rest.phase, Phase::Break);
    assert_eq!(rest.ends_at, at(30));
    assert_eq!(tick_step(next, at(30), 25, 5), (None, TickOutcome::BreakOver));
    assert_eq!(tick_step(None, at(31), 25, 5), (None, TickOutcome::Unchanged));
}

#[test]
fn starting_stopping_and_restoring() {
    let running = ActivePhase { phase: Phase::Focus, ends_at: at(20) };
    assert_eq!(start_step(Some(running), at(0), Some(10), 25), StartDecision::AlreadyActive);
    match start_step(None, at(0), Some(999), 25) {
        StartDecision::Begin { planned_minutes, round } => {
            assert_eq!(planned_minutes, 180);
            assert_eq!(round.ends_at, at(180));
        }
        StartDecision::AlreadyActive => panic!("nothing was running"),
    }
    assert_eq!(stop_step(Some(running)), (None, true));
    assert_eq!(stop_step(Some(ActivePhase { phase: Phase::Break, ends_at: at(5) })), (None, false));
    assert_eq!(stop_step(None), (None, false));
    assert_eq!(restore_step(at(0), 25, at(10)), RestoreDecision::Resume(ActivePhase { phase: Phase::Focus, ends_at: at(25) }));
    assert_eq!(restore_step(at(0), 25, at(40)), RestoreDecision::FinishCompleted { seconds: 1500 });
}
