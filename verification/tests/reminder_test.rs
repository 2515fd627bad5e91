use chrono::{Duration, Utc};
use floatdo::database::models::{Priority, Task, TaskStatus};
use floatdo::reminder::{collect_due_reminders, keep_latest, reminder_key, MAX_REMINDED_KEYS};
use floatdo::time::Instant;
use floatdo::reminder::PetReminder;

fn instant(d: chrono::DateTime<Utc>) -> Instant {
    Instant { secs: d.timestamp(), nanos: d.timestamp_subsec_nanos() }
}

/// The reminders due at `now` with a lead of `lead_minutes` whole minutes.
fn collect(tasks: &[Task], now: chrono::DateTime<Utc>, reminded: &[String], lead_minutes: i64) -> Vec<PetReminder> {
    collect_due_reminders(&tasks.to_vec(), instant(now), &reminded.to_vec(), lead_minutes * 60, lead_minutes)
}

fn make_task(id: i64, status: TaskStatus, due_at: Option<String>) -> Task {
    Task {
        id,
        title: format!("任务{id}"),
        description: String::new(),
        status,
        priority: Priority::Medium,
        category_id: None,
        tags: "[]".into(),
        created_at: "2026-08-29T00:00:00Z".into(),
        updated_at: "2026-08-29T00:00:00Z".into(),
        due_at,
        completed_at: None,
        estimated_minutes: None,
        reminder_enabled: false,
        reminder_time: None,
        repeat_rule: None,
        sort_order: 0,
    }
}

fn at(secs: &str) -> chrono::DateTime<Utc> {
    chrono::NaiveDateTime::parse_from_str(secs, "%Y-%m-%d %H:%M:%S")
        .unwrap()
        .and_utc()
}

#[test]
fn due_soon_task_gets_reminded() {
    let now = at("2026-08-29 10:00:00");
    // 5 分钟后到期 → DUE_SOON
    let task = make_task(1, TaskStatus::Todo, Some((now + Duration::minutes(5)).to_rfc3339()));
    let reminders = collect(&[task], now, &[], 10);
    assert_eq!(reminders.len(), 1);
    assert_eq!(reminders[0].kind, "DUE_SOON");
    assert_eq!(reminders[0].task_id, 1);
    assert_eq!(reminders[0].title, "任务1");
}

#[test]
fn just_overdue_task_gets_reminded() {
    let now = at("2026-08-29 10:00:00");
    // 逾期 1 分钟 → OVERDUE
    let task = make_task(2, TaskStatus::Todo, Some((now - Duration::minutes(1)).to_rfc3339()));
    let reminders = collect(&[task], now, &[], 10);
    assert_eq!(reminders.len(), 1);
    assert_eq!(reminders[0].kind, "OVERDUE");
}

#[test]
fn far_future_and_long_overdue_are_ignored() {
    let now = at("2026-08-29 10:00:00");
    let tasks = vec![
        // 明天才到期
        make_task(3, TaskStatus::Todo, Some((now + Duration::hours(24)).to_rfc3339())),
        // 早就逾期（老数据，不应轰炸）
        make_task(4, TaskStatus::Todo, Some((now - Duration::hours(24)).to_rfc3339())),
        // 没有截止时间
        make_task(5, TaskStatus::Todo, None),
        // 截止时间格式非法
        make_task(6, TaskStatus::Todo, Some("not-a-date".into())),
    ];
    assert!(collect(&tasks, now, &[], 10).is_empty());
}

#[test]
fn completed_and_cancelled_are_ignored() {
    let now = at("2026-08-29 10:00:00");
    let due = Some((now + Duration::minutes(5)).to_rfc3339());
    let tasks = vec![
        make_task(7, TaskStatus::Completed, due.clone()),
        make_task(8, TaskStatus::Cancelled, due),
    ];
    assert!(collect(&tasks, now, &[], 10).is_empty());
}

#[test]
fn already_reminded_keys_are_skipped() {
    let now = at("2026-08-29 10:00:00");
    let due = (now + Duration::minutes(5)).to_rfc3339();
    let task = make_task(9, TaskStatus::Todo, Some(due.clone()));

    let reminded = vec![format!("DUE_SOON:9:{due}")];
    assert!(collect(&[task.clone()], now, &reminded, 10).is_empty());

    // 同一任务换成 OVERDUE key 后仍会提醒（各提醒一次）
    let overdue_key = vec![format!("OVERDUE:9:{due}")];
    let reminders = collect(&[task], now, &overdue_key, 10);
    assert_eq!(reminders.len(), 1);
    assert_eq!(reminders[0].kind, "DUE_SOON");
}

#[test]
fn lead_minutes_controls_due_soon_window() {
    let now = Utc::now();
    // 半小时后到期
    let task = make_task(1, TaskStatus::Todo, Some((now + Duration::minutes(30)).to_rfc3339()));

    // 默认提前 10 分钟：还不到提醒的时候
    assert!(collect(&[task.clone()], now, &[], 10).is_empty());
    // 用户把提前量调成 60 分钟：立刻进入提醒窗口
    let reminders = collect(&[task], now, &[], 60);
    assert_eq!(reminders.len(), 1);
    assert_eq!(reminders[0].kind, "DUE_SOON");
    // 气泡文案要显示真实的提前量，而不是写死的 10
    assert_eq!(reminders[0].lead_minutes, 60);
}

#[test]
fn remembered_keys_are_capped_at_the_latest() {
    let keys: Vec<String> = (0..MAX_REMINDED_KEYS + 3).map(|i| format!("k{i}")).collect();
    let kept = keep_latest(keys.clone());
    assert_eq!(kept.len(), MAX_REMINDED_KEYS);
    assert_eq!(kept[0], "k3");
    assert_eq!(kept, keys[3..].to_vec());
    let few = vec!["a".to_string(), "b".to_string()];
    assert_eq!(keep_latest(few.clone()), few);
    assert_eq!(reminder_key("OVERDUE", 7, "2026-01-01T00:00:00Z"), "OVERDUE:7:2026-01-01T00:00:00Z");
}
