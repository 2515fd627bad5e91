use floatdo::database::stats_repo::{limit_param, overview_of_rows, task_days_of_rows};
use floatdo::time::Instant;
use floatdo::commands::stats::{build_report, clamp_days, focus_totals, today_focus};
use floatdo::commands::tasks::{announces_completion, csv_escape, tasks_csv};
use floatdo::database::models::{Priority, Task, TaskStatus, TaskUpdate};
use floatdo::database::category_repo::categories_from_rows;
use floatdo::database::db::SqlValue;
use floatdo::database::stats_repo::{recent_tasks_of_rows, task_focus_stats, FocusDayStat};

fn task(id: i64, title: &str) -> Task {
    Task {
        id,
        title: title.into(),
        description: "line1\nline2".into(),
        status: TaskStatus::Completed,
        priority: Priority::High,
        category_id: None,
        tags: "[]".into(),
        created_at: "2026-01-01T00:00:00Z".into(),
        updated_at: "2026-01-01T00:00:00Z".into(),
        due_at: None,
        completed_at: Some("2026-01-02T00:00:00Z".into()),
        estimated_minutes: Some(30),
        reminder_enabled: false,
        reminder_time: None,
        repeat_rule: None,
        sort_order: 0,
    }
}

#[test]
fn csv_fields_are_quoted_when_needed() {
    assert_eq!(csv_escape("plain"), "plain");
    assert_eq!(csv_escape("a,b"), "\"a,b\"");
    assert_eq!(csv_escape("say \"hi\""), "\"say \"\"hi\"\"\"");
    assert_eq!(csv_escape("x\ry"), "\"x\ry\"");
}

#[test]
fn csv_has_header_and_one_line_per_task() {
    let text = tasks_csv(&vec![task(7, "买,菜")]);
    assert_eq!(
        text,
        "\u{FEFF}编号,标题,描述,状态,优先级,截止时间,完成时间,创建时间,预计分钟\n\
         7,\"买,菜\",\"line1\nline2\",COMPLETED,HIGH,,2026-01-02T00:00:00Z,2026-01-01T00:00:00Z,30\n"
    );
    assert_eq!(tasks_csv(&vec![]), "\u{FEFF}编号,标题,描述,状态,优先级,截止时间,完成时间,创建时间,预计分钟\n");
}

#[test]
fn completion_is_announced_only_for_completed_status() {
    let mut p = TaskUpdate::default();
    assert!(!announces_completion(&p));
    p.status = Some(TaskStatus::Completed);
    assert!(announces_completion(&p));
    p.status = Some(TaskStatus::Todo);
    assert!(!announces_completion(&p));
}

#[test]
fn report_totals_and_days() {
    assert_eq!(clamp_days(0), 1);
    assert_eq!(clamp_days(365), 90);
    let days = vec![
        FocusDayStat { date: "a".into(), focus_seconds: 60, sessions: 1 },
        FocusDayStat { date: "b".into(), focus_seconds: 1500, sessions: 2 },
    ];
    assert_eq!(focus_totals(&days), Some((1560, 3)));
    assert_eq!(today_focus(&days), 1500);
    assert_eq!(today_focus(&vec![]), 0);
    let big = vec![
        FocusDayStat { date: "a".into(), focus_seconds: i64::MAX, sessions: 1 },
        FocusDayStat { date: "b".into(), focus_seconds: 1, sessions: 1 },
    ];
    assert_eq!(focus_totals(&big), None);
}

#[test]
fn report_from_an_empty_database() {
    let dir = tempfile::tempdir().unwrap();
    let conn = floatdo::database::init(dir.path().to_str().unwrap()).unwrap();
    let report = build_report(&conn, 500).unwrap();
    assert_eq!(report.days, 90);
    assert_eq!(report.focus_days.len(), 90);
    assert_eq!(report.focus_total_seconds, 0);
    assert_eq!(report.focus_today_seconds, 0);
    assert_eq!(report.task_overview.total, 0);
}

#[test]
fn statistic_rows_are_decoded_in_order() {
    let rows = vec![
        vec![SqlValue::Integer(3), SqlValue::Text("写报告".into()), SqlValue::Integer(1500), SqlValue::Integer(2)],
        vec![SqlValue::Integer(3), SqlValue::Integer(9)],
        vec![SqlValue::Null, SqlValue::Null, SqlValue::Null, SqlValue::Integer(1)],
    ];
    let stats = task_focus_stats(&rows);
    assert_eq!(stats.len(), 2);
    assert_eq!((stats[0].task_id, stats[0].title.as_deref(), stats[0].focus_seconds, stats[0].sessions), (Some(3), Some("写报告"), 1500, 2));
    assert_eq!((stats[1].task_id, stats[1].title.as_deref(), stats[1].focus_seconds, stats[1].sessions), (None, None, 0, 1));

    let recent = vec![vec![
        SqlValue::Integer(7),
        SqlValue::Text("a".into()),
        SqlValue::Text("2026-01-02T10:00:00Z".into()),
        SqlValue::Text("2026-01-01T10:00:00Z".into()),
    ]];
    let v = recent_tasks_of_rows(&recent).unwrap();
    assert_eq!((v[0].id, v[0].title.as_str(), v[0].late), (7, "a", true));
    assert!(recent_tasks_of_rows(&vec![vec![SqlValue::Integer(7)]]).is_none());

    let cats = categories_from_rows(&vec![
        vec![SqlValue::Integer(1), SqlValue::Text("工作".into()), SqlValue::Text("💼".into()), SqlValue::Integer(1), SqlValue::Integer(1)],
        vec![SqlValue::Null],
        vec![SqlValue::Integer(2), SqlValue::Text("生活".into()), SqlValue::Text("🏠".into()), SqlValue::Integer(0), SqlValue::Integer(2)],
    ]);
    assert_eq!(cats.iter().map(|c| c.name.as_str()).collect::<Vec<_>>(), vec!["工作", "生活"]);
    assert!(cats[0].is_default && !cats[1].is_default);
}

#[test]
fn overview_and_daily_counts_from_rows() {
    let now = Instant { secs: 1_800_000_000, nanos: 0 };
    let counts = vec![vec![SqlValue::Integer(3), SqlValue::Integer(1), SqlValue::Integer(2)]];
    let dues = vec![vec![SqlValue::Text("2020-01-01T00:00:00Z".into())], vec![SqlValue::Text("2099-01-01T00:00:00Z".into())]];
    let done = vec![vec![SqlValue::Text("2020-01-01T00:00:00Z".into()), SqlValue::Text("2020-01-02T00:00:00Z".into())]];
    let o = overview_of_rows(&counts, &dues, &done, now).unwrap();
    assert_eq!((o.total, o.completed, o.pending, o.overdue, o.completed_late), (3, 1, 2, 1, 1));
    assert!(overview_of_rows(&vec![], &dues, &done, now).is_none());
    assert!(overview_of_rows(&counts, &vec![vec![SqlValue::Integer(1)]], &done, now).is_none());

    let labels = vec!["a".to_string(), "b".to_string()];
    let bad = task_days_of_rows(0, labels.clone(), &vec![vec![SqlValue::Null]]);
    assert_eq!(bad.unwrap_err(), "统计任务数据失败: Invalid column type");
    let none = task_days_of_rows(0, labels, &vec![]).unwrap();
    assert_eq!(none.iter().map(|d| d.completed).collect::<Vec<_>>(), vec![0, 0]);

    assert_eq!((limit_param(0), limit_param(50), limit_param(500)), (1, 50, 100));
}
