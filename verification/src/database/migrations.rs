//! The schema and the default categories.
use crate::database::db::{self, SqlParam};
use vstd::prelude::*;

verus! {

const SCHEMA: &'static str = r#"
        CREATE TABLE IF NOT EXISTS categories (
            id          INTEGER PRIMARY KEY AUTOINCREMENT,
            name        TEXT NOT NULL UNIQUE,
            icon        TEXT NOT NULL DEFAULT '',
            is_default  INTEGER NOT NULL DEFAULT 0,
            sort_order  INTEGER NOT NULL DEFAULT 0
        );

        CREATE TABLE IF NOT EXISTS tasks (
            id                INTEGER PRIMARY KEY AUTOINCREMENT,
            title             TEXT NOT NULL,
            description       TEXT NOT NULL DEFAULT '',
            status            TEXT NOT NULL DEFAULT 'TODO',
            priority          TEXT NOT NULL DEFAULT 'MEDIUM',
            category_id       INTEGER REFERENCES categories(id) ON DELETE SET NULL,
            tags              TEXT NOT NULL DEFAULT '[]',
            created_at        TEXT NOT NULL,
            updated_at        TEXT NOT NULL,
            due_at            TEXT,
            completed_at      TEXT,
            estimated_minutes INTEGER,
            reminder_enabled  INTEGER NOT NULL DEFAULT 0,
            reminder_time     TEXT,
            repeat_rule       TEXT,
            sort_order        INTEGER NOT NULL DEFAULT 0
        );

        CREATE INDEX IF NOT EXISTS idx_tasks_status ON tasks(status);
        CREATE INDEX IF NOT EXISTS idx_tasks_due_at ON tasks(due_at);

        CREATE TABLE IF NOT EXISTS settings (
            key   TEXT PRIMARY KEY,
            value TEXT NOT NULL
        );

        CREATE TABLE IF NOT EXISTS focus_sessions (
            id              INTEGER PRIMARY KEY AUTOINCREMENT,
            task_id         INTEGER REFERENCES tasks(id) ON DELETE SET NULL,
            started_at      TEXT NOT NULL,
            ended_at        TEXT,
            planned_minutes INTEGER NOT NULL,
            actual_seconds  INTEGER NOT NULL DEFAULT 0,
            status          TEXT NOT NULL DEFAULT 'RUNNING'
        );

        CREATE INDEX IF NOT EXISTS idx_focus_sessions_started ON focus_sessions(started_at);
        "#;

/// Creates the tables that do not exist yet and adds the default categories.
pub fn run(conn: &rusqlite::Connection) -> (r: Result<(), String>)
    ensures
        r matches Err(e) ==> "数据库迁移失败: "@.is_prefix_of(e@) || "写入默认分类失败: "@.is_prefix_of(e@),
{
    match db::execute_batch(conn, SCHEMA) {
        Ok(()) => {},
        Err(e) => return Err(db::prefixed("数据库迁移失败: ", e)),
    }
    seed_default_categories(conn)
}

/// The default categories: name, icon and position.
pub fn default_categories() -> (r: Vec<(&'static str, &'static str, i64)>)
    ensures
        r.len() == 5,
        r@[0].0@ == "收集箱"@ && r@[0].2 == 0,
        r@[1].0@ == "重要"@ && r@[1].2 == 1,
        r@[2].0@ == "今天"@ && r@[2].2 == 2,
        r@[3].0@ == "计划"@ && r@[3].2 == 3,
        r@[4].0@ == "已完成"@ && r@[4].2 == 4,
{
    let mut v: Vec<(&'static str, &'static str, i64)> = Vec::new();
    v.push(("收集箱", "📥", 0));
    v.push(("重要", "⭐", 1));
    v.push(("今天", "📅", 2));
    v.push(("计划", "📆", 3));
    v.push(("已完成", "✓", 4));
    v
}

fn seed_default_categories(conn: &rusqlite::Connection) -> (r: Result<(), String>)
    ensures
        r matches Err(e) ==> "写入默认分类失败: "@.is_prefix_of(e@),
{
    let defaults = default_categories();
    let mut i: usize = 0;
    while i < defaults.len()
        decreases defaults.len() - i,
    {
        let (name, icon, sort) = defaults[i];
        let params = crate::database::category_repo::category_params(name, icon, sort);
        match db::execute(
            conn,
            "INSERT OR IGNORE INTO categories (name, icon, is_default, sort_order) VALUES (?1, ?2, 1, ?3)",
            &params,
        ) {
            Ok(_) => {},
            Err(e) => return Err(db::prefixed("写入默认分类失败: ", e)),
        }
        i += 1;
    }
    Ok(())
}

} // verus!
