//! The focus session table.
use crate::database::db::{self, SqlParam, SqlValue, params_view, pint, popt_int, ptext, spec_int, spec_opt_int, spec_opt_text, spec_text};
use crate::database::models::{FocusSession, FocusStatus};
use crate::database::task_query::opt_text_view;
use vstd::prelude::*;

verus! {

const COLS: &'static str = "id, task_id, started_at, ended_at, planned_minutes, actual_seconds, status";

pub open spec fn row_holds_session(row: Seq<SqlValue>) -> bool {
    &&& row.len() == 7
    &&& spec_int(row[0]) is Some
    &&& spec_opt_int(row[1]) is Some
    &&& spec_text(row[2]) is Some
    &&& spec_opt_text(row[3]) is Some
    &&& spec_int(row[4]) is Some
    &&& spec_int(row[5]) is Some
    &&& spec_text(row[6]) is Some
}

/// The session a row holds; an unknown status reads as INTERRUPTED.
pub open spec fn row_is_session(row: Seq<SqlValue>, s: FocusSession) -> bool {
    &&& row_holds_session(row)
    &&& Some(s.id) == spec_int(row[0])
    &&& Some(s.task_id) == spec_opt_int(row[1])
    &&& Some(s.started_at@) == spec_text(row[2])
    &&& Some(opt_text_view(s.ended_at)) == spec_opt_text(row[3])
    &&& Some(s.planned_minutes) == spec_int(row[4])
    &&& Some(s.actual_seconds) == spec_int(row[5])
    &&& s.status == (match FocusStatus::spec_from_name(spec_text(row[6])->Some_0) {
        Some(x) => x,
        None => FocusStatus::Interrupted,
    })
}

/// The session in a row, if the row holds one.
pub fn session_from_row(row: &Vec<SqlValue>) -> (r: Option<FocusSession>)
    ensures
        r matches Some(s) ==> row_is_session(row@, s),
        r is None <==> !row_holds_session(row@),
{
    if row.len() != 7 {
        return None;
    }
    let id = db::cell_int(&row[0])?;
    let task_id = db::cell_opt_int(&row[1])?;
    let started_at = db::cell_text(&row[2])?;
    let ended_at = db::cell_opt_text(&row[3])?;
    let planned_minutes = db::cell_int(&row[4])?;
    let actual_seconds = db::cell_int(&row[5])?;
    let status_str = db::cell_text(&row[6])?;
    let status = match FocusStatus::from_db(status_str.as_str()) {
        Ok(s) => s,
        Err(_) => FocusStatus::Interrupted,
    };
    Some(FocusSession { id, task_id, started_at, ended_at, planned_minutes, actual_seconds, status })
}

/// The parameters of a new running session: the task, the start stamp, the planned
/// minutes.
pub fn create_params(task_id: Option<i64>, started_at: String, planned_minutes: i64) -> (r: Vec<SqlParam>)
    ensures
        params_view(r@) == seq![popt_int(task_id), ptext(started_at@), pint(planned_minutes as int)],
{
    let ghost st = started_at@;
    let mut params: Vec<SqlParam> = Vec::new();
    params.push(match task_id {
        Some(i) => SqlParam::Integer(i),
        None => SqlParam::Null,
    });
    params.push(SqlParam::Text(started_at));
    params.push(SqlParam::Integer(planned_minutes));
    assert(params_view(params@) =~= seq![popt_int(task_id), ptext(st), pint(planned_minutes as int)]);
    params
}

/// The parameters of ending a session: its id, the end stamp, the seconds of focus,
/// the final status's name.
pub fn finish_params(id: i64, ended_at: String, actual_seconds: i64, status: &FocusStatus) -> (r: Vec<SqlParam>)
    ensures
        params_view(r@) == seq![pint(id as int), ptext(ended_at@), pint(actual_seconds as int), ptext(status.spec_name())],
{
    let ghost en = ended_at@;
    let mut params: Vec<SqlParam> = Vec::new();
    params.push(SqlParam::Integer(id));
    params.push(SqlParam::Text(ended_at));
    params.push(SqlParam::Integer(actual_seconds));
    params.push(SqlParam::Text(String::from_str(status.as_str())));
    assert(params_view(params@) =~= seq![pint(id as int), ptext(en), pint(actual_seconds as int), ptext(status.spec_name())]);
    params
}

/// The parameters of a query from a stamp on: the stamp.
pub fn since_params(since: &str) -> (r: Vec<SqlParam>)
    ensures
        params_view(r@) == seq![ptext(since@)],
{
    let mut params: Vec<SqlParam> = Vec::new();
    params.push(SqlParam::Text(String::from_str(since)));
    assert(params_view(params@) =~= seq![ptext(since@)]);
    params
}

/// A session a row holds (the row is not named).
pub open spec fn is_stored_session(s: FocusSession) -> bool {
    exists|row: Seq<SqlValue>| #[trigger] row_is_session(row, s)
}

/// The session of the first row of a query, or the reason there is none.
pub fn session_of_rows(rows: &Vec<Vec<SqlValue>>) -> (r: Result<FocusSession, &'static str>)
    ensures
        rows.len() == 0 ==> r == Err::<FocusSession, &'static str>("Query returned no rows"),
        rows.len() > 0 && row_holds_session(rows@[0]@) ==> (r matches Ok(s) && row_is_session(rows@[0]@, s)),
        rows.len() > 0 && !row_holds_session(rows@[0]@) ==> r == Err::<FocusSession, &'static str>("Invalid column type"),
{
    if rows.len() == 0 {
        return Err("Query returned no rows");
    }
    match session_from_row(&rows[0]) {
        Some(s) => Ok(s),
        None => Err("Invalid column type"),
    }
}

/// The statement that starts a session, bound to `create_params`.
pub const CREATE_SQL: &'static str = "INSERT INTO focus_sessions (task_id, started_at, planned_minutes, status)
         VALUES (?1, ?2, ?3, 'RUNNING')";

/// The statement that ends a session, bound to `finish_params`.
pub const FINISH_SQL: &'static str = "UPDATE focus_sessions
         SET ended_at = ?2, actual_seconds = ?3, status = ?4
         WHERE id = ?1";

/// The statement that sums the completed focus from a stamp on, bound to `since_params`.
pub const SECONDS_SINCE_SQL: &'static str = "SELECT COALESCE(SUM(actual_seconds), 0) FROM focus_sessions
         WHERE status = 'COMPLETED' AND started_at >= ?1";

/// Starts a running session now for the given task and planned length:
/// `CREATE_SQL` bound to `create_params(task_id, now, planned_minutes)`, then the
/// new row read back.
pub fn create_running(conn: &rusqlite::Connection, task_id: Option<i64>, planned_minutes: i64) -> (r: Result<FocusSession, String>)
    ensures
        r matches Err(e) ==> "创建专注会话失败: "@.is_prefix_of(e@) || "查询专注会话失败: "@.is_prefix_of(e@),
        r matches Ok(s) ==> is_stored_session(s),
{
    let started_at = crate::time::now_rfc3339();
    let params = create_params(task_id, started_at, planned_minutes);
    match db::execute(conn, CREATE_SQL, &params) {
        Ok(_) => {},
        Err(e) => return Err(db::prefixed("创建专注会话失败: ", e)),
    }
    let id = db::last_insert_rowid(conn);
    get(conn, id)
}

/// The session with the given id: the query bound to `task_repo::id_params(id)`,
/// its first row decoded by `session_of_rows`.
pub fn get(conn: &rusqlite::Connection, id: i64) -> (r: Result<FocusSession, String>)
    ensures
        r matches Err(e) ==> "查询专注会话失败: "@.is_prefix_of(e@),
        r matches Ok(s) ==> is_stored_session(s),
{
    let sql = crate::text::concat3("SELECT ", COLS, " FROM focus_sessions WHERE id = ?1");
    let params = crate::database::task_repo::id_params(id);
    match db::query(conn, sql.as_str(), &params) {
        Ok(rows) => match session_of_rows(&rows) {
            Ok(s) => {
                assert(row_is_session(rows@[0]@, s));
                Ok(s)
            },
            Err(detail) => Err(db::prefixed("查询专注会话失败: ", String::from_str(detail))),
        },
        Err(e) => Err(db::prefixed("查询专注会话失败: ", e)),
    }
}

/// The running session (the most recently started one), if any; its row decoded by
/// `session_of_rows`.
pub fn running(conn: &rusqlite::Connection) -> (r: Result<Option<FocusSession>, String>)
    ensures
        r matches Err(e) ==> "查询进行中专注失败: "@.is_prefix_of(e@),
        r matches Ok(Some(s)) ==> is_stored_session(s),
{
    let sql = crate::text::concat3("SELECT ", COLS, " FROM focus_sessions WHERE status = 'RUNNING'
             ORDER BY started_at DESC LIMIT 1");
    match db::query(conn, sql.as_str(), &Vec::new()) {
        Ok(rows) => {
            if rows.len() == 0 {
                return Ok(None);
            }
            match session_of_rows(&rows) {
                Ok(s) => {
                    assert(row_is_session(rows@[0]@, s));
                    Ok(Some(s))
                },
                Err(detail) => Err(db::prefixed("查询进行中专注失败: ", String::from_str(detail))),
            }
        },
        Err(e) => Err(db::prefixed("查询进行中专注失败: ", e)),
    }
}

/// Ends a session now with the given seconds of focus and final status:
/// `FINISH_SQL` bound to `finish_params(id, now, actual_seconds, status)`.
pub fn finish(conn: &rusqlite::Connection, id: i64, actual_seconds: i64, status: &FocusStatus) -> (r: Result<(), String>)
    ensures
        r matches Err(e) ==> "结束专注会话失败: "@.is_prefix_of(e@),
{
    let params = finish_params(id, crate::time::now_rfc3339(), actual_seconds, status);
    match db::execute(conn, FINISH_SQL, &params) {
        Ok(_) => Ok(()),
        Err(e) => Err(db::prefixed("结束专注会话失败: ", e)),
    }
}

/// The sum a seconds query returns: the integer in its first row.
pub open spec fn spec_seconds_of_rows(rows: Seq<Vec<SqlValue>>) -> Option<i64> {
    if rows.len() > 0 && rows[0]@.len() > 0 {
        spec_int(rows[0]@[0])
    } else {
        None
    }
}

pub fn seconds_of_rows(rows: &Vec<Vec<SqlValue>>) -> (r: Option<i64>)
    ensures
        r == spec_seconds_of_rows(rows@),
{
    if rows.len() > 0 && rows[0].len() > 0 {
        db::cell_int(&rows[0][0])
    } else {
        None
    }
}

/// Seconds of the sessions completed that started at or after the given stamp:
/// `SECONDS_SINCE_SQL` bound to `since_params(since_rfc3339)`, its rows read by
/// `seconds_of_rows`.
pub fn completed_seconds_since(conn: &rusqlite::Connection, since_rfc3339: &str) -> (r: Result<i64, String>)
    ensures
        r matches Err(e) ==> "统计专注时长失败: "@.is_prefix_of(e@),
        r matches Ok(v) ==> exists|rows: Seq<Vec<SqlValue>>| #[trigger] spec_seconds_of_rows(rows) == Some(v),
{
    let params = since_params(since_rfc3339);
    match db::query(conn, SECONDS_SINCE_SQL, &params) {
        Ok(rows) => match seconds_of_rows(&rows) {
            Some(v) => Ok(v),
            None => Err(db::prefixed("统计专注时长失败: ", String::from_str("Invalid column type"))),
        },
        Err(e) => Err(db::prefixed("统计专注时长失败: ", e)),
    }
}

} // verus!
