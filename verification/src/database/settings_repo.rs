//! The key/value settings table.
use crate::database::db::{self, SqlParam, SqlValue, params_view, ptext, spec_text};
use vstd::prelude::*;

verus! {

/// The value a settings query's rows give: none without a row, the text of the
/// first row otherwise (an error when that cell is not text).
pub open spec fn spec_setting_of_rows(rows: Seq<Vec<SqlValue>>) -> Option<Option<Seq<char>>> {
    if rows.len() == 0 {
        Some(None)
    } else if rows[0]@.len() > 0 && spec_text(rows[0]@[0]) is Some {
        Some(Some(spec_text(rows[0]@[0])->Some_0))
    } else {
        None
    }
}

pub fn setting_of_rows(rows: &Vec<Vec<SqlValue>>) -> (r: Option<Option<String>>)
    ensures
        match spec_setting_of_rows(rows@) {
            None => r is None,
            Some(None) => r == Some(None::<String>),
            Some(Some(t)) => r matches Some(Some(v)) && v@ == t,
        },
{
    if rows.len() == 0 {
        return Some(None);
    }
    if rows[0].len() > 0 {
        if let Some(t) = db::cell_text(&rows[0][0]) {
            return Some(Some(t));
        }
    }
    None
}

pub open spec fn settings_error(key: Seq<char>, what: Seq<char>) -> Seq<char> {
    what + key + "): "@
}

/// The parameters of a read: the key.
pub fn key_params(key: &str) -> (r: Vec<SqlParam>)
    ensures
        params_view(r@) == seq![ptext(key@)],
{
    let mut params: Vec<SqlParam> = Vec::new();
    params.push(SqlParam::Text(String::from_str(key)));
    assert(params_view(params@) =~= seq![ptext(key@)]);
    params
}

/// The parameters of a write: the key, then the value.
pub fn set_params(key: &str, value: &str) -> (r: Vec<SqlParam>)
    ensures
        params_view(r@) == seq![ptext(key@), ptext(value@)],
{
    let mut params: Vec<SqlParam> = Vec::new();
    params.push(SqlParam::Text(String::from_str(key)));
    params.push(SqlParam::Text(String::from_str(value)));
    assert(params_view(params@) =~= seq![ptext(key@), ptext(value@)]);
    params
}

/// The statement a read runs, bound to `key_params(key)`.
pub const GET_SQL: &'static str = "SELECT value FROM settings WHERE key = ?1";

/// The statement a write runs, bound to `set_params(key, value)`.
pub const SET_SQL: &'static str = "INSERT INTO settings (key, value) VALUES (?1, ?2)
         ON CONFLICT(key) DO UPDATE SET value = excluded.value";

/// The value stored under a key, if any: `GET_SQL` bound to `key_params(key)`, and
/// the rows it returns decoded by `setting_of_rows`.
pub fn get(conn: &rusqlite::Connection, key: &str) -> (r: Result<Option<String>, String>)
    ensures
        r matches Err(e) ==> settings_error(key@, "读取设置失败 ("@).is_prefix_of(e@),
        r matches Ok(v) ==> exists|rows: Seq<Vec<SqlValue>>|
            #[trigger] spec_setting_of_rows(rows) == Some(crate::database::db::opt_string_view(v)),
{
    let prefix = crate::text::concat3("读取设置失败 (", key, "): ");
    let params = key_params(key);
    match db::query(conn, GET_SQL, &params) {
        Ok(rows) => match setting_of_rows(&rows) {
            Some(v) => {
                assert(spec_setting_of_rows(rows@) == Some(crate::database::db::opt_string_view(v)));
                Ok(v)
            },
            None => Err(db::prefixed(prefix.as_str(), String::from_str("Invalid column type"))),
        },
        Err(e) => Err(db::prefixed(prefix.as_str(), e)),
    }
}

/// Stores a value under a key, replacing any earlier one: `SET_SQL` bound to
/// `set_params(key, value)`.
pub fn set(conn: &rusqlite::Connection, key: &str, value: &str) -> (r: Result<(), String>)
    ensures
        r matches Err(e) ==> settings_error(key@, "写入设置失败 ("@).is_prefix_of(e@),
{
    let prefix = crate::text::concat3("写入设置失败 (", key, "): ");
    let params = set_params(key, value);
    match db::execute(conn, SET_SQL, &params) {
        Ok(_) => Ok(()),
        Err(e) => Err(db::prefixed(prefix.as_str(), e)),
    }
}

} // verus!
