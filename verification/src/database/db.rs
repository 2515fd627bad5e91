//! The SQLite connection and the few operations the repositories use on it.
//! What comes back from the database depends on what is stored on disk, so the
//! operations claim nothing of their results; the repositories decode rows with
//! verified functions.
use vstd::prelude::*;

verus! {

#[verifier::external_type_specification]
#[verifier::external_body]
pub struct ExConnection(rusqlite::Connection);

#[verifier::external_type_specification]
#[verifier::external_body]
pub struct ExSqliteValue(rusqlite::types::Value);

/// A value stored in or read from an SQLite cell. A stored real keeps its bit pattern.
#[derive(Debug, Clone)]
pub enum SqlValue {
    Null,
    Integer(i64),
    Real(u64),
    Text(String),
    Blob(Vec<u8>),
}

/// A parameter bound to a statement.
#[derive(Debug, Clone)]
pub enum SqlParam {
    Null,
    Integer(i64),
    Text(String),
}

/// rusqlite `Value` from a parameter, variant for variant.
#[verifier::external_body]
fn value_in(v: &SqlParam) -> rusqlite::types::Value {
    match v {
        SqlParam::Null => rusqlite::types::Value::Null,
        SqlParam::Integer(i) => rusqlite::types::Value::Integer(*i),
        SqlParam::Text(t) => rusqlite::types::Value::Text(t.clone()),
    }
}

/// A cell value from a rusqlite `Value`, variant for variant.
#[verifier::external_body]
fn value_out(v: rusqlite::types::Value) -> SqlValue {
    match v {
        rusqlite::types::Value::Null => SqlValue::Null,
        rusqlite::types::Value::Integer(i) => SqlValue::Integer(i),
        rusqlite::types::Value::Real(r) => SqlValue::Real(r.to_bits()),
        rusqlite::types::Value::Text(t) => SqlValue::Text(t),
        rusqlite::types::Value::Blob(b) => SqlValue::Blob(b),
    }
}

/// rusqlite `Connection::open`. The outcome depends on the file system; nothing is claimed.
#[verifier::external_body]
pub(crate) fn open(path: &str) -> (r: Result<rusqlite::Connection, String>) {
    rusqlite::Connection::open(path).map_err(|e| e.to_string())
}

/// rusqlite `Connection::pragma_update` with a text value. Nothing is claimed.
#[verifier::external_body]
pub(crate) fn pragma_update(conn: &rusqlite::Connection, name: &str, value: &str) -> (r: Result<(), String>) {
    conn.pragma_update(None, name, value).map_err(|e| e.to_string())
}

/// rusqlite `Connection::execute_batch`. Nothing is claimed.
#[verifier::external_body]
pub(crate) fn execute_batch(conn: &rusqlite::Connection, sql: &str) -> (r: Result<(), String>) {
    conn.execute_batch(sql).map_err(|e| e.to_string())
}

/// rusqlite `Connection::execute` with positional parameters; on success, the number
/// of rows changed. Nothing is claimed.
#[verifier::external_body]
pub(crate) fn execute(conn: &rusqlite::Connection, sql: &str, params: &Vec<SqlParam>) -> (r: Result<usize, String>) {
    let values: Vec<rusqlite::types::Value> = params.iter().map(value_in).collect();
    conn.execute(sql, rusqlite::params_from_iter(values)).map_err(|e| e.to_string())
}

/// rusqlite `Connection::last_insert_rowid`. Nothing is claimed.
#[verifier::external_body]
pub(crate) fn last_insert_rowid(conn: &rusqlite::Connection) -> (r: i64) {
    conn.last_insert_rowid()
}

/// rusqlite `Connection::prepare` + `Statement::query`: every row, every column read
/// as a `Value`. Nothing is claimed of the rows.
#[verifier::external_body]
pub(crate) fn query(conn: &rusqlite::Connection, sql: &str, params: &Vec<SqlParam>) -> (r: Result<Vec<Vec<SqlValue>>, String>) {
    let mut stmt = conn.prepare(sql).map_err(|e| e.to_string())?;
    let n = stmt.column_count();
    let values: Vec<rusqlite::types::Value> = params.iter().map(value_in).collect();
    let mut rows = stmt.query(rusqlite::params_from_iter(values)).map_err(|e| e.to_string())?;
    let mut out = Vec::new();
    while let Some(row) = rows.next().map_err(|e| e.to_string())? {
        let mut cells = Vec::new();
        for i in 0..n {
            cells.push(value_out(row.get::<_, rusqlite::types::Value>(i).map_err(|e| e.to_string())?));
        }
        out.push(cells);
    }
    Ok(out)
}

/// The integer of an INTEGER cell (what rusqlite reads as `i64`).
pub open spec fn spec_int(v: SqlValue) -> Option<i64> {
    match v {
        SqlValue::Integer(i) => Some(i),
        _ => None,
    }
}

/// What rusqlite reads as `Option<i64>`: NULL or an INTEGER.
pub open spec fn spec_opt_int(v: SqlValue) -> Option<Option<i64>> {
    match v {
        SqlValue::Null => Some(None),
        SqlValue::Integer(i) => Some(Some(i)),
        _ => None,
    }
}

/// The text of a TEXT cell (what rusqlite reads as `String`), as characters.
pub open spec fn spec_text(v: SqlValue) -> Option<Seq<char>> {
    match v {
        SqlValue::Text(s) => Some(s@),
        _ => None,
    }
}

/// What rusqlite reads as `Option<String>`: NULL or a TEXT, as characters.
pub open spec fn spec_opt_text(v: SqlValue) -> Option<Option<Seq<char>>> {
    match v {
        SqlValue::Null => Some(None),
        SqlValue::Text(s) => Some(Some(s@)),
        _ => None,
    }
}

pub open spec fn opt_string_view(o: Option<String>) -> Option<Seq<char>> {
    match o {
        Some(s) => Some(s@),
        None => None,
    }
}

pub fn cell_int(v: &SqlValue) -> (r: Option<i64>)
    ensures
        r == spec_int(*v),
{
    match v {
        SqlValue::Integer(i) => Some(*i),
        _ => None,
    }
}

pub fn cell_opt_int(v: &SqlValue) -> (r: Option<Option<i64>>)
    ensures
        r == spec_opt_int(*v),
{
    match v {
        SqlValue::Null => Some(None),
        SqlValue::Integer(i) => Some(Some(*i)),
        _ => None,
    }
}

pub fn cell_text(v: &SqlValue) -> (r: Option<String>)
    ensures
        r matches Some(s) ==> spec_text(*v) == Some(s@),
        r is None ==> spec_text(*v) is None,
{
    match v {
        SqlValue::Text(s) => Some(s.clone()),
        _ => None,
    }
}

pub fn cell_opt_text(v: &SqlValue) -> (r: Option<Option<String>>)
    ensures
        r matches Some(o) ==> spec_opt_text(*v) == Some(opt_string_view(o)),
        r is None ==> spec_opt_text(*v) is None,
{
    match v {
        SqlValue::Null => Some(None),
        SqlValue::Text(s) => Some(Some(s.clone())),
        _ => None,
    }
}

/// The view of a parameter: `None` for NULL, else the integer or the text.
pub open spec fn param_int(p: SqlParam) -> Option<i64> {
    match p {
        SqlParam::Integer(i) => Some(i),
        _ => None,
    }
}

pub open spec fn param_text(p: SqlParam) -> Option<Seq<char>> {
    match p {
        SqlParam::Text(t) => Some(t@),
        _ => None,
    }
}

pub fn text_param(s: &str) -> (r: SqlParam)
    ensures
        param_text(r) == Some(s@),
{
    SqlParam::Text(String::from_str(s))
}

pub fn opt_text_param(s: &Option<String>) -> (r: SqlParam)
    ensures
        match s {
            Some(t) => param_text(r) == Some(t@),
            None => r is Null,
        },
{
    match s {
        Some(t) => SqlParam::Text(t.clone()),
        None => SqlParam::Null,
    }
}

pub fn opt_int_param(v: Option<i64>) -> (r: SqlParam)
    ensures
        match v {
            Some(i) => param_int(r) == Some(i),
            None => r is Null,
        },
{
    match v {
        Some(i) => SqlParam::Integer(i),
        None => SqlParam::Null,
    }
}

/// A parameter as (tag, integer, text), the tag telling NULL, INTEGER and TEXT apart.
pub open spec fn pview(p: SqlParam) -> (int, int, Seq<char>) {
    match p {
        SqlParam::Null => (0, 0, Seq::empty()),
        SqlParam::Integer(i) => (1, i as int, Seq::empty()),
        SqlParam::Text(t) => (2, 0, t@),
    }
}

pub open spec fn pnull() -> (int, int, Seq<char>) {
    (0, 0, Seq::empty())
}

pub open spec fn pint(i: int) -> (int, int, Seq<char>) {
    (1, i, Seq::empty())
}

pub open spec fn ptext(s: Seq<char>) -> (int, int, Seq<char>) {
    (2, 0, s)
}

pub open spec fn popt_text(s: Option<String>) -> (int, int, Seq<char>) {
    match s {
        Some(t) => ptext(t@),
        None => pnull(),
    }
}

pub open spec fn popt_int(v: Option<i64>) -> (int, int, Seq<char>) {
    match v {
        Some(i) => pint(i as int),
        None => pnull(),
    }
}

/// The parameters of a statement, each as (tag, integer, text).
pub open spec fn params_view(ps: Seq<SqlParam>) -> Seq<(int, int, Seq<char>)> {
    ps.map_values(|p: SqlParam| pview(p))
}

/// An error message: the context, then the cause.
pub fn prefixed(prefix: &str, e: String) -> (r: String)
    ensures
        r@ == prefix@ + e@,
        prefix@.is_prefix_of(r@),
{
    let m = crate::text::concat(prefix, e.as_str());
    assert(m@.subrange(0, prefix@.len() as int) =~= prefix@);
    m
}

} // verus!
