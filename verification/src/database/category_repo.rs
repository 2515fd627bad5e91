//! The category table.
use crate::database::db::{self, SqlParam, SqlValue, params_view, pint, ptext, spec_int, spec_text};
use crate::database::models::Category;
use crate::text::{is_blank, spec_trim};
use vstd::prelude::*;

verus! {

/// A row holds a category: id, name, icon, default flag, manual position.
pub open spec fn row_is_category(row: Seq<SqlValue>, c: Category) -> bool {
    &&& row.len() == 5
    &&& Some(c.id) == spec_int(row[0])
    &&& Some(c.name@) == spec_text(row[1])
    &&& Some(c.icon@) == spec_text(row[2])
    &&& spec_int(row[3]) is Some
    &&& c.is_default == (spec_int(row[3])->Some_0 != 0)
    &&& Some(c.sort_order) == spec_int(row[4])
}

pub open spec fn row_holds_category(row: Seq<SqlValue>) -> bool {
    &&& row.len() == 5
    &&& spec_int(row[0]) is Some
    &&& spec_text(row[1]) is Some
    &&& spec_text(row[2]) is Some
    &&& spec_int(row[3]) is Some
    &&& spec_int(row[4]) is Some
}

/// The category in a row, if the row holds one.
pub fn category_from_row(row: &Vec<SqlValue>) -> (r: Option<Category>)
    ensures
        r matches Some(c) ==> row_is_category(row@, c),
        r is None <==> !row_holds_category(row@),
{
    if row.len() != 5 {
        return None;
    }
    let id = db::cell_int(&row[0])?;
    let name = db::cell_text(&row[1])?;
    let icon = db::cell_text(&row[2])?;
    let is_default = db::cell_int(&row[3])?;
    let sort_order = db::cell_int(&row[4])?;
    Some(Category { id, name, icon, is_default: is_default != 0, sort_order })
}

/// Positions of the rows that hold a category, in order.
pub open spec fn category_rows(rows: Seq<Vec<SqlValue>>) -> Seq<int> {
    Seq::new(rows.len(), |i: int| i).filter(|i: int| 0 <= i < rows.len() && row_holds_category(rows[i]@))
}

/// The categories of the rows that hold one, in row order; other rows are skipped.
pub fn categories_from_rows(rows: &Vec<Vec<SqlValue>>) -> (r: Vec<Category>)
    ensures
        r.len() == category_rows(rows@).len(),
        forall|i: int| 0 <= i < r.len() ==> row_is_category(rows@[category_rows(rows@)[i]]@, #[trigger] r@[i]),
{
    let mut out: Vec<Category> = Vec::new();
    let mut k: usize = 0;
    let ghost all = Seq::new(rows@.len(), |i: int| i);
    let ghost pred = |i: int| 0 <= i < rows@.len() && row_holds_category(rows@[i]@);
    while k < rows.len()
        invariant
            k <= rows.len(),
            all == Seq::new(rows@.len(), |i: int| i),
            pred == (|i: int| 0 <= i < rows@.len() && row_holds_category(rows@[i]@)),
            out.len() == all.take(k as int).filter(pred).len(),
            forall|i: int| 0 <= i < out.len() ==> row_is_category(rows@[all.take(k as int).filter(pred)[i]]@, #[trigger] out@[i]),
        decreases rows.len() - k,
    {
        proof {
            assert(all.take(k + 1) =~= all.take(k as int).push(k as int));
            all.take(k as int).lemma_filter_push(k as int, pred);
        }
        match category_from_row(&rows[k]) {
            Some(c) => {
                out.push(c);
            },
            None => {},
        }
        k += 1;
    }
    proof {
        assert(all.take(rows@.len() as int) =~= all);
    }
    out
}

const CATEGORY_COLUMNS: &'static str = "id, name, icon, is_default, sort_order";

/// Every category in manual order (then by id).
pub fn list(conn: &rusqlite::Connection) -> (r: Result<Vec<Category>, String>)
    ensures
        r matches Err(e) ==> "查询分类失败: "@.is_prefix_of(e@),
{
    let sql = crate::text::concat3("SELECT ", CATEGORY_COLUMNS, " FROM categories ORDER BY sort_order ASC, id ASC");
    match db::query(conn, sql.as_str(), &Vec::new()) {
        Ok(rows) => Ok(categories_from_rows(&rows)),
        Err(e) => Err(db::prefixed("查询分类失败: ", e)),
    }
}

/// The parameters of a new category: the name, the icon, the manual position.
pub fn category_params(name: &str, icon: &str, sort_order: i64) -> (r: Vec<SqlParam>)
    ensures
        params_view(r@) == seq![ptext(name@), ptext(icon@), pint(sort_order as int)],
{
    let mut params: Vec<SqlParam> = Vec::new();
    params.push(SqlParam::Text(String::from_str(name)));
    params.push(SqlParam::Text(String::from_str(icon)));
    params.push(SqlParam::Integer(sort_order));
    assert(params_view(params@) =~= seq![ptext(name@), ptext(icon@), pint(sort_order as int)]);
    params
}

/// The next manual position a position query gives: the integer in its first row.
pub open spec fn spec_position_of_rows(rows: Seq<Vec<SqlValue>>) -> Option<i64> {
    if rows.len() > 0 && rows[0]@.len() > 0 {
        spec_int(rows[0]@[0])
    } else {
        None
    }
}

pub fn position_of_rows(rows: &Vec<Vec<SqlValue>>) -> (r: Option<i64>)
    ensures
        r == spec_position_of_rows(rows@),
{
    if rows.len() > 0 && rows[0].len() > 0 {
        db::cell_int(&rows[0][0])
    } else {
        None
    }
}

/// A category a row holds (the row is not named).
pub open spec fn is_stored_category(c: Category) -> bool {
    exists|row: Seq<SqlValue>| #[trigger] row_is_category(row, c)
}

/// The statement that adds a category, bound to `category_params`.
pub const CREATE_SQL: &'static str = "INSERT INTO categories (name, icon, is_default, sort_order) VALUES (?1, ?2, 0, ?3)";

/// Creates a category after all others; a blank name is refused. The statement is
/// `CREATE_SQL` bound to `category_params(trimmed name, icon, next position)`; the new
/// row is read back by its id.
pub fn create(conn: &rusqlite::Connection, name: &str, icon: &str) -> (r: Result<Category, String>)
    ensures
        is_blank(name@) ==> (r matches Err(e) && e@ == "分类名称不能为空"@),
        r matches Ok(c) ==> is_stored_category(c),
{
    let name = crate::text::trim(name);
    if name.is_empty() {
        return Err(String::from_str("分类名称不能为空"));
    }
    let sort_order: i64 = match db::query(conn, "SELECT COALESCE(MAX(sort_order), 0) + 1 FROM categories", &Vec::new()) {
        Ok(rows) => match position_of_rows(&rows) {
            Some(v) => v,
            None => return Err(String::from_str("查询分类排序失败: Query returned no rows")),
        },
        Err(e) => return Err(db::prefixed("查询分类排序失败: ", e)),
    };
    let params = category_params(name, icon, sort_order);
    match db::execute(conn, CREATE_SQL, &params) {
        Ok(_) => {},
        Err(e) => return Err(db::prefixed("创建分类失败: ", e)),
    }
    let id = db::last_insert_rowid(conn);
    let prefix = crate::text::concat3("分类不存在 (id=", crate::text::i64_to_string(id).as_str(), "): ");
    let sql = crate::text::concat3("SELECT ", CATEGORY_COLUMNS, " FROM categories WHERE id = ?1");
    let params = crate::database::task_repo::id_params(id);
    match db::query(conn, sql.as_str(), &params) {
        Ok(rows) => {
            if rows.len() == 0 {
                return Err(crate::text::concat(prefix.as_str(), "Query returned no rows"));
            }
            match category_from_row(&rows[0]) {
                Some(c) => {
                    assert(row_is_category(rows@[0]@, c));
                    Ok(c)
                },
                None => Err(crate::text::concat(prefix.as_str(), "Invalid column type")),
            }
        },
        Err(e) => Err(db::prefixed(prefix.as_str(), e)),
    }
}

} // verus!
