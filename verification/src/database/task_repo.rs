//! The task table: reading, creating, changing, deleting and reordering records,
//! and the record search of the statistics page.
use crate::database::db::{self, SqlParam, SqlValue, param_int, param_text, spec_int, spec_opt_int, spec_opt_text, spec_text};
use crate::database::db::{params_view, pint, pnull, popt_int, popt_text, ptext, pview};
use crate::database::models::{Priority, Task, TaskInput, TaskPage, TaskQuery, TaskStatus, TaskUpdate};
use crate::database::task_query::{self, opt_text_view, spec_query_error, page_fits};
use crate::text::{is_blank, spec_dec, spec_trim};
use vstd::prelude::*;

verus! {

/// The columns of a task row, in the order the table declares them.
pub const TASK_COLUMNS: &'static str = "id, title, description, status, priority, category_id, tags, created_at, updated_at, due_at, completed_at, estimated_minutes, reminder_enabled, reminder_time, repeat_rule, sort_order";

/// A row holds a task: sixteen cells of the right kinds. An unknown status reads as
/// TODO and an unknown priority as MEDIUM.
pub open spec fn row_decodes(row: Seq<SqlValue>) -> bool {
    &&& row.len() == 16
    &&& spec_int(row[0]) is Some
    &&& spec_text(row[1]) is Some
    &&& spec_text(row[2]) is Some
    &&& spec_text(row[3]) is Some
    &&& spec_text(row[4]) is Some
    &&& spec_opt_int(row[5]) is Some
    &&& spec_text(row[6]) is Some
    &&& spec_text(row[7]) is Some
    &&& spec_text(row[8]) is Some
    &&& spec_opt_text(row[9]) is Some
    &&& spec_opt_text(row[10]) is Some
    &&& spec_opt_int(row[11]) is Some
    &&& spec_int(row[12]) is Some
    &&& spec_opt_text(row[13]) is Some
    &&& spec_opt_text(row[14]) is Some
    &&& spec_int(row[15]) is Some
}

pub open spec fn status_or_todo(s: Seq<char>) -> TaskStatus {
    match TaskStatus::spec_from_name(s) {
        Some(x) => x,
        None => TaskStatus::Todo,
    }
}

pub open spec fn priority_or_medium(s: Seq<char>) -> Priority {
    match Priority::spec_from_name(s) {
        Some(x) => x,
        None => Priority::Medium,
    }
}

/// The task a decodable row holds.
pub open spec fn row_is_task(row: Seq<SqlValue>, t: Task) -> bool {
    &&& row_decodes(row)
    &&& Some(t.id) == spec_int(row[0])
    &&& Some(t.title@) == spec_text(row[1])
    &&& Some(t.description@) == spec_text(row[2])
    &&& t.status == status_or_todo(spec_text(row[3])->Some_0)
    &&& t.priority == priority_or_medium(spec_text(row[4])->Some_0)
    &&& Some(t.category_id) == spec_opt_int(row[5])
    &&& Some(t.tags@) == spec_text(row[6])
    &&& Some(t.created_at@) == spec_text(row[7])
    &&& Some(t.updated_at@) == spec_text(row[8])
    &&& Some(opt_text_view(t.due_at)) == spec_opt_text(row[9])
    &&& Some(opt_text_view(t.completed_at)) == spec_opt_text(row[10])
    &&& Some(t.estimated_minutes) == spec_opt_int(row[11])
    &&& t.reminder_enabled == (spec_int(row[12])->Some_0 != 0)
    &&& Some(opt_text_view(t.reminder_time)) == spec_opt_text(row[13])
    &&& Some(opt_text_view(t.repeat_rule)) == spec_opt_text(row[14])
    &&& Some(t.sort_order) == spec_int(row[15])
}

/// The task in a row, if the row holds one.
pub fn task_from_row(row: &Vec<SqlValue>) -> (r: Option<Task>)
    ensures
        r matches Some(t) ==> row_is_task(row@, t),
        r is None <==> !row_decodes(row@),
{
    if row.len() != 16 {
        return None;
    }
    let id = db::cell_int(&row[0])?;
    let title = db::cell_text(&row[1])?;
    let description = db::cell_text(&row[2])?;
    let status_str = db::cell_text(&row[3])?;
    let priority_str = db::cell_text(&row[4])?;
    let category_id = db::cell_opt_int(&row[5])?;
    let tags = db::cell_text(&row[6])?;
    let created_at = db::cell_text(&row[7])?;
    let updated_at = db::cell_text(&row[8])?;
    let due_at = db::cell_opt_text(&row[9])?;
    let completed_at = db::cell_opt_text(&row[10])?;
    let estimated_minutes = db::cell_opt_int(&row[11])?;
    let reminder_enabled = db::cell_int(&row[12])?;
    let reminder_time = db::cell_opt_text(&row[13])?;
    let repeat_rule = db::cell_opt_text(&row[14])?;
    let sort_order = db::cell_int(&row[15])?;
    let status = match TaskStatus::from_db(status_str.as_str()) {
        Ok(s) => s,
        Err(_) => TaskStatus::Todo,
    };
    let priority = match Priority::from_db(priority_str.as_str()) {
        Ok(p) => p,
        Err(_) => Priority::Medium,
    };
    Some(Task {
        id,
        title,
        description,
        status,
        priority,
        category_id,
        tags,
        created_at,
        updated_at,
        due_at,
        completed_at,
        estimated_minutes,
        reminder_enabled: reminder_enabled != 0,
        reminder_time,
        repeat_rule,
        sort_order,
    })
}

/// Positions of the rows that hold tasks, in order.
pub open spec fn decodable_rows(rows: Seq<Vec<SqlValue>>) -> Seq<int> {
    Seq::new(rows.len(), |i: int| i).filter(|i: int| 0 <= i < rows.len() && row_decodes(rows[i]@))
}

/// The tasks of the rows that hold one, in row order; other rows are skipped.
pub fn tasks_from_rows(rows: &Vec<Vec<SqlValue>>) -> (r: Vec<Task>)
    ensures
        r.len() == decodable_rows(rows@).len(),
        forall|i: int| 0 <= i < r.len() ==> row_is_task(rows@[decodable_rows(rows@)[i]]@, #[trigger] r@[i]),
{
    let mut out: Vec<Task> = Vec::new();
    let mut k: usize = 0;
    let ghost all = Seq::new(rows@.len(), |i: int| i);
    let ghost pred = |i: int| 0 <= i < rows@.len() && row_decodes(rows@[i]@);
    while k < rows.len()
        invariant
            k <= rows.len(),
            all == Seq::new(rows@.len(), |i: int| i),
            pred == (|i: int| 0 <= i < rows@.len() && row_decodes(rows@[i]@)),
            out.len() == all.take(k as int).filter(pred).len(),
            forall|i: int| 0 <= i < out.len() ==> row_is_task(rows@[all.take(k as int).filter(pred)[i]]@, #[trigger] out@[i]),
        decreases rows.len() - k,
    {
        let ghost before = all.take(k as int).filter(pred);
        proof {
            assert(all.take(k + 1) =~= all.take(k as int).push(k as int));
            all.take(k as int).lemma_filter_push(k as int, pred);
        }
        match task_from_row(&rows[k]) {
            Some(t) => {
                out.push(t);
            },
            None => {},
        }
        k += 1;
    }
    proof {
        assert(all.take(rows@.len() as int) =~= all);
    }
    out
}

/// Every task, in manual order (then by id). Rows that do not hold a task are skipped.
pub fn list(conn: &rusqlite::Connection) -> (r: Result<Vec<Task>, String>)
    ensures
        r matches Err(e) ==> "查询任务失败: "@.is_prefix_of(e@),
{
    let sql = crate::text::concat3("SELECT ", TASK_COLUMNS, " FROM tasks ORDER BY sort_order ASC, id ASC");
    match db::query(conn, sql.as_str(), &Vec::new()) {
        Ok(rows) => Ok(tasks_from_rows(&rows)),
        Err(e) => {
            Err(db::prefixed("查询任务失败: ", e))
        },
    }
}

/// The message for a blank title.
pub open spec fn title_error() -> Seq<char> {
    "任务标题不能为空"@
}

/// The message for a task id that matches no record.
pub open spec fn not_found_error(id: i64) -> Seq<char> {
    "任务不存在 (id="@ + spec_dec(id as int) + ")"@
}

/// The start of the message when reading the task with this id back fails.
pub open spec fn get_error_prefix(id: i64) -> Seq<char> {
    "任务不存在 (id="@ + spec_dec(id as int) + "): "@
}

/// None of the other task errors reads as the blank-title one.
proof fn lemma_not_title_error(e: Seq<char>, id: i64)
    requires
        e == not_found_error(id) || get_error_prefix(id).is_prefix_of(e) || "更新任务失败: "@.is_prefix_of(e)
            || "创建任务失败: "@.is_prefix_of(e) || "查询排序失败: "@.is_prefix_of(e),
    ensures
        e != title_error(),
{
    reveal_strlit("任务标题不能为空");
    reveal_strlit("任务不存在 (id=");
    reveal_strlit("更新任务失败: ");
    reveal_strlit("创建任务失败: ");
    reveal_strlit("查询排序失败: ");
    if e == not_found_error(id) || get_error_prefix(id).is_prefix_of(e) {
        let p = "任务不存在 (id="@;
        assert(e[2] == p[2]) by {
            if e == not_found_error(id) {
                assert(e[2] == (p + spec_dec(id as int) + ")"@)[2]);
            } else {
                assert(e[2] == get_error_prefix(id)[2]);
                assert(get_error_prefix(id)[2] == p[2]);
            }
        }
        assert(title_error()[2] != e[2]);
    } else if "更新任务失败: "@.is_prefix_of(e) {
        assert(e[0] == "更新任务失败: "@[0]);
    } else if "创建任务失败: "@.is_prefix_of(e) {
        assert(e[0] == "创建任务失败: "@[0]);
    } else {
        assert(e[0] == "查询排序失败: "@[0]);
    }
}

/// The single parameter of a statement on one task: its id.
pub fn id_params(id: i64) -> (r: Vec<SqlParam>)
    ensures
        r.len() == 1,
        pview(r@[0]) == pint(id as int),
{
    let mut params: Vec<SqlParam> = Vec::new();
    params.push(SqlParam::Integer(id));
    params
}

/// The task a query by id gave: the first row's, or the reason there is none.
pub fn task_of_rows(rows: &Vec<Vec<SqlValue>>) -> (r: Result<Task, &'static str>)
    ensures
        rows.len() == 0 ==> r == Err::<Task, &'static str>("Query returned no rows"),
        rows.len() > 0 && row_decodes(rows@[0]@) ==> (r matches Ok(t) && row_is_task(rows@[0]@, t)),
        rows.len() > 0 && !row_decodes(rows@[0]@) ==> r == Err::<Task, &'static str>("Invalid column type"),
{
    if rows.len() == 0 {
        Err("Query returned no rows")
    } else {
        match task_from_row(&rows[0]) {
            Some(t) => Ok(t),
            None => Err("Invalid column type"),
        }
    }
}

/// The task with the given id (the query binds `id_params(id)`).
pub fn get(conn: &rusqlite::Connection, id: i64) -> (r: Result<Task, String>)
    ensures
        r matches Err(e) ==> get_error_prefix(id).is_prefix_of(e@),
{
    let sql = crate::text::concat3("SELECT ", TASK_COLUMNS, " FROM tasks WHERE id = ?1");
    let params = id_params(id);
    let prefix = crate::text::concat3("任务不存在 (id=", crate::text::i64_to_string(id).as_str(), "): ");
    let rows = match db::query(conn, sql.as_str(), &params) {
        Ok(rows) => rows,
        Err(e) => {
            return Err(db::prefixed(prefix.as_str(), e));
        },
    };
    match task_of_rows(&rows) {
        Ok(t) => Ok(t),
        Err(detail) => Err(db::prefixed(prefix.as_str(), String::from_str(detail))),
    }
}

/// What the number of changed rows means for a change of task `id`: none changed
/// means no such task.
pub fn changed_outcome(changed: usize, id: i64) -> (r: Result<(), String>)
    ensures
        changed == 0 <==> r is Err,
        r matches Err(e) ==> e@ == not_found_error(id),
{
    if changed == 0 {
        Err(crate::text::concat3("任务不存在 (id=", crate::text::i64_to_string(id).as_str(), ")"))
    } else {
        Ok(())
    }
}

/// The parameters of an update: the planned values, then the change stamp, then the id.
pub fn update_params(vals: Vec<SqlParam>, stamp: &str, id: i64) -> (r: Vec<SqlParam>)
    ensures
        r.len() == vals.len() + 2,
        r@.take(vals.len() as int) == vals@,
        pview(r@[vals.len() as int]) == ptext(stamp@),
        pview(r@[vals.len() + 1]) == pint(id as int),
{
    let mut r = vals;
    let ghost v0 = r@;
    r.push(text_param(stamp));
    r.push(int_param(id));
    assert(r@.take(v0.len() as int) =~= v0);
    r
}

fn int_param(i: i64) -> (r: SqlParam)
    ensures
        pview(r) == pint(i as int),
{
    SqlParam::Integer(i)
}

fn text_param(s: &str) -> (r: SqlParam)
    ensures
        pview(r) == ptext(s@),
{
    SqlParam::Text(String::from_str(s))
}

fn opt_text_param(s: &Option<String>) -> (r: SqlParam)
    ensures
        pview(r) == popt_text(*s),
{
    match s {
        Some(t) => SqlParam::Text(t.clone()),
        None => SqlParam::Null,
    }
}

fn opt_int_param(v: Option<i64>) -> (r: SqlParam)
    ensures
        pview(r) == popt_int(v),
{
    match v {
        Some(i) => SqlParam::Integer(i),
        None => SqlParam::Null,
    }
}

/// The next manual position: one past the largest in the table (1 for an empty table).
pub fn next_sort_order(conn: &rusqlite::Connection) -> (r: Result<i64, String>)
    ensures
        r matches Err(e) ==> "查询排序失败: "@.is_prefix_of(e@),
{
    let prefix = "查询排序失败: ";
    let rows = match db::query(conn, "SELECT COALESCE(MAX(sort_order), 0) + 1 FROM tasks", &Vec::new()) {
        Ok(rows) => rows,
        Err(e) => {
            return Err(db::prefixed(prefix, e));
        },
    };
    if rows.len() > 0 && rows[0].len() > 0 {
        if let Some(v) = db::cell_int(&rows[0][0]) {
            return Ok(v);
        }
    }
    Err(db::prefixed(prefix, String::from_str("Query returned no rows")))
}

pub open spec fn priority_name_or_low(p: Option<Priority>) -> Seq<char> {
    match p {
        Some(x) => x.spec_name(),
        None => "LOW"@,
    }
}

/// The values a new task row is inserted with: trimmed title, description, priority
/// name (LOW when none is given), category, creation stamp, due time, estimate and
/// manual position.
pub open spec fn spec_insert_params(input: TaskInput, now: Seq<char>, sort_order: i64) -> Seq<(int, int, Seq<char>)> {
    seq![
        ptext(spec_trim(input.title@)),
        ptext(input.description@),
        ptext(priority_name_or_low(input.priority)),
        popt_int(input.category_id),
        ptext(now),
        popt_text(input.due_at),
        popt_int(input.estimated_minutes),
        pint(sort_order as int),
    ]
}

pub fn insert_params(input: &TaskInput, now: &str, sort_order: i64) -> (r: Vec<SqlParam>)
    ensures
        r.len() == 8,
        forall|i: int| 0 <= i < 8 ==> pview(#[trigger] r@[i]) == spec_insert_params(*input, now@, sort_order)[i],
{
    let mut v: Vec<SqlParam> = Vec::new();
    v.push(text_param(crate::text::trim(input.title.as_str())));
    v.push(text_param(input.description.as_str()));
    let priority = match &input.priority {
        Some(p) => p.as_str(),
        None => "LOW",
    };
    v.push(text_param(priority));
    v.push(opt_int_param(input.category_id));
    v.push(text_param(now));
    v.push(opt_text_param(&input.due_at));
    v.push(opt_int_param(input.estimated_minutes));
    v.push(int_param(sort_order));
    v
}

/// Creates a task (status TODO, priority LOW unless given, after every other task in
/// manual order) and returns it as stored. A blank title is refused.
pub fn create(conn: &rusqlite::Connection, input: &TaskInput) -> (r: Result<Task, String>)
    ensures
        is_blank(input.title@) ==> (r matches Err(e) && e@ == title_error()),
        !is_blank(input.title@) ==> !(r matches Err(e) && e@ == title_error()),
        r matches Err(e) ==> (e@ == title_error() && is_blank(input.title@)) || "查询排序失败: "@.is_prefix_of(e@)
            || "创建任务失败: "@.is_prefix_of(e@) || exists|id: i64| #[trigger] get_error_prefix(id).is_prefix_of(e@),
{
    if crate::text::blank(input.title.as_str()) {
        return Err(String::from_str("任务标题不能为空"));
    }
    let now = crate::time::now_rfc3339();
    let sort_order = match next_sort_order(conn) {
        Ok(v) => v,
        Err(e) => {
            proof {
                lemma_not_title_error(e@, 0);
            }
            return Err(e);
        },
    };
    let params = insert_params(input, now.as_str(), sort_order);
    match db::execute(
        conn,
        "INSERT INTO tasks (title, description, status, priority, category_id, tags, created_at, updated_at, due_at, estimated_minutes, sort_order)
         VALUES (?1, ?2, 'TODO', ?3, ?4, '[]', ?5, ?5, ?6, ?7, ?8)",
        &params,
    ) {
        Ok(_) => {},
        Err(e) => {
            let m = db::prefixed("创建任务失败: ", e);
            proof {
                lemma_not_title_error(m@, 0);
            }
            return Err(m);
        },
    }
    let id = db::last_insert_rowid(conn);
    let r = get(conn, id);
    proof {
        if r is Err {
            lemma_not_title_error(r->Err_0@, id);
            assert(get_error_prefix(id).is_prefix_of(r->Err_0@));
        }
    }
    r
}

pub open spec fn opt_entry_text(name: Seq<char>, v: Option<String>) -> Seq<(Seq<char>, (int, int, Seq<char>))> {
    match v {
        Some(t) => seq![(name, ptext(t@))],
        None => Seq::empty(),
    }
}

pub open spec fn opt_entry_int(name: Seq<char>, v: Option<i64>) -> Seq<(Seq<char>, (int, int, Seq<char>))> {
    match v {
        Some(i) => seq![(name, pint(i as int))],
        None => Seq::empty(),
    }
}

/// The columns an update sets and their values, in order. A status also sets the
/// completion stamp: the given stamp when it is COMPLETED, NULL otherwise.
pub open spec fn piece_title(p: TaskUpdate) -> Seq<(Seq<char>, (int, int, Seq<char>))> {
    match p.title {
        Some(v) => seq![("title"@, ptext(spec_trim(v@)))],
        None => Seq::empty(),
    }
}

pub open spec fn piece_status(p: TaskUpdate, completed_stamp: Seq<char>) -> Seq<(Seq<char>, (int, int, Seq<char>))> {
    match p.status {
        Some(st) => seq![
            ("status"@, ptext(st.spec_name())),
            ("completed_at"@, if st == TaskStatus::Completed { ptext(completed_stamp) } else { pnull() }),
        ],
        None => Seq::empty(),
    }
}

pub open spec fn piece_priority(p: TaskUpdate) -> Seq<(Seq<char>, (int, int, Seq<char>))> {
    match p.priority {
        Some(pr) => seq![("priority"@, ptext(pr.spec_name()))],
        None => Seq::empty(),
    }
}

pub open spec fn piece_reminder(p: TaskUpdate) -> Seq<(Seq<char>, (int, int, Seq<char>))> {
    match p.reminder_enabled {
        Some(b) => seq![("reminder_enabled"@, pint(if b { 1 } else { 0 }))],
        None => Seq::empty(),
    }
}

/// The columns an update sets and their values, in order. A status also sets the
/// completion stamp: the given stamp when it is COMPLETED, NULL otherwise.
pub open spec fn spec_update_plan(p: TaskUpdate, completed_stamp: Seq<char>) -> Seq<(Seq<char>, (int, int, Seq<char>))> {
    piece_title(p) + opt_entry_text("description"@, p.description) + piece_status(p, completed_stamp)
        + piece_priority(p) + opt_entry_int("category_id"@, p.category_id) + opt_entry_text("due_at"@, p.due_at)
        + opt_entry_text("completed_at"@, p.completed_at) + opt_entry_int("estimated_minutes"@, p.estimated_minutes)
        + piece_reminder(p) + opt_entry_text("reminder_time"@, p.reminder_time) + opt_entry_text("repeat_rule"@, p.repeat_rule)
        + opt_entry_int("sort_order"@, p.sort_order)
}

/// The plan so far matches the given entries.
pub open spec fn plan_is(cols: Seq<&'static str>, vals: Seq<SqlParam>, plan: Seq<(Seq<char>, (int, int, Seq<char>))>) -> bool {
    &&& cols.len() == plan.len()
    &&& vals.len() == plan.len()
    &&& forall|i: int| 0 <= i < plan.len() ==> (#[trigger] cols[i])@ == plan[i].0 && pview(vals[i]) == plan[i].1
}

fn add_entry(cols: &mut Vec<&'static str>, vals: &mut Vec<SqlParam>, name: &'static str, v: SqlParam, Ghost(plan): Ghost<Seq<(Seq<char>, (int, int, Seq<char>))>>)
    requires
        plan_is(old(cols)@, old(vals)@, plan),
    ensures
        plan_is(final(cols)@, final(vals)@, plan + seq![(name@, pview(v))]),
{
    cols.push(name);
    vals.push(v);
}

/// The columns and values of an update, or the error for a blank title.
fn add_opt_text(cols: &mut Vec<&'static str>, vals: &mut Vec<SqlParam>, name: &'static str, v: &Option<String>, Ghost(plan): Ghost<Seq<(Seq<char>, (int, int, Seq<char>))>>)
    requires
        plan_is(old(cols)@, old(vals)@, plan),
    ensures
        plan_is(final(cols)@, final(vals)@, plan + opt_entry_text(name@, *v)),
{
    match v {
        Some(t) => add_entry(cols, vals, name, text_param(t.as_str()), Ghost(plan)),
        None => {
            assert(plan + Seq::empty() =~= plan);
        },
    }
}

fn add_opt_int(cols: &mut Vec<&'static str>, vals: &mut Vec<SqlParam>, name: &'static str, v: Option<i64>, Ghost(plan): Ghost<Seq<(Seq<char>, (int, int, Seq<char>))>>)
    requires
        plan_is(old(cols)@, old(vals)@, plan),
    ensures
        plan_is(final(cols)@, final(vals)@, plan + opt_entry_int(name@, v)),
{
    match v {
        Some(i) => add_entry(cols, vals, name, int_param(i), Ghost(plan)),
        None => {
            assert(plan + Seq::empty() =~= plan);
        },
    }
}

fn add_status(cols: &mut Vec<&'static str>, vals: &mut Vec<SqlParam>, patch: &TaskUpdate, completed_stamp: &str, Ghost(plan): Ghost<Seq<(Seq<char>, (int, int, Seq<char>))>>)
    requires
        plan_is(old(cols)@, old(vals)@, plan),
    ensures
        plan_is(final(cols)@, final(vals)@, plan + piece_status(*patch, completed_stamp@)),
{
    match &patch.status {
        Some(st) => {
            add_entry(cols, vals, "status", text_param(st.as_str()), Ghost(plan));
            let done = match st {
                TaskStatus::Completed => true,
                _ => false,
            };
            let stamp = if done { text_param(completed_stamp) } else { SqlParam::Null };
            add_entry(cols, vals, "completed_at", stamp, Ghost(plan + seq![("status"@, ptext(st.spec_name()))]));
            assert(plan + seq![("status"@, ptext(st.spec_name()))] + seq![("completed_at"@, pview(stamp))] =~= plan + piece_status(*patch, completed_stamp@));
        },
        None => {
            assert(plan + Seq::empty() =~= plan);
        },
    }
}

fn add_priority(cols: &mut Vec<&'static str>, vals: &mut Vec<SqlParam>, patch: &TaskUpdate, Ghost(plan): Ghost<Seq<(Seq<char>, (int, int, Seq<char>))>>)
    requires
        plan_is(old(cols)@, old(vals)@, plan),
    ensures
        plan_is(final(cols)@, final(vals)@, plan + piece_priority(*patch)),
{
    match &patch.priority {
        Some(pr) => add_entry(cols, vals, "priority", text_param(pr.as_str()), Ghost(plan)),
        None => {
            assert(plan + Seq::empty() =~= plan);
        },
    }
}

fn add_reminder(cols: &mut Vec<&'static str>, vals: &mut Vec<SqlParam>, patch: &TaskUpdate, Ghost(plan): Ghost<Seq<(Seq<char>, (int, int, Seq<char>))>>)
    requires
        plan_is(old(cols)@, old(vals)@, plan),
    ensures
        plan_is(final(cols)@, final(vals)@, plan + piece_reminder(*patch)),
{
    match patch.reminder_enabled {
        Some(b) => add_entry(cols, vals, "reminder_enabled", int_param(if b { 1 } else { 0 }), Ghost(plan)),
        None => {
            assert(plan + Seq::empty() =~= plan);
        },
    }
}

/// The columns and values of an update, or the error for a blank title.
pub fn update_plan(patch: &TaskUpdate, completed_stamp: &str) -> (r: Result<(Vec<&'static str>, Vec<SqlParam>), String>)
    ensures
        match patch.title {
            Some(t) => is_blank(t@) ==> (r matches Err(e) && e@ == "任务标题不能为空"@),
            None => true,
        },
        !(patch.title matches Some(t) && is_blank(t@)) ==> (r matches Ok((cols, vals)) && plan_is(cols@, vals@, spec_update_plan(*patch, completed_stamp@))),
{
    let mut cols: Vec<&'static str> = Vec::new();
    let mut vals: Vec<SqlParam> = Vec::new();
    let ghost p = *patch;
    let ghost s = completed_stamp@;
    if let Some(v) = &patch.title {
        if crate::text::blank(v.as_str()) {
            return Err(String::from_str("任务标题不能为空"));
        }
        add_entry(&mut cols, &mut vals, "title", text_param(crate::text::trim(v.as_str())), Ghost(Seq::empty()));
        assert(Seq::<(Seq<char>, (int, int, Seq<char>))>::empty() + seq![("title"@, ptext(spec_trim(v@)))] =~= piece_title(p));
    } else {
        assert(piece_title(p) =~= Seq::empty());
    }
    add_opt_text(&mut cols, &mut vals, "description", &patch.description, Ghost(piece_title(p)));
    let ghost plan1 = piece_title(p) + opt_entry_text("description"@, p.description);
    add_status(&mut cols, &mut vals, patch, completed_stamp, Ghost(plan1));
    let ghost plan2 = plan1 + piece_status(p, s);
    add_priority(&mut cols, &mut vals, patch, Ghost(plan2));
    let ghost plan3 = plan2 + piece_priority(p);
    add_opt_int(&mut cols, &mut vals, "category_id", patch.category_id, Ghost(plan3));
    let ghost plan4 = plan3 + opt_entry_int("category_id"@, p.category_id);
    add_opt_text(&mut cols, &mut vals, "due_at", &patch.due_at, Ghost(plan4));
    let ghost plan5 = plan4 + opt_entry_text("due_at"@, p.due_at);
    add_opt_text(&mut cols, &mut vals, "completed_at", &patch.completed_at, Ghost(plan5));
    let ghost plan6 = plan5 + opt_entry_text("completed_at"@, p.completed_at);
    add_opt_int(&mut cols, &mut vals, "estimated_minutes", patch.estimated_minutes, Ghost(plan6));
    let ghost plan7 = plan6 + opt_entry_int("estimated_minutes"@, p.estimated_minutes);
    add_reminder(&mut cols, &mut vals, patch, Ghost(plan7));
    let ghost plan8 = plan7 + piece_reminder(p);
    add_opt_text(&mut cols, &mut vals, "reminder_time", &patch.reminder_time, Ghost(plan8));
    let ghost plan9 = plan8 + opt_entry_text("reminder_time"@, p.reminder_time);
    add_opt_text(&mut cols, &mut vals, "repeat_rule", &patch.repeat_rule, Ghost(plan9));
    let ghost plan10 = plan9 + opt_entry_text("repeat_rule"@, p.repeat_rule);
    add_opt_int(&mut cols, &mut vals, "sort_order", patch.sort_order, Ghost(plan10));
    Ok((cols, vals))
}

/// The SET list of an update statement: `col = ?, ` for each column.
pub open spec fn spec_set_list(cols: Seq<&'static str>) -> Seq<char>
    decreases cols.len(),
{
    if cols.len() == 0 {
        Seq::empty()
    } else {
        spec_set_list(cols.drop_last()) + cols.last()@ + " = ?, "@
    }
}

/// The statement an update runs: the planned columns, then the change stamp, by id.
pub fn update_sql(cols: &Vec<&'static str>) -> (r: String)
    ensures
        r@ == "UPDATE tasks SET "@ + spec_set_list(cols@) + "updated_at = ? WHERE id = ?"@,
{
    let mut sql = String::from_str("UPDATE tasks SET ");
    let mut i: usize = 0;
    while i < cols.len()
        invariant
            i <= cols.len(),
            sql@ == "UPDATE tasks SET "@ + spec_set_list(cols@.take(i as int)),
        decreases cols.len() - i,
    {
        proof {
            assert(cols@.take(i + 1).drop_last() =~= cols@.take(i as int));
        }
        sql.append(cols[i]);
        sql.append(" = ?, ");
        i += 1;
    }
    assert(cols@.take(cols.len() as int) =~= cols@);
    sql.append("updated_at = ? WHERE id = ?");
    sql
}

/// Changes the given fields of a task and returns it as stored. A blank title is
/// refused; an empty patch changes nothing and returns the task. The statement is
/// `update_sql` of the planned columns, bound to `update_params` of the planned
/// values, the change stamp and `id`; no row changed means no such task.
pub fn update(conn: &rusqlite::Connection, id: i64, patch: &TaskUpdate) -> (r: Result<Task, String>)
    ensures
        (patch.title matches Some(t) && is_blank(t@)) ==> (r matches Err(e) && e@ == title_error()),
        !(patch.title matches Some(t) && is_blank(t@)) ==> !(r matches Err(e) && e@ == title_error()),
        r matches Err(e) ==> (e@ == title_error() && (patch.title matches Some(t) && is_blank(t@)))
            || "更新任务失败: "@.is_prefix_of(e@) || e@ == not_found_error(id) || get_error_prefix(id).is_prefix_of(e@),
{
    let completing = match patch.status {
        Some(TaskStatus::Completed) => true,
        _ => false,
    };
    let completed_stamp = if completing { crate::time::now_rfc3339() } else { String::new() };
    let (cols, vals) = update_plan(patch, completed_stamp.as_str())?;
    if cols.len() == 0 {
        let r = get(conn, id);
        proof {
            if r is Err {
                lemma_not_title_error(r->Err_0@, id);
            }
        }
        return r;
    }
    let stamp = crate::time::now_rfc3339();
    let vals = update_params(vals, stamp.as_str(), id);
    let sql = update_sql(&cols);
    let changed = match db::execute(conn, sql.as_str(), &vals) {
        Ok(n) => n,
        Err(e) => {
            let m = db::prefixed("更新任务失败: ", e);
            proof {
                lemma_not_title_error(m@, id);
            }
            return Err(m);
        },
    };
    match changed_outcome(changed, id) {
        Ok(()) => {},
        Err(m) => {
            proof {
                lemma_not_title_error(m@, id);
            }
            return Err(m);
        },
    }
    let r = get(conn, id);
    proof {
        if r is Err {
            lemma_not_title_error(r->Err_0@, id);
        }
    }
    r
}

/// Deletes a task (the statement binds `id_params(id)`); deleting one that does not
/// exist is an error.
pub fn delete(conn: &rusqlite::Connection, id: i64) -> (r: Result<(), String>)
    ensures
        r matches Err(e) ==> "删除任务失败: "@.is_prefix_of(e@) || e@ == not_found_error(id),
{
    let params = id_params(id);
    let changed = match db::execute(conn, "DELETE FROM tasks WHERE id = ?1", &params) {
        Ok(n) => n,
        Err(e) => return Err(db::prefixed("删除任务失败: ", e)),
    };
    changed_outcome(changed, id)
}

/// The manual positions a reorder writes: the task at list index `i` gets position `i + 1`.
pub fn sort_positions(ordered_ids: &Vec<i64>) -> (r: Vec<(i64, i64)>)
    requires
        ordered_ids.len() < i64::MAX,
    ensures
        r.len() == ordered_ids.len(),
        forall|i: int| 0 <= i < r.len() ==> (#[trigger] r@[i]).0 == i + 1 && r@[i].1 == ordered_ids@[i],
{
    let mut out: Vec<(i64, i64)> = Vec::new();
    let mut i: usize = 0;
    while i < ordered_ids.len()
        invariant
            ordered_ids.len() < i64::MAX,
            i <= ordered_ids.len(),
            out.len() == i,
            forall|k: int| 0 <= k < i ==> (#[trigger] out@[k]).0 == k + 1 && out@[k].1 == ordered_ids@[k],
        decreases ordered_ids.len() - i,
    {
        out.push(((i as i64) + 1, ordered_ids[i]));
        i += 1;
    }
    out
}

/// The parameters of one position write: the position, then the task id.
pub fn position_params(pos: i64, id: i64) -> (r: Vec<SqlParam>)
    ensures
        params_view(r@) == seq![pint(pos as int), pint(id as int)],
{
    let mut params: Vec<SqlParam> = Vec::new();
    params.push(SqlParam::Integer(pos));
    params.push(SqlParam::Integer(id));
    assert(params_view(params@) =~= seq![pint(pos as int), pint(id as int)]);
    params
}

/// How a transaction ends: committed when every write succeeded, rolled back otherwise.
pub fn transaction_end(all_written: bool) -> (r: &'static str)
    ensures
        r@ == (if all_written { "COMMIT"@ } else { "ROLLBACK"@ }),
{
    if all_written { "COMMIT" } else { "ROLLBACK" }
}

/// The statement of one position write, bound to `position_params`.
pub const POSITION_SQL: &'static str = "UPDATE tasks SET sort_order = ?1 WHERE id = ?2";

/// Rewrites the manual order to follow the given ids, in one transaction: after
/// `BEGIN`, the `k`-th write is `POSITION_SQL` bound to
/// `position_params(sort_positions(ordered_ids)[k])`; the transaction then ends with
/// `transaction_end` of whether all writes succeeded (rolled back on the first
/// failure, committed otherwise).
pub fn reorder(conn: &rusqlite::Connection, ordered_ids: &Vec<i64>) -> (r: Result<(), String>)
    requires
        ordered_ids.len() < i64::MAX,
    ensures
        r matches Err(e) ==> "开启事务失败: "@.is_prefix_of(e@) || "更新排序失败: "@.is_prefix_of(e@)
            || "提交事务失败: "@.is_prefix_of(e@),
{
    match db::execute_batch(conn, "BEGIN") {
        Ok(()) => {},
        Err(e) => return Err(db::prefixed("开启事务失败: ", e)),
    }
    let positions = sort_positions(ordered_ids);
    let mut i: usize = 0;
    while i < positions.len()
        decreases positions.len() - i,
    {
        let (pos, id) = positions[i];
        let params = position_params(pos, id);
        match db::execute(conn, POSITION_SQL, &params) {
            Ok(_) => {},
            Err(e) => {
                let _ = db::execute_batch(conn, transaction_end(false));
                return Err(db::prefixed("更新排序失败: ", e));
            },
        }
        i += 1;
    }
    match db::execute_batch(conn, transaction_end(true)) {
        Ok(()) => Ok(()),
        Err(e) => Err(db::prefixed("提交事务失败: ", e)),
    }
}

/// `out` is what the search gives for the query over some list of stored tasks at
/// some time `now`: the tasks that pass the query's filter, in the search order.
pub open spec fn is_query_result(q: TaskQuery, out: Seq<Task>) -> bool {
    exists|tasks: Seq<Task>, facts: Seq<task_query::TaskFacts>, f: task_query::TaskFilter, now: crate::time::Instant, sel: Seq<usize>|
        #![trigger task_query::is_ordered_selection(tasks, facts, f, now, sel), task_query::filter_of(q, f)]
        {
            &&& tasks.len() == facts.len()
            &&& forall|i: int| 0 <= i < tasks.len() ==> task_query::facts_of(tasks[i], #[trigger] facts[i])
            &&& task_query::filter_of(q, f)
            &&& task_query::is_ordered_selection(tasks, facts, f, now, sel)
            &&& sel.len() == out.len()
            &&& forall|i: int| 0 <= i < out.len() ==> task_query::same_task(#[trigger] out[i], tasks[sel[i] as int])
        }
}

/// Every record that passes the query's filters, in record order (newest created
/// first). A malformed date bound or an unknown priority is an error.
pub fn filter_and_sort(conn: &rusqlite::Connection, query: &TaskQuery) -> (r: Result<Vec<Task>, String>)
    ensures
        spec_query_error(*query) is Some ==> r is Err,
        r matches Err(e) ==> "查询任务失败: "@.is_prefix_of(e@) || spec_query_error(*query) == Some(e@),
        r matches Ok(v) ==> is_query_result(*query, v@),
{
    let tasks = list(conn)?;
    let now = crate::time::now();
    let filter = task_query::compile_filter(query)?;
    let mut facts: Vec<task_query::TaskFacts> = Vec::new();
    let mut i: usize = 0;
    while i < tasks.len()
        invariant
            i <= tasks.len(),
            facts.len() == i,
            forall|k: int| 0 <= k < i ==> task_query::facts_of(tasks@[k], #[trigger] facts@[k]),
        decreases tasks.len() - i,
    {
        facts.push(task_query::task_facts(&tasks[i]));
        i += 1;
    }
    let out = task_query::order_tasks(&tasks, &facts, &filter, now);
    proof {
        let sel = choose|sel: Seq<usize>|
            #![trigger task_query::is_ordered_selection(tasks@, facts@, filter, now, sel)]
            task_query::is_ordered_selection(tasks@, facts@, filter, now, sel) && sel.len() == out.len() && forall|i: int|
                0 <= i < out.len() ==> task_query::same_task(#[trigger] out@[i], tasks@[sel[i] as int]);
        assert(task_query::is_ordered_selection(tasks@, facts@, filter, now, sel));
        assert(task_query::filter_of(*query, filter));
    }
    Ok(out)
}

/// Every record that passes the query's filters, unpaged (for the CSV export).
pub fn filtered_tasks(conn: &rusqlite::Connection, query: &TaskQuery) -> (r: Result<Vec<Task>, String>)
    ensures
        spec_query_error(*query) is Some ==> r is Err,
        r matches Err(e) ==> "查询任务失败: "@.is_prefix_of(e@) || spec_query_error(*query) == Some(e@),
        r matches Ok(v) ==> is_query_result(*query, v@),
{
    filter_and_sort(conn, query)
}

/// One page of the records that pass the query's filters, with their total count.
pub fn search(conn: &rusqlite::Connection, query: &TaskQuery) -> (r: Result<TaskPage, String>)
    requires
        page_fits(query.page, query.page_size),
    ensures
        spec_query_error(*query) is Some ==> r is Err,
        r matches Err(e) ==> "查询任务失败: "@.is_prefix_of(e@) || spec_query_error(*query) == Some(e@),
        r matches Ok(p) ==> p.page == task_query::spec_page_number(query.page) && p.page_size
            == task_query::spec_page_size(query.page_size) && p.items.len() <= p.page_size,
        r matches Ok(p) ==> exists|all: Seq<Task>|
            #![trigger is_query_result(*query, all)]
            is_query_result(*query, all) && p.total == all.len() as i64 && p.items@ == task_query::spec_page_items(all, query.page, query.page_size),
{
    let filtered = filter_and_sort(conn, query)?;
    let ghost all = filtered@;
    let page = task_query::paginate(filtered, query.page, query.page_size);
    assert(is_query_result(*query, all));
    Ok(page)
}

} // verus!
