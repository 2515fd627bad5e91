//! Task commands: the CSV export of the task records and the change events.
use crate::database::models::{Task, TaskQuery, TaskStatus, TaskUpdate};
use crate::database::task_query::opt_text_view;
use crate::text::{spec_contains_char, spec_dec};
use vstd::prelude::*;

verus! {

/// Sent to the pet and the widget whenever the tasks change.
pub const EVENT_PET_TASKS_CHANGED: &'static str = "pet://tasks-changed";
/// Sent to the pet with the title of a task that was just completed.
pub const EVENT_PET_TASK_COMPLETED: &'static str = "pet://task-completed";

/// The windows that refresh when the tasks change.
pub fn tasks_changed_targets() -> (r: Vec<&'static str>)
    ensures
        r.len() == 2 && r@[0]@ == "pet"@ && r@[1]@ == "widget"@,
{
    let mut v: Vec<&'static str> = Vec::new();
    v.push("pet");
    v.push("widget");
    v
}

/// An update announces a completion when it sets the status to completed.
pub fn announces_completion(patch: &TaskUpdate) -> (r: bool)
    ensures
        r == (patch.status == Some(TaskStatus::Completed)),
{
    match patch.status {
        Some(TaskStatus::Completed) => true,
        _ => false,
    }
}

/// A field needs quoting when it holds a comma, a quote or a line break.
pub open spec fn needs_quotes(s: Seq<char>) -> bool {
    spec_contains_char(s, ',') || spec_contains_char(s, '"') || spec_contains_char(s, '\n')
        || spec_contains_char(s, '\r')
}

/// Every quote doubled.
pub open spec fn doubled_quotes(s: Seq<char>) -> Seq<char>
    decreases s.len(),
{
    if s.len() == 0 {
        Seq::empty()
    } else {
        doubled_quotes(s.drop_last()) + if s.last() == '"' { seq!['"', '"'] } else { seq![s.last()] }
    }
}

/// A CSV field: quoted, with its quotes doubled, when it needs quoting.
pub open spec fn spec_csv_escape(s: Seq<char>) -> Seq<char> {
    if needs_quotes(s) { seq!['"'] + doubled_quotes(s) + seq!['"'] } else { s }
}

pub fn csv_escape(field: &str) -> (r: String)
    ensures
        r@ == spec_csv_escape(field@),
{
    if crate::text::has_char(field, ',') || crate::text::has_char(field, '"') || crate::text::has_char(field, '\n')
        || crate::text::has_char(field, '\r') {
        let cs = crate::text::chars_of(field);
        let mut out = String::new();
        crate::text::push_char(&mut out, '"');
        let mut i: usize = 0;
        while i < cs.len()
            invariant
                cs@ == field@,
                i <= cs.len(),
                out@ == seq!['"'] + doubled_quotes(cs@.take(i as int)),
            decreases cs.len() - i,
        {
            let c = cs[i];
            if c == '"' {
                crate::text::push_char(&mut out, '"');
                crate::text::push_char(&mut out, '"');
            } else {
                crate::text::push_char(&mut out, c);
            }
            proof {
                assert(cs@.take(i + 1).drop_last() =~= cs@.take(i as int));
            }
            i += 1;
            assert(out@ =~= seq!['"'] + doubled_quotes(cs@.take(i as int)));
        }
        assert(cs@.take(cs.len() as int) =~= cs@);
        crate::text::push_char(&mut out, '"');
        out
    } else {
        String::from_str(field)
    }
}

pub open spec fn opt_or_empty(o: Option<Seq<char>>) -> Seq<char> {
    match o {
        Some(s) => s,
        None => Seq::empty(),
    }
}

/// The fields of one task record, in column order.
pub open spec fn spec_csv_fields(t: Task) -> Seq<Seq<char>> {
    seq![
        spec_dec(t.id as int),
        t.title@,
        t.description@,
        t.status.spec_name(),
        t.priority.spec_name(),
        opt_or_empty(opt_text_view(t.due_at)),
        opt_or_empty(opt_text_view(t.completed_at)),
        t.created_at@,
        match t.estimated_minutes {
            Some(v) => spec_dec(v as int),
            None => Seq::empty(),
        },
    ]
}

/// Escaped fields joined with commas.
pub open spec fn joined_fields(fields: Seq<Seq<char>>) -> Seq<char>
    decreases fields.len(),
{
    if fields.len() == 0 {
        Seq::empty()
    } else if fields.len() == 1 {
        spec_csv_escape(fields[0])
    } else {
        joined_fields(fields.drop_last()) + ","@ + spec_csv_escape(fields.last())
    }
}

pub open spec fn spec_csv_row(t: Task) -> Seq<char> {
    joined_fields(spec_csv_fields(t)) + "\n"@
}

/// The header line, after a byte order mark so that spreadsheet programs read the
/// text as UTF-8.
pub open spec fn csv_header() -> Seq<char> {
    "\u{FEFF}编号,标题,描述,状态,优先级,截止时间,完成时间,创建时间,预计分钟\n"@
}

pub open spec fn spec_csv_rows(tasks: Seq<Task>) -> Seq<char>
    decreases tasks.len(),
{
    if tasks.len() == 0 {
        Seq::empty()
    } else {
        spec_csv_rows(tasks.drop_last()) + spec_csv_row(tasks.last())
    }
}

fn opt_text(o: &Option<String>) -> (r: String)
    ensures
        r@ == opt_or_empty(opt_text_view(*o)),
{
    match o {
        Some(s) => s.clone(),
        None => String::new(),
    }
}

fn csv_row(t: &Task) -> (r: String)
    ensures
        r@ == spec_csv_row(*t),
{
    let mut fields: Vec<String> = Vec::new();
    fields.push(crate::text::i64_to_string(t.id));
    fields.push(t.title.clone());
    fields.push(t.description.clone());
    fields.push(String::from_str(t.status.as_str()));
    fields.push(String::from_str(t.priority.as_str()));
    fields.push(opt_text(&t.due_at));
    fields.push(opt_text(&t.completed_at));
    fields.push(t.created_at.clone());
    fields.push(
        match t.estimated_minutes {
            Some(v) => crate::text::i64_to_string(v),
            None => String::new(),
        },
    );
    let ghost want = spec_csv_fields(*t);
    assert(fields@.map_values(|f: String| f@) =~= want);
    let mut out = csv_escape(fields[0].as_str());
    assert(want.take(1).drop_last() =~= want.take(0));
    let mut i: usize = 1;
    while i < fields.len()
        invariant
            fields.len() == 9,
            1 <= i <= fields.len(),
            fields@.map_values(|f: String| f@) == want,
            out@ == joined_fields(want.take(i as int)),
        decreases fields.len() - i,
    {
        out.append(",");
        let e = csv_escape(fields[i].as_str());
        out.append(e.as_str());
        proof {
            assert(want.take(i + 1).drop_last() =~= want.take(i as int));
            assert(fields@[i as int]@ == want[i as int]);
        }
        i += 1;
    }
    assert(want.take(9) =~= want);
    out.append("\n");
    out
}

/// The CSV text of the task records: the header, then one line per record.
pub fn tasks_csv(tasks: &Vec<Task>) -> (r: String)
    ensures
        r@ == csv_header() + spec_csv_rows(tasks@),
{
    let mut out = String::from_str("\u{FEFF}编号,标题,描述,状态,优先级,截止时间,完成时间,创建时间,预计分钟\n");
    let mut i: usize = 0;
    while i < tasks.len()
        invariant
            i <= tasks.len(),
            out@ == csv_header() + spec_csv_rows(tasks@.take(i as int)),
        decreases tasks.len() - i,
    {
        let row = csv_row(&tasks[i]);
        out.append(row.as_str());
        proof {
            assert(tasks@.take(i + 1).drop_last() =~= tasks@.take(i as int));
        }
        i += 1;
        assert(out@ =~= csv_header() + spec_csv_rows(tasks@.take(i as int)));
    }
    assert(tasks@.take(tasks.len() as int) =~= tasks@);
    out
}

/// The CSV text of the records that pass the query's filters.
pub fn export_csv(conn: &rusqlite::Connection, query: &TaskQuery) -> (r: Result<String, String>)
    ensures
        crate::database::task_query::spec_query_error(*query) is Some ==> r is Err,
        r matches Err(e) ==> "查询任务失败: "@.is_prefix_of(e@) || crate::database::task_query::spec_query_error(*query) == Some(e@),
        r matches Ok(s) ==> exists|ts: Seq<crate::database::models::Task>|
            #![trigger crate::database::task_repo::is_query_result(*query, ts)]
            crate::database::task_repo::is_query_result(*query, ts) && s@ == csv_header() + spec_csv_rows(ts),
{
    let tasks = crate::database::task_repo::filtered_tasks(conn, query)?;
    let out = tasks_csv(&tasks);
    assert(crate::database::task_repo::is_query_result(*query, tasks@));
    Ok(out)
}

} // verus!
