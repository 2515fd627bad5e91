//! Selecting, ordering and paging task records for the record table and the CSV
//! export: the filters of a `TaskQuery`, newest-created first, pages of bounded size.
use crate::database::models::{Priority, Task, TaskPage, TaskQuery, TaskStatus};
use crate::text::{spec_contains, spec_to_lowercase, spec_trim};
use crate::time::{Instant, instant_before, spec_parse_rfc3339, parse_day};
use vstd::prelude::*;

verus! {

/// What a task record is matched on, besides its own fields: the lower-cased title
/// and description, the parsed due and completion instants, and the local days of
/// those stamps.
#[derive(Debug, Clone)]
pub struct TaskFacts {
    pub title_lower: String,
    pub description_lower: String,
    pub due: Option<Instant>,
    pub completed: Option<Instant>,
    pub due_day: Option<i32>,
    pub completed_day: Option<i32>,
}

/// A `TaskQuery` made ready for matching: trimmed lower-case keyword, parsed days and
/// priority.
#[derive(Debug, Clone)]
pub struct TaskFilter {
    pub keyword: String,
    pub completed: Option<bool>,
    pub overdue: Option<bool>,
    pub due_from: Option<i32>,
    pub due_to: Option<i32>,
    pub completed_from: Option<i32>,
    pub completed_to: Option<i32>,
    pub priority: Option<Priority>,
}

pub open spec fn opt_parse_rfc3339(s: Option<String>) -> Option<Instant> {
    match s {
        Some(x) => spec_parse_rfc3339(x@),
        None => None,
    }
}

pub open spec fn opt_parses(s: Option<String>) -> bool {
    match s {
        Some(x) => spec_parse_rfc3339(x@) is Some,
        None => false,
    }
}

/// The facts belong to the task: lower-cased texts and parsed instants as chrono and
/// std give them; a local day exactly where the stamp parses.
pub open spec fn facts_of(t: Task, f: TaskFacts) -> bool {
    &&& f.title_lower@ == spec_to_lowercase(t.title@)
    &&& f.description_lower@ == spec_to_lowercase(t.description@)
    &&& f.due == opt_parse_rfc3339(t.due_at)
    &&& f.completed == opt_parse_rfc3339(t.completed_at)
    &&& (f.due_day is Some <==> opt_parses(t.due_at))
    &&& (f.completed_day is Some <==> opt_parses(t.completed_at))
}

/// Still to be done: TODO or IN_PROGRESS.
pub open spec fn spec_is_pending(t: Task) -> bool {
    t.status == TaskStatus::Todo || t.status == TaskStatus::InProgress
}

/// The due time has passed.
pub open spec fn spec_is_overdue(f: TaskFacts, now: Instant) -> bool {
    f.due matches Some(d) && d.before(now)
}

/// Completed after its due time.
pub open spec fn spec_completed_late(f: TaskFacts) -> bool {
    f.due matches Some(d) && f.completed matches Some(c) && d.before(c)
}

/// Overdue as a record: pending past its due time, or completed late.
pub open spec fn spec_overdue_record(t: Task, f: TaskFacts, now: Instant) -> bool {
    (spec_is_pending(t) && spec_is_overdue(f, now)) || spec_completed_late(f)
}

/// A day lies in a range; with a bound set, a missing day does not.
pub open spec fn spec_day_in_range(day: Option<i32>, from: Option<i32>, to: Option<i32>) -> bool {
    if from is None && to is None {
        true
    } else {
        match day {
            None => false,
            Some(d) => (from matches Some(a) ==> a <= d) && (to matches Some(b) ==> d <= b),
        }
    }
}

/// The day range of the search: with no bound every task passes (a missing day
/// too); once a bound is set, a task without a day never passes, a day before the
/// lower bound or after the upper bound never passes, and every day between the set
/// bounds does.
pub proof fn lemma_day_range(day: Option<i32>, from: Option<i32>, to: Option<i32>)
    ensures
        (from is None && to is None) ==> spec_day_in_range(day, from, to),
        (from is Some || to is Some) && day is None ==> !spec_day_in_range(day, from, to),
        (from matches Some(a) && day matches Some(d) && d < a) ==> !spec_day_in_range(day, from, to),
        (to matches Some(b) && day matches Some(d) && d > b) ==> !spec_day_in_range(day, from, to),
        (day matches Some(d) && (from matches Some(a) ==> a <= d) && (to matches Some(b) ==> d <= b))
            ==> spec_day_in_range(day, from, to),
{
}

/// The task passes every filter.
pub open spec fn spec_task_matches(t: Task, f: TaskFacts, q: TaskFilter, now: Instant) -> bool {
    &&& (q.keyword@.len() == 0 || spec_contains(f.title_lower@, q.keyword@) || spec_contains(
        f.description_lower@,
        q.keyword@,
    ))
    &&& (q.completed matches Some(c) ==> ((t.status == TaskStatus::Completed) == c))
    &&& (q.overdue matches Some(o) ==> (spec_overdue_record(t, f, now) == o))
    &&& (q.priority matches Some(p) ==> t.priority == p)
    &&& spec_day_in_range(f.due_day, q.due_from, q.due_to)
    &&& spec_day_in_range(f.completed_day, q.completed_from, q.completed_to)
}

pub fn is_pending(t: &Task) -> (r: bool)
    ensures
        r == spec_is_pending(*t),
{
    match t.status {
        TaskStatus::Todo | TaskStatus::InProgress => true,
        _ => false,
    }
}

pub fn is_overdue(f: &TaskFacts, now: Instant) -> (r: bool)
    ensures
        r == spec_is_overdue(*f, now),
{
    match f.due {
        Some(d) => instant_before(d, now),
        None => false,
    }
}

pub fn completed_late(f: &TaskFacts) -> (r: bool)
    ensures
        r == spec_completed_late(*f),
{
    match (f.due, f.completed) {
        (Some(d), Some(c)) => instant_before(d, c),
        _ => false,
    }
}

pub fn is_overdue_record(t: &Task, f: &TaskFacts, now: Instant) -> (r: bool)
    ensures
        r == spec_overdue_record(*t, *f, now),
{
    (is_pending(t) && is_overdue(f, now)) || completed_late(f)
}

pub fn stamp_in_range(day: Option<i32>, from: Option<i32>, to: Option<i32>) -> (r: bool)
    ensures
        r == spec_day_in_range(day, from, to),
{
    if from.is_none() && to.is_none() {
        return true;
    }
    match day {
        None => false,
        Some(d) => {
            let lo = match from {
                Some(a) => a <= d,
                None => true,
            };
            let hi = match to {
                Some(b) => d <= b,
                None => true,
            };
            lo && hi
        },
    }
}

pub fn task_matches(t: &Task, f: &TaskFacts, q: &TaskFilter, now: Instant) -> (r: bool)
    ensures
        r == spec_task_matches(*t, *f, *q, now),
{
    if !q.keyword.as_str().is_empty() && !crate::text::contains(f.title_lower.as_str(), q.keyword.as_str())
        && !crate::text::contains(f.description_lower.as_str(), q.keyword.as_str()) {
        return false;
    }
    if let Some(c) = q.completed {
        let done = match t.status {
            TaskStatus::Completed => true,
            _ => false,
        };
        if done != c {
            return false;
        }
    }
    if let Some(o) = q.overdue {
        if is_overdue_record(t, f, now) != o {
            return false;
        }
    }
    if let Some(p) = q.priority {
        if t.priority != p {
            return false;
        }
    }
    if !stamp_in_range(f.due_day, q.due_from, q.due_to) {
        return false;
    }
    if !stamp_in_range(f.completed_day, q.completed_from, q.completed_to) {
        return false;
    }
    true
}

/// Lexicographic order of char sequences (the order of `String`s: UTF-8 bytes
/// compare as their code points do).
pub open spec fn lex_lt(a: Seq<char>, b: Seq<char>) -> bool
    decreases a.len(),
{
    if a.len() == 0 {
        b.len() > 0
    } else if b.len() == 0 {
        false
    } else if a[0] < b[0] {
        true
    } else if a[0] > b[0] {
        false
    } else {
        lex_lt(a.drop_first(), b.drop_first())
    }
}

pub proof fn lemma_lex_irreflexive(a: Seq<char>)
    ensures
        !lex_lt(a, a),
    decreases a.len(),
{
    if a.len() > 0 {
        lemma_lex_irreflexive(a.drop_first());
    }
}

pub proof fn lemma_lex_transitive(a: Seq<char>, b: Seq<char>, c: Seq<char>)
    requires
        lex_lt(a, b),
        lex_lt(b, c),
    ensures
        lex_lt(a, c),
    decreases a.len(),
{
    if a.len() > 0 && b.len() > 0 && c.len() > 0 {
        if a[0] == b[0] && b[0] == c[0] {
            lemma_lex_transitive(a.drop_first(), b.drop_first(), c.drop_first());
        }
    }
}

pub proof fn lemma_lex_total(a: Seq<char>, b: Seq<char>)
    ensures
        a == b || lex_lt(a, b) || lex_lt(b, a),
    decreases a.len(),
{
    if a.len() > 0 && b.len() > 0 && a[0] == b[0] {
        lemma_lex_total(a.drop_first(), b.drop_first());
        if a.drop_first() == b.drop_first() {
            assert(a =~= seq![a[0]] + a.drop_first());
            assert(b =~= seq![b[0]] + b.drop_first());
        }
    } else if a.len() == 0 && b.len() == 0 {
        assert(a =~= b);
    }
}

/// `lex_lt` for char vectors.
pub fn lex_less(a: &Vec<char>, b: &Vec<char>) -> (r: bool)
    ensures
        r == lex_lt(a@, b@),
{
    let mut i: usize = 0;
    assert(a@.skip(0) =~= a@ && b@.skip(0) =~= b@);
    while i < a.len() && i < b.len()
        invariant
            i <= a.len(),
            i <= b.len(),
            lex_lt(a@, b@) == lex_lt(a@.skip(i as int), b@.skip(i as int)),
        decreases a.len() - i,
    {
        if a[i] < b[i] {
            return true;
        }
        if a[i] > b[i] {
            return false;
        }
        assert(a@.skip(i as int).drop_first() =~= a@.skip(i + 1));
        assert(b@.skip(i as int).drop_first() =~= b@.skip(i + 1));
        i += 1;
    }
    i < b.len()
}

/// Record order of the table: newer creation stamp first, then the manual order,
/// then the order in which the records were read.
pub open spec fn newest_first(tasks: Seq<Task>, i: int, j: int) -> bool {
    let a = tasks[i].created_at@;
    let b = tasks[j].created_at@;
    lex_lt(b, a) || (a == b && (tasks[i].sort_order < tasks[j].sort_order || (tasks[i].sort_order
        == tasks[j].sort_order && i < j)))
}

proof fn lemma_newest_first_order(tasks: Seq<Task>)
    ensures
        forall|i: int, j: int, k: int|
            newest_first(tasks, i, j) && newest_first(tasks, j, k) ==> newest_first(tasks, i, k),
        forall|i: int, j: int| i != j ==> newest_first(tasks, i, j) || newest_first(tasks, j, i),
        forall|i: int, j: int| newest_first(tasks, i, j) ==> !newest_first(tasks, j, i),
{
    assert forall|i: int, j: int, k: int|
        newest_first(tasks, i, j) && newest_first(tasks, j, k) implies newest_first(
        tasks,
        i,
        k,
    ) by {
        let a = tasks[i].created_at@;
        let b = tasks[j].created_at@;
        let c = tasks[k].created_at@;
        if lex_lt(c, b) && lex_lt(b, a) {
            lemma_lex_transitive(c, b, a);
        }
    }
    assert forall|i: int, j: int| i != j implies newest_first(tasks, i, j) || newest_first(
        tasks,
        j,
        i,
    ) by {
        lemma_lex_total(tasks[i].created_at@, tasks[j].created_at@);
    }
    assert forall|i: int, j: int| newest_first(tasks, i, j) implies !newest_first(tasks, j, i) by {
        let a = tasks[i].created_at@;
        let b = tasks[j].created_at@;
        lemma_lex_irreflexive(a);
        if lex_lt(b, a) && lex_lt(a, b) {
            lemma_lex_transitive(a, b, a);
        }
    }
}

/// The positions of the matching tasks, in record order: every position holds a
/// matching task, every matching task is there, and the positions run strictly in
/// `newest_first` order (which fixes the sequence).
pub open spec fn is_ordered_selection(
    tasks: Seq<Task>,
    facts: Seq<TaskFacts>,
    q: TaskFilter,
    now: Instant,
    r: Seq<usize>,
) -> bool {
    &&& forall|i: int| 0 <= i < r.len() ==> (r[i] as int) < tasks.len() && spec_task_matches(
        tasks[r[i] as int],
        facts[r[i] as int],
        q,
        now,
    )
    &&& forall|k: int|
        0 <= k < tasks.len() && spec_task_matches(tasks[k], facts[k], q, now) ==> #[trigger] r.contains(
            k as usize,
        )
    &&& forall|i: int, j: int|
        0 <= i < j < r.len() ==> newest_first(tasks, r[i] as int, r[j] as int)
}

/// Positions of the tasks that pass the filter, in record order.
pub fn select_and_order(tasks: &Vec<Task>, facts: &Vec<TaskFacts>, q: &TaskFilter, now: Instant) -> (r: Vec<usize>)
    requires
        tasks.len() == facts.len(),
    ensures
        is_ordered_selection(tasks@, facts@, *q, now, r@),
{
    proof {
        lemma_newest_first_order(tasks@);
    }
    let n = tasks.len();
    let mut created: Vec<Vec<char>> = Vec::new();
    let mut k: usize = 0;
    while k < n
        invariant
            n == tasks.len(),
            k <= n,
            created.len() == k,
            forall|i: int| 0 <= i < k ==> (#[trigger] created@[i])@ == tasks@[i].created_at@,
        decreases n - k,
    {
        created.push(crate::text::chars_of(tasks[k].created_at.as_str()));
        k += 1;
    }
    let mut r: Vec<usize> = Vec::new();
    let mut k: usize = 0;
    while k < n
        invariant
            n == tasks.len(),
            n == facts.len(),
            k <= n,
            created.len() == n,
            forall|i: int| 0 <= i < n ==> (#[trigger] created@[i])@ == tasks@[i].created_at@,
            forall|i: int, j: int, l: int|
                newest_first(tasks@, i, j) && newest_first(tasks@, j, l) ==> newest_first(
                    tasks@,
                    i,
                    l,
                ),
            forall|i: int, j: int|
                i != j ==> newest_first(tasks@, i, j) || newest_first(tasks@, j, i),
            forall|i: int, j: int| newest_first(tasks@, i, j) ==> !newest_first(tasks@, j, i),
            forall|i: int| 0 <= i < r.len() ==> (r@[i] as int) < k && spec_task_matches(
                tasks@[r@[i] as int],
                facts@[r@[i] as int],
                *q,
                now,
            ),
            forall|m: int|
                0 <= m < k && spec_task_matches(tasks@[m], facts@[m], *q, now) ==> #[trigger] r@.contains(
                    m as usize,
                ),
            forall|i: int, j: int|
                0 <= i < j < r.len() ==> newest_first(tasks@, r@[i] as int, r@[j] as int),
        decreases n - k,
    {
        if task_matches(&tasks[k], &facts[k], q, now) {
            // find the first entry that the new one goes before
            let mut p: usize = 0;
            while p < r.len()
                invariant
                    n == tasks.len(),
                    k < n,
                    created.len() == n,
                    forall|i: int| 0 <= i < n ==> (#[trigger] created@[i])@ == tasks@[i].created_at@,
                    p <= r.len(),
                    forall|i: int| 0 <= i < r.len() ==> (r@[i] as int) < k,
                    forall|i: int| 0 <= i < p ==> newest_first(tasks@, r@[i] as int, k as int),
                ensures
                    p <= r.len(),
                    forall|i: int| 0 <= i < p ==> newest_first(tasks@, r@[i] as int, k as int),
                    p < r.len() ==> newest_first(tasks@, k as int, r@[p as int] as int),
                decreases r.len() - p,
            {
                let j = r[p];
                let cj = &created[j];
                let ck = &created[k];
                let goes_before = lex_less(cj, ck) || (!lex_less(ck, cj) && (tasks[k].sort_order
                    < tasks[j].sort_order || (tasks[k].sort_order == tasks[j].sort_order && k < j)));
                proof {
                    lemma_lex_total(cj@, ck@);
                }
                if goes_before {
                    assert(newest_first(tasks@, k as int, j as int));
                    break;
                }
                assert(newest_first(tasks@, j as int, k as int));
                p += 1;
            }
            let ghost old_r = r@;
            r.insert(p, k);
            proof {
                assert(r@ == old_r.insert(p as int, k));
                assert forall|m: int|
                    0 <= m < k + 1 && spec_task_matches(
                        tasks@[m],
                        facts@[m],
                        *q,
                        now,
                    ) implies #[trigger] r@.contains(m as usize) by {
                    if m < k {
                        assert(old_r.contains(m as usize));
                        let w = choose|w: int| 0 <= w < old_r.len() && old_r[w] == m as usize;
                        if w < p {
                            assert(r@[w] == m as usize);
                        } else {
                            assert(r@[w + 1] == m as usize);
                        }
                    } else {
                        assert(r@[p as int] == k);
                    }
                }
                assert forall|i: int, j: int|
                    0 <= i < j < r.len() implies newest_first(tasks@, r@[i] as int, r@[j] as int) by {
                    let oi: int = if i < p { i } else { i - 1 };
                    let oj: int = if j < p { j } else { j - 1 };
                    if i == p {
                        assert(r@[i] == k);
                        assert(r@[j] == old_r[oj]);
                        if oj > p {
                            assert(newest_first(tasks@, old_r[p as int] as int, old_r[oj] as int));
                        }
                    } else if j == p {
                        assert(r@[i] == old_r[oi]);
                        assert(r@[j] == k);
                    } else {
                        assert(r@[i] == old_r[oi]);
                        assert(r@[j] == old_r[oj]);
                        assert(oi < oj);
                    }
                }
            }
        } else {
            proof {
                assert forall|m: int|
                    0 <= m < k + 1 && spec_task_matches(
                        tasks@[m],
                        facts@[m],
                        *q,
                        now,
                    ) implies #[trigger] r@.contains(m as usize) by {
                }
            }
        }
        k += 1;
    }
    r
}


pub open spec fn opt_text_view(o: Option<String>) -> Option<Seq<char>> {
    match o {
        Some(s) => Some(s@),
        None => None,
    }
}

/// The two tasks hold the same values.
pub open spec fn same_task(a: Task, b: Task) -> bool {
    &&& a.id == b.id
    &&& a.title@ == b.title@
    &&& a.description@ == b.description@
    &&& a.status == b.status
    &&& a.priority == b.priority
    &&& a.category_id == b.category_id
    &&& a.tags@ == b.tags@
    &&& a.created_at@ == b.created_at@
    &&& a.updated_at@ == b.updated_at@
    &&& opt_text_view(a.due_at) == opt_text_view(b.due_at)
    &&& opt_text_view(a.completed_at) == opt_text_view(b.completed_at)
    &&& a.estimated_minutes == b.estimated_minutes
    &&& a.reminder_enabled == b.reminder_enabled
    &&& opt_text_view(a.reminder_time) == opt_text_view(b.reminder_time)
    &&& opt_text_view(a.repeat_rule) == opt_text_view(b.repeat_rule)
    &&& a.sort_order == b.sort_order
}

pub fn copy_opt_string(o: &Option<String>) -> (r: Option<String>)
    ensures
        opt_text_view(r) == opt_text_view(*o),
{
    match o {
        Some(s) => Some(s.clone()),
        None => None,
    }
}

/// A copy of a task.
pub fn copy_task(t: &Task) -> (r: Task)
    ensures
        same_task(r, *t),
{
    Task {
        id: t.id,
        title: t.title.clone(),
        description: t.description.clone(),
        status: t.status,
        priority: t.priority,
        category_id: t.category_id,
        tags: t.tags.clone(),
        created_at: t.created_at.clone(),
        updated_at: t.updated_at.clone(),
        due_at: copy_opt_string(&t.due_at),
        completed_at: copy_opt_string(&t.completed_at),
        estimated_minutes: t.estimated_minutes,
        reminder_enabled: t.reminder_enabled,
        reminder_time: copy_opt_string(&t.reminder_time),
        repeat_rule: copy_opt_string(&t.repeat_rule),
        sort_order: t.sort_order,
    }
}

/// The tasks that pass the filter, in record order (newest created first, then the
/// manual order, then read order).
pub fn order_tasks(tasks: &Vec<Task>, facts: &Vec<TaskFacts>, q: &TaskFilter, now: Instant) -> (r: Vec<Task>)
    requires
        tasks.len() == facts.len(),
    ensures
        exists|sel: Seq<usize>|
            #![trigger is_ordered_selection(tasks@, facts@, *q, now, sel)]
            is_ordered_selection(tasks@, facts@, *q, now, sel) && sel.len() == r.len() && forall|i: int|
                0 <= i < r.len() ==> same_task(#[trigger] r@[i], tasks@[sel[i] as int]),
{
    let sel = select_and_order(tasks, facts, q, now);
    let mut out: Vec<Task> = Vec::new();
    let mut i: usize = 0;
    while i < sel.len()
        invariant
            is_ordered_selection(tasks@, facts@, *q, now, sel@),
            i <= sel.len(),
            out.len() == i,
            forall|m: int| 0 <= m < i ==> same_task(#[trigger] out@[m], tasks@[sel@[m] as int]),
        decreases sel.len() - i,
    {
        out.push(copy_task(&tasks[sel[i]]));
        i += 1;
    }
    out
}

/// The page number in force: at least 1.
pub open spec fn spec_page_number(page: i64) -> int {
    if page < 1 { 1 } else { page as int }
}

/// The page size in force: between 1 and 100.
pub open spec fn spec_page_size(size: i64) -> int {
    if size < 1 { 1 } else if size > 100 { 100 } else { size as int }
}

/// The items of a page: from `(page - 1) * size`, at most `size` of them.
pub open spec fn spec_page_items(items: Seq<Task>, page: i64, size: i64) -> Seq<Task> {
    let start = (spec_page_number(page) - 1) * spec_page_size(size);
    let lo = if start < items.len() { start } else { items.len() as int };
    let hi = if start + spec_page_size(size) < items.len() { start + spec_page_size(size) } else { items.len() as int };
    items.subrange(lo, hi)
}

/// The page's first item's position fits in an `i64` (beyond that the page
/// arithmetic overflows).
pub open spec fn page_fits(page: i64, size: i64) -> bool {
    (spec_page_number(page) - 1) * spec_page_size(size) <= i64::MAX
}

/// Whether a page request stays within the page arithmetic.
pub fn paging_fits(page: i64, size: i64) -> (r: bool)
    ensures
        r == page_fits(page, size),
{
    let p: i128 = if page < 1 { 1 } else { page as i128 };
    let s: i128 = if size < 1 { 1 } else if size > 100 { 100 } else { size as i128 };
    proof {
        assert((p - 1) * s <= 0x7fff_ffff_ffff_ffff * 100) by (nonlinear_arith)
            requires
                0 <= p - 1 <= 0x7fff_ffff_ffff_ffff,
                1 <= s <= 100,
        ;
    }
    (p - 1) * s <= i64::MAX as i128
}

/// One page of the records, with the total count and the page number and size used.
pub fn paginate(items: Vec<Task>, page: i64, page_size: i64) -> (r: TaskPage)
    requires
        page_fits(page, page_size),
    ensures
        r.total == items.len() as i64,
        r.page == spec_page_number(page),
        r.page_size == spec_page_size(page_size),
        r.items@ == spec_page_items(items@, page, page_size),
{
    let total = items.len() as i64;
    let n = items.len();
    let page_n: i64 = if page < 1 { 1 } else { page };
    let size: i64 = if page_size < 1 { 1 } else if page_size > 100 { 100 } else { page_size };
    assert((page_n - 1) * size <= i64::MAX);
    assert(0 <= (page_n - 1) * size) by (nonlinear_arith)
        requires page_n >= 1, size >= 1;
    let start: i64 = (page_n - 1) * size;
    let mut items = items;
    let ghost all = items@;
    let lo: usize = if (start as u64) < (n as u64) { start as usize } else { n };
    let mut tail = items.split_off(lo);
    let keep: usize = if (size as usize) < tail.len() { size as usize } else { tail.len() };
    tail.truncate(keep);
    assert(tail@ =~= spec_page_items(all, page, page_size));
    TaskPage { items: tail, total, page: page_n, page_size: size }
}

/// Every record shows on the page its position falls in, at its place within the page.
pub proof fn lemma_record_on_its_page(items: Seq<Task>, size: i64, i: int)
    requires
        1 <= size <= 100,
        0 <= i < items.len(),
        i / (size as int) + 1 <= i64::MAX,
    ensures
        ({
            let page = (i / (size as int) + 1) as i64;
            let off = i % (size as int);
            &&& 0 <= off < spec_page_items(items, page, size).len()
            &&& spec_page_items(items, page, size)[off] == items[i]
        }),
{
    let s = size as int;
    let page = (i / s + 1) as i64;
    assert(i == (i / s) * s + i % s) by (nonlinear_arith)
        requires s > 0;
    assert(0 <= i % s < s) by (nonlinear_arith)
        requires s > 0;
    assert(spec_page_number(page) == i / s + 1);
    assert((spec_page_number(page) - 1) * s == (i / s) * s);
}

pub open spec fn date_error(label: Seq<char>) -> Seq<char> {
    label + "格式应为 YYYY-MM-DD"@
}

/// A `YYYY-MM-DD` bound, or the error naming it.
pub open spec fn spec_parse_bound(v: Option<String>, label: Seq<char>) -> Result<Option<i32>, Seq<char>> {
    match v {
        None => Ok(None),
        Some(s) => match parse_day(s@) {
            Some(d) => Ok(Some(d)),
            None => Err(date_error(label)),
        },
    }
}

/// The priority filter: absent or empty means none; otherwise a stored priority name.
pub open spec fn spec_priority_filter(v: Option<String>) -> Result<Option<Priority>, Seq<char>> {
    match v {
        None => Ok(None),
        Some(s) => if s@.len() == 0 {
            Ok(None)
        } else {
            match Priority::spec_from_name(s@) {
                Some(p) => Ok(Some(p)),
                None => Err("未知的优先级: "@ + s@),
            }
        },
    }
}

/// The first problem with a query, in the order the fields are read.
pub open spec fn spec_query_error(q: TaskQuery) -> Option<Seq<char>> {
    if spec_parse_bound(q.due_from, "开始截止日期"@) is Err {
        Some(spec_parse_bound(q.due_from, "开始截止日期"@)->Err_0)
    } else if spec_parse_bound(q.due_to, "结束截止日期"@) is Err {
        Some(spec_parse_bound(q.due_to, "结束截止日期"@)->Err_0)
    } else if spec_parse_bound(q.completed_from, "开始完成日期"@) is Err {
        Some(spec_parse_bound(q.completed_from, "开始完成日期"@)->Err_0)
    } else if spec_parse_bound(q.completed_to, "结束完成日期"@) is Err {
        Some(spec_parse_bound(q.completed_to, "结束完成日期"@)->Err_0)
    } else if spec_priority_filter(q.priority) is Err {
        Some(spec_priority_filter(q.priority)->Err_0)
    } else {
        None
    }
}

/// The filter a valid query stands for.
pub open spec fn filter_of(q: TaskQuery, f: TaskFilter) -> bool {
    &&& f.keyword@ == spec_to_lowercase(spec_trim(q.keyword@))
    &&& f.completed == q.completed
    &&& f.overdue == q.overdue
    &&& spec_parse_bound(q.due_from, "开始截止日期"@) == Ok::<Option<i32>, Seq<char>>(f.due_from)
    &&& spec_parse_bound(q.due_to, "结束截止日期"@) == Ok::<Option<i32>, Seq<char>>(f.due_to)
    &&& spec_parse_bound(q.completed_from, "开始完成日期"@) == Ok::<Option<i32>, Seq<char>>(f.completed_from)
    &&& spec_parse_bound(q.completed_to, "结束完成日期"@) == Ok::<Option<i32>, Seq<char>>(f.completed_to)
    &&& spec_priority_filter(q.priority) == Ok::<Option<Priority>, Seq<char>>(f.priority)
}

fn parse_date(value: &Option<String>, label: &str) -> (r: Result<Option<i32>, String>)
    ensures
        match spec_parse_bound(*value, label@) {
            Ok(d) => r == Ok::<Option<i32>, String>(d),
            Err(e) => r matches Err(m) && m@ == e,
        },
{
    match value {
        None => Ok(None),
        Some(s) => match crate::time::parse_ymd(s.as_str(), crate::time::DAY_FORMAT) {
            Some(d) => Ok(Some(d)),
            None => Err(crate::text::concat(label, "格式应为 YYYY-MM-DD")),
        },
    }
}

/// A query made ready for matching, or the error its first bad field gives.
pub fn compile_filter(q: &TaskQuery) -> (r: Result<TaskFilter, String>)
    ensures
        match spec_query_error(*q) {
            None => r matches Ok(f) && filter_of(*q, f),
            Some(e) => r matches Err(m) && m@ == e,
        },
{
    let keyword = crate::text::to_lowercase(crate::text::trim(q.keyword.as_str()));
    let due_from = parse_date(&q.due_from, "开始截止日期")?;
    let due_to = parse_date(&q.due_to, "结束截止日期")?;
    let completed_from = parse_date(&q.completed_from, "开始完成日期")?;
    let completed_to = parse_date(&q.completed_to, "结束完成日期")?;
    let priority = match &q.priority {
        None => None,
        Some(s) => if s.as_str().is_empty() {
            None
        } else {
            Some(Priority::from_db(s.as_str())?)
        },
    };
    Ok(TaskFilter {
        keyword,
        completed: q.completed,
        overdue: q.overdue,
        due_from,
        due_to,
        completed_from,
        completed_to,
        priority,
    })
}

pub fn parse_opt_stamp(s: &Option<String>) -> (r: Option<Instant>)
    ensures
        r == opt_parse_rfc3339(*s),
{
    match s {
        Some(x) => crate::time::parse_rfc3339(x.as_str()),
        None => None,
    }
}

fn local_day_opt(s: &Option<String>) -> (r: Option<i32>)
    ensures
        r is Some <==> opt_parses(*s),
{
    match s {
        Some(x) => crate::time::local_day_of(x.as_str()),
        None => None,
    }
}

/// The facts of a task, read through std and chrono.
pub fn task_facts(t: &Task) -> (r: TaskFacts)
    ensures
        facts_of(*t, r),
{
    TaskFacts {
        title_lower: crate::text::to_lowercase(t.title.as_str()),
        description_lower: crate::text::to_lowercase(t.description.as_str()),
        due: parse_opt_stamp(&t.due_at),
        completed: parse_opt_stamp(&t.completed_at),
        due_day: local_day_opt(&t.due_at),
        completed_day: local_day_opt(&t.completed_at),
    }
}

} // verus!
