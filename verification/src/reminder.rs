//! Due-time reminders: which tasks to remind of now ("due soon" or "just overdue"),
//! each (task, due time, kind) once.
use crate::database::models::{Task, TaskStatus};
use crate::database::task_query::opt_text_view;
use crate::text::spec_dec;
use crate::time::{Instant, instant_in_range, spec_parse_rfc3339, whole_seconds};
use vstd::prelude::*;

verus! {

pub const REMINDER_LEAD_KEY: &'static str = "reminderLeadMinutes";
/// A task just past its due time is still reminded of within this many seconds.
pub const OVERDUE_GRACE_SECONDS: i64 = 120;
/// At most this many given reminders are remembered.
pub const MAX_REMINDED_KEYS: usize = 500;

#[derive(Debug, Clone)]
pub struct PetReminder {
    pub task_id: i64,
    pub title: String,
    /// DUE_SOON or OVERDUE.
    pub kind: String,
    /// The lead time shown in the bubble, in whole minutes.
    pub lead_minutes: i64,
}

/// The kind of reminder a task is due for at `now`, if any: DUE_SOON when its due
/// time is 0 to `lead_seconds` whole seconds away, OVERDUE when it passed less than
/// two minutes ago. Completed and cancelled tasks, and tasks without a readable due
/// time, get none.
pub open spec fn spec_reminder_kind(t: Task, now: Instant, lead_seconds: i64) -> Option<Seq<char>> {
    if t.status == TaskStatus::Completed || t.status == TaskStatus::Cancelled {
        None
    } else {
        match t.due_at {
            None => None,
            Some(s) => match spec_parse_rfc3339(s@) {
                None => None,
                Some(due) => {
                    let secs = whole_seconds(due.total_nanos() - now.total_nanos());
                    if 0 <= secs <= lead_seconds {
                        Some("DUE_SOON"@)
                    } else if -OVERDUE_GRACE_SECONDS <= secs < 0 {
                        Some("OVERDUE"@)
                    } else {
                        None
                    }
                },
            },
        }
    }
}

/// The key a reminder is remembered under: `KIND:id:due`.
pub open spec fn spec_reminder_key(kind: Seq<char>, id: i64, due: Seq<char>) -> Seq<char> {
    kind + ":"@ + spec_dec(id as int) + ":"@ + due
}

pub open spec fn views(v: Seq<String>) -> Seq<Seq<char>> {
    Seq::new(v.len(), |i: int| v[i]@)
}

/// The task is reminded of now: it is due for a kind and that reminder was not given.
pub open spec fn spec_reminds(t: Task, now: Instant, reminded: Seq<Seq<char>>, lead_seconds: i64) -> bool {
    spec_reminder_kind(t, now, lead_seconds) matches Some(kind) && !reminded.contains(
        spec_reminder_key(kind, t.id, t.due_at->Some_0@),
    )
}

/// Positions of the tasks reminded of, in order.
pub open spec fn spec_reminded_positions(tasks: Seq<Task>, now: Instant, reminded: Seq<Seq<char>>, lead_seconds: i64) -> Seq<int> {
    Seq::new(tasks.len(), |i: int| i).filter(|i: int| 0 <= i < tasks.len() && spec_reminds(tasks[i], now, reminded, lead_seconds))
}

/// The key a reminder is remembered under.
pub fn reminder_key(kind: &str, id: i64, due: &str) -> (r: String)
    ensures
        r@ == spec_reminder_key(kind@, id, due@),
{
    let mut k = String::from_str(kind);
    k.append(":");
    k.append(crate::text::i64_to_string(id).as_str());
    k.append(":");
    k.append(due);
    k
}

/// The text is one of the given strings.
pub fn contains_string(set: &Vec<String>, s: &String) -> (r: bool)
    ensures
        r == views(set@).contains(s@),
{
    let mut i: usize = 0;
    while i < set.len()
        invariant
            i <= set.len(),
            forall|k: int| 0 <= k < i ==> set@[k]@ != s@,
        decreases set.len() - i,
    {
        if set[i] == *s {
            assert(views(set@)[i as int] == s@);
            return true;
        }
        i += 1;
    }
    assert(!views(set@).contains(s@)) by {
        if views(set@).contains(s@) {
            let k = choose|k: int| 0 <= k < views(set@).len() && views(set@)[k] == s@;
            assert(set@[k]@ == s@);
        }
    }
    false
}

fn reminder_kind(t: &Task, now: Instant, lead_seconds: i64) -> (r: Option<&'static str>)
    requires
        instant_in_range(now),
    ensures
        match r {
            Some(k) => spec_reminder_kind(*t, now, lead_seconds) == Some(k@),
            None => spec_reminder_kind(*t, now, lead_seconds) is None,
        },
{
    match t.status {
        TaskStatus::Completed | TaskStatus::Cancelled => return None,
        _ => {},
    }
    let due_str = match &t.due_at {
        Some(s) => s,
        None => return None,
    };
    let due = crate::time::parse_rfc3339(due_str.as_str())?;
    let secs = crate::time::seconds_between(due, now);
    if 0 <= secs && secs <= lead_seconds {
        Some("DUE_SOON")
    } else if -OVERDUE_GRACE_SECONDS <= secs && secs < 0 {
        Some("OVERDUE")
    } else {
        None
    }
}

/// The reminders to give now, in task order: each task due for a kind whose key is
/// not among those already given. `lead_seconds` is the due-soon window;
/// `lead_minutes` is the lead shown in each reminder.
pub fn collect_due_reminders(tasks: &Vec<Task>, now: Instant, reminded: &Vec<String>, lead_seconds: i64, lead_minutes: i64) -> (r: Vec<PetReminder>)
    requires
        instant_in_range(now),
    ensures
        r.len() == spec_reminded_positions(tasks@, now, views(reminded@), lead_seconds).len(),
        forall|i: int| 0 <= i < r.len() ==> {
            let t = tasks@[spec_reminded_positions(tasks@, now, views(reminded@), lead_seconds)[i]];
            &&& (#[trigger] r@[i]).task_id == t.id
            &&& r@[i].title@ == t.title@
            &&& Some(r@[i].kind@) == spec_reminder_kind(t, now, lead_seconds)
            &&& r@[i].lead_minutes == lead_minutes
        },
{
    let mut out: Vec<PetReminder> = Vec::new();
    let ghost all = Seq::new(tasks@.len(), |i: int| i);
    let ghost pred = |i: int| 0 <= i < tasks@.len() && spec_reminds(tasks@[i], now, views(reminded@), lead_seconds);
    let mut k: usize = 0;
    while k < tasks.len()
        invariant
            instant_in_range(now),
            k <= tasks.len(),
            all == Seq::new(tasks@.len(), |i: int| i),
            pred == (|i: int| 0 <= i < tasks@.len() && spec_reminds(tasks@[i], now, views(reminded@), lead_seconds)),
            out.len() == all.take(k as int).filter(pred).len(),
            forall|i: int| 0 <= i < out.len() ==> {
                let t = tasks@[all.take(k as int).filter(pred)[i]];
                &&& (#[trigger] out@[i]).task_id == t.id
                &&& out@[i].title@ == t.title@
                &&& Some(out@[i].kind@) == spec_reminder_kind(t, now, lead_seconds)
                &&& out@[i].lead_minutes == lead_minutes
            },
        decreases tasks.len() - k,
    {
        proof {
            assert(all.take(k + 1) =~= all.take(k as int).push(k as int));
            all.take(k as int).lemma_filter_push(k as int, pred);
        }
        let t = &tasks[k];
        if let Some(kind) = reminder_kind(t, now, lead_seconds) {
            let due = match &t.due_at {
                Some(s) => s.as_str(),
                None => "",
            };
            let key = reminder_key(kind, t.id, due);
            if !contains_string(reminded, &key) {
                out.push(PetReminder {
                    task_id: t.id,
                    title: t.title.clone(),
                    kind: String::from_str(kind),
                    lead_minutes,
                });
            }
        }
        k += 1;
    }
    proof {
        assert(all.take(tasks@.len() as int) =~= all);
    }
    out
}

/// Positions of the reminded tasks are in range and the tasks are reminded of.
pub proof fn lemma_reminded_positions(tasks: Seq<Task>, now: Instant, reminded: Seq<Seq<char>>, lead_seconds: i64)
    ensures
        forall|i: int| 0 <= i < spec_reminded_positions(tasks, now, reminded, lead_seconds).len() ==> {
            let p = #[trigger] spec_reminded_positions(tasks, now, reminded, lead_seconds)[i];
            0 <= p < tasks.len() && spec_reminds(tasks[p], now, reminded, lead_seconds)
        },
{
    let all = Seq::new(tasks.len(), |i: int| i);
    let pred = |i: int| 0 <= i < tasks.len() && spec_reminds(tasks[i], now, reminded, lead_seconds);
    assert forall|i: int| 0 <= i < spec_reminded_positions(tasks, now, reminded, lead_seconds).len() implies {
        let p = #[trigger] spec_reminded_positions(tasks, now, reminded, lead_seconds)[i];
        0 <= p < tasks.len() && spec_reminds(tasks[p], now, reminded, lead_seconds)
    } by {
        all.lemma_filter_pred(pred, i);
    }
}

/// No reminder is ever given for a completed or cancelled task, and none twice: the
/// reminded tasks are due for a kind whose key was not given yet.
pub proof fn lemma_no_reminder_for_finished_tasks(tasks: Seq<Task>, now: Instant, reminded: Seq<Seq<char>>, lead_seconds: i64, i: int)
    requires
        0 <= i < spec_reminded_positions(tasks, now, reminded, lead_seconds).len(),
    ensures
        ({
            let t = tasks[spec_reminded_positions(tasks, now, reminded, lead_seconds)[i]];
            &&& t.status != TaskStatus::Completed
            &&& t.status != TaskStatus::Cancelled
            &&& !reminded.contains(spec_reminder_key(spec_reminder_kind(t, now, lead_seconds)->Some_0, t.id, t.due_at->Some_0@))
        }),
{
    lemma_reminded_positions(tasks, now, reminded, lead_seconds);
    let p = spec_reminded_positions(tasks, now, reminded, lead_seconds)[i];
    assert(spec_reminds(tasks[p], now, reminded, lead_seconds));
}

/// The due time of the task with the given id ("" when it has none or no such task).
pub open spec fn spec_task_due_at(tasks: Seq<Task>, id: i64) -> Seq<char>
    decreases tasks.len(),
{
    if tasks.len() == 0 {
        Seq::empty()
    } else if tasks[0].id == id {
        match tasks[0].due_at {
            Some(s) => s@,
            None => Seq::empty(),
        }
    } else {
        spec_task_due_at(tasks.drop_first(), id)
    }
}

/// The due time of the first task with the given id, or "" when there is none.
pub fn task_due_at(tasks: &Vec<Task>, id: i64) -> (r: String)
    ensures
        r@ == spec_task_due_at(tasks@, id),
{
    let mut i: usize = 0;
    assert(tasks@.skip(0) =~= tasks@);
    while i < tasks.len()
        invariant
            i <= tasks.len(),
            spec_task_due_at(tasks@, id) == spec_task_due_at(tasks@.skip(i as int), id),
        decreases tasks.len() - i,
    {
        assert(tasks@.skip(i as int).drop_first() =~= tasks@.skip(i + 1));
        if tasks[i].id == id {
            return match &tasks[i].due_at {
                Some(s) => s.clone(),
                None => String::new(),
            };
        }
        i += 1;
    }
    String::new()
}


/// The remembered reminder keys cut down to the last `MAX_REMINDED_KEYS` of them.
pub fn keep_latest(keys: Vec<String>) -> (r: Vec<String>)
    ensures
        views(r@) == if keys.len() > MAX_REMINDED_KEYS {
            views(keys@).skip(keys.len() - MAX_REMINDED_KEYS)
        } else {
            views(keys@)
        },
{
    if keys.len() <= MAX_REMINDED_KEYS {
        return keys;
    }
    let start = keys.len() - MAX_REMINDED_KEYS;
    let mut out: Vec<String> = Vec::new();
    let mut i: usize = start;
    while i < keys.len()
        invariant
            start == keys.len() - MAX_REMINDED_KEYS,
            start <= i <= keys.len(),
            views(out@) == views(keys@).subrange(start as int, i as int),
        decreases keys.len() - i,
    {
        let ghost before = views(out@);
        let k = keys[i].clone();
        assert(k@ == keys@[i as int]@);
        out.push(k);
        assert(views(out@) =~= before.push(keys@[i as int]@));
        assert(views(out@) =~= views(keys@).subrange(start as int, i + 1));
        i += 1;
    }
    assert(views(keys@).subrange(start as int, keys.len() as int) =~= views(keys@).skip(start as int));
    out
}

} // verus!
