//! The records the app keeps: tasks, categories and focus sessions, with the
//! names under which their enumerations are stored.
use crate::text::str_eq;
use vstd::prelude::*;

verus! {

#[derive(Debug, Clone, Copy, PartialEq, Eq, Structural)]
pub enum TaskStatus {
    Todo,
    InProgress,
    Completed,
    Overdue,
    Cancelled,
}

impl TaskStatus {
    /// The stored name of the status.
    pub open spec fn spec_name(self) -> Seq<char> {
        match self {
            TaskStatus::Todo => "TODO"@,
            TaskStatus::InProgress => "IN_PROGRESS"@,
            TaskStatus::Completed => "COMPLETED"@,
            TaskStatus::Overdue => "OVERDUE"@,
            TaskStatus::Cancelled => "CANCELLED"@,
        }
    }

    /// The status stored under a name, if any.
    pub open spec fn spec_from_name(s: Seq<char>) -> Option<TaskStatus> {
        if s == "TODO"@ {
            Some(TaskStatus::Todo)
        } else if s == "IN_PROGRESS"@ {
            Some(TaskStatus::InProgress)
        } else if s == "COMPLETED"@ {
            Some(TaskStatus::Completed)
        } else if s == "OVERDUE"@ {
            Some(TaskStatus::Overdue)
        } else if s == "CANCELLED"@ {
            Some(TaskStatus::Cancelled)
        } else {
            None
        }
    }

    pub fn as_str(&self) -> (r: &'static str)
        ensures
            r@ == self.spec_name(),
    {
        match self {
            TaskStatus::Todo => "TODO",
            TaskStatus::InProgress => "IN_PROGRESS",
            TaskStatus::Completed => "COMPLETED",
            TaskStatus::Overdue => "OVERDUE",
            TaskStatus::Cancelled => "CANCELLED",
        }
    }

    pub fn from_db(value: &str) -> (r: Result<Self, String>)
        ensures
            match Self::spec_from_name(value@) {
                Some(x) => r == Ok::<Self, String>(x),
                None => r matches Err(e) && e@ == "未知的任务状态: "@ + value@,
            },
    {
        if str_eq(value, "TODO") {
            Ok(TaskStatus::Todo)
        } else if str_eq(value, "IN_PROGRESS") {
            Ok(TaskStatus::InProgress)
        } else if str_eq(value, "COMPLETED") {
            Ok(TaskStatus::Completed)
        } else if str_eq(value, "OVERDUE") {
            Ok(TaskStatus::Overdue)
        } else if str_eq(value, "CANCELLED") {
            Ok(TaskStatus::Cancelled)
        } else {
            Err(crate::text::concat("未知的任务状态: ", value))
        }
    }
}

/// Reading back the stored name of a status gives the status again.
pub proof fn lemma_task_status_roundtrip(x: TaskStatus)
    ensures
        TaskStatus::spec_from_name(x.spec_name()) == Some(x),
{
    reveal_strlit("TODO");
    assert("TODO"@[0] == 'T' && "TODO"@[1] == 'O' && "TODO"@.len() == 4);
    reveal_strlit("IN_PROGRESS");
    assert("IN_PROGRESS"@[0] == 'I' && "IN_PROGRESS"@[1] == 'N' && "IN_PROGRESS"@.len() == 11);
    reveal_strlit("COMPLETED");
    assert("COMPLETED"@[0] == 'C' && "COMPLETED"@[1] == 'O' && "COMPLETED"@.len() == 9);
    reveal_strlit("OVERDUE");
    assert("OVERDUE"@[0] == 'O' && "OVERDUE"@[1] == 'V' && "OVERDUE"@.len() == 7);
    reveal_strlit("CANCELLED");
    assert("CANCELLED"@[0] == 'C' && "CANCELLED"@[1] == 'A' && "CANCELLED"@.len() == 9);
}

/// A name that reads as a status is that status's stored name.
pub proof fn lemma_task_status_name_unique(s: Seq<char>)
    ensures
        TaskStatus::spec_from_name(s) matches Some(x) ==> x.spec_name() == s,
{
}

#[derive(Debug, Clone, Copy, PartialEq, Eq, Structural)]
pub enum Priority {
    Low,
    Medium,
    High,
    Urgent,
}

impl Priority {
    pub open spec fn spec_name(self) -> Seq<char> {
        match self {
            Priority::Low => "LOW"@,
            Priority::Medium => "MEDIUM"@,
            Priority::High => "HIGH"@,
            Priority::Urgent => "URGENT"@,
        }
    }

    pub open spec fn spec_from_name(s: Seq<char>) -> Option<Priority> {
        if s == "LOW"@ {
            Some(Priority::Low)
        } else if s == "MEDIUM"@ {
            Some(Priority::Medium)
        } else if s == "HIGH"@ {
            Some(Priority::High)
        } else if s == "URGENT"@ {
            Some(Priority::Urgent)
        } else {
            None
        }
    }

    pub fn as_str(&self) -> (r: &'static str)
        ensures
            r@ == self.spec_name(),
    {
        match self {
            Priority::Low => "LOW",
            Priority::Medium => "MEDIUM",
            Priority::High => "HIGH",
            Priority::Urgent => "URGENT",
        }
    }

    pub fn from_db(value: &str) -> (r: Result<Self, String>)
        ensures
            match Self::spec_from_name(value@) {
                Some(x) => r == Ok::<Self, String>(x),
                None => r matches Err(e) && e@ == "未知的优先级: "@ + value@,
            },
    {
        if str_eq(value, "LOW") {
            Ok(Priority::Low)
        } else if str_eq(value, "MEDIUM") {
            Ok(Priority::Medium)
        } else if str_eq(value, "HIGH") {
            Ok(Priority::High)
        } else if str_eq(value, "URGENT") {
            Ok(Priority::Urgent)
        } else {
            Err(crate::text::concat("未知的优先级: ", value))
        }
    }
}

/// Reading back the stored name of a priority gives the priority again.
pub proof fn lemma_priority_roundtrip(x: Priority)
    ensures
        Priority::spec_from_name(x.spec_name()) == Some(x),
{
    reveal_strlit("LOW");
    assert("LOW"@[0] == 'L' && "LOW"@[1] == 'O' && "LOW"@.len() == 3);
    reveal_strlit("MEDIUM");
    assert("MEDIUM"@[0] == 'M' && "MEDIUM"@[1] == 'E' && "MEDIUM"@.len() == 6);
    reveal_strlit("HIGH");
    assert("HIGH"@[0] == 'H' && "HIGH"@[1] == 'I' && "HIGH"@.len() == 4);
    reveal_strlit("URGENT");
    assert("URGENT"@[0] == 'U' && "URGENT"@[1] == 'R' && "URGENT"@.len() == 6);
}

#[derive(Debug, Clone)]
pub struct Task {
    pub id: i64,
    pub title: String,
    pub description: String,
    pub status: TaskStatus,
    pub priority: Priority,
    pub category_id: Option<i64>,
    pub tags: String,
    pub created_at: String,
    pub updated_at: String,
    pub due_at: Option<String>,
    pub completed_at: Option<String>,
    pub estimated_minutes: Option<i64>,
    pub reminder_enabled: bool,
    pub reminder_time: Option<String>,
    pub repeat_rule: Option<String>,
    pub sort_order: i64,
}

/// What a new task is created from.
#[derive(Debug)]
pub struct TaskInput {
    pub title: String,
    pub description: String,
    pub priority: Option<Priority>,
    pub category_id: Option<i64>,
    pub due_at: Option<String>,
    pub estimated_minutes: Option<i64>,
}

/// A search over the task records: keyword, the completed and overdue switches,
/// two date ranges (local `YYYY-MM-DD` days), a priority and a page.
#[derive(Debug)]
pub struct TaskQuery {
    pub keyword: String,
    pub completed: Option<bool>,
    pub overdue: Option<bool>,
    pub due_from: Option<String>,
    pub due_to: Option<String>,
    pub completed_from: Option<String>,
    pub completed_to: Option<String>,
    pub priority: Option<String>,
    pub page: i64,
    pub page_size: i64,
}

#[derive(Debug)]
pub struct TaskPage {
    pub items: Vec<Task>,
    pub total: i64,
    pub page: i64,
    pub page_size: i64,
}

/// The fields of a task to change; absent fields stay as they are.
#[derive(Debug)]
pub struct TaskUpdate {
    pub title: Option<String>,
    pub description: Option<String>,
    pub status: Option<TaskStatus>,
    pub priority: Option<Priority>,
    pub category_id: Option<i64>,
    pub due_at: Option<String>,
    pub completed_at: Option<String>,
    pub estimated_minutes: Option<i64>,
    pub reminder_enabled: Option<bool>,
    pub reminder_time: Option<String>,
    pub repeat_rule: Option<String>,
    pub sort_order: Option<i64>,
}

impl TaskUpdate {
    pub open spec fn is_empty_patch(self) -> bool {
        &&& self.title is None
        &&& self.description is None
        &&& self.status is None
        &&& self.priority is None
        &&& self.category_id is None
        &&& self.due_at is None
        &&& self.completed_at is None
        &&& self.estimated_minutes is None
        &&& self.reminder_enabled is None
        &&& self.reminder_time is None
        &&& self.repeat_rule is None
        &&& self.sort_order is None
    }
}

impl Default for TaskUpdate {
    fn default() -> (r: Self)
        ensures
            r.is_empty_patch(),
    {
        TaskUpdate {
            title: None,
            description: None,
            status: None,
            priority: None,
            category_id: None,
            due_at: None,
            completed_at: None,
            estimated_minutes: None,
            reminder_enabled: None,
            reminder_time: None,
            repeat_rule: None,
            sort_order: None,
        }
    }
}

#[derive(Debug, Clone)]
pub struct Category {
    pub id: i64,
    pub name: String,
    pub icon: String,
    pub is_default: bool,
    pub sort_order: i64,
}

/// State of a focus session: running, run to the end, or stopped early.
#[derive(Debug, Clone, Copy, PartialEq, Eq, Structural)]
pub enum FocusStatus {
    Running,
    Completed,
    Interrupted,
}

impl FocusStatus {
    pub open spec fn spec_name(self) -> Seq<char> {
        match self {
            FocusStatus::Running => "RUNNING"@,
            FocusStatus::Completed => "COMPLETED"@,
            FocusStatus::Interrupted => "INTERRUPTED"@,
        }
    }

    pub open spec fn spec_from_name(s: Seq<char>) -> Option<FocusStatus> {
        if s == "RUNNING"@ {
            Some(FocusStatus::Running)
        } else if s == "COMPLETED"@ {
            Some(FocusStatus::Completed)
        } else if s == "INTERRUPTED"@ {
            Some(FocusStatus::Interrupted)
        } else {
            None
        }
    }

    pub fn as_str(&self) -> (r: &'static str)
        ensures
            r@ == self.spec_name(),
    {
        match self {
            FocusStatus::Running => "RUNNING",
            FocusStatus::Completed => "COMPLETED",
            FocusStatus::Interrupted => "INTERRUPTED",
        }
    }

    pub fn from_db(value: &str) -> (r: Result<Self, String>)
        ensures
            match Self::spec_from_name(value@) {
                Some(x) => r == Ok::<Self, String>(x),
                None => r matches Err(e) && e@ == "未知的专注状态: "@ + value@,
            },
    {
        if str_eq(value, "RUNNING") {
            Ok(FocusStatus::Running)
        } else if str_eq(value, "COMPLETED") {
            Ok(FocusStatus::Completed)
        } else if str_eq(value, "INTERRUPTED") {
            Ok(FocusStatus::Interrupted)
        } else {
            Err(crate::text::concat("未知的专注状态: ", value))
        }
    }
}

/// Reading back the stored name of a focus status gives the status again.
pub proof fn lemma_focus_status_roundtrip(x: FocusStatus)
    ensures
        FocusStatus::spec_from_name(x.spec_name()) == Some(x),
{
    reveal_strlit("RUNNING");
    assert("RUNNING"@[0] == 'R' && "RUNNING"@[1] == 'U' && "RUNNING"@.len() == 7);
    reveal_strlit("COMPLETED");
    reveal_strlit("INTERRUPTED");
    assert("INTERRUPTED"@[0] == 'I' && "INTERRUPTED"@[1] == 'N' && "INTERRUPTED"@.len() == 11);
}

#[derive(Debug, Clone)]
pub struct FocusSession {
    pub id: i64,
    pub task_id: Option<i64>,
    pub started_at: String,
    pub ended_at: Option<String>,
    pub planned_minutes: i64,
    pub actual_seconds: i64,
    pub status: FocusStatus,
}

} // verus!
