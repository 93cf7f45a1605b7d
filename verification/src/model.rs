//! Entity model: tasks, projects and tags, with the enumerations for status,
//! priority, kind and size and their canonical string forms.
//!
//! Calendar dates are day numbers and timestamps are unix milliseconds; the
//! bindings in [`crate::runtime`] convert at the edge.

use vstd::prelude::*;

use crate::runtime::{fresh_uuid, now_millis, today_day_number};
use crate::strutil::str_eq;

verus! {

/// Lifecycle state of a task.
#[derive(Debug, Clone, Copy, PartialEq, Eq, Structural)]
pub enum TaskStatus {
    Inbox,
    Active,
    Scheduled,
    Completed,
    Cancelled,
}

impl TaskStatus {
    /// The canonical name of each status, in spec form.
    pub open spec fn spec_str(self) -> Seq<char> {
        match self {
            TaskStatus::Inbox => "inbox"@,
            TaskStatus::Active => "active"@,
            TaskStatus::Scheduled => "scheduled"@,
            TaskStatus::Completed => "completed"@,
            TaskStatus::Cancelled => "cancelled"@,
        }
    }

    /// Which status a stored name denotes; unknown names fall back to Inbox.
    pub open spec fn spec_from(s: Seq<char>) -> TaskStatus {
        if s == "inbox"@ {
            TaskStatus::Inbox
        } else if s == "active"@ {
            TaskStatus::Active
        } else if s == "scheduled"@ {
            TaskStatus::Scheduled
        } else if s == "completed"@ {
            TaskStatus::Completed
        } else if s == "cancelled"@ {
            TaskStatus::Cancelled
        } else {
            TaskStatus::Inbox
        }
    }

    /// Canonical lower-case name, as stored in the persistence layer.
    pub fn as_str(&self) -> (r: &'static str)
        ensures
            r@ == self.spec_str(),
    {
        match self {
            TaskStatus::Inbox => "inbox",
            TaskStatus::Active => "active",
            TaskStatus::Scheduled => "scheduled",
            TaskStatus::Completed => "completed",
            TaskStatus::Cancelled => "cancelled",
        }
    }

    /// Parse a stored name back; unknown names fall back to Inbox.
    pub fn from_str(s: &str) -> (r: Self)
        ensures
            r == Self::spec_from(s@),
    {
        if str_eq(s, "inbox") {
            TaskStatus::Inbox
        } else if str_eq(s, "active") {
            TaskStatus::Active
        } else if str_eq(s, "scheduled") {
            TaskStatus::Scheduled
        } else if str_eq(s, "completed") {
            TaskStatus::Completed
        } else if str_eq(s, "cancelled") {
            TaskStatus::Cancelled
        } else {
            TaskStatus::Inbox
        }
    }
}

impl Default for TaskStatus {
    fn default() -> (r: Self)
        ensures
            r == TaskStatus::Inbox,
    {
        TaskStatus::Inbox
    }
}

/// Priority of a task, ordered from no priority up to high.
#[derive(Debug, Clone, Copy, PartialEq, Eq, Structural)]
pub enum TaskPriority {
    Unset,
    Low,
    Medium,
    High,
}

impl TaskPriority {
    /// The canonical name of each priority, in spec form.
    pub open spec fn spec_str(self) -> Seq<char> {
        match self {
            TaskPriority::Unset => "none"@,
            TaskPriority::Low => "low"@,
            TaskPriority::Medium => "medium"@,
            TaskPriority::High => "high"@,
        }
    }

    /// Which priority a stored name denotes; unknown names mean no priority.
    pub open spec fn spec_from(s: Seq<char>) -> TaskPriority {
        if s == "none"@ {
            TaskPriority::Unset
        } else if s == "low"@ {
            TaskPriority::Low
        } else if s == "medium"@ {
            TaskPriority::Medium
        } else if s == "high"@ {
            TaskPriority::High
        } else {
            TaskPriority::Unset
        }
    }

    /// Numeric rank of each priority: None < Low < Medium < High.
    pub open spec fn spec_rank(self) -> int {
        match self {
            TaskPriority::High => 3,
            TaskPriority::Medium => 2,
            TaskPriority::Low => 1,
            TaskPriority::Unset => 0,
        }
    }

    /// Canonical lower-case name, as stored in the persistence layer.
    pub fn as_str(&self) -> (r: &'static str)
        ensures
            r@ == self.spec_str(),
    {
        match self {
            TaskPriority::Unset => "none",
            TaskPriority::Low => "low",
            TaskPriority::Medium => "medium",
            TaskPriority::High => "high",
        }
    }

    /// Parse a stored name back; unknown names mean no priority.
    pub fn from_str(s: &str) -> (r: Self)
        ensures
            r == Self::spec_from(s@),
    {
        if str_eq(s, "none") {
            TaskPriority::Unset
        } else if str_eq(s, "low") {
            TaskPriority::Low
        } else if str_eq(s, "medium") {
            TaskPriority::Medium
        } else if str_eq(s, "high") {
            TaskPriority::High
        } else {
            TaskPriority::Unset
        }
    }

    /// Exclamation-mark indicator shown next to a task.
    pub fn symbol(&self) -> (r: &'static str)
        ensures
            r@ == match *self {
                TaskPriority::Unset => " "@,
                TaskPriority::Low => "!"@,
                TaskPriority::Medium => "!!"@,
                TaskPriority::High => "!!!"@,
            },
    {
        match self {
            TaskPriority::Unset => " ",
            TaskPriority::Low => "!",
            TaskPriority::Medium => "!!",
            TaskPriority::High => "!!!",
        }
    }
}

impl Default for TaskPriority {
    fn default() -> (r: Self)
        ensures
            r == TaskPriority::Unset,
    {
        TaskPriority::Unset
    }
}

/// Numeric rank used by the descending priority sort.
pub fn priority_value(priority: &TaskPriority) -> (r: u8)
    ensures
        r as int == priority.spec_rank(),
{
    match priority {
        TaskPriority::High => 3,
        TaskPriority::Medium => 2,
        TaskPriority::Low => 1,
        TaskPriority::Unset => 0,
    }
}

/// What a task is: a local kind, or the remote origin it was created from.
#[derive(Debug, Clone, Copy, PartialEq, Eq, Structural)]
pub enum TaskKind {
    Task,
    Bug,
    Feature,
    Chore,
    GhIssue,
    GhPr,
    GhReview,
}

impl TaskKind {
    /// The canonical name of each kind, in spec form.
    pub open spec fn spec_str(self) -> Seq<char> {
        match self {
            TaskKind::Task => "task"@,
            TaskKind::Bug => "bug"@,
            TaskKind::Feature => "feature"@,
            TaskKind::Chore => "chore"@,
            TaskKind::GhIssue => "gh:issue"@,
            TaskKind::GhPr => "gh:pr"@,
            TaskKind::GhReview => "gh:review"@,
        }
    }

    /// Which kind a stored name denotes, if any.
    pub open spec fn spec_from(s: Seq<char>) -> Option<TaskKind> {
        if s == "task"@ {
            Some(TaskKind::Task)
        } else if s == "bug"@ {
            Some(TaskKind::Bug)
        } else if s == "feature"@ {
            Some(TaskKind::Feature)
        } else if s == "chore"@ {
            Some(TaskKind::Chore)
        } else if s == "gh:issue"@ {
            Some(TaskKind::GhIssue)
        } else if s == "gh:pr"@ {
            Some(TaskKind::GhPr)
        } else if s == "gh:review"@ {
            Some(TaskKind::GhReview)
        } else {
            None
        }
    }

    /// Canonical lower-case name, as stored in the persistence layer.
    pub fn as_str(&self) -> (r: &'static str)
        ensures
            r@ == self.spec_str(),
    {
        match self {
            TaskKind::Task => "task",
            TaskKind::Bug => "bug",
            TaskKind::Feature => "feature",
            TaskKind::Chore => "chore",
            TaskKind::GhIssue => "gh:issue",
            TaskKind::GhPr => "gh:pr",
            TaskKind::GhReview => "gh:review",
        }
    }

    /// Parse a stored name back, if it names a kind.
    pub fn from_str(s: &str) -> (r: Option<Self>)
        ensures
            r == Self::spec_from(s@),
    {
        if str_eq(s, "task") {
            Some(TaskKind::Task)
        } else if str_eq(s, "bug") {
            Some(TaskKind::Bug)
        } else if str_eq(s, "feature") {
            Some(TaskKind::Feature)
        } else if str_eq(s, "chore") {
            Some(TaskKind::Chore)
        } else if str_eq(s, "gh:issue") {
            Some(TaskKind::GhIssue)
        } else if str_eq(s, "gh:pr") {
            Some(TaskKind::GhPr)
        } else if str_eq(s, "gh:review") {
            Some(TaskKind::GhReview)
        } else {
            None
        }
    }

    /// Bracketed tag shown next to a task.
    pub fn symbol(&self) -> (r: &'static str)
        ensures
            r@ == match *self {
                TaskKind::Task => "[T]"@,
                TaskKind::Bug => "[B]"@,
                TaskKind::Feature => "[F]"@,
                TaskKind::Chore => "[C]"@,
                TaskKind::GhIssue => "[ISS]"@,
                TaskKind::GhPr => "[PR]"@,
                TaskKind::GhReview => "[REV]"@,
            },
    {
        match self {
            TaskKind::Task => "[T]",
            TaskKind::Bug => "[B]",
            TaskKind::Feature => "[F]",
            TaskKind::Chore => "[C]",
            TaskKind::GhIssue => "[ISS]",
            TaskKind::GhPr => "[PR]",
            TaskKind::GhReview => "[REV]",
        }
    }
}

/// Effort size of a task.
#[derive(Debug, Clone, Copy, PartialEq, Eq, Structural)]
pub enum TaskSize {
    Xs,
    S,
    M,
    L,
}

impl TaskSize {
    /// The canonical name of each size, in spec form.
    pub open spec fn spec_str(self) -> Seq<char> {
        match self {
            TaskSize::Xs => "xs"@,
            TaskSize::S => "s"@,
            TaskSize::M => "m"@,
            TaskSize::L => "l"@,
        }
    }

    /// Which size a stored name denotes, if any.
    pub open spec fn spec_from(s: Seq<char>) -> Option<TaskSize> {
        if s == "xs"@ {
            Some(TaskSize::Xs)
        } else if s == "s"@ {
            Some(TaskSize::S)
        } else if s == "m"@ {
            Some(TaskSize::M)
        } else if s == "l"@ {
            Some(TaskSize::L)
        } else {
            None
        }
    }

    /// Canonical lower-case name, as stored in the persistence layer.
    pub fn as_str(&self) -> (r: &'static str)
        ensures
            r@ == self.spec_str(),
    {
        match self {
            TaskSize::Xs => "xs",
            TaskSize::S => "s",
            TaskSize::M => "m",
            TaskSize::L => "l",
        }
    }

    /// Parse a stored name back, if it names a size.
    pub fn from_str(s: &str) -> (r: Option<Self>)
        ensures
            r == Self::spec_from(s@),
    {
        if str_eq(s, "xs") {
            Some(TaskSize::Xs)
        } else if str_eq(s, "s") {
            Some(TaskSize::S)
        } else if str_eq(s, "m") {
            Some(TaskSize::M)
        } else if str_eq(s, "l") {
            Some(TaskSize::L)
        } else {
            None
        }
    }

    /// Upper-case display form.
    pub fn display(&self) -> (r: &'static str)
        ensures
            r@ == match *self {
                TaskSize::Xs => "XS"@,
                TaskSize::S => "S"@,
                TaskSize::M => "M"@,
                TaskSize::L => "L"@,
            },
    {
        match self {
            TaskSize::Xs => "XS",
            TaskSize::S => "S",
            TaskSize::M => "M",
            TaskSize::L => "L",
        }
    }
}


impl View for TaskStatus {
    type V = TaskStatus;

    open spec fn view(&self) -> TaskStatus {
        *self
    }
}

impl DeepView for TaskStatus {
    type V = TaskStatus;

    open spec fn deep_view(&self) -> TaskStatus {
        *self
    }
}

impl View for TaskPriority {
    type V = TaskPriority;

    open spec fn view(&self) -> TaskPriority {
        *self
    }
}

impl DeepView for TaskPriority {
    type V = TaskPriority;

    open spec fn deep_view(&self) -> TaskPriority {
        *self
    }
}

impl View for TaskKind {
    type V = TaskKind;

    open spec fn view(&self) -> TaskKind {
        *self
    }
}

impl DeepView for TaskKind {
    type V = TaskKind;

    open spec fn deep_view(&self) -> TaskKind {
        *self
    }
}

impl View for TaskSize {
    type V = TaskSize;

    open spec fn view(&self) -> TaskSize {
        *self
    }
}

impl DeepView for TaskSize {
    type V = TaskSize;

    open spec fn deep_view(&self) -> TaskSize {
        *self
    }
}

/// Mathematical value of an optional machine integer.
pub open spec fn opt_int(o: Option<i64>) -> Option<int> {
    match o {
        Some(v) => Some(v as int),
        None => None,
    }
}

/// Mathematical value of a task: every field as a plain spec value.
#[verifier::ext_equal]
pub ghost struct TaskV {
    pub id: Seq<char>,
    pub title: Seq<char>,
    pub notes: Option<Seq<char>>,
    pub created_at: int,
    pub updated_at: int,
    pub due_date: Option<int>,
    pub start_date: Option<int>,
    pub completed_at: Option<int>,
    pub project_id: Option<Seq<char>>,
    pub priority: TaskPriority,
    pub tags: Seq<Seq<char>>,
    pub status: TaskStatus,
    pub order_index: int,
    pub deleted: bool,
    pub kind: Option<TaskKind>,
    pub size: Option<TaskSize>,
    pub assignee: Option<Seq<char>>,
    pub context_url: Option<Seq<char>>,
    pub metadata: Seq<(Seq<char>, Seq<char>)>,
}

impl TaskV {
    /// The completion invariant: a task is Completed exactly when its
    /// completion timestamp is set.
    pub open spec fn completion_consistent(self) -> bool {
        (self.status == TaskStatus::Completed) <==> self.completed_at is Some
    }
}

/// A task row: the unit the classifier and the reconciliation engine work on.
pub struct Task {
    pub id: String,
    pub title: String,
    pub notes: Option<String>,
    pub created_at: i64,
    pub updated_at: i64,
    pub due_date: Option<i64>,
    pub start_date: Option<i64>,
    pub completed_at: Option<i64>,
    pub project_id: Option<String>,
    pub priority: TaskPriority,
    pub tags: Vec<String>,
    pub status: TaskStatus,
    pub order_index: i64,
    pub deleted: bool,
    pub kind: Option<TaskKind>,
    pub size: Option<TaskSize>,
    pub assignee: Option<String>,
    pub context_url: Option<String>,
    pub metadata: Vec<(String, String)>,
}

impl View for Task {
    type V = TaskV;

    open spec fn view(&self) -> TaskV {
        TaskV {
            id: self.id@,
            title: self.title@,
            notes: self.notes.deep_view(),
            created_at: self.created_at as int,
            updated_at: self.updated_at as int,
            due_date: opt_int(self.due_date),
            start_date: opt_int(self.start_date),
            completed_at: opt_int(self.completed_at),
            project_id: self.project_id.deep_view(),
            priority: self.priority,
            tags: self.tags.deep_view(),
            status: self.status,
            order_index: self.order_index as int,
            deleted: self.deleted,
            kind: self.kind,
            size: self.size,
            assignee: self.assignee.deep_view(),
            context_url: self.context_url.deep_view(),
            metadata: self.metadata.deep_view(),
        }
    }
}

impl DeepView for Task {
    type V = TaskV;

    open spec fn deep_view(&self) -> TaskV {
        self.view()
    }
}

/// Clone a metadata list pair by pair.
fn clone_metadata(m: &Vec<(String, String)>) -> (r: Vec<(String, String)>)
    ensures
        r.deep_view() == m.deep_view(),
{
    let mut r: Vec<(String, String)> = Vec::new();
    let mut i: usize = 0;
    while i < m.len()
        invariant
            0 <= i <= m.len(),
            r.deep_view() == m.deep_view().take(i as int),
        decreases m.len() - i,
    {
        let ghost prev = r.deep_view();
        r.push((m[i].0.clone(), m[i].1.clone()));
        proof {
            assert(r.deep_view() =~~= prev.push((m@[i as int].0@, m@[i as int].1@)));
            assert(r.deep_view() =~~= m.deep_view().take(i + 1));
        }
        i += 1;
    }
    proof {
        assert(m.deep_view().take(m@.len() as int) =~~= m.deep_view());
    }
    r
}

impl Clone for Task {
    fn clone(&self) -> (r: Self)
        ensures
            r@ == self@,
    {
        let r = Task {
            id: self.id.clone(),
            title: self.title.clone(),
            notes: self.notes.clone(),
            created_at: self.created_at,
            updated_at: self.updated_at,
            due_date: self.due_date,
            start_date: self.start_date,
            completed_at: self.completed_at,
            project_id: self.project_id.clone(),
            priority: self.priority,
            tags: self.tags.clone(),
            status: self.status,
            order_index: self.order_index,
            deleted: self.deleted,
            kind: self.kind,
            size: self.size,
            assignee: self.assignee.clone(),
            context_url: self.context_url.clone(),
            metadata: clone_metadata(&self.metadata),
        };
        proof {
            assert(r.tags.deep_view() =~= self.tags.deep_view());
            assert(r.metadata.deep_view() =~= self.metadata.deep_view());
            assert(r@ =~= self@);
        }
        r
    }
}

impl Task {
    /// A fresh task: new identifier, both timestamps equal, Inbox status,
    /// nothing else set.
    pub fn new(title: String) -> (r: Task)
        ensures
            r@.title == title@,
            r@.notes is None,
            r@.created_at == r@.updated_at,
            r@.due_date is None,
            r@.start_date is None,
            r@.completed_at is None,
            r@.project_id is None,
            r@.priority == TaskPriority::Unset,
            r@.tags == Seq::<Seq<char>>::empty(),
            r@.status == TaskStatus::Inbox,
            r@.order_index == 0,
            !r@.deleted,
            r@.kind is None,
            r@.size is None,
            r@.assignee is None,
            r@.context_url is None,
            r@.metadata == Seq::<(Seq<char>, Seq<char>)>::empty(),
            r@.completion_consistent(),
    {
        let now = now_millis();
        let tags: Vec<String> = Vec::new();
        let metadata: Vec<(String, String)> = Vec::new();
        proof {
            assert(tags.deep_view() =~= Seq::<Seq<char>>::empty());
            assert(metadata.deep_view() =~= Seq::<(Seq<char>, Seq<char>)>::empty());
        }
        Task {
            id: fresh_uuid(),
            title,
            notes: None,
            created_at: now,
            updated_at: now,
            due_date: None,
            start_date: None,
            completed_at: None,
            project_id: None,
            priority: TaskPriority::Unset,
            tags,
            status: TaskStatus::Inbox,
            order_index: 0,
            deleted: false,
            kind: None,
            size: None,
            assignee: None,
            context_url: None,
            metadata,
        }
    }

    /// Whether the task is completed.
    pub fn is_completed(&self) -> (r: bool)
        ensures
            r == (self@.status == TaskStatus::Completed),
    {
        self.status == TaskStatus::Completed
    }

    /// Whether the task is overdue on the given day: it has a due date
    /// strictly before that day and is not completed.
    pub fn is_overdue_on(&self, today: i64) -> (r: bool)
        ensures
            r == (match self@.due_date {
                Some(due) => due < today && self@.status != TaskStatus::Completed,
                None => false,
            }),
    {
        match self.due_date {
            Some(due) => due < today && !self.is_completed(),
            None => false,
        }
    }

    /// Whether the task is due exactly on the given day.
    pub fn is_due_on(&self, today: i64) -> (r: bool)
        ensures
            r == (self@.due_date == Some(today as int)),
    {
        match self.due_date {
            Some(due) => due == today,
            None => false,
        }
    }

    /// Whether the task is overdue now; reads the clock, so only what holds
    /// of every day can be promised.
    pub fn is_overdue(&self) -> (r: bool)
        ensures
            self@.due_date is None ==> !r,
            r ==> self@.status != TaskStatus::Completed,
    {
        let today = today_day_number();
        self.is_overdue_on(today)
    }

    /// Whether the task is due today; reads the clock, so only what holds
    /// of every day can be promised.
    pub fn is_due_today(&self) -> (r: bool)
        ensures
            self@.due_date is None ==> !r,
    {
        let today = today_day_number();
        self.is_due_on(today)
    }

    /// Move the task to a status at the given time: the completion stamp is
    /// set exactly on entering Completed and cleared on leaving it, and the
    /// update stamp is always bumped.
    pub fn set_status(&mut self, status: TaskStatus, now: i64)
        ensures
            final(self)@ == (TaskV {
                status,
                updated_at: now as int,
                completed_at: if status == TaskStatus::Completed {
                    Some(now as int)
                } else {
                    None
                },
                ..old(self)@
            }),
            final(self)@.completion_consistent(),
    {
        self.status = status;
        self.updated_at = now;
        if status == TaskStatus::Completed {
            self.completed_at = Some(now);
        } else {
            self.completed_at = None;
        }
        proof {
            assert(final(self)@ =~= (TaskV {
                status,
                updated_at: now as int,
                completed_at: if status == TaskStatus::Completed {
                    Some(now as int)
                } else {
                    None
                },
                ..old(self)@
            }));
        }
    }

    /// Toggle completion: a completed task goes back to Inbox, any other
    /// task becomes Completed, stamped at the given time.
    pub fn toggle_completed(&mut self, now: i64)
        ensures
            old(self)@.status == TaskStatus::Completed ==> final(self)@ == (TaskV {
                status: TaskStatus::Inbox,
                updated_at: now as int,
                completed_at: None,
                ..old(self)@
            }),
            old(self)@.status != TaskStatus::Completed ==> final(self)@ == (TaskV {
                status: TaskStatus::Completed,
                updated_at: now as int,
                completed_at: Some(now as int),
                ..old(self)@
            }),
            final(self)@.completion_consistent(),
    {
        if self.status == TaskStatus::Completed {
            self.set_status(TaskStatus::Inbox, now);
        } else {
            self.set_status(TaskStatus::Completed, now);
        }
    }
}

impl Default for Task {
    fn default() -> (r: Self)
        ensures
            r@.title == Seq::<char>::empty(),
            r@.status == TaskStatus::Inbox,
            r@.completion_consistent(),
    {
        let r = Task::new(String::new());
        r
    }
}

/// Mathematical value of a project.
#[verifier::ext_equal]
pub ghost struct ProjectV {
    pub id: Seq<char>,
    pub name: Seq<char>,
    pub description: Option<Seq<char>>,
    pub color: Option<Seq<char>>,
    pub icon: Option<Seq<char>>,
    pub order_index: int,
    pub is_inbox: bool,
    pub created_at: int,
    pub updated_at: int,
    pub deleted: bool,
}

/// A project row; the reconciliation engine maps remote containers onto
/// projects by display name.
pub struct Project {
    pub id: String,
    pub name: String,
    pub description: Option<String>,
    pub color: Option<String>,
    pub icon: Option<String>,
    pub order_index: i64,
    pub is_inbox: bool,
    pub created_at: i64,
    pub updated_at: i64,
    pub deleted: bool,
}

impl View for Project {
    type V = ProjectV;

    open spec fn view(&self) -> ProjectV {
        ProjectV {
            id: self.id@,
            name: self.name@,
            description: self.description.deep_view(),
            color: self.color.deep_view(),
            icon: self.icon.deep_view(),
            order_index: self.order_index as int,
            is_inbox: self.is_inbox,
            created_at: self.created_at as int,
            updated_at: self.updated_at as int,
            deleted: self.deleted,
        }
    }
}

impl DeepView for Project {
    type V = ProjectV;

    open spec fn deep_view(&self) -> ProjectV {
        self.view()
    }
}

impl Clone for Project {
    fn clone(&self) -> (r: Self)
        ensures
            r@ == self@,
    {
        let r = Project {
            id: self.id.clone(),
            name: self.name.clone(),
            description: self.description.clone(),
            color: self.color.clone(),
            icon: self.icon.clone(),
            order_index: self.order_index,
            is_inbox: self.is_inbox,
            created_at: self.created_at,
            updated_at: self.updated_at,
            deleted: self.deleted,
        };
        proof {
            assert(r@ =~= self@);
        }
        r
    }
}

impl Project {
    /// A fresh project: new identifier, both timestamps equal, nothing else
    /// set.
    pub fn new(name: String) -> (r: Project)
        ensures
            r@.name == name@,
            r@.description is None,
            r@.color is None,
            r@.icon is None,
            r@.order_index == 0,
            !r@.is_inbox,
            r@.created_at == r@.updated_at,
            !r@.deleted,
    {
        let now = now_millis();
        Project {
            id: fresh_uuid(),
            name,
            description: None,
            color: None,
            icon: None,
            order_index: 0,
            is_inbox: false,
            created_at: now,
            updated_at: now,
            deleted: false,
        }
    }

    /// The display icon, or the default folder icon when none is set.
    pub fn display_icon(&self) -> (r: &str)
        ensures
            r@ == match self@.icon {
                Some(icon) => icon,
                None => "📁"@,
            },
    {
        match &self.icon {
            Some(icon) => icon.as_str(),
            None => "📁",
        }
    }
}

impl Default for Project {
    fn default() -> (r: Self)
        ensures
            r@.name == Seq::<char>::empty(),
            !r@.deleted,
    {
        Project::new(String::new())
    }
}

/// Mathematical value of a tag.
#[verifier::ext_equal]
pub ghost struct TagV {
    pub id: Seq<char>,
    pub name: Seq<char>,
    pub color: Option<Seq<char>>,
    pub created_at: int,
    pub updated_at: int,
    pub deleted: bool,
}

/// A tag row; tasks reference tags by id and tags survive task deletion.
pub struct Tag {
    pub id: String,
    pub name: String,
    pub color: Option<String>,
    pub created_at: i64,
    pub updated_at: i64,
    pub deleted: bool,
}

impl View for Tag {
    type V = TagV;

    open spec fn view(&self) -> TagV {
        TagV {
            id: self.id@,
            name: self.name@,
            color: self.color.deep_view(),
            created_at: self.created_at as int,
            updated_at: self.updated_at as int,
            deleted: self.deleted,
        }
    }
}

impl DeepView for Tag {
    type V = TagV;

    open spec fn deep_view(&self) -> TagV {
        self.view()
    }
}

impl Clone for Tag {
    fn clone(&self) -> (r: Self)
        ensures
            r@ == self@,
    {
        let r = Tag {
            id: self.id.clone(),
            name: self.name.clone(),
            color: self.color.clone(),
            created_at: self.created_at,
            updated_at: self.updated_at,
            deleted: self.deleted,
        };
        proof {
            assert(r@ =~= self@);
        }
        r
    }
}

impl Tag {
    /// A fresh tag: new identifier, both timestamps equal, no color.
    pub fn new(name: String) -> (r: Tag)
        ensures
            r@.name == name@,
            r@.color is None,
            r@.created_at == r@.updated_at,
            !r@.deleted,
    {
        let now = now_millis();
        Tag {
            id: fresh_uuid(),
            name,
            color: None,
            created_at: now,
            updated_at: now,
            deleted: false,
        }
    }

    /// The display symbol shown before a tag name.
    pub fn display_symbol(&self) -> (r: &str)
        ensures
            r@ == "#"@,
    {
        "#"
    }
}

impl Default for Tag {
    fn default() -> (r: Self)
        ensures
            r@.name == Seq::<char>::empty(),
            !r@.deleted,
    {
        Tag::new(String::new())
    }
}

} // verus!
