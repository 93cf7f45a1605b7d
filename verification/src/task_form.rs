//! Task form state: the fields of the new/edit dialog, field navigation,
//! and the value cycling for the enumerated fields.

use vstd::prelude::*;

use crate::model::{Project, Task, TaskKind, TaskPriority, TaskSize, TaskStatus};
use crate::runtime::{day_iso_of, format_day_number, iso_date_days_of, parse_iso_date};
use crate::strutil::str_eq;

verus! {

/// The fields of the task form, in tab order.
#[derive(Debug, Clone, Copy, PartialEq, Eq, Structural)]
pub enum TaskFormField {
    Title,
    Notes,
    DueDate,
    Project,
    Priority,
    Status,
    Kind,
    Size,
}

impl TaskFormField {
    /// The fixed tab order of the fields.
    pub open spec fn spec_all() -> Seq<TaskFormField> {
        seq![
            TaskFormField::Title,
            TaskFormField::Notes,
            TaskFormField::DueDate,
            TaskFormField::Project,
            TaskFormField::Priority,
            TaskFormField::Status,
            TaskFormField::Kind,
            TaskFormField::Size,
        ]
    }

    /// All fields in tab order.
    pub fn all() -> (r: Vec<TaskFormField>)
        ensures
            r@ == Self::spec_all(),
    {
        let mut r: Vec<TaskFormField> = Vec::new();
        r.push(TaskFormField::Title);
        r.push(TaskFormField::Notes);
        r.push(TaskFormField::DueDate);
        r.push(TaskFormField::Project);
        r.push(TaskFormField::Priority);
        r.push(TaskFormField::Status);
        r.push(TaskFormField::Kind);
        r.push(TaskFormField::Size);
        proof {
            assert(r@ =~= Self::spec_all());
        }
        r
    }

    /// Display label of a field.
    pub fn label(&self) -> (r: &'static str)
        ensures
            r@ == match *self {
                TaskFormField::Title => "Title"@,
                TaskFormField::Notes => "Notes"@,
                TaskFormField::DueDate => "Due Date"@,
                TaskFormField::Project => "Project"@,
                TaskFormField::Priority => "Priority"@,
                TaskFormField::Status => "Status"@,
                TaskFormField::Kind => "Kind"@,
                TaskFormField::Size => "Size"@,
            },
    {
        match self {
            TaskFormField::Title => "Title",
            TaskFormField::Notes => "Notes",
            TaskFormField::DueDate => "Due Date",
            TaskFormField::Project => "Project",
            TaskFormField::Priority => "Priority",
            TaskFormField::Status => "Status",
            TaskFormField::Kind => "Kind",
            TaskFormField::Size => "Size",
        }
    }

    /// The field after this one, in spec form.
    pub open spec fn spec_next(self) -> TaskFormField {
        match self {
            TaskFormField::Title => TaskFormField::Notes,
            TaskFormField::Notes => TaskFormField::DueDate,
            TaskFormField::DueDate => TaskFormField::Project,
            TaskFormField::Project => TaskFormField::Priority,
            TaskFormField::Priority => TaskFormField::Status,
            TaskFormField::Status => TaskFormField::Kind,
            TaskFormField::Kind => TaskFormField::Size,
            TaskFormField::Size => TaskFormField::Title,
        }
    }

    /// The field after this one, wrapping round.
    pub fn next(self) -> (r: TaskFormField)
        ensures
            r == self.spec_next(),
            r == match self {
                TaskFormField::Title => TaskFormField::Notes,
                TaskFormField::Notes => TaskFormField::DueDate,
                TaskFormField::DueDate => TaskFormField::Project,
                TaskFormField::Project => TaskFormField::Priority,
                TaskFormField::Priority => TaskFormField::Status,
                TaskFormField::Status => TaskFormField::Kind,
                TaskFormField::Kind => TaskFormField::Size,
                TaskFormField::Size => TaskFormField::Title,
            },
    {
        match self {
            TaskFormField::Title => TaskFormField::Notes,
            TaskFormField::Notes => TaskFormField::DueDate,
            TaskFormField::DueDate => TaskFormField::Project,
            TaskFormField::Project => TaskFormField::Priority,
            TaskFormField::Priority => TaskFormField::Status,
            TaskFormField::Status => TaskFormField::Kind,
            TaskFormField::Kind => TaskFormField::Size,
            TaskFormField::Size => TaskFormField::Title,
        }
    }

    /// The field before this one, wrapping round.
    pub fn prev(self) -> (r: TaskFormField)
        ensures
            r.spec_next() == self,
    {
        match self {
            TaskFormField::Title => TaskFormField::Size,
            TaskFormField::Notes => TaskFormField::Title,
            TaskFormField::DueDate => TaskFormField::Notes,
            TaskFormField::Project => TaskFormField::DueDate,
            TaskFormField::Priority => TaskFormField::Project,
            TaskFormField::Status => TaskFormField::Priority,
            TaskFormField::Kind => TaskFormField::Status,
            TaskFormField::Size => TaskFormField::Kind,
        }
    }
}

/// The state of the new/edit task dialog.
pub struct TaskFormState {
    pub task: Task,
    pub is_new: bool,
    pub current_field: TaskFormField,
    pub title_input: String,
    pub notes_input: String,
    pub due_date_input: String,
    pub available_projects: Vec<Project>,
    pub selected_project_index: Option<usize>,
}

impl TaskFormState {
    /// The project index, when set, points into the available projects.
    pub open spec fn wf(self) -> bool {
        match self.selected_project_index {
            Some(i) => i < self.available_projects.len(),
            None => true,
        }
    }

    /// A form for a fresh task.
    pub fn new_task(projects: Vec<Project>) -> (r: TaskFormState)
        ensures
            r.is_new,
            r.current_field == TaskFormField::Title,
            r.title_input@ == Seq::<char>::empty(),
            r.notes_input@ == Seq::<char>::empty(),
            r.due_date_input@ == Seq::<char>::empty(),
            r.available_projects.deep_view() == projects.deep_view(),
            r.selected_project_index is None,
            r.task@.status == TaskStatus::Inbox,
            r.wf(),
    {
        TaskFormState {
            task: Task::new(String::new()),
            is_new: true,
            current_field: TaskFormField::Title,
            title_input: String::new(),
            notes_input: String::new(),
            due_date_input: String::new(),
            available_projects: projects,
            selected_project_index: None,
        }
    }

    /// A form pre-filled from an existing task; the project index points at
    /// the task's project when it is among the available ones.
    pub fn edit_task(task: Task, projects: Vec<Project>) -> (r: TaskFormState)
        ensures
            !r.is_new,
            r.current_field == TaskFormField::Title,
            r.title_input@ == task@.title,
            r.notes_input@ == match task@.notes {
                Some(n) => n,
                None => Seq::<char>::empty(),
            },
            r.task@ == task@,
            r.available_projects.deep_view() == projects.deep_view(),
            r.due_date_input@ == match task@.due_date {
                Some(d) => match day_iso_of(d as i64) {
                    Some(s) => s,
                    None => Seq::<char>::empty(),
                },
                None => Seq::<char>::empty(),
            },
            r.wf(),
    {
        let title_input = task.title.clone();
        let notes_input = match &task.notes {
            Some(n) => n.clone(),
            None => String::new(),
        };
        let due_date_input = match task.due_date {
            Some(d) => match format_day_number(d) {
                Some(s) => s,
                None => String::new(),
            },
            None => String::new(),
        };
        let selected_project_index = match &task.project_id {
            Some(pid) => find_project_index(&projects, pid.as_str()),
            None => None,
        };
        TaskFormState {
            task,
            is_new: false,
            current_field: TaskFormField::Title,
            title_input,
            notes_input,
            due_date_input,
            available_projects: projects,
            selected_project_index,
        }
    }

    /// Step to the next project, off the end meaning "no project", and
    /// mirror the choice on the task.
    pub fn cycle_project(&mut self)
        requires
            old(self).wf(),
        ensures
            final(self).wf(),
            old(self).available_projects.len() == 0 ==> final(self).selected_project_index == old(
                self,
            ).selected_project_index && final(self).task@ == old(self).task@,
            old(self).available_projects.len() > 0 ==> final(self).selected_project_index == (
            match old(self).selected_project_index {
                None => Some(0usize),
                Some(i) => if i + 1 < old(self).available_projects.len() {
                    Some((i + 1) as usize)
                } else {
                    None::<usize>
                },
            }),
            old(self).available_projects.len() > 0 ==> final(self).task@.project_id == (
            match final(self).selected_project_index {
                Some(i) => Some(old(self).available_projects.deep_view()[i as int].id),
                None => None::<Seq<char>>,
            }),
            final(self).available_projects.deep_view() == old(self).available_projects.deep_view(),
    {
        if self.available_projects.len() == 0 {
            return;
        }
        let next = match self.selected_project_index {
            None => Some(0usize),
            Some(i) => if i + 1 < self.available_projects.len() {
                Some(i + 1)
            } else {
                None
            },
        };
        self.selected_project_index = next;
        match self.selected_project_index {
            Some(i) => {
                self.task.project_id = Some(self.available_projects[i].id.clone());
            },
            None => {
                self.task.project_id = None;
            },
        }
    }

    /// The name of the chosen project, or "none".
    pub fn selected_project_name(&self) -> (r: &str)
        requires
            self.wf(),
        ensures
            r@ == match self.selected_project_index {
                Some(i) => self.available_projects.deep_view()[i as int].name,
                None => "none"@,
            },
    {
        match self.selected_project_index {
            Some(i) => self.available_projects[i].name.as_str(),
            None => "none",
        }
    }

    /// Move to the next form field.
    pub fn next_field(&mut self)
        ensures
            final(self).current_field == old(self).current_field.spec_next(),
            final(self).task@ == old(self).task@,
    {
        self.current_field = self.current_field.next();
    }

    /// Move to the previous form field.
    pub fn prev_field(&mut self)
        ensures
            final(self).current_field.spec_next() == old(self).current_field,
            final(self).task@ == old(self).task@,
    {
        self.current_field = self.current_field.prev();
    }

    /// Step the priority through its cycle.
    pub fn cycle_priority(&mut self)
        ensures
            final(self).task@.priority == match old(self).task@.priority {
                TaskPriority::Unset => TaskPriority::Low,
                TaskPriority::Low => TaskPriority::Medium,
                TaskPriority::Medium => TaskPriority::High,
                TaskPriority::High => TaskPriority::Unset,
            },
            final(self).task@ == (crate::model::TaskV {
                priority: final(self).task@.priority,
                ..old(self).task@
            }),
    {
        self.task.priority = match self.task.priority {
            TaskPriority::Unset => TaskPriority::Low,
            TaskPriority::Low => TaskPriority::Medium,
            TaskPriority::Medium => TaskPriority::High,
            TaskPriority::High => TaskPriority::Unset,
        };
        proof {
            assert(final(self).task@ =~= (crate::model::TaskV {
                priority: final(self).task@.priority,
                ..old(self).task@
            }));
        }
    }

    /// Step the status through its cycle.
    pub fn cycle_status(&mut self)
        ensures
            final(self).task@.status == match old(self).task@.status {
                TaskStatus::Inbox => TaskStatus::Active,
                TaskStatus::Active => TaskStatus::Scheduled,
                TaskStatus::Scheduled => TaskStatus::Completed,
                TaskStatus::Completed => TaskStatus::Cancelled,
                TaskStatus::Cancelled => TaskStatus::Inbox,
            },
            final(self).task@ == (crate::model::TaskV {
                status: final(self).task@.status,
                ..old(self).task@
            }),
    {
        self.task.status = match self.task.status {
            TaskStatus::Inbox => TaskStatus::Active,
            TaskStatus::Active => TaskStatus::Scheduled,
            TaskStatus::Scheduled => TaskStatus::Completed,
            TaskStatus::Completed => TaskStatus::Cancelled,
            TaskStatus::Cancelled => TaskStatus::Inbox,
        };
        proof {
            assert(final(self).task@ =~= (crate::model::TaskV {
                status: final(self).task@.status,
                ..old(self).task@
            }));
        }
    }

    /// Step the kind through its cycle, including "no kind".
    pub fn cycle_kind(&mut self)
        ensures
            final(self).task@.kind == match old(self).task@.kind {
                None => Some(TaskKind::Task),
                Some(TaskKind::Task) => Some(TaskKind::Bug),
                Some(TaskKind::Bug) => Some(TaskKind::Feature),
                Some(TaskKind::Feature) => Some(TaskKind::Chore),
                Some(TaskKind::Chore) => Some(TaskKind::GhIssue),
                Some(TaskKind::GhIssue) => Some(TaskKind::GhPr),
                Some(TaskKind::GhPr) => Some(TaskKind::GhReview),
                Some(TaskKind::GhReview) => None::<TaskKind>,
            },
            final(self).task@ == (crate::model::TaskV {
                kind: final(self).task@.kind,
                ..old(self).task@
            }),
    {
        self.task.kind = match self.task.kind {
            None => Some(TaskKind::Task),
            Some(TaskKind::Task) => Some(TaskKind::Bug),
            Some(TaskKind::Bug) => Some(TaskKind::Feature),
            Some(TaskKind::Feature) => Some(TaskKind::Chore),
            Some(TaskKind::Chore) => Some(TaskKind::GhIssue),
            Some(TaskKind::GhIssue) => Some(TaskKind::GhPr),
            Some(TaskKind::GhPr) => Some(TaskKind::GhReview),
            Some(TaskKind::GhReview) => None,
        };
        proof {
            assert(final(self).task@ =~= (crate::model::TaskV {
                kind: final(self).task@.kind,
                ..old(self).task@
            }));
        }
    }

    /// Step the size through its cycle, including "no size".
    pub fn cycle_size(&mut self)
        ensures
            final(self).task@.size == match old(self).task@.size {
                None => Some(TaskSize::Xs),
                Some(TaskSize::Xs) => Some(TaskSize::S),
                Some(TaskSize::S) => Some(TaskSize::M),
                Some(TaskSize::M) => Some(TaskSize::L),
                Some(TaskSize::L) => None::<TaskSize>,
            },
            final(self).task@ == (crate::model::TaskV {
                size: final(self).task@.size,
                ..old(self).task@
            }),
    {
        self.task.size = match self.task.size {
            None => Some(TaskSize::Xs),
            Some(TaskSize::Xs) => Some(TaskSize::S),
            Some(TaskSize::S) => Some(TaskSize::M),
            Some(TaskSize::M) => Some(TaskSize::L),
            Some(TaskSize::L) => None,
        };
        proof {
            assert(final(self).task@ =~= (crate::model::TaskV {
                size: final(self).task@.size,
                ..old(self).task@
            }));
        }
    }

    /// Copy the text inputs onto the task: empty notes become no notes, and
    /// the due date is taken exactly when the input parses as an ISO date.
    pub fn apply_inputs(&mut self)
        ensures
            final(self).task@.title == old(self).title_input@,
            final(self).task@.notes == if old(self).notes_input@.len() == 0 {
                None::<Seq<char>>
            } else {
                Some(old(self).notes_input@)
            },
            final(self).task@.due_date == match iso_date_days_of(old(self).due_date_input@) {
                Some(d) => Some(d as int),
                None => None::<int>,
            },
            final(self).task@ == (crate::model::TaskV {
                title: final(self).task@.title,
                notes: final(self).task@.notes,
                due_date: final(self).task@.due_date,
                ..old(self).task@
            }),
            final(self).title_input@ == old(self).title_input@,
            final(self).notes_input@ == old(self).notes_input@,
            final(self).due_date_input@ == old(self).due_date_input@,
    {
        self.task.title = self.title_input.clone();
        if self.notes_input.as_str().unicode_len() == 0 {
            self.task.notes = None;
        } else {
            self.task.notes = Some(self.notes_input.clone());
        }
        self.task.due_date = parse_iso_date(self.due_date_input.as_str());
        proof {
            assert(final(self).task@ =~= (crate::model::TaskV {
                title: final(self).task@.title,
                notes: final(self).task@.notes,
                due_date: final(self).task@.due_date,
                ..old(self).task@
            }));
        }
    }
}

/// Index of the project with the given id, if it is listed.
fn find_project_index(projects: &Vec<Project>, project_id: &str) -> (r: Option<usize>)
    ensures
        match r {
            Some(i) => i < projects.len() && projects.deep_view()[i as int].id == project_id@,
            None => true,
        },
{
    let mut i: usize = 0;
    while i < projects.len()
        invariant
            0 <= i <= projects.len(),
        decreases projects.len() - i,
    {
        if str_eq(projects[i].id.as_str(), project_id) {
            return Some(i);
        }
        i += 1;
    }
    None
}

} // verus!
