//! List and view states: the selectable task list, the three-column remote
//! board, the time-tracking view, and the status-bar context.  Rendering is
//! the caller's business; the selection and loading logic lives here.

use vstd::prelude::*;

use crate::model::{Task, TaskV};
use crate::remote::{GitHubData, GitHubIssue};
use crate::toggl::TogglData;

verus! {

/// A list of tasks with an optional selection.
pub struct TaskListState {
    pub tasks: Vec<Task>,
    pub selected: Option<usize>,
    pub focused: bool,
    pub title: String,
}

impl TaskListState {
    /// The selection, when set, points into the list.
    pub open spec fn wf(self) -> bool {
        match self.selected {
            Some(i) => i < self.tasks.len(),
            None => true,
        }
    }

    /// An empty, unfocused list with a title.
    pub fn new(title: String) -> (r: TaskListState)
        ensures
            r.tasks.deep_view() == Seq::<TaskV>::empty(),
            r.selected is None,
            !r.focused,
            r.title@ == title@,
            r.wf(),
    {
        let tasks: Vec<Task> = Vec::new();
        proof {
            assert(tasks.deep_view() =~~= Seq::<TaskV>::empty());
        }
        TaskListState { tasks, selected: None, focused: false, title }
    }

    /// Replace the tasks; an out-of-range selection snaps to the last row,
    /// an empty selection snaps to the first row of a non-empty list.
    pub fn set_tasks(&mut self, tasks: Vec<Task>)
        ensures
            final(self).tasks.deep_view() == tasks.deep_view(),
            final(self).selected == match old(self).selected {
                Some(i) => if i >= tasks.len() {
                    if tasks.len() == 0 {
                        None
                    } else {
                        Some((tasks.len() - 1) as usize)
                    }
                } else {
                    Some(i)
                },
                None => if tasks.len() == 0 {
                    None
                } else {
                    Some(0usize)
                },
            },
            final(self).title@ == old(self).title@,
            final(self).wf(),
    {
        self.tasks = tasks;
        match self.selected {
            Some(i) => {
                if i >= self.tasks.len() {
                    self.selected = if self.tasks.len() == 0 {
                        None
                    } else {
                        Some(self.tasks.len() - 1)
                    };
                }
            },
            None => {
                if self.tasks.len() > 0 {
                    self.selected = Some(0);
                }
            },
        }
    }

    /// The selected task, if any.
    pub fn selected_task(&self) -> (r: Option<&Task>)
        requires
            self.wf(),
        ensures
            r matches Some(t) ==> self.selected matches Some(i) && t@ == self.tasks.deep_view()[i as int],
            r is None <==> self.selected is None,
    {
        match self.selected {
            Some(i) => Some(&self.tasks[i]),
            None => None,
        }
    }

    /// Step the selection down, wrapping to the top.
    pub fn select_next(&mut self)
        requires
            old(self).wf(),
        ensures
            final(self).tasks.deep_view() == old(self).tasks.deep_view(),
            old(self).tasks.len() == 0 ==> final(self).selected == old(self).selected,
            old(self).tasks.len() > 0 ==> final(self).selected == (match old(self).selected {
                Some(i) => if i >= old(self).tasks.len() - 1 {
                    Some(0usize)
                } else {
                    Some((i + 1) as usize)
                },
                None => Some(0usize),
            }),
            final(self).wf(),
    {
        if self.tasks.len() == 0 {
            return;
        }
        self.selected = match self.selected {
            Some(i) => if i >= self.tasks.len() - 1 {
                Some(0)
            } else {
                Some(i + 1)
            },
            None => Some(0),
        };
    }

    /// Step the selection up, wrapping to the bottom.
    pub fn select_previous(&mut self)
        requires
            old(self).wf(),
        ensures
            final(self).tasks.deep_view() == old(self).tasks.deep_view(),
            old(self).tasks.len() == 0 ==> final(self).selected == old(self).selected,
            old(self).tasks.len() > 0 ==> final(self).selected == (match old(self).selected {
                Some(i) => if i == 0 {
                    Some((old(self).tasks.len() - 1) as usize)
                } else {
                    Some((i - 1) as usize)
                },
                None => Some(0usize),
            }),
            final(self).wf(),
    {
        if self.tasks.len() == 0 {
            return;
        }
        self.selected = match self.selected {
            Some(i) => if i == 0 {
                Some(self.tasks.len() - 1)
            } else {
                Some(i - 1)
            },
            None => Some(0),
        };
    }

    /// Select the first row of a non-empty list.
    pub fn select_first(&mut self)
        ensures
            final(self).tasks.deep_view() == old(self).tasks.deep_view(),
            old(self).tasks.len() > 0 ==> final(self).selected == Some(0usize),
            old(self).tasks.len() == 0 ==> final(self).selected == old(self).selected,
    {
        if self.tasks.len() > 0 {
            self.selected = Some(0);
        }
    }

    /// Select the last row of a non-empty list.
    pub fn select_last(&mut self)
        ensures
            final(self).tasks.deep_view() == old(self).tasks.deep_view(),
            old(self).tasks.len() > 0 ==> final(self).selected == Some(
                (old(self).tasks.len() - 1) as usize,
            ),
            old(self).tasks.len() == 0 ==> final(self).selected == old(self).selected,
            final(self).wf() || !old(self).wf(),
    {
        if self.tasks.len() > 0 {
            self.selected = Some(self.tasks.len() - 1);
        }
    }
}

/// The three columns of the remote board.
#[derive(Debug, Clone, Copy, PartialEq, Eq, Structural)]
pub enum GitHubColumn {
    ReviewPRs,
    MyPRs,
    AssignedIssues,
}

/// One column of remote items with an optional selection.
pub struct GitHubColumnState {
    pub items: Vec<GitHubIssue>,
    pub selected: Option<usize>,
    pub title: String,
    pub focused: bool,
}

impl GitHubColumnState {
    /// The selection, when set, points into the column.
    pub open spec fn wf(self) -> bool {
        match self.selected {
            Some(i) => i < self.items.len(),
            None => true,
        }
    }

    /// An empty, unfocused column with a title.
    pub fn new(title: String) -> (r: GitHubColumnState)
        ensures
            r.items@.len() == 0,
            r.selected is None,
            r.title@ == title@,
            !r.focused,
            r.wf(),
    {
        GitHubColumnState { items: Vec::new(), selected: None, title, focused: false }
    }

    /// Replace the items; the selection snaps into range as a task list's
    /// does.
    pub fn set_items(&mut self, items: Vec<GitHubIssue>)
        ensures
            final(self).items.deep_view() == items.deep_view(),
            final(self).selected == match old(self).selected {
                Some(i) => if i >= items.len() {
                    if items.len() == 0 {
                        None
                    } else {
                        Some((items.len() - 1) as usize)
                    }
                } else {
                    Some(i)
                },
                None => if items.len() == 0 {
                    None
                } else {
                    Some(0usize)
                },
            },
            final(self).title@ == old(self).title@,
            final(self).wf(),
    {
        self.items = items;
        match self.selected {
            Some(i) => {
                if i >= self.items.len() {
                    self.selected = if self.items.len() == 0 {
                        None
                    } else {
                        Some(self.items.len() - 1)
                    };
                }
            },
            None => {
                if self.items.len() > 0 {
                    self.selected = Some(0);
                }
            },
        }
    }

    /// The selected item, if any.
    pub fn selected_item(&self) -> (r: Option<&GitHubIssue>)
        requires
            self.wf(),
        ensures
            r matches Some(it) ==> self.selected matches Some(i) && it@ == self.items.deep_view()[i as int],
            r is None <==> self.selected is None,
    {
        match self.selected {
            Some(i) => Some(&self.items[i]),
            None => None,
        }
    }

    /// Step the selection down, wrapping to the top.
    pub fn select_next(&mut self)
        requires
            old(self).wf(),
        ensures
            final(self).items.deep_view() == old(self).items.deep_view(),
            old(self).items.len() == 0 ==> final(self).selected == old(self).selected,
            old(self).items.len() > 0 ==> final(self).selected == (match old(self).selected {
                Some(i) => if i >= old(self).items.len() - 1 {
                    Some(0usize)
                } else {
                    Some((i + 1) as usize)
                },
                None => Some(0usize),
            }),
            final(self).wf(),
    {
        if self.items.len() == 0 {
            return;
        }
        self.selected = match self.selected {
            Some(i) => if i >= self.items.len() - 1 {
                Some(0)
            } else {
                Some(i + 1)
            },
            None => Some(0),
        };
    }

    /// Step the selection up, wrapping to the bottom.
    pub fn select_previous(&mut self)
        requires
            old(self).wf(),
        ensures
            final(self).items.deep_view() == old(self).items.deep_view(),
            old(self).items.len() == 0 ==> final(self).selected == old(self).selected,
            old(self).items.len() > 0 ==> final(self).selected == (match old(self).selected {
                Some(i) => if i == 0 {
                    Some((old(self).items.len() - 1) as usize)
                } else {
                    Some((i - 1) as usize)
                },
                None => Some(0usize),
            }),
            final(self).wf(),
    {
        if self.items.len() == 0 {
            return;
        }
        self.selected = match self.selected {
            Some(i) => if i == 0 {
                Some(self.items.len() - 1)
            } else {
                Some(i - 1)
            },
            None => Some(0),
        };
    }
}

/// The remote board: three columns, one active, plus loading and error
/// state.
pub struct GitHubView {
    pub review_prs: GitHubColumnState,
    pub my_prs: GitHubColumnState,
    pub assigned_issues: GitHubColumnState,
    pub active_column: GitHubColumn,
    pub loading: bool,
    pub error: Option<String>,
}

impl GitHubView {
    /// An empty board, the review column active.
    pub fn new() -> (r: GitHubView)
        ensures
            r.active_column == GitHubColumn::ReviewPRs,
            !r.loading,
            r.error is None,
            r.review_prs.wf() && r.my_prs.wf() && r.assigned_issues.wf(),
    {
        GitHubView {
            review_prs: GitHubColumnState::new(String::from_str("Review Requested")),
            my_prs: GitHubColumnState::new(String::from_str("My PRs")),
            assigned_issues: GitHubColumnState::new(String::from_str("Assigned Issues")),
            active_column: GitHubColumn::ReviewPRs,
            loading: false,
            error: None,
        }
    }

    /// Install a fetched snapshot and clear loading and error state.
    pub fn set_data(&mut self, data: GitHubData)
        ensures
            final(self).review_prs.items.deep_view() == data.review_prs.deep_view(),
            final(self).my_prs.items.deep_view() == data.my_prs.deep_view(),
            final(self).assigned_issues.items.deep_view() == data.assigned_issues.deep_view(),
            !final(self).loading,
            final(self).error is None,
            final(self).active_column == old(self).active_column,
    {
        let GitHubData { review_prs, my_prs, assigned_issues } = data;
        self.review_prs.set_items(review_prs);
        self.my_prs.set_items(my_prs);
        self.assigned_issues.set_items(assigned_issues);
        self.loading = false;
        self.error = None;
    }

    /// Record a fetch error and stop loading.
    pub fn set_error(&mut self, error: String)
        ensures
            final(self).error matches Some(e) && e@ == error@,
            !final(self).loading,
            final(self).active_column == old(self).active_column,
    {
        self.error = Some(error);
        self.loading = false;
    }

    /// Flag or unflag the loading state.
    pub fn set_loading(&mut self, loading: bool)
        ensures
            final(self).loading == loading,
            final(self).error == old(self).error,
            final(self).active_column == old(self).active_column,
    {
        self.loading = loading;
    }

    /// Activate the column to the right, wrapping round.
    pub fn next_column(&mut self)
        ensures
            final(self).active_column == match old(self).active_column {
                GitHubColumn::ReviewPRs => GitHubColumn::MyPRs,
                GitHubColumn::MyPRs => GitHubColumn::AssignedIssues,
                GitHubColumn::AssignedIssues => GitHubColumn::ReviewPRs,
            },
    {
        self.active_column = match self.active_column {
            GitHubColumn::ReviewPRs => GitHubColumn::MyPRs,
            GitHubColumn::MyPRs => GitHubColumn::AssignedIssues,
            GitHubColumn::AssignedIssues => GitHubColumn::ReviewPRs,
        };
        self.update_focus();
    }

    /// Activate the column to the left, wrapping round.
    pub fn prev_column(&mut self)
        ensures
            final(self).active_column == match old(self).active_column {
                GitHubColumn::ReviewPRs => GitHubColumn::AssignedIssues,
                GitHubColumn::MyPRs => GitHubColumn::ReviewPRs,
                GitHubColumn::AssignedIssues => GitHubColumn::MyPRs,
            },
    {
        self.active_column = match self.active_column {
            GitHubColumn::ReviewPRs => GitHubColumn::AssignedIssues,
            GitHubColumn::MyPRs => GitHubColumn::ReviewPRs,
            GitHubColumn::AssignedIssues => GitHubColumn::MyPRs,
        };
        self.update_focus();
    }

    /// Mark exactly the active column focused.
    pub fn update_focus(&mut self)
        ensures
            final(self).review_prs.focused == (final(self).active_column
                == GitHubColumn::ReviewPRs),
            final(self).my_prs.focused == (final(self).active_column == GitHubColumn::MyPRs),
            final(self).assigned_issues.focused == (final(self).active_column
                == GitHubColumn::AssignedIssues),
            final(self).active_column == old(self).active_column,
    {
        self.review_prs.focused = matches!(self.active_column, GitHubColumn::ReviewPRs);
        self.my_prs.focused = matches!(self.active_column, GitHubColumn::MyPRs);
        self.assigned_issues.focused = matches!(self.active_column, GitHubColumn::AssignedIssues);
    }
}

/// The data shown by the time-tracking charts: the fetched entries and how
/// many days the charts span.
pub struct TogglChartState {
    pub data: TogglData,
    pub days: i64,
    pub focused: bool,
}

impl Default for TogglChartState {
    fn default() -> (r: Self)
        ensures
            r.days == 7,
            !r.focused,
    {
        TogglChartState { data: TogglData::default(), days: 7, focused: false }
    }
}

/// The time-tracking view: chart state plus loading and error state.
pub struct TogglView {
    pub chart_state: TogglChartState,
    pub loading: bool,
    pub error: Option<String>,
}

impl TogglView {
    /// An empty view, neither loading nor failed.
    pub fn new() -> (r: TogglView)
        ensures
            !r.loading,
            r.error is None,
            r.chart_state.days == 7,
    {
        TogglView { chart_state: TogglChartState::default(), loading: false, error: None }
    }

    /// Install fetched data and clear loading and error state.
    pub fn set_data(&mut self, data: TogglData)
        ensures
            final(self).chart_state.data@ == data@,
            !final(self).loading,
            final(self).error is None,
            final(self).chart_state.days == old(self).chart_state.days,
    {
        self.chart_state.data = data;
        self.loading = false;
        self.error = None;
    }

    /// Record a fetch error and stop loading.
    pub fn set_error(&mut self, error: String)
        ensures
            final(self).error matches Some(e) && e@ == error@,
            !final(self).loading,
    {
        self.error = Some(error);
        self.loading = false;
    }

    /// Flag or unflag the loading state.
    pub fn set_loading(&mut self, loading: bool)
        ensures
            final(self).loading == loading,
            final(self).error == old(self).error,
    {
        self.loading = loading;
    }
}

/// What the status bar needs to know to pick its shortcut hints.
pub struct StatusBarContext {
    pub has_selection: bool,
    pub is_completed: bool,
    pub focus: &'static str,
}

/// Shorten a string to a character budget, marking the cut with an
/// ellipsis.
pub fn truncate(s: &str, max_len: usize) -> (r: String)
    requires
        max_len >= 3,
    ensures
        s@.len() <= max_len ==> r@ == s@,
        s@.len() > max_len ==> r@ == s@.subrange(0, max_len - 3) + "..."@,
{
    let len = s.unicode_len();
    if len <= max_len {
        s.to_owned()
    } else {
        let head = s.substring_char(0, max_len - 3);
        let r = head.to_owned().concat("...");
        r
    }
}

} // verus!
