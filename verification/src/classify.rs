//! View classifier: pure functions mapping the task collection into named
//! buckets (Inbox, Today, Upcoming, Anytime, Completed, Review, by-project,
//! by-tag, search), given only the current calendar day.
//!
//! Buckets are views, not partitions: a task may appear in more than one.
//! The day is injected by the caller, never read from a global clock, so
//! every function here is deterministic.

use vstd::prelude::*;

use crate::model::{Task, TaskStatus, TaskV};
use crate::runtime::{lower_of, to_lowercase};
use crate::strutil::{contains_seq, str_contains, str_eq};

verus! {

/// Inbox bucket: status Inbox, not soft-deleted.
pub open spec fn in_inbox(t: TaskV) -> bool {
    t.status == TaskStatus::Inbox && !t.deleted
}

/// Today bucket: live, not completed, due on or before the given day (this
/// intentionally also captures overdue items).
pub open spec fn in_today(t: TaskV, today: int) -> bool {
    !t.deleted && t.status != TaskStatus::Completed && match t.due_date {
        Some(due) => due <= today,
        None => false,
    }
}

/// Upcoming bucket: live, not completed, due strictly after the given day.
pub open spec fn in_upcoming(t: TaskV, today: int) -> bool {
    !t.deleted && t.status != TaskStatus::Completed && match t.due_date {
        Some(due) => due > today,
        None => false,
    }
}

/// Anytime bucket: live, not completed, no due date.
pub open spec fn in_anytime(t: TaskV) -> bool {
    !t.deleted && t.status != TaskStatus::Completed && t.due_date is None
}

/// Completed bucket: completed and not soft-deleted.
pub open spec fn in_completed(t: TaskV) -> bool {
    !t.deleted && t.status == TaskStatus::Completed
}

/// Review bucket: live, not completed, due strictly before the given day —
/// the attention-needed subset of Today.
pub open spec fn in_review(t: TaskV, today: int) -> bool {
    !t.deleted && t.status != TaskStatus::Completed && match t.due_date {
        Some(due) => due < today,
        None => false,
    }
}

/// By-project bucket: live, not completed, assigned to the given project.
pub open spec fn in_project(t: TaskV, project_id: Seq<char>) -> bool {
    !t.deleted && t.status != TaskStatus::Completed && t.project_id == Some(project_id)
}

/// By-tag bucket: live, not completed, carrying the given tag id.
pub open spec fn in_tag(t: TaskV, tag_id: Seq<char>) -> bool {
    !t.deleted && t.status != TaskStatus::Completed && t.tags.contains(tag_id)
}

/// Search: live, case-insensitive substring match on title or notes.
pub open spec fn matches_search(t: TaskV, query: Seq<char>) -> bool {
    !t.deleted && (contains_seq(lower_of(t.title), lower_of(query)) || match t.notes {
        Some(notes) => contains_seq(lower_of(notes), lower_of(query)),
        None => false,
    })
}

/// Keep exactly the tasks satisfying the given predicate, in order.  The
/// executable test is handed in as a closure that decides the predicate.
fn filter_tasks<F: Fn(&Task) -> bool>(tasks: &Vec<Task>, pred: Ghost<spec_fn(TaskV) -> bool>, f: F)
    -> (r: Vec<Task>)
    requires
        forall|t: &Task| #[trigger] call_requires(f, (t,)),
        forall|t: &Task, b: bool| #[trigger] call_ensures(f, (t,), b) ==> b == pred@(t@),
    ensures
        r.deep_view() == tasks.deep_view().filter(pred@),
{
    broadcast use Seq::lemma_filter_push;

    let mut r: Vec<Task> = Vec::new();
    let mut i: usize = 0;
    proof {
        assert(tasks.deep_view().take(0) =~~= Seq::<TaskV>::empty());
        assert(Seq::<TaskV>::empty().filter(pred@) =~~= Seq::<TaskV>::empty());
        assert(r.deep_view() =~~= Seq::<TaskV>::empty());
    }
    while i < tasks.len()
        invariant
            0 <= i <= tasks.len(),
            forall|t: &Task| #[trigger] call_requires(f, (t,)),
            forall|t: &Task, b: bool| #[trigger] call_ensures(f, (t,), b) ==> b == pred@(t@),
            r.deep_view() == tasks.deep_view().take(i as int).filter(pred@),
        decreases tasks.len() - i,
    {
        let ghost prev = r.deep_view();
        let ghost pre = tasks.deep_view().take(i as int);
        let ghost tv = tasks@[i as int]@;
        let keep = f(&tasks[i]);
        if keep {
            r.push(tasks[i].clone());
            proof {
                assert(r.deep_view() =~~= prev.push(tv));
            }
        }
        proof {
            assert(tasks.deep_view().take(i + 1) =~~= pre.push(tv));
            pre.lemma_filter_push(tv, pred@);
            assert(pre.push(tv).filter(pred@) == if pred@(tv) {
                pre.filter(pred@).push(tv)
            } else {
                pre.filter(pred@)
            });
            assert(r.deep_view() == tasks.deep_view().take(i + 1).filter(pred@));
        }
        i += 1;
    }
    proof {
        assert(tasks.deep_view().take(tasks@.len() as int) =~~= tasks.deep_view());
    }
    r
}

/// Filter tasks for the Inbox view.
pub fn filter_inbox(tasks: &Vec<Task>) -> (r: Vec<Task>)
    ensures
        r.deep_view() == tasks.deep_view().filter(|t: TaskV| in_inbox(t)),
{
    let ghost pred: spec_fn(TaskV) -> bool = |t: TaskV| in_inbox(t);
    filter_tasks(
        tasks,
        Ghost(pred),
        (|t: &Task| -> (b: bool)
            ensures
                b == in_inbox(t@),
            { t.status == TaskStatus::Inbox && !t.deleted }),
    )
}

/// Filter tasks for the Today view: due on or before the given day.
pub fn filter_today(tasks: &Vec<Task>, today: i64) -> (r: Vec<Task>)
    ensures
        r.deep_view() == tasks.deep_view().filter(|t: TaskV| in_today(t, today as int)),
{
    let ghost pred: spec_fn(TaskV) -> bool = |t: TaskV| in_today(t, today as int);
    filter_tasks(
        tasks,
        Ghost(pred),
        (|t: &Task| -> (b: bool)
            ensures
                b == in_today(t@, today as int),
            {
                !t.deleted && t.status != TaskStatus::Completed && match t.due_date {
                    Some(due) => due <= today,
                    None => false,
                }
            }),
    )
}

/// Filter tasks for the Upcoming view: due strictly after the given day.
pub fn filter_upcoming(tasks: &Vec<Task>, today: i64) -> (r: Vec<Task>)
    ensures
        r.deep_view() == tasks.deep_view().filter(|t: TaskV| in_upcoming(t, today as int)),
{
    let ghost pred: spec_fn(TaskV) -> bool = |t: TaskV| in_upcoming(t, today as int);
    filter_tasks(
        tasks,
        Ghost(pred),
        (|t: &Task| -> (b: bool)
            ensures
                b == in_upcoming(t@, today as int),
            {
                !t.deleted && t.status != TaskStatus::Completed && match t.due_date {
                    Some(due) => due > today,
                    None => false,
                }
            }),
    )
}

/// Filter tasks for the Anytime view: live tasks without a due date.
pub fn filter_anytime(tasks: &Vec<Task>) -> (r: Vec<Task>)
    ensures
        r.deep_view() == tasks.deep_view().filter(|t: TaskV| in_anytime(t)),
{
    let ghost pred: spec_fn(TaskV) -> bool = |t: TaskV| in_anytime(t);
    filter_tasks(
        tasks,
        Ghost(pred),
        (|t: &Task| -> (b: bool)
            ensures
                b == in_anytime(t@),
            { !t.deleted && t.status != TaskStatus::Completed && t.due_date.is_none() }),
    )
}

/// Filter tasks for the Completed view.
pub fn filter_completed(tasks: &Vec<Task>) -> (r: Vec<Task>)
    ensures
        r.deep_view() == tasks.deep_view().filter(|t: TaskV| in_completed(t)),
{
    let ghost pred: spec_fn(TaskV) -> bool = |t: TaskV| in_completed(t);
    filter_tasks(
        tasks,
        Ghost(pred),
        (|t: &Task| -> (b: bool)
            ensures
                b == in_completed(t@),
            { !t.deleted && t.status == TaskStatus::Completed }),
    )
}

/// Filter tasks for the Review view: overdue on the given day.
pub fn filter_review(tasks: &Vec<Task>, today: i64) -> (r: Vec<Task>)
    ensures
        r.deep_view() == tasks.deep_view().filter(|t: TaskV| in_review(t, today as int)),
{
    let ghost pred: spec_fn(TaskV) -> bool = |t: TaskV| in_review(t, today as int);
    filter_tasks(
        tasks,
        Ghost(pred),
        (|t: &Task| -> (b: bool)
            ensures
                b == in_review(t@, today as int),
            {
                !t.deleted && t.status != TaskStatus::Completed && match t.due_date {
                    Some(due) => due < today,
                    None => false,
                }
            }),
    )
}

/// Whether the task's project reference equals the given id.
fn project_matches(t: &Task, project_id: &str) -> (b: bool)
    ensures
        b == (t@.project_id == Some(project_id@)),
{
    match &t.project_id {
        Some(pid) => str_eq(pid.as_str(), project_id),
        None => false,
    }
}

/// Filter the live, uncompleted tasks of one project.
pub fn filter_by_project(tasks: &Vec<Task>, project_id: &str) -> (r: Vec<Task>)
    ensures
        r.deep_view() == tasks.deep_view().filter(|t: TaskV| in_project(t, project_id@)),
{
    let ghost pred: spec_fn(TaskV) -> bool = |t: TaskV| in_project(t, project_id@);
    filter_tasks(
        tasks,
        Ghost(pred),
        (|t: &Task| -> (b: bool)
            ensures
                b == in_project(t@, project_id@),
            {
                !t.deleted && t.status != TaskStatus::Completed && project_matches(t, project_id)
            }),
    )
}

/// Whether the task carries the given tag id.
fn has_tag(t: &Task, tag_id: &str) -> (b: bool)
    ensures
        b == t@.tags.contains(tag_id@),
{
    let mut i: usize = 0;
    while i < t.tags.len()
        invariant
            0 <= i <= t.tags.len(),
            forall|j: int| 0 <= j < i ==> t@.tags[j] != tag_id@,
        decreases t.tags.len() - i,
    {
        if str_eq(t.tags[i].as_str(), tag_id) {
            assert(t@.tags[i as int] == tag_id@);
            return true;
        }
        i += 1;
    }
    false
}

/// Filter the live, uncompleted tasks carrying one tag.
pub fn filter_by_tag(tasks: &Vec<Task>, tag_id: &str) -> (r: Vec<Task>)
    ensures
        r.deep_view() == tasks.deep_view().filter(|t: TaskV| in_tag(t, tag_id@)),
{
    let ghost pred: spec_fn(TaskV) -> bool = |t: TaskV| in_tag(t, tag_id@);
    filter_tasks(
        tasks,
        Ghost(pred),
        (|t: &Task| -> (b: bool)
            ensures
                b == in_tag(t@, tag_id@),
            { !t.deleted && t.status != TaskStatus::Completed && has_tag(t, tag_id) }),
    )
}

/// Search tasks by a case-insensitive substring of title or notes.
pub fn search_tasks(tasks: &Vec<Task>, query: &str) -> (r: Vec<Task>)
    ensures
        r.deep_view() == tasks.deep_view().filter(|t: TaskV| matches_search(t, query@)),
{
    let query_lower = to_lowercase(query);
    filter_tasks(
        tasks,
        Ghost(|t: TaskV| matches_search(t, query@)),
        (|t: &Task| -> (b: bool)
            ensures
                b == matches_search(t@, query@),
            {
                if t.deleted {
                    false
                } else {
                    let title_lower = to_lowercase(t.title.as_str());
                    if str_contains(title_lower.as_str(), query_lower.as_str()) {
                        true
                    } else {
                        match &t.notes {
                            Some(notes) => {
                                let notes_lower = to_lowercase(notes.as_str());
                                str_contains(notes_lower.as_str(), query_lower.as_str())
                            },
                            None => false,
                        }
                    }
                }
            }),
    )
}

/// A task without a due date never falls in the Today, Upcoming or Review
/// buckets, and falls in Anytime exactly when it is live and not completed.
pub proof fn lemma_no_due_date_buckets(t: TaskV, today: int)
    requires
        t.due_date is None,
    ensures
        !in_today(t, today),
        !in_upcoming(t, today),
        !in_review(t, today),
        in_anytime(t) <==> (!t.deleted && t.status != TaskStatus::Completed),
{
}

} // verus!
