//! Reconciliation engine: merges a remote snapshot into the local task
//! store.  The engine is a planner: it reads the local tasks and projects
//! and the snapshot and produces a plan of mutations — projects to create,
//! tasks to create, task rows to rewrite — which the caller persists and
//! [`apply_plan`] mirrors on the in-memory collections.
//!
//! The algorithm follows the merge policy: flatten the three item streams,
//! record every canonical URL as still open, map containers onto projects by
//! display name (creating missing projects once per batch), upsert matched
//! tasks only when something actually changed, create unmatched ones, and
//! promote to Completed every local remote-origin task whose URL disappeared
//! from the open-item snapshot.

use vstd::prelude::*;

use crate::model::{Project, ProjectV, Task, TaskKind, TaskPriority, TaskStatus, TaskV};
use crate::remote::{spec_repo_name, GitHubData, GitHubDataV, GitHubIssue, GitHubIssueV};
use crate::runtime::fresh_uuid;
use crate::strutil::{contains_seq, spec_i64_digits, str_contains, str_eq, i64_string};

verus! {

/// One remote item tagged with the task kind its stream implies.
pub type TaggedItem = (GitHubIssueV, TaskKind);

/// The flattened snapshot: assigned issues, then my open pull requests,
/// then pull requests awaiting review, each tagged with its origin kind.
pub open spec fn spec_flatten(d: GitHubDataV) -> Seq<TaggedItem> {
    d.assigned_issues.map_values(|v: GitHubIssueV| (v, TaskKind::GhIssue)) + d.my_prs.map_values(
        |v: GitHubIssueV| (v, TaskKind::GhPr),
    ) + d.review_prs.map_values(|v: GitHubIssueV| (v, TaskKind::GhReview))
}

/// The provenance label stored for each origin kind.
pub open spec fn origin_str(kind: TaskKind) -> Seq<char> {
    match kind {
        TaskKind::GhPr => "my_pr"@,
        TaskKind::GhReview => "review"@,
        _ => "issue"@,
    }
}

/// Whether some item of the snapshot carries this canonical URL: the
/// authority for "still open remotely".
pub open spec fn url_seen(items: Seq<TaggedItem>, url: Seq<char>) -> bool {
    exists|k: int| 0 <= k < items.len() && items[k].0.html_url == url
}

/// Index of the first task whose context URL equals the given URL.
pub open spec fn find_task(tasks: Seq<TaskV>, url: Seq<char>) -> Option<int>
    decreases tasks.len(),
{
    if tasks.len() == 0 {
        None
    } else if tasks[0].context_url == Some(url) {
        Some(0)
    } else {
        match find_task(tasks.skip(1), url) {
            Some(i) => Some(i + 1),
            None => None,
        }
    }
}

/// What `find_task` returns: the first matching index, if any match exists.
pub proof fn lemma_find_task_props(tasks: Seq<TaskV>, url: Seq<char>)
    ensures
        match find_task(tasks, url) {
            Some(m) => 0 <= m < tasks.len() && tasks[m].context_url == Some(url) && forall|j: int|
                0 <= j < m ==> tasks[j].context_url != Some(url),
            None => forall|j: int| 0 <= j < tasks.len() ==> tasks[j].context_url != Some(url),
        },
    decreases tasks.len(),
{
    if tasks.len() > 0 && tasks[0].context_url != Some(url) {
        lemma_find_task_props(tasks.skip(1), url);
        assert(forall|j: int| 1 <= j < tasks.len() ==> tasks[j] == tasks.skip(1)[j - 1]);
    }
}

/// A task with the URL exists exactly when `find_task` finds one.
pub proof fn lemma_find_task_exists(tasks: Seq<TaskV>, url: Seq<char>)
    ensures
        (find_task(tasks, url) is Some) <==> exists|i: int|
            0 <= i < tasks.len() && tasks[i].context_url == Some(url),
{
    lemma_find_task_props(tasks, url);
    if find_task(tasks, url) is Some {
        let m = find_task(tasks, url)->Some_0;
        assert(tasks[m].context_url == Some(url));
    }
}

/// Searching a concatenation: the left part wins, else the right part,
/// shifted.
pub proof fn lemma_find_task_concat(a: Seq<TaskV>, b: Seq<TaskV>, url: Seq<char>)
    ensures
        find_task(a + b, url) == match find_task(a, url) {
            Some(m) => Some(m),
            None => match find_task(b, url) {
                Some(m) => Some(m + a.len()),
                None => None::<int>,
            },
        },
    decreases a.len(),
{
    if a.len() == 0 {
        assert(a + b =~= b);
    } else {
        assert((a + b)[0] == a[0]);
        assert((a + b).skip(1) =~= a.skip(1) + b);
        lemma_find_task_concat(a.skip(1), b, url);
    }
}

/// Two task collections with the same context URLs position by position are
/// searched alike.
pub proof fn lemma_find_task_same_urls(a: Seq<TaskV>, b: Seq<TaskV>, url: Seq<char>)
    requires
        a.len() == b.len(),
        forall|i: int| 0 <= i < a.len() ==> a[i].context_url == b[i].context_url,
    ensures
        find_task(a, url) == find_task(b, url),
    decreases a.len(),
{
    if a.len() > 0 {
        assert(a.skip(1).len() == b.skip(1).len());
        assert(forall|i: int|
            0 <= i < a.skip(1).len() ==> a.skip(1)[i].context_url == b.skip(1)[i].context_url);
        lemma_find_task_same_urls(a.skip(1), b.skip(1), url);
    }
}

/// The project latest in display order carrying this name; the engine's
/// name index keeps the last one when names collide.
pub open spec fn last_project_named(projects: Seq<ProjectV>, name: Seq<char>) -> Option<ProjectV>
    decreases projects.len(),
{
    if projects.len() == 0 {
        None
    } else if projects.last().name == name {
        Some(projects.last())
    } else {
        last_project_named(projects.drop_last(), name)
    }
}

/// The first project of a batch carrying this name; batch-created projects
/// have distinct names, so first or last makes no difference there.
pub open spec fn first_project_named(projects: Seq<ProjectV>, name: Seq<char>) -> Option<ProjectV>
    decreases projects.len(),
{
    if projects.len() == 0 {
        None
    } else if projects[0].name == name {
        Some(projects[0])
    } else {
        first_project_named(projects.skip(1), name)
    }
}

/// Whether a local project already carries this container name.
pub open spec fn known_container(projects: Seq<ProjectV>, name: Seq<char>) -> bool {
    last_project_named(projects, name) is Some
}

/// The project id a container name resolves to: an existing project by
/// name, else a project created earlier in this batch.
pub open spec fn lookup_pid(
    projects: Seq<ProjectV>,
    new_projects: Seq<ProjectV>,
    name: Seq<char>,
) -> Option<Seq<char>> {
    match last_project_named(projects, name) {
        Some(p) => Some(p.id),
        None => match first_project_named(new_projects, name) {
            Some(p) => Some(p.id),
            None => None,
        },
    }
}

/// The container names that the batch must create projects for, in order of
/// first appearance: not already a local project name, not created earlier
/// in the batch.
pub open spec fn new_containers(projects: Seq<ProjectV>, items: Seq<TaggedItem>) -> Seq<Seq<char>>
    decreases items.len(),
{
    if items.len() == 0 {
        Seq::empty()
    } else {
        let prev = new_containers(projects, items.drop_last());
        let c = spec_repo_name(items.last().0);
        if !known_container(projects, c) && !prev.contains(c) {
            prev.push(c)
        } else {
            prev
        }
    }
}

/// Largest ordering index among the projects, or zero when there are none:
/// the base that freshly provisioned projects count up from.
pub open spec fn max_project_order(projects: Seq<ProjectV>) -> int
    decreases projects.len(),
{
    if projects.len() == 0 {
        0
    } else if projects.len() == 1 {
        projects.last().order_index
    } else {
        let m = max_project_order(projects.drop_last());
        if projects.last().order_index > m {
            projects.last().order_index
        } else {
            m
        }
    }
}

/// Largest ordering index among the tasks, or zero when there are none.
pub open spec fn max_task_order(tasks: Seq<TaskV>) -> int
    decreases tasks.len(),
{
    if tasks.len() == 0 {
        0
    } else if tasks.len() == 1 {
        tasks.last().order_index
    } else {
        let m = max_task_order(tasks.drop_last());
        if tasks.last().order_index > m {
            tasks.last().order_index
        } else {
            m
        }
    }
}

/// Shape of a project provisioned for a container: named after it, marked
/// with the remote icon, freshly stamped; only the id is free.
pub open spec fn made_project(p: ProjectV, name: Seq<char>, order: int, now: int) -> bool {
    &&& p.name == name
    &&& p.description is None
    &&& p.color is None
    &&& p.icon == Some(""@)
    &&& p.order_index == order
    &&& !p.is_inbox
    &&& p.created_at == now
    &&& p.updated_at == now
    &&& !p.deleted
}

/// Shape of a task seeded from a remote item: title and body taken over,
/// Inbox status, resolved project, origin kind, provenance metadata; only
/// the id is free.
pub open spec fn made_task(
    t: TaskV,
    item: GitHubIssueV,
    kind: TaskKind,
    container: Seq<char>,
    pid: Option<Seq<char>>,
    order: int,
    now: int,
) -> bool {
    &&& t.title == item.title
    &&& t.notes == item.body
    &&& t.created_at == now
    &&& t.updated_at == now
    &&& t.due_date is None
    &&& t.start_date is None
    &&& t.completed_at is None
    &&& t.project_id == pid
    &&& t.priority == TaskPriority::Unset
    &&& t.tags == Seq::<Seq<char>>::empty()
    &&& t.status == TaskStatus::Inbox
    &&& t.order_index == order
    &&& !t.deleted
    &&& t.kind == Some(kind)
    &&& t.size is None
    &&& t.assignee is None
    &&& t.context_url == Some(item.html_url)
    &&& t.metadata == seq![
        ("github_id"@, spec_i64_digits(item.id)),
        ("github_type"@, origin_str(kind)),
        ("github_repo"@, container),
    ]
}

/// The items that match no local task, in order: these become new tasks.
pub open spec fn unmatched_items(tasks: Seq<TaskV>, items: Seq<TaggedItem>) -> Seq<TaggedItem>
    decreases items.len(),
{
    if items.len() == 0 {
        Seq::empty()
    } else {
        let prev = unmatched_items(tasks, items.drop_last());
        if find_task(tasks, items.last().0.html_url) is None {
            prev.push(items.last())
        } else {
            prev
        }
    }
}

/// No more tasks are created than there are items.
pub proof fn lemma_unmatched_len(tasks: Seq<TaskV>, items: Seq<TaggedItem>)
    ensures
        unmatched_items(tasks, items).len() <= items.len(),
    decreases items.len(),
{
    if items.len() > 0 {
        lemma_unmatched_len(tasks, items.drop_last());
    }
}

/// Every unmatched item is an item of the snapshot.
pub proof fn lemma_unmatched_membership(tasks: Seq<TaskV>, items: Seq<TaggedItem>)
    ensures
        forall|j: int|
            0 <= j < unmatched_items(tasks, items).len() ==> items.contains(
                #[trigger] unmatched_items(tasks, items)[j],
            ),
    decreases items.len(),
{
    if items.len() > 0 {
        lemma_unmatched_membership(tasks, items.drop_last());
        let prev = unmatched_items(tasks, items.drop_last());
        assert forall|j: int|
            0 <= j < unmatched_items(tasks, items).len() implies items.contains(
            unmatched_items(tasks, items)[j],
        ) by {
            if j < prev.len() {
                assert(items.drop_last().contains(prev[j]));
                let i = choose|i: int|
                    0 <= i < items.drop_last().len() && items.drop_last()[i] == prev[j];
                assert(items[i] == unmatched_items(tasks, items)[j]);
            } else {
                assert(unmatched_items(tasks, items)[j] == items.last());
                assert(items[items.len() - 1] == items.last());
            }
        }
    }
}

/// The rewritten row for one matched item, when anything actually changed:
/// a remote close promotes the task to Completed, and a task without a
/// project is attached to the resolved one; either way the update stamp is
/// bumped.  A no-op match produces no row.
pub open spec fn item_update(
    tasks: Seq<TaskV>,
    projects: Seq<ProjectV>,
    new_projects: Seq<ProjectV>,
    it: TaggedItem,
    now: int,
) -> Option<TaskV> {
    match find_task(tasks, it.0.html_url) {
        None => None,
        Some(m) => {
            let t = tasks[m];
            let pid = lookup_pid(projects, new_projects, spec_repo_name(it.0));
            let close = it.0.state == "closed"@ && t.status != TaskStatus::Completed;
            let attach = t.project_id is None && pid is Some;
            if close || attach {
                Some(
                    TaskV {
                        status: if close {
                            TaskStatus::Completed
                        } else {
                            t.status
                        },
                        completed_at: if close {
                            Some(now)
                        } else {
                            t.completed_at
                        },
                        project_id: if attach {
                            pid
                        } else {
                            t.project_id
                        },
                        updated_at: now,
                        ..t
                    },
                )
            } else {
                None
            }
        },
    }
}

/// The rewritten rows of the matched items, in item order.
pub open spec fn item_updates(
    tasks: Seq<TaskV>,
    projects: Seq<ProjectV>,
    new_projects: Seq<ProjectV>,
    items: Seq<TaggedItem>,
    now: int,
) -> Seq<TaskV>
    decreases items.len(),
{
    if items.len() == 0 {
        Seq::empty()
    } else {
        let prev = item_updates(tasks, projects, new_projects, items.drop_last(), now);
        match item_update(tasks, projects, new_projects, items.last(), now) {
            Some(u) => prev.push(u),
            None => prev,
        }
    }
}

/// Whether the closure pass must complete the task: it carries a tracker
/// URL that the open-item snapshot no longer lists and is not yet
/// completed.
pub open spec fn needs_closure(t: TaskV, items: Seq<TaggedItem>) -> bool {
    match t.context_url {
        Some(u) => contains_seq(u, "github.com"@) && !url_seen(items, u) && t.status
            != TaskStatus::Completed,
        None => false,
    }
}

/// The completed row the closure scan writes for a task.
pub open spec fn closed_row(t: TaskV, now: int) -> TaskV {
    TaskV {
        status: TaskStatus::Completed,
        completed_at: Some(now),
        updated_at: now,
        ..t
    }
}

/// The rows the closure scan writes, in task order.
pub open spec fn closure_updates(tasks: Seq<TaskV>, items: Seq<TaggedItem>, now: int) -> Seq<TaskV>
    decreases tasks.len(),
{
    if tasks.len() == 0 {
        Seq::empty()
    } else {
        let prev = closure_updates(tasks.drop_last(), items, now);
        if needs_closure(tasks.last(), items) {
            prev.push(closed_row(tasks.last(), now))
        } else {
            prev
        }
    }
}

/// Mathematical value of a reconciliation plan.
#[verifier::ext_equal]
pub ghost struct PlanV {
    pub new_projects: Seq<ProjectV>,
    pub new_tasks: Seq<TaskV>,
    pub task_updates: Seq<TaskV>,
}

/// What the engine promises of a plan for the given local state and
/// flattened snapshot: the created projects are exactly the new containers
/// in first-appearance order, the created tasks are exactly the unmatched
/// items in order, and the update rows are the matched-item rewrites
/// followed by the closure promotions.  Only the fresh identifiers are
/// free, and the created tasks reference them through the plan's own
/// projects.
pub open spec fn valid_plan(
    tasks: Seq<TaskV>,
    projects: Seq<ProjectV>,
    items: Seq<TaggedItem>,
    now: int,
    plan: PlanV,
) -> bool {
    let ncs = new_containers(projects, items);
    let uns = unmatched_items(tasks, items);
    &&& plan.new_projects.len() == ncs.len()
    &&& forall|j: int|
        0 <= j < ncs.len() ==> made_project(
            #[trigger] plan.new_projects[j],
            ncs[j],
            max_project_order(projects) + 1 + j,
            now,
        )
    &&& plan.new_tasks.len() == uns.len()
    &&& forall|j: int|
        0 <= j < uns.len() ==> made_task(
            #[trigger] plan.new_tasks[j],
            uns[j].0,
            uns[j].1,
            spec_repo_name(uns[j].0),
            lookup_pid(projects, plan.new_projects, spec_repo_name(uns[j].0)),
            max_task_order(tasks) + 1 + j,
            now,
        )
    &&& plan.task_updates == item_updates(tasks, projects, plan.new_projects, items, now)
        + closure_updates(tasks, items, now)
}

/// One update row applied to the collection: every task with the row's id
/// is replaced by the row, as an update-by-id write does.
pub open spec fn apply_one_update(tasks: Seq<TaskV>, u: TaskV) -> Seq<TaskV> {
    tasks.map_values(
        |t: TaskV|
            if t.id == u.id {
                u
            } else {
                t
            },
    )
}

/// All update rows applied in order.
pub open spec fn apply_updates(tasks: Seq<TaskV>, updates: Seq<TaskV>) -> Seq<TaskV>
    decreases updates.len(),
{
    if updates.len() == 0 {
        tasks
    } else {
        apply_one_update(apply_updates(tasks, updates.drop_last()), updates.last())
    }
}

/// The local collections after a plan: updates applied to the tasks, then
/// the created rows appended.
pub open spec fn spec_apply_plan(
    tasks: Seq<TaskV>,
    projects: Seq<ProjectV>,
    plan: PlanV,
) -> (Seq<TaskV>, Seq<ProjectV>) {
    (apply_updates(tasks, plan.task_updates) + plan.new_tasks, projects + plan.new_projects)
}

/// What `last_project_named` returns: the latest project with the name.
proof fn lemma_last_project_named_props(projects: Seq<ProjectV>, name: Seq<char>)
    ensures
        match last_project_named(projects, name) {
            Some(p) => exists|i: int|
                0 <= i < projects.len() && projects[i] == p && p.name == name && forall|j: int|
                    i < j < projects.len() ==> projects[j].name != name,
            None => forall|j: int| 0 <= j < projects.len() ==> projects[j].name != name,
        },
    decreases projects.len(),
{
    if projects.len() > 0 && projects.last().name != name {
        lemma_last_project_named_props(projects.drop_last(), name);
        assert(forall|j: int|
            0 <= j < projects.len() - 1 ==> projects[j] == projects.drop_last()[j]);
        if last_project_named(projects, name) is Some {
            let p = last_project_named(projects, name)->Some_0;
            let i = choose|i: int|
                0 <= i < projects.drop_last().len() && projects.drop_last()[i] == p && p.name
                    == name && forall|j: int|
                    i < j < projects.drop_last().len() ==> projects.drop_last()[j].name != name;
            assert(projects[i] == p);
            assert(forall|j: int| i < j < projects.len() - 1 ==> projects[j].name != name);
        }
    }
}

/// What `first_project_named` returns: the earliest project with the name.
proof fn lemma_first_project_named_props(projects: Seq<ProjectV>, name: Seq<char>)
    ensures
        match first_project_named(projects, name) {
            Some(p) => exists|i: int|
                0 <= i < projects.len() && projects[i] == p && p.name == name && forall|j: int|
                    0 <= j < i ==> projects[j].name != name,
            None => forall|j: int| 0 <= j < projects.len() ==> projects[j].name != name,
        },
    decreases projects.len(),
{
    if projects.len() > 0 && projects[0].name != name {
        lemma_first_project_named_props(projects.skip(1), name);
        assert(forall|j: int| 1 <= j < projects.len() ==> projects[j] == projects.skip(1)[j - 1]);
        if first_project_named(projects, name) is Some {
            let p = first_project_named(projects, name)->Some_0;
            let i = choose|i: int|
                0 <= i < projects.skip(1).len() && projects.skip(1)[i] == p && p.name == name
                    && forall|j: int| 0 <= j < i ==> projects.skip(1)[j].name != name;
            assert(projects[i + 1] == p);
        }
    }
}

/// Appending a project to a batch leaves earlier first-matches alone; a
/// name that had no match now resolves to the appended project exactly when
/// it carries the name.
proof fn lemma_first_project_named_push(projects: Seq<ProjectV>, p: ProjectV, name: Seq<char>)
    ensures
        first_project_named(projects.push(p), name) == match first_project_named(projects, name) {
            Some(q) => Some(q),
            None => if p.name == name {
                Some(p)
            } else {
                None::<ProjectV>
            },
        },
    decreases projects.len(),
{
    if projects.len() == 0 {
        assert(projects.push(p).len() == 1);
        assert(projects.push(p)[0] == p);
        assert(projects.push(p).skip(1) =~= Seq::<ProjectV>::empty());
        assert(first_project_named(Seq::<ProjectV>::empty(), name) is None);
        if p.name == name {
            assert(first_project_named(projects.push(p), name) == Some(p));
        } else {
            assert(first_project_named(projects.push(p), name) is None);
        }
        assert(first_project_named(projects, name) is None);
    } else {
        assert(projects.push(p)[0] == projects[0]);
        assert(projects.push(p).skip(1) =~= projects.skip(1).push(p));
        lemma_first_project_named_push(projects.skip(1), p, name);
    }
}

/// A matched item's rewrite is unchanged when a project is appended to the
/// batch, as long as the item's container already resolved.
proof fn lemma_item_update_stable(
    tasks: Seq<TaskV>,
    projects: Seq<ProjectV>,
    new_projects: Seq<ProjectV>,
    p: ProjectV,
    it: TaggedItem,
    now: int,
)
    requires
        lookup_pid(projects, new_projects, spec_repo_name(it.0)) is Some,
    ensures
        item_update(tasks, projects, new_projects.push(p), it, now) == item_update(
            tasks,
            projects,
            new_projects,
            it,
            now,
        ),
{
    lemma_first_project_named_push(new_projects, p, spec_repo_name(it.0));
}

/// The whole rewrite list is unchanged when a project is appended, as long
/// as every item's container already resolved.
proof fn lemma_item_updates_stable(
    tasks: Seq<TaskV>,
    projects: Seq<ProjectV>,
    new_projects: Seq<ProjectV>,
    p: ProjectV,
    items: Seq<TaggedItem>,
    now: int,
)
    requires
        forall|k: int|
            0 <= k < items.len() ==> lookup_pid(
                projects,
                new_projects,
                spec_repo_name(#[trigger] items[k].0),
            ) is Some,
    ensures
        item_updates(tasks, projects, new_projects.push(p), items, now) == item_updates(
            tasks,
            projects,
            new_projects,
            items,
            now,
        ),
    decreases items.len(),
{
    if items.len() > 0 {
        assert(forall|k: int|
            0 <= k < items.drop_last().len() ==> items.drop_last()[k] == items[k]);
        lemma_item_updates_stable(tasks, projects, new_projects, p, items.drop_last(), now);
        lemma_item_update_stable(tasks, projects, new_projects, p, items.last(), now);
    }
}

/// No more containers are provisioned than there are items.
proof fn lemma_new_containers_len(projects: Seq<ProjectV>, items: Seq<TaggedItem>)
    ensures
        new_containers(projects, items).len() <= items.len(),
    decreases items.len(),
{
    if items.len() > 0 {
        lemma_new_containers_len(projects, items.drop_last());
    }
}

/// Index of the first task carrying the given context URL.
fn find_task_exec(tasks: &Vec<Task>, url: &str) -> (r: Option<usize>)
    ensures
        match r {
            Some(m) => find_task(tasks.deep_view(), url@) == Some(m as int),
            None => find_task(tasks.deep_view(), url@) is None,
        },
{
    let ghost tv = tasks.deep_view();
    let mut i: usize = 0;
    while i < tasks.len()
        invariant
            tv == tasks.deep_view(),
            0 <= i <= tasks.len(),
            forall|j: int| 0 <= j < i ==> tv[j].context_url != Some(url@),
        decreases tasks.len() - i,
    {
        let hit = match &tasks[i].context_url {
            Some(u) => str_eq(u.as_str(), url),
            None => false,
        };
        if hit {
            proof {
                lemma_find_task_props(tv, url@);
                assert(tv[i as int].context_url == Some(url@));
            }
            return Some(i);
        }
        i += 1;
    }
    proof {
        lemma_find_task_props(tv, url@);
        if find_task(tv, url@) is Some {
            let m = find_task(tv, url@)->Some_0;
            assert(tv[m].context_url == Some(url@));
        }
    }
    None
}

/// The id of the latest existing project with the given name, if any.
fn find_last_project_id(projects: &Vec<Project>, name: &str) -> (r: Option<String>)
    ensures
        r.deep_view() == match last_project_named(projects.deep_view(), name@) {
            Some(p) => Some(p.id),
            None => None::<Seq<char>>,
        },
{
    let ghost pv = projects.deep_view();
    let mut i: usize = projects.len();
    while i > 0
        invariant
            pv == projects.deep_view(),
            0 <= i <= projects.len(),
            forall|j: int| i <= j < projects.len() ==> pv[j].name != name@,
        decreases i,
    {
        i -= 1;
        if str_eq(projects[i].name.as_str(), name) {
            proof {
                lemma_last_project_named_props(pv, name@);
                assert(pv[i as int].name == name@);
                let q = last_project_named(pv, name@)->Some_0;
                let w = choose|w: int|
                    0 <= w < pv.len() && pv[w] == q && q.name == name@ && forall|j: int|
                        w < j < pv.len() ==> pv[j].name != name@;
                assert(w == i);
            }
            return Some(projects[i].id.clone());
        }
    }
    proof {
        lemma_last_project_named_props(pv, name@);
        if last_project_named(pv, name@) is Some {
            let q = last_project_named(pv, name@)->Some_0;
            let w = choose|w: int|
                0 <= w < pv.len() && pv[w] == q && q.name == name@ && forall|j: int|
                    w < j < pv.len() ==> pv[j].name != name@;
            assert(pv[w].name == name@);
        }
    }
    None
}

/// The id of the earliest batch project with the given name, if any.
fn find_first_project_id(projects: &Vec<Project>, name: &str) -> (r: Option<String>)
    ensures
        r.deep_view() == match first_project_named(projects.deep_view(), name@) {
            Some(p) => Some(p.id),
            None => None::<Seq<char>>,
        },
{
    let ghost pv = projects.deep_view();
    let mut i: usize = 0;
    while i < projects.len()
        invariant
            pv == projects.deep_view(),
            0 <= i <= projects.len(),
            forall|j: int| 0 <= j < i ==> pv[j].name != name@,
        decreases projects.len() - i,
    {
        if str_eq(projects[i].name.as_str(), name) {
            proof {
                lemma_first_project_named_props(pv, name@);
                assert(pv[i as int].name == name@);
                let q = first_project_named(pv, name@)->Some_0;
                let w = choose|w: int|
                    0 <= w < pv.len() && pv[w] == q && q.name == name@ && forall|j: int|
                        0 <= j < w ==> pv[j].name != name@;
                assert(w == i);
            }
            return Some(projects[i].id.clone());
        }
        i += 1;
    }
    proof {
        lemma_first_project_named_props(pv, name@);
        if first_project_named(pv, name@) is Some {
            let q = first_project_named(pv, name@)->Some_0;
            let w = choose|w: int|
                0 <= w < pv.len() && pv[w] == q && q.name == name@ && forall|j: int|
                    0 <= j < w ==> pv[j].name != name@;
            assert(pv[w].name == name@);
        }
    }
    None
}

/// Whether the snapshot still lists this URL as open.
fn url_seen_exec(items: &Vec<(GitHubIssue, TaskKind)>, url: &str) -> (r: bool)
    ensures
        r == url_seen(items.deep_view(), url@),
{
    let ghost iv = items.deep_view();
    let mut k: usize = 0;
    while k < items.len()
        invariant
            iv == items.deep_view(),
            0 <= k <= items.len(),
            forall|j: int| 0 <= j < k ==> iv[j].0.html_url != url@,
        decreases items.len() - k,
    {
        if str_eq(items[k].0.html_url.as_str(), url) {
            assert(iv[k as int].0.html_url == url@);
            return true;
        }
        k += 1;
    }
    false
}

/// Flatten the three snapshot streams into one tagged sequence: assigned
/// issues first, then my pull requests, then review requests.
fn flatten_items(data: &GitHubData) -> (r: Vec<(GitHubIssue, TaskKind)>)
    ensures
        r.deep_view() == spec_flatten(data@),
{
    let mut r: Vec<(GitHubIssue, TaskKind)> = Vec::new();
    let mut i: usize = 0;
    while i < data.assigned_issues.len()
        invariant
            0 <= i <= data.assigned_issues.len(),
            r.deep_view().len() == i,
            forall|j: int|
                0 <= j < i ==> #[trigger] r.deep_view()[j] == (
                    data.assigned_issues.deep_view()[j],
                    TaskKind::GhIssue,
                ),
        decreases data.assigned_issues.len() - i,
    {
        let ghost prev = r.deep_view();
        r.push((data.assigned_issues[i].clone(), TaskKind::GhIssue));
        proof {
            assert(r.deep_view() =~~= prev.push(
                (data.assigned_issues.deep_view()[i as int], TaskKind::GhIssue),
            ));
        }
        i += 1;
    }
    let ghost n1 = r.deep_view().len();
    let mut i: usize = 0;
    while i < data.my_prs.len()
        invariant
            0 <= i <= data.my_prs.len(),
            r.deep_view().len() == n1 + i,
            forall|j: int|
                0 <= j < n1 ==> #[trigger] r.deep_view()[j] == (
                    data.assigned_issues.deep_view()[j],
                    TaskKind::GhIssue,
                ),
            n1 == data.assigned_issues.len(),
            forall|j: int|
                n1 <= j < n1 + i ==> #[trigger] r.deep_view()[j] == (
                    data.my_prs.deep_view()[j - n1],
                    TaskKind::GhPr,
                ),
        decreases data.my_prs.len() - i,
    {
        let ghost prev = r.deep_view();
        r.push((data.my_prs[i].clone(), TaskKind::GhPr));
        proof {
            assert(r.deep_view() =~~= prev.push(
                (data.my_prs.deep_view()[i as int], TaskKind::GhPr),
            ));
        }
        i += 1;
    }
    let ghost n2 = r.deep_view().len();
    let mut i: usize = 0;
    while i < data.review_prs.len()
        invariant
            0 <= i <= data.review_prs.len(),
            r.deep_view().len() == n2 + i,
            n1 == data.assigned_issues.len(),
            n2 == n1 + data.my_prs.len(),
            forall|j: int|
                0 <= j < n1 ==> #[trigger] r.deep_view()[j] == (
                    data.assigned_issues.deep_view()[j],
                    TaskKind::GhIssue,
                ),
            forall|j: int|
                n1 <= j < n2 ==> #[trigger] r.deep_view()[j] == (
                    data.my_prs.deep_view()[j - n1],
                    TaskKind::GhPr,
                ),
            forall|j: int|
                n2 <= j < n2 + i ==> #[trigger] r.deep_view()[j] == (
                    data.review_prs.deep_view()[j - n2],
                    TaskKind::GhReview,
                ),
        decreases data.review_prs.len() - i,
    {
        let ghost prev = r.deep_view();
        r.push((data.review_prs[i].clone(), TaskKind::GhReview));
        proof {
            assert(r.deep_view() =~~= prev.push(
                (data.review_prs.deep_view()[i as int], TaskKind::GhReview),
            ));
        }
        i += 1;
    }
    proof {
        assert(r.deep_view() =~~= spec_flatten(data@));
    }
    r
}

/// Largest ordering index among the projects, or zero when there are none.
#[verifier::rlimit(50)]
pub fn max_project_order_exec(projects: &Vec<Project>) -> (r: i64)
    ensures
        r as int == max_project_order(projects.deep_view()),
{
    let ghost pv = projects.deep_view();
    let mut r: i64 = 0;
    let mut i: usize = 0;
    while i < projects.len()
        invariant
            pv == projects.deep_view(),
            0 <= i <= projects.len(),
            r as int == max_project_order(pv.take(i as int)),
        decreases projects.len() - i,
    {
        proof {
            assert(pv.take(i + 1).drop_last() =~= pv.take(i as int));
            assert(pv.take(i + 1).last() == pv[i as int]);
        }
        if i == 0 || projects[i].order_index > r {
            r = projects[i].order_index;
        }
        i += 1;
    }
    proof {
        assert(pv.take(pv.len() as int) =~= pv);
    }
    r
}

/// The provenance label of an origin kind.
fn kind_label(kind: TaskKind) -> (r: &'static str)
    ensures
        r@ == origin_str(kind),
{
    match kind {
        TaskKind::GhPr => "my_pr",
        TaskKind::GhReview => "review",
        _ => "issue",
    }
}

/// The mutations one reconciliation pass asks for: projects to create,
/// tasks to create, and task rows to rewrite, each in processing order.
pub struct ReconcilePlan {
    pub new_projects: Vec<Project>,
    pub new_tasks: Vec<Task>,
    pub task_updates: Vec<Task>,
}

impl View for ReconcilePlan {
    type V = PlanV;

    open spec fn view(&self) -> PlanV {
        PlanV {
            new_projects: self.new_projects.deep_view(),
            new_tasks: self.new_tasks.deep_view(),
            task_updates: self.task_updates.deep_view(),
        }
    }
}

/// One reconciliation pass over a fetched snapshot: compute the mutations
/// that merge it into the local collections, without touching them.  The
/// ordering-index bounds keep the freshly assigned indices inside the
/// machine range.
#[verifier::rlimit(100)]
pub fn reconcile_plan(
    tasks: &Vec<Task>,
    projects: &Vec<Project>,
    data: &GitHubData,
    now: i64,
) -> (plan: ReconcilePlan)
    requires
        spec_flatten(data@).len() <= i64::MAX,
        max_project_order(projects.deep_view()) + 1 + spec_flatten(data@).len() <= i64::MAX,
        max_task_order(tasks.deep_view()) + 1 + spec_flatten(data@).len() <= i64::MAX,
    ensures
        valid_plan(
            tasks.deep_view(),
            projects.deep_view(),
            spec_flatten(data@),
            now as int,
            plan@,
        ),
{
    let ghost tv = tasks.deep_view();
    let ghost pv = projects.deep_view();
    let items = flatten_items(data);
    let ghost iv = items.deep_view();
    let base_p = max_project_order_exec(projects);
    let base_t = max_task_order_exec(tasks);
    let mut new_projects: Vec<Project> = Vec::new();
    let mut new_tasks: Vec<Task> = Vec::new();
    let mut updates_a: Vec<Task> = Vec::new();
    let mut k: usize = 0;
    proof {
        assert(iv.take(0) =~= Seq::<TaggedItem>::empty());
        assert(new_projects.deep_view() =~~= Seq::<ProjectV>::empty());
        assert(new_tasks.deep_view() =~~= Seq::<TaskV>::empty());
        assert(updates_a.deep_view() =~~= Seq::<TaskV>::empty());
    }
    while k < items.len()
        invariant
            tv == tasks.deep_view(),
            pv == projects.deep_view(),
            iv == items.deep_view(),
            base_p as int == max_project_order(pv),
            base_t as int == max_task_order(tv),
            iv.len() <= i64::MAX,
            base_p + 1 + iv.len() <= i64::MAX,
            base_t + 1 + iv.len() <= i64::MAX,
            0 <= k <= items.len(),
            new_projects.deep_view().len() == new_containers(pv, iv.take(k as int)).len(),
            forall|j: int|
                0 <= j < new_containers(pv, iv.take(k as int)).len() ==> made_project(
                    #[trigger] new_projects.deep_view()[j],
                    new_containers(pv, iv.take(k as int))[j],
                    base_p + 1 + j,
                    now as int,
                ),
            forall|kk: int|
                0 <= kk < k ==> lookup_pid(
                    pv,
                    new_projects.deep_view(),
                    spec_repo_name(#[trigger] iv[kk].0),
                ) is Some,
            new_tasks.deep_view().len() == unmatched_items(tv, iv.take(k as int)).len(),
            forall|j: int|
                0 <= j < unmatched_items(tv, iv.take(k as int)).len() ==> made_task(
                    #[trigger] new_tasks.deep_view()[j],
                    unmatched_items(tv, iv.take(k as int))[j].0,
                    unmatched_items(tv, iv.take(k as int))[j].1,
                    spec_repo_name(unmatched_items(tv, iv.take(k as int))[j].0),
                    lookup_pid(
                        pv,
                        new_projects.deep_view(),
                        spec_repo_name(unmatched_items(tv, iv.take(k as int))[j].0),
                    ),
                    base_t + 1 + j,
                    now as int,
                ),
            updates_a.deep_view() == item_updates(
                tv,
                pv,
                new_projects.deep_view(),
                iv.take(k as int),
                now as int,
            ),
        decreases items.len() - k,
    {
        let ghost npv_old = new_projects.deep_view();
        let ghost ncs_k = new_containers(pv, iv.take(k as int));
        let ghost uns_k = unmatched_items(tv, iv.take(k as int));
        let kind = items[k].1;
        let c = items[k].0.repo_name();
        let ghost citem = spec_repo_name(iv[k as int].0);
        proof {
            assert(iv[k as int] == (items@[k as int].0@, items@[k as int].1));
            assert(c@ == citem);
            lemma_new_containers_len(pv, iv.take(k as int));
            lemma_unmatched_len(tv, iv.take(k as int));
            assert(iv.take(k + 1).drop_last() =~= iv.take(k as int));
            assert(iv.take(k + 1).last() == iv[k as int]);
        }
        let pid: String;
        let mut created = false;
        match find_last_project_id(projects, c.as_str()) {
            Some(id) => {
                pid = id;
            },
            None => {
                match find_first_project_id(&new_projects, c.as_str()) {
                    Some(id) => {
                        proof {
                            lemma_first_project_named_props(npv_old, citem);
                            let q = first_project_named(npv_old, citem)->Some_0;
                            let w = choose|w: int|
                                0 <= w < npv_old.len() && npv_old[w] == q && q.name == citem
                                    && forall|j: int| 0 <= j < w ==> npv_old[j].name != citem;
                            assert(ncs_k[w] == citem);
                            assert(ncs_k.contains(citem));
                        }
                        pid = id;
                    },
                    None => {
                        let order = base_p + 1 + (new_projects.len() as i64);
                        let p = Project {
                            id: fresh_uuid(),
                            name: c.clone(),
                            description: None,
                            color: None,
                            icon: Some(String::from_str("")),
                            order_index: order,
                            is_inbox: false,
                            created_at: now,
                            updated_at: now,
                            deleted: false,
                        };
                        pid = p.id.clone();
                        created = true;
                        proof {
                            lemma_first_project_named_props(npv_old, citem);
                            if ncs_k.contains(citem) {
                                let w = choose|w: int|
                                    0 <= w < ncs_k.len() && ncs_k[w] == citem;
                                assert(npv_old[w].name == citem);
                            }
                            assert(!ncs_k.contains(citem));
                        }
                        new_projects.push(p);
                        proof {
                            assert(new_projects.deep_view() =~~= npv_old.push(p@));
                        }
                    },
                }
            },
        }
        let ghost npv = new_projects.deep_view();
        proof {
            // the container now resolves, and everything recorded so far is
            // stable under the possible batch extension
            if created {
                let newp = npv.last();
                assert(npv =~~= npv_old.push(newp));
                lemma_first_project_named_push(npv_old, newp, citem);
                assert(lookup_pid(pv, npv, citem) == Some(newp.id));
                assert(new_containers(pv, iv.take(k + 1)) =~~= ncs_k.push(citem));
                assert forall|kk: int| 0 <= kk < k implies lookup_pid(
                    pv,
                    npv,
                    spec_repo_name(#[trigger] iv[kk].0),
                ) is Some by {
                    lemma_first_project_named_push(npv_old, newp, spec_repo_name(iv[kk].0));
                }
                assert forall|j: int| 0 <= j < uns_k.len() implies lookup_pid(
                    pv,
                    npv,
                    spec_repo_name(#[trigger] uns_k[j].0),
                ) == lookup_pid(pv, npv_old, spec_repo_name(uns_k[j].0)) && lookup_pid(
                    pv,
                    npv_old,
                    spec_repo_name(uns_k[j].0),
                ) is Some by {
                    lemma_unmatched_membership(tv, iv.take(k as int));
                    assert(iv.take(k as int).contains(uns_k[j]));
                    let kk = choose|kk: int|
                        0 <= kk < iv.take(k as int).len() && iv.take(k as int)[kk] == uns_k[j];
                    assert(iv[kk] == uns_k[j]);
                    lemma_first_project_named_push(npv_old, newp, spec_repo_name(uns_k[j].0));
                }
                assert forall|kk: int| 0 <= kk < iv.take(k as int).len() implies lookup_pid(
                    pv,
                    npv_old,
                    spec_repo_name(#[trigger] iv.take(k as int)[kk].0),
                ) is Some by {
                    assert(iv.take(k as int)[kk] == iv[kk]);
                }
                lemma_item_updates_stable(tv, pv, npv_old, newp, iv.take(k as int), now as int);
            } else {
                assert(npv == npv_old);
                assert(new_containers(pv, iv.take(k + 1)) =~~= ncs_k);
            }
            assert(lookup_pid(pv, npv, citem) == Some(pid@));
            assert(updates_a.deep_view() == item_updates(tv, pv, npv, iv.take(k as int), now as int));
        }
        match find_task_exec(tasks, items[k].0.html_url.as_str()) {
            Some(m) => {
                proof {
                    assert(find_task(tv, iv[k as int].0.html_url) == Some(m as int));
                    lemma_find_task_props(tv, iv[k as int].0.html_url);
                }
                let ghost t = tv[m as int];
                let close = str_eq(items[k].0.state.as_str(), "closed") && tasks[m].status
                    != TaskStatus::Completed;
                let attach = tasks[m].project_id.is_none();
                if close || attach {
                    let ghost prev = updates_a.deep_view();
                    let mut u = tasks[m].clone();
                    if close {
                        u.status = TaskStatus::Completed;
                        u.completed_at = Some(now);
                    }
                    if attach {
                        u.project_id = Some(pid.clone());
                    }
                    u.updated_at = now;
                    proof {
                        assert(u@ =~~= item_update(tv, pv, npv, iv[k as int], now as int)->Some_0);
                    }
                    updates_a.push(u);
                    proof {
                        assert(updates_a.deep_view() =~~= prev.push(
                            item_update(tv, pv, npv, iv[k as int], now as int)->Some_0,
                        ));
                        assert(updates_a.deep_view() =~~= item_updates(
                            tv,
                            pv,
                            npv,
                            iv.take(k + 1),
                            now as int,
                        ));
                    }
                } else {
                    proof {
                        assert(item_update(tv, pv, npv, iv[k as int], now as int) is None);
                        assert(updates_a.deep_view() =~~= item_updates(
                            tv,
                            pv,
                            npv,
                            iv.take(k + 1),
                            now as int,
                        ));
                    }
                }
                proof {
                    assert(unmatched_items(tv, iv.take(k + 1)) =~~= uns_k);
                }
            },
            None => {
                let ghost prev_tasks = new_tasks.deep_view();
                let order = base_t + 1 + (new_tasks.len() as i64);
                let mut metadata: Vec<(String, String)> = Vec::new();
                metadata.push((String::from_str("github_id"), i64_string(items[k].0.id)));
                metadata.push((String::from_str("github_type"), String::from_str(kind_label(kind))));
                metadata.push((String::from_str("github_repo"), c.clone()));
                let tags: Vec<String> = Vec::new();
                let t = Task {
                    id: fresh_uuid(),
                    title: items[k].0.title.clone(),
                    notes: items[k].0.body.clone(),
                    created_at: now,
                    updated_at: now,
                    due_date: None,
                    start_date: None,
                    completed_at: None,
                    project_id: Some(pid),
                    priority: TaskPriority::Unset,
                    tags,
                    status: TaskStatus::Inbox,
                    order_index: order,
                    deleted: false,
                    kind: Some(kind),
                    size: None,
                    assignee: None,
                    context_url: Some(items[k].0.html_url.clone()),
                    metadata,
                };
                proof {
                    assert(find_task(tv, iv[k as int].0.html_url) is None);
                    assert(t@.metadata =~~= seq![
                        ("github_id"@, spec_i64_digits(iv[k as int].0.id)),
                        ("github_type"@, origin_str(kind)),
                        ("github_repo"@, citem),
                    ]);
                    assert(t@.tags =~~= Seq::<Seq<char>>::empty());
                    assert(made_task(
                        t@,
                        iv[k as int].0,
                        kind,
                        citem,
                        lookup_pid(pv, npv, citem),
                        base_t + 1 + uns_k.len(),
                        now as int,
                    ));
                }
                let ghost tview = t@;
                new_tasks.push(t);
                proof {
                    assert(new_tasks.deep_view() =~~= prev_tasks.push(tview));
                    assert(unmatched_items(tv, iv.take(k + 1)) =~~= uns_k.push(iv[k as int]));
                    assert(updates_a.deep_view() =~~= item_updates(
                        tv,
                        pv,
                        npv,
                        iv.take(k + 1),
                        now as int,
                    ));
                }
            },
        }
        k += 1;
    }
    proof {
        assert(iv.take(items@.len() as int) =~= iv);
    }
    let mut updates_b: Vec<Task> = Vec::new();
    let mut ti: usize = 0;
    proof {
        assert(tv.take(0) =~= Seq::<TaskV>::empty());
        assert(updates_b.deep_view() =~~= closure_updates(tv.take(0), iv, now as int));
    }
    while ti < tasks.len()
        invariant
            tv == tasks.deep_view(),
            iv == items.deep_view(),
            0 <= ti <= tasks.len(),
            updates_b.deep_view() == closure_updates(tv.take(ti as int), iv, now as int),
        decreases tasks.len() - ti,
    {
        proof {
            assert(tv.take(ti + 1).drop_last() =~= tv.take(ti as int));
            assert(tv.take(ti + 1).last() == tv[ti as int]);
        }
        let needs = match &tasks[ti].context_url {
            Some(u) => str_contains(u.as_str(), "github.com") && !url_seen_exec(&items, u.as_str())
                && tasks[ti].status != TaskStatus::Completed,
            None => false,
        };
        proof {
            assert(needs == needs_closure(tv[ti as int], iv));
        }
        if needs {
            let ghost prev = updates_b.deep_view();
            let mut u = tasks[ti].clone();
            u.status = TaskStatus::Completed;
            u.completed_at = Some(now);
            u.updated_at = now;
            proof {
                assert(u@ =~~= closed_row(tv[ti as int], now as int));
            }
            updates_b.push(u);
            proof {
                assert(updates_b.deep_view() =~~= prev.push(closed_row(tv[ti as int], now as int)));
            }
        }
        ti += 1;
    }
    proof {
        assert(tv.take(tasks@.len() as int) =~= tv);
    }
    let mut task_updates = updates_a;
    let ghost ua = task_updates.deep_view();
    let ghost ub = updates_b.deep_view();
    task_updates.append(&mut updates_b);
    proof {
        assert(task_updates.deep_view() =~~= ua + ub);
    }
    let plan = ReconcilePlan { new_projects, new_tasks, task_updates };
    plan
}

/// Largest ordering index among the tasks, or zero when there are none.
#[verifier::rlimit(50)]
pub fn max_task_order_exec(tasks: &Vec<Task>) -> (r: i64)
    ensures
        r as int == max_task_order(tasks.deep_view()),
{
    let ghost tv = tasks.deep_view();
    let mut r: i64 = 0;
    let mut i: usize = 0;
    while i < tasks.len()
        invariant
            tv == tasks.deep_view(),
            0 <= i <= tasks.len(),
            r as int == max_task_order(tv.take(i as int)),
        decreases tasks.len() - i,
    {
        proof {
            assert(tv.take(i + 1).drop_last() =~= tv.take(i as int));
            assert(tv.take(i + 1).last() == tv[i as int]);
        }
        if i == 0 || tasks[i].order_index > r {
            r = tasks[i].order_index;
        }
        i += 1;
    }
    proof {
        assert(tv.take(tv.len() as int) =~= tv);
    }
    r
}

/// Clone a task collection row by row.
pub fn clone_tasks(tasks: &Vec<Task>) -> (r: Vec<Task>)
    ensures
        r.deep_view() == tasks.deep_view(),
{
    let mut r: Vec<Task> = Vec::new();
    let mut i: usize = 0;
    while i < tasks.len()
        invariant
            0 <= i <= tasks.len(),
            r.deep_view() == tasks.deep_view().take(i as int),
        decreases tasks.len() - i,
    {
        let ghost prev = r.deep_view();
        r.push(tasks[i].clone());
        proof {
            assert(r.deep_view() =~~= prev.push(tasks.deep_view()[i as int]));
            assert(r.deep_view() =~~= tasks.deep_view().take(i + 1));
        }
        i += 1;
    }
    proof {
        assert(tasks.deep_view().take(tasks@.len() as int) =~~= tasks.deep_view());
    }
    r
}

/// Clone a project collection row by row.
pub fn clone_projects(projects: &Vec<Project>) -> (r: Vec<Project>)
    ensures
        r.deep_view() == projects.deep_view(),
{
    let mut r: Vec<Project> = Vec::new();
    let mut i: usize = 0;
    while i < projects.len()
        invariant
            0 <= i <= projects.len(),
            r.deep_view() == projects.deep_view().take(i as int),
        decreases projects.len() - i,
    {
        let ghost prev = r.deep_view();
        r.push(projects[i].clone());
        proof {
            assert(r.deep_view() =~~= prev.push(projects.deep_view()[i as int]));
            assert(r.deep_view() =~~= projects.deep_view().take(i + 1));
        }
        i += 1;
    }
    proof {
        assert(projects.deep_view().take(projects@.len() as int) =~~= projects.deep_view());
    }
    r
}

/// Mirror a plan on the in-memory collections: rewrite the updated rows by
/// id, then append the created tasks and projects.
pub fn apply_plan(tasks: &Vec<Task>, projects: &Vec<Project>, plan: &ReconcilePlan) -> (r: (
    Vec<Task>,
    Vec<Project>,
))
    ensures
        r.0.deep_view() == spec_apply_plan(tasks.deep_view(), projects.deep_view(), plan@).0,
        r.1.deep_view() == spec_apply_plan(tasks.deep_view(), projects.deep_view(), plan@).1,
{
    let ghost tv = tasks.deep_view();
    let ghost updv = plan.task_updates.deep_view();
    let mut ts = clone_tasks(tasks);
    let mut j: usize = 0;
    proof {
        assert(updv.take(0) =~= Seq::<TaskV>::empty());
    }
    while j < plan.task_updates.len()
        invariant
            tv == tasks.deep_view(),
            updv == plan.task_updates.deep_view(),
            0 <= j <= plan.task_updates.len(),
            ts.deep_view() == apply_updates(tv, updv.take(j as int)),
        decreases plan.task_updates.len() - j,
    {
        let ghost prev = ts.deep_view();
        let ghost uv = updv[j as int];
        let mut next: Vec<Task> = Vec::new();
        let mut i: usize = 0;
        while i < ts.len()
            invariant
                prev == ts.deep_view(),
                uv == plan.task_updates.deep_view()[j as int],
                0 <= j < plan.task_updates.len(),
                0 <= i <= ts.len(),
                next.deep_view().len() == i,
                forall|idx: int|
                    0 <= idx < i ==> #[trigger] next.deep_view()[idx] == if prev[idx].id == uv.id {
                        uv
                    } else {
                        prev[idx]
                    },
            decreases ts.len() - i,
        {
            let ghost before = next.deep_view();
            if str_eq(ts[i].id.as_str(), plan.task_updates[j].id.as_str()) {
                next.push(plan.task_updates[j].clone());
            } else {
                next.push(ts[i].clone());
            }
            proof {
                assert(next.deep_view() =~~= before.push(next.deep_view().last()));
            }
            i += 1;
        }
        ts = next;
        proof {
            assert(ts.deep_view() =~~= apply_one_update(prev, uv));
            assert(updv.take(j + 1).drop_last() =~= updv.take(j as int));
            assert(updv.take(j + 1).last() == updv[j as int]);
            assert(ts.deep_view() =~~= apply_updates(tv, updv.take(j + 1)));
        }
        j += 1;
    }
    proof {
        assert(updv.take(plan.task_updates@.len() as int) =~= updv);
    }
    let ghost applied = ts.deep_view();
    let mut i: usize = 0;
    while i < plan.new_tasks.len()
        invariant
            applied == apply_updates(tv, updv),
            updv == plan.task_updates.deep_view(),
            0 <= i <= plan.new_tasks.len(),
            ts.deep_view() == applied + plan.new_tasks.deep_view().take(i as int),
        decreases plan.new_tasks.len() - i,
    {
        let ghost prev = ts.deep_view();
        ts.push(plan.new_tasks[i].clone());
        proof {
            assert(ts.deep_view() =~~= prev.push(plan.new_tasks.deep_view()[i as int]));
            assert(ts.deep_view() =~~= applied + plan.new_tasks.deep_view().take(i + 1));
        }
        i += 1;
    }
    proof {
        assert(plan.new_tasks.deep_view().take(plan.new_tasks@.len() as int) =~~= plan
            .new_tasks
            .deep_view());
    }
    let mut ps = clone_projects(projects);
    let ghost pv = projects.deep_view();
    let mut i: usize = 0;
    while i < plan.new_projects.len()
        invariant
            pv == projects.deep_view(),
            0 <= i <= plan.new_projects.len(),
            ps.deep_view() == pv + plan.new_projects.deep_view().take(i as int),
        decreases plan.new_projects.len() - i,
    {
        let ghost prev = ps.deep_view();
        ps.push(plan.new_projects[i].clone());
        proof {
            assert(ps.deep_view() =~~= prev.push(plan.new_projects.deep_view()[i as int]));
            assert(ps.deep_view() =~~= pv + plan.new_projects.deep_view().take(i + 1));
        }
        i += 1;
    }
    proof {
        assert(pv + plan.new_projects.deep_view().take(plan.new_projects@.len() as int) =~~= pv
            + plan.new_projects.deep_view());
        assert(ts.deep_view() =~~= spec_apply_plan(tv, pv, plan@).0);
        assert(ps.deep_view() =~~= spec_apply_plan(tv, pv, plan@).1);
    }
    (ts, ps)
}

/// Consume the outcome of a remote fetch: a successful snapshot is planned
/// and applied, a failed fetch leaves both collections untouched, exactly
/// as they were.
pub fn sync_github_to_tasks(
    tasks: &Vec<Task>,
    projects: &Vec<Project>,
    fetch: &Result<GitHubData, String>,
    now: i64,
) -> (r: (Vec<Task>, Vec<Project>))
    requires
        fetch matches Ok(data) ==> spec_flatten(data@).len() <= i64::MAX && max_project_order(
            projects.deep_view(),
        ) + 1 + spec_flatten(data@).len() <= i64::MAX && max_task_order(tasks.deep_view()) + 1
            + spec_flatten(data@).len() <= i64::MAX,
    ensures
        fetch is Err ==> r.0.deep_view() == tasks.deep_view() && r.1.deep_view()
            == projects.deep_view(),
        fetch matches Ok(data) ==> exists|plan: PlanV|
            #[trigger] valid_plan(
                tasks.deep_view(),
                projects.deep_view(),
                spec_flatten(data@),
                now as int,
                plan,
            ) && r.0.deep_view() == spec_apply_plan(tasks.deep_view(), projects.deep_view(), plan).0
            && r.1.deep_view() == spec_apply_plan(tasks.deep_view(), projects.deep_view(), plan).1,
{
    match fetch {
        Ok(data) => {
            let plan = reconcile_plan(tasks, projects, data, now);
            let r = apply_plan(tasks, projects, &plan);
            proof {
                let planv = plan@;
                assert(valid_plan(
                    tasks.deep_view(),
                    projects.deep_view(),
                    spec_flatten(data@),
                    now as int,
                    planv,
                ));
            }
            r
        },
        Err(_) => (clone_tasks(tasks), clone_projects(projects)),
    }
}

// ------------------------------------------------------------------
// Properties of the engine, proved from the plan contract alone.
// ------------------------------------------------------------------

/// Rewriting never changes the number of rows.
proof fn lemma_apply_updates_len(tasks: Seq<TaskV>, updates: Seq<TaskV>)
    ensures
        apply_updates(tasks, updates).len() == tasks.len(),
    decreases updates.len(),
{
    if updates.len() > 0 {
        lemma_apply_updates_len(tasks, updates.drop_last());
    }
}

/// Rewriting never changes a row's id.
proof fn lemma_apply_updates_id(tasks: Seq<TaskV>, updates: Seq<TaskV>)
    ensures
        apply_updates(tasks, updates).len() == tasks.len(),
        forall|i: int|
            0 <= i < tasks.len() ==> #[trigger] apply_updates(tasks, updates)[i].id == tasks[i].id,
    decreases updates.len(),
{
    lemma_apply_updates_len(tasks, updates);
    if updates.len() > 0 {
        lemma_apply_updates_id(tasks, updates.drop_last());
    }
}

/// Every rewritten row is an original row or one of the update rows.
proof fn lemma_apply_updates_cases(tasks: Seq<TaskV>, updates: Seq<TaskV>)
    ensures
        apply_updates(tasks, updates).len() == tasks.len(),
        forall|i: int|
            0 <= i < tasks.len() ==> apply_updates(tasks, updates)[i] == tasks[i] || exists|j: int|
                0 <= j < updates.len() && apply_updates(tasks, updates)[i] == #[trigger] updates[j],
    decreases updates.len(),
{
    lemma_apply_updates_len(tasks, updates);
    if updates.len() > 0 {
        lemma_apply_updates_cases(tasks, updates.drop_last());
        let mid = apply_updates(tasks, updates.drop_last());
        let fin = apply_updates(tasks, updates);
        let u = updates.last();
        assert forall|i: int| 0 <= i < tasks.len() implies fin[i] == tasks[i] || exists|j: int|
            0 <= j < updates.len() && fin[i] == #[trigger] updates[j] by {
            assert(fin[i] == if mid[i].id == u.id {
                u
            } else {
                mid[i]
            });
            if mid[i].id == u.id {
                assert(fin[i] == updates[updates.len() - 1]);
            } else {
                if mid[i] != tasks[i] {
                    let j = choose|j: int|
                        0 <= j < updates.drop_last().len() && mid[i] == updates.drop_last()[j];
                    assert(fin[i] == updates[j]);
                }
            }
        }
    }
}

/// With pairwise distinct update ids, each row is rewritten exactly to the
/// update carrying its id, and untouched rows stay as they were.
proof fn lemma_apply_updates_unique(tasks: Seq<TaskV>, updates: Seq<TaskV>)
    requires
        forall|j1: int, j2: int|
            0 <= j1 < j2 < updates.len() ==> updates[j1].id != updates[j2].id,
    ensures
        apply_updates(tasks, updates).len() == tasks.len(),
        forall|i: int, j: int|
            0 <= i < tasks.len() && 0 <= j < updates.len() && (#[trigger] updates[j]).id == (
            #[trigger] tasks[i]).id ==> apply_updates(tasks, updates)[i] == updates[j],
        forall|i: int|
            0 <= i < tasks.len() && (forall|j: int|
                0 <= j < updates.len() ==> (#[trigger] updates[j]).id != tasks[i].id)
                ==> apply_updates(tasks, updates)[i] == tasks[i],
    decreases updates.len(),
{
    lemma_apply_updates_len(tasks, updates);
    if updates.len() > 0 {
        let prevu = updates.drop_last();
        assert(forall|j: int| 0 <= j < prevu.len() ==> prevu[j] == updates[j]);
        lemma_apply_updates_unique(tasks, prevu);
        lemma_apply_updates_id(tasks, prevu);
        let mid = apply_updates(tasks, prevu);
        let fin = apply_updates(tasks, updates);
        let u = updates.last();
        assert forall|i: int, j: int|
            0 <= i < tasks.len() && 0 <= j < updates.len() && (#[trigger] updates[j]).id == (
            #[trigger] tasks[i]).id implies fin[i] == updates[j] by {
            assert(fin[i] == if mid[i].id == u.id {
                u
            } else {
                mid[i]
            });
            if j == updates.len() - 1 {
                assert(forall|jj: int| 0 <= jj < prevu.len() ==> prevu[jj].id != tasks[i].id);
                assert(mid[i] == tasks[i]);
            } else {
                assert(mid[i] == updates[j]);
                assert(updates[j].id != u.id);
            }
        }
        assert forall|i: int|
            0 <= i < tasks.len() && (forall|j: int|
                0 <= j < updates.len() ==> (#[trigger] updates[j]).id != tasks[i].id) implies fin[i]
            == tasks[i] by {
            assert(forall|j: int| 0 <= j < prevu.len() ==> prevu[j].id != tasks[i].id);
            assert(mid[i] == tasks[i]);
            assert(updates[updates.len() - 1].id != tasks[i].id);
        }
    }
}

/// Every matched-item rewrite row traces back to a matched item, the rows
/// carry the ids of pairwise distinct matched tasks, and each matched
/// item's rewrite is among the rows.
proof fn lemma_item_updates_props(
    tasks: Seq<TaskV>,
    projects: Seq<ProjectV>,
    new_projects: Seq<ProjectV>,
    items: Seq<TaggedItem>,
    now: int,
)
    requires
        forall|i1: int, i2: int| 0 <= i1 < i2 < tasks.len() ==> tasks[i1].id != tasks[i2].id,
        forall|k1: int, k2: int|
            0 <= k1 < k2 < items.len() ==> items[k1].0.html_url != items[k2].0.html_url,
    ensures
        forall|j: int|
            0 <= j < item_updates(tasks, projects, new_projects, items, now).len() ==> exists|
                k: int,
                m: int,
            |
                #![trigger items[k], tasks[m]]
                0 <= k < items.len() && find_task(tasks, items[k].0.html_url) == Some(m)
                    && item_update(tasks, projects, new_projects, items[k], now) == Some(
                    item_updates(tasks, projects, new_projects, items, now)[j],
                ) && #[trigger] item_updates(tasks, projects, new_projects, items, now)[j].id
                    == tasks[m].id,
        forall|j1: int, j2: int|
            0 <= j1 < j2 < item_updates(tasks, projects, new_projects, items, now).len()
                ==> item_updates(tasks, projects, new_projects, items, now)[j1].id != item_updates(
                tasks,
                projects,
                new_projects,
                items,
                now,
            )[j2].id,
        forall|k: int|
            0 <= k < items.len() && item_update(
                tasks,
                projects,
                new_projects,
                #[trigger] items[k],
                now,
            ) is Some ==> item_updates(tasks, projects, new_projects, items, now).contains(
                item_update(tasks, projects, new_projects, items[k], now)->Some_0,
            ),
    decreases items.len(),
{
    if items.len() > 0 {
        let previt = items.drop_last();
        assert(forall|k: int| 0 <= k < previt.len() ==> previt[k] == items[k]);
        lemma_item_updates_props(tasks, projects, new_projects, previt, now);
        let prev = item_updates(tasks, projects, new_projects, previt, now);
        let cur = item_updates(tasks, projects, new_projects, items, now);
        let lastit = items.last();
        lemma_find_task_props(tasks, lastit.0.html_url);
        match item_update(tasks, projects, new_projects, lastit, now) {
            Some(u) => {
                let mlast = find_task(tasks, lastit.0.html_url)->Some_0;
                assert(u.id == tasks[mlast].id);
                assert(cur == prev.push(u));
                assert forall|j: int| #![trigger cur[j]] 0 <= j < cur.len() implies exists|k: int, m: int|
                    #![trigger items[k], tasks[m]]
                    0 <= k < items.len() && find_task(tasks, items[k].0.html_url) == Some(m)
                        && item_update(tasks, projects, new_projects, items[k], now) == Some(
                        cur[j],
                    ) && cur[j].id == tasks[m].id by {
                    if j < prev.len() {
                        let (k, m): (int, int) = choose|k: int, m: int|
                            #![trigger previt[k], tasks[m]]
                            0 <= k < previt.len() && find_task(tasks, previt[k].0.html_url)
                                == Some(m) && item_update(
                                tasks,
                                projects,
                                new_projects,
                                previt[k],
                                now,
                            ) == Some(prev[j]) && prev[j].id == tasks[m].id;
                        assert(items[k] == previt[k]);
                        assert(find_task(tasks, items[k].0.html_url) == Some(m) && item_update(
                            tasks,
                            projects,
                            new_projects,
                            items[k],
                            now,
                        ) == Some(cur[j]) && cur[j].id == tasks[m].id);
                    } else {
                        let k = items.len() - 1;
                        assert(find_task(tasks, items[k].0.html_url) == Some(mlast)
                            && item_update(tasks, projects, new_projects, items[k], now) == Some(
                            cur[j],
                        ) && cur[j].id == tasks[mlast].id);
                    }
                }
                // the new row's id differs from every earlier row's id
                assert forall|j: int| 0 <= j < prev.len() implies prev[j].id != u.id by {
                    let (k, m): (int, int) = choose|k: int, m: int|
                        #![trigger previt[k], tasks[m]]
                        0 <= k < previt.len() && find_task(tasks, previt[k].0.html_url) == Some(m)
                            && item_update(tasks, projects, new_projects, previt[k], now)
                            == Some(prev[j]) && prev[j].id == tasks[m].id;
                    lemma_find_task_props(tasks, previt[k].0.html_url);
                    assert(tasks[m].context_url == Some(items[k].0.html_url));
                    assert(tasks[mlast].context_url == Some(lastit.0.html_url));
                    assert(items[k].0.html_url != lastit.0.html_url);
                    assert(m != mlast);
                }
                assert forall|k: int|
                    0 <= k < items.len() && item_update(
                        tasks,
                        projects,
                        new_projects,
                        #[trigger] items[k],
                        now,
                    ) is Some implies cur.contains(
                    item_update(tasks, projects, new_projects, items[k], now)->Some_0,
                ) by {
                    if k < items.len() - 1 {
                        let v = item_update(tasks, projects, new_projects, items[k], now)->Some_0;
                        assert(prev.contains(v));
                        let j = choose|j: int| 0 <= j < prev.len() && prev[j] == v;
                        assert(cur[j] == v);
                    } else {
                        assert(cur[cur.len() - 1] == u);
                    }
                }
            },
            None => {
                assert(cur == prev);
                assert forall|j: int| #![trigger cur[j]] 0 <= j < cur.len() implies exists|k: int, m: int|
                    #![trigger items[k], tasks[m]]
                    0 <= k < items.len() && find_task(tasks, items[k].0.html_url) == Some(m)
                        && item_update(tasks, projects, new_projects, items[k], now) == Some(
                        cur[j],
                    ) && cur[j].id == tasks[m].id by {
                    let (k, m): (int, int) = choose|k: int, m: int|
                        #![trigger previt[k], tasks[m]]
                        0 <= k < previt.len() && find_task(tasks, previt[k].0.html_url) == Some(m)
                            && item_update(tasks, projects, new_projects, previt[k], now) == Some(
                            prev[j],
                        ) && prev[j].id == tasks[m].id;
                    assert(items[k] == previt[k]);
                    assert(find_task(tasks, items[k].0.html_url) == Some(m) && item_update(
                        tasks,
                        projects,
                        new_projects,
                        items[k],
                        now,
                    ) == Some(cur[j]) && cur[j].id == tasks[m].id);
                }
                assert forall|k: int|
                    0 <= k < items.len() && item_update(
                        tasks,
                        projects,
                        new_projects,
                        #[trigger] items[k],
                        now,
                    ) is Some implies cur.contains(
                    item_update(tasks, projects, new_projects, items[k], now)->Some_0,
                ) by {
                    assert(k < items.len() - 1);
                }
            },
        }
    }
}

/// Every closure row traces back to a task that needed closing, the rows
/// carry distinct task ids, and every task that needed closing has its row.
proof fn lemma_closure_updates_props(tasks: Seq<TaskV>, items: Seq<TaggedItem>, now: int)
    requires
        forall|i1: int, i2: int| 0 <= i1 < i2 < tasks.len() ==> tasks[i1].id != tasks[i2].id,
    ensures
        forall|j: int|
            0 <= j < closure_updates(tasks, items, now).len() ==> exists|s: int|
                0 <= s < tasks.len() && needs_closure(#[trigger] tasks[s], items) && closure_updates(
                    tasks,
                    items,
                    now,
                )[j] == closed_row(tasks[s], now) && #[trigger] closure_updates(
                    tasks,
                    items,
                    now,
                )[j].id == tasks[s].id,
        forall|j1: int, j2: int|
            0 <= j1 < j2 < closure_updates(tasks, items, now).len() ==> closure_updates(
                tasks,
                items,
                now,
            )[j1].id != closure_updates(tasks, items, now)[j2].id,
        forall|s: int|
            0 <= s < tasks.len() && needs_closure(#[trigger] tasks[s], items) ==> closure_updates(
                tasks,
                items,
                now,
            ).contains(closed_row(tasks[s], now)),
    decreases tasks.len(),
{
    if tasks.len() > 0 {
        let prevt = tasks.drop_last();
        assert(forall|i: int| 0 <= i < prevt.len() ==> prevt[i] == tasks[i]);
        lemma_closure_updates_props(prevt, items, now);
        let prev = closure_updates(prevt, items, now);
        let cur = closure_updates(tasks, items, now);
        let lastt = tasks.last();
        let slast = tasks.len() - 1;
        if needs_closure(lastt, items) {
            assert(cur == prev.push(closed_row(lastt, now)));
            assert forall|j: int| #![trigger cur[j]] 0 <= j < cur.len() implies exists|s: int|
                0 <= s < tasks.len() && needs_closure(#[trigger] tasks[s], items) && cur[j]
                    == closed_row(tasks[s], now) && cur[j].id == tasks[s].id by {
                if j < prev.len() {
                    let si = choose|si: int|
                        0 <= si < prevt.len() && needs_closure(#[trigger] prevt[si], items)
                            && prev[j] == closed_row(prevt[si], now) && prev[j].id == prevt[si].id;
                    assert(tasks[si] == prevt[si]);
                    assert(needs_closure(tasks[si], items) && cur[j] == closed_row(tasks[si], now)
                        && cur[j].id == tasks[si].id);
                } else {
                    assert(needs_closure(tasks[slast], items) && cur[j] == closed_row(
                        tasks[slast],
                        now,
                    ) && cur[j].id == tasks[slast].id);
                }
            }
            assert forall|j: int| 0 <= j < prev.len() implies prev[j].id != tasks[slast].id by {
                let si = choose|si: int|
                    0 <= si < prevt.len() && needs_closure(#[trigger] prevt[si], items)
                        && prev[j] == closed_row(prevt[si], now) && prev[j].id == prevt[si].id;
                assert(si < slast);
            }
            assert forall|s: int|
                0 <= s < tasks.len() && needs_closure(#[trigger] tasks[s], items) implies
                cur.contains(closed_row(tasks[s], now)) by {
                if s < slast {
                    let v = closed_row(tasks[s], now);
                    assert(prev.contains(v));
                    let j = choose|j: int| 0 <= j < prev.len() && prev[j] == v;
                    assert(cur[j] == v);
                } else {
                    assert(cur[cur.len() - 1] == closed_row(lastt, now));
                }
            }
        } else {
            assert(cur == prev);
            assert forall|j: int| #![trigger cur[j]] 0 <= j < cur.len() implies exists|s: int|
                0 <= s < tasks.len() && needs_closure(#[trigger] tasks[s], items) && cur[j]
                    == closed_row(tasks[s], now) && cur[j].id == tasks[s].id by {
                let si = choose|si: int|
                    0 <= si < prevt.len() && needs_closure(#[trigger] prevt[si], items) && prev[j]
                        == closed_row(prevt[si], now) && prev[j].id == prevt[si].id;
                assert(tasks[si] == prevt[si]);
                assert(needs_closure(tasks[si], items) && cur[j] == closed_row(tasks[si], now)
                    && cur[j].id == tasks[si].id);
            }
            assert forall|s: int|
                0 <= s < tasks.len() && needs_closure(#[trigger] tasks[s], items) implies
                cur.contains(closed_row(tasks[s], now)) by {
                assert(s < slast);
            }
        }
    }
}

/// All update rows of a valid plan carry pairwise distinct task ids: each
/// matched task is rewritten by at most one item, and the closure scan only
/// touches tasks no item matched.
proof fn lemma_plan_updates_unique(
    tasks: Seq<TaskV>,
    projects: Seq<ProjectV>,
    new_projects: Seq<ProjectV>,
    items: Seq<TaggedItem>,
    now: int,
)
    requires
        forall|i1: int, i2: int| 0 <= i1 < i2 < tasks.len() ==> tasks[i1].id != tasks[i2].id,
        forall|k1: int, k2: int|
            0 <= k1 < k2 < items.len() ==> items[k1].0.html_url != items[k2].0.html_url,
    ensures
        forall|j1: int, j2: int|
            0 <= j1 < j2 < (item_updates(tasks, projects, new_projects, items, now)
                + closure_updates(tasks, items, now)).len() ==> (item_updates(
                tasks,
                projects,
                new_projects,
                items,
                now,
            ) + closure_updates(tasks, items, now))[j1].id != (item_updates(
                tasks,
                projects,
                new_projects,
                items,
                now,
            ) + closure_updates(tasks, items, now))[j2].id,
{
    lemma_item_updates_props(tasks, projects, new_projects, items, now);
    lemma_closure_updates_props(tasks, items, now);
    let iu = item_updates(tasks, projects, new_projects, items, now);
    let cu = closure_updates(tasks, items, now);
    let all = iu + cu;
    assert forall|j1: int, j2: int| 0 <= j1 < j2 < all.len() implies all[j1].id != all[j2].id by {
        if j1 < iu.len() && j2 >= iu.len() {
            let (k, m): (int, int) = choose|k: int, m: int|
                #![trigger items[k], tasks[m]]
                0 <= k < items.len() && find_task(tasks, items[k].0.html_url) == Some(m)
                    && item_update(tasks, projects, new_projects, items[k], now) == Some(iu[j1])
                    && iu[j1].id == tasks[m].id;
            let s = choose|s: int|
                0 <= s < tasks.len() && needs_closure(#[trigger] tasks[s], items) && cu[j2
                    - iu.len()] == closed_row(tasks[s], now) && cu[j2 - iu.len()].id == tasks[s].id;
            lemma_find_task_props(tasks, items[k].0.html_url);
            if m == s {
                assert(tasks[s].context_url == Some(items[k].0.html_url));
                assert(url_seen(items, items[k].0.html_url));
                assert(!needs_closure(tasks[s], items));
            }
            assert(all[j1] == iu[j1] && all[j2] == cu[j2 - iu.len()]);
        } else if j1 < iu.len() {
            assert(all[j1] == iu[j1] && all[j2] == iu[j2]);
        } else {
            assert(all[j1] == cu[j1 - iu.len()] && all[j2] == cu[j2 - iu.len()]);
        }
    }
}

/// Searching the latest project of a concatenation: the appended part wins.
proof fn lemma_last_project_named_concat(a: Seq<ProjectV>, b: Seq<ProjectV>, name: Seq<char>)
    ensures
        last_project_named(a + b, name) == match last_project_named(b, name) {
            Some(p) => Some(p),
            None => last_project_named(a, name),
        },
    decreases b.len(),
{
    if b.len() == 0 {
        assert(a + b =~= a);
    } else {
        assert((a + b).last() == b.last());
        assert((a + b).drop_last() =~= a + b.drop_last());
        lemma_last_project_named_concat(a, b.drop_last(), name);
    }
}

/// A collection holding the name resolves it.
proof fn lemma_exists_name_last(projects: Seq<ProjectV>, name: Seq<char>)
    requires
        exists|j: int| 0 <= j < projects.len() && (#[trigger] projects[j]).name == name,
    ensures
        last_project_named(projects, name) is Some,
{
    lemma_last_project_named_props(projects, name);
    if last_project_named(projects, name) is None {
        let j = choose|j: int| 0 <= j < projects.len() && (#[trigger] projects[j]).name == name;
        assert(projects[j].name != name);
    }
}

/// A batch holding the name resolves it.
proof fn lemma_exists_name_first(projects: Seq<ProjectV>, name: Seq<char>)
    requires
        exists|j: int| 0 <= j < projects.len() && (#[trigger] projects[j]).name == name,
    ensures
        first_project_named(projects, name) is Some,
{
    lemma_first_project_named_props(projects, name);
    if first_project_named(projects, name) is None {
        let j = choose|j: int| 0 <= j < projects.len() && (#[trigger] projects[j]).name == name;
        assert(projects[j].name != name);
    }
}

/// The provisioned container names are pairwise distinct: one batch never
/// creates two projects for the same container.
pub proof fn lemma_new_containers_distinct(projects: Seq<ProjectV>, items: Seq<TaggedItem>)
    ensures
        forall|j1: int, j2: int|
            0 <= j1 < j2 < new_containers(projects, items).len() ==> new_containers(
                projects,
                items,
            )[j1] != new_containers(projects, items)[j2],
    decreases items.len(),
{
    if items.len() > 0 {
        lemma_new_containers_distinct(projects, items.drop_last());
        let prev = new_containers(projects, items.drop_last());
        let cur = new_containers(projects, items);
        let c = spec_repo_name(items.last().0);
        if !known_container(projects, c) && !prev.contains(c) {
            assert forall|j1: int, j2: int| 0 <= j1 < j2 < cur.len() implies cur[j1] != cur[j2] by {
                if j2 == cur.len() - 1 {
                    assert(cur[j1] == prev[j1]);
                    if prev[j1] == c {
                        assert(prev.contains(c));
                    }
                }
            }
        }
    }
}

/// Provisioned names never collide with an existing project name.
pub proof fn lemma_new_containers_unknown(projects: Seq<ProjectV>, items: Seq<TaggedItem>)
    ensures
        forall|j: int|
            0 <= j < new_containers(projects, items).len() ==> !known_container(
                projects,
                #[trigger] new_containers(projects, items)[j],
            ),
    decreases items.len(),
{
    if items.len() > 0 {
        lemma_new_containers_unknown(projects, items.drop_last());
        let prev = new_containers(projects, items.drop_last());
        let cur = new_containers(projects, items);
        assert forall|j: int| 0 <= j < cur.len() implies !known_container(
            projects,
            #[trigger] cur[j],
        ) by {
            if j < prev.len() {
                assert(cur[j] == prev[j]);
            }
        }
    }
}

/// A prefix's provisioned names are kept.
proof fn lemma_nc_prefix_contains(projects: Seq<ProjectV>, items: Seq<TaggedItem>, c: Seq<char>)
    requires
        items.len() > 0,
        new_containers(projects, items.drop_last()).contains(c),
    ensures
        new_containers(projects, items).contains(c),
{
    let prev = new_containers(projects, items.drop_last());
    let cur = new_containers(projects, items);
    let j = choose|j: int| 0 <= j < prev.len() && prev[j] == c;
    assert(cur[j] == c);
}

/// Every item's container is an existing project name or a provisioned one.
proof fn lemma_nc_covers(projects: Seq<ProjectV>, items: Seq<TaggedItem>)
    ensures
        forall|k: int|
            0 <= k < items.len() ==> known_container(
                projects,
                spec_repo_name(#[trigger] items[k].0),
            ) || new_containers(projects, items).contains(spec_repo_name(items[k].0)),
    decreases items.len(),
{
    if items.len() > 0 {
        lemma_nc_covers(projects, items.drop_last());
        let prev = new_containers(projects, items.drop_last());
        let cur = new_containers(projects, items);
        let c = spec_repo_name(items.last().0);
        assert forall|k: int|
            0 <= k < items.len() implies known_container(
            projects,
            spec_repo_name(#[trigger] items[k].0),
        ) || cur.contains(spec_repo_name(items[k].0)) by {
            if k < items.len() - 1 {
                assert(items.drop_last()[k] == items[k]);
                if !known_container(projects, spec_repo_name(items[k].0)) {
                    lemma_nc_prefix_contains(projects, items, spec_repo_name(items[k].0));
                }
            } else {
                if !known_container(projects, c) {
                    if prev.contains(c) {
                        lemma_nc_prefix_contains(projects, items, c);
                    } else {
                        assert(cur[cur.len() - 1] == c);
                    }
                }
            }
        }
    }
}

/// When every container is already a project name, nothing is provisioned.
proof fn lemma_nc_empty_when_known(projects: Seq<ProjectV>, items: Seq<TaggedItem>)
    requires
        forall|k: int|
            0 <= k < items.len() ==> known_container(
                projects,
                spec_repo_name(#[trigger] items[k].0),
            ),
    ensures
        new_containers(projects, items) == Seq::<Seq<char>>::empty(),
    decreases items.len(),
{
    if items.len() > 0 {
        assert(forall|k: int| 0 <= k < items.drop_last().len() ==> items.drop_last()[k] == items[k]);
        lemma_nc_empty_when_known(projects, items.drop_last());
        assert(known_container(projects, spec_repo_name(items[items.len() - 1].0)));
    }
}

/// Every item that matches no task contributes its entry.
proof fn lemma_unmatched_complete(tasks: Seq<TaskV>, items: Seq<TaggedItem>)
    ensures
        forall|k: int|
            0 <= k < items.len() && find_task(tasks, (#[trigger] items[k]).0.html_url) is None
                ==> unmatched_items(tasks, items).contains(items[k]),
    decreases items.len(),
{
    if items.len() > 0 {
        lemma_unmatched_complete(tasks, items.drop_last());
        let prev = unmatched_items(tasks, items.drop_last());
        let cur = unmatched_items(tasks, items);
        assert forall|k: int|
            0 <= k < items.len() && find_task(tasks, (#[trigger] items[k]).0.html_url) is None
            implies cur.contains(items[k]) by {
            if k < items.len() - 1 {
                assert(items.drop_last()[k] == items[k]);
                assert(prev.contains(items[k]));
                let j = choose|j: int| 0 <= j < prev.len() && prev[j] == items[k];
                assert(cur[j] == items[k]);
            } else {
                assert(cur[cur.len() - 1] == items.last());
            }
        }
    }
}

/// When every item matches, nothing is created.
proof fn lemma_unmatched_empty(tasks: Seq<TaskV>, items: Seq<TaggedItem>)
    requires
        forall|k: int|
            0 <= k < items.len() ==> find_task(tasks, (#[trigger] items[k]).0.html_url) is Some,
    ensures
        unmatched_items(tasks, items) == Seq::<TaggedItem>::empty(),
    decreases items.len(),
{
    if items.len() > 0 {
        assert(forall|k: int| 0 <= k < items.drop_last().len() ==> items.drop_last()[k] == items[k]);
        lemma_unmatched_empty(tasks, items.drop_last());
        assert(find_task(tasks, items[items.len() - 1].0.html_url) is Some);
    }
}

/// When no matched item needs a rewrite, no rows are written.
proof fn lemma_item_updates_empty(
    tasks: Seq<TaskV>,
    projects: Seq<ProjectV>,
    new_projects: Seq<ProjectV>,
    items: Seq<TaggedItem>,
    now: int,
)
    requires
        forall|k: int|
            0 <= k < items.len() ==> item_update(
                tasks,
                projects,
                new_projects,
                #[trigger] items[k],
                now,
            ) is None,
    ensures
        item_updates(tasks, projects, new_projects, items, now) == Seq::<TaskV>::empty(),
    decreases items.len(),
{
    if items.len() > 0 {
        assert(forall|k: int| 0 <= k < items.drop_last().len() ==> items.drop_last()[k] == items[k]);
        lemma_item_updates_empty(tasks, projects, new_projects, items.drop_last(), now);
        assert(item_update(tasks, projects, new_projects, items[items.len() - 1], now) is None);
    }
}

/// When no task needs closing, the closure scan writes nothing.
proof fn lemma_closure_updates_empty(tasks: Seq<TaskV>, items: Seq<TaggedItem>, now: int)
    requires
        forall|s: int| 0 <= s < tasks.len() ==> !needs_closure(#[trigger] tasks[s], items),
    ensures
        closure_updates(tasks, items, now) == Seq::<TaskV>::empty(),
    decreases tasks.len(),
{
    if tasks.len() > 0 {
        assert(forall|i: int| 0 <= i < tasks.drop_last().len() ==> tasks.drop_last()[i] == tasks[i]);
        lemma_closure_updates_empty(tasks.drop_last(), items, now);
        assert(!needs_closure(tasks[tasks.len() - 1], items));
    }
}

/// Under a valid plan every container resolves to a project id: existing
/// projects cover the known names and the batch covers the rest.
proof fn lemma_plan_lookup_resolves(
    tasks: Seq<TaskV>,
    projects: Seq<ProjectV>,
    items: Seq<TaggedItem>,
    now: int,
    plan: PlanV,
)
    requires
        valid_plan(tasks, projects, items, now, plan),
    ensures
        forall|k: int|
            0 <= k < items.len() ==> lookup_pid(
                projects,
                plan.new_projects,
                spec_repo_name(#[trigger] items[k].0),
            ) is Some,
{
    lemma_nc_covers(projects, items);
    let ncs = new_containers(projects, items);
    assert forall|k: int|
        0 <= k < items.len() implies lookup_pid(
        projects,
        plan.new_projects,
        spec_repo_name(#[trigger] items[k].0),
    ) is Some by {
        let c = spec_repo_name(items[k].0);
        if !known_container(projects, c) {
            assert(ncs.contains(c));
            let j = choose|j: int| 0 <= j < ncs.len() && ncs[j] == c;
            assert(made_project(plan.new_projects[j], ncs[j], max_project_order(projects) + 1 + j, now));
            assert(plan.new_projects[j].name == c);
            lemma_exists_name_first(plan.new_projects, c);
        }
    }
}

/// New-project provisioning: remote items sharing a container name yield
/// one new local project at most — the batch's project names are pairwise
/// distinct and never duplicate an existing project's name.
pub proof fn lemma_no_duplicate_projects(
    tasks: Seq<TaskV>,
    projects: Seq<ProjectV>,
    items: Seq<TaggedItem>,
    now: int,
    plan: PlanV,
)
    requires
        valid_plan(tasks, projects, items, now, plan),
    ensures
        forall|j1: int, j2: int|
            0 <= j1 < j2 < plan.new_projects.len() ==> plan.new_projects[j1].name
                != plan.new_projects[j2].name,
        forall|j: int|
            0 <= j < plan.new_projects.len() ==> !known_container(
                projects,
                (#[trigger] plan.new_projects[j]).name,
            ),
{
    lemma_new_containers_distinct(projects, items);
    lemma_new_containers_unknown(projects, items);
    let ncs = new_containers(projects, items);
    assert forall|j1: int, j2: int|
        0 <= j1 < j2 < plan.new_projects.len() implies plan.new_projects[j1].name
        != plan.new_projects[j2].name by {
        assert(made_project(plan.new_projects[j1], ncs[j1], max_project_order(projects) + 1 + j1, now));
        assert(made_project(plan.new_projects[j2], ncs[j2], max_project_order(projects) + 1 + j2, now));
    }
    assert forall|j: int| 0 <= j < plan.new_projects.len() implies !known_container(
        projects,
        (#[trigger] plan.new_projects[j]).name,
    ) by {
        assert(made_project(plan.new_projects[j], ncs[j], max_project_order(projects) + 1 + j, now));
    }
}

/// Closure detection: a local remote-origin task whose canonical URL has
/// disappeared from the open-item snapshot comes out of one pass Completed,
/// with its completion stamp set.
pub proof fn lemma_closure_detection(
    tasks: Seq<TaskV>,
    projects: Seq<ProjectV>,
    items: Seq<TaggedItem>,
    now: int,
    plan: PlanV,
    i: int,
)
    requires
        valid_plan(tasks, projects, items, now, plan),
        forall|i1: int, i2: int| 0 <= i1 < i2 < tasks.len() ==> tasks[i1].id != tasks[i2].id,
        forall|k1: int, k2: int|
            0 <= k1 < k2 < items.len() ==> items[k1].0.html_url != items[k2].0.html_url,
        0 <= i < tasks.len(),
        tasks[i].context_url is Some,
        contains_seq(tasks[i].context_url->Some_0, "github.com"@),
        !url_seen(items, tasks[i].context_url->Some_0),
        tasks[i].status != TaskStatus::Completed,
    ensures
        spec_apply_plan(tasks, projects, plan).0[i].status == TaskStatus::Completed,
        spec_apply_plan(tasks, projects, plan).0[i].completed_at == Some(now),
{
    let iu = item_updates(tasks, projects, plan.new_projects, items, now);
    let cu = closure_updates(tasks, items, now);
    let upds = plan.task_updates;
    assert(upds == iu + cu);
    lemma_closure_updates_props(tasks, items, now);
    assert(needs_closure(tasks[i], items));
    assert(cu.contains(closed_row(tasks[i], now)));
    let j0 = choose|j0: int| 0 <= j0 < cu.len() && cu[j0] == closed_row(tasks[i], now);
    assert(upds[iu.len() + j0] == closed_row(tasks[i], now));
    lemma_plan_updates_unique(tasks, projects, plan.new_projects, items, now);
    lemma_apply_updates_unique(tasks, upds);
    assert(upds[iu.len() + j0].id == tasks[i].id);
    let t2a = apply_updates(tasks, upds);
    assert(t2a[i] == closed_row(tasks[i], now));
    assert(spec_apply_plan(tasks, projects, plan).0[i] == t2a[i]);
}

/// The completion invariant survives a pass: when every local task is
/// Completed exactly if its completion stamp is set, every task of the
/// merged result is too.
pub proof fn lemma_reconcile_preserves_completion(
    tasks: Seq<TaskV>,
    projects: Seq<ProjectV>,
    items: Seq<TaggedItem>,
    now: int,
    plan: PlanV,
)
    requires
        valid_plan(tasks, projects, items, now, plan),
        forall|i: int| 0 <= i < tasks.len() ==> (#[trigger] tasks[i]).completion_consistent(),
    ensures
        forall|i: int|
            0 <= i < spec_apply_plan(tasks, projects, plan).0.len() ==> (#[trigger] spec_apply_plan(
                tasks,
                projects,
                plan,
            ).0[i]).completion_consistent(),
{
    let iu = item_updates(tasks, projects, plan.new_projects, items, now);
    let cu = closure_updates(tasks, items, now);
    let upds = plan.task_updates;
    assert(upds == iu + cu);
    lemma_item_updates_props_weak(tasks, projects, plan.new_projects, items, now);
    lemma_closure_updates_props_weak(tasks, items, now);
    lemma_apply_updates_cases(tasks, upds);
    let t2a = apply_updates(tasks, upds);
    let uns = unmatched_items(tasks, items);
    assert forall|j: int| 0 <= j < upds.len() implies (
    #[trigger] upds[j]).completion_consistent() by {
        if j < iu.len() {
            assert(upds[j] == iu[j]);
        } else {
            assert(upds[j] == cu[j - iu.len()]);
        }
    }
    assert forall|i: int|
        0 <= i < spec_apply_plan(tasks, projects, plan).0.len() implies (#[trigger] spec_apply_plan(
        tasks,
        projects,
        plan,
    ).0[i]).completion_consistent() by {
        if i < tasks.len() {
            assert(spec_apply_plan(tasks, projects, plan).0[i] == t2a[i]);
            if t2a[i] != tasks[i] {
                let j = choose|j: int| 0 <= j < upds.len() && t2a[i] == #[trigger] upds[j];
                assert(upds[j].completion_consistent());
            }
        } else {
            let j = i - tasks.len();
            assert(spec_apply_plan(tasks, projects, plan).0[i] == plan.new_tasks[j]);
            assert(made_task(
                plan.new_tasks[j],
                uns[j].0,
                uns[j].1,
                spec_repo_name(uns[j].0),
                lookup_pid(projects, plan.new_projects, spec_repo_name(uns[j].0)),
                max_task_order(tasks) + 1 + j,
                now,
            ));
        }
    }
}

/// Every matched-item rewrite row keeps the completion invariant of its
/// source: a remote close stamps both fields, a project attachment touches
/// neither.
proof fn lemma_item_updates_props_weak(
    tasks: Seq<TaskV>,
    projects: Seq<ProjectV>,
    new_projects: Seq<ProjectV>,
    items: Seq<TaggedItem>,
    now: int,
)
    requires
        forall|i: int| 0 <= i < tasks.len() ==> (#[trigger] tasks[i]).completion_consistent(),
    ensures
        forall|j: int|
            0 <= j < item_updates(tasks, projects, new_projects, items, now).len() ==> (
            #[trigger] item_updates(tasks, projects, new_projects, items, now)[j])
                .completion_consistent(),
    decreases items.len(),
{
    if items.len() > 0 {
        lemma_item_updates_props_weak(tasks, projects, new_projects, items.drop_last(), now);
        let prev = item_updates(tasks, projects, new_projects, items.drop_last(), now);
        let cur = item_updates(tasks, projects, new_projects, items, now);
        match item_update(tasks, projects, new_projects, items.last(), now) {
            Some(u) => {
                lemma_find_task_props(tasks, items.last().0.html_url);
                assert(u.completion_consistent());
                assert forall|j: int| 0 <= j < cur.len() implies (
                #[trigger] cur[j]).completion_consistent() by {
                    if j < prev.len() {
                        assert(cur[j] == prev[j]);
                    } else {
                        assert(cur[j] == u);
                    }
                }
            },
            None => {
                assert(cur == prev);
            },
        }
    }
}

/// Every closure row keeps the completion invariant: it stamps both fields.
proof fn lemma_closure_updates_props_weak(tasks: Seq<TaskV>, items: Seq<TaggedItem>, now: int)
    ensures
        forall|j: int|
            0 <= j < closure_updates(tasks, items, now).len() ==> (#[trigger] closure_updates(
                tasks,
                items,
                now,
            )[j]).completion_consistent(),
    decreases tasks.len(),
{
    if tasks.len() > 0 {
        lemma_closure_updates_props_weak(tasks.drop_last(), items, now);
        let prev = closure_updates(tasks.drop_last(), items, now);
        let cur = closure_updates(tasks, items, now);
        if needs_closure(tasks.last(), items) {
            assert forall|j: int| 0 <= j < cur.len() implies (
            #[trigger] cur[j]).completion_consistent() by {
                if j < prev.len() {
                    assert(cur[j] == prev[j]);
                } else {
                    assert(cur[j] == closed_row(tasks.last(), now));
                }
            }
        } else {
            assert(cur == prev);
        }
    }
}

/// Idempotence: running the same snapshot twice is a no-op the second time.
/// Given one pass's plan and its applied state, any valid plan for a second
/// pass over the same snapshot is empty, and applying it changes nothing:
/// no new tasks or projects, no rewritten rows, no changed stamps.  This
/// holds whenever local task ids are unique and the snapshot lists each
/// canonical URL once, all as open items — which is what the remote source
/// delivers, since it only ever returns open items.
pub proof fn lemma_reconcile_idempotent(
    tasks: Seq<TaskV>,
    projects: Seq<ProjectV>,
    items: Seq<TaggedItem>,
    now1: int,
    plan1: PlanV,
    now2: int,
    plan2: PlanV,
)
    requires
        valid_plan(tasks, projects, items, now1, plan1),
        valid_plan(
            spec_apply_plan(tasks, projects, plan1).0,
            spec_apply_plan(tasks, projects, plan1).1,
            items,
            now2,
            plan2,
        ),
        forall|i1: int, i2: int| 0 <= i1 < i2 < tasks.len() ==> tasks[i1].id != tasks[i2].id,
        forall|k1: int, k2: int|
            0 <= k1 < k2 < items.len() ==> items[k1].0.html_url != items[k2].0.html_url,
        forall|k: int| 0 <= k < items.len() ==> (#[trigger] items[k]).0.state != "closed"@,
    ensures
        plan2.new_projects == Seq::<ProjectV>::empty(),
        plan2.new_tasks == Seq::<TaskV>::empty(),
        plan2.task_updates == Seq::<TaskV>::empty(),
        spec_apply_plan(
            spec_apply_plan(tasks, projects, plan1).0,
            spec_apply_plan(tasks, projects, plan1).1,
            plan2,
        ).0 == spec_apply_plan(tasks, projects, plan1).0,
        spec_apply_plan(
            spec_apply_plan(tasks, projects, plan1).0,
            spec_apply_plan(tasks, projects, plan1).1,
            plan2,
        ).1 == spec_apply_plan(tasks, projects, plan1).1,
{
    let iu = item_updates(tasks, projects, plan1.new_projects, items, now1);
    let cu = closure_updates(tasks, items, now1);
    let upds = plan1.task_updates;
    assert(upds == iu + cu);
    let t2a = apply_updates(tasks, upds);
    let t2 = spec_apply_plan(tasks, projects, plan1).0;
    let p2 = spec_apply_plan(tasks, projects, plan1).1;
    assert(t2 == t2a + plan1.new_tasks);
    assert(p2 == projects + plan1.new_projects);
    let ncs = new_containers(projects, items);
    let uns = unmatched_items(tasks, items);
    let base_p = max_project_order(projects);
    let base_t = max_task_order(tasks);

    lemma_plan_updates_unique(tasks, projects, plan1.new_projects, items, now1);
    lemma_apply_updates_unique(tasks, upds);
    lemma_apply_updates_id(tasks, upds);
    lemma_item_updates_props(tasks, projects, plan1.new_projects, items, now1);
    lemma_closure_updates_props(tasks, items, now1);
    lemma_plan_lookup_resolves(tasks, projects, items, now1, plan1);
    lemma_unmatched_complete(tasks, items);
    lemma_unmatched_membership(tasks, items);
    lemma_nc_covers(projects, items);

    // no update row carries the id of a task whose URL is absent from the
    // snapshot and which is already completed; and rewritten rows keep
    // their row's context URL
    assert forall|i: int| 0 <= i < tasks.len() implies #[trigger] t2a[i].context_url
        == tasks[i].context_url by {
        if t2a[i] != tasks[i] {
            lemma_row_for_id(tasks, projects, plan1.new_projects, items, now1, i);
        }
    }

    // Step A: every container now names a project, so none is provisioned.
    assert forall|k: int| 0 <= k < items.len() implies known_container(
        p2,
        spec_repo_name(#[trigger] items[k].0),
    ) by {
        let c = spec_repo_name(items[k].0);
        lemma_last_project_named_concat(projects, plan1.new_projects, c);
        if !known_container(projects, c) {
            assert(ncs.contains(c));
            let j = choose|j: int| 0 <= j < ncs.len() && ncs[j] == c;
            assert(made_project(plan1.new_projects[j], ncs[j], base_p + 1 + j, now1));
            lemma_exists_name_last(plan1.new_projects, c);
        }
    }
    lemma_nc_empty_when_known(p2, items);
    assert(plan2.new_projects.len() == 0);
    assert(plan2.new_projects =~= Seq::<ProjectV>::empty());

    // Step B: every URL now matches a task, so none is created.
    assert forall|k: int| 0 <= k < items.len() implies find_task(
        t2,
        (#[trigger] items[k]).0.html_url,
    ) is Some by {
        let url = items[k].0.html_url;
        lemma_find_task_same_urls(tasks, t2a, url);
        lemma_find_task_concat(t2a, plan1.new_tasks, url);
        if find_task(tasks, url) is None {
            assert(uns.contains(items[k]));
            let j = choose|j: int| 0 <= j < uns.len() && uns[j] == items[k];
            assert(made_task(
                plan1.new_tasks[j],
                uns[j].0,
                uns[j].1,
                spec_repo_name(uns[j].0),
                lookup_pid(projects, plan1.new_projects, spec_repo_name(uns[j].0)),
                base_t + 1 + j,
                now1,
            ));
            assert(plan1.new_tasks[j].context_url == Some(url));
            lemma_find_task_exists(plan1.new_tasks, url);
        }
    }
    lemma_unmatched_empty(t2, items);
    assert(plan2.new_tasks.len() == 0);
    assert(plan2.new_tasks =~= Seq::<TaskV>::empty());

    // Step C: no matched item needs a rewrite any more.
    assert forall|k: int| 0 <= k < items.len() implies item_update(
        t2,
        p2,
        plan2.new_projects,
        #[trigger] items[k],
        now2,
    ) is None by {
        let url = items[k].0.html_url;
        let c = spec_repo_name(items[k].0);
        lemma_find_task_props(t2, url);
        lemma_find_task_same_urls(tasks, t2a, url);
        lemma_find_task_concat(t2a, plan1.new_tasks, url);
        let m2 = find_task(t2, url)->Some_0;
        assert(items[k].0.state != "closed"@);
        // the matched task has a project after the first pass
        match find_task(tasks, url) {
            Some(m) => {
                assert(m2 == m);
                lemma_find_task_props(tasks, url);
                assert(t2[m2] == t2a[m]);
                if tasks[m].project_id is Some {
                    if t2a[m] != tasks[m] {
                        lemma_row_for_id(tasks, projects, plan1.new_projects, items, now1, m);
                    }
                    assert(t2a[m].project_id is Some);
                } else {
                    assert(lookup_pid(projects, plan1.new_projects, c) is Some);
                    let u = item_update(tasks, projects, plan1.new_projects, items[k], now1)->Some_0;
                    assert(item_update(tasks, projects, plan1.new_projects, items[k], now1)
                        == Some(u));
                    assert(u.project_id is Some);
                    assert(iu.contains(u));
                    let j0 = choose|j0: int| 0 <= j0 < iu.len() && iu[j0] == u;
                    assert(upds[j0] == u);
                    assert(u.id == tasks[m].id);
                    assert(t2a[m] == u);
                }
            },
            None => {
                assert(find_task(t2a, url) == find_task(tasks, url));
                assert(find_task(t2a, url) is None);
                assert(find_task(t2, url) is Some);
                assert(find_task(plan1.new_tasks, url) is Some);
                lemma_find_task_props(plan1.new_tasks, url);
                assert(m2 == find_task(plan1.new_tasks, url)->Some_0 + t2a.len());
                assert(m2 >= t2a.len());
                let j2 = m2 - t2a.len();
                assert(t2[m2] == plan1.new_tasks[j2]);
                assert(made_task(
                    plan1.new_tasks[j2],
                    uns[j2].0,
                    uns[j2].1,
                    spec_repo_name(uns[j2].0),
                    lookup_pid(projects, plan1.new_projects, spec_repo_name(uns[j2].0)),
                    base_t + 1 + j2,
                    now1,
                ));
                assert(plan1.new_tasks[j2].context_url == Some(uns[j2].0.html_url));
                assert(t2[m2].context_url == Some(url));
                assert(uns[j2].0.html_url == url);
                assert(items.contains(uns[j2]));
                let kk = choose|kk: int| 0 <= kk < items.len() && items[kk] == uns[j2];
                assert(items[kk].0.html_url == url);
                assert(kk == k);
                assert(t2[m2].project_id == lookup_pid(projects, plan1.new_projects, c));
                assert(lookup_pid(projects, plan1.new_projects, c) is Some);
            },
        }
        assert(t2[m2].project_id is Some);
    }
    lemma_item_updates_empty(t2, p2, plan2.new_projects, items, now2);

    // Step D: no task needs closing any more.
    assert forall|s2: int| 0 <= s2 < t2.len() implies !needs_closure(
        #[trigger] t2[s2],
        items,
    ) by {
        if s2 >= t2a.len() {
            let j = s2 - t2a.len();
            assert(made_task(
                plan1.new_tasks[j],
                uns[j].0,
                uns[j].1,
                spec_repo_name(uns[j].0),
                lookup_pid(projects, plan1.new_projects, spec_repo_name(uns[j].0)),
                base_t + 1 + j,
                now1,
            ));
            assert(t2[s2] == plan1.new_tasks[j]);
            assert(items.contains(uns[j]));
            let kk = choose|kk: int| 0 <= kk < items.len() && items[kk] == uns[j];
            assert(url_seen(items, uns[j].0.html_url));
        } else {
            let i = s2;
            assert(t2[s2] == t2a[i]);
            match tasks[i].context_url {
                Some(u) => {
                    if contains_seq(u, "github.com"@) && !url_seen(items, u) {
                        if tasks[i].status == TaskStatus::Completed {
                            lemma_no_row_for_unseen_completed(
                                tasks,
                                projects,
                                plan1.new_projects,
                                items,
                                now1,
                                i,
                            );
                            assert(t2a[i] == tasks[i]);
                        } else {
                            assert(needs_closure(tasks[i], items));
                            assert(cu.contains(closed_row(tasks[i], now1)));
                            let j0 = choose|j0: int|
                                0 <= j0 < cu.len() && cu[j0] == closed_row(tasks[i], now1);
                            assert(upds[iu.len() + j0] == closed_row(tasks[i], now1));
                            assert(upds[iu.len() + j0].id == tasks[i].id);
                            assert(t2a[i] == closed_row(tasks[i], now1));
                        }
                        assert(t2a[i].status == TaskStatus::Completed);
                    }
                },
                None => {},
            }
        }
    }
    lemma_closure_updates_empty(t2, items, now2);
    assert(plan2.task_updates =~= Seq::<TaskV>::empty());
    assert(apply_updates(t2, plan2.task_updates) == t2);
    assert(spec_apply_plan(t2, p2, plan2).0 =~= t2);
    assert(spec_apply_plan(t2, p2, plan2).1 =~= p2);
}

/// The update row carrying a task's id, if any, is derived from that very
/// task: it keeps the task's context URL, and it keeps the project
/// reference when one was set.
proof fn lemma_row_for_id(
    tasks: Seq<TaskV>,
    projects: Seq<ProjectV>,
    new_projects: Seq<ProjectV>,
    items: Seq<TaggedItem>,
    now: int,
    i: int,
)
    requires
        forall|i1: int, i2: int| 0 <= i1 < i2 < tasks.len() ==> tasks[i1].id != tasks[i2].id,
        forall|k1: int, k2: int|
            0 <= k1 < k2 < items.len() ==> items[k1].0.html_url != items[k2].0.html_url,
        0 <= i < tasks.len(),
    ensures
        forall|j: int|
            0 <= j < (item_updates(tasks, projects, new_projects, items, now) + closure_updates(
                tasks,
                items,
                now,
            )).len() && (#[trigger] (item_updates(tasks, projects, new_projects, items, now)
                + closure_updates(tasks, items, now))[j]).id == tasks[i].id ==> (item_updates(
                tasks,
                projects,
                new_projects,
                items,
                now,
            ) + closure_updates(tasks, items, now))[j].context_url == tasks[i].context_url && (
            tasks[i].project_id is Some ==> (item_updates(tasks, projects, new_projects, items, now)
                + closure_updates(tasks, items, now))[j].project_id == tasks[i].project_id),
        apply_updates(
            tasks,
            item_updates(tasks, projects, new_projects, items, now) + closure_updates(
                tasks,
                items,
                now,
            ),
        )[i].context_url == tasks[i].context_url,
        tasks[i].project_id is Some ==> apply_updates(
            tasks,
            item_updates(tasks, projects, new_projects, items, now) + closure_updates(
                tasks,
                items,
                now,
            ),
        )[i].project_id is Some,
{
    let iu = item_updates(tasks, projects, new_projects, items, now);
    let cu = closure_updates(tasks, items, now);
    let upds = iu + cu;
    lemma_item_updates_props(tasks, projects, new_projects, items, now);
    lemma_closure_updates_props(tasks, items, now);
    lemma_plan_updates_unique(tasks, projects, new_projects, items, now);
    lemma_apply_updates_unique(tasks, upds);
    lemma_apply_updates_cases(tasks, upds);
    assert forall|j: int|
        0 <= j < upds.len() && (#[trigger] upds[j]).id == tasks[i].id implies upds[j].context_url
        == tasks[i].context_url && (tasks[i].project_id is Some ==> upds[j].project_id
        == tasks[i].project_id) by {
        if j < iu.len() {
            assert(upds[j] == iu[j]);
            let (k, m): (int, int) = choose|k: int, m: int|
                #![trigger items[k], tasks[m]]
                0 <= k < items.len() && find_task(tasks, items[k].0.html_url) == Some(m)
                    && item_update(tasks, projects, new_projects, items[k], now) == Some(iu[j])
                    && iu[j].id == tasks[m].id;
            lemma_find_task_props(tasks, items[k].0.html_url);
            if m != i {
                assert(tasks[m].id != tasks[i].id);
            }
            assert(m == i);
        } else {
            assert(upds[j] == cu[j - iu.len()]);
            let si = choose|si: int|
                0 <= si < tasks.len() && needs_closure(#[trigger] tasks[si], items) && cu[j
                    - iu.len()] == closed_row(tasks[si], now) && cu[j - iu.len()].id
                    == tasks[si].id;
            if si != i {
                assert(tasks[si].id != tasks[i].id);
            }
            assert(si == i);
        }
    }
    let fin = apply_updates(tasks, upds);
    if fin[i] != tasks[i] {
        let j = choose|j: int| 0 <= j < upds.len() && fin[i] == #[trigger] upds[j];
        lemma_apply_updates_id(tasks, upds);
        assert(upds[j].id == tasks[i].id);
    }
}

/// A completed task whose URL is absent from the snapshot is rewritten by
/// no row: items only rewrite tasks whose URL the snapshot lists, and the
/// closure scan skips completed tasks.
proof fn lemma_no_row_for_unseen_completed(
    tasks: Seq<TaskV>,
    projects: Seq<ProjectV>,
    new_projects: Seq<ProjectV>,
    items: Seq<TaggedItem>,
    now: int,
    i: int,
)
    requires
        forall|i1: int, i2: int| 0 <= i1 < i2 < tasks.len() ==> tasks[i1].id != tasks[i2].id,
        forall|k1: int, k2: int|
            0 <= k1 < k2 < items.len() ==> items[k1].0.html_url != items[k2].0.html_url,
        0 <= i < tasks.len(),
        tasks[i].context_url is Some,
        !url_seen(items, tasks[i].context_url->Some_0),
        tasks[i].status == TaskStatus::Completed,
    ensures
        apply_updates(
            tasks,
            item_updates(tasks, projects, new_projects, items, now) + closure_updates(
                tasks,
                items,
                now,
            ),
        )[i] == tasks[i],
{
    let iu = item_updates(tasks, projects, new_projects, items, now);
    let cu = closure_updates(tasks, items, now);
    let upds = iu + cu;
    lemma_item_updates_props(tasks, projects, new_projects, items, now);
    lemma_closure_updates_props(tasks, items, now);
    lemma_plan_updates_unique(tasks, projects, new_projects, items, now);
    lemma_apply_updates_unique(tasks, upds);
    assert forall|j: int| 0 <= j < upds.len() implies (#[trigger] upds[j]).id != tasks[i].id by {
        if j < iu.len() {
            assert(upds[j] == iu[j]);
            let (k, m): (int, int) = choose|k: int, m: int|
                #![trigger items[k], tasks[m]]
                0 <= k < items.len() && find_task(tasks, items[k].0.html_url) == Some(m)
                    && item_update(tasks, projects, new_projects, items[k], now) == Some(iu[j])
                    && iu[j].id == tasks[m].id;
            lemma_find_task_props(tasks, items[k].0.html_url);
            if m == i {
                assert(tasks[i].context_url == Some(items[k].0.html_url));
                assert(url_seen(items, items[k].0.html_url));
            }
            assert(m != i);
            assert(tasks[m].id != tasks[i].id);
        } else {
            assert(upds[j] == cu[j - iu.len()]);
            let si = choose|si: int|
                0 <= si < tasks.len() && needs_closure(#[trigger] tasks[si], items) && cu[j
                    - iu.len()] == closed_row(tasks[si], now) && cu[j - iu.len()].id
                    == tasks[si].id;
            if si == i {
                assert(tasks[i].status != TaskStatus::Completed);
            }
            assert(si != i);
            assert(tasks[si].id != tasks[i].id);
        }
    }
}

} // verus!
