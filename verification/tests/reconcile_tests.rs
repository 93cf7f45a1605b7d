use phitodo::model::{Project, Task, TaskKind, TaskStatus};
use phitodo::reconcile::{apply_plan, reconcile_plan, sync_github_to_tasks, ReconcilePlan};
use phitodo::remote::{GitHubData, GitHubIssue, GitHubRepository};

fn issue(id: i64, url: &str, repo: &str, title: &str, state: &str) -> GitHubIssue {
    GitHubIssue {
        id,
        number: id,
        title: title.to_string(),
        html_url: url.to_string(),
        state: state.to_string(),
        body: None,
        repository: Some(GitHubRepository { full_name: repo.to_string() }),
        repository_url: None,
        user: None,
        pull_request: false,
    }
}

fn snapshot(issues: Vec<GitHubIssue>) -> GitHubData {
    GitHubData { review_prs: Vec::new(), my_prs: Vec::new(), assigned_issues: issues }
}

const NOW: i64 = 1_700_000_000_000;

#[test]
fn new_remote_issue_becomes_inbox_task_with_new_project() {
    let tasks: Vec<Task> = Vec::new();
    let projects: Vec<Project> = Vec::new();
    let data = snapshot(vec![issue(1, "https://x/o/r/issues/1", "o/r", "Fix bug", "open")]);
    let plan = reconcile_plan(&tasks, &projects, &data, NOW);
    assert_eq!(plan.new_projects.len(), 1);
    assert_eq!(plan.new_projects[0].name, "o/r");
    assert_eq!(plan.new_projects[0].icon.as_deref(), Some(""));
    assert_eq!(plan.new_tasks.len(), 1);
    assert_eq!(plan.task_updates.len(), 0);
    let t = &plan.new_tasks[0];
    assert_eq!(t.title, "Fix bug");
    assert_eq!(t.status, TaskStatus::Inbox);
    assert_eq!(t.context_url.as_deref(), Some("https://x/o/r/issues/1"));
    assert_eq!(t.project_id.as_deref(), Some(plan.new_projects[0].id.as_str()));
    assert_eq!(t.kind, Some(TaskKind::GhIssue));
    assert_eq!(
        t.metadata,
        vec![
            ("github_id".to_string(), "1".to_string()),
            ("github_type".to_string(), "issue".to_string()),
            ("github_repo".to_string(), "o/r".to_string()),
        ]
    );
    let (tasks2, projects2) = apply_plan(&tasks, &projects, &plan);
    assert_eq!(tasks2.len(), 1);
    assert_eq!(projects2.len(), 1);
    assert_eq!(projects2[0].name, "o/r");
}

#[test]
fn two_items_in_one_container_provision_one_project() {
    let tasks: Vec<Task> = Vec::new();
    let projects: Vec<Project> = Vec::new();
    let data = snapshot(vec![
        issue(1, "https://x/o/r/issues/1", "o/r", "first", "open"),
        issue(2, "https://x/o/r/issues/2", "o/r", "second", "open"),
    ]);
    let plan = reconcile_plan(&tasks, &projects, &data, NOW);
    assert_eq!(plan.new_projects.len(), 1);
    assert_eq!(plan.new_tasks.len(), 2);
    assert_eq!(
        plan.new_tasks[0].project_id, plan.new_tasks[1].project_id,
        "both tasks share the one provisioned project"
    );
}

#[test]
fn existing_project_with_matching_name_is_reused() {
    let tasks: Vec<Task> = Vec::new();
    let mut p = Project::new("o/r".to_string());
    p.order_index = 5;
    let pid = p.id.clone();
    let projects = vec![p];
    let data = snapshot(vec![issue(1, "https://x/o/r/issues/1", "o/r", "first", "open")]);
    let plan = reconcile_plan(&tasks, &projects, &data, NOW);
    assert_eq!(plan.new_projects.len(), 0);
    assert_eq!(plan.new_tasks[0].project_id.as_deref(), Some(pid.as_str()));
}

#[test]
fn matched_open_item_with_project_is_a_no_op() {
    let mut t = Task::new("already here".to_string());
    t.context_url = Some("https://github.com/o/r/issues/7".to_string());
    t.project_id = Some("p1".to_string());
    let tasks = vec![t];
    let projects: Vec<Project> = Vec::new();
    let data = snapshot(vec![issue(7, "https://github.com/o/r/issues/7", "o/r", "x", "open")]);
    let plan = reconcile_plan(&tasks, &projects, &data, NOW);
    assert_eq!(plan.new_tasks.len(), 0);
    assert_eq!(plan.task_updates.len(), 0);
}

#[test]
fn matched_item_without_project_gets_attached() {
    let mut t = Task::new("needs project".to_string());
    t.context_url = Some("https://github.com/o/r/issues/7".to_string());
    let tasks = vec![t];
    let projects: Vec<Project> = Vec::new();
    let data = snapshot(vec![issue(7, "https://github.com/o/r/issues/7", "o/r", "x", "open")]);
    let plan = reconcile_plan(&tasks, &projects, &data, NOW);
    assert_eq!(plan.task_updates.len(), 1);
    assert!(plan.task_updates[0].project_id.is_some());
    assert_eq!(plan.task_updates[0].updated_at, NOW);
    assert_ne!(plan.task_updates[0].status, TaskStatus::Completed);
}

#[test]
fn remotely_closed_match_is_promoted_to_completed() {
    let mut t = Task::new("was open".to_string());
    t.context_url = Some("https://github.com/o/r/issues/7".to_string());
    t.project_id = Some("p1".to_string());
    let tasks = vec![t];
    let projects: Vec<Project> = Vec::new();
    let data = snapshot(vec![issue(7, "https://github.com/o/r/issues/7", "o/r", "x", "closed")]);
    let plan = reconcile_plan(&tasks, &projects, &data, NOW);
    assert_eq!(plan.task_updates.len(), 1);
    assert_eq!(plan.task_updates[0].status, TaskStatus::Completed);
    assert_eq!(plan.task_updates[0].completed_at, Some(NOW));
}

#[test]
fn disappeared_remote_task_is_closed() {
    let mut t = Task::new("vanished upstream".to_string());
    t.context_url = Some("https://github.com/o/r/issues/9".to_string());
    t.status = TaskStatus::Active;
    let tasks = vec![t];
    let projects: Vec<Project> = Vec::new();
    let data = snapshot(Vec::new());
    let plan = reconcile_plan(&tasks, &projects, &data, NOW);
    assert_eq!(plan.task_updates.len(), 1);
    assert_eq!(plan.task_updates[0].status, TaskStatus::Completed);
    assert_eq!(plan.task_updates[0].completed_at, Some(NOW));
    let (tasks2, _) = apply_plan(&tasks, &projects, &plan);
    assert_eq!(tasks2[0].status, TaskStatus::Completed);
    assert!(tasks2[0].completed_at.is_some());
}

#[test]
fn local_tasks_without_remote_origin_are_untouched() {
    let mut t = Task::new("plain local".to_string());
    t.status = TaskStatus::Active;
    let tasks = vec![t];
    let projects: Vec<Project> = Vec::new();
    let data = snapshot(Vec::new());
    let plan = reconcile_plan(&tasks, &projects, &data, NOW);
    assert_eq!(plan.new_projects.len(), 0);
    assert_eq!(plan.new_tasks.len(), 0);
    assert_eq!(plan.task_updates.len(), 0);
}

fn tasks_equal(a: &[Task], b: &[Task]) -> bool {
    a.len() == b.len()
        && a.iter().zip(b.iter()).all(|(x, y)| {
            x.id == y.id && x.title == y.title && x.notes == y.notes && x.status == y.status
                && x.completed_at == y.completed_at && x.updated_at == y.updated_at
                && x.project_id == y.project_id && x.context_url == y.context_url
                && x.order_index == y.order_index && x.metadata == y.metadata
        })
}

fn projects_equal(a: &[Project], b: &[Project]) -> bool {
    a.len() == b.len()
        && a.iter().zip(b.iter()).all(|(x, y)| {
            x.id == y.id && x.name == y.name && x.icon == y.icon && x.order_index == y.order_index
                && x.updated_at == y.updated_at
        })
}

#[test]
fn second_pass_over_same_snapshot_changes_nothing() {
    let mut local = Task::new("mine".to_string());
    local.context_url = Some("https://github.com/o/r/issues/1".to_string());
    let tasks = vec![local];
    let projects: Vec<Project> = Vec::new();
    let data = snapshot(vec![
        issue(1, "https://github.com/o/r/issues/1", "o/r", "mine", "open"),
        issue(2, "https://github.com/o/r/issues/2", "o/r", "new one", "open"),
        issue(3, "https://github.com/q/s/issues/3", "q/s", "other repo", "open"),
    ]);
    let plan1 = reconcile_plan(&tasks, &projects, &data, NOW);
    let (tasks2, projects2) = apply_plan(&tasks, &projects, &plan1);
    let plan2 = reconcile_plan(&tasks2, &projects2, &data, NOW + 60_000);
    assert_eq!(plan2.new_projects.len(), 0, "no duplicate projects on the second pass");
    assert_eq!(plan2.new_tasks.len(), 0, "no duplicate tasks on the second pass");
    assert_eq!(plan2.task_updates.len(), 0, "no rewrites on the second pass");
    let (tasks3, projects3) = apply_plan(&tasks2, &projects2, &plan2);
    assert!(tasks_equal(&tasks2, &tasks3));
    assert!(projects_equal(&projects2, &projects3));
}

#[test]
fn fetch_error_leaves_collections_identical() {
    let mut t = Task::new("untouchable".to_string());
    t.context_url = Some("https://github.com/o/r/issues/1".to_string());
    let tasks = vec![t];
    let projects = vec![Project::new("p".to_string())];
    let fetch: Result<GitHubData, String> = Err("rate limited".to_string());
    let (tasks2, projects2) = sync_github_to_tasks(&tasks, &projects, &fetch, NOW);
    assert!(tasks_equal(&tasks, &tasks2));
    assert!(projects_equal(&projects, &projects2));
    assert_eq!(tasks2[0].status, tasks[0].status, "no spurious mass-closure on a failed fetch");
}

#[test]
fn successful_fetch_runs_the_merge() {
    let tasks: Vec<Task> = Vec::new();
    let projects: Vec<Project> = Vec::new();
    let fetch: Result<GitHubData, String> = Ok(snapshot(vec![issue(
        1,
        "https://x/o/r/issues/1",
        "o/r",
        "Fix bug",
        "open",
    )]));
    let (tasks2, projects2) = sync_github_to_tasks(&tasks, &projects, &fetch, NOW);
    assert_eq!(tasks2.len(), 1);
    assert_eq!(tasks2[0].title, "Fix bug");
    assert_eq!(tasks2[0].status, TaskStatus::Inbox);
    assert!(tasks2[0].context_url.is_some());
    assert_eq!(projects2.len(), 1);
    assert_eq!(projects2[0].name, "o/r");
}

#[test]
fn order_indices_continue_from_the_existing_maximum() {
    let mut t = Task::new("existing".to_string());
    t.order_index = 41;
    let tasks = vec![t];
    let mut p = Project::new("other".to_string());
    p.order_index = 7;
    let projects = vec![p];
    let data = snapshot(vec![
        issue(1, "https://x/o/r/issues/1", "o/r", "a", "open"),
        issue(2, "https://x/o/r/issues/2", "o/r", "b", "open"),
    ]);
    let plan = reconcile_plan(&tasks, &projects, &data, NOW);
    assert_eq!(plan.new_projects[0].order_index, 8);
    assert_eq!(plan.new_tasks[0].order_index, 42);
    assert_eq!(plan.new_tasks[1].order_index, 43);
}

#[test]
fn stream_tagging_assigns_origin_kinds() {
    let tasks: Vec<Task> = Vec::new();
    let projects: Vec<Project> = Vec::new();
    let data = GitHubData {
        review_prs: vec![issue(3, "https://x/o/r/pull/3", "o/r", "review me", "open")],
        my_prs: vec![issue(2, "https://x/o/r/pull/2", "o/r", "my pr", "open")],
        assigned_issues: vec![issue(1, "https://x/o/r/issues/1", "o/r", "my issue", "open")],
    };
    let plan: ReconcilePlan = reconcile_plan(&tasks, &projects, &data, NOW);
    assert_eq!(plan.new_tasks.len(), 3);
    // flattening order: assigned issues, then my pull requests, then reviews
    assert_eq!(plan.new_tasks[0].kind, Some(TaskKind::GhIssue));
    assert_eq!(plan.new_tasks[1].kind, Some(TaskKind::GhPr));
    assert_eq!(plan.new_tasks[2].kind, Some(TaskKind::GhReview));
    assert_eq!(plan.new_tasks[1].metadata[1].1, "my_pr");
    assert_eq!(plan.new_tasks[2].metadata[1].1, "review");
}
