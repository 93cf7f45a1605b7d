use phitodo::classify::{
    filter_anytime, filter_by_project, filter_by_tag, filter_completed, filter_inbox,
    filter_review, filter_today, filter_upcoming, search_tasks,
};
use phitodo::model::{Task, TaskPriority, TaskStatus};
use phitodo::sort::{group_by_date, sort_by_due_date, sort_by_priority};

fn task(title: &str) -> Task {
    Task::new(title.to_string())
}

const TODAY: i64 = 739000;

#[test]
fn task_due_today_is_in_today_not_upcoming() {
    let mut t = task("due today");
    t.due_date = Some(TODAY);
    t.status = TaskStatus::Active;
    let tasks = vec![t];
    assert_eq!(filter_today(&tasks, TODAY).len(), 1);
    assert_eq!(filter_upcoming(&tasks, TODAY).len(), 0);
    assert_eq!(filter_review(&tasks, TODAY).len(), 0);
}

#[test]
fn task_due_yesterday_is_in_today_and_review_not_completed() {
    let mut t = task("overdue");
    t.due_date = Some(TODAY - 1);
    t.status = TaskStatus::Active;
    let tasks = vec![t];
    assert_eq!(filter_today(&tasks, TODAY).len(), 1);
    assert_eq!(filter_review(&tasks, TODAY).len(), 1);
    assert_eq!(filter_completed(&tasks).len(), 0);
}

#[test]
fn task_without_due_date_is_only_in_anytime() {
    let mut t = task("free");
    t.status = TaskStatus::Active;
    let tasks = vec![t];
    assert_eq!(filter_today(&tasks, TODAY).len(), 0);
    assert_eq!(filter_upcoming(&tasks, TODAY).len(), 0);
    assert_eq!(filter_review(&tasks, TODAY).len(), 0);
    assert_eq!(filter_anytime(&tasks).len(), 1);
}

#[test]
fn completed_or_deleted_tasks_leave_anytime() {
    let mut done = task("done");
    done.status = TaskStatus::Completed;
    done.completed_at = Some(1);
    let mut gone = task("gone");
    gone.deleted = true;
    let tasks = vec![done, gone];
    assert_eq!(filter_anytime(&tasks).len(), 0);
    assert_eq!(filter_completed(&tasks).len(), 1);
}

#[test]
fn inbox_filter_keeps_only_live_inbox_tasks() {
    let a = task("in inbox");
    let mut b = task("active");
    b.status = TaskStatus::Active;
    let mut c = task("deleted");
    c.deleted = true;
    let tasks = vec![a, b, c];
    let inbox = filter_inbox(&tasks);
    assert_eq!(inbox.len(), 1);
    assert_eq!(inbox[0].title, "in inbox");
}

#[test]
fn project_and_tag_filters_match_references() {
    let mut a = task("on project");
    a.project_id = Some("p1".to_string());
    let mut b = task("tagged");
    b.tags = vec!["t1".to_string(), "t2".to_string()];
    let tasks = vec![a, b];
    assert_eq!(filter_by_project(&tasks, "p1").len(), 1);
    assert_eq!(filter_by_project(&tasks, "p2").len(), 0);
    assert_eq!(filter_by_tag(&tasks, "t2").len(), 1);
    assert_eq!(filter_by_tag(&tasks, "t3").len(), 0);
}

#[test]
fn search_is_case_insensitive_over_title_and_notes() {
    let mut a = task("Fix the Parser");
    a.notes = Some("tokenizer bug".to_string());
    let b = task("unrelated");
    let tasks = vec![a, b];
    assert_eq!(search_tasks(&tasks, "PARSER").len(), 1);
    assert_eq!(search_tasks(&tasks, "TOKENIZER").len(), 1);
    assert_eq!(search_tasks(&tasks, "nothing").len(), 0);
}

#[test]
fn due_date_sort_puts_dateless_last_and_breaks_ties_by_order() {
    let mut a = task("late");
    a.due_date = Some(TODAY + 5);
    let mut b = task("none-2");
    b.order_index = 2;
    let mut c = task("early");
    c.due_date = Some(TODAY - 5);
    let mut d = task("none-1");
    d.order_index = 1;
    let mut tasks = vec![a, b, c, d];
    sort_by_due_date(&mut tasks);
    let titles: Vec<&str> = tasks.iter().map(|t| t.title.as_str()).collect();
    assert_eq!(titles, vec!["early", "late", "none-1", "none-2"]);
}

#[test]
fn priority_sort_is_descending() {
    let mut a = task("low");
    a.priority = TaskPriority::Low;
    let mut b = task("high");
    b.priority = TaskPriority::High;
    let mut c = task("medium");
    c.priority = TaskPriority::Medium;
    let mut tasks = vec![a, b, c];
    sort_by_priority(&mut tasks);
    let titles: Vec<&str> = tasks.iter().map(|t| t.title.as_str()).collect();
    assert_eq!(titles, vec!["high", "medium", "low"]);
}

#[test]
fn grouping_by_date_orders_keys_with_no_date_first() {
    let mut a = task("later");
    a.due_date = Some(TODAY + 1);
    let b = task("no date");
    let mut c = task("sooner");
    c.due_date = Some(TODAY);
    let mut d = task("also sooner");
    d.due_date = Some(TODAY);
    let tasks = vec![a, b, c, d];
    let groups = group_by_date(&tasks);
    assert_eq!(groups.len(), 3);
    assert_eq!(groups[0].0, None);
    assert_eq!(groups[0].1.len(), 1);
    assert_eq!(groups[1].0, Some(TODAY));
    assert_eq!(groups[1].1.len(), 2);
    assert_eq!(groups[1].1[0].title, "sooner");
    assert_eq!(groups[1].1[1].title, "also sooner");
    assert_eq!(groups[2].0, Some(TODAY + 1));
    assert_eq!(groups[2].1.len(), 1);
}

#[test]
fn completion_invariant_follows_status_changes() {
    let mut t = task("toggle me");
    assert!(t.completed_at.is_none());
    t.set_status(TaskStatus::Completed, 1000);
    assert_eq!(t.status, TaskStatus::Completed);
    assert_eq!(t.completed_at, Some(1000));
    assert_eq!(t.updated_at, 1000);
    t.set_status(TaskStatus::Active, 2000);
    assert_eq!(t.status, TaskStatus::Active);
    assert_eq!(t.completed_at, None);
    t.toggle_completed(3000);
    assert_eq!(t.status, TaskStatus::Completed);
    assert_eq!(t.completed_at, Some(3000));
    t.toggle_completed(4000);
    assert_eq!(t.status, TaskStatus::Inbox);
    assert_eq!(t.completed_at, None);
}
