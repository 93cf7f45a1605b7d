use phitodo::app_state::{cycle_focus, cycle_focus_reverse, FocusArea};
use phitodo::config::Config;
use phitodo::input::InputState;
use phitodo::modal::{ConfirmModal, NotificationModal};
use phitodo::model::{Project, Task, TaskPriority, TaskStatus};
use phitodo::settings_view::{SettingsField, SettingsView};
use phitodo::sidebar::{get_count, SidebarCounts, SidebarItem};
use phitodo::task_form::{TaskFormField, TaskFormState};
use phitodo::views::{GitHubColumnState, TaskListState, TogglView};

#[test]
fn input_editing_moves_the_cursor() {
    let mut input = InputState::new("prompt:".to_string());
    input.insert('a');
    input.insert('b');
    input.insert('c');
    assert_eq!(input.value, "abc");
    assert_eq!(input.cursor, 3);
    input.move_left();
    input.backspace();
    assert_eq!(input.value, "ac");
    assert_eq!(input.cursor, 1);
    input.insert('X');
    assert_eq!(input.value, "aXc");
    input.move_start();
    input.delete();
    assert_eq!(input.value, "Xc");
    input.move_end();
    assert_eq!(input.cursor, 2);
    input.clear();
    assert_eq!(input.value, "");
    assert_eq!(input.cursor, 0);
}

#[test]
fn input_with_value_starts_at_the_end() {
    let input = InputState::new("p".to_string()).with_value("hello".to_string());
    assert_eq!(input.cursor, 5);
    let input = input.with_placeholder("type here".to_string());
    assert_eq!(input.placeholder, "type here");
}

#[test]
fn confirm_modal_toggles_between_buttons() {
    let mut m = ConfirmModal::delete("My Task".to_string());
    assert_eq!(m.title, "Delete");
    assert_eq!(m.message, "Are you sure you want to delete \"My Task\"?");
    assert!(!m.selected);
    m.toggle();
    assert!(m.selected);
    let n = ConfirmModal::new("T".to_string(), "M".to_string());
    assert_eq!(n.confirm_text, "Confirm");
    assert!(NotificationModal::error("e".to_string()).is_error);
    assert!(!NotificationModal::info("i".to_string()).is_error);
}

#[test]
fn sidebar_items_expose_labels_and_shortcuts() {
    let all = SidebarItem::all();
    assert_eq!(all.len(), 9);
    assert_eq!(all[0], SidebarItem::Inbox);
    assert_eq!(all[8], SidebarItem::Settings);
    assert_eq!(SidebarItem::Today.label(), "Today");
    assert_eq!(SidebarItem::Review.shortcut(), "6");
    assert_eq!(SidebarItem::from_index(2), Some(SidebarItem::Upcoming));
    assert_eq!(SidebarItem::from_index(99), None);
    let counts = SidebarCounts { inbox: 3, today: 1, upcoming: 0, anytime: 2, completed: 5, review: 1 };
    assert_eq!(get_count(&SidebarItem::Inbox, &counts), Some(3));
    assert_eq!(get_count(&SidebarItem::Settings, &counts), None);
}

#[test]
fn focus_cycles_forward_and_back() {
    assert_eq!(cycle_focus(FocusArea::Sidebar), FocusArea::List);
    assert_eq!(cycle_focus(cycle_focus(cycle_focus(FocusArea::Detail))), FocusArea::Detail);
    assert_eq!(cycle_focus(cycle_focus_reverse(FocusArea::List)), FocusArea::List);
}

#[test]
fn task_form_cycles_fields_and_values() {
    let mut form = TaskFormState::new_task(Vec::new());
    assert_eq!(form.current_field, TaskFormField::Title);
    form.next_field();
    assert_eq!(form.current_field, TaskFormField::Notes);
    form.prev_field();
    assert_eq!(form.current_field, TaskFormField::Title);
    form.cycle_priority();
    assert_eq!(form.task.priority, TaskPriority::Low);
    form.cycle_status();
    assert_eq!(form.task.status, TaskStatus::Active);
    form.cycle_kind();
    assert_eq!(form.task.kind, Some(phitodo::model::TaskKind::Task));
    form.cycle_size();
    assert_eq!(form.task.size, Some(phitodo::model::TaskSize::Xs));
}

#[test]
fn task_form_applies_inputs_and_parses_dates() {
    let mut form = TaskFormState::new_task(Vec::new());
    form.title_input = "New title".to_string();
    form.notes_input = String::new();
    form.due_date_input = "2024-03-05".to_string();
    form.apply_inputs();
    assert_eq!(form.task.title, "New title");
    assert_eq!(form.task.notes, None);
    assert!(form.task.due_date.is_some());
    form.due_date_input = "not a date".to_string();
    form.apply_inputs();
    assert_eq!(form.task.due_date, None);
}

#[test]
fn task_form_project_cycling_wraps_through_none() {
    let p1 = Project::new("one".to_string());
    let p2 = Project::new("two".to_string());
    let id1 = p1.id.clone();
    let id2 = p2.id.clone();
    let mut form = TaskFormState::new_task(vec![p1, p2]);
    assert_eq!(form.selected_project_name(), "none");
    form.cycle_project();
    assert_eq!(form.selected_project_name(), "one");
    assert_eq!(form.task.project_id.as_deref(), Some(id1.as_str()));
    form.cycle_project();
    assert_eq!(form.task.project_id.as_deref(), Some(id2.as_str()));
    form.cycle_project();
    assert_eq!(form.task.project_id, None);
    assert_eq!(form.selected_project_name(), "none");
}

#[test]
fn task_form_edit_prefills_from_the_task() {
    let mut t = Task::new("edit me".to_string());
    t.notes = Some("some notes".to_string());
    let form = TaskFormState::edit_task(t, Vec::new());
    assert!(!form.is_new);
    assert_eq!(form.title_input, "edit me");
    assert_eq!(form.notes_input, "some notes");
}

#[test]
fn settings_fields_navigate_and_save() {
    let mut view = SettingsView::new(Config::default());
    assert_eq!(view.current_field, SettingsField::GitHubToken);
    view.next_field();
    assert_eq!(view.current_field, SettingsField::GitHubRepos);
    view.prev_field();
    assert_eq!(view.current_field, SettingsField::GitHubToken);

    view.start_editing();
    assert!(view.editing);
    view.input = InputState::new(String::new()).with_value("tok123".to_string());
    view.save_field();
    assert!(!view.editing);
    assert_eq!(view.config.github_token.as_deref(), Some("tok123"));
    assert!(view.config.has_github());

    view.next_field();
    view.start_editing();
    view.input = InputState::new(String::new()).with_value("o/r, q/s , ,".to_string());
    view.save_field();
    assert_eq!(view.config.github_repos, vec!["o/r".to_string(), "q/s".to_string()]);
}

#[test]
fn editing_locks_field_navigation() {
    let mut view = SettingsView::new(Config::default());
    view.start_editing();
    view.next_field();
    assert_eq!(view.current_field, SettingsField::GitHubToken);
    view.cancel_editing();
    assert!(!view.editing);
    view.next_field();
    assert_eq!(view.current_field, SettingsField::GitHubRepos);
}

#[test]
fn task_list_selection_wraps_and_clamps() {
    let mut list = TaskListState::new("Inbox".to_string());
    assert!(list.selected_task().is_none());
    list.set_tasks(vec![Task::new("a".to_string()), Task::new("b".to_string())]);
    assert_eq!(list.selected, Some(0));
    list.select_next();
    assert_eq!(list.selected, Some(1));
    list.select_next();
    assert_eq!(list.selected, Some(0));
    list.select_previous();
    assert_eq!(list.selected, Some(1));
    list.select_first();
    assert_eq!(list.selected, Some(0));
    list.select_last();
    assert_eq!(list.selected, Some(1));
    list.set_tasks(vec![Task::new("only".to_string())]);
    assert_eq!(list.selected, Some(0));
    list.set_tasks(Vec::new());
    assert_eq!(list.selected, None);
}

#[test]
fn github_column_selection_behaves_like_a_list() {
    let mut col = GitHubColumnState::new("Review".to_string());
    col.select_next();
    assert_eq!(col.selected, None);
    assert!(col.selected_item().is_none());
}

#[test]
fn toggl_view_tracks_loading_and_errors() {
    let mut view = TogglView::new();
    view.set_loading(true);
    assert!(view.loading);
    view.set_error("boom".to_string());
    assert!(!view.loading);
    assert_eq!(view.error.as_deref(), Some("boom"));
    view.set_data(phitodo::toggl::TogglData::default());
    assert!(view.error.is_none());
}

#[test]
fn config_defaults_and_token_checks() {
    let c = Config::default();
    assert_eq!(c.shortcut_modifier, "alt");
    assert!(!c.has_github());
    assert!(!c.has_toggl());
    let mut c2 = c.clone();
    c2.toggl_token = Some(String::new());
    assert!(!c2.has_toggl());
    c2.toggl_token = Some("t".to_string());
    assert!(c2.has_toggl());
}
