use todo_cli::input::{InputMode, PrioritySelection};
use todo_cli::session::{handle_input, session_new, Key, Session};
use todo_cli::sort::SortMode;
use todo_cli::todo::{Subtask, Todo};

const NOW: &str = "2024-06-01T12:00:00+00:00";

fn sub(title: &str, done: bool) -> Subtask {
    Subtask {
        title: title.to_string(),
        content: String::new(),
        priority: "low".to_string(),
        date_time: NOW.to_string(),
        deadline: String::new(),
        done,
    }
}

fn task(title: &str, subs: Vec<Subtask>, expanded: bool) -> Todo {
    Todo {
        title: title.to_string(),
        content: String::new(),
        priority: "low".to_string(),
        date_time: NOW.to_string(),
        deadline: String::new(),
        done: false,
        subtasks: subs,
        expanded,
    }
}

fn press(s: &mut Session, key: Key) -> todo_cli::session::Effect {
    handle_input(key, 0, NOW, s)
}

fn type_text(s: &mut Session, text: &str) {
    for c in text.chars() {
        press(s, Key::Char(c));
    }
}

#[test]
fn fresh_session_browses_from_the_top() {
    let s = session_new(vec![task("a", vec![], false)]);
    assert_eq!(s.mode, InputMode::Normal);
    assert_eq!(s.cursor, 0);
    assert_eq!(s.view, vec![0]);
    assert!(s.undo.is_empty());
}

#[test]
fn empty_title_commit_is_rejected() {
    let mut s = session_new(vec![task("a", vec![], false)]);
    press(&mut s, Key::Char('a'));
    assert_eq!(s.mode, InputMode::AddingTitle);
    let eff = press(&mut s, Key::Enter);
    assert_eq!(s.mode, InputMode::AddingTitle);
    assert_eq!(s.todos.len(), 1);
    assert!(!eff.save);
}

#[test]
fn add_sequence_builds_a_task_from_the_buffers() {
    let mut s = session_new(vec![]);
    press(&mut s, Key::Char('a'));
    type_text(&mut s, "Milk");
    press(&mut s, Key::Enter);
    assert_eq!(s.mode, InputMode::AddingContent);
    type_text(&mut s, "two bottles");
    press(&mut s, Key::Enter);
    assert_eq!(s.mode, InputMode::AddingPriority);
    press(&mut s, Key::Char('j'));
    assert_eq!(s.input_priority, PrioritySelection::Medium);
    press(&mut s, Key::Enter);
    assert_eq!(s.mode, InputMode::AddingDeadline);
    type_text(&mut s, "2024-09-01");
    let eff = press(&mut s, Key::Enter);
    assert!(eff.save);
    assert_eq!(s.mode, InputMode::Normal);
    assert_eq!(s.todos.len(), 1);
    assert_eq!(s.todos[0].title, "Milk");
    assert_eq!(s.todos[0].content, "two bottles");
    assert_eq!(s.todos[0].priority, "medium");
    assert_eq!(s.todos[0].deadline, "2024-09-01");
    assert_eq!(s.todos[0].date_time, NOW);
    assert!(!s.todos[0].done);
    assert_eq!(s.view, vec![0]);
    assert!(s.input_title.is_empty());
}

#[test]
fn backspace_edits_the_title_buffer() {
    let mut s = session_new(vec![]);
    press(&mut s, Key::Char('a'));
    type_text(&mut s, "ab");
    press(&mut s, Key::Backspace);
    type_text(&mut s, "c");
    press(&mut s, Key::Enter);
    press(&mut s, Key::Enter);
    press(&mut s, Key::Enter);
    press(&mut s, Key::Enter);
    assert_eq!(s.todos[0].title, "ac");
}

#[test]
fn cancel_clears_buffers_and_returns_to_browsing() {
    let mut s = session_new(vec![]);
    press(&mut s, Key::Char('a'));
    type_text(&mut s, "half");
    press(&mut s, Key::Esc);
    assert_eq!(s.mode, InputMode::Normal);
    assert!(s.input_title.is_empty());
    assert!(s.todos.is_empty());
}

#[test]
fn delete_then_restore_appends_at_the_end() {
    let mut s = session_new(vec![
        task("first", vec![], false),
        task("second", vec![], false),
        task("third", vec![], false),
    ]);
    let e1 = press(&mut s, Key::Char('d'));
    assert!(e1.save);
    assert_eq!(s.todos.len(), 2);
    assert_eq!(s.todos[0].title, "second");
    assert_eq!(s.undo.len(), 1);
    let e2 = press(&mut s, Key::Char('r'));
    assert!(e2.save);
    assert_eq!(s.undo.len(), 0);
    let titles: Vec<String> = s.todos.iter().map(|t| t.title.clone()).collect();
    assert_eq!(titles, vec!["second".to_string(), "third".to_string(), "first".to_string()]);
}

#[test]
fn restore_with_empty_undo_changes_nothing() {
    let mut s = session_new(vec![task("a", vec![], false)]);
    let eff = press(&mut s, Key::Char('r'));
    assert!(!eff.save);
    assert_eq!(s.todos.len(), 1);
}

#[test]
fn delete_on_empty_store_is_a_no_op() {
    let mut s = session_new(vec![]);
    let eff = press(&mut s, Key::Char('d'));
    assert!(!eff.save);
    assert!(s.todos.is_empty());
}

#[test]
fn delete_subtask_banks_it_for_restore() {
    let mut s = session_new(vec![task("parent", vec![sub("kid", false)], true)]);
    press(&mut s, Key::Char('j'));
    assert_eq!(s.cursor, 1);
    press(&mut s, Key::Char('d'));
    assert!(s.todos[0].subtasks.is_empty());
    assert_eq!(s.undo.len(), 1);
    press(&mut s, Key::Char('r'));
    assert_eq!(s.todos.len(), 2);
    assert_eq!(s.todos[1].title, "kid");
    assert!(s.todos[1].subtasks.is_empty());
}

#[test]
fn toggle_done_flips_and_persists() {
    let mut s = session_new(vec![task("a", vec![], false)]);
    let eff = press(&mut s, Key::Enter);
    assert!(eff.save);
    assert!(s.todos[0].done);
    press(&mut s, Key::Enter);
    assert!(!s.todos[0].done);
}

#[test]
fn toggle_subtask_done_through_the_flat_cursor() {
    let mut s = session_new(vec![task("parent", vec![sub("kid", false)], true)]);
    press(&mut s, Key::Char('j'));
    let eff = press(&mut s, Key::Enter);
    assert!(eff.save);
    assert!(s.todos[0].subtasks[0].done);
}

#[test]
fn collapsing_over_a_subtask_reresolves_to_the_parent() {
    let mut s = session_new(vec![
        task("first", vec![], false),
        task("parent", vec![sub("k1", false), sub("k2", false)], true),
    ]);
    press(&mut s, Key::Char('j'));
    press(&mut s, Key::Char('j'));
    assert_eq!(s.cursor, 2); // first subtask of "parent"
    press(&mut s, Key::Char('h'));
    assert!(!s.todos[1].expanded);
    assert_eq!(s.cursor, 1); // back on "parent" itself
}

#[test]
fn expand_makes_subtask_slots_visible() {
    let mut s = session_new(vec![task("parent", vec![sub("kid", false)], false)]);
    press(&mut s, Key::Char('j'));
    assert_eq!(s.cursor, 0); // only one slot while collapsed
    press(&mut s, Key::Char('o'));
    assert!(s.todos[0].expanded);
    press(&mut s, Key::Char('j'));
    assert_eq!(s.cursor, 1);
}

#[test]
fn double_space_within_window_enters_search() {
    let mut s = session_new(vec![]);
    let e1 = handle_input(Key::Char(' '), 1000, NOW, &mut s);
    assert_eq!(s.mode, InputMode::Normal);
    assert!(!e1.hide_cursor);
    let e2 = handle_input(Key::Char(' '), 1400, NOW, &mut s);
    assert_eq!(s.mode, InputMode::Searching);
    assert!(e2.hide_cursor);
}

#[test]
fn slow_double_space_does_not_enter_search() {
    let mut s = session_new(vec![]);
    handle_input(Key::Char(' '), 1000, NOW, &mut s);
    handle_input(Key::Char(' '), 2000, NOW, &mut s);
    assert_eq!(s.mode, InputMode::Normal);
}

#[test]
fn key_between_spaces_cancels_the_double_press() {
    let mut s = session_new(vec![]);
    handle_input(Key::Char(' '), 1000, NOW, &mut s);
    handle_input(Key::Char('j'), 1100, NOW, &mut s);
    handle_input(Key::Char(' '), 1200, NOW, &mut s);
    assert_eq!(s.mode, InputMode::Normal);
}

#[test]
fn search_commit_filters_the_view_and_cancel_keeps_it() {
    let mut s = session_new(vec![
        task("abcdef", vec![], false),
        task("xyz", vec![], false),
    ]);
    handle_input(Key::Char(' '), 0, NOW, &mut s);
    handle_input(Key::Char(' '), 100, NOW, &mut s);
    assert_eq!(s.mode, InputMode::Searching);
    type_text(&mut s, "abc");
    let eff = press(&mut s, Key::Enter);
    assert!(eff.show_cursor);
    assert_eq!(s.mode, InputMode::Normal);
    assert_eq!(s.view, vec![0]);
    assert_eq!(s.todos.len(), 2);
    // cancel leaves the filtered view alone
    handle_input(Key::Char(' '), 0, NOW, &mut s);
    handle_input(Key::Char(' '), 100, NOW, &mut s);
    type_text(&mut s, "zzz");
    press(&mut s, Key::Esc);
    assert_eq!(s.view, vec![0]);
    assert!(s.search_query.is_empty());
}

#[test]
fn deleting_through_a_filtered_view_keeps_hidden_tasks() {
    let mut s = session_new(vec![
        task("abcdef", vec![], false),
        task("xyz", vec![], false),
        task("abc again", vec![], false),
    ]);
    handle_input(Key::Char(' '), 0, NOW, &mut s);
    handle_input(Key::Char(' '), 100, NOW, &mut s);
    type_text(&mut s, "abc");
    press(&mut s, Key::Enter);
    assert_eq!(s.view, vec![0, 2]);
    press(&mut s, Key::Char('d'));
    let titles: Vec<String> = s.todos.iter().map(|t| t.title.clone()).collect();
    assert_eq!(titles, vec!["xyz".to_string(), "abc again".to_string()]);
    assert_eq!(s.view, vec![1]);
}

#[test]
fn edit_sequence_rewrites_the_task_in_place() {
    let mut s = session_new(vec![task("old title", vec![], false)]);
    s.todos[0].priority = "high".to_string();
    press(&mut s, Key::Char('e'));
    assert_eq!(s.mode, InputMode::EditingTitle(0));
    assert_eq!(s.input_priority, PrioritySelection::High);
    let pre: String = s.input_title.iter().collect();
    assert_eq!(pre, "old title");
    for _ in 0.."old title".len() {
        press(&mut s, Key::Backspace);
    }
    type_text(&mut s, "new title");
    press(&mut s, Key::Enter);
    assert_eq!(s.mode, InputMode::EditingContent(0));
    assert_eq!(s.todos[0].title, "new title");
    type_text(&mut s, "notes");
    press(&mut s, Key::Enter);
    assert_eq!(s.mode, InputMode::EditingPriority(0));
    assert_eq!(s.todos[0].content, "notes");
    press(&mut s, Key::Char('k'));
    assert_eq!(s.input_priority, PrioritySelection::Medium);
    press(&mut s, Key::Enter);
    assert_eq!(s.mode, InputMode::EditingDeadline(0));
    type_text(&mut s, "2025-01-01");
    let eff = press(&mut s, Key::Enter);
    assert!(eff.save);
    assert_eq!(s.mode, InputMode::Normal);
    assert_eq!(s.todos[0].priority, "medium");
    assert_eq!(s.todos[0].deadline, "2025-01-01");
    assert_eq!(s.todos[0].date_time, NOW);
}

#[test]
fn session_sort_reorders_the_view_only() {
    let mut s = session_new(vec![
        task("a", vec![], false),
        task("b", vec![], false),
    ]);
    s.todos[0].priority = "low".to_string();
    s.todos[1].priority = "high".to_string();
    press(&mut s, Key::Char('s'));
    assert_eq!(s.sort_mode, SortMode::ByDeadline);
    press(&mut s, Key::Char('s'));
    assert_eq!(s.sort_mode, SortMode::ByPriority);
    assert_eq!(s.view, vec![1, 0]);
    assert_eq!(s.todos[0].title, "a");
}

#[test]
fn subtask_flow_through_details() {
    let mut s = session_new(vec![task("parent", vec![], false)]);
    press(&mut s, Key::Char('l'));
    assert_eq!(s.mode, InputMode::ViewingDetails(0));
    press(&mut s, Key::Char('s'));
    assert_eq!(s.mode, InputMode::AddingSubtask(0));
    type_text(&mut s, "kid");
    let eff = press(&mut s, Key::Enter);
    assert!(eff.save);
    assert_eq!(s.mode, InputMode::ViewingDetails(0));
    assert_eq!(s.todos[0].subtasks.len(), 1);
    assert_eq!(s.todos[0].subtasks[0].title, "kid");
    assert_eq!(s.todos[0].subtasks[0].priority, "low");
    // toggle it done via the secondary cursor
    press(&mut s, Key::Enter);
    assert!(s.todos[0].subtasks[0].done);
    // open its details and back out
    press(&mut s, Key::Char('l'));
    assert_eq!(s.mode, InputMode::ViewingSubtaskDetails(0, 0));
    press(&mut s, Key::Enter);
    assert!(!s.todos[0].subtasks[0].done);
    press(&mut s, Key::Char('q'));
    assert_eq!(s.mode, InputMode::ViewingDetails(0));
    press(&mut s, Key::Char('q'));
    assert_eq!(s.mode, InputMode::Normal);
}

#[test]
fn empty_subtask_title_is_rejected() {
    let mut s = session_new(vec![task("parent", vec![], false)]);
    press(&mut s, Key::Char('l'));
    press(&mut s, Key::Char('s'));
    press(&mut s, Key::Enter);
    assert_eq!(s.mode, InputMode::AddingSubtask(0));
    assert!(s.todos[0].subtasks.is_empty());
}

#[test]
fn quit_key_reports_quit() {
    let mut s = session_new(vec![]);
    let eff = press(&mut s, Key::Char('q'));
    assert!(eff.quit);
    assert!(!eff.save);
}

#[test]
fn subtask_cursor_clamps_in_details() {
    let mut s = session_new(vec![task("p", vec![sub("a", false), sub("b", false)], false)]);
    press(&mut s, Key::Char('l'));
    press(&mut s, Key::Char('j'));
    assert_eq!(s.sub_cursor, 1);
    press(&mut s, Key::Char('j'));
    assert_eq!(s.sub_cursor, 1);
    press(&mut s, Key::Char('k'));
    assert_eq!(s.sub_cursor, 0);
    press(&mut s, Key::Char('k'));
    assert_eq!(s.sub_cursor, 0);
}
