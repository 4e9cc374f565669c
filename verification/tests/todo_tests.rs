use todo_cli::input::{prio_of, InputMode, PrioritySelection};
use todo_cli::todo::Todo;

#[test]
fn new_task_has_committed_fields_and_fresh_stamp() {
    let t = Todo::new(
        "Milk".to_string(),
        "two bottles".to_string(),
        "medium".to_string(),
        "2024-09-01".to_string(),
    );
    assert_eq!(t.title, "Milk");
    assert_eq!(t.content, "two bottles");
    assert_eq!(t.priority, "medium");
    assert_eq!(t.deadline, "2024-09-01");
    assert!(!t.done);
    assert!(t.subtasks.is_empty());
    assert!(!t.expanded);
    assert!(!t.date_time.is_empty());
}

#[test]
fn add_subtask_appends_minimal_entry() {
    let mut t = Todo::new("parent".to_string(), String::new(), "low".to_string(), String::new());
    t.add_subtask("child one".to_string());
    t.add_subtask("child two".to_string());
    assert_eq!(t.subtasks.len(), 2);
    assert_eq!(t.subtasks[0].title, "child one");
    assert_eq!(t.subtasks[1].title, "child two");
    assert_eq!(t.subtasks[1].priority, "low");
    assert_eq!(t.subtasks[1].content, "");
    assert_eq!(t.subtasks[1].deadline, "");
    assert!(!t.subtasks[1].done);
}

#[test]
fn clone_copies_every_field() {
    let mut t = Todo::new(
        "a".to_string(),
        "b".to_string(),
        "high".to_string(),
        "2024-01-01".to_string(),
    );
    t.add_subtask("kid".to_string());
    t.expanded = true;
    t.done = true;
    let c = t.clone();
    assert_eq!(c, t);
}

#[test]
fn priority_selection_cycles_forward() {
    assert_eq!(PrioritySelection::Low.next(), PrioritySelection::Medium);
    assert_eq!(PrioritySelection::Medium.next(), PrioritySelection::High);
    assert_eq!(PrioritySelection::High.next(), PrioritySelection::Low);
}

#[test]
fn priority_selection_cycles_backward() {
    assert_eq!(PrioritySelection::Low.prev(), PrioritySelection::High);
    assert_eq!(PrioritySelection::High.prev(), PrioritySelection::Medium);
    assert_eq!(PrioritySelection::Medium.prev(), PrioritySelection::Low);
}

#[test]
fn priority_selection_text() {
    assert_eq!(PrioritySelection::Low.to_str(), "low");
    assert_eq!(PrioritySelection::Medium.to_str(), "medium");
    assert_eq!(PrioritySelection::High.to_str(), "high");
}

#[test]
fn priority_text_maps_back() {
    assert_eq!(prio_of("low"), PrioritySelection::Low);
    assert_eq!(prio_of("medium"), PrioritySelection::Medium);
    assert_eq!(prio_of("high"), PrioritySelection::High);
    assert_eq!(prio_of("nonsense"), PrioritySelection::Low);
}

#[test]
fn input_modes_compare_by_payload() {
    assert_eq!(InputMode::EditingTitle(2), InputMode::EditingTitle(2));
    assert_ne!(InputMode::EditingTitle(2), InputMode::EditingTitle(3));
    assert_ne!(InputMode::Normal, InputMode::Searching);
}
