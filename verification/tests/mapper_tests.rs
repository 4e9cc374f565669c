use todo_cli::mapper::{cursor_down, cursor_up, flat_of_task, resolve_cursor, total_slots};
use todo_cli::todo::{Subtask, Todo};

fn sub(title: &str, done: bool) -> Subtask {
    Subtask {
        title: title.to_string(),
        content: String::new(),
        priority: "low".to_string(),
        date_time: "2024-01-01T00:00:00+00:00".to_string(),
        deadline: String::new(),
        done,
    }
}

fn task(title: &str, subs: Vec<Subtask>, expanded: bool) -> Todo {
    Todo {
        title: title.to_string(),
        content: String::new(),
        priority: "low".to_string(),
        date_time: "2024-01-01T00:00:00+00:00".to_string(),
        deadline: String::new(),
        done: false,
        subtasks: subs,
        expanded,
    }
}

#[test]
fn slot_count_sums_expanded_subtasks() {
    let todos = vec![
        task("a", vec![sub("a1", false), sub("a2", true)], true),
        task("b", vec![sub("b1", false)], false),
        task("c", vec![], true),
    ];
    // 1 + 2 (expanded) + 1 (collapsed) + 1 = 5
    assert_eq!(total_slots(&todos), 5);
}

#[test]
fn slot_count_empty_store() {
    let todos: Vec<Todo> = vec![];
    assert_eq!(total_slots(&todos), 0);
}

#[test]
fn resolve_task_and_subtask_slots() {
    let todos = vec![
        task("a", vec![sub("a1", false), sub("a2", false)], true),
        task("b", vec![sub("b1", false)], false),
    ];
    assert_eq!(resolve_cursor(&todos, 0), (Some(0), None));
    assert_eq!(resolve_cursor(&todos, 1), (Some(0), Some(0)));
    assert_eq!(resolve_cursor(&todos, 2), (Some(0), Some(1)));
    assert_eq!(resolve_cursor(&todos, 3), (Some(1), None));
    assert_eq!(resolve_cursor(&todos, 4), (None, None));
    assert_eq!(resolve_cursor(&todos, 100), (None, None));
}

#[test]
fn resolve_collapsed_subtasks_take_no_slots() {
    let todos = vec![
        task("a", vec![sub("a1", false), sub("a2", false)], false),
        task("b", vec![], false),
    ];
    assert_eq!(resolve_cursor(&todos, 0), (Some(0), None));
    assert_eq!(resolve_cursor(&todos, 1), (Some(1), None));
    assert_eq!(resolve_cursor(&todos, 2), (None, None));
}

#[test]
fn cursor_moves_stay_in_range() {
    let todos = vec![task("a", vec![sub("a1", false)], true), task("b", vec![], false)];
    // slots: a, a1, b -> 3
    assert_eq!(cursor_down(&todos, 0), 1);
    assert_eq!(cursor_down(&todos, 1), 2);
    assert_eq!(cursor_down(&todos, 2), 2);
    assert_eq!(cursor_up(&todos, 2), 1);
    assert_eq!(cursor_up(&todos, 1), 0);
    assert_eq!(cursor_up(&todos, 0), 0);
}

#[test]
fn cursor_moves_on_empty_store_return_zero() {
    let todos: Vec<Todo> = vec![];
    assert_eq!(cursor_down(&todos, 0), 0);
    assert_eq!(cursor_up(&todos, 0), 0);
    assert_eq!(cursor_down(&todos, 7), 0);
    assert_eq!(cursor_up(&todos, 7), 0);
}

#[test]
fn cursor_out_of_range_clamps_back() {
    let todos = vec![task("a", vec![], false)];
    assert_eq!(cursor_down(&todos, 9), 0);
    assert_eq!(cursor_up(&todos, 9), 0);
}

#[test]
fn resolving_then_flattening_returns_the_cursor() {
    let todos = vec![
        task("a", vec![sub("a1", false), sub("a2", true)], true),
        task("b", vec![sub("b1", false)], false),
        task("c", vec![sub("c1", false)], true),
    ];
    let total = total_slots(&todos);
    assert_eq!(total, 6);
    for cur in 0..total {
        let (t, s) = resolve_cursor(&todos, cur);
        let ti = t.expect("every in-range cursor resolves to a task");
        let flat = flat_of_task(&todos, ti)
            + match s {
                Some(j) => 1 + j,
                None => 0,
            };
        assert_eq!(flat, cur);
    }
}

#[test]
fn flat_slot_of_task_counts_earlier_widths() {
    let todos = vec![
        task("a", vec![sub("a1", false), sub("a2", false)], true),
        task("b", vec![sub("b1", false)], false),
        task("c", vec![], false),
    ];
    assert_eq!(flat_of_task(&todos, 0), 0);
    assert_eq!(flat_of_task(&todos, 1), 3);
    assert_eq!(flat_of_task(&todos, 2), 4);
}
