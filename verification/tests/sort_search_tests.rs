use todo_cli::search::{contains_chars, search_indices, search_todos};
use todo_cli::sort::{cycle_sort_mode, priority_rank, sort_todos, SortMode};
use todo_cli::todo::Todo;

fn task(title: &str, content: &str, priority: &str, deadline: &str, done: bool) -> Todo {
    Todo {
        title: title.to_string(),
        content: content.to_string(),
        priority: priority.to_string(),
        date_time: "2024-01-01T00:00:00+00:00".to_string(),
        deadline: deadline.to_string(),
        done,
        subtasks: vec![],
        expanded: false,
    }
}

fn titles(todos: &Vec<Todo>) -> Vec<String> {
    todos.iter().map(|t| t.title.clone()).collect()
}

#[test]
fn deadline_sort_puts_empty_last() {
    let mut todos = vec![
        task("a", "", "low", "2024-01-01", false),
        task("b", "", "low", "", false),
        task("c", "", "low", "2023-05-05", false),
    ];
    sort_todos(&mut todos, SortMode::ByDeadline);
    let deadlines: Vec<String> = todos.iter().map(|t| t.deadline.clone()).collect();
    assert_eq!(deadlines, vec!["2023-05-05".to_string(), "2024-01-01".to_string(), String::new()]);
}

#[test]
fn priority_sort_orders_high_medium_low_unknown() {
    let mut todos = vec![
        task("a", "", "low", "", false),
        task("b", "", "high", "", false),
        task("c", "", "medium", "", false),
        task("d", "", "bogus", "", false),
    ];
    sort_todos(&mut todos, SortMode::ByPriority);
    let prios: Vec<String> = todos.iter().map(|t| t.priority.clone()).collect();
    assert_eq!(
        prios,
        vec!["high".to_string(), "medium".to_string(), "low".to_string(), "bogus".to_string()]
    );
}

#[test]
fn completion_sort_puts_unfinished_first() {
    let mut todos = vec![
        task("a", "", "low", "", true),
        task("b", "", "low", "", false),
        task("c", "", "low", "", true),
    ];
    sort_todos(&mut todos, SortMode::ByCompletion);
    let done: Vec<bool> = todos.iter().map(|t| t.done).collect();
    assert_eq!(done, vec![false, true, true]);
}

#[test]
fn sort_keeps_equal_keys_in_store_order() {
    let mut todos = vec![
        task("first", "", "low", "", false),
        task("second", "", "low", "", false),
        task("third", "", "high", "", false),
    ];
    sort_todos(&mut todos, SortMode::ByPriority);
    assert_eq!(
        titles(&todos),
        vec!["third".to_string(), "first".to_string(), "second".to_string()]
    );
}

#[test]
fn sort_mode_cycle_returns_to_start() {
    let mut mode = SortMode::ByCompletion;
    cycle_sort_mode(&mut mode);
    assert_eq!(mode, SortMode::ByDeadline);
    cycle_sort_mode(&mut mode);
    assert_eq!(mode, SortMode::ByPriority);
    cycle_sort_mode(&mut mode);
    assert_eq!(mode, SortMode::ByCompletion);
}

#[test]
fn priority_rank_values() {
    assert_eq!(priority_rank("high"), 0);
    assert_eq!(priority_rank("medium"), 1);
    assert_eq!(priority_rank("low"), 2);
    assert_eq!(priority_rank("bogus"), 3);
    assert_eq!(priority_rank(""), 3);
}

#[test]
fn containment_search_keeps_only_matching_titles() {
    let todos = vec![task("abcdef", "", "low", "", false), task("xyz", "", "low", "", false)];
    let hits = search_todos(&todos, "abc");
    assert_eq!(titles(&hits), vec!["abcdef".to_string()]);
}

#[test]
fn empty_query_matches_every_task_in_order() {
    let todos = vec![
        task("one", "", "low", "", false),
        task("two", "", "low", "", false),
        task("three", "", "low", "", false),
    ];
    let hits = search_todos(&todos, "");
    assert_eq!(titles(&hits), vec!["one".to_string(), "two".to_string(), "three".to_string()]);
}

#[test]
fn search_matches_content_too() {
    let todos = vec![
        task("plain", "the milk note", "low", "", false),
        task("other", "nothing here", "low", "", false),
    ];
    let hits = search_todos(&todos, "milk");
    assert_eq!(titles(&hits), vec!["plain".to_string()]);
}

#[test]
fn search_is_case_sensitive() {
    let todos = vec![task("Milk", "", "low", "", false)];
    assert_eq!(search_todos(&todos, "milk").len(), 0);
    assert_eq!(search_todos(&todos, "Milk").len(), 1);
}

#[test]
fn search_indices_report_positions() {
    let todos = vec![
        task("apple", "", "low", "", false),
        task("banana", "", "low", "", false),
        task("pineapple", "", "low", "", false),
    ];
    let q: Vec<char> = "apple".chars().collect();
    assert_eq!(search_indices(&todos, &q), vec![0, 2]);
}

#[test]
fn contains_chars_finds_inner_needle() {
    let h: Vec<char> = "concatenate".chars().collect();
    let n: Vec<char> = "cat".chars().collect();
    let m: Vec<char> = "dog".chars().collect();
    let e: Vec<char> = Vec::new();
    assert!(contains_chars(&h, &n));
    assert!(!contains_chars(&h, &m));
    assert!(contains_chars(&h, &e));
    assert!(!contains_chars(&e, &n));
}
