use todo_cli::codec::{parse_todos, render_todos};
use todo_cli::todo::{Subtask, Todo};

const NOW: &str = "2024-06-01T12:00:00+00:00";

fn sub(title: &str, done: bool) -> Subtask {
    Subtask {
        title: title.to_string(),
        content: "note".to_string(),
        priority: "medium".to_string(),
        date_time: "2023-12-31T23:59:59+00:00".to_string(),
        deadline: "2024-02-02".to_string(),
        done,
    }
}

fn task(title: &str, subs: Vec<Subtask>, expanded: bool) -> Todo {
    Todo {
        title: title.to_string(),
        content: "body".to_string(),
        priority: "high".to_string(),
        date_time: "2024-01-01T00:00:00+00:00".to_string(),
        deadline: "2024-03-03".to_string(),
        done: true,
        subtasks: subs,
        expanded,
    }
}

#[test]
fn round_trip_plain_tasks() {
    let todos = vec![task("one", vec![], false), task("two", vec![], true)];
    let text = render_todos(&todos);
    let back = parse_todos(&text, NOW).expect("parse");
    assert_eq!(back, todos);
}

#[test]
fn round_trip_with_subtasks() {
    let todos = vec![
        task("parent", vec![sub("kid a", false), sub("kid b", true)], true),
        task("loner", vec![], false),
    ];
    let text = render_todos(&todos);
    let back = parse_todos(&text, NOW).expect("parse");
    assert_eq!(back, todos);
}

#[test]
fn round_trip_empty_store() {
    let todos: Vec<Todo> = vec![];
    let text = render_todos(&todos);
    assert_eq!(text, "");
    let back = parse_todos(&text, NOW).expect("parse");
    assert_eq!(back, todos);
}

#[test]
fn round_trip_empty_and_odd_fields() {
    let mut t = task("", vec![], false);
    t.content = String::new();
    t.priority = String::new();
    t.deadline = String::new();
    t.date_time = String::new();
    t.done = false;
    let spicy = Todo {
        title: "semi;colon \\ back { brace [ list ] }".to_string(),
        content: ";;;".to_string(),
        priority: "\\".to_string(),
        date_time: "t;".to_string(),
        deadline: ";".to_string(),
        done: false,
        subtasks: vec![Subtask {
            title: "a;b\\c".to_string(),
            content: String::new(),
            priority: "low".to_string(),
            date_time: String::new(),
            deadline: String::new(),
            done: false,
        }],
        expanded: true,
    };
    let todos = vec![t, spicy];
    let text = render_todos(&todos);
    let back = parse_todos(&text, NOW).expect("parse");
    assert_eq!(back, todos);
}

#[test]
fn rendered_text_is_exact() {
    let t = Todo {
        title: "a".to_string(),
        content: "b".to_string(),
        priority: "c".to_string(),
        date_time: "d".to_string(),
        deadline: "e".to_string(),
        done: false,
        subtasks: vec![],
        expanded: false,
    };
    assert_eq!(render_todos(&vec![t]), "{ta;cb;pc;md;de;x0;s[];e0;}");
}

#[test]
fn rendered_text_escapes_separators() {
    let mut t = Todo {
        title: "a;b".to_string(),
        content: String::new(),
        priority: String::new(),
        date_time: String::new(),
        deadline: String::new(),
        done: true,
        subtasks: vec![],
        expanded: true,
    };
    t.content = "\\".to_string();
    assert_eq!(render_todos(&vec![t]), "{ta\\;b;c\\\\;p;m;d;x1;s[];e1;}");
}

#[test]
fn loading_record_without_newer_fields_defaults_them() {
    // A record written before subtasks and the expanded flag existed.
    let text = "{tMilk;cget two;phigh;m2020-05-05T00:00:00+00:00;d2020-06-06;x1;}";
    let back = parse_todos(text, NOW).expect("parse");
    assert_eq!(back.len(), 1);
    assert_eq!(back[0].title, "Milk");
    assert_eq!(back[0].content, "get two");
    assert_eq!(back[0].priority, "high");
    assert_eq!(back[0].date_time, "2020-05-05T00:00:00+00:00");
    assert_eq!(back[0].deadline, "2020-06-06");
    assert!(back[0].done);
    assert!(back[0].subtasks.is_empty());
    assert!(!back[0].expanded);
}

#[test]
fn loading_minimal_record_defaults_everything() {
    let back = parse_todos("{}", NOW).expect("parse");
    assert_eq!(back.len(), 1);
    assert_eq!(back[0].title, "");
    assert_eq!(back[0].content, "");
    assert_eq!(back[0].priority, "low");
    assert_eq!(back[0].date_time, NOW);
    assert_eq!(back[0].deadline, "");
    assert!(!back[0].done);
    assert!(back[0].subtasks.is_empty());
    assert!(!back[0].expanded);
}

#[test]
fn loading_rejects_unknown_tag() {
    assert!(parse_todos("{z;}", NOW).is_none());
}

#[test]
fn loading_rejects_unterminated_text() {
    assert!(parse_todos("{tMilk", NOW).is_none());
}

#[test]
fn loading_rejects_bad_flag() {
    assert!(parse_todos("{x7;}", NOW).is_none());
}

#[test]
fn loading_rejects_trailing_garbage() {
    assert!(parse_todos("{}]", NOW).is_none());
}

#[test]
fn loading_rejects_unclosed_subtask_list() {
    assert!(parse_todos("{s[}", NOW).is_none());
}
