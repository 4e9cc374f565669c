use vstd::prelude::*;
use crate::input::{InputMode, PrioritySelection, prio_text, prio_of_text, prio_of};
use crate::todo::{Todo, TodoView, SubtaskView, todo_views, subtask_views, string_from_chars, chars_of};
use crate::mapper::{slot_count, resolve, resolve_cursor, cursor_down, cursor_up, flat_index, flat_of_task};
use crate::sort::{SortMode, cycle_sort_mode, sort_view};
use crate::store::{view_ok, viewed, delete_outcome, restore_outcome, made_task, delete_task, restore_task, add_task, materialize_view};
use crate::search::{match_indices, search_indices, lemma_match_indices_bounds};

verus! {

/// How long after a first press a second press of the search key still
/// counts as a double press, in milliseconds.
pub const DOUBLE_PRESS_MS: u64 = 500;

/// One key event, reduced to what the state machine reads.
#[derive(Clone, Copy, Debug, PartialEq, Eq, Structural)]
pub enum Key {
    Char(char),
    Enter,
    Backspace,
    Esc,
    Other,
}

/// What the caller must do after a step: persist the store, end the
/// session, or change the cursor indicator.
#[derive(Clone, Copy, Debug, PartialEq, Eq, Structural)]
pub struct Effect {
    pub save: bool,
    pub quit: bool,
    pub hide_cursor: bool,
    pub show_cursor: bool,
}

pub open spec fn no_effect() -> Effect {
    Effect { save: false, quit: false, hide_cursor: false, show_cursor: false }
}

pub open spec fn save_effect() -> Effect {
    Effect { save: true, quit: false, hide_cursor: false, show_cursor: false }
}

pub open spec fn save_if(changed: bool) -> Effect {
    if changed {
        save_effect()
    } else {
        no_effect()
    }
}

pub open spec fn quit_effect() -> Effect {
    Effect { save: false, quit: true, hide_cursor: false, show_cursor: false }
}

pub open spec fn hide_effect() -> Effect {
    Effect { save: false, quit: false, hide_cursor: true, show_cursor: false }
}

pub open spec fn show_effect() -> Effect {
    Effect { save: false, quit: false, hide_cursor: false, show_cursor: true }
}

/// The whole state one interactive session carries: the canonical store,
/// the filtered view as positions into it, the flat cursor, the mode, the
/// in-progress input buffers, the search query, the secondary subtask
/// cursor, the sort criterion, the undo buffer, and the time of the last
/// press of the search key.
pub struct Session {
    pub todos: Vec<Todo>,
    pub view: Vec<usize>,
    pub cursor: usize,
    pub mode: InputMode,
    pub input_title: Vec<char>,
    pub input_content: Vec<char>,
    pub input_priority: PrioritySelection,
    pub input_deadline: Vec<char>,
    pub search_query: Vec<char>,
    pub sub_cursor: usize,
    pub sort_mode: SortMode,
    pub undo: Vec<Todo>,
    pub last_space: Option<u64>,
}

/// The mathematical value of a session.
#[verifier::ext_equal]
pub ghost struct SessionView {
    pub todos: Seq<TodoView>,
    pub view: Seq<usize>,
    pub cursor: int,
    pub mode: InputMode,
    pub input_title: Seq<char>,
    pub input_content: Seq<char>,
    pub input_priority: PrioritySelection,
    pub input_deadline: Seq<char>,
    pub search_query: Seq<char>,
    pub sub_cursor: int,
    pub sort_mode: SortMode,
    pub undo: Seq<TodoView>,
    pub last_space: Option<u64>,
}

impl View for Session {
    type V = SessionView;

    open spec fn view(&self) -> SessionView {
        SessionView {
            todos: todo_views(self.todos@),
            view: self.view@,
            cursor: self.cursor as int,
            mode: self.mode,
            input_title: self.input_title@,
            input_content: self.input_content@,
            input_priority: self.input_priority,
            input_deadline: self.input_deadline@,
            search_query: self.search_query@,
            sub_cursor: self.sub_cursor as int,
            sort_mode: self.sort_mode,
            undo: todo_views(self.undo@),
            last_space: self.last_space,
        }
    }
}

/// A session is well formed when its view names existing store positions,
/// no position twice, and the active mode's target exists.
pub open spec fn wf(s: SessionView) -> bool {
    &&& view_ok(s.todos, s.view)
    &&& (match s.mode {
        InputMode::ViewingDetails(i) => i < s.view.len(),
        InputMode::ViewingSubtaskDetails(i, j) => i < s.view.len() && j
            < s.todos[s.view[i as int] as int].subtasks.len(),
        InputMode::AddingSubtask(i) => i < s.view.len(),
        InputMode::EditingTitle(i) => i < s.view.len(),
        InputMode::EditingContent(i) => i < s.view.len(),
        InputMode::EditingPriority(i) => i < s.view.len(),
        InputMode::EditingDeadline(i) => i < s.view.len(),
        _ => true,
    })
}

/// The session state over a freshly loaded store: everything visible in
/// store order, cursor at the top, browsing, buffers empty.
pub fn session_new(todos: Vec<Todo>) -> (s: Session)
    ensures
        wf(s@),
        s@.todos == todo_views(todos@),
        s@.view.len() == todos@.len(),
        forall|i: int| 0 <= i < s@.view.len() ==> (#[trigger] s@.view[i]) == i,
        s@.cursor == 0,
        s@.mode == InputMode::Normal,
        s@.input_title.len() == 0,
        s@.input_content.len() == 0,
        s@.input_deadline.len() == 0,
        s@.search_query.len() == 0,
        s@.undo.len() == 0,
        s@.last_space is None,
{
    let n = todos.len();
    let mut view: Vec<usize> = Vec::new();
    let mut i: usize = 0;
    while i < n
        invariant
            i <= n,
            view@.len() == i,
            forall|k: int| 0 <= k < i ==> (#[trigger] view@[k]) == k,
        decreases n - i,
    {
        view.push(i);
        i = i + 1;
    }
    Session {
        todos,
        view,
        cursor: 0,
        mode: InputMode::Normal,
        input_title: Vec::new(),
        input_content: Vec::new(),
        input_priority: PrioritySelection::Low,
        input_deadline: Vec::new(),
        search_query: Vec::new(),
        sub_cursor: 0,
        sort_mode: SortMode::ByCompletion,
        undo: Vec::new(),
        last_space: None,
    }
}

/// A task with its done flag replaced.
pub open spec fn with_done(t: TodoView, d: bool) -> TodoView {
    TodoView { done: d, ..t }
}

/// A task with its expanded flag replaced.
pub open spec fn with_expanded(t: TodoView, e: bool) -> TodoView {
    TodoView { expanded: e, ..t }
}

/// A subtask with its done flag replaced.
pub open spec fn sub_with_done(st: SubtaskView, d: bool) -> SubtaskView {
    SubtaskView { done: d, ..st }
}

/// The back of a buffer gone, if it has one.
pub open spec fn backspaced(b: Seq<char>) -> Seq<char> {
    if b.len() > 0 {
        b.drop_last()
    } else {
        b
    }
}

/// A second press of the search key counts as a double press when it
/// arrives within the window; a single press never does.
pub open spec fn double_press(last: Option<u64>, now_ms: u64) -> bool {
    match last {
        Some(t0) => t0 <= now_ms <= t0 + DOUBLE_PRESS_MS,
        None => false,
    }
}

/// What one key does while browsing. Every key other than the search key
/// forgets a pending first press of it.
pub open spec fn step_normal(
    pre: SessionView,
    post: SessionView,
    key: Key,
    now_ms: u64,
    eff: Effect,
) -> bool {
    let vd = viewed(pre.todos, pre.view);
    let slots = slot_count(vd);
    match key {
        Key::Char(c) => if c == ' ' {
            if double_press(pre.last_space, now_ms) {
                &&& post == (SessionView {
                    mode: InputMode::Searching,
                    search_query: Seq::empty(),
                    last_space: None,
                    ..pre
                })
                &&& eff == hide_effect()
            } else {
                &&& post == (SessionView { last_space: Some(now_ms), ..pre })
                &&& eff == no_effect()
            }
        } else if c == 'q' {
            &&& post == (SessionView { last_space: None, ..pre })
            &&& eff == quit_effect()
        } else if c == 'a' {
            &&& post == (SessionView {
                mode: InputMode::AddingTitle,
                input_title: Seq::empty(),
                input_content: Seq::empty(),
                input_priority: PrioritySelection::Low,
                input_deadline: Seq::empty(),
                last_space: None,
                ..pre
            })
            &&& eff == no_effect()
        } else if c == 'd' {
            let (ts2, view2, c2, undo2, changed) = delete_outcome(
                pre.todos,
                pre.view,
                pre.cursor,
                pre.undo,
            );
            &&& post == (SessionView {
                todos: ts2,
                view: view2,
                cursor: c2,
                undo: undo2,
                last_space: None,
                ..pre
            })
            &&& eff == save_if(changed)
        } else if c == 'r' {
            let (ts2, view2, undo2, changed) = restore_outcome(pre.todos, pre.view, pre.undo);
            &&& post == (SessionView {
                todos: ts2,
                view: view2,
                undo: undo2,
                last_space: None,
                ..pre
            })
            &&& eff == save_if(changed)
        } else if c == 'e' {
            match resolve(vd, pre.cursor) {
                (Some(vi), _) => {
                    let t = pre.todos[pre.view[vi] as int];
                    &&& post == (SessionView {
                        mode: InputMode::EditingTitle(vi as usize),
                        input_title: t.title,
                        input_content: t.content,
                        input_priority: prio_of_text(t.priority),
                        input_deadline: t.deadline,
                        last_space: None,
                        ..pre
                    })
                    &&& eff == no_effect()
                },
                _ => {
                    &&& post == (SessionView { last_space: None, ..pre })
                    &&& eff == no_effect()
                },
            }
        } else if c == 'l' {
            match resolve(vd, pre.cursor) {
                (Some(vi), None) => {
                    &&& post == (SessionView {
                        mode: InputMode::ViewingDetails(vi as usize),
                        sub_cursor: 0,
                        last_space: None,
                        ..pre
                    })
                    &&& eff == no_effect()
                },
                _ => {
                    &&& post == (SessionView { last_space: None, ..pre })
                    &&& eff == no_effect()
                },
            }
        } else if c == 'j' {
            let c2: int = if slots == 0 {
                0
            } else if pre.cursor + 1 < slots {
                pre.cursor + 1
            } else {
                slots - 1
            };
            &&& post == (SessionView { cursor: c2, last_space: None, ..pre })
            &&& eff == no_effect()
        } else if c == 'k' {
            let c2: int = if slots == 0 {
                0
            } else if pre.cursor == 0 {
                0
            } else if pre.cursor - 1 < slots - 1 {
                pre.cursor - 1
            } else {
                slots - 1
            };
            &&& post == (SessionView { cursor: c2, last_space: None, ..pre })
            &&& eff == no_effect()
        } else if c == 's' {
            let mode2 = (match pre.sort_mode {
                SortMode::ByCompletion => SortMode::ByDeadline,
                SortMode::ByDeadline => SortMode::ByPriority,
                SortMode::ByPriority => SortMode::ByCompletion,
            });
            &&& post == (SessionView {
                view: crate::sort::sort_view_spec(mode2, pre.todos, pre.view),
                sort_mode: mode2,
                last_space: None,
                ..pre
            })
            &&& eff == no_effect()
        } else if c == 'o' {
            match resolve(vd, pre.cursor) {
                (Some(vi), None) => {
                    let ci = pre.view[vi] as int;
                    &&& post == (SessionView {
                        todos: pre.todos.update(ci, with_expanded(pre.todos[ci], true)),
                        last_space: None,
                        ..pre
                    })
                    &&& eff == no_effect()
                },
                _ => {
                    &&& post == (SessionView { last_space: None, ..pre })
                    &&& eff == no_effect()
                },
            }
        } else if c == 'h' {
            match resolve(vd, pre.cursor) {
                (Some(vi), None) => {
                    let ci = pre.view[vi] as int;
                    &&& post == (SessionView {
                        todos: pre.todos.update(ci, with_expanded(pre.todos[ci], false)),
                        last_space: None,
                        ..pre
                    })
                    &&& eff == no_effect()
                },
                (Some(vi), Some(sj)) => {
                    let ci = pre.view[vi] as int;
                    let ts2 = pre.todos.update(ci, with_expanded(pre.todos[ci], false));
                    &&& post == (SessionView {
                        todos: ts2,
                        cursor: flat_index(viewed(ts2, pre.view), vi, None),
                        last_space: None,
                        ..pre
                    })
                    &&& eff == no_effect()
                },
                _ => {
                    &&& post == (SessionView { last_space: None, ..pre })
                    &&& eff == no_effect()
                },
            }
        } else {
            &&& post == (SessionView { last_space: None, ..pre })
            &&& eff == no_effect()
        },
        Key::Enter => match resolve(vd, pre.cursor) {
            (Some(vi), None) => {
                let ci = pre.view[vi] as int;
                &&& post == (SessionView {
                    todos: pre.todos.update(ci, with_done(pre.todos[ci], !pre.todos[ci].done)),
                    last_space: None,
                    ..pre
                })
                &&& eff == save_effect()
            },
            (Some(vi), Some(sj)) => {
                let ci = pre.view[vi] as int;
                let t = pre.todos[ci];
                let t2 = TodoView {
                    subtasks: t.subtasks.update(sj, sub_with_done(t.subtasks[sj], !t.subtasks[sj].done)),
                    ..t
                };
                &&& post == (SessionView {
                    todos: pre.todos.update(ci, t2),
                    last_space: None,
                    ..pre
                })
                &&& eff == save_effect()
            },
            _ => {
                &&& post == (SessionView { last_space: None, ..pre })
                &&& eff == no_effect()
            },
        },
        _ => {
            &&& post == (SessionView { last_space: None, ..pre })
            &&& eff == no_effect()
        },
    }
}

/// What one key does while typing a new task's title: committing an empty
/// title is rejected and changes nothing.
pub open spec fn step_adding_title(pre: SessionView, post: SessionView, key: Key, eff: Effect) -> bool {
    match key {
        Key::Enter => if pre.input_title.len() > 0 {
            &&& post == (SessionView { mode: InputMode::AddingContent, ..pre })
            &&& eff == no_effect()
        } else {
            &&& post == pre
            &&& eff == no_effect()
        },
        Key::Char(c) => {
            &&& post == (SessionView { input_title: pre.input_title.push(c), ..pre })
            &&& eff == no_effect()
        },
        Key::Backspace => {
            &&& post == (SessionView { input_title: backspaced(pre.input_title), ..pre })
            &&& eff == no_effect()
        },
        Key::Esc => {
            &&& post == (SessionView {
                mode: InputMode::Normal,
                input_title: Seq::empty(),
                input_content: Seq::empty(),
                input_deadline: Seq::empty(),
                ..pre
            })
            &&& eff == no_effect()
        },
        _ => {
            &&& post == pre
            &&& eff == no_effect()
        },
    }
}

/// What one key does while typing a new task's content.
pub open spec fn step_adding_content(pre: SessionView, post: SessionView, key: Key, eff: Effect) -> bool {
    match key {
        Key::Enter => {
            &&& post == (SessionView { mode: InputMode::AddingPriority, ..pre })
            &&& eff == no_effect()
        },
        Key::Char(c) => {
            &&& post == (SessionView { input_content: pre.input_content.push(c), ..pre })
            &&& eff == no_effect()
        },
        Key::Backspace => {
            &&& post == (SessionView { input_content: backspaced(pre.input_content), ..pre })
            &&& eff == no_effect()
        },
        Key::Esc => {
            &&& post == (SessionView {
                mode: InputMode::Normal,
                input_title: Seq::empty(),
                input_content: Seq::empty(),
                input_deadline: Seq::empty(),
                ..pre
            })
            &&& eff == no_effect()
        },
        _ => {
            &&& post == pre
            &&& eff == no_effect()
        },
    }
}

/// What one key does while choosing a new task's priority: the selection
/// cycles and wraps in both directions.
pub open spec fn step_adding_priority(pre: SessionView, post: SessionView, key: Key, eff: Effect) -> bool {
    match key {
        Key::Enter => {
            &&& post == (SessionView { mode: InputMode::AddingDeadline, ..pre })
            &&& eff == no_effect()
        },
        Key::Char(c) => if c == 'j' {
            &&& post == (SessionView {
                input_priority: (match pre.input_priority {
                    PrioritySelection::Low => PrioritySelection::Medium,
                    PrioritySelection::Medium => PrioritySelection::High,
                    PrioritySelection::High => PrioritySelection::Low,
                }),
                ..pre
            })
            &&& eff == no_effect()
        } else if c == 'k' {
            &&& post == (SessionView {
                input_priority: (match pre.input_priority {
                    PrioritySelection::Low => PrioritySelection::High,
                    PrioritySelection::Medium => PrioritySelection::Low,
                    PrioritySelection::High => PrioritySelection::Medium,
                }),
                ..pre
            })
            &&& eff == no_effect()
        } else {
            &&& post == pre
            &&& eff == no_effect()
        },
        Key::Esc => {
            &&& post == (SessionView {
                mode: InputMode::Normal,
                input_title: Seq::empty(),
                input_content: Seq::empty(),
                input_deadline: Seq::empty(),
                ..pre
            })
            &&& eff == no_effect()
        },
        _ => {
            &&& post == pre
            &&& eff == no_effect()
        },
    }
}

/// What one key does while typing a new task's deadline: the commit, owed
/// only to a non-empty title, builds the task from the four buffers,
/// appends it, persists, and returns to browsing with cleared buffers.
pub open spec fn step_adding_deadline(
    pre: SessionView,
    post: SessionView,
    key: Key,
    now_date: Seq<char>,
    eff: Effect,
) -> bool {
    match key {
        Key::Enter => if pre.input_title.len() > 0 {
            &&& post == (SessionView {
                todos: pre.todos.push(
                    made_task(
                        pre.input_title,
                        pre.input_content,
                        prio_text(pre.input_priority),
                        pre.input_deadline,
                        now_date,
                    ),
                ),
                view: pre.view.push(pre.todos.len() as usize),
                mode: InputMode::Normal,
                input_title: Seq::empty(),
                input_content: Seq::empty(),
                input_deadline: Seq::empty(),
                ..pre
            })
            &&& eff == save_effect()
        } else {
            &&& post == pre
            &&& eff == no_effect()
        },
        Key::Char(c) => {
            &&& post == (SessionView { input_deadline: pre.input_deadline.push(c), ..pre })
            &&& eff == no_effect()
        },
        Key::Backspace => {
            &&& post == (SessionView { input_deadline: backspaced(pre.input_deadline), ..pre })
            &&& eff == no_effect()
        },
        Key::Esc => {
            &&& post == (SessionView {
                mode: InputMode::Normal,
                input_title: Seq::empty(),
                input_content: Seq::empty(),
                input_deadline: Seq::empty(),
                ..pre
            })
            &&& eff == no_effect()
        },
        _ => {
            &&& post == pre
            &&& eff == no_effect()
        },
    }
}

/// What one key does while editing the title of the task at view position
/// `i`: a non-empty commit writes the title into the task at once and
/// moves on to the content.
pub open spec fn step_editing_title(
    pre: SessionView,
    post: SessionView,
    i: usize,
    key: Key,
    eff: Effect,
) -> bool {
    match key {
        Key::Enter => if pre.input_title.len() > 0 {
            let ci = pre.view[i as int] as int;
            let t = pre.todos[ci];
            &&& post == (SessionView {
                todos: pre.todos.update(ci, TodoView { title: pre.input_title, ..t }),
                mode: InputMode::EditingContent(i),
                ..pre
            })
            &&& eff == no_effect()
        } else {
            &&& post == pre
            &&& eff == no_effect()
        },
        Key::Char(c) => {
            &&& post == (SessionView { input_title: pre.input_title.push(c), ..pre })
            &&& eff == no_effect()
        },
        Key::Backspace => {
            &&& post == (SessionView { input_title: backspaced(pre.input_title), ..pre })
            &&& eff == no_effect()
        },
        Key::Esc => {
            &&& post == (SessionView {
                mode: InputMode::Normal,
                input_title: Seq::empty(),
                input_content: Seq::empty(),
                input_deadline: Seq::empty(),
                ..pre
            })
            &&& eff == no_effect()
        },
        _ => {
            &&& post == pre
            &&& eff == no_effect()
        },
    }
}

/// What one key does while editing a task's content: the commit writes the
/// content into the task and moves on to the priority.
pub open spec fn step_editing_content(
    pre: SessionView,
    post: SessionView,
    i: usize,
    key: Key,
    eff: Effect,
) -> bool {
    match key {
        Key::Enter => {
            let ci = pre.view[i as int] as int;
            let t = pre.todos[ci];
            &&& post == (SessionView {
                todos: pre.todos.update(ci, TodoView { content: pre.input_content, ..t }),
                mode: InputMode::EditingPriority(i),
                ..pre
            })
            &&& eff == no_effect()
        },
        Key::Char(c) => {
            &&& post == (SessionView { input_content: pre.input_content.push(c), ..pre })
            &&& eff == no_effect()
        },
        Key::Backspace => {
            &&& post == (SessionView { input_content: backspaced(pre.input_content), ..pre })
            &&& eff == no_effect()
        },
        Key::Esc => {
            &&& post == (SessionView {
                mode: InputMode::Normal,
                input_title: Seq::empty(),
                input_content: Seq::empty(),
                input_deadline: Seq::empty(),
                ..pre
            })
            &&& eff == no_effect()
        },
        _ => {
            &&& post == pre
            &&& eff == no_effect()
        },
    }
}

/// What one key does while choosing an edited task's priority.
pub open spec fn step_editing_priority(
    pre: SessionView,
    post: SessionView,
    i: usize,
    key: Key,
    eff: Effect,
) -> bool {
    match key {
        Key::Enter => {
            &&& post == (SessionView { mode: InputMode::EditingDeadline(i), ..pre })
            &&& eff == no_effect()
        },
        Key::Char(c) => if c == 'j' {
            &&& post == (SessionView {
                input_priority: (match pre.input_priority {
                    PrioritySelection::Low => PrioritySelection::Medium,
                    PrioritySelection::Medium => PrioritySelection::High,
                    PrioritySelection::High => PrioritySelection::Low,
                }),
                ..pre
            })
            &&& eff == no_effect()
        } else if c == 'k' {
            &&& post == (SessionView {
                input_priority: (match pre.input_priority {
                    PrioritySelection::Low => PrioritySelection::High,
                    PrioritySelection::Medium => PrioritySelection::Low,
                    PrioritySelection::High => PrioritySelection::Medium,
                }),
                ..pre
            })
            &&& eff == no_effect()
        } else {
            &&& post == pre
            &&& eff == no_effect()
        },
        Key::Esc => {
            &&& post == (SessionView {
                mode: InputMode::Normal,
                input_title: Seq::empty(),
                input_content: Seq::empty(),
                input_deadline: Seq::empty(),
                ..pre
            })
            &&& eff == no_effect()
        },
        _ => {
            &&& post == pre
            &&& eff == no_effect()
        },
    }
}

/// What one key does while editing a task's deadline: the commit writes
/// the chosen priority and the deadline, refreshes the update timestamp,
/// persists, and returns to browsing with cleared buffers.
pub open spec fn step_editing_deadline(
    pre: SessionView,
    post: SessionView,
    i: usize,
    key: Key,
    now_date: Seq<char>,
    eff: Effect,
) -> bool {
    match key {
        Key::Enter => {
            let ci = pre.view[i as int] as int;
            let t = pre.todos[ci];
            &&& post == (SessionView {
                todos: pre.todos.update(
                    ci,
                    TodoView {
                        priority: prio_text(pre.input_priority),
                        deadline: pre.input_deadline,
                        date_time: now_date,
                        ..t
                    },
                ),
                mode: InputMode::Normal,
                input_title: Seq::empty(),
                input_content: Seq::empty(),
                input_deadline: Seq::empty(),
                ..pre
            })
            &&& eff == save_effect()
        },
        Key::Char(c) => {
            &&& post == (SessionView { input_deadline: pre.input_deadline.push(c), ..pre })
            &&& eff == no_effect()
        },
        Key::Backspace => {
            &&& post == (SessionView { input_deadline: backspaced(pre.input_deadline), ..pre })
            &&& eff == no_effect()
        },
        Key::Esc => {
            &&& post == (SessionView {
                mode: InputMode::Normal,
                input_title: Seq::empty(),
                input_content: Seq::empty(),
                input_deadline: Seq::empty(),
                ..pre
            })
            &&& eff == no_effect()
        },
        _ => {
            &&& post == pre
            &&& eff == no_effect()
        },
    }
}

/// What one key does while typing a search query: every edit resets the
/// cursor; the commit replaces the view with the matching positions; a
/// cancel discards the query and leaves the view alone.
pub open spec fn step_searching(pre: SessionView, post: SessionView, key: Key, eff: Effect) -> bool {
    match key {
        Key::Char(c) => {
            &&& post == (SessionView {
                search_query: pre.search_query.push(c),
                cursor: 0,
                ..pre
            })
            &&& eff == no_effect()
        },
        Key::Backspace => {
            &&& post == (SessionView {
                search_query: backspaced(pre.search_query),
                cursor: 0,
                ..pre
            })
            &&& eff == no_effect()
        },
        Key::Enter => {
            &&& post == (SessionView {
                view: match_indices(pre.todos, pre.search_query, pre.todos.len() as int),
                mode: InputMode::Normal,
                cursor: 0,
                ..pre
            })
            &&& eff == show_effect()
        },
        Key::Esc => {
            &&& post == (SessionView {
                mode: InputMode::Normal,
                search_query: Seq::empty(),
                ..pre
            })
            &&& eff == show_effect()
        },
        _ => {
            &&& post == pre
            &&& eff == no_effect()
        },
    }
}

/// What one key does while viewing the details of the task at view
/// position `i`: the secondary cursor walks the subtasks clamped and never
/// wrapping, the commit toggles the addressed subtask's done flag and
/// persists, and designated keys leave, open a subtask's details, or start
/// adding a subtask.
pub open spec fn step_viewing(
    pre: SessionView,
    post: SessionView,
    i: usize,
    key: Key,
    eff: Effect,
) -> bool {
    let ci = pre.view[i as int] as int;
    let count = pre.todos[ci].subtasks.len() as int;
    match key {
        Key::Char(c) => if c == 'q' {
            &&& post == (SessionView { mode: InputMode::Normal, ..pre })
            &&& eff == no_effect()
        } else if c == 's' {
            &&& post == (SessionView {
                mode: InputMode::AddingSubtask(i),
                input_title: Seq::empty(),
                ..pre
            })
            &&& eff == no_effect()
        } else if c == 'j' {
            let s2: int = if count == 0 {
                0
            } else if pre.sub_cursor + 1 < count {
                pre.sub_cursor + 1
            } else {
                count - 1
            };
            &&& post == (SessionView { sub_cursor: s2, ..pre })
            &&& eff == no_effect()
        } else if c == 'k' {
            let s2: int = if count == 0 {
                0
            } else if pre.sub_cursor == 0 {
                0
            } else if pre.sub_cursor - 1 < count - 1 {
                pre.sub_cursor - 1
            } else {
                count - 1
            };
            &&& post == (SessionView { sub_cursor: s2, ..pre })
            &&& eff == no_effect()
        } else if c == 'l' {
            if 0 <= pre.sub_cursor < count {
                &&& post == (SessionView {
                    mode: InputMode::ViewingSubtaskDetails(i, pre.sub_cursor as usize),
                    ..pre
                })
                &&& eff == no_effect()
            } else {
                &&& post == pre
                &&& eff == no_effect()
            }
        } else {
            &&& post == pre
            &&& eff == no_effect()
        },
        Key::Enter => if 0 <= pre.sub_cursor < count {
            let t = pre.todos[ci];
            let sj = pre.sub_cursor;
            let t2 = TodoView {
                subtasks: t.subtasks.update(sj, sub_with_done(t.subtasks[sj], !t.subtasks[sj].done)),
                ..t
            };
            &&& post == (SessionView { todos: pre.todos.update(ci, t2), ..pre })
            &&& eff == save_effect()
        } else {
            &&& post == pre
            &&& eff == no_effect()
        },
        _ => {
            &&& post == pre
            &&& eff == no_effect()
        },
    }
}

/// What one key does while viewing one subtask's details: leave back to
/// the parent's details, or toggle this subtask's done flag and persist.
pub open spec fn step_viewing_sub(
    pre: SessionView,
    post: SessionView,
    i: usize,
    j: usize,
    key: Key,
    eff: Effect,
) -> bool {
    let ci = pre.view[i as int] as int;
    match key {
        Key::Char(c) => if c == 'q' {
            &&& post == (SessionView { mode: InputMode::ViewingDetails(i), ..pre })
            &&& eff == no_effect()
        } else {
            &&& post == pre
            &&& eff == no_effect()
        },
        Key::Enter => {
            let t = pre.todos[ci];
            let t2 = TodoView {
                subtasks: t.subtasks.update(
                    j as int,
                    sub_with_done(t.subtasks[j as int], !t.subtasks[j as int].done),
                ),
                ..t
            };
            &&& post == (SessionView { todos: pre.todos.update(ci, t2), ..pre })
            &&& eff == save_effect()
        },
        _ => {
            &&& post == pre
            &&& eff == no_effect()
        },
    }
}

/// The minimal subtask an add-subtask commit appends: the typed title,
/// empty content and deadline, priority "low", the current time, not done.
pub open spec fn made_subtask(title: Seq<char>, now_date: Seq<char>) -> SubtaskView {
    SubtaskView {
        title,
        content: Seq::empty(),
        priority: "low"@,
        date_time: now_date,
        deadline: Seq::empty(),
        done: false,
    }
}

/// What one key does while typing a subtask's title under the task at view
/// position `i`: a non-empty commit appends the subtask, persists, and
/// returns to the parent's details; a cancel just returns.
pub open spec fn step_adding_subtask(
    pre: SessionView,
    post: SessionView,
    i: usize,
    key: Key,
    now_date: Seq<char>,
    eff: Effect,
) -> bool {
    let ci = pre.view[i as int] as int;
    match key {
        Key::Enter => if pre.input_title.len() > 0 {
            let t = pre.todos[ci];
            let t2 = TodoView {
                subtasks: t.subtasks.push(made_subtask(pre.input_title, now_date)),
                ..t
            };
            &&& post == (SessionView {
                todos: pre.todos.update(ci, t2),
                mode: InputMode::ViewingDetails(i),
                input_title: Seq::empty(),
                ..pre
            })
            &&& eff == save_effect()
        } else {
            &&& post == pre
            &&& eff == no_effect()
        },
        Key::Char(c) => {
            &&& post == (SessionView { input_title: pre.input_title.push(c), ..pre })
            &&& eff == no_effect()
        },
        Key::Backspace => {
            &&& post == (SessionView { input_title: backspaced(pre.input_title), ..pre })
            &&& eff == no_effect()
        },
        Key::Esc => {
            &&& post == (SessionView {
                mode: InputMode::ViewingDetails(i),
                input_title: Seq::empty(),
                ..pre
            })
            &&& eff == no_effect()
        },
        _ => {
            &&& post == pre
            &&& eff == no_effect()
        },
    }
}

/// The transition relation of the whole state machine: what one key event
/// does, given the mode the session is in.
pub open spec fn step(
    pre: SessionView,
    post: SessionView,
    key: Key,
    now_ms: u64,
    now_date: Seq<char>,
    eff: Effect,
) -> bool {
    match pre.mode {
        InputMode::Normal => step_normal(pre, post, key, now_ms, eff),
        InputMode::AddingTitle => step_adding_title(pre, post, key, eff),
        InputMode::AddingContent => step_adding_content(pre, post, key, eff),
        InputMode::AddingPriority => step_adding_priority(pre, post, key, eff),
        InputMode::AddingDeadline => step_adding_deadline(pre, post, key, now_date, eff),
        InputMode::EditingTitle(i) => step_editing_title(pre, post, i, key, eff),
        InputMode::EditingContent(i) => step_editing_content(pre, post, i, key, eff),
        InputMode::EditingPriority(i) => step_editing_priority(pre, post, i, key, eff),
        InputMode::EditingDeadline(i) => step_editing_deadline(pre, post, i, key, now_date, eff),
        InputMode::Searching => step_searching(pre, post, key, eff),
        InputMode::ViewingDetails(i) => step_viewing(pre, post, i, key, eff),
        InputMode::ViewingSubtaskDetails(i, j) => step_viewing_sub(pre, post, i, j, key, eff),
        InputMode::AddingSubtask(i) => step_adding_subtask(pre, post, i, key, now_date, eff),
    }
}

fn effect_none() -> (r: Effect)
    ensures
        r == no_effect(),
{
    Effect { save: false, quit: false, hide_cursor: false, show_cursor: false }
}

fn effect_save() -> (r: Effect)
    ensures
        r == save_effect(),
{
    Effect { save: true, quit: false, hide_cursor: false, show_cursor: false }
}

fn effect_quit() -> (r: Effect)
    ensures
        r == quit_effect(),
{
    Effect { save: false, quit: true, hide_cursor: false, show_cursor: false }
}

fn effect_hide() -> (r: Effect)
    ensures
        r == hide_effect(),
{
    Effect { save: false, quit: false, hide_cursor: true, show_cursor: false }
}

fn effect_show() -> (r: Effect)
    ensures
        r == show_effect(),
{
    Effect { save: false, quit: false, hide_cursor: false, show_cursor: true }
}

fn run_adding_title(s: &mut Session, key: Key) -> (r: Effect)
    requires
        wf(old(s)@),
        old(s)@.mode == InputMode::AddingTitle,
    ensures
        wf(final(s)@),
        step_adding_title(old(s)@, final(s)@, key, r),
{
    match key {
        Key::Enter => {
            if s.input_title.len() > 0 {
                s.mode = InputMode::AddingContent;
            }
            effect_none()
        },
        Key::Char(c) => {
            s.input_title.push(c);
            effect_none()
        },
        Key::Backspace => {
            s.input_title.pop();
            effect_none()
        },
        Key::Esc => {
            s.mode = InputMode::Normal;
            s.input_title.clear();
            s.input_content.clear();
            s.input_deadline.clear();
            effect_none()
        },
        _ => effect_none(),
    }
}

fn run_adding_content(s: &mut Session, key: Key) -> (r: Effect)
    requires
        wf(old(s)@),
        old(s)@.mode == InputMode::AddingContent,
    ensures
        wf(final(s)@),
        step_adding_content(old(s)@, final(s)@, key, r),
{
    match key {
        Key::Enter => {
            s.mode = InputMode::AddingPriority;
            effect_none()
        },
        Key::Char(c) => {
            s.input_content.push(c);
            effect_none()
        },
        Key::Backspace => {
            s.input_content.pop();
            effect_none()
        },
        Key::Esc => {
            s.mode = InputMode::Normal;
            s.input_title.clear();
            s.input_content.clear();
            s.input_deadline.clear();
            effect_none()
        },
        _ => effect_none(),
    }
}

fn run_adding_priority(s: &mut Session, key: Key) -> (r: Effect)
    requires
        wf(old(s)@),
        old(s)@.mode == InputMode::AddingPriority,
    ensures
        wf(final(s)@),
        step_adding_priority(old(s)@, final(s)@, key, r),
{
    match key {
        Key::Enter => {
            s.mode = InputMode::AddingDeadline;
            effect_none()
        },
        Key::Char(c) => {
            if c == 'j' {
                s.input_priority = s.input_priority.next();
            } else if c == 'k' {
                s.input_priority = s.input_priority.prev();
            }
            effect_none()
        },
        Key::Esc => {
            s.mode = InputMode::Normal;
            s.input_title.clear();
            s.input_content.clear();
            s.input_deadline.clear();
            effect_none()
        },
        _ => effect_none(),
    }
}

fn run_adding_deadline(s: &mut Session, key: Key, now_date: &str) -> (r: Effect)
    requires
        wf(old(s)@),
        old(s)@.mode == InputMode::AddingDeadline,
    ensures
        wf(final(s)@),
        step_adding_deadline(old(s)@, final(s)@, key, now_date@, r),
{
    let ghost pre = s@;
    match key {
        Key::Enter => {
            if s.input_title.len() > 0 {
                let nlen = s.todos.len();
                let title = string_from_chars(&s.input_title);
                let content = string_from_chars(&s.input_content);
                let priority = String::from_str(s.input_priority.to_str());
                let deadline = string_from_chars(&s.input_deadline);
                let date_time = String::from_str(now_date);
                add_task(&mut s.todos, &mut s.view, title, content, priority, deadline, date_time);
                s.mode = InputMode::Normal;
                s.input_title.clear();
                s.input_content.clear();
                s.input_deadline.clear();
                proof {
                    assert(s@.view == pre.view.push(nlen));
                    assert forall|a: int, b: int| 0 <= a < b < s@.view.len() implies s@.view[a]
                        != s@.view[b] by {
                        if b == s@.view.len() - 1 {
                            assert(s@.view[b] == nlen);
                            assert(s@.view[a] == pre.view[a]);
                            assert((pre.view[a] as int) < pre.todos.len());
                        } else {
                            assert(s@.view[a] == pre.view[a]);
                            assert(s@.view[b] == pre.view[b]);
                        }
                    }
                }
                effect_save()
            } else {
                effect_none()
            }
        },
        Key::Char(c) => {
            s.input_deadline.push(c);
            effect_none()
        },
        Key::Backspace => {
            s.input_deadline.pop();
            effect_none()
        },
        Key::Esc => {
            s.mode = InputMode::Normal;
            s.input_title.clear();
            s.input_content.clear();
            s.input_deadline.clear();
            effect_none()
        },
        _ => effect_none(),
    }
}

fn run_editing_title(s: &mut Session, i: usize, key: Key) -> (r: Effect)
    requires
        wf(old(s)@),
        old(s)@.mode == InputMode::EditingTitle(i),
    ensures
        wf(final(s)@),
        step_editing_title(old(s)@, final(s)@, i, key, r),
{
    let ghost pre = s@;
    match key {
        Key::Enter => {
            if s.input_title.len() > 0 {
                let ci = s.view[i];
                let new_title = string_from_chars(&s.input_title);
                let t = &mut s.todos[ci];
                t.title = new_title;
                s.mode = InputMode::EditingContent(i);
                proof {
                    let ci_ = pre.view[i as int] as int;
                    assert(todo_views(s.todos@) =~= pre.todos.update(
                        ci_,
                        TodoView { title: pre.input_title, ..pre.todos[ci_] },
                    ));
                }
                effect_none()
            } else {
                effect_none()
            }
        },
        Key::Char(c) => {
            s.input_title.push(c);
            effect_none()
        },
        Key::Backspace => {
            s.input_title.pop();
            effect_none()
        },
        Key::Esc => {
            s.mode = InputMode::Normal;
            s.input_title.clear();
            s.input_content.clear();
            s.input_deadline.clear();
            effect_none()
        },
        _ => effect_none(),
    }
}

fn run_editing_content(s: &mut Session, i: usize, key: Key) -> (r: Effect)
    requires
        wf(old(s)@),
        old(s)@.mode == InputMode::EditingContent(i),
    ensures
        wf(final(s)@),
        step_editing_content(old(s)@, final(s)@, i, key, r),
{
    let ghost pre = s@;
    match key {
        Key::Enter => {
            let ci = s.view[i];
            let new_content = string_from_chars(&s.input_content);
            let t = &mut s.todos[ci];
            t.content = new_content;
            s.mode = InputMode::EditingPriority(i);
            proof {
                let ci_ = pre.view[i as int] as int;
                assert(todo_views(s.todos@) =~= pre.todos.update(
                    ci_,
                    TodoView { content: pre.input_content, ..pre.todos[ci_] },
                ));
            }
            effect_none()
        },
        Key::Char(c) => {
            s.input_content.push(c);
            effect_none()
        },
        Key::Backspace => {
            s.input_content.pop();
            effect_none()
        },
        Key::Esc => {
            s.mode = InputMode::Normal;
            s.input_title.clear();
            s.input_content.clear();
            s.input_deadline.clear();
            effect_none()
        },
        _ => effect_none(),
    }
}

fn run_editing_priority(s: &mut Session, i: usize, key: Key) -> (r: Effect)
    requires
        wf(old(s)@),
        old(s)@.mode == InputMode::EditingPriority(i),
    ensures
        wf(final(s)@),
        step_editing_priority(old(s)@, final(s)@, i, key, r),
{
    match key {
        Key::Enter => {
            s.mode = InputMode::EditingDeadline(i);
            effect_none()
        },
        Key::Char(c) => {
            if c == 'j' {
                s.input_priority = s.input_priority.next();
            } else if c == 'k' {
                s.input_priority = s.input_priority.prev();
            }
            effect_none()
        },
        Key::Esc => {
            s.mode = InputMode::Normal;
            s.input_title.clear();
            s.input_content.clear();
            s.input_deadline.clear();
            effect_none()
        },
        _ => effect_none(),
    }
}

fn run_editing_deadline(s: &mut Session, i: usize, key: Key, now_date: &str) -> (r: Effect)
    requires
        wf(old(s)@),
        old(s)@.mode == InputMode::EditingDeadline(i),
    ensures
        wf(final(s)@),
        step_editing_deadline(old(s)@, final(s)@, i, key, now_date@, r),
{
    let ghost pre = s@;
    match key {
        Key::Enter => {
            let ci = s.view[i];
            let new_priority = String::from_str(s.input_priority.to_str());
            let new_deadline = string_from_chars(&s.input_deadline);
            let new_date = String::from_str(now_date);
            let t = &mut s.todos[ci];
            t.priority = new_priority;
            t.deadline = new_deadline;
            t.date_time = new_date;
            s.mode = InputMode::Normal;
            s.input_title.clear();
            s.input_content.clear();
            s.input_deadline.clear();
            proof {
                let ci_ = pre.view[i as int] as int;
                assert(todo_views(s.todos@) =~= pre.todos.update(
                    ci_,
                    TodoView {
                        priority: prio_text(pre.input_priority),
                        deadline: pre.input_deadline,
                        date_time: now_date@,
                        ..pre.todos[ci_]
                    },
                ));
            }
            effect_save()
        },
        Key::Char(c) => {
            s.input_deadline.push(c);
            effect_none()
        },
        Key::Backspace => {
            s.input_deadline.pop();
            effect_none()
        },
        Key::Esc => {
            s.mode = InputMode::Normal;
            s.input_title.clear();
            s.input_content.clear();
            s.input_deadline.clear();
            effect_none()
        },
        _ => effect_none(),
    }
}

fn run_searching(s: &mut Session, key: Key) -> (r: Effect)
    requires
        wf(old(s)@),
        old(s)@.mode == InputMode::Searching,
    ensures
        wf(final(s)@),
        step_searching(old(s)@, final(s)@, key, r),
{
    match key {
        Key::Char(c) => {
            s.search_query.push(c);
            s.cursor = 0;
            effect_none()
        },
        Key::Backspace => {
            s.search_query.pop();
            s.cursor = 0;
            effect_none()
        },
        Key::Enter => {
            let n = s.todos.len();
            let idx = search_indices(&s.todos, &s.search_query);
            proof {
                lemma_match_indices_bounds(todo_views(s.todos@), s.search_query@, n as int);
            }
            s.view = idx;
            s.mode = InputMode::Normal;
            s.cursor = 0;
            effect_show()
        },
        Key::Esc => {
            s.mode = InputMode::Normal;
            s.search_query.clear();
            effect_show()
        },
        _ => effect_none(),
    }
}

/// Toggle the done flag of the entity the cursor addresses; returns
/// whether anything changed.
fn toggle_done_at_cursor(s: &mut Session) -> (r: bool)
    requires
        wf(old(s)@),
    ensures
        wf(final(s)@),
        final(s)@.view == old(s)@.view,
        final(s)@.cursor == old(s)@.cursor,
        final(s)@.mode == old(s)@.mode,
        final(s)@.input_title == old(s)@.input_title,
        final(s)@.input_content == old(s)@.input_content,
        final(s)@.input_priority == old(s)@.input_priority,
        final(s)@.input_deadline == old(s)@.input_deadline,
        final(s)@.search_query == old(s)@.search_query,
        final(s)@.sub_cursor == old(s)@.sub_cursor,
        final(s)@.sort_mode == old(s)@.sort_mode,
        final(s)@.undo == old(s)@.undo,
        final(s)@.last_space == old(s)@.last_space,
        ({
            let pre = old(s)@;
            match resolve(viewed(pre.todos, pre.view), pre.cursor) {
                (Some(vi), None) => {
                    let ci = pre.view[vi] as int;
                    final(s)@.todos == pre.todos.update(
                        ci,
                        with_done(pre.todos[ci], !pre.todos[ci].done),
                    ) && r
                },
                (Some(vi), Some(sj)) => {
                    let ci = pre.view[vi] as int;
                    let t = pre.todos[ci];
                    let t2 = TodoView {
                        subtasks: t.subtasks.update(
                            sj,
                            sub_with_done(t.subtasks[sj], !t.subtasks[sj].done),
                        ),
                        ..t
                    };
                    final(s)@.todos == pre.todos.update(ci, t2) && r
                },
                _ => final(s)@.todos == pre.todos && !r,
            }
        }),
{
    let ghost pre = s@;
    let vw = materialize_view(&s.todos, &s.view);
    let (t, sub) = resolve_cursor(&vw, s.cursor);
    match (t, sub) {
        (Some(vi), None) => {
            let ci = s.view[vi];
            let d = s.todos[ci].done;
            let tt = &mut s.todos[ci];
            tt.done = !d;
            proof {
                let ci_ = pre.view[vi as int] as int;
                assert(todo_views(s.todos@) =~= pre.todos.update(
                    ci_,
                    with_done(pre.todos[ci_], !pre.todos[ci_].done),
                ));
            }
            true
        },
        (Some(vi), Some(sj)) => {
            let ci = s.view[vi];
            proof {
                assert(todo_views(vw@)[vi as int] == vw@[vi as int]@);
                assert(viewed(pre.todos, pre.view)[vi as int] == pre.todos[ci as int]);
                assert(sj < s.todos@[ci as int].subtasks@.len());
            }
            let d = s.todos[ci].subtasks[sj].done;
            let parent = &mut s.todos[ci];
            let st = &mut parent.subtasks[sj];
            st.done = !d;
            proof {
                let ci_ = pre.view[vi as int] as int;
                let t0 = pre.todos[ci_];
                let t2 = TodoView {
                    subtasks: t0.subtasks.update(
                        sj as int,
                        sub_with_done(t0.subtasks[sj as int], !t0.subtasks[sj as int].done),
                    ),
                    ..t0
                };
                assert(subtask_views(s.todos@[ci_].subtasks@) =~= t2.subtasks);
                assert(todo_views(s.todos@) =~= pre.todos.update(ci_, t2));
            }
            true
        },
        _ => false,
    }
}

fn run_normal(s: &mut Session, key: Key, now_ms: u64) -> (r: Effect)
    requires
        wf(old(s)@),
        old(s)@.mode == InputMode::Normal,
        slot_count(viewed(old(s)@.todos, old(s)@.view)) <= usize::MAX,
    ensures
        wf(final(s)@),
        step_normal(old(s)@, final(s)@, key, now_ms, r),
{
    let ghost pre0 = s@;
    match key {
        Key::Char(c) => {
            if c == ' ' {
                let hit = match s.last_space {
                    Some(t0) => now_ms >= t0 && now_ms - t0 <= DOUBLE_PRESS_MS,
                    None => false,
                };
                if hit {
                    s.mode = InputMode::Searching;
                    s.search_query.clear();
                    s.last_space = None;
                    effect_hide()
                } else {
                    s.last_space = Some(now_ms);
                    effect_none()
                }
            } else {
                s.last_space = None;
                let ghost pre = s@;
                if c == 'q' {
                    effect_quit()
                } else if c == 'a' {
                    s.mode = InputMode::AddingTitle;
                    s.input_title.clear();
                    s.input_content.clear();
                    s.input_priority = PrioritySelection::Low;
                    s.input_deadline.clear();
                    effect_none()
                } else if c == 'd' {
                    let changed = delete_task(
                        &mut s.todos,
                        &mut s.view,
                        &mut s.cursor,
                        &mut s.undo,
                    );
                    if changed {
                        effect_save()
                    } else {
                        effect_none()
                    }
                } else if c == 'r' {
                    let changed = restore_task(&mut s.todos, &mut s.view, &mut s.undo);
                    if changed {
                        effect_save()
                    } else {
                        effect_none()
                    }
                } else if c == 'e' {
                    let vw = materialize_view(&s.todos, &s.view);
                    let (t, _sub) = resolve_cursor(&vw, s.cursor);
                    match t {
                        Some(vi) => {
                            let ci = s.view[vi];
                            s.mode = InputMode::EditingTitle(vi);
                            s.input_title = chars_of(s.todos[ci].title.as_str());
                            s.input_content = chars_of(s.todos[ci].content.as_str());
                            s.input_priority = prio_of(s.todos[ci].priority.as_str());
                            s.input_deadline = chars_of(s.todos[ci].deadline.as_str());
                            effect_none()
                        },
                        None => effect_none(),
                    }
                } else if c == 'l' {
                    let vw = materialize_view(&s.todos, &s.view);
                    let (t, sub) = resolve_cursor(&vw, s.cursor);
                    match (t, sub) {
                        (Some(vi), None) => {
                            s.mode = InputMode::ViewingDetails(vi);
                            s.sub_cursor = 0;
                            effect_none()
                        },
                        _ => effect_none(),
                    }
                } else if c == 'j' {
                    let vw = materialize_view(&s.todos, &s.view);
                    s.cursor = cursor_down(&vw, s.cursor);
                    effect_none()
                } else if c == 'k' {
                    let vw = materialize_view(&s.todos, &s.view);
                    s.cursor = cursor_up(&vw, s.cursor);
                    effect_none()
                } else if c == 's' {
                    cycle_sort_mode(&mut s.sort_mode);
                    let mode2 = s.sort_mode;
                    sort_view(&s.todos, &mut s.view, mode2);
                    effect_none()
                } else if c == 'o' {
                    let vw = materialize_view(&s.todos, &s.view);
                    let (t, sub) = resolve_cursor(&vw, s.cursor);
                    match (t, sub) {
                        (Some(vi), None) => {
                            let ci = s.view[vi];
                            let tt = &mut s.todos[ci];
                            tt.expanded = true;
                            proof {
                                let ci_ = pre.view[vi as int] as int;
                                assert(todo_views(s.todos@) =~= pre.todos.update(
                                    ci_,
                                    with_expanded(pre.todos[ci_], true),
                                ));
                            }
                            effect_none()
                        },
                        _ => effect_none(),
                    }
                } else if c == 'h' {
                    let vw = materialize_view(&s.todos, &s.view);
                    let (t, sub) = resolve_cursor(&vw, s.cursor);
                    match (t, sub) {
                        (Some(vi), None) => {
                            let ci = s.view[vi];
                            let tt = &mut s.todos[ci];
                            tt.expanded = false;
                            proof {
                                let ci_ = pre.view[vi as int] as int;
                                assert(todo_views(s.todos@) =~= pre.todos.update(
                                    ci_,
                                    with_expanded(pre.todos[ci_], false),
                                ));
                            }
                            effect_none()
                        },
                        (Some(vi), Some(_sj)) => {
                            let ci = s.view[vi];
                            let tt = &mut s.todos[ci];
                            tt.expanded = false;
                            proof {
                                let ci_ = pre.view[vi as int] as int;
                                let ts2 = pre.todos.update(
                                    ci_,
                                    with_expanded(pre.todos[ci_], false),
                                );
                                assert(todo_views(s.todos@) =~= ts2);
                                crate::store::lemma_viewed_after_update(
                                    pre.todos,
                                    pre.view,
                                    vi as int,
                                    with_expanded(pre.todos[ci_], false),
                                );
                                crate::store::lemma_slot_count_update(
                                    viewed(pre.todos, pre.view),
                                    vi as int,
                                    with_expanded(pre.todos[ci_], false),
                                );
                            }
                            let vw2 = materialize_view(&s.todos, &s.view);
                            s.cursor = flat_of_task(&vw2, vi);
                            effect_none()
                        },
                        _ => effect_none(),
                    }
                } else {
                    effect_none()
                }
            }
        },
        Key::Enter => {
            s.last_space = None;
            let changed = toggle_done_at_cursor(s);
            if changed {
                effect_save()
            } else {
                effect_none()
            }
        },
        _ => {
            s.last_space = None;
            effect_none()
        },
    }
}

fn run_viewing(s: &mut Session, i: usize, key: Key) -> (r: Effect)
    requires
        wf(old(s)@),
        old(s)@.mode == InputMode::ViewingDetails(i),
    ensures
        wf(final(s)@),
        step_viewing(old(s)@, final(s)@, i, key, r),
{
    let ghost pre = s@;
    let ci = s.view[i];
    match key {
        Key::Char(c) => {
            if c == 'q' {
                s.mode = InputMode::Normal;
                effect_none()
            } else if c == 's' {
                s.mode = InputMode::AddingSubtask(i);
                s.input_title.clear();
                effect_none()
            } else if c == 'j' {
                let count = s.todos[ci].subtasks.len();
                if count == 0 {
                    s.sub_cursor = 0;
                } else if s.sub_cursor < count - 1 {
                    s.sub_cursor = s.sub_cursor + 1;
                } else {
                    s.sub_cursor = count - 1;
                }
                effect_none()
            } else if c == 'k' {
                let count = s.todos[ci].subtasks.len();
                if count == 0 {
                    s.sub_cursor = 0;
                } else if s.sub_cursor == 0 {
                    s.sub_cursor = 0;
                } else if s.sub_cursor - 1 < count - 1 {
                    s.sub_cursor = s.sub_cursor - 1;
                } else {
                    s.sub_cursor = count - 1;
                }
                effect_none()
            } else if c == 'l' {
                let count = s.todos[ci].subtasks.len();
                if s.sub_cursor < count {
                    s.mode = InputMode::ViewingSubtaskDetails(i, s.sub_cursor);
                }
                effect_none()
            } else {
                effect_none()
            }
        },
        Key::Enter => {
            let count = s.todos[ci].subtasks.len();
            if s.sub_cursor < count {
                let sj = s.sub_cursor;
                let d = s.todos[ci].subtasks[sj].done;
                let parent = &mut s.todos[ci];
                let st = &mut parent.subtasks[sj];
                st.done = !d;
                proof {
                    let ci_ = pre.view[i as int] as int;
                    let t0 = pre.todos[ci_];
                    let t2 = TodoView {
                        subtasks: t0.subtasks.update(
                            sj as int,
                            sub_with_done(t0.subtasks[sj as int], !t0.subtasks[sj as int].done),
                        ),
                        ..t0
                    };
                    assert(subtask_views(s.todos@[ci_].subtasks@) =~= t2.subtasks);
                    assert(todo_views(s.todos@) =~= pre.todos.update(ci_, t2));
                }
                effect_save()
            } else {
                effect_none()
            }
        },
        _ => effect_none(),
    }
}

fn run_viewing_sub(s: &mut Session, i: usize, j: usize, key: Key) -> (r: Effect)
    requires
        wf(old(s)@),
        old(s)@.mode == InputMode::ViewingSubtaskDetails(i, j),
    ensures
        wf(final(s)@),
        step_viewing_sub(old(s)@, final(s)@, i, j, key, r),
{
    let ghost pre = s@;
    match key {
        Key::Char(c) => {
            if c == 'q' {
                s.mode = InputMode::ViewingDetails(i);
            }
            effect_none()
        },
        Key::Enter => {
            let ci = s.view[i];
            let d = s.todos[ci].subtasks[j].done;
            let parent = &mut s.todos[ci];
            let st = &mut parent.subtasks[j];
            st.done = !d;
            proof {
                let ci_ = pre.view[i as int] as int;
                let t0 = pre.todos[ci_];
                let t2 = TodoView {
                    subtasks: t0.subtasks.update(
                        j as int,
                        sub_with_done(t0.subtasks[j as int], !t0.subtasks[j as int].done),
                    ),
                    ..t0
                };
                assert(subtask_views(s.todos@[ci_].subtasks@) =~= t2.subtasks);
                assert(todo_views(s.todos@) =~= pre.todos.update(ci_, t2));
            }
            effect_save()
        },
        _ => effect_none(),
    }
}

fn run_adding_subtask(s: &mut Session, i: usize, key: Key, now_date: &str) -> (r: Effect)
    requires
        wf(old(s)@),
        old(s)@.mode == InputMode::AddingSubtask(i),
    ensures
        wf(final(s)@),
        step_adding_subtask(old(s)@, final(s)@, i, key, now_date@, r),
{
    let ghost pre = s@;
    match key {
        Key::Enter => {
            if s.input_title.len() > 0 {
                let ci = s.view[i];
                let sub = crate::todo::Subtask {
                    title: string_from_chars(&s.input_title),
                    content: String::new(),
                    priority: String::from_str("low"),
                    date_time: String::from_str(now_date),
                    deadline: String::new(),
                    done: false,
                };
                let parent = &mut s.todos[ci];
                parent.subtasks.push(sub);
                s.mode = InputMode::ViewingDetails(i);
                s.input_title.clear();
                proof {
                    let ci_ = pre.view[i as int] as int;
                    let t0 = pre.todos[ci_];
                    let t2 = TodoView {
                        subtasks: t0.subtasks.push(made_subtask(pre.input_title, now_date@)),
                        ..t0
                    };
                    assert(subtask_views(s.todos@[ci_].subtasks@) =~= t2.subtasks);
                    assert(todo_views(s.todos@) =~= pre.todos.update(ci_, t2));
                }
                effect_save()
            } else {
                effect_none()
            }
        },
        Key::Char(c) => {
            s.input_title.push(c);
            effect_none()
        },
        Key::Backspace => {
            s.input_title.pop();
            effect_none()
        },
        Key::Esc => {
            s.mode = InputMode::ViewingDetails(i);
            s.input_title.clear();
            effect_none()
        },
        _ => effect_none(),
    }
}

/// Process one key event: reads the current mode, applies the transition
/// the state machine prescribes for it, and reports what the caller must
/// do. The caller supplies the event's timestamp in milliseconds and the
/// current date and time text used to stamp committed work.
pub fn handle_input(key: Key, now_ms: u64, now_date: &str, s: &mut Session) -> (r: Effect)
    requires
        wf(old(s)@),
        slot_count(viewed(old(s)@.todos, old(s)@.view)) <= usize::MAX,
    ensures
        wf(final(s)@),
        step(old(s)@, final(s)@, key, now_ms, now_date@, r),
{
    match s.mode {
        InputMode::Normal => run_normal(s, key, now_ms),
        InputMode::AddingTitle => run_adding_title(s, key),
        InputMode::AddingContent => run_adding_content(s, key),
        InputMode::AddingPriority => run_adding_priority(s, key),
        InputMode::AddingDeadline => run_adding_deadline(s, key, now_date),
        InputMode::EditingTitle(i) => run_editing_title(s, i, key),
        InputMode::EditingContent(i) => run_editing_content(s, i, key),
        InputMode::EditingPriority(i) => run_editing_priority(s, i, key),
        InputMode::EditingDeadline(i) => run_editing_deadline(s, i, key, now_date),
        InputMode::Searching => run_searching(s, key),
        InputMode::ViewingDetails(i) => run_viewing(s, i, key),
        InputMode::ViewingSubtaskDetails(i, j) => run_viewing_sub(s, i, j, key),
        InputMode::AddingSubtask(i) => run_adding_subtask(s, i, key, now_date),
    }
}

/// Committing an empty title while typing a new task's title is rejected:
/// the mode does not advance and the whole session, the store included, is
/// unchanged.
pub proof fn lemma_empty_title_commit_rejected(pre: SessionView, post: SessionView, eff: Effect)
    requires
        pre.mode == InputMode::AddingTitle,
        pre.input_title.len() == 0,
        step_adding_title(pre, post, Key::Enter, eff),
    ensures
        post == pre,
        post.mode == InputMode::AddingTitle,
        post.todos == pre.todos,
        eff == no_effect(),
{
}

/// Deleting the task the cursor addresses and then immediately restoring
/// yields the store of before with that one task moved to the end rather
/// than reinserted in place, and leaves the undo buffer as it was.
pub proof fn lemma_delete_then_restore_steps(
    pre: SessionView,
    mid: SessionView,
    post: SessionView,
    e1: Effect,
    e2: Effect,
    now1: u64,
    now2: u64,
)
    requires
        wf(pre),
        pre.mode == InputMode::Normal,
        (resolve(viewed(pre.todos, pre.view), pre.cursor) matches (Some(vi), None)),
        step_normal(pre, mid, Key::Char('d'), now1, e1),
        step_normal(mid, post, Key::Char('r'), now2, e2),
    ensures
        ({
            let vi = resolve(viewed(pre.todos, pre.view), pre.cursor).0->0;
            let ci = pre.view[vi] as int;
            &&& post.todos == pre.todos.remove(ci).push(pre.todos[ci])
            &&& post.undo == pre.undo
            &&& e1 == save_effect() && e2 == save_effect()
        }),
{
    crate::store::lemma_delete_then_restore(pre.todos, pre.view, pre.cursor, pre.undo);
}

} // verus!
