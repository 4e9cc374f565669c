use vstd::prelude::*;

verus! {

/// A single nested work item under a task. The interface exposes exactly one
/// level of nesting, so a subtask carries the scalar fields of a task and no
/// children of its own.
#[derive(Debug, PartialEq)]
pub struct Subtask {
    pub title: String,
    pub content: String,
    pub priority: String,
    pub date_time: String,
    pub deadline: String,
    pub done: bool,
}

/// A titled work item with priority text, timestamps, an optional deadline,
/// a completion flag, and an ordered list of subtasks that is shown inline
/// exactly when `expanded` is set.
#[derive(Debug, PartialEq)]
pub struct Todo {
    pub title: String,
    pub content: String,
    pub priority: String,
    pub date_time: String,
    pub deadline: String,
    pub done: bool,
    pub subtasks: Vec<Subtask>,
    pub expanded: bool,
}

/// The mathematical value of a `Subtask`: its text fields as character
/// sequences together with its flags.
#[verifier::ext_equal]
pub ghost struct SubtaskView {
    pub title: Seq<char>,
    pub content: Seq<char>,
    pub priority: Seq<char>,
    pub date_time: Seq<char>,
    pub deadline: Seq<char>,
    pub done: bool,
}

/// The mathematical value of a `Todo`.
#[verifier::ext_equal]
pub ghost struct TodoView {
    pub title: Seq<char>,
    pub content: Seq<char>,
    pub priority: Seq<char>,
    pub date_time: Seq<char>,
    pub deadline: Seq<char>,
    pub done: bool,
    pub subtasks: Seq<SubtaskView>,
    pub expanded: bool,
}

impl View for Subtask {
    type V = SubtaskView;

    open spec fn view(&self) -> SubtaskView {
        SubtaskView {
            title: self.title@,
            content: self.content@,
            priority: self.priority@,
            date_time: self.date_time@,
            deadline: self.deadline@,
            done: self.done,
        }
    }
}

/// The views of a sequence of subtasks, in order.
pub open spec fn subtask_views(s: Seq<Subtask>) -> Seq<SubtaskView> {
    Seq::new(s.len(), |i: int| s[i]@)
}

impl View for Todo {
    type V = TodoView;

    open spec fn view(&self) -> TodoView {
        TodoView {
            title: self.title@,
            content: self.content@,
            priority: self.priority@,
            date_time: self.date_time@,
            deadline: self.deadline@,
            done: self.done,
            subtasks: subtask_views(self.subtasks@),
            expanded: self.expanded,
        }
    }
}

/// The views of a sequence of tasks, in order.
pub open spec fn todo_views(s: Seq<Todo>) -> Seq<TodoView> {
    Seq::new(s.len(), |i: int| s[i]@)
}

/// Relies on `chrono::Utc::now` and `chrono::DateTime::to_rfc3339` for the
/// current time as an RFC 3339 string. The result depends on the system
/// clock, so nothing is claimed beyond what holds of every such string: it is
/// non-empty (the writer always emits a full date and time). `Utc::now`
/// aborts if the system clock reads before the Unix epoch.
#[verifier::external_body]
pub(crate) fn now_rfc3339() -> (r: String)
    ensures
        r@.len() > 0,
{
    chrono::Utc::now().to_rfc3339()
}

/// Relies on `String: FromIterator<char>`: collecting copied characters
/// yields the string with exactly those characters in order.
#[verifier::external_body]
pub(crate) fn string_from_chars(v: &Vec<char>) -> (r: String)
    ensures
        r@ == v@,
{
    v.iter().collect()
}

/// The characters of a string slice, as a vector.
pub fn chars_of(s: &str) -> (r: Vec<char>)
    ensures
        r@ == s@,
{
    let n = s.unicode_len();
    let mut r: Vec<char> = Vec::new();
    let mut i: usize = 0;
    while i < n
        invariant
            n == s@.len(),
            i <= n,
            r@ == s@.subrange(0, i as int),
        decreases n - i,
    {
        r.push(s.get_char(i));
        i = i + 1;
        proof {
            assert(r@ =~= s@.subrange(0, i as int));
        }
    }
    proof {
        assert(r@ =~= s@);
    }
    r
}

impl Subtask {
    /// Copy a subtask, field for field.
    pub fn duplicate(&self) -> (r: Subtask)
        ensures
            r@ == self@,
    {
        Subtask {
            title: self.title.clone(),
            content: self.content.clone(),
            priority: self.priority.clone(),
            date_time: self.date_time.clone(),
            deadline: self.deadline.clone(),
            done: self.done,
        }
    }
}

impl Todo {
    /// A freshly added task: the four committed fields, stamped with the
    /// current time, not done, with no subtasks and collapsed.
    pub fn new(title: String, content: String, priority: String, deadline: String) -> (r: Todo)
        ensures
            r@.title == title@,
            r@.content == content@,
            r@.priority == priority@,
            r@.deadline == deadline@,
            r@.date_time.len() > 0,
            r@.done == false,
            r@.subtasks.len() == 0,
            r@.expanded == false,
    {
        let r = Todo {
            title,
            content,
            priority,
            date_time: now_rfc3339(),
            deadline,
            done: false,
            subtasks: Vec::new(),
            expanded: false,
        };
        proof {
            assert(r@.subtasks =~= Seq::<SubtaskView>::empty());
        }
        r
    }

    /// Append a minimal subtask: the given title, empty content and deadline,
    /// priority "low", stamped with the current time, not done.
    pub fn add_subtask(&mut self, title: String)
        ensures
            final(self)@.subtasks.len() == old(self)@.subtasks.len() + 1,
            final(self)@.subtasks.subrange(0, old(self)@.subtasks.len() as int)
                == old(self)@.subtasks,
            final(self)@.subtasks.last().title == title@,
            final(self)@.subtasks.last().content == Seq::<char>::empty(),
            final(self)@.subtasks.last().priority == "low"@,
            final(self)@.subtasks.last().deadline == Seq::<char>::empty(),
            final(self)@.subtasks.last().done == false,
            final(self)@ == (TodoView { subtasks: final(self)@.subtasks, ..old(self)@ }),
    {
        let sub = Subtask {
            title,
            content: String::new(),
            priority: String::from_str("low"),
            date_time: now_rfc3339(),
            deadline: String::new(),
            done: false,
        };
        self.subtasks.push(sub);
        proof {
            assert(final(self)@.subtasks.subrange(0, old(self)@.subtasks.len() as int)
                =~= old(self)@.subtasks);
            assert(final(self)@ =~= TodoView { subtasks: final(self)@.subtasks, ..old(self)@ });
        }
    }

    /// Copy a task, field for field.
    pub fn duplicate(&self) -> (r: Todo)
        ensures
            r@ == self@,
    {
        let mut subs: Vec<Subtask> = Vec::new();
        let n = self.subtasks.len();
        let mut i: usize = 0;
        while i < n
            invariant
                n == self.subtasks.len(),
                i <= n,
                subs@.len() == i,
                forall|k: int| 0 <= k < i ==> subs@[k]@ == #[trigger] self.subtasks@[k]@,
            decreases n - i,
        {
            subs.push(self.subtasks[i].duplicate());
            i = i + 1;
        }
        let r = Todo {
            title: self.title.clone(),
            content: self.content.clone(),
            priority: self.priority.clone(),
            date_time: self.date_time.clone(),
            deadline: self.deadline.clone(),
            done: self.done,
            subtasks: subs,
            expanded: self.expanded,
        };
        proof {
            assert(r@.subtasks =~= self@.subtasks);
            assert(r@ =~= self@);
        }
        r
    }
}

impl Default for Todo {
    /// The blank task: empty texts, priority "low", stamped with the
    /// current time, not done, no subtasks, collapsed.
    fn default() -> (r: Todo)
        ensures
            r@.title == Seq::<char>::empty(),
            r@.content == Seq::<char>::empty(),
            r@.priority == "low"@,
            r@.date_time.len() > 0,
            r@.deadline == Seq::<char>::empty(),
            r@.done == false,
            r@.subtasks.len() == 0,
            r@.expanded == false,
    {
        let r = Todo {
            title: String::new(),
            content: String::new(),
            priority: String::from_str("low"),
            date_time: now_rfc3339(),
            deadline: String::new(),
            done: false,
            subtasks: Vec::new(),
            expanded: false,
        };
        proof {
            assert(r@.subtasks =~= Seq::<SubtaskView>::empty());
        }
        r
    }
}

impl Clone for Subtask {
    /// Cloning keeps every field.
    fn clone(&self) -> (r: Self)
        ensures
            r@ == self@,
    {
        self.duplicate()
    }
}

impl Clone for Todo {
    /// Cloning keeps every field.
    fn clone(&self) -> (r: Self)
        ensures
            r@ == self@,
    {
        self.duplicate()
    }
}

} // verus!
