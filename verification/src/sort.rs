use vstd::prelude::*;
use vstd::seq_lib::lemma_multiset_commutative;
use vstd::multiset::Multiset;
use crate::todo::{Todo, TodoView, todo_views};

verus! {

/// The criterion the task list is currently ordered by.
#[derive(Clone, Copy, Debug, PartialEq, Eq, Structural)]
pub enum SortMode {
    ByCompletion,
    ByDeadline,
    ByPriority,
}

/// Step to the next criterion in the fixed cycle
/// Completion -> Deadline -> Priority -> Completion.
pub fn cycle_sort_mode(sort_mode: &mut SortMode)
    ensures
        *final(sort_mode) == (match *old(sort_mode) {
            SortMode::ByCompletion => SortMode::ByDeadline,
            SortMode::ByDeadline => SortMode::ByPriority,
            SortMode::ByPriority => SortMode::ByCompletion,
        }),
{
    match sort_mode {
        SortMode::ByCompletion => *sort_mode = SortMode::ByDeadline,
        SortMode::ByDeadline => *sort_mode = SortMode::ByPriority,
        SortMode::ByPriority => *sort_mode = SortMode::ByCompletion,
    }
}

/// Lexicographic order on character sequences, by code point; a prefix comes
/// before every longer sequence it starts.
pub open spec fn lex_le(a: Seq<char>, b: Seq<char>) -> bool
    decreases a.len(),
{
    if a.len() == 0 {
        true
    } else if b.len() == 0 {
        false
    } else if (a[0] as u32) < (b[0] as u32) {
        true
    } else if (a[0] as u32) > (b[0] as u32) {
        false
    } else {
        lex_le(a.drop_first(), b.drop_first())
    }
}

/// The rank a priority text sorts by: recognized priorities in order, and
/// anything unrecognized after all of them.
pub open spec fn prio_rank(p: Seq<char>) -> int {
    if p == "high"@ {
        0
    } else if p == "medium"@ {
        1
    } else if p == "low"@ {
        2
    } else {
        3
    }
}

/// "a sorts no later than b" under the given criterion. An empty deadline
/// sorts after every non-empty one.
pub open spec fn le_by(mode: SortMode, a: TodoView, b: TodoView) -> bool {
    match mode {
        SortMode::ByCompletion => b.done || !a.done,
        SortMode::ByDeadline => if b.deadline.len() == 0 {
            true
        } else if a.deadline.len() == 0 {
            false
        } else {
            lex_le(a.deadline, b.deadline)
        },
        SortMode::ByPriority => prio_rank(a.priority) <= prio_rank(b.priority),
    }
}

/// Every earlier task sorts no later than every later one.
pub open spec fn sorted_by_mode(mode: SortMode, s: Seq<TodoView>) -> bool {
    forall|i: int, j: int| 0 <= i < j < s.len() ==> le_by(mode, s[i], s[j])
}

pub proof fn lemma_lex_le_total(a: Seq<char>, b: Seq<char>)
    ensures
        lex_le(a, b) || lex_le(b, a),
    decreases a.len(),
{
    if a.len() == 0 || b.len() == 0 {
    } else if (a[0] as u32) == (b[0] as u32) {
        lemma_lex_le_total(a.drop_first(), b.drop_first());
    }
}

pub proof fn lemma_lex_le_trans(a: Seq<char>, b: Seq<char>, c: Seq<char>)
    requires
        lex_le(a, b),
        lex_le(b, c),
    ensures
        lex_le(a, c),
    decreases a.len(),
{
    if a.len() == 0 || b.len() == 0 || c.len() == 0 {
    } else if (a[0] as u32) == (b[0] as u32) && (b[0] as u32) == (c[0] as u32) {
        lemma_lex_le_trans(a.drop_first(), b.drop_first(), c.drop_first());
    }
}

/// The sort criterion is total: of any two tasks, one sorts no later than
/// the other.
pub proof fn lemma_le_by_total(mode: SortMode, a: TodoView, b: TodoView)
    ensures
        le_by(mode, a, b) || le_by(mode, b, a),
{
    if mode is ByDeadline {
        lemma_lex_le_total(a.deadline, b.deadline);
    }
}

/// The sort criterion is transitive.
pub proof fn lemma_le_by_trans(mode: SortMode, a: TodoView, b: TodoView, c: TodoView)
    requires
        le_by(mode, a, b),
        le_by(mode, b, c),
    ensures
        le_by(mode, a, c),
{
    if mode is ByDeadline {
        if a.deadline.len() != 0 && b.deadline.len() != 0 && c.deadline.len() != 0 {
            lemma_lex_le_trans(a.deadline, b.deadline, c.deadline);
        }
    }
}

/// Inserting an element anywhere in a sequence adds it to the multiset of
/// the sequence's elements.
pub proof fn lemma_to_multiset_insert<A>(s: Seq<A>, p: int, e: A)
    requires
        0 <= p <= s.len(),
    ensures
        s.insert(p, e).to_multiset() =~= s.to_multiset().insert(e),
{
    broadcast use vstd::seq_lib::group_to_multiset_ensures;
    broadcast use vstd::multiset::group_multiset_axioms;

    let a = s.subrange(0, p);
    let b = s.subrange(p, s.len() as int);
    assert(s =~= a + b);
    assert(s.insert(p, e) =~= a.push(e) + b);
    lemma_multiset_commutative(a.push(e), b);
    lemma_multiset_commutative(a, b);
    a.to_multiset_ensures();
}

/// Inserting an element between everything it is below and everything it is
/// above keeps the sequence sorted.
pub proof fn lemma_sorted_insert(mode: SortMode, s: Seq<TodoView>, p: int, e: TodoView)
    requires
        sorted_by_mode(mode, s),
        0 <= p <= s.len(),
        forall|q: int| 0 <= q < p ==> le_by(mode, s[q], e),
        p < s.len() ==> le_by(mode, e, s[p]),
    ensures
        sorted_by_mode(mode, s.insert(p, e)),
{
    let t = s.insert(p, e);
    s.insert_ensures(p, e);
    assert forall|i: int, j: int| 0 <= i < j < t.len() implies le_by(mode, t[i], t[j]) by {
        if i < p && j == p {
        } else if i == p && j > p {
            if j - 1 > p {
                lemma_le_by_trans(mode, e, s[p], s[j - 1]);
            }
        }
    }
}

/// Where a task lands when inserted into an already sorted list: after
/// every task that sorts no later than it, before the first that sorts
/// after it.
pub open spec fn insert_sorted_spec(mode: SortMode, s: Seq<TodoView>, x: TodoView) -> Seq<TodoView>
    decreases s.len(),
{
    if s.len() == 0 {
        seq![x]
    } else if le_by(mode, s[0], x) {
        seq![s[0]] + insert_sorted_spec(mode, s.drop_first(), x)
    } else {
        seq![x] + s
    }
}

/// The stable sort of a sequence: each task, in store order, inserted
/// into the sorted result of the tasks before it.
pub open spec fn sort_spec(mode: SortMode, s: Seq<TodoView>) -> Seq<TodoView>
    decreases s.len(),
{
    if s.len() == 0 {
        Seq::empty()
    } else {
        insert_sorted_spec(mode, sort_spec(mode, s.drop_last()), s.last())
    }
}

/// Inserting at the first position whose task sorts strictly after the
/// new one is what the insertion spec prescribes.
proof fn lemma_insert_at_first_pos(mode: SortMode, s: Seq<TodoView>, x: TodoView, p: int)
    requires
        0 <= p <= s.len(),
        forall|q: int| 0 <= q < p ==> le_by(mode, s[q], x),
        p < s.len() ==> !le_by(mode, s[p], x),
    ensures
        insert_sorted_spec(mode, s, x) == s.insert(p, x),
    decreases s.len(),
{
    if s.len() == 0 {
        assert(s.insert(0, x) =~= seq![x]);
    } else if p == 0 {
        assert(s.insert(0, x) =~= seq![x] + s);
    } else {
        assert(le_by(mode, s[0], x));
        assert forall|q: int| 0 <= q < p - 1 implies le_by(mode, s.drop_first()[q], x) by {
            assert(s.drop_first()[q] == s[q + 1]);
        }
        assert(p - 1 < s.drop_first().len() ==> !le_by(mode, s.drop_first()[p - 1], x));
        lemma_insert_at_first_pos(mode, s.drop_first(), x, p - 1);
        assert(seq![s[0]] + s.drop_first().insert(p - 1, x) =~= s.insert(p, x));
    }
}

/// One comparison under the current criterion.
pub(crate) fn le_todo(mode: SortMode, a: &Todo, b: &Todo) -> (r: bool)
    ensures
        r == le_by(mode, a@, b@),
{
    match mode {
        SortMode::ByCompletion => b.done || !a.done,
        SortMode::ByDeadline => {
            if b.deadline.as_str().is_empty() {
                true
            } else if a.deadline.as_str().is_empty() {
                false
            } else {
                lex_le_str(a.deadline.as_str(), b.deadline.as_str())
            }
        },
        SortMode::ByPriority => {
            priority_rank(a.priority.as_str()) <= priority_rank(b.priority.as_str())
        },
    }
}

/// Whether two string slices hold the same characters.
pub fn str_eq_str(a: &str, b: &str) -> (r: bool)
    ensures
        r == (a@ == b@),
{
    let an = a.unicode_len();
    let bn = b.unicode_len();
    if an != bn {
        return false;
    }
    let mut i: usize = 0;
    while i < an
        invariant
            an == a@.len(),
            bn == b@.len(),
            an == bn,
            i <= an,
            forall|k: int| 0 <= k < i ==> a@[k] == b@[k],
        decreases an - i,
    {
        if a.get_char(i) != b.get_char(i) {
            return false;
        }
        i = i + 1;
    }
    proof {
        assert(a@ =~= b@);
    }
    true
}

/// Lexicographic comparison of two string slices, by code point.
pub fn lex_le_str(a: &str, b: &str) -> (r: bool)
    ensures
        r == lex_le(a@, b@),
{
    let an = a.unicode_len();
    let bn = b.unicode_len();
    let mut i: usize = 0;
    proof {
        assert(a@.skip(0) =~= a@);
        assert(b@.skip(0) =~= b@);
    }
    loop
        invariant
            an == a@.len(),
            bn == b@.len(),
            i <= an,
            i <= bn,
            lex_le(a@, b@) == lex_le(a@.skip(i as int), b@.skip(i as int)),
        decreases an - i,
    {
        proof {
            if i < an {
                assert(a@.skip(i as int)[0] == a@[i as int]);
                assert(a@.skip(i as int).drop_first() =~= a@.skip(i as int + 1));
            }
            if i < bn {
                assert(b@.skip(i as int)[0] == b@[i as int]);
                assert(b@.skip(i as int).drop_first() =~= b@.skip(i as int + 1));
            }
        }
        if i >= an {
            proof {
                assert(a@.skip(i as int).len() == 0);
            }
            return true;
        }
        if i >= bn {
            proof {
                assert(b@.skip(i as int).len() == 0);
                assert(a@.skip(i as int).len() > 0);
            }
            return false;
        }
        let ca = a.get_char(i);
        let cb = b.get_char(i);
        if (ca as u32) < (cb as u32) {
            return true;
        }
        if (ca as u32) > (cb as u32) {
            return false;
        }
        i = i + 1;
    }
}

/// The rank a priority text sorts by.
pub fn priority_rank(p: &str) -> (r: u8)
    ensures
        r as int == prio_rank(p@),
{
    if str_eq_str(p, "high") {
        0
    } else if str_eq_str(p, "medium") {
        1
    } else if str_eq_str(p, "low") {
        2
    } else {
        3
    }
}

/// The position a task is inserted at to keep the list sorted: after every
/// task that sorts no later than it, before the first that sorts after it.
fn find_insert_pos(mode: SortMode, out: &Vec<Todo>, x: &Todo) -> (p: usize)
    ensures
        p <= out@.len(),
        forall|q: int| 0 <= q < p ==> le_by(mode, todo_views(out@)[q], x@),
        p < out@.len() ==> le_by(mode, x@, todo_views(out@)[p as int]),
        p < out@.len() ==> !le_by(mode, todo_views(out@)[p as int], x@),
{
    let mut p: usize = 0;
    while p < out.len()
        invariant
            p <= out@.len(),
            forall|q: int| 0 <= q < p ==> le_by(mode, todo_views(out@)[q], x@),
        decreases out@.len() - p,
    {
        if !le_todo(mode, &out[p], &x) {
            proof {
                lemma_le_by_total(mode, out@[p as int]@, x@);
            }
            return p;
        }
        p = p + 1;
    }
    p
}

/// Reorder the whole list by the given criterion: the result holds the same
/// tasks and every earlier one sorts no later than every later one. The
/// result is exactly the stable insertion of the tasks in store order:
/// each task lands after every earlier task that sorts no later than it,
/// so equal tasks keep their relative order.
pub fn sort_todos(todos: &mut Vec<Todo>, mode: SortMode)
    ensures
        todo_views(final(todos)@) == sort_spec(mode, todo_views(old(todos)@)),
        todo_views(final(todos)@).to_multiset() == todo_views(old(todos)@).to_multiset(),
        sorted_by_mode(mode, todo_views(final(todos)@)),
{
    broadcast use vstd::seq_lib::group_to_multiset_ensures;
    broadcast use vstd::multiset::group_multiset_axioms;

    let ghost orig = todo_views(old(todos)@);
    let mut out: Vec<Todo> = Vec::new();
    let ghost mut k: int = 0;
    proof {
        assert(todo_views(out@).to_multiset().add(todo_views(todos@).to_multiset())
            =~= orig.to_multiset()) by {
            assert(todo_views(out@) =~= Seq::<TodoView>::empty());
        }
        assert(todo_views(out@) =~= Seq::<TodoView>::empty());
        assert(orig.take(0) =~= Seq::<TodoView>::empty());
        assert(orig.skip(0) =~= orig);
    }
    while todos.len() > 0
        invariant
            0 <= k <= orig.len(),
            todo_views(todos@) == orig.skip(k),
            todo_views(out@) == sort_spec(mode, orig.take(k)),
            todo_views(out@).to_multiset().add(todo_views(todos@).to_multiset())
                == orig.to_multiset(),
            sorted_by_mode(mode, todo_views(out@)),
        decreases todos@.len(),
    {
        let ghost pre = todo_views(todos@);
        let x = todos.remove(0);
        proof {
            assert(todo_views(todos@) =~= pre.drop_first());
            assert(pre =~= pre.drop_first().insert(0, x@));
            lemma_to_multiset_insert(pre.drop_first(), 0, x@);
            assert(orig.skip(k)[0] == orig[k]);
            assert(x@ == orig[k]);
            assert(orig.skip(k).drop_first() =~= orig.skip(k + 1));
            assert(todo_views(todos@) =~= orig.skip(k + 1));
        }
        let p = find_insert_pos(mode, &out, &x);
        proof {
            let ov = todo_views(out@);
            lemma_sorted_insert(mode, ov, p as int, x@);
            lemma_to_multiset_insert(ov, p as int, x@);
            lemma_insert_at_first_pos(mode, ov, x@, p as int);
        }
        let ghost before = todo_views(out@);
        out.insert(p, x);
        proof {
            assert(todo_views(out@) =~= before.insert(p as int, x@));
            assert(orig.take(k + 1).drop_last() =~= orig.take(k));
            assert(orig.take(k + 1).last() == orig[k]);
            assert(todo_views(out@) == sort_spec(mode, orig.take(k + 1)));
            k = k + 1;
        }
    }
    proof {
        assert(todo_views(todos@) =~= Seq::<TodoView>::empty());
        assert(orig.take(k) =~= orig);
    }
    *todos = out;
}

/// Every earlier position points at a task that sorts no later than every
/// later one's.
pub open spec fn view_sorted_by_mode(mode: SortMode, ts: Seq<TodoView>, view: Seq<usize>) -> bool {
    forall|i: int, j: int|
        0 <= i < j < view.len() ==> le_by(mode, ts[view[i] as int], ts[view[j] as int])
}

/// Where a position lands when inserted into a list of positions whose
/// tasks are already sorted.
pub open spec fn insert_view_spec(
    mode: SortMode,
    ts: Seq<TodoView>,
    s: Seq<usize>,
    x: usize,
) -> Seq<usize>
    decreases s.len(),
{
    if s.len() == 0 {
        seq![x]
    } else if le_by(mode, ts[s[0] as int], ts[x as int]) {
        seq![s[0]] + insert_view_spec(mode, ts, s.drop_first(), x)
    } else {
        seq![x] + s
    }
}

/// The stable sort of a list of positions, by the tasks they point at.
pub open spec fn sort_view_spec(mode: SortMode, ts: Seq<TodoView>, s: Seq<usize>) -> Seq<usize>
    decreases s.len(),
{
    if s.len() == 0 {
        Seq::empty()
    } else {
        insert_view_spec(mode, ts, sort_view_spec(mode, ts, s.drop_last()), s.last())
    }
}

/// Inserting a position at the first place whose task sorts strictly
/// after the new one's is what the insertion spec prescribes.
proof fn lemma_insert_view_at_first_pos(
    mode: SortMode,
    ts: Seq<TodoView>,
    s: Seq<usize>,
    x: usize,
    p: int,
)
    requires
        0 <= p <= s.len(),
        forall|q: int| 0 <= q < p ==> le_by(mode, ts[s[q] as int], ts[x as int]),
        p < s.len() ==> !le_by(mode, ts[s[p] as int], ts[x as int]),
    ensures
        insert_view_spec(mode, ts, s, x) == s.insert(p, x),
    decreases s.len(),
{
    if s.len() == 0 {
        assert(s.insert(0, x) =~= seq![x]);
    } else if p == 0 {
        assert(s.insert(0, x) =~= seq![x] + s);
    } else {
        assert(le_by(mode, ts[s[0] as int], ts[x as int]));
        assert forall|q: int| 0 <= q < p - 1 implies le_by(
            mode,
            ts[s.drop_first()[q] as int],
            ts[x as int],
        ) by {
            assert(s.drop_first()[q] == s[q + 1]);
        }
        assert(p - 1 < s.drop_first().len() ==> !le_by(
            mode,
            ts[s.drop_first()[p - 1] as int],
            ts[x as int],
        ));
        lemma_insert_view_at_first_pos(mode, ts, s.drop_first(), x, p - 1);
        assert(seq![s[0]] + s.drop_first().insert(p - 1, x) =~= s.insert(p, x));
    }
}

/// As `lemma_sorted_insert`, for a list of positions ordered by the tasks
/// they point at.
proof fn lemma_sorted_insert_idx(
    mode: SortMode,
    ts: Seq<TodoView>,
    s: Seq<usize>,
    p: int,
    e: usize,
)
    requires
        view_sorted_by_mode(mode, ts, s),
        0 <= p <= s.len(),
        e < ts.len(),
        forall|q: int| 0 <= q < s.len() ==> (#[trigger] s[q]) < ts.len(),
        forall|q: int| 0 <= q < p ==> le_by(mode, ts[s[q] as int], ts[e as int]),
        p < s.len() ==> le_by(mode, ts[e as int], ts[s[p] as int]),
    ensures
        view_sorted_by_mode(mode, ts, s.insert(p, e)),
{
    let t = s.insert(p, e);
    s.insert_ensures(p, e);
    assert forall|i: int, j: int| 0 <= i < j < t.len() implies le_by(
        mode,
        ts[t[i] as int],
        ts[t[j] as int],
    ) by {
        if i < p && j == p {
        } else if i == p && j > p {
            if j - 1 > p {
                lemma_le_by_trans(mode, ts[e as int], ts[s[p] as int], ts[s[j - 1] as int]);
            }
        }
    }
}

/// The position an index is inserted at to keep the pointed-at tasks sorted.
fn find_insert_pos_idx(mode: SortMode, todos: &Vec<Todo>, out: &Vec<usize>, x: usize) -> (p: usize)
    requires
        x < todos@.len(),
        forall|q: int| 0 <= q < out@.len() ==> (#[trigger] out@[q]) < todos@.len(),
    ensures
        p <= out@.len(),
        forall|q: int|
            0 <= q < p ==> le_by(
                mode,
                todo_views(todos@)[out@[q] as int],
                todo_views(todos@)[x as int],
            ),
        p < out@.len() ==> le_by(
            mode,
            todo_views(todos@)[x as int],
            todo_views(todos@)[out@[p as int] as int],
        ),
        p < out@.len() ==> !le_by(
            mode,
            todo_views(todos@)[out@[p as int] as int],
            todo_views(todos@)[x as int],
        ),
{
    let mut p: usize = 0;
    while p < out.len()
        invariant
            x < todos@.len(),
            forall|q: int| 0 <= q < out@.len() ==> (#[trigger] out@[q]) < todos@.len(),
            p <= out@.len(),
            forall|q: int|
                0 <= q < p ==> le_by(
                    mode,
                    todo_views(todos@)[out@[q] as int],
                    todo_views(todos@)[x as int],
                ),
        decreases out@.len() - p,
    {
        let ci = out[p];
        if !le_todo(mode, &todos[ci], &todos[x]) {
            proof {
                lemma_le_by_total(mode, todo_views(todos@)[ci as int], todo_views(todos@)[x as int]);
            }
            return p;
        }
        p = p + 1;
    }
    p
}

/// Reorder the filtered view by the given criterion: the result is
/// exactly the stable insertion of its positions in view order, so it
/// keeps the same positions, every position still exists in the store and
/// occurs once, and the tasks it presents come out sorted.
pub fn sort_view(todos: &Vec<Todo>, view: &mut Vec<usize>, mode: SortMode)
    requires
        crate::store::view_ok(todo_views(todos@), old(view)@),
    ensures
        final(view)@ == sort_view_spec(mode, todo_views(todos@), old(view)@),
        crate::store::view_ok(todo_views(todos@), final(view)@),
        final(view)@.to_multiset() == old(view)@.to_multiset(),
        view_sorted_by_mode(mode, todo_views(todos@), final(view)@),
{
    broadcast use vstd::seq_lib::group_to_multiset_ensures;
    broadcast use vstd::multiset::group_multiset_axioms;

    let ghost ts = todo_views(todos@);
    let ghost orig = old(view)@;
    let mut out: Vec<usize> = Vec::new();
    let ghost mut k: int = 0;
    proof {
        assert(out@.to_multiset().add(view@.to_multiset()) =~= orig.to_multiset());
        assert(out@ =~= Seq::<usize>::empty());
        assert(orig.take(0) =~= Seq::<usize>::empty());
        assert(orig.skip(0) =~= orig);
    }
    while view.len() > 0
        invariant
            ts == todo_views(todos@),
            ts.len() == todos@.len(),
            0 <= k <= orig.len(),
            view@ == orig.skip(k),
            out@ == sort_view_spec(mode, ts, orig.take(k)),
            out@.to_multiset().add(view@.to_multiset()) == orig.to_multiset(),
            forall|q: int| 0 <= q < out@.len() ==> (#[trigger] out@[q]) < ts.len(),
            forall|q: int| 0 <= q < view@.len() ==> (#[trigger] view@[q]) < ts.len(),
            view_sorted_by_mode(mode, ts, out@),
        decreases view@.len(),
    {
        let ghost pre = view@;
        let x = view.remove(0);
        proof {
            assert(pre =~= pre.drop_first().insert(0, x));
            lemma_to_multiset_insert(pre.drop_first(), 0, x);
            assert(orig.skip(k)[0] == orig[k]);
            assert(x == orig[k]);
            assert(orig.skip(k).drop_first() =~= orig.skip(k + 1));
            assert(view@ =~= orig.skip(k + 1));
        }
        let p = find_insert_pos_idx(mode, todos, &out, x);
        proof {
            lemma_sorted_insert_idx(mode, ts, out@, p as int, x);
            lemma_to_multiset_insert(out@, p as int, x);
            lemma_insert_view_at_first_pos(mode, ts, out@, x, p as int);
        }
        let ghost before = out@;
        out.insert(p, x);
        proof {
            assert(out@ == before.insert(p as int, x));
            assert forall|q: int| 0 <= q < out@.len() implies (#[trigger] out@[q]) < ts.len() by {
                before.insert_ensures(p as int, x);
            }
            assert(orig.take(k + 1).drop_last() =~= orig.take(k));
            assert(orig.take(k + 1).last() == orig[k]);
            assert(out@ == sort_view_spec(mode, ts, orig.take(k + 1)));
            k = k + 1;
        }
    }
    proof {
        assert(view@.to_multiset() =~= Multiset::<usize>::empty());
        assert(out@.to_multiset() =~= orig.to_multiset());
        assert(orig.take(k) =~= orig);
    }
    *view = out;
    proof {
        orig.lemma_multiset_has_no_duplicates();
        view@.lemma_multiset_has_no_duplicates_conv();
        assert forall|i: int, j: int| 0 <= i < j < view@.len() implies view@[i] != view@[j] by {
            assert(view@.no_duplicates());
        }
        assert forall|i: int| 0 <= i < view@.len() implies (#[trigger] view@[i]) < ts.len() by {
        }
    }
}

} // verus!
