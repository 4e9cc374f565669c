use vstd::prelude::*;
use crate::todo::{Todo, TodoView, todo_views};

verus! {

/// How many flat slots one task occupies in the visible list: its own slot,
/// plus one slot per subtask when it is expanded.
pub open spec fn slot_width(t: TodoView) -> nat {
    1 + (if t.expanded {
        t.subtasks.len()
    } else {
        0
    })
}

/// The number of flat slots of the whole visible list: the sum of the slot
/// widths of its tasks.
pub open spec fn slot_count(ts: Seq<TodoView>) -> nat
    decreases ts.len(),
{
    if ts.len() == 0 {
        0
    } else {
        slot_width(ts[0]) + slot_count(ts.drop_first())
    }
}

/// Resolution of a flat cursor: the task it addresses, and the subtask it
/// addresses within that task, if any. A cursor beyond the last slot
/// resolves to nothing, which callers treat as a no-op.
pub open spec fn resolve(ts: Seq<TodoView>, c: int) -> (Option<int>, Option<int>)
    decreases ts.len(),
{
    if ts.len() == 0 || c < 0 {
        (None, None)
    } else if c == 0 {
        (Some(0int), None)
    } else if ts[0].expanded && c <= ts[0].subtasks.len() {
        (Some(0int), Some(c - 1))
    } else {
        match resolve(ts.drop_first(), c - slot_width(ts[0])) {
            (Some(t), s) => (Some(t + 1), s),
            _ => (None, None),
        }
    }
}

/// The flat slot index of a task, or of one of its subtasks: the widths of
/// the tasks before it, plus the position inside its own region.
pub open spec fn flat_index(ts: Seq<TodoView>, ti: int, sj: Option<int>) -> int
    decreases ti,
{
    if ti <= 0 {
        match sj {
            None => 0,
            Some(j) => 1 + j,
        }
    } else {
        slot_width(ts[0]) + flat_index(ts.drop_first(), ti - 1, sj)
    }
}

/// Peeling one task off the front of the sum.
pub proof fn lemma_slot_count_skip(ts: Seq<TodoView>, i: int)
    requires
        0 <= i < ts.len(),
    ensures
        slot_count(ts.skip(i)) == slot_width(ts[i]) + slot_count(ts.skip(i + 1)),
{
    assert(ts.skip(i).drop_first() =~= ts.skip(i + 1));
    assert(ts.skip(i)[0] == ts[i]);
}

/// Every flat index below the slot count resolves to a task that exists, to
/// a subtask that exists when it names one, and re-deriving the flat index
/// of what it resolved to gives the index back.
pub proof fn lemma_resolve_flat_inverse(ts: Seq<TodoView>, c: int)
    requires
        0 <= c < slot_count(ts),
    ensures
        ({
            let (t, s) = resolve(ts, c);
            &&& t matches Some(ti)
            &&& 0 <= (t->0) < ts.len()
            &&& (match s {
                None => true,
                Some(j) => ts[t->0].expanded && 0 <= j < ts[t->0].subtasks.len(),
            })
            &&& flat_index(ts, t->0, s) == c
        }),
    decreases ts.len(),
{
    if ts.len() == 0 {
    } else if c == 0 {
    } else if ts[0].expanded && c <= ts[0].subtasks.len() {
    } else {
        lemma_resolve_flat_inverse(ts.drop_first(), c - slot_width(ts[0]));
    }
}

/// The slot sum splits over concatenation.
pub proof fn lemma_slot_count_append(a: Seq<TodoView>, b: Seq<TodoView>)
    ensures
        slot_count(a + b) == slot_count(a) + slot_count(b),
    decreases a.len(),
{
    if a.len() == 0 {
        assert(a + b =~= b);
    } else {
        assert((a + b).drop_first() =~= a.drop_first() + b);
        assert((a + b)[0] == a[0]);
        lemma_slot_count_append(a.drop_first(), b);
    }
}

/// A task's flat slot is the slot sum of the tasks before it.
pub proof fn lemma_flat_index_is_prefix_count(ts: Seq<TodoView>, ti: int)
    requires
        0 <= ti <= ts.len(),
    ensures
        flat_index(ts, ti, None) == slot_count(ts.take(ti)),
    decreases ti,
{
    if ti == 0 {
        assert(ts.take(0) =~= Seq::<TodoView>::empty());
    } else {
        assert(ts.take(ti)[0] == ts[0]);
        assert(ts.take(ti).drop_first() =~= ts.drop_first().take(ti - 1));
        lemma_flat_index_is_prefix_count(ts.drop_first(), ti - 1);
    }
}

/// The flat slot index of the task at a given position: the sum of the slot
/// widths of the tasks before it.
pub fn flat_of_task(todos: &Vec<Todo>, ti: usize) -> (r: usize)
    requires
        ti <= todos@.len(),
        slot_count(todo_views(todos@)) <= usize::MAX,
    ensures
        r == flat_index(todo_views(todos@), ti as int, None),
{
    let ghost ts = todo_views(todos@);
    let mut acc: usize = 0;
    let mut k: usize = 0;
    proof {
        assert(ts.take(0) =~= Seq::<TodoView>::empty());
    }
    while k < ti
        invariant
            ti <= todos@.len(),
            ts == todo_views(todos@),
            ts.len() == todos@.len(),
            slot_count(ts) <= usize::MAX,
            k <= ti,
            acc == slot_count(ts.take(k as int)),
        decreases ti - k,
    {
        proof {
            assert(ts =~= ts.take(k as int) + ts.skip(k as int));
            lemma_slot_count_append(ts.take(k as int), ts.skip(k as int));
            assert(ts.skip(k as int)[0] == ts[k as int]);
            assert(ts.skip(k as int).drop_first() =~= ts.skip(k as int + 1));
            assert(ts.take(k + 1) =~= ts.take(k as int) + seq![ts[k as int]]);
            lemma_slot_count_append(ts.take(k as int), seq![ts[k as int]]);
            assert(seq![ts[k as int]].drop_first() =~= Seq::<TodoView>::empty());
            assert(seq![ts[k as int]][0] == ts[k as int]);
            assert(slot_count(Seq::<TodoView>::empty()) == 0);
            assert(slot_count(seq![ts[k as int]]) == slot_width(ts[k as int]));
            assert(ts[k as int] == todos@[k as int]@);
        }
        let width: usize = if todos[k].expanded {
            1 + todos[k].subtasks.len()
        } else {
            1
        };
        acc = acc + width;
        k = k + 1;
    }
    proof {
        lemma_flat_index_is_prefix_count(ts, ti as int);
    }
    acc
}

/// Lift an executable resolution result to its mathematical value.
pub open spec fn lift_target(r: (Option<usize>, Option<usize>)) -> (Option<int>, Option<int>) {
    (
        match r.0 {
            Some(t) => Some(t as int),
            None => None,
        },
        match r.1 {
            Some(j) => Some(j as int),
            None => None,
        },
    )
}

/// The total number of flat slots of the visible list.
pub fn total_slots(todos: &Vec<Todo>) -> (r: usize)
    requires
        slot_count(todo_views(todos@)) <= usize::MAX,
    ensures
        r == slot_count(todo_views(todos@)),
{
    let ghost ts = todo_views(todos@);
    let n = todos.len();
    let mut i: usize = 0;
    let mut acc: usize = 0;
    proof {
        assert(ts.skip(0) =~= ts);
    }
    while i < n
        invariant
            n == todos@.len(),
            ts == todo_views(todos@),
            ts.len() == n,
            slot_count(ts) <= usize::MAX,
            i <= n,
            acc + slot_count(ts.skip(i as int)) == slot_count(ts),
        decreases n - i,
    {
        proof {
            lemma_slot_count_skip(ts, i as int);
            assert(ts[i as int] == todos@[i as int]@);
        }
        let width: usize = if todos[i].expanded {
            1 + todos[i].subtasks.len()
        } else {
            1
        };
        acc = acc + width;
        i = i + 1;
    }
    proof {
        assert(ts.skip(n as int) =~= Seq::<TodoView>::empty());
    }
    acc
}

/// Resolve a flat cursor to the task, and possibly the subtask, it addresses.
pub fn resolve_cursor(todos: &Vec<Todo>, cursor: usize) -> (r: (Option<usize>, Option<usize>))
    ensures
        lift_target(r) == resolve(todo_views(todos@), cursor as int),
        r.0 matches Some(ti) ==> ti < todos@.len(),
        r.1 matches Some(j) ==> (r.0 matches Some(ti) && todos@[r.0->0 as int]@.expanded
            && j < todos@[r.0->0 as int]@.subtasks.len()),
{
    let ghost ts = todo_views(todos@);
    let n = todos.len();
    let mut i: usize = 0;
    let mut cc: usize = cursor;
    proof {
        assert(ts.skip(0) =~= ts);
    }
    while i < n
        invariant
            n == todos@.len(),
            ts == todo_views(todos@),
            ts.len() == n,
            i <= n,
            cc <= cursor,
            resolve(ts, cursor as int) == (match resolve(ts.skip(i as int), cc as int) {
                (Some(t), s) => (Some(t + i as int), s),
                _ => (None::<int>, None::<int>),
            }),
        decreases n - i,
    {
        proof {
            assert(ts.skip(i as int)[0] == ts[i as int]);
            assert(ts[i as int] == todos@[i as int]@);
            assert(ts.skip(i as int).drop_first() =~= ts.skip(i as int + 1));
        }
        let expanded = todos[i].expanded;
        let subs = todos[i].subtasks.len();
        if cc == 0 {
            return (Some(i), None);
        }
        if expanded && cc <= subs {
            return (Some(i), Some(cc - 1));
        }
        if expanded {
            cc = cc - 1 - subs;
        } else {
            cc = cc - 1;
        }
        i = i + 1;
    }
    proof {
        assert(ts.skip(n as int) =~= Seq::<TodoView>::empty());
    }
    (None, None)
}

/// Move the cursor one slot down, holding at the last slot; an empty list
/// leaves the cursor at slot zero. The result always lies in
/// `[0, total_slots - 1]` when the list is non-empty.
pub fn cursor_down(todos: &Vec<Todo>, cursor: usize) -> (r: usize)
    requires
        slot_count(todo_views(todos@)) <= usize::MAX,
    ensures
        ({
            let n = slot_count(todo_views(todos@));
            &&& n == 0 ==> r == 0
            &&& n > 0 ==> r == (if cursor + 1 < n {
                cursor + 1
            } else {
                (n - 1) as int
            })
            &&& n > 0 ==> 0 <= r < n
        }),
{
    let n = total_slots(todos);
    if n == 0 {
        0
    } else if cursor < n - 1 {
        cursor + 1
    } else {
        n - 1
    }
}

/// Move the cursor one slot up, holding at slot zero; an empty list leaves
/// the cursor at slot zero. The result always lies in `[0, total_slots - 1]`
/// when the list is non-empty.
pub fn cursor_up(todos: &Vec<Todo>, cursor: usize) -> (r: usize)
    requires
        slot_count(todo_views(todos@)) <= usize::MAX,
    ensures
        ({
            let n = slot_count(todo_views(todos@));
            &&& n == 0 ==> r == 0
            &&& n > 0 ==> r == (if cursor == 0 {
                0int
            } else if cursor - 1 < n - 1 {
                cursor - 1
            } else {
                (n - 1) as int
            })
            &&& n > 0 ==> 0 <= r < n
        }),
{
    let n = total_slots(todos);
    if n == 0 {
        0
    } else if cursor == 0 {
        0
    } else if cursor - 1 < n - 1 {
        cursor - 1
    } else {
        n - 1
    }
}

} // verus!
