use vstd::prelude::*;
use crate::todo::{Todo, TodoView, SubtaskView, Subtask, todo_views, subtask_views};
use crate::mapper::{slot_count, slot_width, resolve, resolve_cursor};

verus! {

/// A filtered view is a list of positions into the canonical store: every
/// position exists, and no position is listed twice.
pub open spec fn view_ok(ts: Seq<TodoView>, view: Seq<usize>) -> bool {
    &&& forall|i: int| 0 <= i < view.len() ==> (#[trigger] view[i]) < ts.len()
    &&& forall|i: int, j: int| 0 <= i < j < view.len() ==> view[i] != view[j]
}

/// The tasks the view presents, in view order.
pub open spec fn viewed(ts: Seq<TodoView>, view: Seq<usize>) -> Seq<TodoView> {
    Seq::new(view.len(), |i: int| ts[view[i] as int])
}

/// Clamping a cursor into `[0, slots - 1]`, with an empty list pinned at 0.
pub open spec fn clamp_cursor(slots: nat, c: int) -> int {
    if slots == 0 {
        0
    } else if c < slots {
        c
    } else {
        slots - 1
    }
}

/// The view after the store lost the entry at canonical position `ci`,
/// which the view held at position `vi`: the entry leaves the view and
/// every later canonical position shifts down by one.
pub open spec fn drop_index(view: Seq<usize>, vi: int, ci: usize) -> Seq<usize> {
    view.remove(vi).map_values(
        |x: usize|
            if x > ci {
                (x - 1) as usize
            } else {
                x
            },
    )
}

/// A deleted subtask enters the undo buffer as a task of its own, with no
/// children and collapsed.
pub open spec fn promoted(sub: SubtaskView) -> TodoView {
    TodoView {
        title: sub.title,
        content: sub.content,
        priority: sub.priority,
        date_time: sub.date_time,
        deadline: sub.deadline,
        done: sub.done,
        subtasks: Seq::empty(),
        expanded: false,
    }
}

/// The task a commit of the add sequence appends.
pub open spec fn made_task(
    title: Seq<char>,
    content: Seq<char>,
    priority: Seq<char>,
    deadline: Seq<char>,
    date_time: Seq<char>,
) -> TodoView {
    TodoView {
        title,
        content,
        priority,
        date_time,
        deadline,
        done: false,
        subtasks: Seq::empty(),
        expanded: false,
    }
}

/// Removing one task removes its slots from the sum.
pub proof fn lemma_slot_count_remove(ts: Seq<TodoView>, i: int)
    requires
        0 <= i < ts.len(),
    ensures
        slot_count(ts.remove(i)) + slot_width(ts[i]) == slot_count(ts),
    decreases ts.len(),
{
    if i == 0 {
        assert(ts.remove(0) =~= ts.drop_first());
    } else {
        assert(ts.remove(i).drop_first() =~= ts.drop_first().remove(i - 1));
        assert(ts.remove(i)[0] == ts[0]);
        lemma_slot_count_remove(ts.drop_first(), i - 1);
    }
}

/// Replacing one task replaces its slots in the sum.
pub proof fn lemma_slot_count_update(ts: Seq<TodoView>, i: int, t: TodoView)
    requires
        0 <= i < ts.len(),
    ensures
        slot_count(ts.update(i, t)) + slot_width(ts[i]) == slot_count(ts) + slot_width(t),
    decreases ts.len(),
{
    if i == 0 {
        assert(ts.update(0, t).drop_first() =~= ts.drop_first());
        assert(ts.update(0, t)[0] == t);
    } else {
        assert(ts.update(i, t).drop_first() =~= ts.drop_first().update(i - 1, t));
        assert(ts.update(i, t)[0] == ts[0]);
        lemma_slot_count_update(ts.drop_first(), i - 1, t);
    }
}

/// Deleting the task at view position `vi` presents the same list with that
/// one entry gone.
pub proof fn lemma_viewed_after_remove(ts: Seq<TodoView>, view: Seq<usize>, vi: int)
    requires
        view_ok(ts, view),
        0 <= vi < view.len(),
    ensures
        viewed(ts.remove(view[vi] as int), drop_index(view, vi, view[vi]))
            =~= viewed(ts, view).remove(vi),
        view_ok(ts.remove(view[vi] as int), drop_index(view, vi, view[vi])),
{
    let ci = view[vi] as int;
    let view2 = drop_index(view, vi, view[vi]);
    let ts2 = ts.remove(ci);
    ts.remove_ensures(ci);
    view.remove_ensures(vi);
    assert forall|k: int| 0 <= k < view2.len() implies (#[trigger] view2[k]) < ts2.len()
        && ts2[view2[k] as int] == viewed(ts, view).remove(vi)[k] by {
        let x = view.remove(vi)[k];
        if k < vi {
            assert(x == view[k]);
        } else {
            assert(x == view[k + 1]);
        }
        assert(x != view[vi]);
        if x > view[vi] {
            assert(view2[k] == (x - 1) as usize);
            assert(ts2[x - 1] == ts[x as int]);
        } else {
            assert(view2[k] == x);
            assert(ts2[x as int] == ts[x as int]);
        }
    }
    assert forall|i: int, j: int| 0 <= i < j < view2.len() implies view2[i] != view2[j] by {
        let xi = view.remove(vi)[i];
        let xj = view.remove(vi)[j];
        assert(xi != xj);
        assert(xi != view[vi] && xj != view[vi]);
    }
}

/// Rewriting the task at a canonical position changes the presented list
/// only at the view positions that show it.
pub proof fn lemma_viewed_after_update(ts: Seq<TodoView>, view: Seq<usize>, vi: int, t: TodoView)
    requires
        view_ok(ts, view),
        0 <= vi < view.len(),
    ensures
        viewed(ts.update(view[vi] as int, t), view) =~= viewed(ts, view).update(vi, t),
        view_ok(ts.update(view[vi] as int, t), view),
{
    let ci = view[vi] as int;
    assert forall|k: int| 0 <= k < view.len() implies viewed(ts.update(ci, t), view)[k]
        == viewed(ts, view).update(vi, t)[k] by {
        if k != vi {
            assert(view[k] != view[vi]);
        }
    }
}

/// What a delete at the current cursor does to the store, the view, the
/// cursor and the undo buffer, and whether anything changed: a cursor on a
/// task removes that task to the undo buffer; a cursor on a subtask removes
/// it from its parent and banks it as a task of its own; a cursor beyond
/// the list changes nothing. After a removal the cursor is re-clamped to
/// the shrunken list.
pub open spec fn delete_outcome(
    ts: Seq<TodoView>,
    view: Seq<usize>,
    cursor: int,
    undo: Seq<TodoView>,
) -> (Seq<TodoView>, Seq<usize>, int, Seq<TodoView>, bool) {
    match resolve(viewed(ts, view), cursor) {
        (Some(vi), None) => {
            let ci = view[vi] as int;
            let ts2 = ts.remove(ci);
            let view2 = drop_index(view, vi, view[vi]);
            let c2 = clamp_cursor(slot_count(viewed(ts2, view2)), cursor);
            (ts2, view2, c2, undo.push(ts[ci]), true)
        },
        (Some(vi), Some(sj)) => {
            let ci = view[vi] as int;
            let t0 = ts[ci];
            let t2 = TodoView { subtasks: t0.subtasks.remove(sj), ..t0 };
            let ts2 = ts.update(ci, t2);
            let c2 = clamp_cursor(slot_count(viewed(ts2, view)), cursor);
            (ts2, view, c2, undo.push(promoted(t0.subtasks[sj])), true)
        },
        _ => (ts, view, cursor, undo, false),
    }
}

/// What a restore does: the most recent undo entry, if there is one, leaves
/// the buffer and is appended at the end of the store and of the view.
pub open spec fn restore_outcome(
    ts: Seq<TodoView>,
    view: Seq<usize>,
    undo: Seq<TodoView>,
) -> (Seq<TodoView>, Seq<usize>, Seq<TodoView>, bool) {
    if undo.len() == 0 {
        (ts, view, undo, false)
    } else {
        (ts.push(undo.last()), view.push(ts.len() as usize), undo.drop_last(), true)
    }
}

/// The presented list: the tasks the view names, cloned in view order.
pub fn materialize_view(todos: &Vec<Todo>, view: &Vec<usize>) -> (r: Vec<Todo>)
    requires
        view_ok(todo_views(todos@), view@),
    ensures
        todo_views(r@) == viewed(todo_views(todos@), view@),
{
    let mut r: Vec<Todo> = Vec::new();
    let n = view.len();
    let mut i: usize = 0;
    while i < n
        invariant
            view_ok(todo_views(todos@), view@),
            n == view@.len(),
            i <= n,
            r@.len() == i,
            todo_views(r@) =~= viewed(todo_views(todos@), view@).subrange(0, i as int),
        decreases n - i,
    {
        let ci = view[i];
        let t = todos[ci].duplicate();
        let ghost r0 = r@;
        let ghost tv = t@;
        r.push(t);
        proof {
            let vv = viewed(todo_views(todos@), view@);
            assert forall|k: int| 0 <= k <= i implies todo_views(r@)[k] == vv.subrange(
                0,
                i + 1,
            )[k] by {
                if k < i {
                    assert(r@[k] == r0[k]);
                    assert(todo_views(r0)[k] == vv.subrange(0, i as int)[k]);
                } else {
                    assert(r@[k]@ == tv);
                    assert(vv[k] == todo_views(todos@)[view@[k] as int]);
                }
            }
            assert(todo_views(r@) =~= vv.subrange(0, i + 1));
        }
        i = i + 1;
    }
    proof {
        assert(viewed(todo_views(todos@), view@).subrange(0, n as int)
            =~= viewed(todo_views(todos@), view@));
    }
    r
}

/// Whether the visible list's slot count fits a machine word; the cursor
/// operations and the input handler ask for that bound.
pub fn slots_fit(todos: &Vec<Todo>, view: &Vec<usize>) -> (r: bool)
    requires
        view_ok(todo_views(todos@), view@),
    ensures
        r == (slot_count(viewed(todo_views(todos@), view@)) <= usize::MAX),
{
    let ghost vd = viewed(todo_views(todos@), view@);
    let n = view.len();
    let mut acc: usize = 0;
    let mut i: usize = 0;
    proof {
        assert(vd.take(0) =~= Seq::<TodoView>::empty());
    }
    while i < n
        invariant
            view_ok(todo_views(todos@), view@),
            vd == viewed(todo_views(todos@), view@),
            vd.len() == n,
            n == view@.len(),
            i <= n,
            acc == slot_count(vd.take(i as int)),
        decreases n - i,
    {
        proof {
            assert(vd =~= vd.take(i as int) + vd.skip(i as int));
            crate::mapper::lemma_slot_count_append(vd.take(i as int), vd.skip(i as int));
            assert(vd.skip(i as int)[0] == vd[i as int]);
            assert(vd.skip(i as int).drop_first() =~= vd.skip(i as int + 1));
            assert(vd.take(i + 1) =~= vd.take(i as int) + seq![vd[i as int]]);
            crate::mapper::lemma_slot_count_append(vd.take(i as int), seq![vd[i as int]]);
            assert(seq![vd[i as int]].drop_first() =~= Seq::<TodoView>::empty());
            assert(seq![vd[i as int]][0] == vd[i as int]);
            assert(slot_count(Seq::<TodoView>::empty()) == 0);
            assert(slot_count(seq![vd[i as int]]) == slot_width(vd[i as int]));
            assert(vd[i as int] == todo_views(todos@)[view@[i as int] as int]);
        }
        let ci = view[i];
        let extra: usize = if todos[ci].expanded {
            todos[ci].subtasks.len()
        } else {
            0
        };
        if acc == usize::MAX {
            return false;
        }
        let room = usize::MAX - acc;
        if extra > room - 1 {
            return false;
        }
        acc = acc + 1 + extra;
        i = i + 1;
    }
    proof {
        assert(vd.take(n as int) =~= vd);
    }
    true
}

/// A deleted subtask as a task of its own.
fn promote(sub: Subtask) -> (r: Todo)
    ensures
        r@ == promoted(sub@),
{
    let r = Todo {
        title: sub.title,
        content: sub.content,
        priority: sub.priority,
        date_time: sub.date_time,
        deadline: sub.deadline,
        done: sub.done,
        subtasks: Vec::new(),
        expanded: false,
    };
    proof {
        assert(r@.subtasks =~= Seq::<SubtaskView>::empty());
        assert(r@ =~= promoted(sub@));
    }
    r
}

/// Append a committed task to the canonical store and make it visible at
/// the end of the current view.
pub fn add_task(
    todos: &mut Vec<Todo>,
    view: &mut Vec<usize>,
    title: String,
    content: String,
    priority: String,
    deadline: String,
    date_time: String,
)
    ensures
        todo_views(final(todos)@) == todo_views(old(todos)@).push(
            made_task(title@, content@, priority@, deadline@, date_time@),
        ),
        final(view)@ == old(view)@.push(old(todos)@.len() as usize),
{
    let idx = todos.len();
    let t = Todo {
        title,
        content,
        priority,
        date_time,
        deadline,
        done: false,
        subtasks: Vec::new(),
        expanded: false,
    };
    proof {
        assert(t@.subtasks =~= Seq::<SubtaskView>::empty());
    }
    todos.push(t);
    view.push(idx);
    proof {
        assert(todo_views(final(todos)@) =~= todo_views(old(todos)@).push(
            made_task(title@, content@, priority@, deadline@, date_time@),
        ));
    }
}

/// Delete the entity the cursor addresses, bank it in the undo buffer and
/// re-clamp the cursor; a cursor that addresses nothing is a no-op. Returns
/// whether anything changed.
pub fn delete_task(
    todos: &mut Vec<Todo>,
    view: &mut Vec<usize>,
    cursor: &mut usize,
    undo: &mut Vec<Todo>,
) -> (r: bool)
    requires
        view_ok(todo_views(old(todos)@), old(view)@),
        slot_count(viewed(todo_views(old(todos)@), old(view)@)) <= usize::MAX,
    ensures
        view_ok(todo_views(final(todos)@), final(view)@),
        (
            todo_views(final(todos)@),
            final(view)@,
            *final(cursor) as int,
            todo_views(final(undo)@),
            r,
        ) == delete_outcome(
            todo_views(old(todos)@),
            old(view)@,
            *old(cursor) as int,
            todo_views(old(undo)@),
        ),
{
    let ghost ts0 = todo_views(todos@);
    let ghost view0 = view@;
    let vw = materialize_view(todos, view);
    let (t, s) = resolve_cursor(&vw, *cursor);
    match (t, s) {
        (Some(vi), None) => {
            let ci = view[vi];
            let x = todos.remove(ci);
            undo.push(x);
            let mut nv: Vec<usize> = Vec::new();
            let n = view.len();
            let mut k: usize = 0;
            while k < n
                invariant
                    n == view@.len(),
                    view@ == view0,
                    vi < n,
                    k <= n,
                    ci == view0[vi as int],
                    nv@.len() == (if k <= vi {
                        k as int
                    } else {
                        k - 1
                    }),
                    forall|q: int|
                        0 <= q < nv@.len() ==> (#[trigger] nv@[q]) == (
                        if (view0.remove(vi as int)[q]) > ci {
                            (view0.remove(vi as int)[q] - 1) as usize
                        } else {
                            view0.remove(vi as int)[q]
                        }),
                decreases n - k,
            {
                if k != vi {
                    let x0 = view[k];
                    let adjusted = if x0 > ci {
                        x0 - 1
                    } else {
                        x0
                    };
                    nv.push(adjusted);
                    proof {
                        view0.remove_ensures(vi as int);
                    }
                }
                k = k + 1;
            }
            *view = nv;
            proof {
                view0.remove_ensures(vi as int);
                assert(view@ =~= drop_index(view0, vi as int, ci));
                lemma_viewed_after_remove(ts0, view0, vi as int);
                assert(todo_views(todos@) =~= ts0.remove(ci as int));
                assert(todo_views(undo@) =~= todo_views(old(undo)@).push(ts0[ci as int]));
                lemma_slot_count_remove(viewed(ts0, view0), vi as int);
            }
            let vw2 = materialize_view(todos, view);
            let slots = crate::mapper::total_slots(&vw2);
            if slots == 0 {
                *cursor = 0;
            } else if *cursor >= slots {
                *cursor = slots - 1;
            }
            true
        },
        (Some(vi), Some(sj)) => {
            let ci = view[vi];
            let ghost old_subs = ts0[ci as int].subtasks;
            proof {
                assert(todo_views(vw@)[vi as int] == vw@[vi as int]@);
                assert(viewed(ts0, view0)[vi as int] == ts0[ci as int]);
                assert(ts0[ci as int] == todos@[ci as int]@);
                assert(sj < todos@[ci as int].subtasks@.len());
            }
            let parent = &mut todos[ci];
            let sub = parent.subtasks.remove(sj);
            proof {
                let t2 = TodoView { subtasks: old_subs.remove(sj as int), ..ts0[ci as int] };
                assert(subtask_views(todos@[ci as int].subtasks@) =~= old_subs.remove(sj as int));
                assert(todo_views(todos@) =~= ts0.update(ci as int, t2));
                lemma_viewed_after_update(ts0, view0, vi as int, t2);
                lemma_slot_count_update(viewed(ts0, view0), vi as int, t2);
            }
            undo.push(promote(sub));
            proof {
                assert(todo_views(undo@) =~= todo_views(old(undo)@).push(
                    promoted(ts0[ci as int].subtasks[sj as int]),
                ));
            }
            let vw2 = materialize_view(todos, view);
            let slots = crate::mapper::total_slots(&vw2);
            if slots == 0 {
                *cursor = 0;
            } else if *cursor >= slots {
                *cursor = slots - 1;
            }
            true
        },
        _ => false,
    }
}

/// Bring the most recently deleted entity back, appended at the end of the
/// store and of the view. Returns whether anything changed.
pub fn restore_task(todos: &mut Vec<Todo>, view: &mut Vec<usize>, undo: &mut Vec<Todo>) -> (r:
    bool)
    requires
        view_ok(todo_views(old(todos)@), old(view)@),
    ensures
        view_ok(todo_views(final(todos)@), final(view)@),
        (todo_views(final(todos)@), final(view)@, todo_views(final(undo)@), r) == restore_outcome(
            todo_views(old(todos)@),
            old(view)@,
            todo_views(old(undo)@),
        ),
{
    let ghost ts0 = todo_views(todos@);
    match undo.pop() {
        Some(x) => {
            let idx = todos.len();
            todos.push(x);
            view.push(idx);
            proof {
                assert(todo_views(todos@) =~= ts0.push(todo_views(old(undo)@).last()));
                assert(todo_views(undo@) =~= todo_views(old(undo)@).drop_last());
            }
            true
        },
        None => {
            proof {
                assert(todo_views(undo@) =~= todo_views(old(undo)@));
            }
            false
        },
    }
}

/// Deleting the task at a view position and then restoring yields the
/// original store with that one task moved to the end, and leaves the undo
/// buffer as it was.
pub proof fn lemma_delete_then_restore(
    ts: Seq<TodoView>,
    view: Seq<usize>,
    cursor: int,
    undo: Seq<TodoView>,
)
    requires
        view_ok(ts, view),
        (resolve(viewed(ts, view), cursor) matches (Some(vi), None)),
    ensures
        ({
            let (ts1, view1, c1, undo1, ch1) = delete_outcome(ts, view, cursor, undo);
            let (ts2, view2, undo2, ch2) = restore_outcome(ts1, view1, undo1);
            let vi = resolve(viewed(ts, view), cursor).0->0;
            let ci = view[vi] as int;
            &&& ch1 && ch2
            &&& ts2 == ts.remove(ci).push(ts[ci])
            &&& undo2 == undo
        }),
{
    let vi = resolve(viewed(ts, view), cursor).0->0;
    let ci = view[vi] as int;
    let (ts1, view1, c1, undo1, ch1) = delete_outcome(ts, view, cursor, undo);
    assert(undo1 == undo.push(ts[ci]));
    assert(undo1.len() > 0);
    assert(undo1.last() == ts[ci]);
    assert(undo1.drop_last() =~= undo);
}

} // verus!
