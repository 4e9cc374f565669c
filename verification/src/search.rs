use vstd::prelude::*;
use crate::todo::{Todo, TodoView, todo_views, chars_of};

verus! {

/// The needle occurs in the haystack starting at position `i`.
pub open spec fn matches_at(h: Seq<char>, n: Seq<char>, i: int) -> bool {
    h.subrange(i, i + n.len()) == n
}

/// Substring containment: the needle occurs somewhere in the haystack. An
/// empty needle is contained in everything.
pub open spec fn contains_seq(h: Seq<char>, n: Seq<char>) -> bool {
    exists|i: int| 0 <= i <= h.len() - n.len() && #[trigger] matches_at(h, n, i)
}

/// A task matches a query when its title or its content contains the query.
pub open spec fn todo_matches(t: TodoView, q: Seq<char>) -> bool {
    contains_seq(t.title, q) || contains_seq(t.content, q)
}

/// The needle occurs at position `i`: every character lines up.
fn match_at(h: &Vec<char>, n: &Vec<char>, i: usize) -> (r: bool)
    requires
        i + n@.len() <= h@.len(),
    ensures
        r == matches_at(h@, n@, i as int),
{
    let nn = n.len();
    let hn = h.len();
    let mut j: usize = 0;
    while j < nn
        invariant
            nn == n@.len(),
            hn == h@.len(),
            i + nn <= h@.len(),
            j <= nn,
            forall|l: int| 0 <= l < j ==> h@[i + l] == n@[l],
        decreases nn - j,
    {
        if h[i + j] != n[j] {
            proof {
                assert(h@.subrange(i as int, i + n@.len())[j as int] == h@[i + j]);
            }
            return false;
        }
        j = j + 1;
    }
    proof {
        assert(h@.subrange(i as int, i + n@.len()) =~= n@);
    }
    true
}

/// Substring containment over character vectors.
pub fn contains_chars(h: &Vec<char>, n: &Vec<char>) -> (r: bool)
    ensures
        r == contains_seq(h@, n@),
{
    let hn = h.len();
    let nn = n.len();
    if nn > hn {
        return false;
    }
    if nn == 0 {
        proof {
            assert(h@.subrange(0, 0) =~= n@);
            assert(matches_at(h@, n@, 0));
        }
        return true;
    }
    let last = hn - nn;
    let mut i: usize = 0;
    while i <= last
        invariant
            hn == h@.len(),
            nn == n@.len(),
            1 <= nn <= hn,
            last == hn - nn,
            i <= last + 1,
            forall|k: int| 0 <= k < i ==> !matches_at(h@, n@, k),
        decreases last + 1 - i,
    {
        if match_at(h, n, i) {
            return true;
        }
        i = i + 1;
    }
    false
}

/// The tasks whose title or content contains the query, in store order;
/// an empty query keeps every task.
pub fn search_todos(todos: &Vec<Todo>, query: &str) -> (r: Vec<Todo>)
    ensures
        todo_views(r@) == todo_views(todos@).filter(|t: TodoView| todo_matches(t, query@)),
{
    let ghost pred = |t: TodoView| todo_matches(t, query@);
    let q = chars_of(query);
    let mut r: Vec<Todo> = Vec::new();
    let n = todos.len();
    let mut i: usize = 0;
    proof {
        reveal(Seq::filter);
        assert(todo_views(r@) =~= Seq::<TodoView>::empty());
        assert(todo_views(todos@).subrange(0, 0) =~= Seq::<TodoView>::empty());
    }
    while i < n
        invariant
            q@ == query@,
            n == todos@.len(),
            i <= n,
            pred == (|t: TodoView| todo_matches(t, query@)),
            todo_views(r@) == todo_views(todos@).subrange(0, i as int).filter(pred),
        decreases n - i,
    {
        let ghost pre = todo_views(todos@).subrange(0, i as int);
        let ghost rpre = todo_views(r@);
        let title = chars_of(todos[i].title.as_str());
        let content = chars_of(todos[i].content.as_str());
        let hit = contains_chars(&title, &q) || contains_chars(&content, &q);
        proof {
            assert(todo_views(todos@).subrange(0, i + 1) =~= pre.push(todos@[i as int]@));
            pre.lemma_filter_push(todos@[i as int]@, pred);
        }
        if hit {
            let t = todos[i].duplicate();
            r.push(t);
            proof {
                assert(todo_views(r@) =~= rpre.push(todos@[i as int]@));
            }
        }
        i = i + 1;
    }
    proof {
        assert(todo_views(todos@).subrange(0, n as int) =~= todo_views(todos@));
    }
    r
}

/// The positions, in order, of the first `n` tasks that match the query.
pub open spec fn match_indices(ts: Seq<TodoView>, q: Seq<char>, n: int) -> Seq<usize>
    decreases n,
{
    if n <= 0 {
        Seq::empty()
    } else {
        let rest = match_indices(ts, q, n - 1);
        if todo_matches(ts[n - 1], q) {
            rest.push((n - 1) as usize)
        } else {
            rest
        }
    }
}

/// Matching positions are in range and strictly increasing.
pub proof fn lemma_match_indices_bounds(ts: Seq<TodoView>, q: Seq<char>, n: int)
    requires
        0 <= n <= usize::MAX,
    ensures
        forall|k: int|
            0 <= k < match_indices(ts, q, n).len() ==> #[trigger] match_indices(ts, q, n)[k]
                < n,
        forall|k1: int, k2: int|
            0 <= k1 < k2 < match_indices(ts, q, n).len() ==> match_indices(ts, q, n)[k1]
                < match_indices(ts, q, n)[k2],
    decreases n,
{
    if n > 0 {
        lemma_match_indices_bounds(ts, q, n - 1);
        let r = match_indices(ts, q, n);
        let rest = match_indices(ts, q, n - 1);
        assert forall|k: int| 0 <= k < r.len() implies r[k] < n by {
            if todo_matches(ts[n - 1], q) {
                if k < r.len() - 1 {
                    assert(r[k] == rest[k]);
                } else {
                    assert(r[k] == (n - 1) as usize);
                }
            } else {
                assert(r[k] == rest[k]);
            }
        }
        assert forall|k1: int, k2: int| 0 <= k1 < k2 < r.len() implies r[k1] < r[k2] by {
            if todo_matches(ts[n - 1], q) {
                if k2 == r.len() - 1 {
                    assert(r[k2] == (n - 1) as usize);
                    assert(r[k1] == rest[k1]);
                } else {
                    assert(r[k1] == rest[k1]);
                    assert(r[k2] == rest[k2]);
                }
            } else {
                assert(r[k1] == rest[k1]);
                assert(r[k2] == rest[k2]);
            }
        }
    }
}

/// The positions of the tasks that match the query, as a vector of indices
/// into the store.
pub fn search_indices(todos: &Vec<Todo>, query: &Vec<char>) -> (r: Vec<usize>)
    ensures
        r@ == match_indices(todo_views(todos@), query@, todos@.len() as int),
{
    let n = todos.len();
    let mut r: Vec<usize> = Vec::new();
    let mut i: usize = 0;
    proof {
        assert(r@ =~= match_indices(todo_views(todos@), query@, 0));
    }
    while i < n
        invariant
            n == todos@.len(),
            i <= n,
            r@ == match_indices(todo_views(todos@), query@, i as int),
        decreases n - i,
    {
        let title = chars_of(todos[i].title.as_str());
        let content = chars_of(todos[i].content.as_str());
        let hit = contains_chars(&title, &query) || contains_chars(&content, &query);
        if hit {
            r.push(i);
        }
        i = i + 1;
    }
    r
}

} // verus!
