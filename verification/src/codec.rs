use vstd::prelude::*;
use crate::todo::{Todo, TodoView, Subtask, SubtaskView, todo_views, subtask_views, string_from_chars, chars_of};

verus! {

// The persisted layout is a plain character format of this library's own:
// a file is a sequence of task records; a record is `{`, then tagged
// fields, then `}`. A text field is its tag letter (`t` title, `c`
// content, `p` priority, `m` update time, `d` deadline), the text with
// `\` escaping `\` and `;`, and a closing `;`. A flag field (`x` done,
// `e` expanded) is its tag, `0` or `1`, and `;`. The subtask list is `s`,
// `[`, the subtask records (same shape, scalar fields only), `]`, `;`.
// The reader takes fields in any order and defaults every missing field,
// so files written before a field existed still load.

/// A character with the escape it needs in a text field.
pub open spec fn esc_char(c: char) -> Seq<char> {
    if c == '\\' || c == ';' {
        seq!['\\', c]
    } else {
        seq![c]
    }
}

/// A text with its escapes.
pub open spec fn esc(v: Seq<char>) -> Seq<char>
    decreases v.len(),
{
    if v.len() == 0 {
        Seq::empty()
    } else {
        esc_char(v[0]) + esc(v.drop_first())
    }
}

/// An escaped text with its terminator.
pub open spec fn emit_str(v: Seq<char>) -> Seq<char> {
    esc(v).push(';')
}

/// A flag with its terminator.
pub open spec fn emit_bit(b: bool) -> Seq<char> {
    seq![
        if b {
            '1'
        } else {
            '0'
        },
        ';',
    ]
}

/// The fields of one subtask record, in the order the writer uses.
pub open spec fn emit_sub_body(st: SubtaskView) -> Seq<char> {
    seq!['t'] + emit_str(st.title) + seq!['c'] + emit_str(st.content) + seq!['p'] + emit_str(
        st.priority,
    ) + seq!['m'] + emit_str(st.date_time) + seq!['d'] + emit_str(st.deadline) + seq!['x']
        + emit_bit(st.done)
}

/// One subtask record.
pub open spec fn emit_sub(st: SubtaskView) -> Seq<char> {
    seq!['{'] + emit_sub_body(st) + seq!['}']
}

/// A run of subtask records.
pub open spec fn emit_subs(subs: Seq<SubtaskView>) -> Seq<char>
    decreases subs.len(),
{
    if subs.len() == 0 {
        Seq::empty()
    } else {
        emit_sub(subs[0]) + emit_subs(subs.drop_first())
    }
}

/// The scalar fields of one task record, in the order the writer uses.
pub open spec fn emit_scalar_body(t: TodoView) -> Seq<char> {
    seq!['t'] + emit_str(t.title) + seq!['c'] + emit_str(t.content) + seq!['p'] + emit_str(
        t.priority,
    ) + seq!['m'] + emit_str(t.date_time) + seq!['d'] + emit_str(t.deadline) + seq!['x']
        + emit_bit(t.done)
}

/// The fields of one task record, in the order the writer uses.
pub open spec fn emit_task_body(t: TodoView) -> Seq<char> {
    emit_scalar_body(t) + seq!['s', '['] + emit_subs(t.subtasks) + seq![']', ';'] + seq!['e']
        + emit_bit(t.expanded)
}

/// One task record.
pub open spec fn emit_task(t: TodoView) -> Seq<char> {
    seq!['{'] + emit_task_body(t) + seq!['}']
}

/// A whole store.
pub open spec fn emit_store(ts: Seq<TodoView>) -> Seq<char>
    decreases ts.len(),
{
    if ts.len() == 0 {
        Seq::empty()
    } else {
        emit_task(ts[0]) + emit_store(ts.drop_first())
    }
}

/// Reading a text field's value from a position: characters up to the
/// first unescaped `;`, with escapes resolved.
pub open spec fn parse_str(s: Seq<char>, i: int) -> Option<(Seq<char>, int)>
    decreases s.len() - i,
{
    if i < 0 || i >= s.len() {
        None
    } else if s[i] == ';' {
        Some((Seq::empty(), i + 1))
    } else if s[i] == '\\' {
        if i + 1 < s.len() {
            match parse_str(s, i + 2) {
                Some((v, j)) => Some((seq![s[i + 1]] + v, j)),
                None => None,
            }
        } else {
            None
        }
    } else {
        match parse_str(s, i + 1) {
            Some((v, j)) => Some((seq![s[i]] + v, j)),
            None => None,
        }
    }
}

/// Reading a flag field's value from a position.
pub open spec fn parse_bit(s: Seq<char>, i: int) -> Option<(bool, int)> {
    if 0 <= i && i + 1 < s.len() && (s[i] == '0' || s[i] == '1') && s[i + 1] == ';' {
        Some((s[i] == '1', i + 2))
    } else {
        None
    }
}

/// A subtask before any of its fields is read: everything defaulted. A
/// missing update time defaults to the time of the load.
pub open spec fn default_sub(now: Seq<char>) -> SubtaskView {
    SubtaskView {
        title: Seq::empty(),
        content: Seq::empty(),
        priority: "low"@,
        date_time: now,
        deadline: Seq::empty(),
        done: false,
    }
}

/// A task before any of its fields is read: everything defaulted.
pub open spec fn default_task(now: Seq<char>) -> TodoView {
    TodoView {
        title: Seq::empty(),
        content: Seq::empty(),
        priority: "low"@,
        date_time: now,
        deadline: Seq::empty(),
        done: false,
        subtasks: Seq::empty(),
        expanded: false,
    }
}

/// Reading subtask record fields into an accumulator until `}`.
pub open spec fn parse_sub_fields(s: Seq<char>, i: int, acc: SubtaskView) -> Option<
    (SubtaskView, int),
>
    decreases s.len() - i,
{
    if i < 0 || i >= s.len() {
        None
    } else if s[i] == '}' {
        Some((acc, i + 1))
    } else if s[i] == 't' {
        match parse_str(s, i + 1) {
            Some((v, j)) => if i < j <= s.len() {
                parse_sub_fields(s, j, SubtaskView { title: v, ..acc })
            } else {
                None
            },
            None => None,
        }
    } else if s[i] == 'c' {
        match parse_str(s, i + 1) {
            Some((v, j)) => if i < j <= s.len() {
                parse_sub_fields(s, j, SubtaskView { content: v, ..acc })
            } else {
                None
            },
            None => None,
        }
    } else if s[i] == 'p' {
        match parse_str(s, i + 1) {
            Some((v, j)) => if i < j <= s.len() {
                parse_sub_fields(s, j, SubtaskView { priority: v, ..acc })
            } else {
                None
            },
            None => None,
        }
    } else if s[i] == 'm' {
        match parse_str(s, i + 1) {
            Some((v, j)) => if i < j <= s.len() {
                parse_sub_fields(s, j, SubtaskView { date_time: v, ..acc })
            } else {
                None
            },
            None => None,
        }
    } else if s[i] == 'd' {
        match parse_str(s, i + 1) {
            Some((v, j)) => if i < j <= s.len() {
                parse_sub_fields(s, j, SubtaskView { deadline: v, ..acc })
            } else {
                None
            },
            None => None,
        }
    } else if s[i] == 'x' {
        match parse_bit(s, i + 1) {
            Some((b, j)) => if i < j <= s.len() {
                parse_sub_fields(s, j, SubtaskView { done: b, ..acc })
            } else {
                None
            },
            None => None,
        }
    } else {
        None
    }
}

/// Reading one subtask record.
pub open spec fn parse_sub(s: Seq<char>, i: int, now: Seq<char>) -> Option<(SubtaskView, int)> {
    if 0 <= i < s.len() && s[i] == '{' {
        parse_sub_fields(s, i + 1, default_sub(now))
    } else {
        None
    }
}

/// Reading subtask records until `]`.
pub open spec fn parse_subs(s: Seq<char>, i: int, now: Seq<char>) -> Option<
    (Seq<SubtaskView>, int),
>
    decreases s.len() - i,
{
    if i < 0 || i >= s.len() {
        None
    } else if s[i] == ']' {
        Some((Seq::empty(), i + 1))
    } else {
        match parse_sub(s, i, now) {
            Some((st, j)) => if i < j <= s.len() {
                match parse_subs(s, j, now) {
                    Some((rest, k)) => Some((seq![st] + rest, k)),
                    None => None,
                }
            } else {
                None
            },
            None => None,
        }
    }
}

/// Reading task record fields into an accumulator until `}`.
pub open spec fn parse_task_fields(s: Seq<char>, i: int, acc: TodoView, now: Seq<char>) -> Option<
    (TodoView, int),
>
    decreases s.len() - i,
{
    if i < 0 || i >= s.len() {
        None
    } else if s[i] == '}' {
        Some((acc, i + 1))
    } else if s[i] == 't' {
        match parse_str(s, i + 1) {
            Some((v, j)) => if i < j <= s.len() {
                parse_task_fields(s, j, TodoView { title: v, ..acc }, now)
            } else {
                None
            },
            None => None,
        }
    } else if s[i] == 'c' {
        match parse_str(s, i + 1) {
            Some((v, j)) => if i < j <= s.len() {
                parse_task_fields(s, j, TodoView { content: v, ..acc }, now)
            } else {
                None
            },
            None => None,
        }
    } else if s[i] == 'p' {
        match parse_str(s, i + 1) {
            Some((v, j)) => if i < j <= s.len() {
                parse_task_fields(s, j, TodoView { priority: v, ..acc }, now)
            } else {
                None
            },
            None => None,
        }
    } else if s[i] == 'm' {
        match parse_str(s, i + 1) {
            Some((v, j)) => if i < j <= s.len() {
                parse_task_fields(s, j, TodoView { date_time: v, ..acc }, now)
            } else {
                None
            },
            None => None,
        }
    } else if s[i] == 'd' {
        match parse_str(s, i + 1) {
            Some((v, j)) => if i < j <= s.len() {
                parse_task_fields(s, j, TodoView { deadline: v, ..acc }, now)
            } else {
                None
            },
            None => None,
        }
    } else if s[i] == 'x' {
        match parse_bit(s, i + 1) {
            Some((b, j)) => if i < j <= s.len() {
                parse_task_fields(s, j, TodoView { done: b, ..acc }, now)
            } else {
                None
            },
            None => None,
        }
    } else if s[i] == 'e' {
        match parse_bit(s, i + 1) {
            Some((b, j)) => if i < j <= s.len() {
                parse_task_fields(s, j, TodoView { expanded: b, ..acc }, now)
            } else {
                None
            },
            None => None,
        }
    } else if s[i] == 's' {
        if i + 1 < s.len() && s[i + 1] == '[' {
            match parse_subs(s, i + 2, now) {
                Some((subs, j)) => if i < j && j < s.len() && s[j] == ';' {
                    parse_task_fields(s, j + 1, TodoView { subtasks: subs, ..acc }, now)
                } else {
                    None
                },
                None => None,
            }
        } else {
            None
        }
    } else {
        None
    }
}

/// Reading one task record.
pub open spec fn parse_task(s: Seq<char>, i: int, now: Seq<char>) -> Option<(TodoView, int)> {
    if 0 <= i < s.len() && s[i] == '{' {
        parse_task_fields(s, i + 1, default_task(now), now)
    } else {
        None
    }
}

/// Reading task records to the end of the input.
pub open spec fn parse_store_items(s: Seq<char>, i: int, now: Seq<char>) -> Option<
    (Seq<TodoView>, int),
>
    decreases s.len() - i,
{
    if i == s.len() {
        Some((Seq::empty(), i))
    } else {
        match parse_task(s, i, now) {
            Some((t, j)) => if i < j <= s.len() {
                match parse_store_items(s, j, now) {
                    Some((rest, k)) => Some((seq![t] + rest, k)),
                    None => None,
                }
            } else {
                None
            },
            None => None,
        }
    }
}

/// Reading a whole persisted store.
pub open spec fn parse_store(s: Seq<char>, now: Seq<char>) -> Option<Seq<TodoView>> {
    match parse_store_items(s, 0, now) {
        Some((ts, _)) => Some(ts),
        None => None,
    }
}

/// The fragment stands in `s` at position `i`.
pub open spec fn holds_at(s: Seq<char>, i: int, frag: Seq<char>) -> bool {
    &&& 0 <= i
    &&& i + frag.len() <= s.len()
    &&& s.subrange(i, i + frag.len()) == frag
}

/// One character of a fragment that stands in `s`.
proof fn lemma_at(s: Seq<char>, i: int, frag: Seq<char>, k: int)
    requires
        holds_at(s, i, frag),
        0 <= k < frag.len(),
    ensures
        s[i + k] == frag[k],
{
    assert(s.subrange(i, i + frag.len())[k] == s[i + k]);
}

/// A standing concatenation splits into its two standing parts.
proof fn lemma_split(s: Seq<char>, i: int, a: Seq<char>, b: Seq<char>)
    requires
        holds_at(s, i, a + b),
    ensures
        holds_at(s, i, a),
        holds_at(s, i + a.len(), b),
{
    assert forall|k: int| 0 <= k < a.len() implies s.subrange(i, i + a.len())[k] == a[k] by {
        lemma_at(s, i, a + b, k);
        assert(s.subrange(i, i + a.len())[k] == s[i + k]);
        assert((a + b)[k] == a[k]);
    }
    assert(s.subrange(i, i + a.len()) =~= a);
    assert forall|k: int| 0 <= k < b.len() implies s.subrange(
        i + a.len(),
        i + a.len() + b.len(),
    )[k] == b[k] by {
        lemma_at(s, i, a + b, a.len() + k);
        assert(s.subrange(i + a.len(), i + a.len() + b.len())[k] == s[i + a.len() + k]);
        assert((a + b)[a.len() + k] == b[k]);
    }
    assert(s.subrange(i + a.len(), i + a.len() + b.len()) =~= b);
}

/// Reading back an emitted text field gives the text and stops right after
/// its terminator.
proof fn lemma_parse_str_emit(s: Seq<char>, i: int, v: Seq<char>)
    requires
        holds_at(s, i, emit_str(v)),
    ensures
        parse_str(s, i) == Some((v, i + emit_str(v).len())),
    decreases v.len(),
{
    if v.len() == 0 {
        assert(emit_str(v) =~= seq![';']);
        lemma_at(s, i, emit_str(v), 0);
    } else {
        let c = v[0];
        let rest = v.drop_first();
        assert(emit_str(v) =~= esc_char(c) + emit_str(rest));
        lemma_split(s, i, esc_char(c), emit_str(rest));
        if c == '\\' || c == ';' {
            lemma_at(s, i, esc_char(c), 0);
            lemma_at(s, i, esc_char(c), 1);
            lemma_parse_str_emit(s, i + 2, rest);
            assert(seq![s[i + 1]] + rest =~= v);
        } else {
            lemma_at(s, i, esc_char(c), 0);
            lemma_parse_str_emit(s, i + 1, rest);
            assert(seq![s[i]] + rest =~= v);
        }
    }
}

/// Reading back an emitted flag field gives the flag.
proof fn lemma_parse_bit_emit(s: Seq<char>, i: int, b: bool)
    requires
        holds_at(s, i, emit_bit(b)),
    ensures
        parse_bit(s, i) == Some((b, i + 2)),
{
    lemma_at(s, i, emit_bit(b), 0);
    lemma_at(s, i, emit_bit(b), 1);
}

/// One tagged text field standing at `p`: the tag, the parsed value, and
/// what remains after it.
proof fn lemma_text_field(s: Seq<char>, p: int, g: char, v: Seq<char>, tail: Seq<char>)
    requires
        holds_at(s, p, seq![g] + (emit_str(v) + tail)),
    ensures
        s[p] == g,
        p < s.len(),
        parse_str(s, p + 1) == Some((v, p + 1 + emit_str(v).len())),
        p < p + 1 + emit_str(v).len() <= s.len(),
        holds_at(s, p + 1 + emit_str(v).len(), tail),
{
    lemma_split(s, p, seq![g], emit_str(v) + tail);
    lemma_at(s, p, seq![g], 0);
    lemma_split(s, p + 1, emit_str(v), tail);
    lemma_parse_str_emit(s, p + 1, v);
}

/// One tagged flag field standing at `p`.
proof fn lemma_bit_field(s: Seq<char>, p: int, g: char, b: bool, tail: Seq<char>)
    requires
        holds_at(s, p, seq![g] + (emit_bit(b) + tail)),
    ensures
        s[p] == g,
        p < s.len(),
        parse_bit(s, p + 1) == Some((b, p + 3)),
        p < p + 3 <= s.len(),
        holds_at(s, p + 3, tail),
{
    lemma_split(s, p, seq![g], emit_bit(b) + tail);
    lemma_at(s, p, seq![g], 0);
    lemma_split(s, p + 1, emit_bit(b), tail);
    lemma_parse_bit_emit(s, p + 1, b);
}

/// Reading back an emitted subtask record's fields reconstructs the
/// subtask, whatever the accumulator held.
proof fn lemma_parse_sub_fields_emit(s: Seq<char>, i: int, st: SubtaskView, acc: SubtaskView)
    requires
        holds_at(s, i, emit_sub_body(st) + seq!['}']),
    ensures
        parse_sub_fields(s, i, acc) == Some((st, i + emit_sub_body(st).len() + 1)),
{
    let r6 = seq!['x'] + (emit_bit(st.done) + seq!['}']);
    let r5 = seq!['d'] + (emit_str(st.deadline) + r6);
    let r4 = seq!['m'] + (emit_str(st.date_time) + r5);
    let r3 = seq!['p'] + (emit_str(st.priority) + r4);
    let r2 = seq!['c'] + (emit_str(st.content) + r3);
    let r1 = seq!['t'] + (emit_str(st.title) + r2);
    assert(emit_sub_body(st) + seq!['}'] =~= r1);
    lemma_text_field(s, i, 't', st.title, r2);
    let p1 = i + 1 + emit_str(st.title).len();
    lemma_text_field(s, p1, 'c', st.content, r3);
    let p2 = p1 + 1 + emit_str(st.content).len();
    lemma_text_field(s, p2, 'p', st.priority, r4);
    let p3 = p2 + 1 + emit_str(st.priority).len();
    lemma_text_field(s, p3, 'm', st.date_time, r5);
    let p4 = p3 + 1 + emit_str(st.date_time).len();
    lemma_text_field(s, p4, 'd', st.deadline, r6);
    let p5 = p4 + 1 + emit_str(st.deadline).len();
    lemma_bit_field(s, p5, 'x', st.done, seq!['}']);
    let p6 = p5 + 3;
    lemma_at(s, p6, seq!['}'], 0);
    let a1 = SubtaskView { title: st.title, ..acc };
    let a2 = SubtaskView { content: st.content, ..a1 };
    let a3 = SubtaskView { priority: st.priority, ..a2 };
    let a4 = SubtaskView { date_time: st.date_time, ..a3 };
    let a5 = SubtaskView { deadline: st.deadline, ..a4 };
    let a6 = SubtaskView { done: st.done, ..a5 };
    assert(a6 == st);
    assert(parse_sub_fields(s, i, acc) == parse_sub_fields(s, p1, a1));
    assert(parse_sub_fields(s, p1, a1) == parse_sub_fields(s, p2, a2));
    assert(parse_sub_fields(s, p2, a2) == parse_sub_fields(s, p3, a3));
    assert(parse_sub_fields(s, p3, a3) == parse_sub_fields(s, p4, a4));
    assert(parse_sub_fields(s, p4, a4) == parse_sub_fields(s, p5, a5));
    assert(parse_sub_fields(s, p5, a5) == parse_sub_fields(s, p6, a6));
    assert(parse_sub_fields(s, p6, a6) == Some((a6, p6 + 1)));
}

/// Reading back an emitted run of subtask records reconstructs them all.
proof fn lemma_parse_subs_emit(s: Seq<char>, i: int, subs: Seq<SubtaskView>, now: Seq<char>)
    requires
        holds_at(s, i, emit_subs(subs) + seq![']']),
    ensures
        parse_subs(s, i, now) == Some((subs, i + emit_subs(subs).len() + 1)),
    decreases subs.len(),
{
    if subs.len() == 0 {
        assert(emit_subs(subs) + seq![']'] =~= seq![']']);
        lemma_at(s, i, emit_subs(subs) + seq![']'], 0);
        assert(subs =~= Seq::<SubtaskView>::empty());
    } else {
        let st0 = subs[0];
        let rest = subs.drop_first();
        assert(emit_subs(subs) + seq![']'] =~= seq!['{'] + ((emit_sub_body(st0) + seq!['}'])
            + (emit_subs(rest) + seq![']'])));
        lemma_split(s, i, seq!['{'], (emit_sub_body(st0) + seq!['}']) + (emit_subs(rest) + seq![']']));
        lemma_at(s, i, seq!['{'], 0);
        lemma_split(
            s,
            i + 1,
            emit_sub_body(st0) + seq!['}'],
            emit_subs(rest) + seq![']'],
        );
        lemma_parse_sub_fields_emit(s, i + 1, st0, default_sub(now));
        let j = i + 1 + emit_sub_body(st0).len() + 1;
        lemma_parse_subs_emit(s, j, rest, now);
        assert(seq![st0] + rest =~= subs);
    }
}

/// The accumulator after the six scalar fields of a task record were read.
pub open spec fn merged_scalars(acc: TodoView, tv: TodoView) -> TodoView {
    TodoView {
        title: tv.title,
        content: tv.content,
        priority: tv.priority,
        date_time: tv.date_time,
        deadline: tv.deadline,
        done: tv.done,
        subtasks: acc.subtasks,
        expanded: acc.expanded,
    }
}

/// Reading back the six emitted scalar fields of a task record stores
/// their values and arrives at what follows them.
proof fn lemma_scalar_fields_emit(
    s: Seq<char>,
    i: int,
    tv: TodoView,
    acc: TodoView,
    now: Seq<char>,
    tail: Seq<char>,
)
    requires
        holds_at(s, i, emit_scalar_body(tv) + tail),
        tail.len() > 0,
    ensures
        parse_task_fields(s, i, acc, now) == parse_task_fields(
            s,
            i + emit_scalar_body(tv).len(),
            merged_scalars(acc, tv),
            now,
        ),
        holds_at(s, i + emit_scalar_body(tv).len(), tail),
{
    let r6 = seq!['x'] + (emit_bit(tv.done) + tail);
    let r5 = seq!['d'] + (emit_str(tv.deadline) + r6);
    let r4 = seq!['m'] + (emit_str(tv.date_time) + r5);
    let r3 = seq!['p'] + (emit_str(tv.priority) + r4);
    let r2 = seq!['c'] + (emit_str(tv.content) + r3);
    let r1 = seq!['t'] + (emit_str(tv.title) + r2);
    assert(emit_scalar_body(tv) + tail =~= r1);
    lemma_text_field(s, i, 't', tv.title, r2);
    let p1 = i + 1 + emit_str(tv.title).len();
    lemma_text_field(s, p1, 'c', tv.content, r3);
    let p2 = p1 + 1 + emit_str(tv.content).len();
    lemma_text_field(s, p2, 'p', tv.priority, r4);
    let p3 = p2 + 1 + emit_str(tv.priority).len();
    lemma_text_field(s, p3, 'm', tv.date_time, r5);
    let p4 = p3 + 1 + emit_str(tv.date_time).len();
    lemma_text_field(s, p4, 'd', tv.deadline, r6);
    let p5 = p4 + 1 + emit_str(tv.deadline).len();
    lemma_bit_field(s, p5, 'x', tv.done, tail);
    let p6 = p5 + 3;
    let a1 = TodoView { title: tv.title, ..acc };
    let a2 = TodoView { content: tv.content, ..a1 };
    let a3 = TodoView { priority: tv.priority, ..a2 };
    let a4 = TodoView { date_time: tv.date_time, ..a3 };
    let a5 = TodoView { deadline: tv.deadline, ..a4 };
    let a6 = TodoView { done: tv.done, ..a5 };
    assert(a6 == merged_scalars(acc, tv));
    assert(parse_task_fields(s, i, acc, now) == parse_task_fields(s, p1, a1, now));
    assert(parse_task_fields(s, p1, a1, now) == parse_task_fields(s, p2, a2, now));
    assert(parse_task_fields(s, p2, a2, now) == parse_task_fields(s, p3, a3, now));
    assert(parse_task_fields(s, p3, a3, now) == parse_task_fields(s, p4, a4, now));
    assert(parse_task_fields(s, p4, a4, now) == parse_task_fields(s, p5, a5, now));
    assert(parse_task_fields(s, p5, a5, now) == parse_task_fields(s, p6, a6, now));
}

/// Reading back an emitted task record's fields reconstructs the task,
/// whatever the accumulator held.
proof fn lemma_parse_task_fields_emit(
    s: Seq<char>,
    i: int,
    t: TodoView,
    acc: TodoView,
    now: Seq<char>,
)
    requires
        holds_at(s, i, emit_task_body(t) + seq!['}']),
    ensures
        parse_task_fields(s, i, acc, now) == Some((t, i + emit_task_body(t).len() + 1)),
{
    let re = seq!['e'] + (emit_bit(t.expanded) + seq!['}']);
    let rsemi = seq![';'] + re;
    let rs = seq!['s', '['] + ((emit_subs(t.subtasks) + seq![']']) + rsemi);
    assert(emit_task_body(t) + seq!['}'] =~= emit_scalar_body(t) + rs);
    lemma_scalar_fields_emit(s, i, t, acc, now, rs);
    let p6 = i + emit_scalar_body(t).len();
    let a6 = merged_scalars(acc, t);
    lemma_split(s, p6, seq!['s', '['], (emit_subs(t.subtasks) + seq![']']) + rsemi);
    lemma_at(s, p6, seq!['s', '['], 0);
    lemma_at(s, p6, seq!['s', '['], 1);
    lemma_split(s, p6 + 2, emit_subs(t.subtasks) + seq![']'], rsemi);
    lemma_parse_subs_emit(s, p6 + 2, t.subtasks, now);
    let q = p6 + 2 + emit_subs(t.subtasks).len() + 1;
    lemma_at(s, q, rsemi, 0);
    let a7 = TodoView { subtasks: t.subtasks, ..a6 };
    lemma_split(s, q, seq![';'], re);
    lemma_bit_field(s, q + 1, 'e', t.expanded, seq!['}']);
    let p8 = q + 4;
    lemma_at(s, p8, seq!['}'], 0);
    let a8 = TodoView { expanded: t.expanded, ..a7 };
    assert(a8 == t);
    assert(parse_task_fields(s, i, acc, now) == parse_task_fields(s, p6, a6, now));
    assert(parse_task_fields(s, p6, a6, now) == parse_task_fields(s, q + 1, a7, now));
    assert(parse_task_fields(s, q + 1, a7, now) == parse_task_fields(s, p8, a8, now));
    assert(parse_task_fields(s, p8, a8, now) == Some((a8, p8 + 1)));
}

/// Reading back an emitted store that fills the rest of the input
/// reconstructs every task.
proof fn lemma_parse_store_items_emit(s: Seq<char>, i: int, ts: Seq<TodoView>, now: Seq<char>)
    requires
        holds_at(s, i, emit_store(ts)),
        i + emit_store(ts).len() == s.len(),
    ensures
        parse_store_items(s, i, now) == Some((ts, s.len() as int)),
    decreases ts.len(),
{
    if ts.len() == 0 {
        assert(ts =~= Seq::<TodoView>::empty());
    } else {
        let t0 = ts[0];
        let rest = ts.drop_first();
        assert(emit_store(ts) =~= seq!['{'] + ((emit_task_body(t0) + seq!['}']) + emit_store(rest)));
        lemma_split(s, i, seq!['{'], (emit_task_body(t0) + seq!['}']) + emit_store(rest));
        lemma_at(s, i, seq!['{'], 0);
        lemma_split(s, i + 1, emit_task_body(t0) + seq!['}'], emit_store(rest));
        lemma_parse_task_fields_emit(s, i + 1, t0, default_task(now), now);
        let j = i + 1 + emit_task_body(t0).len() + 1;
        lemma_parse_store_items_emit(s, j, rest, now);
        assert(seq![t0] + rest =~= ts);
    }
}

/// Round trip: reading back an emitted store yields the same sequence of
/// tasks, field for field.
pub proof fn lemma_store_round_trip(ts: Seq<TodoView>, now: Seq<char>)
    ensures
        parse_store(emit_store(ts), now) == Some(ts),
{
    let s = emit_store(ts);
    assert(s.subrange(0, s.len() as int) =~= s);
    lemma_parse_store_items_emit(s, 0, ts, now);
}

/// One task record as writers before the subtask and expansion fields
/// wrote it: the six scalar fields only.
pub open spec fn emit_legacy_task(t: TodoView) -> Seq<char> {
    seq!['{'] + (emit_scalar_body(t) + seq!['}'])
}

/// A whole store in the older layout.
pub open spec fn emit_legacy_store(ts: Seq<TodoView>) -> Seq<char>
    decreases ts.len(),
{
    if ts.len() == 0 {
        Seq::empty()
    } else {
        emit_legacy_task(ts[0]) + emit_legacy_store(ts.drop_first())
    }
}

/// What loading an older record yields: its scalar fields, and the fields
/// it could not name defaulted — no subtasks, collapsed.
pub open spec fn with_legacy_defaults(t: TodoView) -> TodoView {
    TodoView { subtasks: Seq::empty(), expanded: false, ..t }
}

proof fn lemma_parse_legacy_store_items(s: Seq<char>, i: int, ts: Seq<TodoView>, now: Seq<char>)
    requires
        holds_at(s, i, emit_legacy_store(ts)),
        i + emit_legacy_store(ts).len() == s.len(),
    ensures
        parse_store_items(s, i, now) == Some(
            (Seq::new(ts.len(), |k: int| with_legacy_defaults(ts[k])), s.len() as int),
        ),
    decreases ts.len(),
{
    if ts.len() == 0 {
        assert(Seq::new(ts.len(), |k: int| with_legacy_defaults(ts[k])) =~= Seq::<
            TodoView,
        >::empty());
    } else {
        let t0 = ts[0];
        let rest = ts.drop_first();
        assert(emit_legacy_store(ts) =~= seq!['{'] + ((emit_scalar_body(t0) + seq!['}'])
            + emit_legacy_store(rest)));
        lemma_split(s, i, seq!['{'], (emit_scalar_body(t0) + seq!['}']) + emit_legacy_store(rest));
        lemma_at(s, i, seq!['{'], 0);
        lemma_split(s, i + 1, emit_scalar_body(t0) + seq!['}'], emit_legacy_store(rest));
        lemma_scalar_fields_emit(s, i + 1, t0, default_task(now), now, seq!['}']);
        let p6 = i + 1 + emit_scalar_body(t0).len();
        lemma_at(s, p6, seq!['}'], 0);
        let a6 = merged_scalars(default_task(now), t0);
        assert(a6 == with_legacy_defaults(t0));
        assert(parse_task_fields(s, p6, a6, now) == Some((a6, p6 + 1)));
        let j = p6 + 1;
        lemma_parse_legacy_store_items(s, j, rest, now);
        assert(seq![with_legacy_defaults(t0)] + Seq::new(
            rest.len(),
            |k: int| with_legacy_defaults(rest[k]),
        ) =~= Seq::new(ts.len(), |k: int| with_legacy_defaults(ts[k])));
    }
}

/// Loading a store written before the subtask and expansion fields existed
/// succeeds, and every task comes back with its scalar fields intact, no
/// subtasks, and collapsed.
pub proof fn lemma_legacy_defaults(ts: Seq<TodoView>, now: Seq<char>)
    ensures
        parse_store(emit_legacy_store(ts), now) == Some(
            Seq::new(ts.len(), |k: int| with_legacy_defaults(ts[k])),
        ),
{
    let s = emit_legacy_store(ts);
    assert(s.subrange(0, s.len() as int) =~= s);
    lemma_parse_legacy_store_items(s, 0, ts, now);
}

/// Escaping splits over concatenation.
proof fn lemma_esc_append(a: Seq<char>, b: Seq<char>)
    ensures
        esc(a + b) == esc(a) + esc(b),
    decreases a.len(),
{
    if a.len() == 0 {
        assert(a + b =~= b);
        assert(esc(a) + esc(b) =~= esc(b));
    } else {
        assert((a + b)[0] == a[0]);
        assert((a + b).drop_first() =~= a.drop_first() + b);
        lemma_esc_append(a.drop_first(), b);
        assert(esc_char(a[0]) + (esc(a.drop_first()) + esc(b)) =~= (esc_char(a[0]) + esc(
            a.drop_first(),
        )) + esc(b));
    }
}

/// Write one tagged text field.
fn push_text_field(out: &mut Vec<char>, tag: char, field: &str)
    ensures
        final(out)@ == old(out)@ + seq![tag] + emit_str(field@),
{
    let ghost base = out@;
    out.push(tag);
    let cs = chars_of(field);
    let n = cs.len();
    let mut i: usize = 0;
    proof {
        assert(field@.take(0) =~= Seq::<char>::empty());
        assert(out@ =~= base + seq![tag] + esc(field@.take(0)));
    }
    while i < n
        invariant
            n == cs@.len(),
            cs@ == field@,
            i <= n,
            out@ == base + seq![tag] + esc(field@.take(i as int)),
        decreases n - i,
    {
        let ghost pre = out@;
        let c = cs[i];
        if c == '\\' || c == ';' {
            out.push('\\');
        }
        out.push(c);
        proof {
            assert(field@.take(i + 1) =~= field@.take(i as int) + seq![c]);
            lemma_esc_append(field@.take(i as int), seq![c]);
            assert(seq![c].drop_first() =~= Seq::<char>::empty());
            assert(seq![c][0] == c);
            assert(esc(Seq::<char>::empty()) =~= Seq::<char>::empty());
            assert(esc_char(c) + Seq::<char>::empty() =~= esc_char(c));
            assert(esc(seq![c]) =~= esc_char(c));
            assert(out@ =~= base + seq![tag] + esc(field@.take(i + 1)));
        }
        i = i + 1;
    }
    out.push(';');
    proof {
        assert(field@.take(n as int) =~= field@);
        assert(emit_str(field@) =~= esc(field@) + seq![';']);
        assert(out@ =~= base + seq![tag] + emit_str(field@));
    }
}

/// Write one tagged flag field.
fn push_bit_field(out: &mut Vec<char>, tag: char, b: bool)
    ensures
        final(out)@ == old(out)@ + seq![tag] + emit_bit(b),
{
    out.push(tag);
    if b {
        out.push('1');
    } else {
        out.push('0');
    }
    out.push(';');
    proof {
        assert(final(out)@ =~= old(out)@ + seq![tag] + emit_bit(b));
    }
}

/// Write one subtask record.
fn push_sub(out: &mut Vec<char>, st: &Subtask)
    ensures
        final(out)@ == old(out)@ + emit_sub(st@),
{
    out.push('{');
    push_text_field(out, 't', st.title.as_str());
    push_text_field(out, 'c', st.content.as_str());
    push_text_field(out, 'p', st.priority.as_str());
    push_text_field(out, 'm', st.date_time.as_str());
    push_text_field(out, 'd', st.deadline.as_str());
    push_bit_field(out, 'x', st.done);
    out.push('}');
    proof {
        assert(final(out)@ =~= old(out)@ + emit_sub(st@));
    }
}

/// A run of subtask records grows at its end.
proof fn lemma_emit_subs_push(subs: Seq<SubtaskView>, st: SubtaskView)
    ensures
        emit_subs(subs.push(st)) == emit_subs(subs) + emit_sub(st),
    decreases subs.len(),
{
    if subs.len() == 0 {
        assert(subs.push(st).drop_first() =~= Seq::<SubtaskView>::empty());
        assert(subs.push(st)[0] == st);
        assert(emit_subs(Seq::<SubtaskView>::empty()) =~= Seq::<char>::empty());
        assert(emit_subs(subs.push(st)) =~= emit_sub(st));
        assert(emit_subs(subs) + emit_sub(st) =~= emit_sub(st));
    } else {
        assert(subs.push(st).drop_first() =~= subs.drop_first().push(st));
        lemma_emit_subs_push(subs.drop_first(), st);
        assert(emit_sub(subs[0]) + (emit_subs(subs.drop_first()) + emit_sub(st)) =~= (emit_sub(
            subs[0],
        ) + emit_subs(subs.drop_first())) + emit_sub(st));
    }
}

/// A run of task records grows at its end.
proof fn lemma_emit_store_push(ts: Seq<TodoView>, t: TodoView)
    ensures
        emit_store(ts.push(t)) == emit_store(ts) + emit_task(t),
    decreases ts.len(),
{
    if ts.len() == 0 {
        assert(ts.push(t).drop_first() =~= Seq::<TodoView>::empty());
        assert(ts.push(t)[0] == t);
        assert(emit_store(Seq::<TodoView>::empty()) =~= Seq::<char>::empty());
        assert(emit_store(ts.push(t)) =~= emit_task(t));
        assert(emit_store(ts) + emit_task(t) =~= emit_task(t));
    } else {
        assert(ts.push(t).drop_first() =~= ts.drop_first().push(t));
        lemma_emit_store_push(ts.drop_first(), t);
        assert(emit_task(ts[0]) + (emit_store(ts.drop_first()) + emit_task(t)) =~= (emit_task(
            ts[0],
        ) + emit_store(ts.drop_first())) + emit_task(t));
    }
}

/// Write one task record.
#[verifier::rlimit(60)]
fn push_task(out: &mut Vec<char>, t: &Todo)
    ensures
        final(out)@ == old(out)@ + emit_task(t@),
{
    out.push('{');
    push_text_field(out, 't', t.title.as_str());
    push_text_field(out, 'c', t.content.as_str());
    push_text_field(out, 'p', t.priority.as_str());
    push_text_field(out, 'm', t.date_time.as_str());
    push_text_field(out, 'd', t.deadline.as_str());
    push_bit_field(out, 'x', t.done);
    out.push('s');
    out.push('[');
    let ghost before_subs = out@;
    let n = t.subtasks.len();
    let mut i: usize = 0;
    proof {
        assert(subtask_views(t.subtasks@).take(0) =~= Seq::<SubtaskView>::empty());
        assert(out@ =~= before_subs + emit_subs(subtask_views(t.subtasks@).take(0)));
    }
    while i < n
        invariant
            n == t.subtasks@.len(),
            i <= n,
            out@ == before_subs + emit_subs(subtask_views(t.subtasks@).take(i as int)),
        decreases n - i,
    {
        push_sub(out, &t.subtasks[i]);
        proof {
            let sv = subtask_views(t.subtasks@);
            assert(sv.take(i + 1) =~= sv.take(i as int).push(sv[i as int]));
            lemma_emit_subs_push(sv.take(i as int), sv[i as int]);
            assert(out@ =~= before_subs + emit_subs(sv.take(i + 1)));
        }
        i = i + 1;
    }
    proof {
        assert(subtask_views(t.subtasks@).take(n as int) =~= subtask_views(t.subtasks@));
    }
    out.push(']');
    out.push(';');
    push_bit_field(out, 'e', t.expanded);
    out.push('}');
    proof {
        assert(final(out)@ =~= old(out)@ + emit_task(t@));
    }
}

/// The persisted text of a whole store.
pub fn render_todos(todos: &Vec<Todo>) -> (r: String)
    ensures
        r@ == emit_store(todo_views(todos@)),
{
    let mut out: Vec<char> = Vec::new();
    let n = todos.len();
    let mut i: usize = 0;
    proof {
        assert(todo_views(todos@).take(0) =~= Seq::<TodoView>::empty());
        assert(out@ =~= emit_store(todo_views(todos@).take(0)));
    }
    while i < n
        invariant
            n == todos@.len(),
            i <= n,
            out@ == emit_store(todo_views(todos@).take(i as int)),
        decreases n - i,
    {
        push_task(&mut out, &todos[i]);
        proof {
            let tv = todo_views(todos@);
            assert(tv.take(i + 1) =~= tv.take(i as int).push(tv[i as int]));
            lemma_emit_store_push(tv.take(i as int), tv[i as int]);
            assert(out@ =~= emit_store(tv.take(i + 1)));
        }
        i = i + 1;
    }
    proof {
        assert(todo_views(todos@).take(n as int) =~= todo_views(todos@));
    }
    string_from_chars(&out)
}

/// Read one text field's value.
fn px_str(s: &Vec<char>, i0: usize) -> (r: Option<(Vec<char>, usize)>)
    requires
        i0 <= s@.len(),
    ensures
        (match r {
            Some((v, j)) => parse_str(s@, i0 as int) == Some((v@, j as int)) && i0 < j
                <= s@.len(),
            None => parse_str(s@, i0 as int) is None,
        }),
{
    let mut out: Vec<char> = Vec::new();
    let mut i: usize = i0;
    let n = s.len();
    proof {
        assert(out@ =~= Seq::<char>::empty());
        if let Some((v, j)) = parse_str(s@, i as int) {
            assert(out@ + v =~= v);
        }
    }
    loop
        invariant
            n == s@.len(),
            i0 <= i,
            i <= n,
            (match parse_str(s@, i as int) {
                Some((v, j)) => parse_str(s@, i0 as int) == Some((out@ + v, j)),
                None => parse_str(s@, i0 as int) is None,
            }),
        decreases n - i,
    {
        if i >= n {
            return None;
        }
        let ch = s[i];
        if ch == ';' {
            proof {
                assert(out@ + Seq::<char>::empty() =~= out@);
            }
            return Some((out, i + 1));
        }
        if ch == '\\' {
            if i + 1 >= n {
                return None;
            }
            let c2 = s[i + 1];
            let ghost out0 = out@;
            out.push(c2);
            proof {
                if let Some((v, j)) = parse_str(s@, i as int + 2) {
                    assert(out0 + (seq![c2] + v) =~= out@ + v);
                }
            }
            i = i + 2;
        } else {
            let ghost out0 = out@;
            out.push(ch);
            proof {
                if let Some((v, j)) = parse_str(s@, i as int + 1) {
                    assert(out0 + (seq![ch] + v) =~= out@ + v);
                }
            }
            i = i + 1;
        }
    }
}

/// Read one flag field's value.
fn px_bit(s: &Vec<char>, i: usize) -> (r: Option<(bool, usize)>)
    ensures
        (match r {
            Some((b, j)) => parse_bit(s@, i as int) == Some((b, j as int)) && i < j <= s@.len(),
            None => parse_bit(s@, i as int) is None,
        }),
{
    let n = s.len();
    if i < n && i + 1 < n {
        let c0 = s[i];
        let c1 = s[i + 1];
        if (c0 == '0' || c0 == '1') && c1 == ';' {
            return Some((c0 == '1', i + 2));
        }
        None
    } else {
        None
    }
}

/// Read subtask record fields into the record being built, until `}`.
#[verifier::loop_isolation(false)]
fn px_sub_fields(s: &Vec<char>, i0: usize, acc: Subtask) -> (r: Option<(Subtask, usize)>)
    requires
        i0 <= s@.len(),
    ensures
        (match r {
            Some((st, j)) => parse_sub_fields(s@, i0 as int, acc@) == Some((st@, j as int)) && i0
                < j <= s@.len(),
            None => parse_sub_fields(s@, i0 as int, acc@) is None,
        }),
{
    let ghost acc0 = acc@;
    let mut cur = acc;
    let mut i: usize = i0;
    let n = s.len();
    loop
        invariant
            n == s@.len(),
            i0 <= i,
            i <= n,
            parse_sub_fields(s@, i0 as int, acc0) == parse_sub_fields(s@, i as int, cur@),
        decreases n - i,
    {
        if i >= n {
            return None;
        }
        let ch = s[i];
        if ch == '}' {
            return Some((cur, i + 1));
        }
        if ch == 't' {
            match px_str(s, i + 1) {
                Some((v, j)) => {
                    cur.title = string_from_chars(&v);
                    i = j;
                },
                None => {
                    return None;
                },
            }
        } else if ch == 'c' {
            match px_str(s, i + 1) {
                Some((v, j)) => {
                    cur.content = string_from_chars(&v);
                    i = j;
                },
                None => {
                    return None;
                },
            }
        } else if ch == 'p' {
            match px_str(s, i + 1) {
                Some((v, j)) => {
                    cur.priority = string_from_chars(&v);
                    i = j;
                },
                None => {
                    return None;
                },
            }
        } else if ch == 'm' {
            match px_str(s, i + 1) {
                Some((v, j)) => {
                    cur.date_time = string_from_chars(&v);
                    i = j;
                },
                None => {
                    return None;
                },
            }
        } else if ch == 'd' {
            match px_str(s, i + 1) {
                Some((v, j)) => {
                    cur.deadline = string_from_chars(&v);
                    i = j;
                },
                None => {
                    return None;
                },
            }
        } else if ch == 'x' {
            match px_bit(s, i + 1) {
                Some((b, j)) => {
                    cur.done = b;
                    i = j;
                },
                None => {
                    return None;
                },
            }
        } else {
            return None;
        }
    }
}

/// Read one subtask record; a missing update time defaults to `now`.
fn px_sub(s: &Vec<char>, i: usize, now: &str) -> (r: Option<(Subtask, usize)>)
    ensures
        (match r {
            Some((st, j)) => parse_sub(s@, i as int, now@) == Some((st@, j as int)) && i < j
                <= s@.len(),
            None => parse_sub(s@, i as int, now@) is None,
        }),
{
    let n = s.len();
    if i < n && s[i] == '{' {
        let acc = Subtask {
            title: String::new(),
            content: String::new(),
            priority: String::from_str("low"),
            date_time: String::from_str(now),
            deadline: String::new(),
            done: false,
        };
        proof {
            assert(acc@ =~= default_sub(now@));
        }
        px_sub_fields(s, i + 1, acc)
    } else {
        None
    }
}

/// Read subtask records until `]`.
fn px_subs(s: &Vec<char>, i0: usize, now: &str) -> (r: Option<(Vec<Subtask>, usize)>)
    requires
        i0 <= s@.len(),
    ensures
        (match r {
            Some((subs, j)) => parse_subs(s@, i0 as int, now@) == Some(
                (subtask_views(subs@), j as int),
            ) && i0 < j <= s@.len(),
            None => parse_subs(s@, i0 as int, now@) is None,
        }),
{
    let mut out: Vec<Subtask> = Vec::new();
    let mut i: usize = i0;
    let n = s.len();
    proof {
        assert(subtask_views(out@) =~= Seq::<SubtaskView>::empty());
        if let Some((rest, k)) = parse_subs(s@, i as int, now@) {
            assert(subtask_views(out@) + rest =~= rest);
        }
    }
    loop
        invariant
            n == s@.len(),
            i0 <= i,
            i <= n,
            (match parse_subs(s@, i as int, now@) {
                Some((rest, k)) => parse_subs(s@, i0 as int, now@) == Some(
                    (subtask_views(out@) + rest, k),
                ),
                None => parse_subs(s@, i0 as int, now@) is None,
            }),
        decreases n - i,
    {
        if i >= n {
            return None;
        }
        if s[i] == ']' {
            proof {
                assert(subtask_views(out@) + Seq::<SubtaskView>::empty() =~= subtask_views(out@));
            }
            return Some((out, i + 1));
        }
        match px_sub(s, i, now) {
            Some((st, j)) => {
                let ghost out0 = out@;
                let ghost stv = st@;
                out.push(st);
                proof {
                    assert(subtask_views(out@) =~= subtask_views(out0).push(stv));
                    if let Some((rest, k)) = parse_subs(s@, j as int, now@) {
                        assert(subtask_views(out0) + (seq![stv] + rest) =~= subtask_views(out@)
                            + rest);
                    }
                }
                i = j;
            },
            None => {
                return None;
            },
        }
    }
}

/// Read task record fields into the record being built, until `}`.
#[verifier::loop_isolation(false)]
fn px_task_fields(s: &Vec<char>, i0: usize, acc: Todo, now: &str) -> (r: Option<(Todo, usize)>)
    requires
        i0 <= s@.len(),
    ensures
        (match r {
            Some((t, j)) => parse_task_fields(s@, i0 as int, acc@, now@) == Some((t@, j as int))
                && i0 < j <= s@.len(),
            None => parse_task_fields(s@, i0 as int, acc@, now@) is None,
        }),
{
    let ghost acc0 = acc@;
    let mut cur = acc;
    let mut i: usize = i0;
    let n = s.len();
    loop
        invariant
            n == s@.len(),
            i0 <= i,
            i <= n,
            parse_task_fields(s@, i0 as int, acc0, now@) == parse_task_fields(
                s@,
                i as int,
                cur@,
                now@,
            ),
        decreases n - i,
    {
        if i >= n {
            return None;
        }
        let ch = s[i];
        if ch == '}' {
            return Some((cur, i + 1));
        }
        if ch == 't' {
            match px_str(s, i + 1) {
                Some((v, j)) => {
                    cur.title = string_from_chars(&v);
                    i = j;
                },
                None => {
                    return None;
                },
            }
        } else if ch == 'c' {
            match px_str(s, i + 1) {
                Some((v, j)) => {
                    cur.content = string_from_chars(&v);
                    i = j;
                },
                None => {
                    return None;
                },
            }
        } else if ch == 'p' {
            match px_str(s, i + 1) {
                Some((v, j)) => {
                    cur.priority = string_from_chars(&v);
                    i = j;
                },
                None => {
                    return None;
                },
            }
        } else if ch == 'm' {
            match px_str(s, i + 1) {
                Some((v, j)) => {
                    cur.date_time = string_from_chars(&v);
                    i = j;
                },
                None => {
                    return None;
                },
            }
        } else if ch == 'd' {
            match px_str(s, i + 1) {
                Some((v, j)) => {
                    cur.deadline = string_from_chars(&v);
                    i = j;
                },
                None => {
                    return None;
                },
            }
        } else if ch == 'x' {
            match px_bit(s, i + 1) {
                Some((b, j)) => {
                    cur.done = b;
                    i = j;
                },
                None => {
                    return None;
                },
            }
        } else if ch == 'e' {
            match px_bit(s, i + 1) {
                Some((b, j)) => {
                    cur.expanded = b;
                    i = j;
                },
                None => {
                    return None;
                },
            }
        } else if ch == 's' {
            if i + 1 < n && s[i + 1] == '[' {
                match px_subs(s, i + 2, now) {
                    Some((subs, j)) => {
                        if j < n && s[j] == ';' {
                            cur.subtasks = subs;
                            i = j + 1;
                        } else {
                            return None;
                        }
                    },
                    None => {
                        return None;
                    },
                }
            } else {
                return None;
            }
        } else {
            return None;
        }
    }
}

/// Read one task record; missing fields default.
fn px_task(s: &Vec<char>, i: usize, now: &str) -> (r: Option<(Todo, usize)>)
    ensures
        (match r {
            Some((t, j)) => parse_task(s@, i as int, now@) == Some((t@, j as int)) && i < j
                <= s@.len(),
            None => parse_task(s@, i as int, now@) is None,
        }),
{
    let n = s.len();
    if i < n && s[i] == '{' {
        let acc = Todo {
            title: String::new(),
            content: String::new(),
            priority: String::from_str("low"),
            date_time: String::from_str(now),
            deadline: String::new(),
            done: false,
            subtasks: Vec::new(),
            expanded: false,
        };
        proof {
            assert(acc@.subtasks =~= Seq::<SubtaskView>::empty());
            assert(acc@ =~= default_task(now@));
        }
        px_task_fields(s, i + 1, acc, now)
    } else {
        None
    }
}

/// Read the persisted text of a whole store back into tasks. Fields a
/// record does not name default: empty text, priority "low", the time of
/// the load, not done, no subtasks, collapsed.
pub fn parse_todos(data: &str, now: &str) -> (r: Option<Vec<Todo>>)
    ensures
        (match r {
            Some(v) => parse_store(data@, now@) == Some(todo_views(v@)),
            None => parse_store(data@, now@) is None,
        }),
{
    let s = chars_of(data);
    let mut out: Vec<Todo> = Vec::new();
    let mut i: usize = 0;
    let n = s.len();
    proof {
        assert(todo_views(out@) =~= Seq::<TodoView>::empty());
        if let Some((rest, k)) = parse_store_items(s@, 0, now@) {
            assert(todo_views(out@) + rest =~= rest);
        }
    }
    loop
        invariant
            n == s@.len(),
            s@ == data@,
            i <= n,
            (match parse_store_items(s@, i as int, now@) {
                Some((rest, k)) => parse_store_items(s@, 0, now@) == Some(
                    (todo_views(out@) + rest, k),
                ),
                None => parse_store_items(s@, 0, now@) is None,
            }),
        decreases n - i,
    {
        if i == n {
            proof {
                assert(todo_views(out@) + Seq::<TodoView>::empty() =~= todo_views(out@));
            }
            return Some(out);
        }
        match px_task(&s, i, now) {
            Some((t, j)) => {
                let ghost out0 = out@;
                let ghost tv = t@;
                out.push(t);
                proof {
                    assert(todo_views(out@) =~= todo_views(out0).push(tv));
                    if let Some((rest, k)) = parse_store_items(s@, j as int, now@) {
                        assert(todo_views(out0) + (seq![tv] + rest) =~= todo_views(out@) + rest);
                    }
                }
                i = j;
            },
            None => {
                return None;
            },
        }
    }
}

} // verus!
