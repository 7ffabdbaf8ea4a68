//! Why a repaired history is accepted by a chat-completion API: every tool
//! message answers a call that is still pending, and no user or assistant
//! message arrives while a call is pending.

use vstd::prelude::*;

use crate::context::{
    all_answered, answered_ids, has_call_id, insert_stubs, is_calling, keeps, known_ids, leading_tools,
    lemma_leading_tools_bound, orphan_repair, retained, stub_for, trimmed, unanswered_ids,
    with_ids,
};
use crate::messages::{MessageRole, MessageView, ToolCallView};

verus! {

// ─── The API's rule ────────────────────────────────────────────────────────

/// The id a tool message answers (empty when it names none).
pub open spec fn answer_id(m: MessageView) -> Seq<char> {
    match m.tool_call_id {
        Some(id) => id,
        None => Seq::empty(),
    }
}

/// The ids of a list of tool calls.
pub open spec fn call_ids(tcs: Seq<ToolCallView>) -> Set<Seq<char>> {
    Set::new(|id: Seq<char>| has_call_id(tcs, id))
}

/// Whether the messages are accepted with the calls `pending` still open: an
/// assistant message may only come when no call is open and opens its own
/// calls; a tool message must answer an open call, which it closes; a user
/// message may only come when no call is open.
pub open spec fn accepted_with(ms: Seq<MessageView>, pending: Set<Seq<char>>) -> bool
    decreases ms.len(),
{
    if ms.len() == 0 {
        true
    } else {
        let m = ms[0];
        let rest = ms.drop_first();
        match m.role {
            MessageRole::Assistant => pending.is_empty() && accepted_with(
                rest,
                match m.tool_calls {
                    Some(tcs) => call_ids(tcs),
                    None => Set::empty(),
                },
            ),
            MessageRole::Tool => pending.contains(answer_id(m)) && accepted_with(
                rest,
                pending.remove(answer_id(m)),
            ),
            MessageRole::User => pending.is_empty() && accepted_with(rest, pending),
            _ => accepted_with(rest, pending),
        }
    }
}

/// Whether a history is accepted.
pub open spec fn accepted(ms: Seq<MessageView>) -> bool {
    accepted_with(ms, Set::empty())
}

// ─── Histories as the agent stores them ────────────────────────────────────

/// Whether the calls of one message have distinct ids.
pub open spec fn distinct_calls(tcs: Seq<ToolCallView>) -> bool {
    forall|i: int, j: int| 0 <= i < j < tcs.len() ==> tcs[i].id != tcs[j].id
}

/// Whether a history is stored in order, `cur` being the calls of the
/// assistant message that the tool messages at the front follow, `called`
/// the ids called so far and `results` the calls answered so far: every tool
/// message names a call id; a result for a call in `known` follows that
/// call, with only tool messages between, and is its only result; every call
/// id is used by one call only.
pub open spec fn in_order(
    ms: Seq<MessageView>,
    cur: Set<Seq<char>>,
    called: Set<Seq<char>>,
    results: Set<Seq<char>>,
    known: Set<Seq<char>>,
) -> bool
    decreases ms.len(),
{
    if ms.len() == 0 {
        true
    } else {
        let m = ms[0];
        let rest = ms.drop_first();
        if m.role == MessageRole::Tool {
            match m.tool_call_id {
                None => false,
                Some(id) => if known.contains(id) {
                    cur.contains(id) && !results.contains(id) && in_order(
                        rest,
                        cur,
                        called,
                        results.insert(id),
                        known,
                    )
                } else {
                    in_order(rest, cur, called, results, known)
                },
            }
        } else if is_calling(m) {
            let tcs = m.tool_calls->0;
            &&& distinct_calls(tcs)
            &&& call_ids(tcs).disjoint(called)
            &&& in_order(rest, call_ids(tcs), called.union(call_ids(tcs)), results, known)
        } else {
            in_order(rest, Set::empty(), called, results, known)
        }
    }
}

/// Whether a history, as loaded, is stored in order (see [`in_order`]).
pub open spec fn stored_in_order(ms: Seq<MessageView>) -> bool {
    in_order(ms, Set::empty(), Set::empty(), Set::empty(), known_ids(ms))
}

// ─── Lemmas on the pieces ──────────────────────────────────────────────────

proof fn lemma_cons<A>(m: A, x: Seq<A>)
    ensures
        (seq![m] + x)[0] == m,
        (seq![m] + x).drop_first() =~= x,
        (seq![m] + x).len() == x.len() + 1,
{
}

proof fn lemma_split<A>(s: Seq<A>)
    requires
        s.len() > 0,
    ensures
        s =~= seq![s[0]] + s.drop_first(),
{
}

/// A run of tool messages that answer distinct open calls closes them.
proof fn lemma_tools_accepted(ts: Seq<MessageView>, x: Seq<MessageView>, pending: Set<Seq<char>>)
    requires
        forall|i: int| 0 <= i < ts.len() ==> (#[trigger] ts[i]).role == MessageRole::Tool,
        forall|i: int| 0 <= i < ts.len() ==> pending.contains(answer_id(#[trigger] ts[i])),
        forall|i: int, j: int| 0 <= i < j < ts.len() ==> answer_id(ts[i]) != answer_id(ts[j]),
    ensures
        accepted_with(ts + x, pending) == accepted_with(
            x,
            pending.difference(Set::new(|id: Seq<char>| exists|i: int| 0 <= i < ts.len() && answer_id(ts[i]) == id)),
        ),
    decreases ts.len(),
{
    let gone = Set::new(|id: Seq<char>| exists|i: int| 0 <= i < ts.len() && answer_id(ts[i]) == id);
    if ts.len() == 0 {
        assert(ts + x =~= x);
        assert(pending.difference(gone) =~= pending);
    } else {
        let t0 = ts[0];
        let tr = ts.drop_first();
        assert((ts + x)[0] == t0);
        assert((ts + x).drop_first() =~= tr + x);
        let p1 = pending.remove(answer_id(t0));
        assert forall|i: int| 0 <= i < tr.len() implies p1.contains(answer_id(#[trigger] tr[i])) by {
            assert(tr[i] == ts[i + 1]);
            assert(answer_id(ts[0]) != answer_id(ts[i + 1]));
        }
        assert forall|i: int| 0 <= i < tr.len() implies (#[trigger] tr[i]).role == MessageRole::Tool by {
            assert(tr[i] == ts[i + 1]);
        }
        assert forall|i: int, j: int| 0 <= i < j < tr.len() implies answer_id(tr[i]) != answer_id(tr[j]) by {
            assert(tr[i] == ts[i + 1] && tr[j] == ts[j + 1]);
        }
        lemma_tools_accepted(tr, x, p1);
        let gone1 = Set::new(|id: Seq<char>| exists|i: int| 0 <= i < tr.len() && answer_id(tr[i]) == id);
        assert forall|id: Seq<char>| gone.contains(id) <==> (id == answer_id(t0) || gone1.contains(id)) by {
            if gone.contains(id) {
                let i = choose|i: int| 0 <= i < ts.len() && answer_id(ts[i]) == id;
                if i > 0 {
                    assert(tr[i - 1] == ts[i]);
                }
            }
            if gone1.contains(id) {
                let i = choose|i: int| 0 <= i < tr.len() && answer_id(tr[i]) == id;
                assert(tr[i] == ts[i + 1]);
            }
        }
        assert(p1.difference(gone1) =~= pending.difference(gone));
    }
}


proof fn lemma_retained_concat(a: Seq<MessageView>, b: Seq<MessageView>, known: Set<Seq<char>>)
    ensures
        retained(a + b, known) == retained(a, known) + retained(b, known),
    decreases b.len(),
{
    if b.len() == 0 {
        assert(a + b =~= a);
        assert(retained(a, known) + retained(b, known) =~= retained(a, known));
    } else {
        lemma_retained_concat(a, b.drop_last(), known);
        assert((a + b).drop_last() =~= a + b.drop_last());
        assert((a + b).last() == b.last());
        if keeps(b.last(), known) {
            assert(retained(a, known) + retained(b.drop_last(), known).push(b.last()) =~= (
            retained(a, known) + retained(b.drop_last(), known)).push(b.last()));
        }
    }
}

proof fn lemma_retained_front(ms: Seq<MessageView>, known: Set<Seq<char>>)
    requires
        ms.len() > 0,
    ensures
        retained(ms, known) == if keeps(ms[0], known) {
            seq![ms[0]] + retained(ms.drop_first(), known)
        } else {
            retained(ms.drop_first(), known)
        },
{
    lemma_split(ms);
    lemma_retained_concat(seq![ms[0]], ms.drop_first(), known);
    let one = seq![ms[0]];
    assert(one.drop_last() =~= Seq::<MessageView>::empty());
    assert(one.last() == ms[0]);
    assert(retained(one.drop_last(), known) =~= Seq::<MessageView>::empty());
    if !keeps(ms[0], known) {
        assert(retained(one, known) =~= Seq::<MessageView>::empty());
        assert(Seq::<MessageView>::empty() + retained(ms.drop_first(), known) =~= retained(
            ms.drop_first(),
            known,
        ));
    } else {
        assert(retained(one, known) =~= one);
    }
}

/// Dropping the results of calls that are not in the history keeps a
/// history in order, and leaves only results of known calls.
proof fn lemma_retained_in_order(
    ms: Seq<MessageView>,
    cur: Set<Seq<char>>,
    called: Set<Seq<char>>,
    results: Set<Seq<char>>,
    known: Set<Seq<char>>,
)
    requires
        in_order(ms, cur, called, results, known),
    ensures
        in_order(retained(ms, known), cur, called, results, Set::full()),
    decreases ms.len(),
{
    if ms.len() > 0 {
        let m = ms[0];
        let rest = ms.drop_first();
        lemma_retained_front(ms, known);
        let rr = retained(rest, known);
        if m.role == MessageRole::Tool {
            let id = m.tool_call_id->0;
            if known.contains(id) {
                lemma_retained_in_order(rest, cur, called, results.insert(id), known);
                lemma_cons(m, rr);
            } else {
                lemma_retained_in_order(rest, cur, called, results, known);
            }
        } else if is_calling(m) {
            let tcs = m.tool_calls->0;
            lemma_retained_in_order(rest, call_ids(tcs), called.union(call_ids(tcs)), results, known);
            lemma_cons(m, rr);
        } else {
            lemma_retained_in_order(rest, Set::empty(), called, results, known);
            lemma_cons(m, rr);
        }
    }
}

// ─── Runs of tool messages ─────────────────────────────────────────────────

/// The ids answered by the run of tool messages at the front.
pub open spec fn front_answers(s: Seq<MessageView>) -> Set<Seq<char>> {
    Set::new(|id: Seq<char>| exists|i: int| 0 <= i < leading_tools(s) && answer_id(s[i]) == id)
}

proof fn lemma_leading_tools_shape(s: Seq<MessageView>)
    ensures
        leading_tools(s) <= s.len(),
        forall|i: int| 0 <= i < leading_tools(s) ==> (#[trigger] s[i]).role == MessageRole::Tool,
        leading_tools(s) < s.len() ==> s[leading_tools(s) as int].role != MessageRole::Tool,
    decreases s.len(),
{
    if s.len() > 0 && s[0].role == MessageRole::Tool {
        let r = s.drop_first();
        lemma_leading_tools_shape(r);
        assert forall|i: int| 0 <= i < leading_tools(s) implies (#[trigger] s[i]).role
            == MessageRole::Tool by {
            if i > 0 {
                assert(s[i] == r[i - 1]);
            }
        }
        if leading_tools(s) < s.len() {
            assert(s[leading_tools(s) as int] == r[leading_tools(r) as int]);
        }
    }
}

/// The run at the front is the longest run of tool messages there.
proof fn lemma_leading_tools_unique(s: Seq<MessageView>, k: int)
    requires
        0 <= k <= s.len(),
        forall|i: int| 0 <= i < k ==> (#[trigger] s[i]).role == MessageRole::Tool,
        k == s.len() || s[k].role != MessageRole::Tool,
    ensures
        leading_tools(s) == k,
{
    lemma_leading_tools_shape(s);
    if leading_tools(s) < k {
        assert(s[leading_tools(s) as int].role == MessageRole::Tool);
    }
    if leading_tools(s) > k {
        assert(s[k].role == MessageRole::Tool);
    }
}

/// In a history in order (with every call known), the run at the front
/// answers distinct calls of `cur`, none answered before.
proof fn lemma_front_run(
    s: Seq<MessageView>,
    cur: Set<Seq<char>>,
    called: Set<Seq<char>>,
    results: Set<Seq<char>>,
)
    requires
        in_order(s, cur, called, results, Set::full()),
    ensures
        forall|i: int| 0 <= i < leading_tools(s) ==> (#[trigger] s[i]).tool_call_id is Some,
        forall|i: int| 0 <= i < leading_tools(s) ==> cur.contains(answer_id(#[trigger] s[i])),
        forall|i: int| 0 <= i < leading_tools(s) ==> !results.contains(answer_id(#[trigger] s[i])),
        forall|i: int, j: int|
            0 <= i < j < leading_tools(s) ==> answer_id(s[i]) != answer_id(s[j]),
    decreases s.len(),
{
    lemma_leading_tools_shape(s);
    if s.len() > 0 && s[0].role == MessageRole::Tool {
        let r = s.drop_first();
        let c = answer_id(s[0]);
        assert(Set::<Seq<char>>::full().contains(c));
        lemma_front_run(r, cur, called, results.insert(c));
        assert forall|i: int| 0 <= i < leading_tools(s) implies (#[trigger] s[i]).tool_call_id is Some
            && cur.contains(answer_id(s[i])) && !results.contains(answer_id(s[i])) by {
            if i > 0 {
                assert(s[i] == r[i - 1]);
            }
        }
        assert forall|i: int, j: int| 0 <= i < j < leading_tools(s) implies answer_id(s[i])
            != answer_id(s[j]) by {
            assert(s[j] == r[j - 1]);
            if i > 0 {
                assert(s[i] == r[i - 1]);
            } else {
                assert(!results.insert(c).contains(answer_id(r[j - 1])));
            }
        }
    }
}

/// After the run at the front, no tool message of a history in order
/// answers a call made before.
proof fn lemma_no_late_answer(
    s: Seq<MessageView>,
    cur: Set<Seq<char>>,
    called: Set<Seq<char>>,
    results: Set<Seq<char>>,
    c: Seq<char>,
)
    requires
        in_order(s, cur, called, results, Set::full()),
        called.contains(c),
    ensures
        forall|i: int|
            leading_tools(s) <= i < s.len() && (#[trigger] s[i]).role == MessageRole::Tool
                ==> answer_id(s[i]) != c,
    decreases s.len(),
{
    lemma_leading_tools_shape(s);
    if s.len() > 0 {
        let m = s[0];
        let r = s.drop_first();
        if m.role == MessageRole::Tool {
            let id = answer_id(m);
            assert(Set::<Seq<char>>::full().contains(id));
            lemma_no_late_answer(r, cur, called, results.insert(id), c);
            assert forall|i: int|
                leading_tools(s) <= i < s.len() && (#[trigger] s[i]).role == MessageRole::Tool
                    implies answer_id(s[i]) != c by {
                assert(s[i] == r[i - 1]);
            }
        } else {
            let (cur2, called2) = if is_calling(m) {
                (call_ids(m.tool_calls->0), called.union(call_ids(m.tool_calls->0)))
            } else {
                (Set::<Seq<char>>::empty(), called)
            };
            assert(in_order(r, cur2, called2, results, Set::full()));
            lemma_no_late_answer(r, cur2, called2, results, c);
            lemma_front_run(r, cur2, called2, results);
            lemma_leading_tools_shape(r);
            assert forall|i: int|
                leading_tools(s) <= i < s.len() && (#[trigger] s[i]).role == MessageRole::Tool
                    implies answer_id(s[i]) != c by {
                assert(s[i] == r[i - 1]);
                if i - 1 < leading_tools(r) {
                    assert(cur2.contains(answer_id(r[i - 1])));
                }
            }
        }
    }
}

proof fn lemma_answered_front(s: Seq<MessageView>)
    requires
        s.len() > 0,
    ensures
        answered_ids(s) == if s[0].role == MessageRole::Tool && s[0].tool_call_id is Some {
            answered_ids(s.drop_first()).insert(s[0].tool_call_id->0)
        } else {
            answered_ids(s.drop_first())
        },
{
    let r = s.drop_first();
    assert forall|id: Seq<char>| answered_ids(s).contains(id) <==> (if s[0].role == MessageRole::Tool
        && s[0].tool_call_id is Some {
        answered_ids(r).insert(s[0].tool_call_id->0)
    } else {
        answered_ids(r)
    }).contains(id) by {
        if answered_ids(s).contains(id) {
            let i = choose|i: int|
                0 <= i < s.len() && (#[trigger] s[i]).role == MessageRole::Tool && s[i].tool_call_id
                    == Some(id);
            if i > 0 {
                assert(s[i] == r[i - 1]);
            }
        }
        if answered_ids(r).contains(id) {
            let i = choose|i: int|
                0 <= i < r.len() && (#[trigger] r[i]).role == MessageRole::Tool && r[i].tool_call_id
                    == Some(id);
            assert(r[i] == s[i + 1]);
        }
        if s[0].role == MessageRole::Tool && s[0].tool_call_id == Some(id) {
            assert(s[0].role == MessageRole::Tool);
        }
    }
    assert(answered_ids(s) =~= (if s[0].role == MessageRole::Tool && s[0].tool_call_id is Some {
        answered_ids(r).insert(s[0].tool_call_id->0)
    } else {
        answered_ids(r)
    }));
}

// ─── Calls answered in place ───────────────────────────────────────────────

/// Whether every call of an assistant message that is in `answered` is
/// answered by the run of tool messages right after it.
pub open spec fn answered_in_place(t: Seq<MessageView>, answered: Set<Seq<char>>) -> bool
    decreases t.len(),
{
    if t.len() == 0 {
        true
    } else {
        &&& is_calling(t[0]) ==> forall|c: Seq<char>|
            call_ids(t[0].tool_calls->0).contains(c) && answered.contains(c) ==> front_answers(
                t.drop_first(),
            ).contains(c)
        &&& answered_in_place(t.drop_first(), answered)
    }
}

/// In a history in order, the calls answered anywhere (or in `z`, made of
/// earlier calls) are answered in place.
proof fn lemma_in_place(
    s: Seq<MessageView>,
    cur: Set<Seq<char>>,
    called: Set<Seq<char>>,
    results: Set<Seq<char>>,
    z: Set<Seq<char>>,
)
    requires
        in_order(s, cur, called, results, Set::full()),
        z.subset_of(called),
        cur.subset_of(called),
    ensures
        answered_in_place(s, z.union(answered_ids(s))),
    decreases s.len(),
{
    if s.len() > 0 {
        let m = s[0];
        let r = s.drop_first();
        lemma_answered_front(s);
        if m.role == MessageRole::Tool {
            let c = answer_id(m);
            assert(Set::<Seq<char>>::full().contains(c));
            lemma_in_place(r, cur, called, results.insert(c), z.insert(c));
            assert(z.union(answered_ids(s)) =~= z.insert(c).union(answered_ids(r)));
        } else if is_calling(m) {
            let ids = call_ids(m.tool_calls->0);
            lemma_in_place(r, ids, called.union(ids), results, z);
            assert(z.union(answered_ids(s)) =~= z.union(answered_ids(r)));
            assert forall|c: Seq<char>|
                ids.contains(c) && z.union(answered_ids(s)).contains(c) implies front_answers(
                r,
            ).contains(c) by {
                if !z.contains(c) {
                    let i = choose|i: int|
                        0 <= i < r.len() && (#[trigger] r[i]).role == MessageRole::Tool
                            && r[i].tool_call_id == Some(c);
                    lemma_no_late_answer(r, ids, called.union(ids), results, c);
                    assert(answer_id(r[i]) == c);
                    assert(i < leading_tools(r));
                }
            }
        } else {
            lemma_in_place(r, Set::empty(), called, results, z);
            assert(z.union(answered_ids(s)) =~= z.union(answered_ids(r)));
        }
    }
}

/// More answered ids, none of them called in the history, keep the calls
/// answered in place.
proof fn lemma_in_place_more(
    s: Seq<MessageView>,
    a: Set<Seq<char>>,
    u: Set<Seq<char>>,
    cur: Set<Seq<char>>,
    called: Set<Seq<char>>,
    results: Set<Seq<char>>,
)
    requires
        in_order(s, cur, called, results, Set::full()),
        answered_in_place(s, a),
        u.subset_of(called),
    ensures
        answered_in_place(s, a.union(u)),
    decreases s.len(),
{
    if s.len() > 0 {
        let m = s[0];
        let r = s.drop_first();
        if m.role == MessageRole::Tool {
            let c = answer_id(m);
            assert(Set::<Seq<char>>::full().contains(c));
            lemma_in_place_more(r, a, u, cur, called, results.insert(c));
        } else if is_calling(m) {
            let ids = call_ids(m.tool_calls->0);
            lemma_in_place_more(r, a, u, ids, called.union(ids), results);
        } else {
            lemma_in_place_more(r, a, u, Set::empty(), called, results);
        }
    }
}

// ─── Prefixes and suffixes ─────────────────────────────────────────────────

proof fn lemma_in_order_prefix(
    s: Seq<MessageView>,
    k: int,
    cur: Set<Seq<char>>,
    called: Set<Seq<char>>,
    results: Set<Seq<char>>,
    known: Set<Seq<char>>,
)
    requires
        in_order(s, cur, called, results, known),
        0 <= k <= s.len(),
    ensures
        in_order(s.subrange(0, k), cur, called, results, known),
    decreases s.len(),
{
    if k > 0 {
        let p = s.subrange(0, k);
        assert(p[0] == s[0]);
        assert(p.drop_first() =~= s.drop_first().subrange(0, k - 1));
        let m = s[0];
        if m.role == MessageRole::Tool {
            let id = m.tool_call_id->0;
            if known.contains(id) {
                lemma_in_order_prefix(s.drop_first(), k - 1, cur, called, results.insert(id), known);
            } else {
                lemma_in_order_prefix(s.drop_first(), k - 1, cur, called, results, known);
            }
        } else if is_calling(m) {
            let ids = call_ids(m.tool_calls->0);
            lemma_in_order_prefix(s.drop_first(), k - 1, ids, called.union(ids), results, known);
        } else {
            lemma_in_order_prefix(s.drop_first(), k - 1, Set::empty(), called, results, known);
        }
    } else {
        assert(s.subrange(0, k).len() == 0);
    }
}

/// A prefix that ends before a message other than a tool message keeps
/// the calls answered in place.
proof fn lemma_in_place_prefix(s: Seq<MessageView>, k: int, a: Set<Seq<char>>)
    requires
        answered_in_place(s, a),
        0 <= k <= s.len(),
        k == s.len() || s[k].role != MessageRole::Tool,
    ensures
        answered_in_place(s.subrange(0, k), a),
    decreases s.len(),
{
    if k > 0 {
        let p = s.subrange(0, k);
        let r = s.drop_first();
        let pr = p.drop_first();
        assert(p[0] == s[0]);
        assert(pr =~= r.subrange(0, k - 1));
        lemma_in_place_prefix(r, k - 1, a);
        if is_calling(s[0]) {
            lemma_leading_tools_shape(r);
            if leading_tools(r) > k - 1 {
                assert(r[k - 1] == s[k]);
            }
            assert forall|i: int| 0 <= i < leading_tools(r) implies (#[trigger] pr[i]).role
                == MessageRole::Tool by {
                assert(pr[i] == r[i]);
            }
            if leading_tools(r) < k - 1 {
                assert(pr[leading_tools(r) as int] == r[leading_tools(r) as int]);
            }
            lemma_leading_tools_unique(pr, leading_tools(r) as int);
            assert forall|c: Seq<char>| front_answers(r).contains(c) implies front_answers(pr).contains(c) by {
                let i = choose|i: int| 0 <= i < leading_tools(r) && answer_id(r[i]) == c;
                assert(pr[i] == r[i]);
            }
        }
    } else {
        assert(s.subrange(0, k).len() == 0);
    }
}

proof fn lemma_in_place_suffix(s: Seq<MessageView>, k: int, a: Set<Seq<char>>)
    requires
        answered_in_place(s, a),
        0 <= k <= s.len(),
    ensures
        answered_in_place(s.subrange(k, s.len() as int), a),
    decreases k,
{
    if k > 0 {
        lemma_in_place_suffix(s.drop_first(), k - 1, a);
        assert(s.drop_first().subrange(k - 1, s.drop_first().len() as int) =~= s.subrange(
            k,
            s.len() as int,
        ));
    } else {
        assert(s.subrange(0, s.len() as int) =~= s);
    }
}

/// After the run at the front, the history is in order with the run's
/// answers counted.
proof fn lemma_in_order_after_run(
    s: Seq<MessageView>,
    cur: Set<Seq<char>>,
    called: Set<Seq<char>>,
    results: Set<Seq<char>>,
)
    requires
        in_order(s, cur, called, results, Set::full()),
    ensures
        in_order(
            s.subrange(leading_tools(s) as int, s.len() as int),
            cur,
            called,
            results.union(front_answers(s)),
            Set::full(),
        ),
    decreases s.len(),
{
    lemma_leading_tools_shape(s);
    if s.len() > 0 && s[0].role == MessageRole::Tool {
        let r = s.drop_first();
        let c = answer_id(s[0]);
        assert(Set::<Seq<char>>::full().contains(c));
        lemma_in_order_after_run(r, cur, called, results.insert(c));
        assert(r.subrange(leading_tools(r) as int, r.len() as int) =~= s.subrange(
            leading_tools(s) as int,
            s.len() as int,
        ));
        assert forall|id: Seq<char>| results.insert(c).union(front_answers(r)).contains(id)
            <==> results.union(front_answers(s)).contains(id) by {
            if front_answers(r).contains(id) {
                let i = choose|i: int| 0 <= i < leading_tools(r) && answer_id(r[i]) == id;
                assert(r[i] == s[i + 1]);
            }
            if front_answers(s).contains(id) {
                let i = choose|i: int| 0 <= i < leading_tools(s) && answer_id(s[i]) == id;
                if i > 0 {
                    assert(s[i] == r[i - 1]);
                }
            }
        }
        assert(results.insert(c).union(front_answers(r)) =~= results.union(front_answers(s)));
    } else {
        assert(s.subrange(0, s.len() as int) =~= s);
        assert(front_answers(s) =~= Set::<Seq<char>>::empty());
        assert(results.union(front_answers(s)) =~= results);
    }
}

/// What is left after trimming is a prefix, followed only by assistant
/// messages.
proof fn lemma_trimmed_prefix(s: Seq<MessageView>, a: Set<Seq<char>>)
    ensures
        trimmed(s, a).len() <= s.len(),
        trimmed(s, a) == s.subrange(0, trimmed(s, a).len() as int),
        forall|i: int|
            trimmed(s, a).len() <= i < s.len() ==> (#[trigger] s[i]).role == MessageRole::Assistant,
    decreases s.len(),
{
    if s.len() > 0 && is_calling(s.last()) && !crate::context::all_answered(
        s.last().tool_calls->0,
        a,
    ) {
        lemma_trimmed_prefix(s.drop_last(), a);
        let k = trimmed(s, a).len();
        assert(s.drop_last().subrange(0, k as int) =~= s.subrange(0, k as int));
        assert forall|i: int| k <= i < s.len() implies (#[trigger] s[i]).role
            == MessageRole::Assistant by {
            if i < s.len() - 1 {
                assert(s[i] == s.drop_last()[i]);
            }
        }
    } else {
        assert(s.subrange(0, s.len() as int) =~= s);
    }
}

// ─── Stubs ─────────────────────────────────────────────────────────────────

proof fn lemma_unanswered(tcs: Seq<ToolCallView>, a: Set<Seq<char>>)
    requires
        distinct_calls(tcs),
    ensures
        forall|id: Seq<char>|
            #![trigger unanswered_ids(tcs, a).contains(id)]
            #![trigger call_ids(tcs).contains(id)]
            unanswered_ids(tcs, a).contains(id) <==> (call_ids(tcs).contains(id) && !a.contains(id)),
        forall|i: int, j: int|
            0 <= i < j < unanswered_ids(tcs, a).len() ==> unanswered_ids(tcs, a)[i]
                != unanswered_ids(tcs, a)[j],
    decreases tcs.len(),
{
    if tcs.len() > 0 {
        let d = tcs.drop_last();
        assert(distinct_calls(d)) by {
            assert forall|i: int, j: int| 0 <= i < j < d.len() implies d[i].id != d[j].id by {
                assert(d[i] == tcs[i] && d[j] == tcs[j]);
            }
        }
        lemma_unanswered(d, a);
        let u0 = unanswered_ids(d, a);
        let last = tcs.last().id;
        assert forall|id: Seq<char>| call_ids(tcs).contains(id) <==> (call_ids(d).contains(id) || id
            == last) by {
            if call_ids(tcs).contains(id) {
                let j = choose|j: int| 0 <= j < tcs.len() && #[trigger] tcs[j].id == id;
                if j < tcs.len() - 1 {
                    assert(d[j] == tcs[j]);
                }
            }
            if call_ids(d).contains(id) {
                let j = choose|j: int| 0 <= j < d.len() && #[trigger] d[j].id == id;
                assert(tcs[j] == d[j]);
            }
            if id == last {
                assert(tcs[tcs.len() - 1].id == id);
            }
        }
        assert(!call_ids(d).contains(last)) by {
            if call_ids(d).contains(last) {
                let j = choose|j: int| 0 <= j < d.len() && #[trigger] d[j].id == last;
                assert(d[j] == tcs[j]);
            }
        }
        if a.contains(last) {
            assert(unanswered_ids(tcs, a) == u0);
            assert forall|id: Seq<char>| #[trigger] u0.contains(id) <==> (call_ids(tcs).contains(id)
                && !a.contains(id)) by {
                assert(u0.contains(id) <==> (call_ids(d).contains(id) && !a.contains(id)));
            }
        }
        if !a.contains(last) {
            let u = u0.push(last);
            assert(unanswered_ids(tcs, a) == u);
            assert forall|i: int, j: int| 0 <= i < j < u.len() implies u[i] != u[j] by {
                if j == u.len() - 1 {
                    assert(u0.contains(u[i]));
                }
            }
            assert forall|id: Seq<char>| u.contains(id) <==> (u0.contains(id) || id == last) by {
                if u.contains(id) {
                    let i = choose|i: int| 0 <= i < u.len() && u[i] == id;
                    if i < u0.len() {
                        assert(u0[i] == u[i]);
                    }
                }
                if u0.contains(id) {
                    let i = choose|i: int| 0 <= i < u0.len() && u0[i] == id;
                    assert(u[i] == u0[i]);
                }
                if id == last {
                    assert(u[u.len() - 1] == last);
                }
            }
            assert forall|id: Seq<char>| #[trigger] u.contains(id) <==> (call_ids(tcs).contains(id)
                && !a.contains(id)) by {
                assert(u0.contains(id) <==> (call_ids(d).contains(id) && !a.contains(id)));
            }
        }
    } else {
        assert forall|id: Seq<char>| !call_ids(tcs).contains(id) by {
        }
    }
}

/// The stub messages for the ids `u`.
pub open spec fn stubs(u: Seq<Seq<char>>) -> Seq<MessageView> {
    u.map_values(|id: Seq<char>| stub_for(id))
}

// ─── The repaired history is accepted ──────────────────────────────────────

proof fn lemma_stubs_accepted(
    t: Seq<MessageView>,
    pending: Set<Seq<char>>,
    a: Set<Seq<char>>,
    cur: Set<Seq<char>>,
    called: Set<Seq<char>>,
    results: Set<Seq<char>>,
)
    requires
        in_order(t, cur, called, results, Set::full()),
        answered_in_place(t, a),
        answered_ids(t).subset_of(a),
        pending == front_answers(t),
    ensures
        accepted_with(insert_stubs(t, a), pending),
    decreases t.len(),
{
    if t.len() > 0 {
        let m = t[0];
        let rest = t.drop_first();
        lemma_answered_front(t);
        lemma_front_run(t, cur, called, results);
        lemma_leading_tools_shape(t);
        if m.role == MessageRole::Tool {
            let c = answer_id(m);
            assert(Set::<Seq<char>>::full().contains(c));
            lemma_cons(m, insert_stubs(rest, a));
            assert(insert_stubs(t, a) == seq![m] + insert_stubs(rest, a));
            assert(pending.contains(c)) by {
                assert(0 < leading_tools(t));
                assert(answer_id(t[0]) == c);
            }
            let p2 = pending.remove(c);
            assert(p2 =~= front_answers(rest)) by {
                assert forall|id: Seq<char>| p2.contains(id) <==> front_answers(rest).contains(id) by {
                    if front_answers(rest).contains(id) {
                        let i = choose|i: int| 0 <= i < leading_tools(rest) && answer_id(rest[i]) == id;
                        assert(rest[i] == t[i + 1]);
                        assert(answer_id(t[0]) != answer_id(t[i + 1]));
                    }
                    if p2.contains(id) {
                        let i = choose|i: int| 0 <= i < leading_tools(t) && answer_id(t[i]) == id;
                        assert(i != 0);
                        assert(t[i] == rest[i - 1]);
                    }
                }
            }
            lemma_stubs_accepted(rest, p2, a, cur, called, results.insert(c));
        } else {
            assert(front_answers(t) =~= Set::<Seq<char>>::empty());
            if is_calling(m) {
                let tcs = m.tool_calls->0;
                let ids = call_ids(tcs);
                let called2 = called.union(ids);
                let u = unanswered_ids(tcs, a);
                lemma_unanswered(tcs, a);
                lemma_front_run(rest, ids, called2, results);
                lemma_leading_tools_shape(rest);
                let n = leading_tools(rest);
                if u.len() == 0 {
                    lemma_cons(m, insert_stubs(rest, a));
                    assert(ids =~= front_answers(rest)) by {
                        assert forall|c: Seq<char>| ids.contains(c) implies front_answers(rest).contains(c) by {
                            if !a.contains(c) {
                                assert(u.contains(c));
                            }
                        }
                    }
                    lemma_stubs_accepted(rest, ids, a, ids, called2, results);
                } else {
                    let run = rest.take(n as int);
                    let after = rest.skip(n as int);
                    let a2 = with_ids(a, u);
                    let tail = insert_stubs(after, a2);
                    let st = stubs(u);
                    assert(insert_stubs(t, a) == seq![m] + run + st + tail);
                    assert(seq![m] + run + st + tail =~= seq![m] + (run + (st + tail)));
                    lemma_cons(m, run + (st + tail));
                    let f = front_answers(rest);
                    assert forall|i: int| 0 <= i < run.len() implies (#[trigger] run[i]).role
                        == MessageRole::Tool && ids.contains(answer_id(run[i])) by {
                        assert(run[i] == rest[i]);
                    }
                    assert forall|i: int, j: int| 0 <= i < j < run.len() implies answer_id(run[i])
                        != answer_id(run[j]) by {
                        assert(run[i] == rest[i] && run[j] == rest[j]);
                    }
                    lemma_tools_accepted(run, st + tail, ids);
                    let gone = Set::new(
                        |id: Seq<char>| exists|i: int| 0 <= i < run.len() && answer_id(run[i]) == id,
                    );
                    assert(gone =~= f) by {
                        assert forall|id: Seq<char>| gone.contains(id) <==> f.contains(id) by {
                            if gone.contains(id) {
                                let i = choose|i: int| 0 <= i < run.len() && answer_id(run[i]) == id;
                                assert(run[i] == rest[i]);
                            }
                            if f.contains(id) {
                                let i = choose|i: int| 0 <= i < n && answer_id(rest[i]) == id;
                                assert(run[i] == rest[i]);
                            }
                        }
                    }
                    // The run's answers are answered ids; the stubs answer the others.
                    assert forall|id: Seq<char>| f.contains(id) implies a.contains(id) by {
                        let i = choose|i: int| 0 <= i < n && answer_id(rest[i]) == id;
                        assert(rest[i] == t[i + 1]);
                        assert(answered_ids(t).contains(id));
                    }
                    let p1 = ids.difference(f);
                    assert forall|i: int| 0 <= i < st.len() implies (#[trigger] st[i]).role
                        == MessageRole::Tool && p1.contains(answer_id(st[i])) by {
                        assert(st[i] == stub_for(u[i]));
                        assert(u.contains(u[i]));
                        assert(ids.contains(u[i]) && !a.contains(u[i]));
                        assert(!f.contains(u[i]));
                        assert(answer_id(st[i]) == u[i]);
                    }
                    assert forall|i: int, j: int| 0 <= i < j < st.len() implies answer_id(st[i])
                        != answer_id(st[j]) by {
                        assert(st[i] == stub_for(u[i]) && st[j] == stub_for(u[j]));
                    }
                    lemma_tools_accepted(st, tail, p1);
                    let gone2 = Set::new(
                        |id: Seq<char>| exists|i: int| 0 <= i < st.len() && answer_id(st[i]) == id,
                    );
                    assert(p1.difference(gone2) =~= Set::<Seq<char>>::empty()) by {
                        assert forall|c: Seq<char>| !p1.difference(gone2).contains(c) by {
                            if p1.contains(c) && !a.contains(c) {
                                assert(u.contains(c));
                                let i = choose|i: int| 0 <= i < u.len() && u[i] == c;
                                assert(st[i] == stub_for(u[i]));
                                assert(answer_id(st[i]) == c);
                            }
                        }
                    }
                    // The rest, from the message after the run.
                    lemma_in_order_after_run(rest, ids, called2, results);
                    assert(after == rest.subrange(n as int, rest.len() as int));
                    lemma_in_place_suffix(t, 1 + n as int, a);
                    assert(t.subrange(1 + n as int, t.len() as int) =~= after);
                    let uset = Set::new(|id: Seq<char>| u.contains(id));
                    assert forall|id: Seq<char>| uset.contains(id) implies called2.contains(id) by {
                        assert(u.contains(id));
                        assert(ids.contains(id));
                    }
                    lemma_in_place_more(after, a, uset, ids, called2, results.union(f));
                    assert(a.union(uset) =~= a2);
                    assert forall|id: Seq<char>| answered_ids(after).contains(id) implies a2.contains(id) by {
                        let i = choose|i: int|
                            0 <= i < after.len() && (#[trigger] after[i]).role == MessageRole::Tool
                                && after[i].tool_call_id == Some(id);
                        assert(after[i] == t[i + 1 + n as int]);
                        assert(answered_ids(t).contains(id));
                    }
                    lemma_leading_tools_shape(after);
                    if after.len() > 0 {
                        assert(after[0] == rest[n as int]);
                    }
                    lemma_leading_tools_unique(after, 0);
                    assert(front_answers(after) =~= Set::<Seq<char>>::empty());
                    lemma_stubs_accepted(after, Set::empty(), a2, ids, called2, results.union(f));
                }
            } else {
                lemma_cons(m, insert_stubs(rest, a));
                lemma_front_run(rest, Set::empty(), called, results);
                lemma_leading_tools_shape(rest);
                if leading_tools(rest) > 0 {
                    assert(!Set::<Seq<char>>::empty().contains(answer_id(rest[0])));
                }
                assert(front_answers(rest) =~= Set::<Seq<char>>::empty());
                lemma_stubs_accepted(rest, Set::empty(), a, Set::empty(), called, results);
            }
        }
    }
}

/// A history stored in order — each result follows its call, with only tool
/// messages between, and answers it alone; each call id is used once — is
/// accepted by a chat-completion API once repaired, whatever results or
/// trailing calls went missing when it was loaded.
pub proof fn lemma_repair_accepted(ms: Seq<MessageView>)
    requires
        stored_in_order(ms),
    ensures
        accepted(orphan_repair(ms)),
{
    let known = known_ids(ms);
    let r = retained(ms, known);
    lemma_retained_in_order(ms, Set::empty(), Set::empty(), Set::empty(), known);
    let a = answered_ids(r);
    lemma_in_place(r, Set::empty(), Set::empty(), Set::empty(), Set::empty());
    assert(Set::<Seq<char>>::empty().union(a) =~= a);
    let t = trimmed(r, a);
    lemma_trimmed_prefix(r, a);
    let k = t.len() as int;
    lemma_in_order_prefix(r, k, Set::empty(), Set::empty(), Set::empty(), Set::full());
    lemma_in_place_prefix(r, k, a);
    assert forall|id: Seq<char>| answered_ids(t).contains(id) implies a.contains(id) by {
        let i = choose|i: int|
            0 <= i < t.len() && (#[trigger] t[i]).role == MessageRole::Tool && t[i].tool_call_id
                == Some(id);
        assert(t[i] == r[i]);
    }
    lemma_front_run(t, Set::empty(), Set::empty(), Set::empty());
    lemma_leading_tools_shape(t);
    if leading_tools(t) > 0 {
        assert(!Set::<Seq<char>>::empty().contains(answer_id(t[0])));
    }
    assert(front_answers(t) =~= Set::<Seq<char>>::empty());
    lemma_stubs_accepted(t, Set::empty(), a, Set::empty(), Set::empty(), Set::empty());
}

// ─── Repairing twice ───────────────────────────────────────────────────────

/// The ids a message calls (none unless it carries tool calls).
pub open spec fn issued(m: MessageView) -> Set<Seq<char>> {
    if is_calling(m) {
        call_ids(m.tool_calls->0)
    } else {
        Set::empty()
    }
}

/// Whether each tool message that names an id answers a call in `k` or a
/// call made by an earlier message of `ms`.
pub open spec fn answers_follow_calls(ms: Seq<MessageView>, k: Set<Seq<char>>) -> bool {
    forall|i: int|
        0 <= i < ms.len() && (#[trigger] ms[i]).role == MessageRole::Tool && ms[i].tool_call_id is Some
            ==> k.contains(ms[i].tool_call_id->0) || exists|j: int|
            0 <= j < i && is_calling(#[trigger] ms[j]) && has_call_id(
                ms[j].tool_calls->0,
                ms[i].tool_call_id->0,
            )
}

/// Whether `m` is one of the messages of `out`.
pub open spec fn occurs(out: Seq<MessageView>, m: MessageView) -> bool {
    exists|k: int| 0 <= k < out.len() && out[k] == m
}

proof fn lemma_unanswered_cover(tcs: Seq<ToolCallView>, a: Set<Seq<char>>)
    ensures
        forall|q: int|
            0 <= q < unanswered_ids(tcs, a).len() ==> has_call_id(
                tcs,
                #[trigger] unanswered_ids(tcs, a)[q],
            ),
        forall|j: int|
            0 <= j < tcs.len() ==> a.contains(#[trigger] tcs[j].id) || unanswered_ids(
                tcs,
                a,
            ).contains(tcs[j].id),
        all_answered(tcs, a) ==> unanswered_ids(tcs, a).len() == 0,
    decreases tcs.len(),
{
    if tcs.len() > 0 {
        let p = tcs.drop_last();
        lemma_unanswered_cover(p, a);
        let u = unanswered_ids(tcs, a);
        let up = unanswered_ids(p, a);
        assert forall|q: int| 0 <= q < u.len() implies has_call_id(tcs, #[trigger] u[q]) by {
            if q < up.len() {
                assert(u[q] == up[q]);
                assert(has_call_id(p, up[q]));
                let j = choose|j: int| 0 <= j < p.len() && #[trigger] p[j].id == up[q];
                assert(tcs[j] == p[j]);
            } else {
                assert(u[q] == tcs.last().id);
                assert(tcs[tcs.len() - 1].id == u[q]);
            }
        }
        assert forall|j: int| 0 <= j < tcs.len() implies a.contains(#[trigger] tcs[j].id)
            || u.contains(tcs[j].id) by {
            if j < p.len() {
                assert(tcs[j] == p[j]);
                if !a.contains(p[j].id) {
                    assert(up.contains(p[j].id));
                    let q = choose|q: int| 0 <= q < up.len() && up[q] == p[j].id;
                    assert(u[q] == up[q]);
                }
            } else if !a.contains(tcs.last().id) {
                assert(u[u.len() - 1] == tcs.last().id);
            }
        }
        if all_answered(tcs, a) {
            assert forall|j: int| 0 <= j < p.len() implies a.contains(#[trigger] p[j].id) by {
                assert(tcs[j] == p[j]);
            }
            assert(a.contains(tcs[tcs.len() - 1].id));
        }
    }
}

/// Every message of the history is still in it after stubs are inserted.
proof fn lemma_stubs_keep(ms: Seq<MessageView>, a: Set<Seq<char>>)
    ensures
        forall|i: int| 0 <= i < ms.len() ==> occurs(insert_stubs(ms, a), #[trigger] ms[i]),
    decreases ms.len(),
{
    if ms.len() > 0 {
        let m = ms[0];
        let rest = ms.drop_first();
        let out = insert_stubs(ms, a);
        if is_calling(m) && unanswered_ids(m.tool_calls->0, a).len() > 0 {
            let n = leading_tools(rest);
            let u = unanswered_ids(m.tool_calls->0, a);
            lemma_leading_tools_bound(rest);
            let tail_in = rest.skip(n as int);
            let a2 = with_ids(a, u);
            lemma_stubs_keep(tail_in, a2);
            let tail = insert_stubs(tail_in, a2);
            let head = seq![m] + rest.take(n as int) + u.map_values(|id: Seq<char>| stub_for(id));
            assert(out == head + tail);
            assert forall|i: int| 0 <= i < ms.len() implies occurs(out, #[trigger] ms[i]) by {
                if i == 0 {
                    assert(out[0] == m);
                } else if i <= n {
                    assert(out[i] == rest[i - 1]);
                } else {
                    assert(ms[i] == tail_in[i - 1 - n]);
                    let k = choose|k: int| 0 <= k < tail.len() && tail[k] == tail_in[i - 1 - n];
                    assert(out[head.len() + k] == tail[k]);
                }
            }
        } else {
            lemma_stubs_keep(rest, a);
            let tail = insert_stubs(rest, a);
            assert(out == seq![m] + tail);
            assert forall|i: int| 0 <= i < ms.len() implies occurs(out, #[trigger] ms[i]) by {
                if i == 0 {
                    assert(out[0] == m);
                } else {
                    assert(ms[i] == rest[i - 1]);
                    let k = choose|k: int| 0 <= k < tail.len() && tail[k] == rest[i - 1];
                    assert(out[1 + k] == tail[k]);
                }
            }
        }
    }
}

/// After stubs are inserted, each call is answered by `a` or by a tool
/// message of the result.
proof fn lemma_stubs_answer(ms: Seq<MessageView>, a: Set<Seq<char>>)
    ensures
        forall|k: int|
            0 <= k < insert_stubs(ms, a).len() && is_calling(#[trigger] insert_stubs(ms, a)[k])
                ==> all_answered(
                insert_stubs(ms, a)[k].tool_calls->0,
                a.union(answered_ids(insert_stubs(ms, a))),
            ),
    decreases ms.len(),
{
    if ms.len() > 0 {
        let m = ms[0];
        let rest = ms.drop_first();
        let out = insert_stubs(ms, a);
        let ax = answered_ids(out);
        if is_calling(m) && unanswered_ids(m.tool_calls->0, a).len() > 0 {
            let n = leading_tools(rest);
            let u = unanswered_ids(m.tool_calls->0, a);
            lemma_leading_tools_shape(rest);
            lemma_unanswered_cover(m.tool_calls->0, a);
            let tail_in = rest.skip(n as int);
            let a2 = with_ids(a, u);
            lemma_stubs_answer(tail_in, a2);
            let tail = insert_stubs(tail_in, a2);
            let st = u.map_values(|id: Seq<char>| stub_for(id));
            let head = seq![m] + rest.take(n as int) + st;
            assert(out == head + tail);
            // a stub answers each id of `u`
            assert forall|q: int| 0 <= q < u.len() implies ax.contains(#[trigger] u[q]) by {
                assert(out[1 + n + q] == st[q]);
                assert(st[q] == stub_for(u[q]));
            }
            // answers in the tail are answers in `out`
            assert forall|id: Seq<char>| answered_ids(tail).contains(id) implies ax.contains(id) by {
                let i = choose|i: int|
                    0 <= i < tail.len() && (#[trigger] tail[i]).role == MessageRole::Tool
                        && tail[i].tool_call_id == Some(id);
                assert(out[head.len() + i] == tail[i]);
            }
            assert forall|k: int| 0 <= k < out.len() && is_calling(#[trigger] out[k]) implies all_answered(
                out[k].tool_calls->0,
                a.union(ax),
            ) by {
                if k == 0 {
                    let tcs = m.tool_calls->0;
                    assert forall|j: int| 0 <= j < tcs.len() implies a.union(ax).contains(
                        #[trigger] tcs[j].id,
                    ) by {
                        if !a.contains(tcs[j].id) {
                            let q = choose|q: int| 0 <= q < u.len() && u[q] == tcs[j].id;
                            assert(ax.contains(u[q]));
                        }
                    }
                } else if k <= n {
                    assert(out[k] == rest[k - 1]);
                } else if k < head.len() {
                    assert(out[k] == st[k - 1 - n]);
                } else {
                    let kk = k - head.len();
                    assert(out[k] == tail[kk]);
                    let tcs = tail[kk].tool_calls->0;
                    assert(all_answered(tcs, a2.union(answered_ids(tail))));
                    assert forall|j: int| 0 <= j < tcs.len() implies a.union(ax).contains(
                        #[trigger] tcs[j].id,
                    ) by {
                        let id = tcs[j].id;
                        assert(a2.union(answered_ids(tail)).contains(id));
                        if !a.contains(id) && !answered_ids(tail).contains(id) {
                            assert(u.contains(id));
                            let q = choose|q: int| 0 <= q < u.len() && u[q] == id;
                            assert(ax.contains(u[q]));
                        }
                    }
                }
            }
        } else {
            lemma_unanswered_cover(m.tool_calls->0, a);
            lemma_stubs_answer(rest, a);
            let tail = insert_stubs(rest, a);
            assert(out == seq![m] + tail);
            assert forall|id: Seq<char>| answered_ids(tail).contains(id) implies ax.contains(id) by {
                let i = choose|i: int|
                    0 <= i < tail.len() && (#[trigger] tail[i]).role == MessageRole::Tool
                        && tail[i].tool_call_id == Some(id);
                assert(out[1 + i] == tail[i]);
            }
            assert forall|k: int| 0 <= k < out.len() && is_calling(#[trigger] out[k]) implies all_answered(
                out[k].tool_calls->0,
                a.union(ax),
            ) by {
                if k == 0 {
                    let tcs = m.tool_calls->0;
                    assert forall|j: int| 0 <= j < tcs.len() implies a.union(ax).contains(
                        #[trigger] tcs[j].id,
                    ) by {
                        assert(a.contains(tcs[j].id) || unanswered_ids(tcs, a).contains(tcs[j].id));
                    }
                } else {
                    assert(out[k] == tail[k - 1]);
                    let tcs = tail[k - 1].tool_calls->0;
                    assert(all_answered(tcs, a.union(answered_ids(tail))));
                    assert forall|j: int| 0 <= j < tcs.len() implies a.union(ax).contains(
                        #[trigger] tcs[j].id,
                    ) by {
                        assert(a.union(answered_ids(tail)).contains(tcs[j].id));
                    }
                }
            }
        }
    }
}

/// In a history stored in order, each result follows its call.
proof fn lemma_in_order_follow(
    ms: Seq<MessageView>,
    cur: Set<Seq<char>>,
    called: Set<Seq<char>>,
    results: Set<Seq<char>>,
)
    requires
        in_order(ms, cur, called, results, Set::full()),
    ensures
        answers_follow_calls(ms, cur),
    decreases ms.len(),
{
    if ms.len() > 0 {
        let m = ms[0];
        let rest = ms.drop_first();
        let next = if m.role == MessageRole::Tool {
            cur
        } else if is_calling(m) {
            call_ids(m.tool_calls->0)
        } else {
            Set::empty()
        };
        if m.role == MessageRole::Tool {
            let id = m.tool_call_id->0;
            lemma_in_order_follow(rest, cur, called, results.insert(id));
        } else if is_calling(m) {
            let c = call_ids(m.tool_calls->0);
            lemma_in_order_follow(rest, c, called.union(c), results);
        } else {
            lemma_in_order_follow(rest, Set::empty(), called, results);
        }
        assert(answers_follow_calls(rest, next));
        assert forall|i: int|
            0 <= i < ms.len() && (#[trigger] ms[i]).role == MessageRole::Tool
                && ms[i].tool_call_id is Some implies cur.contains(ms[i].tool_call_id->0) || exists|
            j: int,
        |
            0 <= j < i && is_calling(#[trigger] ms[j]) && has_call_id(
                ms[j].tool_calls->0,
                ms[i].tool_call_id->0,
            ) by {
            let id = ms[i].tool_call_id->0;
            if i > 0 {
                assert(ms[i] == rest[i - 1]);
                if next.contains(id) {
                    if m.role != MessageRole::Tool {
                        assert(is_calling(ms[0]) && has_call_id(ms[0].tool_calls->0, id));
                    }
                } else {
                    let j = choose|j: int|
                        0 <= j < i - 1 && is_calling(#[trigger] rest[j]) && has_call_id(
                            rest[j].tool_calls->0,
                            id,
                        );
                    assert(ms[j + 1] == rest[j]);
                }
            }
        }
    }
}

/// Dropping a first message and the tool messages after it: the calls of
/// the first message join the calls answered from before.
#[verifier::spinoff_prover]
#[verifier::rlimit(40)]
proof fn lemma_follow_skip(ms: Seq<MessageView>, kk: Set<Seq<char>>, from: int)
    requires
        answers_follow_calls(ms, kk),
        1 <= from <= ms.len(),
        forall|j: int| 1 <= j < from ==> (#[trigger] ms[j]).role == MessageRole::Tool,
    ensures
        answers_follow_calls(ms.skip(from), kk.union(issued(ms[0]))),
{
    let s = ms.skip(from);
    let k2 = kk.union(issued(ms[0]));
    assert forall|i: int|
        0 <= i < s.len() && (#[trigger] s[i]).role == MessageRole::Tool && s[i].tool_call_id is Some
            implies k2.contains(s[i].tool_call_id->0) || exists|j: int|
        0 <= j < i && is_calling(#[trigger] s[j]) && has_call_id(
            s[j].tool_calls->0,
            s[i].tool_call_id->0,
        ) by {
        let id = s[i].tool_call_id->0;
        assert(s[i] == ms[from + i]);
        assert(ms[from + i].role == MessageRole::Tool && ms[from + i].tool_call_id is Some);
        if !kk.contains(id) {
            let j = choose|j: int|
                0 <= j < from + i && is_calling(#[trigger] ms[j]) && has_call_id(
                    ms[j].tool_calls->0,
                    id,
                );
            if j == 0 {
                assert(call_ids(ms[0].tool_calls->0).contains(id));
            } else if j < from {
                assert(ms[j].role == MessageRole::Tool);
            } else {
                assert(ms[j] == s[j - from]);
            }
        }
    }
}

/// A front part whose results follow their calls, and a rest whose results
/// follow calls of the first message or of its own.
#[verifier::spinoff_prover]
#[verifier::rlimit(40)]
proof fn lemma_follow_concat(h: Seq<MessageView>, t: Seq<MessageView>, kk: Set<Seq<char>>)
    requires
        h.len() >= 1,
        answers_follow_calls(h, kk),
        answers_follow_calls(t, kk.union(issued(h[0]))),
    ensures
        answers_follow_calls(h + t, kk),
{
    let o = h + t;
    assert forall|i: int|
        0 <= i < o.len() && (#[trigger] o[i]).role == MessageRole::Tool && o[i].tool_call_id is Some
            implies kk.contains(o[i].tool_call_id->0) || exists|j: int|
        0 <= j < i && is_calling(#[trigger] o[j]) && has_call_id(
            o[j].tool_calls->0,
            o[i].tool_call_id->0,
        ) by {
        let id = o[i].tool_call_id->0;
        if i < h.len() {
            assert(o[i] == h[i]);
            assert(h[i].role == MessageRole::Tool && h[i].tool_call_id is Some);
            if !kk.contains(id) {
                let j = choose|j: int|
                    0 <= j < i && is_calling(#[trigger] h[j]) && has_call_id(h[j].tool_calls->0, id);
                assert(o[j] == h[j]);
            }
        } else {
            assert(o[i] == t[i - h.len()]);
            assert(t[i - h.len()].role == MessageRole::Tool && t[i - h.len()].tool_call_id is Some);
            assert(o[0] == h[0]);
            if !kk.contains(id) {
                if issued(h[0]).contains(id) {
                    assert(is_calling(h[0]));
                    assert(has_call_id(h[0].tool_calls->0, id));
                } else {
                    let j = choose|j: int|
                        0 <= j < i - h.len() && is_calling(#[trigger] t[j]) && has_call_id(
                            t[j].tool_calls->0,
                            id,
                        );
                    assert(o[h.len() + j] == t[j]);
                }
            }
        }
    }
}

/// The calling message, the tool messages after it and the stubs for its
/// unanswered calls: each result follows a call.
proof fn lemma_follow_head(ms: Seq<MessageView>, a: Set<Seq<char>>, kk: Set<Seq<char>>)
    requires
        answers_follow_calls(ms, kk),
        ms.len() > 0,
        is_calling(ms[0]),
    ensures
        ({
            let rest = ms.drop_first();
            let u = unanswered_ids(ms[0].tool_calls->0, a);
            answers_follow_calls(
                seq![ms[0]] + rest.take(leading_tools(rest) as int) + u.map_values(
                    |id: Seq<char>| stub_for(id),
                ),
                kk,
            )
        }),
{
    let m = ms[0];
    let rest = ms.drop_first();
    let n = leading_tools(rest);
    let u = unanswered_ids(m.tool_calls->0, a);
    lemma_leading_tools_shape(rest);
    lemma_unanswered_cover(m.tool_calls->0, a);
    let st = u.map_values(|id: Seq<char>| stub_for(id));
    let h = seq![m] + rest.take(n as int) + st;
    assert forall|i: int|
        0 <= i < h.len() && (#[trigger] h[i]).role == MessageRole::Tool && h[i].tool_call_id is Some
            implies kk.contains(h[i].tool_call_id->0) || exists|j: int|
        0 <= j < i && is_calling(#[trigger] h[j]) && has_call_id(
            h[j].tool_calls->0,
            h[i].tool_call_id->0,
        ) by {
        let id = h[i].tool_call_id->0;
        assert(h[0] == m);
        if i == 0 {
        } else if i <= n {
            assert(h[i] == rest[i - 1]);
            assert(ms[i] == rest[i - 1]);
            if !kk.contains(id) {
                let j = choose|j: int|
                    0 <= j < i && is_calling(#[trigger] ms[j]) && has_call_id(ms[j].tool_calls->0, id);
                if j > 0 {
                    assert(ms[j] == rest[j - 1]);
                }
            }
        } else {
            let q = i - 1 - n;
            assert(h[i] == st[q]);
            assert(st[q] == stub_for(u[q]));
            assert(has_call_id(m.tool_calls->0, u[q]));
        }
    }
}

/// Inserting stubs keeps each result after its call: each stub follows the
/// message whose call it answers.
proof fn lemma_stubs_follow(ms: Seq<MessageView>, a: Set<Seq<char>>, kk: Set<Seq<char>>)
    requires
        answers_follow_calls(ms, kk),
    ensures
        answers_follow_calls(insert_stubs(ms, a), kk),
    decreases ms.len(),
{
    if ms.len() > 0 {
        let m = ms[0];
        let rest = ms.drop_first();
        let out = insert_stubs(ms, a);
        let k2 = kk.union(issued(m));
        if is_calling(m) && unanswered_ids(m.tool_calls->0, a).len() > 0 {
            let n = leading_tools(rest);
            let u = unanswered_ids(m.tool_calls->0, a);
            lemma_leading_tools_shape(rest);
            let tail_in = rest.skip(n as int);
            assert(tail_in =~= ms.skip(1 + n as int));
            assert forall|j: int| 1 <= j < 1 + n implies (#[trigger] ms[j]).role
                == MessageRole::Tool by {
                assert(ms[j] == rest[j - 1]);
            }
            lemma_follow_skip(ms, kk, 1 + n as int);
            let a2 = with_ids(a, u);
            lemma_stubs_follow(tail_in, a2, k2);
            lemma_follow_head(ms, a, kk);
            let head = seq![m] + rest.take(n as int) + u.map_values(|id: Seq<char>| stub_for(id));
            assert(head[0] == m);
            lemma_follow_concat(head, insert_stubs(tail_in, a2), kk);
            assert(out == head + insert_stubs(tail_in, a2));
        } else {
            assert(rest =~= ms.skip(1));
            lemma_follow_skip(ms, kk, 1);
            lemma_stubs_follow(rest, a, k2);
            let head = seq![m];
            assert(answers_follow_calls(head, kk));
            lemma_follow_concat(head, insert_stubs(rest, a), kk);
            assert(out == head + insert_stubs(rest, a));
        }
    }
}

/// The orphan filter keeps a history whose messages all survive it.
proof fn lemma_retained_all(ms: Seq<MessageView>, known: Set<Seq<char>>)
    requires
        forall|i: int| 0 <= i < ms.len() ==> keeps(#[trigger] ms[i], known),
    ensures
        retained(ms, known) == ms,
    decreases ms.len(),
{
    if ms.len() > 0 {
        let p = ms.drop_last();
        assert forall|i: int| 0 <= i < p.len() implies keeps(#[trigger] p[i], known) by {
            assert(p[i] == ms[i]);
        }
        lemma_retained_all(p, known);
        assert(keeps(ms[ms.len() - 1], known));
        assert(p.push(ms.last()) =~= ms);
    }
}

/// No stub is inserted into a history whose calls are all answered.
proof fn lemma_stubs_none(ms: Seq<MessageView>, a: Set<Seq<char>>)
    requires
        forall|k: int|
            0 <= k < ms.len() && is_calling(#[trigger] ms[k]) ==> all_answered(ms[k].tool_calls->0, a),
    ensures
        insert_stubs(ms, a) == ms,
    decreases ms.len(),
{
    if ms.len() > 0 {
        let m = ms[0];
        let rest = ms.drop_first();
        if is_calling(m) {
            assert(all_answered(m.tool_calls->0, a));
            lemma_unanswered_cover(m.tool_calls->0, a);
        }
        assert forall|k: int| 0 <= k < rest.len() && is_calling(#[trigger] rest[k]) implies all_answered(
            rest[k].tool_calls->0,
            a,
        ) by {
            assert(rest[k] == ms[k + 1]);
        }
        lemma_stubs_none(rest, a);
        lemma_split(ms);
    }
}

/// Repairing a repaired history changes nothing: for a history stored in
/// order (each result follows its call, with only tool messages between, and
/// answers it alone; each call id is used once), a second repair gives back
/// the result of the first.
pub proof fn lemma_repair_idempotent(ms: Seq<MessageView>)
    requires
        stored_in_order(ms),
    ensures
        orphan_repair(orphan_repair(ms)) == orphan_repair(ms),
{
    let known = known_ids(ms);
    let r = retained(ms, known);
    lemma_retained_in_order(ms, Set::empty(), Set::empty(), Set::empty(), known);
    let a = answered_ids(r);
    let t = trimmed(r, a);
    lemma_trimmed_prefix(r, a);
    let k = t.len() as int;
    lemma_in_order_prefix(r, k, Set::empty(), Set::empty(), Set::empty(), Set::full());
    lemma_in_order_follow(t, Set::empty(), Set::empty(), Set::empty());
    let x = insert_stubs(t, a);
    assert(x == orphan_repair(ms));
    lemma_stubs_follow(t, a, Set::empty());
    lemma_stubs_answer(t, a);
    lemma_stubs_keep(t, a);
    let kx = known_ids(x);
    let ax = answered_ids(x);
    // Every answer of `r` is kept in `t`, and every message of `t` in `x`.
    assert forall|id: Seq<char>| a.contains(id) implies ax.contains(id) by {
        let i = choose|i: int|
            0 <= i < r.len() && (#[trigger] r[i]).role == MessageRole::Tool && r[i].tool_call_id
                == Some(id);
        assert(i < k);
        assert(t[i] == r[i]);
        assert(occurs(x, t[i]));
        let q = choose|q: int| 0 <= q < x.len() && x[q] == t[i];
        assert(x[q].role == MessageRole::Tool && x[q].tool_call_id == Some(id));
    }
    // Every call of `x` is answered in `x`.
    assert forall|q: int| 0 <= q < x.len() && is_calling(#[trigger] x[q]) implies all_answered(
        x[q].tool_calls->0,
        ax,
    ) by {
        let tcs = x[q].tool_calls->0;
        assert(all_answered(tcs, a.union(ax)));
        assert forall|j: int| 0 <= j < tcs.len() implies ax.contains(#[trigger] tcs[j].id) by {
            assert(a.union(ax).contains(tcs[j].id));
        }
    }
    // Every result of `x` answers a call made in `x`.
    assert forall|i: int| 0 <= i < x.len() implies keeps(#[trigger] x[i], kx) by {
        if x[i].role == MessageRole::Tool && x[i].tool_call_id is Some {
            let id = x[i].tool_call_id->0;
            assert(!Set::<Seq<char>>::empty().contains(id));
            let j = choose|j: int|
                0 <= j < i && is_calling(#[trigger] x[j]) && has_call_id(x[j].tool_calls->0, id);
            assert(kx.contains(id));
        }
    }
    lemma_retained_all(x, kx);
    assert(trimmed(x, ax) == x) by {
        if x.len() > 0 && is_calling(x.last()) {
            assert(is_calling(x[x.len() - 1]));
        }
    }
    lemma_stubs_none(x, ax);
}

} // verus!
