//! Deciding what part of a transcript reaches the model.
//!
//! A tool result is kept only when the call it answers appears strictly
//! earlier, and a tool call only when its first result appears strictly later.
//! A call and the results answering it may not be separated either: any turn
//! that is not made of tool results alone, arriving while a call still awaits
//! its result, drops both halves of every such pair. The intervening turn
//! itself is never dropped. A turn left with no content is removed.

use vstd::prelude::*;
use crate::model::{InputContent, Message, Role};

verus! {

/// A turn, by its role and parts.
pub type Turn = (Role, Seq<InputContent>);

pub open spec fn turn_of(m: Message) -> Turn {
    (m.role, m.content@)
}

pub open spec fn turns(ms: Seq<Message>) -> Seq<Turn> {
    ms.map_values(|m: Message| turn_of(m))
}

/// `c` is a call with this id.
pub open spec fn is_call_to(c: InputContent, id: Seq<char>) -> bool {
    c matches InputContent::ToolCall { id: x, .. } && x@ == id
}

/// `c` is a result answering this id.
pub open spec fn is_result_for(c: InputContent, id: Seq<char>) -> bool {
    c matches InputContent::ToolResult { call_id: x, .. } && x@ == id
}

/// Some part of `cs` is a call with this id (or, with `want_call` false, a
/// result answering it).
pub open spec fn mentions(cs: Seq<InputContent>, id: Seq<char>, want_call: bool) -> bool {
    exists|x: int| 0 <= x < cs.len()
        && (if want_call { is_call_to(cs[x], id) } else { is_result_for(cs[x], id) })
}

/// Some turn in `lo..hi` mentions the id.
pub open spec fn mentioned_in(t: Seq<Turn>, lo: int, hi: int, id: Seq<char>, want_call: bool) -> bool {
    exists|j: int| lo <= j < hi && #[trigger] mentions(t[j].1, id, want_call)
}

/// A non-empty turn made of tool results alone.
pub open spec fn only_results(cs: Seq<InputContent>) -> bool {
    cs.len() > 0 && forall|j: int| 0 <= j < cs.len() ==> cs[j] is ToolResult
}

/// The ids awaiting a result after the parts `cs`, starting from `open`.
pub open spec fn after_parts(open: Set<Seq<char>>, cs: Seq<InputContent>) -> Set<Seq<char>>
    decreases cs.len(),
{
    if cs.len() == 0 {
        open
    } else {
        let s = after_parts(open, cs.drop_last());
        match cs.last() {
            InputContent::ToolCall { id, .. } => s.insert(id@),
            InputContent::ToolResult { call_id, .. } => s.remove(call_id@),
            _ => s,
        }
    }
}

/// After the first `k` turns: the ids still awaiting a result, and the ids
/// whose pair some turn has separated.
pub open spec fn scan(t: Seq<Turn>, k: int) -> (Set<Seq<char>>, Set<Seq<char>>)
    decreases k,
{
    if k <= 0 {
        (Set::empty(), Set::empty())
    } else {
        let (open, broken) = scan(t, k - 1);
        let cs = t[k - 1].1;
        if only_results(cs) {
            (after_parts(open, cs), broken)
        } else {
            (after_parts(Set::empty(), cs), broken.union(open))
        }
    }
}

/// Whether the part `c` of turn `i` survives.
pub open spec fn kept(t: Seq<Turn>, i: int, c: InputContent) -> bool {
    let broken = scan(t, t.len() as int).1;
    match c {
        InputContent::ToolResult { call_id, .. } =>
            !broken.contains(call_id@) && mentioned_in(t, 0, i, call_id@, true),
        InputContent::ToolCall { id, .. } =>
            !broken.contains(id@)
                && mentioned_in(t, i + 1, t.len() as int, id@, false)
                && !mentioned_in(t, 0, i + 1, id@, false),
        _ => true,
    }
}

/// The test a part of turn `i` passes to survive.
pub open spec fn keeps(t: Seq<Turn>, i: int) -> spec_fn(InputContent) -> bool {
    |c: InputContent| kept(t, i, c)
}

/// Turn `i` with only its surviving parts.
pub open spec fn pruned(t: Seq<Turn>, i: int) -> Turn {
    (t[i].0, t[i].1.filter(keeps(t, i)))
}

/// The first `n` turns, each with only its surviving parts.
pub open spec fn pruned_all(t: Seq<Turn>, n: nat) -> Seq<Turn> {
    Seq::new(n, |i: int| pruned(t, i))
}

/// A turn with something left in it.
pub open spec fn nonempty() -> spec_fn(Turn) -> bool {
    |u: Turn| u.1.len() > 0
}

/// The transcript after repair.
pub open spec fn repaired(t: Seq<Turn>) -> Seq<Turn> {
    pruned_all(t, t.len()).filter(nonempty())
}

/// The ids a list of strings holds.
pub open spec fn ids(v: Seq<String>) -> Set<Seq<char>> {
    Set::new(|x: Seq<char>| exists|i: int| 0 <= i < v.len() && #[trigger] v[i]@ == x)
}

fn holds(v: &Vec<String>, s: &str) -> (r: bool)
    ensures
        r == ids(v@).contains(s@),
{
    let mut i: usize = 0;
    while i < v.len()
        invariant
            i <= v@.len(),
            forall|j: int| 0 <= j < i ==> v@[j]@ != s@,
        decreases v@.len() - i,
    {
        if crate::text::str_eq(v[i].as_str(), s) {
            return true;
        }
        i = i + 1;
    }
    false
}

fn without(v: &Vec<String>, s: &str) -> (r: Vec<String>)
    ensures
        ids(r@) == ids(v@).remove(s@),
{
    let mut r: Vec<String> = Vec::new();
    let mut i: usize = 0;
    while i < v.len()
        invariant
            i <= v@.len(),
            ids(r@) == ids(v@.take(i as int)).remove(s@),
        decreases v@.len() - i,
    {
        let ghost before = r@;
        if !crate::text::str_eq(v[i].as_str(), s) {
            r.push(v[i].clone());
        }
        assert(ids(r@) =~= ids(v@.take(i + 1)).remove(s@)) by {
            assert forall|x: Seq<char>| ids(r@).contains(x) == ids(v@.take(i + 1)).remove(s@).contains(x) by {
                if ids(v@.take(i + 1)).contains(x) && x != s@ {
                    let j = choose|j: int| 0 <= j < i + 1 && #[trigger] v@.take(i + 1)[j]@ == x;
                    if j < i {
                        assert(v@.take(i as int)[j]@ == x);
                        assert(ids(before).contains(x));
                        let k = choose|k: int| 0 <= k < before.len() && #[trigger] before[k]@ == x;
                        assert(r@[k]@ == x);
                    } else {
                        assert(r@[r@.len() - 1]@ == x);
                    }
                }
                if ids(r@).contains(x) {
                    let k = choose|k: int| 0 <= k < r@.len() && #[trigger] r@[k]@ == x;
                    if k < before.len() {
                        assert(ids(before).contains(x));
                        let j = choose|j: int| 0 <= j < i && #[trigger] v@.take(i as int)[j]@ == x;
                        assert(v@.take(i + 1)[j]@ == x);
                    } else {
                        assert(v@.take(i + 1)[i as int]@ == x);
                    }
                }
            }
        }
        i = i + 1;
    }
    assert(v@.take(v@.len() as int) == v@);
    r
}

/// A copy of a part, field for field.
fn copy_part(c: &InputContent) -> (r: InputContent)
    ensures
        r == *c,
{
    match c {
        InputContent::Text(t) => InputContent::Text(t.clone()),
        InputContent::ImageUrl(u) => InputContent::ImageUrl(u.clone()),
        InputContent::ToolCall { id, name, arguments } => InputContent::ToolCall {
            id: id.clone(),
            name: name.clone(),
            arguments: arguments.clone(),
        },
        InputContent::ToolResult { call_id, output } => InputContent::ToolResult {
            call_id: call_id.clone(),
            output: output.clone(),
        },
        InputContent::Reasoning { data } => InputContent::Reasoning { data: data.duplicate() },
    }
}

/// A part that is neither a tool call nor a tool result.
pub open spec fn plain(c: InputContent) -> bool {
    !(c is ToolCall) && !(c is ToolResult)
}

/// Every result that survives answers a call made strictly earlier in the
/// transcript, and every call that survives is first answered strictly
/// later; neither belongs to a pair another turn separated.
pub proof fn law_survivors_are_ordered_pairs(t: Seq<Turn>, i: int, c: InputContent)
    requires
        0 <= i < t.len(),
        pruned(t, i).1.contains(c),
    ensures
        c matches InputContent::ToolResult { call_id, .. } ==>
            mentioned_in(t, 0, i, call_id@, true) && !scan(t, t.len() as int).1.contains(call_id@),
        c matches InputContent::ToolCall { id, .. } ==>
            mentioned_in(t, i + 1, t.len() as int, id@, false) && !mentioned_in(t, 0, i + 1, id@, false)
                && !scan(t, t.len() as int).1.contains(id@),
{
    let k = choose|k: int| 0 <= k < pruned(t, i).1.len() && pruned(t, i).1[k] == c;
    t[i].1.lemma_filter_pred(keeps(t, i), k);
}

/// A part that is neither a tool call nor a tool result always survives.
pub proof fn law_plain_parts_survive(t: Seq<Turn>, i: int, c: InputContent)
    requires
        0 <= i < t.len(),
        t[i].1.contains(c),
        plain(c),
    ensures
        pruned(t, i).1.contains(c),
        repaired(t).contains(pruned(t, i)),
{
    let k = choose|k: int| 0 <= k < t[i].1.len() && t[i].1[k] == c;
    t[i].1.lemma_filter_contains(keeps(t, i), k);
    assert(pruned_all(t, t.len())[i] == pruned(t, i));
    pruned_all(t, t.len()).lemma_filter_contains(nonempty(), i);
}

/// No turn is left empty: a turn whose every part was dropped goes with
/// them, so an assistant turn keeps its text beside a dropped call but a
/// turn of dropped calls alone disappears.
pub proof fn law_no_turn_is_left_empty(t: Seq<Turn>, i: int)
    requires
        0 <= i < repaired(t).len(),
    ensures
        repaired(t)[i].1.len() > 0,
{
    pruned_all(t, t.len()).lemma_filter_pred(nonempty(), i);
}

/// Whether some part of `content` mentions the id.
fn mentions_exec(content: &Vec<InputContent>, id: &str, want_call: bool) -> (r: bool)
    ensures
        r == mentions(content@, id@, want_call),
{
    let mut j: usize = 0;
    while j < content.len()
        invariant
            j <= content@.len(),
            forall|x: int| 0 <= x < j ==> !(if want_call { is_call_to(content@[x], id@) } else { is_result_for(content@[x], id@) }),
        decreases content@.len() - j,
    {
        match &content[j] {
            InputContent::ToolCall { id: x, .. } => {
                if want_call && crate::text::str_eq(x.as_str(), id) {
                    return true;
                }
            }
            InputContent::ToolResult { call_id: x, .. } => {
                if !want_call && crate::text::str_eq(x.as_str(), id) {
                    return true;
                }
            }
            _ => {}
        }
        j = j + 1;
    }
    false
}

/// Whether some turn in `lo..hi` mentions the id.
fn mentioned_exec(messages: &Vec<Message>, lo: usize, hi: usize, id: &str, want_call: bool) -> (r: bool)
    requires
        lo <= hi <= messages@.len(),
    ensures
        r == mentioned_in(turns(messages@), lo as int, hi as int, id@, want_call),
{
    let ghost t = turns(messages@);
    let mut j: usize = lo;
    while j < hi
        invariant
            lo <= j <= hi <= messages@.len(),
            t == turns(messages@),
            forall|x: int| lo <= x < j ==> !mentions(#[trigger] t[x].1, id@, want_call),
        decreases hi - j,
    {
        if mentions_exec(&messages[j].content, id, want_call) {
            assert(t[j as int].1 == messages@[j as int].content@);
            return true;
        }
        assert(t[j as int].1 == messages@[j as int].content@);
        j = j + 1;
    }
    false
}

/// Whether a turn is made of tool results alone.
fn only_results_exec(content: &Vec<InputContent>) -> (r: bool)
    ensures
        r == only_results(content@),
{
    if content.len() == 0 {
        return false;
    }
    let mut j: usize = 0;
    while j < content.len()
        invariant
            j <= content@.len(),
            forall|x: int| 0 <= x < j ==> content@[x] is ToolResult,
        decreases content@.len() - j,
    {
        match &content[j] {
            InputContent::ToolResult { .. } => {}
            _ => {
                return false;
            }
        }
        j = j + 1;
    }
    true
}

proof fn lemma_ids_push(v: Seq<String>, s: String)
    ensures
        ids(v.push(s)) == ids(v).insert(s@),
{
    assert forall|x: Seq<char>| ids(v.push(s)).contains(x) == ids(v).insert(s@).contains(x) by {
        if ids(v).contains(x) {
            let k = choose|k: int| 0 <= k < v.len() && #[trigger] v[k]@ == x;
            assert(v.push(s)[k]@ == x);
        }
        if x == s@ {
            assert(v.push(s)[v.len() as int]@ == x);
        }
        if ids(v.push(s)).contains(x) && x != s@ {
            let k = choose|k: int| 0 <= k < v.len() + 1 && #[trigger] v.push(s)[k]@ == x;
            assert(v[k]@ == x);
        }
    }
    assert(ids(v.push(s)) =~= ids(v).insert(s@));
}

proof fn lemma_ids_concat(a: Seq<String>, b: Seq<String>)
    ensures
        ids(a + b) == ids(a).union(ids(b)),
{
    assert forall|x: Seq<char>| ids(a + b).contains(x) == ids(a).union(ids(b)).contains(x) by {
        if ids(a).contains(x) {
            let k = choose|k: int| 0 <= k < a.len() && #[trigger] a[k]@ == x;
            assert((a + b)[k]@ == x);
        }
        if ids(b).contains(x) {
            let k = choose|k: int| 0 <= k < b.len() && #[trigger] b[k]@ == x;
            assert((a + b)[a.len() + k]@ == x);
        }
        if ids(a + b).contains(x) {
            let k = choose|k: int| 0 <= k < a.len() + b.len() && #[trigger] (a + b)[k]@ == x;
            if k < a.len() {
                assert(a[k]@ == x);
            } else {
                assert(b[k - a.len()]@ == x);
            }
        }
    }
    assert(ids(a + b) =~= ids(a).union(ids(b)));
}

/// Applies the parts of one turn to the ids awaiting a result.
fn after_parts_exec(open: &mut Vec<String>, content: &Vec<InputContent>)
    ensures
        ids(final(open)@) == after_parts(ids(old(open)@), content@),
{
    let ghost start = ids(open@);
    let mut j: usize = 0;
    assert(content@.take(0) =~= Seq::<InputContent>::empty());
    while j < content.len()
        invariant
            j <= content@.len(),
            ids(open@) == after_parts(start, content@.take(j as int)),
        decreases content@.len() - j,
    {
        assert(content@.take(j + 1).drop_last() == content@.take(j as int));
        assert(content@.take(j + 1).last() == content@[j as int]);
        match &content[j] {
            InputContent::ToolCall { id, .. } => {
                let copy = id.clone();
                proof { lemma_ids_push(open@, copy); }
                open.push(copy);
            }
            InputContent::ToolResult { call_id, .. } => {
                let rest = without(open, call_id.as_str());
                *open = rest;
            }
            _ => {}
        }
        j = j + 1;
    }
    assert(content@.take(content@.len() as int) == content@);
}

/// The surviving parts of turn `i`.
fn kept_parts(messages: &Vec<Message>, i: usize, broken: &Vec<String>) -> (r: Vec<InputContent>)
    requires
        i < messages@.len(),
        ids(broken@) == scan(turns(messages@), messages@.len() as int).1,
    ensures
        r@ == turns(messages@)[i as int].1.filter(keeps(turns(messages@), i as int)),
{
    let ghost t = turns(messages@);
    let n = messages.len();
    let content = &messages[i].content;
    assert(t[i as int].1 == content@);
    let mut r: Vec<InputContent> = Vec::new();
    let mut j: usize = 0;
    assert(content@.take(0) =~= Seq::<InputContent>::empty());
    reveal(Seq::filter);
    while j < content.len()
        invariant
            j <= content@.len(),
            i < n == messages@.len(),
            t == turns(messages@),
            content@ == t[i as int].1,
            ids(broken@) == scan(t, n as int).1,
            r@ == content@.take(j as int).filter(keeps(t, i as int)),
        decreases content@.len() - j,
    {
        let part = &content[j];
        let keep = match part {
            InputContent::ToolResult { call_id, .. } =>
                !holds(broken, call_id.as_str()) && mentioned_exec(messages, 0, i, call_id.as_str(), true),
            InputContent::ToolCall { id, .. } =>
                !holds(broken, id.as_str())
                    && mentioned_exec(messages, i + 1, n, id.as_str(), false)
                    && !mentioned_exec(messages, 0, i + 1, id.as_str(), false),
            _ => true,
        };
        assert(keep == kept(t, i as int, *part));
        proof {
            assert(content@.take(j + 1) == content@.take(j as int).push(*part));
            content@.take(j as int).lemma_filter_push(*part, keeps(t, i as int));
        }
        if keep {
            r.push(copy_part(part));
        }
        j = j + 1;
    }
    assert(content@.take(content@.len() as int) == content@);
    r
}

/// Drops tool results whose call is absent or does not precede them, tool
/// calls whose first result is absent or does not follow them, and both
/// halves of every pair that another turn separates; then drops the turns
/// left empty.
pub fn repair(messages: &mut Vec<Message>)
    ensures
        turns(final(messages)@) == repaired(turns(old(messages)@)),
{
    let ghost t = turns(messages@);
    let n = messages.len();
    let mut open: Vec<String> = Vec::new();
    let mut broken: Vec<String> = Vec::new();
    let mut k: usize = 0;
    assert(ids(open@) =~= Set::<Seq<char>>::empty());
    assert(ids(broken@) =~= Set::<Seq<char>>::empty());
    while k < n
        invariant
            k <= n == messages@.len(),
            t == turns(messages@),
            ids(open@) == scan(t, k as int).0,
            ids(broken@) == scan(t, k as int).1,
        decreases n - k,
    {
        assert(t[k as int].1 == messages@[k as int].content@);
        if !only_results_exec(&messages[k].content) {
            proof { lemma_ids_concat(broken@, open@); }
            broken.append(&mut open);
            assert(ids(open@) =~= Set::<Seq<char>>::empty());
        }
        after_parts_exec(&mut open, &messages[k].content);
        k = k + 1;
    }
    let mut out: Vec<Message> = Vec::new();
    let mut i: usize = 0;
    reveal(Seq::filter);
    assert(pruned_all(t, 0) =~= Seq::<Turn>::empty());
    while i < n
        invariant
            i <= n == messages@.len(),
            t == turns(messages@),
            ids(broken@) == scan(t, n as int).1,
            turns(out@) == pruned_all(t, i as nat).filter(nonempty()),
        decreases n - i,
    {
        let parts = kept_parts(messages, i, &broken);
        let ghost before = out@;
        proof {
            assert(pruned_all(t, (i + 1) as nat) == pruned_all(t, i as nat).push(pruned(t, i as int)));
            pruned_all(t, i as nat).lemma_filter_push(pruned(t, i as int), nonempty());
        }
        if parts.len() > 0 {
            out.push(Message { role: messages[i].role, content: parts });
            assert(turns(out@) == turns(before).push(pruned(t, i as int)));
        }
        i = i + 1;
    }
    *messages = out;
}

} // verus!
