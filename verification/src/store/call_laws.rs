//! What holds of a tool call whose call and result are both in a window.

use vstd::prelude::*;

use crate::store::event_data::{
    EventDataView, StreamChunkView, ToolErrorIdentityView, ToolResultMessageView,
    UserMessageView,
};
use crate::json::JsonView;
use crate::store::fold::{AssistantFoldView, CompactionFoldView, FoldView, Scope, ToolFoldView};
use crate::store::node::{
    ChatNodeView, NodeDataView, RunningToolCallView, ToolCallBackfillView,
};
use crate::store::stored::StoredEventView;

verus! {

/// The call that the result in a message is for.
pub open spec fn result_id(message: ToolResultMessageView) -> Seq<char> {
    match message.source.get_str("callId"@) {
        Some(id) => id,
        None => Seq::empty(),
    }
}

/// Whether an event is the result of a call.
pub open spec fn settles_it(e: StoredEventView, call_id: Seq<char>) -> bool {
    e.data matches EventDataView::ToolResult { message, .. } && result_id(message) == call_id
}

/// The call that an event is.
pub open spec fn call_of(e: StoredEventView) -> Option<RunningToolCallView> {
    match e.data {
        EventDataView::ToolCall { turn, step, call_id, name, arguments } => Some(
            crate::store::fold::running_call(e, turn, step, call_id, name, arguments),
        ),
        _ => None,
    }
}

/// Whether an event that is no part of a tool call can make a node with a key.
pub open spec fn takes_key(e: StoredEventView, key: Seq<char>) -> bool {
    match e.data {
        EventDataView::Unknown { .. } => crate::store::fold::unknown_node(e).key == key,
        EventDataView::TurnEnd { turn, .. } => {
            ||| "turn-error:"@ + crate::text::int_decimal(turn as int) == key
            ||| "turn-max-tokens:"@ + crate::text::int_decimal(turn as int) == key
        },
        EventDataView::StepStart { turn, step } => crate::store::fold::assistant_node_key(turn, step)
            == key,
        EventDataView::UserMessage(message) => {
            ||| message.id == key
            ||| message.source.get_str("compactionId"@) == Some(key)
            ||| crate::store::fold::unknown_node(e).key == key
        },
        EventDataView::AssistantChunk { turn, step, .. } => crate::store::fold::assistant_node_key(
            turn,
            step,
        ) == key,
        EventDataView::AssistantMessage { turn, step, .. } => {
            ||| crate::store::fold::assistant_node_key(turn, step) == key
            ||| crate::store::fold::unknown_node(e).key == key
        },
        _ => false,
    }
}

/// Whether no open step has a key.
pub open spec fn steps_apart(list: Seq<AssistantFoldView>, key: Seq<char>) -> bool {
    forall|i: int|
        0 <= i < list.len() ==> crate::store::fold::assistant_node_key(
            (#[trigger] list[i]).turn,
            list[i].step,
        ) != key
}

/// Whether a call has its result and is published with it.
pub open spec fn settled_and_shown(f: FoldView, call_id: Seq<char>) -> bool {
    exists|k: int|
        0 <= k < f.tools.len() && (#[trigger] f.tools[k]).call_id == call_id
            && f.tools[k].result is Some && f.nodes.contains(
            crate::store::fold::settled_call(f.tools[k]),
        )
}

/// Whether nothing is known of a call but, where it came, its result.
pub open spec fn uncalled(f: FoldView, call_id: Seq<char>) -> bool {
    &&& crate::store::fold::known_call(f.calls, call_id) is None
    &&& forall|k: int|
        0 <= k < f.tools.len() && (#[trigger] f.tools[k]).call_id == call_id ==> f.tools[k].call
            is None
}

/// What a result tells of its call.
pub open spec fn told(call: RunningToolCallView) -> Option<ToolCallBackfillView> {
    Some(ToolCallBackfillView { name: call.name, args_raw: call.args_raw })
}

/// Whether a call is known, and its entry and its result have it.
pub open spec fn called(f: FoldView, call_id: Seq<char>, call: RunningToolCallView) -> bool {
    &&& crate::store::fold::known_call(f.calls, call_id) == Some(call)
    &&& forall|k: int|
        0 <= k < f.tools.len() && (#[trigger] f.tools[k]).call_id == call_id ==> {
            &&& f.tools[k].call == Some(call)
            &&& f.tools[k].result matches Some(r) ==> r.call == told(call)
        }
}

/// Whether no call is there twice.
pub open spec fn calls_apart(list: Seq<ToolFoldView>) -> bool {
    forall|i: int, j: int|
        0 <= i < j < list.len() ==> (#[trigger] list[i]).call_id != (#[trigger] list[j]).call_id
}

pub(crate) proof fn lemma_put_keeps(nodes: Seq<ChatNodeView>, node: ChatNodeView, n: ChatNodeView)
    ensures
        crate::store::fold::put_node(nodes, node).contains(node),
        nodes.contains(n) && n.key != node.key ==> crate::store::fold::put_node(
            nodes,
            node,
        ).contains(n),
{
    let out = crate::store::fold::put_node(nodes, node);
    let p = |m: ChatNodeView| m.key == node.key;
    crate::seqs::lemma_first_index_holds(nodes, p);
    let at = crate::store::fold::node_index(nodes, node.key);
    assert(out[out.len() - 1] == node);
    if nodes.contains(n) && n.key != node.key {
        let k = choose|k: int| 0 <= k < nodes.len() && nodes[k] == n;
        if at < nodes.len() {
            assert(p(nodes[at]));
            assert(k != at);
            let j = if k < at {
                k
            } else {
                k - 1
            };
            assert(out[j] == n);
        } else {
            assert(out[k] == n);
        }
    }
}

proof fn lemma_known_other(
    list: Seq<RunningToolCallView>,
    call: RunningToolCallView,
    id: Seq<char>,
)
    ensures
        id != call.call_id ==> crate::store::fold::known_call(
            crate::store::fold::with_known(list, call),
            id,
        ) == crate::store::fold::known_call(list, id),
        crate::store::fold::known_call(
            crate::store::fold::with_known(list, call),
            call.call_id,
        ) == Some(call),
{
    let out = crate::store::fold::with_known(list, call);
    let p = |c: RunningToolCallView| c.call_id == id;
    let q = |c: RunningToolCallView| c.call_id == call.call_id;
    crate::seqs::lemma_first_index_holds(list, p);
    crate::seqs::lemma_first_index_holds(list, q);
    let at = crate::store::fold::call_index(list, call.call_id);
    let i = crate::store::fold::call_index(list, id);
    assert(out[at] == call);
    assert forall|k: int| 0 <= k < at implies !q(#[trigger] out[k]) by {
        assert(out[k] == list[k]);
    }
    crate::seqs::lemma_first_index(out, q, at);
    if id != call.call_id {
        let j = if i < list.len() {
            i
        } else {
            out.len() as int
        };
        if i < list.len() {
            assert(p(list[i]));
            if at < list.len() {
                assert(q(list[at]));
            }
            assert(out[i] == list[i]);
        }
        assert forall|k: int| 0 <= k < j implies !p(#[trigger] out[k]) by {
            if k != at {
                assert(out[k] == list[k]);
                assert(!p(list[k]));
            }
        }
        crate::seqs::lemma_first_index(out, p, j);
    }
}

proof fn lemma_steps_keep(
    list: Seq<AssistantFoldView>,
    nodes: Seq<ChatNodeView>,
    scope: Scope,
    seq: i64,
    n: ChatNodeView,
)
    requires
        steps_apart(list, n.key),
    ensures
        steps_apart(crate::store::fold::close_steps(list, nodes, scope, seq).0, n.key),
        nodes.contains(n) ==> crate::store::fold::close_steps(list, nodes, scope, seq).1.contains(n),
    decreases list.len(),
{
    if list.len() > 0 {
        let rest = list.drop_last();
        let a = list.last();
        assert(list[list.len() - 1] == a);
        assert forall|i: int| 0 <= i < rest.len() implies
            crate::store::fold::assistant_node_key((#[trigger] rest[i]).turn, rest[i].step)
            != n.key by {
            assert(rest[i] == list[i]);
        }
        lemma_steps_keep(rest, nodes, scope, seq, n);
        let shown = crate::store::fold::close_steps(rest, nodes, scope, seq).1;
        lemma_put_keeps(shown, crate::store::fold::interrupted_step(a, seq), n);
    }
}

proof fn lemma_calls_keep(
    list: Seq<ToolFoldView>,
    nodes: Seq<ChatNodeView>,
    scope: Scope,
    n: ChatNodeView,
)
    requires
        forall|i: int|
            0 <= i < list.len() && (#[trigger] list[i]).call_id == n.key ==> list[i].result is Some,
        nodes.contains(n),
    ensures
        crate::store::fold::close_calls(list, nodes, scope).1.contains(n),
    decreases list.len(),
{
    if list.len() > 0 {
        let rest = list.drop_last();
        let t = list.last();
        assert(list[list.len() - 1] == t);
        assert forall|i: int|
            0 <= i < rest.len() && (#[trigger] rest[i]).call_id == n.key implies rest[i].result
            is Some by {
            assert(rest[i] == list[i]);
        }
        lemma_calls_keep(rest, nodes, scope, n);
        let shown = crate::store::fold::close_calls(rest, nodes, scope).1;
        if t.call is Some {
            lemma_put_keeps(shown, crate::store::fold::interrupted_call(t, t.call->0), n);
        }
    }
}

proof fn lemma_calls_left(list: Seq<ToolFoldView>, nodes: Seq<ChatNodeView>, scope: Scope)
    ensures
        forall|i: int|
            0 <= i < crate::store::fold::close_calls(list, nodes, scope).0.len()
                ==> list.contains(#[trigger] crate::store::fold::close_calls(list, nodes, scope).0[i]),
    decreases list.len(),
{
    if list.len() > 0 {
        let rest = list.drop_last();
        lemma_calls_left(rest, nodes, scope);
        let before = crate::store::fold::close_calls(rest, nodes, scope).0;
        let out = crate::store::fold::close_calls(list, nodes, scope).0;
        assert forall|i: int| 0 <= i < out.len() implies list.contains(#[trigger] out[i]) by {
            if i < before.len() {
                assert(out[i] == before[i]);
                let k = choose|k: int| 0 <= k < rest.len() && rest[k] == before[i];
                assert(list[k] == out[i]);
            } else {
                assert(list[list.len() - 1] == out[i]);
            }
        }
    }
}

proof fn lemma_boundary_settled(f: FoldView, scope: Scope, seq: i64, c: Seq<char>)
    requires
        steps_apart(f.assistants, c),
        calls_apart(f.tools),
    ensures
        ({
            let out = crate::store::fold::fold_boundary(f, scope, seq);
            &&& steps_apart(out.assistants, c)
            &&& settled_and_shown(f, c) ==> settled_and_shown(out, c)
            &&& uncalled(f, c) ==> uncalled(out, c)
            &&& forall|call: RunningToolCallView| #[trigger]
                called(f, c, call) ==> called(out, c, call)
        }),
{
    let out = crate::store::fold::fold_boundary(f, scope, seq);
    let shown = crate::store::fold::close_steps(f.assistants, f.nodes, scope, seq).1;
    lemma_calls_left(f.tools, shown, scope);
    assert forall|i: int| 0 <= i < out.tools.len() implies f.tools.contains(
        #[trigger] out.tools[i],
    ) by {}
    if settled_and_shown(f, c) {
        let k = choose|k: int|
            0 <= k < f.tools.len() && (#[trigger] f.tools[k]).call_id == c && f.tools[k].result
                is Some && f.nodes.contains(crate::store::fold::settled_call(f.tools[k]));
        let n = crate::store::fold::settled_call(f.tools[k]);
        lemma_steps_keep(f.assistants, f.nodes, scope, seq, n);
        assert forall|i: int|
            0 <= i < f.tools.len() && (#[trigger] f.tools[i]).call_id == n.key implies
            f.tools[i].result is Some by {
            if i < k {
                assert(f.tools[i].call_id != f.tools[k].call_id);
            } else if k < i {
                assert(f.tools[k].call_id != f.tools[i].call_id);
            }
        }
        lemma_calls_keep(f.tools, shown, scope, n);
        crate::store::fold_laws::law_boundary_keeps_settled(f, scope, seq, k);
        let j = choose|j: int| 0 <= j < out.tools.len() && out.tools[j] == f.tools[k];
        assert(out.tools[j].call_id == c);
    } else {
        let n = ChatNodeView { key: c, ..arbitrary() };
        lemma_steps_keep(f.assistants, f.nodes, scope, seq, n);
    }
    assert forall|i: int| 0 <= i < out.tools.len() && (#[trigger] out.tools[i]).call_id == c
        implies exists|k: int| 0 <= k < f.tools.len() && #[trigger] f.tools[k] == out.tools[i] by {
        assert(f.tools.contains(out.tools[i]));
    }
}

proof fn lemma_put_settled(f: FoldView, node: ChatNodeView, c: Seq<char>)
    requires
        node.key != c,
    ensures
        settled_and_shown(f, c) ==> settled_and_shown(f.put(node), c),
        uncalled(f, c) ==> uncalled(f.put(node), c),
        forall|call: RunningToolCallView| #[trigger]
            called(f, c, call) ==> called(f.put(node), c, call),
{
    if settled_and_shown(f, c) {
        let k = choose|k: int|
            0 <= k < f.tools.len() && (#[trigger] f.tools[k]).call_id == c && f.tools[k].result
                is Some && f.nodes.contains(crate::store::fold::settled_call(f.tools[k]));
        lemma_put_keeps(f.nodes, node, crate::store::fold::settled_call(f.tools[k]));
        assert(f.put(node).tools[k].call_id == c);
    }
}

proof fn lemma_user_settled(f: FoldView, e: StoredEventView, message: UserMessageView, c: Seq<char>)
    requires
        e.data == EventDataView::UserMessage(message),
        !takes_key(e, c),
        steps_apart(f.assistants, c),
        calls_apart(f.tools),
    ensures
        ({
            let out = crate::store::fold::fold_user_message(f, e, message);
            &&& steps_apart(out.assistants, c)
            &&& settled_and_shown(f, c) ==> settled_and_shown(out, c)
            &&& uncalled(f, c) ==> uncalled(out, c)
            &&& forall|call: RunningToolCallView| #[trigger]
                called(f, c, call) ==> called(out, c, call)
        }),
{
    let node = crate::store::fold::user_node(e, message);
    lemma_put_settled(f, node, c);
    lemma_put_settled(f, crate::store::fold::unknown_node(e), c);
    lemma_boundary_settled(f, Scope::All, e.event.seq, c);
    lemma_put_settled(crate::store::fold::fold_boundary(f, Scope::All, e.event.seq), node, c);
    match message.source.get_str("compactionId"@) {
        Some(id) => {
            let list = crate::store::fold::with_compaction(f.compactions, id);
            let i = crate::store::fold::compaction_index(f.compactions, id);
            let p = |x: CompactionFoldView| x.compaction_id == id;
            crate::seqs::lemma_first_index_holds(f.compactions, p);
            if i < f.compactions.len() {
                assert(p(f.compactions[i]));
            }
            let opened = FoldView { compactions: list, ..f };
            let marker = crate::store::fold::compaction_node(list[i], e.event.seq);
            assert(settled_and_shown(f, c) ==> settled_and_shown(opened, c)) by {
                if settled_and_shown(f, c) {
                    let k = choose|k: int|
                        0 <= k < f.tools.len() && (#[trigger] f.tools[k]).call_id == c
                            && f.tools[k].result is Some && f.nodes.contains(
                            crate::store::fold::settled_call(f.tools[k]),
                        );
                    assert(opened.tools[k].call_id == c);
                }
            }
            assert(uncalled(f, c) ==> uncalled(opened, c));
            assert(forall|call: RunningToolCallView| #[trigger]
                called(f, c, call) ==> called(opened, c, call));
            lemma_put_settled(opened, marker, c);
            lemma_put_settled(opened.put(marker), node, c);
        },
        None => {},
    }
}

proof fn lemma_call_settled(f: FoldView, e: StoredEventView, c: Seq<char>)
    requires
        call_of(e) is Some,
        calls_apart(f.tools),
    ensures
        ({
            let out = crate::store::fold::fold_step(f, e);
            let call = call_of(e)->0;
            &&& settled_and_shown(f, c) ==> settled_and_shown(out, c)
            &&& call.call_id != c && uncalled(f, c) ==> uncalled(out, c)
            &&& call.call_id == c && uncalled(f, c) ==> called(out, c, call)
            &&& forall|known: RunningToolCallView|
                call.call_id != c && #[trigger] called(f, c, known) ==> called(out, c, known)
        }),
{
    let out = crate::store::fold::fold_step(f, e);
    let call = call_of(e)->0;
    let p = |t: ToolFoldView| t.call_id == call.call_id;
    crate::seqs::lemma_first_index_holds(f.tools, p);
    let at = crate::store::fold::tool_index(f.tools, call.call_id);
    lemma_known_other(f.calls, call, c);
    if at < f.tools.len() {
        assert(p(f.tools[at]));
    }
    assert forall|k: int| 0 <= k < f.tools.len() && k != at implies #[trigger] out.tools[k]
        == f.tools[k] by {}
    if settled_and_shown(f, c) {
        let k = choose|k: int|
            0 <= k < f.tools.len() && (#[trigger] f.tools[k]).call_id == c && f.tools[k].result
                is Some && f.nodes.contains(crate::store::fold::settled_call(f.tools[k]));
        let n = crate::store::fold::settled_call(f.tools[k]);
        if at < f.tools.len() && f.tools[at].call is None {
            let t = crate::store::fold::with_call(f.tools[at], call);
            lemma_put_keeps(f.nodes, crate::store::fold::settled_call(t), n);
            if k < at {
                assert(f.tools[k].call_id != f.tools[at].call_id);
            } else if at < k {
                assert(f.tools[at].call_id != f.tools[k].call_id);
            }
        }
        assert(out.tools[k].call_id == c);
    }
    assert forall|k: int| 0 <= k < out.tools.len() && (#[trigger] out.tools[k]).call_id
        == c implies (k == at || (k < f.tools.len() && out.tools[k] == f.tools[k])) by {}
    if call.call_id == c {
        assert forall|k: int| 0 <= k < out.tools.len() && (#[trigger] out.tools[k]).call_id
            == c implies k == at by {
            if k < f.tools.len() && k != at {
                if at < f.tools.len() {
                    if k < at {
                        assert(f.tools[k].call_id != f.tools[at].call_id);
                    } else {
                        assert(f.tools[at].call_id != f.tools[k].call_id);
                    }
                } else {
                    assert(!p(f.tools[k]));
                }
            }
        }
    }
}

proof fn lemma_result_settled(
    f: FoldView,
    e: StoredEventView,
    turn: i64,
    step: i64,
    message: ToolResultMessageView,
    error: Option<ToolErrorIdentityView>,
    meta: Option<JsonView>,
    c: Seq<char>,
)
    requires
        calls_apart(f.tools),
    ensures
        ({
            let out = crate::store::fold::fold_tool_result(f, e, turn, step, message, error, meta);
            &&& settled_and_shown(f, c) || result_id(message) == c ==> settled_and_shown(out, c)
            &&& uncalled(f, c) ==> uncalled(out, c)
            &&& forall|call: RunningToolCallView| #[trigger]
                called(f, c, call) ==> called(out, c, call)
        }),
{
    let id = result_id(message);
    let out = crate::store::fold::fold_tool_result(f, e, turn, step, message, error, meta);
    let p = |t: ToolFoldView| t.call_id == id;
    crate::seqs::lemma_first_index_holds(f.tools, p);
    let at = crate::store::fold::tool_index(f.tools, id);
    if at < f.tools.len() {
        assert(p(f.tools[at]));
    }
    let t = out.tools[at];
    let node = crate::store::fold::settled_call(t);
    assert(t.call_id == id);
    assert forall|k: int| 0 <= k < f.tools.len() && k != at implies #[trigger] out.tools[k]
        == f.tools[k] by {}
    if id == c {
        lemma_put_keeps(f.nodes, node, node);
        assert(out.tools[at].call_id == c);
    } else if settled_and_shown(f, c) {
        let k = choose|k: int|
            0 <= k < f.tools.len() && (#[trigger] f.tools[k]).call_id == c && f.tools[k].result
                is Some && f.nodes.contains(crate::store::fold::settled_call(f.tools[k]));
        lemma_put_keeps(f.nodes, node, crate::store::fold::settled_call(f.tools[k]));
        assert(out.tools[k].call_id == c);
    }
}

proof fn lemma_chunk_apart(
    f: FoldView,
    seq: i64,
    turn: i64,
    step: i64,
    chunk: StreamChunkView,
    c: Seq<char>,
)
    requires
        steps_apart(f.assistants, c),
        crate::store::fold::assistant_node_key(turn, step) != c,
    ensures
        steps_apart(crate::store::fold::with_step(f.assistants, turn, step, seq), c),
        steps_apart(crate::store::fold::fold_chunk(f, seq, turn, step, chunk).assistants, c),
{
    let p = |a: AssistantFoldView| a.turn == turn && a.step == step;
    crate::seqs::lemma_first_index_holds(f.assistants, p);
    let list = crate::store::fold::with_step(f.assistants, turn, step, seq);
    let i = crate::store::fold::assistant_index(f.assistants, turn, step);
    assert(list[i].turn == turn && list[i].step == step) by {
        if i < f.assistants.len() {
            assert(p(f.assistants[i]));
        }
    }
    let after = crate::store::fold::after_chunk(list[i], chunk);
    assert(after.turn == turn && after.step == step);
}

#[verifier::spinoff_prover]
proof fn lemma_step_settled(f: FoldView, e: StoredEventView, c: Seq<char>)
    requires
        !takes_key(e, c),
        steps_apart(f.assistants, c),
        calls_apart(f.tools),
    ensures
        ({
            let out = crate::store::fold::fold_step(f, e);
            let own = call_of(e) matches Some(call) && call.call_id == c;
            &&& steps_apart(out.assistants, c)
            &&& settled_and_shown(f, c) || settles_it(e, c) ==> settled_and_shown(out, c)
            &&& !own && uncalled(f, c) ==> uncalled(out, c)
            &&& own && uncalled(f, c) ==> called(out, c, call_of(e)->0)
            &&& forall|call: RunningToolCallView|
                !own && #[trigger] called(f, c, call) ==> called(out, c, call)
        }),
{
    let out = crate::store::fold::fold_step(f, e);
    match e.data {
        EventDataView::Unknown { ignorable } => {
            lemma_put_settled(f, crate::store::fold::unknown_node(e), c);
            assert(out.tools == f.tools && out.calls == f.calls);
            if out.nodes == f.nodes {
                lemma_same_settled(f, out, c);
            }
        },
        EventDataView::TurnEnd { turn, reason } => {
            lemma_boundary_settled(f, Scope::Turn(turn), e.event.seq, c);
            let closed = crate::store::fold::fold_boundary(f, Scope::Turn(turn), e.event.seq);
            if reason is Error || reason is MaxTokens {
                lemma_put_settled(closed, out.nodes.last(), c);
            }
        },
        EventDataView::StepStart { turn, step } => {
            lemma_chunk_apart(f, e.event.seq, turn, step, arbitrary(), c);
            lemma_same_settled(f, out, c);
        },
        EventDataView::StepEnd { turn, step } => {
            lemma_boundary_settled(f, Scope::Step(turn, step), e.event.seq, c);
        },
        EventDataView::UserMessage(message) => lemma_user_settled(f, e, message, c),
        EventDataView::AssistantChunk { turn, step, chunk } => {
            lemma_chunk_apart(f, e.event.seq, turn, step, chunk, c);
            lemma_same_settled(f, out, c);
        },
        EventDataView::AssistantMessage { turn, step, message, usage } => {
            if out.nodes != f.nodes {
                lemma_put_settled(f, out.nodes.last(), c);
                lemma_same_settled(f.put(out.nodes.last()), out, c);
            } else {
                lemma_same_settled(f, out, c);
            }
            let p = |a: AssistantFoldView| a.turn == turn && a.step == step;
            crate::seqs::lemma_first_index_holds(f.assistants, p);
            assert forall|i: int| 0 <= i < out.assistants.len() implies
                crate::store::fold::assistant_node_key(
                (#[trigger] out.assistants[i]).turn,
                out.assistants[i].step,
            ) != c by {
                let at = crate::store::fold::assistant_index(f.assistants, turn, step);
                if out.assistants.len() < f.assistants.len() && i >= at {
                    assert(out.assistants[i] == f.assistants[i + 1]);
                } else {
                    assert(out.assistants[i] == f.assistants[i]);
                }
            }
        },
        EventDataView::ToolCall { .. } => lemma_call_settled(f, e, c),
        EventDataView::ToolResult { turn, step, message, error, meta } => {
            lemma_result_settled(f, e, turn, step, message, error, meta, c);
        },
        _ => {},
    }
}

proof fn lemma_same_settled(f: FoldView, out: FoldView, c: Seq<char>)
    requires
        out.tools == f.tools,
        out.calls == f.calls,
        out.nodes == f.nodes,
    ensures
        settled_and_shown(f, c) ==> settled_and_shown(out, c),
        uncalled(f, c) ==> uncalled(out, c),
        forall|call: RunningToolCallView| #[trigger] called(f, c, call) ==> called(out, c, call),
{
    if settled_and_shown(f, c) {
        let k = choose|k: int|
            0 <= k < f.tools.len() && (#[trigger] f.tools[k]).call_id == c && f.tools[k].result
                is Some && f.nodes.contains(crate::store::fold::settled_call(f.tools[k]));
        assert(out.tools[k].call_id == c);
    }
}

/// Whether an event is the call of an id.
pub open spec fn is_call_of(e: StoredEventView, c: Seq<char>) -> bool {
    call_of(e) matches Some(call) && call.call_id == c
}

proof fn lemma_window_settled(events: Seq<StoredEventView>, c: Seq<char>)
    requires
        forall|k: int| 0 <= k < events.len() ==> !takes_key(#[trigger] events[k], c),
        forall|i: int, j: int|
            0 <= i < j < events.len() ==> !(is_call_of(#[trigger] events[i], c) && is_call_of(
                #[trigger] events[j],
                c,
            )),
    ensures
        ({
            let f = crate::store::fold::fold_window(events);
            &&& steps_apart(f.assistants, c)
            &&& forall|k: int|
                0 <= k < events.len() && settles_it(#[trigger] events[k], c) ==> settled_and_shown(
                    f,
                    c,
                )
            &&& forall|k: int|
                0 <= k < events.len() && is_call_of(#[trigger] events[k], c) ==> called(
                    f,
                    c,
                    call_of(events[k])->0,
                )
            &&& (forall|k: int| 0 <= k < events.len() ==> !is_call_of(#[trigger] events[k], c))
                ==> uncalled(f, c)
        }),
    decreases events.len(),
{
    let f = crate::store::fold::fold_window(events);
    if events.len() > 0 {
        let rest = events.drop_last();
        let last = events.last();
        assert(events[events.len() - 1] == last);
        assert forall|k: int| 0 <= k < rest.len() implies !takes_key(#[trigger] rest[k], c) by {
            assert(rest[k] == events[k]);
        }
        assert forall|i: int, j: int| 0 <= i < j < rest.len() implies !(is_call_of(
            #[trigger] rest[i],
            c,
        ) && is_call_of(#[trigger] rest[j], c)) by {
            assert(rest[i] == events[i] && rest[j] == events[j]);
        }
        lemma_window_settled(rest, c);
        crate::store::fold_laws::law_window_fine(rest);
        let before = crate::store::fold::fold_window(rest);
        lemma_step_settled(before, last, c);
        assert forall|k: int| 0 <= k < events.len() && settles_it(
            #[trigger] events[k],
            c,
        ) implies settled_and_shown(f, c) by {
            if k < rest.len() {
                assert(settles_it(rest[k], c));
            }
        }
        if is_call_of(last, c) {
            assert forall|k: int| 0 <= k < rest.len() implies !is_call_of(#[trigger] rest[k], c) by {
                assert(rest[k] == events[k]);
                assert(!(is_call_of(events[k], c) && is_call_of(events[events.len() - 1], c)));
            }
            assert(uncalled(before, c));
        }
        assert forall|k: int| 0 <= k < events.len() && is_call_of(
            #[trigger] events[k],
            c,
        ) implies called(f, c, call_of(events[k])->0) by {
            if k < rest.len() {
                assert(is_call_of(rest[k], c));
                assert(!(is_call_of(events[k], c) && is_call_of(events[events.len() - 1], c)));
                assert(called(before, c, call_of(rest[k])->0));
            }
        }
        if forall|k: int| 0 <= k < events.len() ==> !is_call_of(#[trigger] events[k], c) {
            assert forall|k: int| 0 <= k < rest.len() implies !is_call_of(#[trigger] rest[k], c) by {
                assert(rest[k] == events[k]);
            }
        }
    }
}

pub(crate) proof fn lemma_running_keeps(
    nodes: Seq<ChatNodeView>,
    steps: Seq<AssistantFoldView>,
    n: ChatNodeView,
)
    requires
        steps_apart(steps, n.key),
        nodes.contains(n),
    ensures
        crate::store::fold::running_steps(nodes, steps).contains(n),
    decreases steps.len(),
{
    if steps.len() > 0 {
        let rest = steps.drop_last();
        assert forall|i: int| 0 <= i < rest.len() implies
            crate::store::fold::assistant_node_key((#[trigger] rest[i]).turn, rest[i].step)
            != n.key by {
            assert(rest[i] == steps[i]);
        }
        assert(steps[steps.len() - 1] == steps.last());
        lemma_running_keeps(nodes, rest, n);
        let shown = crate::store::fold::running_steps(nodes, rest);
        let out = crate::store::fold::running_steps(nodes, steps);
        if crate::store::fold::visible(crate::store::fold::arrived(steps.last().blocks)) {
            lemma_put_keeps(shown, out.last(), n);
        }
    }
}

pub(crate) proof fn lemma_running_calls_keep(nodes: Seq<ChatNodeView>, list: Seq<ToolFoldView>, n: ChatNodeView)
    requires
        forall|i: int|
            0 <= i < list.len() && (#[trigger] list[i]).call_id == n.key ==> list[i].result is Some,
        forall|i: int|
            0 <= i < list.len() ==> ((#[trigger] list[i]).call matches Some(call) ==> call.call_id
                == list[i].call_id),
        nodes.contains(n),
    ensures
        crate::store::fold::running_calls(nodes, list).contains(n),
    decreases list.len(),
{
    if list.len() > 0 {
        let rest = list.drop_last();
        let t = list.last();
        assert(list[list.len() - 1] == t);
        assert forall|i: int|
            0 <= i < rest.len() && (#[trigger] rest[i]).call_id == n.key implies rest[i].result
            is Some by {
            assert(rest[i] == list[i]);
        }
        assert forall|i: int| 0 <= i < rest.len() implies ((
        #[trigger] rest[i]).call matches Some(call) ==> call.call_id == rest[i].call_id) by {
            assert(rest[i] == list[i]);
        }
        lemma_running_calls_keep(nodes, rest, n);
        let shown = crate::store::fold::running_calls(nodes, rest);
        let out = crate::store::fold::running_calls(nodes, list);
        if t.result is None && t.call is Some {
            lemma_put_keeps(shown, out.last(), n);
        }
    }
}

/// A call and its result in one window, in whichever order they come and whatever lies between
/// them, are one node: it has the call and the result, is not interrupted, and is the only one
/// with its key. This is of a window that has the call once and no other row with its key.
pub proof fn law_called_and_settled(
    events: Seq<StoredEventView>,
    c: Seq<char>,
    at_call: int,
    at_result: int,
) -> (at: int)
    requires
        0 <= at_call < events.len(),
        is_call_of(events[at_call], c),
        0 <= at_result < events.len(),
        settles_it(events[at_result], c),
        forall|k: int| 0 <= k < events.len() ==> !takes_key(#[trigger] events[k], c),
        forall|i: int, j: int|
            0 <= i < j < events.len() ==> !(is_call_of(#[trigger] events[i], c) && is_call_of(
                #[trigger] events[j],
                c,
            )),
    ensures
        ({
            let nodes = crate::store::fold::chat_nodes(events);
            &&& 0 <= at < nodes.len()
            &&& nodes[at].key == c
            &&& nodes[at].data matches NodeDataView::Tool {
                call: Some(call),
                result: Some(result),
                interrupted: false,
            } && Some(call) == call_of(events[at_call]) && result.call == told(call)
            &&& forall|i: int|
                0 <= i < nodes.len() && (#[trigger] nodes[i]).key == c ==> i == at
        }),
{
    let f = crate::store::fold::fold_window(events);
    let call = call_of(events[at_call])->0;
    lemma_window_settled(events, c);
    crate::store::fold_laws::law_window_fine(events);
    assert(settled_and_shown(f, c));
    assert(called(f, c, call));
    let k = choose|k: int|
        0 <= k < f.tools.len() && (#[trigger] f.tools[k]).call_id == c && f.tools[k].result is Some
            && f.nodes.contains(crate::store::fold::settled_call(f.tools[k]));
    let n = crate::store::fold::settled_call(f.tools[k]);
    lemma_running_keeps(f.nodes, f.assistants, n);
    assert forall|i: int| 0 <= i < f.tools.len() && (#[trigger] f.tools[i]).call_id == n.key
        implies f.tools[i].result is Some by {
        if i < k {
            assert(f.tools[i].call_id != f.tools[k].call_id);
        } else if k < i {
            assert(f.tools[k].call_id != f.tools[i].call_id);
        }
    }
    let shown = crate::store::fold::running_steps(f.nodes, f.assistants);
    lemma_running_calls_keep(shown, f.tools, n);
    let all = crate::store::fold::finished(f);
    assert(all.contains(n));
    crate::store::fold_laws::law_sort(all);
    let nodes = crate::store::fold::chat_nodes(events);
    broadcast use vstd::seq_lib::group_to_multiset_ensures;

    assert(nodes.to_multiset().contains(n));
    let at = choose|at: int| 0 <= at < nodes.len() && nodes[at] == n;
    crate::store::fold_laws::law_chat_nodes(events);
    assert forall|i: int| 0 <= i < nodes.len() && (#[trigger] nodes[i]).key == c implies i == at by {
        if i < at {
            assert(nodes[i].key != nodes[at].key);
        } else if at < i {
            assert(nodes[at].key != nodes[i].key);
        }
    }
    at
}

} // verus!
