//! What holds of every fold.

use vstd::prelude::*;

use crate::store::event_data::{
    AssistantMessageView, EventDataView, StreamChunkView, ToolErrorIdentityView,
    ToolResultMessageView, TurnEndReasonView, UserMessageView,
};
use crate::store::event_data::TokenUsage;
use crate::json::JsonView;
use crate::store::fold::{AssistantFoldView, FoldView, Scope, ToolFoldView, MAX_ASSISTANT_BLOCKS};
use crate::store::node::{ChatNodeKind, ChatNodeView, NodeDataView};
use crate::store::stored::StoredEventView;

verus! {

/// No two nodes have the same key.
pub open spec fn distinct_keys(nodes: Seq<ChatNodeView>) -> bool {
    forall|i: int, j: int|
        0 <= i < j < nodes.len() ==> (#[trigger] nodes[i]).key != (#[trigger] nodes[j]).key
}

/// The nodes stand by ascending anchor.
pub open spec fn in_display_order(nodes: Seq<ChatNodeView>) -> bool {
    forall|i: int, j: int|
        0 <= i <= j < nodes.len() ==> (#[trigger] nodes[i]).anchor_seq <= (
        #[trigger] nodes[j]).anchor_seq
}

/// The kind and the key of a node agree with its payload.
pub open spec fn coherent(node: ChatNodeView) -> bool {
    match node.data {
        NodeDataView::User { message_id, .. } => node.kind == ChatNodeKind::User && node.key
            == message_id,
        NodeDataView::Assistant { turn, step, .. } => node.kind == ChatNodeKind::Assistant
            && node.key == crate::store::fold::assistant_node_key(turn, step),
        NodeDataView::Tool { call, result, .. } => {
            &&& node.kind == ChatNodeKind::Tool
            &&& call is Some || result is Some
            &&& call matches Some(c) ==> c.call_id == node.key
            &&& result matches Some(r) ==> r.call_id == node.key
        },
        NodeDataView::Compaction { .. } => node.kind == ChatNodeKind::Compaction,
        NodeDataView::TurnError { turn, .. } => node.kind == ChatNodeKind::TurnError && node.key
            == "turn-error:"@ + crate::text::int_decimal(turn as int),
        NodeDataView::TurnMaxTokens { turn } => node.kind == ChatNodeKind::TurnMaxTokens
            && node.key == "turn-max-tokens:"@ + crate::text::int_decimal(turn as int),
        NodeDataView::Unknown { .. } => node.kind == ChatNodeKind::Unknown && node.key
            == "unknown:"@ + crate::text::int_decimal(node.anchor_seq as int),
    }
}

/// The seqs of a window.
pub open spec fn window_seqs(events: Seq<StoredEventView>) -> Set<i64> {
    Set::new(|s: i64| exists|i: int| 0 <= i < events.len() && (#[trigger] events[i]).event.seq == s)
}

/// The published nodes are coherent, have distinct keys and are anchored at known seqs.
pub open spec fn nodes_fine(nodes: Seq<ChatNodeView>, seqs: Set<i64>) -> bool {
    &&& distinct_keys(nodes)
    &&& forall|i: int|
        0 <= i < nodes.len() ==> coherent(#[trigger] nodes[i]) && seqs.contains(
            nodes[i].anchor_seq,
        )
}

/// The open steps are bounded, anchored at known seqs, and no two are the same step.
pub open spec fn steps_fine(list: Seq<AssistantFoldView>, seqs: Set<i64>) -> bool {
    &&& forall|i: int|
        0 <= i < list.len() ==> (#[trigger] list[i]).blocks.len() <= MAX_ASSISTANT_BLOCKS
            && seqs.contains(list[i].anchor_seq)
    &&& forall|i: int, j: int|
        0 <= i < j < list.len() ==> !((#[trigger] list[i]).turn == (#[trigger] list[j]).turn
            && list[i].step == list[j].step)
}

/// The tool calls name themselves, are anchored at known seqs, and no two are the same
/// call.
pub open spec fn calls_fine(list: Seq<ToolFoldView>, seqs: Set<i64>) -> bool {
    &&& forall|i: int|
        0 <= i < list.len() ==> {
            &&& (#[trigger] list[i]).call is Some || list[i].result is Some
            &&& list[i].call matches Some(c) ==> c.call_id == list[i].call_id
            &&& list[i].result matches Some(r) ==> r.call_id == list[i].call_id
            &&& seqs.contains(list[i].anchor_seq)
        }
    &&& forall|i: int, j: int|
        0 <= i < j < list.len() ==> (#[trigger] list[i]).call_id != (#[trigger] list[j]).call_id
}

/// The state of every fold.
pub open spec fn fold_fine(f: FoldView, seqs: Set<i64>) -> bool {
    &&& nodes_fine(f.nodes, seqs)
    &&& steps_fine(f.assistants, seqs)
    &&& calls_fine(f.tools, seqs)
}

proof fn lemma_put(nodes: Seq<ChatNodeView>, node: ChatNodeView, seqs: Set<i64>)
    requires
        nodes_fine(nodes, seqs),
        coherent(node),
        seqs.contains(node.anchor_seq),
    ensures
        nodes_fine(crate::store::fold::put_node(nodes, node), seqs),
{
    let p = |n: ChatNodeView| n.key == node.key;
    crate::seqs::lemma_first_index_holds(nodes, p);
    let i = crate::store::fold::node_index(nodes, node.key);
    let out = crate::store::fold::put_node(nodes, node);
    if i < nodes.len() {
        assert forall|k: int| 0 <= k < out.len() - 1 implies (#[trigger] out[k]) == nodes[if k < i {
            k
        } else {
            k + 1
        }] by {}
        assert forall|a: int, b: int| 0 <= a < b < out.len() implies (#[trigger] out[a]).key != (
        #[trigger] out[b]).key by {
            let na = if a < i {
                a
            } else {
                a + 1
            };
            if b == out.len() - 1 {
                assert(nodes[na].key != nodes[i].key);
            } else {
                let nb = if b < i {
                    b
                } else {
                    b + 1
                };
                assert(nodes[na].key != nodes[nb].key);
            }
        }
    } else {
        assert forall|a: int, b: int| 0 <= a < b < out.len() implies (#[trigger] out[a]).key != (
        #[trigger] out[b]).key by {
            if b == out.len() - 1 {
                assert(!p(nodes[a]));
            }
        }
    }
}

/// A larger set of known seqs keeps a fold fine.
proof fn lemma_widen(f: FoldView, seqs: Set<i64>, more: Set<i64>)
    requires
        fold_fine(f, seqs),
        seqs.subset_of(more),
    ensures
        fold_fine(f, more),
{
}

proof fn lemma_with_step(list: Seq<AssistantFoldView>, turn: i64, step: i64, seq: i64, seqs: Set<i64>)
    requires
        steps_fine(list, seqs),
        seqs.contains(seq),
    ensures
        steps_fine(crate::store::fold::with_step(list, turn, step, seq), seqs),
        0 <= crate::store::fold::assistant_index(list, turn, step)
            < crate::store::fold::with_step(list, turn, step, seq).len(),
{
    let p = |a: AssistantFoldView| a.turn == turn && a.step == step;
    crate::seqs::lemma_first_index_holds(list, p);
    let out = crate::store::fold::with_step(list, turn, step, seq);
    if crate::store::fold::assistant_index(list, turn, step) == list.len() {
        assert forall|i: int, j: int| 0 <= i < j < out.len() implies !((#[trigger] out[i]).turn == (
        #[trigger] out[j]).turn && out[i].step == out[j].step) by {
            if j == out.len() - 1 {
                assert(!p(list[i]));
            }
        }
    }
}

proof fn lemma_close_steps(
    list: Seq<AssistantFoldView>,
    nodes: Seq<ChatNodeView>,
    scope: Scope,
    seq: i64,
    seqs: Set<i64>,
)
    requires
        steps_fine(list, seqs),
        nodes_fine(nodes, seqs),
        seqs.contains(seq),
    ensures
        steps_fine(crate::store::fold::close_steps(list, nodes, scope, seq).0, seqs),
        nodes_fine(crate::store::fold::close_steps(list, nodes, scope, seq).1, seqs),
        forall|i: int|
            0 <= i < crate::store::fold::close_steps(list, nodes, scope, seq).0.len() ==> {
                let a = #[trigger] crate::store::fold::close_steps(list, nodes, scope, seq).0[i];
                list.contains(a) && !scope.has(a.turn, a.step)
            },
    decreases list.len(),
{
    if list.len() > 0 {
        let rest = list.drop_last();
        let a = list.last();
        lemma_close_steps(rest, nodes, scope, seq, seqs);
        let (open, shown) = crate::store::fold::close_steps(rest, nodes, scope, seq);
        let out = crate::store::fold::close_steps(list, nodes, scope, seq).0;
        assert forall|i: int| 0 <= i < open.len() implies list.contains(#[trigger] open[i]) by {
            let k = choose|k: int| 0 <= k < rest.len() && rest[k] == open[i];
            assert(list[k] == open[i]);
        }
        if scope.has(a.turn, a.step) {
            if crate::store::fold::interruption_evidence(crate::store::fold::arrived(a.blocks)) {
                lemma_put(shown, crate::store::fold::interrupted_step(a, seq), seqs);
            }
        } else {
            assert(list[list.len() - 1] == a);
            assert forall|i: int, j: int| 0 <= i < j < out.len() implies !((#[trigger] out[i]).turn
                == (#[trigger] out[j]).turn && out[i].step == out[j].step) by {
                if j == out.len() - 1 {
                    let k = choose|k: int| 0 <= k < rest.len() && rest[k] == open[i];
                    assert(list[k] == open[i]);
                }
            }
        }
    }
}

proof fn lemma_close_calls(
    list: Seq<ToolFoldView>,
    nodes: Seq<ChatNodeView>,
    scope: Scope,
    seqs: Set<i64>,
)
    requires
        calls_fine(list, seqs),
        nodes_fine(nodes, seqs),
    ensures
        calls_fine(crate::store::fold::close_calls(list, nodes, scope).0, seqs),
        nodes_fine(crate::store::fold::close_calls(list, nodes, scope).1, seqs),
        forall|i: int|
            0 <= i < crate::store::fold::close_calls(list, nodes, scope).0.len() ==> {
                let t = #[trigger] crate::store::fold::close_calls(list, nodes, scope).0[i];
                list.contains(t) && !(scope.has(t.turn, t.step) && t.result is None)
            },
    decreases list.len(),
{
    if list.len() > 0 {
        let rest = list.drop_last();
        let t = list.last();
        lemma_close_calls(rest, nodes, scope, seqs);
        let (open, shown) = crate::store::fold::close_calls(rest, nodes, scope);
        let out = crate::store::fold::close_calls(list, nodes, scope).0;
        assert forall|i: int| 0 <= i < open.len() implies list.contains(#[trigger] open[i]) by {
            let k = choose|k: int| 0 <= k < rest.len() && rest[k] == open[i];
            assert(list[k] == open[i]);
        }
        assert(list[list.len() - 1] == t);
        if scope.has(t.turn, t.step) && t.result is None {
            lemma_put(shown, crate::store::fold::interrupted_call(t, t.call->0), seqs);
        } else {
            assert forall|i: int, j: int| 0 <= i < j < out.len() implies (#[trigger] out[i]).call_id
                != (#[trigger] out[j]).call_id by {
                if j == out.len() - 1 {
                    let k = choose|k: int| 0 <= k < rest.len() && rest[k] == open[i];
                    assert(list[k] == open[i]);
                }
            }
        }
    }
}

proof fn lemma_boundary(f: FoldView, scope: Scope, seq: i64, seqs: Set<i64>)
    requires
        fold_fine(f, seqs),
        seqs.contains(seq),
    ensures
        fold_fine(crate::store::fold::fold_boundary(f, scope, seq), seqs),
{
    lemma_close_steps(f.assistants, f.nodes, scope, seq, seqs);
    let (assistants, shown) = crate::store::fold::close_steps(f.assistants, f.nodes, scope, seq);
    lemma_close_calls(f.tools, shown, scope, seqs);
}

proof fn lemma_chunk(f: FoldView, seq: i64, turn: i64, step: i64, chunk: StreamChunkView, seqs: Set<i64>)
    requires
        fold_fine(f, seqs),
        seqs.contains(seq),
    ensures
        fold_fine(crate::store::fold::fold_chunk(f, seq, turn, step, chunk), seqs),
{
    lemma_with_step(f.assistants, turn, step, seq, seqs);
    let list = crate::store::fold::with_step(f.assistants, turn, step, seq);
    let i = crate::store::fold::assistant_index(f.assistants, turn, step);
    let a = crate::store::fold::after_chunk(list[i], chunk);
    assert(a.turn == list[i].turn && a.step == list[i].step && a.anchor_seq == list[i].anchor_seq);
    assert(a.blocks.len() <= MAX_ASSISTANT_BLOCKS);
    let out = list.update(i, a);
    assert forall|k: int| 0 <= k < out.len() implies (#[trigger] out[k]).turn == list[k].turn
        && out[k].step == list[k].step by {}
}

proof fn lemma_assistant_message(
    f: FoldView,
    e: StoredEventView,
    turn: i64,
    step: i64,
    message: AssistantMessageView,
    usage: Option<TokenUsage>,
    seqs: Set<i64>,
)
    requires
        fold_fine(f, seqs),
        seqs.contains(e.event.seq),
    ensures
        fold_fine(
            crate::store::fold::fold_assistant_message(f, e, turn, step, message, usage),
            seqs,
        ),
{
    let out = crate::store::fold::fold_assistant_message(f, e, turn, step, message, usage);
    let p = |a: AssistantFoldView| a.turn == turn && a.step == step;
    crate::seqs::lemma_first_index_holds(f.assistants, p);
    lemma_put(f.nodes, crate::store::fold::unknown_node(e), seqs);
    if out.nodes != f.nodes {
        let blocks = crate::store::fold::display_blocks(message.content);
        let node = ChatNodeView {
            key: crate::store::fold::assistant_node_key(turn, step),
            kind: ChatNodeKind::Assistant,
            anchor_seq: e.event.seq,
            data: NodeDataView::Assistant {
                turn,
                step,
                blocks,
                usage,
                finalized: true,
                interrupted: false,
            },
        };
        lemma_put(f.nodes, node, seqs);
    }
    let i = crate::store::fold::assistant_index(f.assistants, turn, step);
    if i < f.assistants.len() {
        let removed = f.assistants.remove(i);
        assert forall|k: int| 0 <= k < removed.len() implies (#[trigger] removed[k])
            == f.assistants[if k < i {
            k
        } else {
            k + 1
        }] by {}
        assert(steps_fine(removed, seqs));
    }
}

proof fn lemma_tool_call(
    f: FoldView,
    e: StoredEventView,
    turn: i64,
    step: i64,
    call_id: Seq<char>,
    name: Seq<char>,
    arguments: Seq<char>,
    seqs: Set<i64>,
)
    requires
        fold_fine(f, seqs),
        seqs.contains(e.event.seq),
    ensures
        fold_fine(
            crate::store::fold::fold_tool_call(f, e, turn, step, call_id, name, arguments),
            seqs,
        ),
{
    let p = |t: ToolFoldView| t.call_id == call_id;
    crate::seqs::lemma_first_index_holds(f.tools, p);
    let out = crate::store::fold::fold_tool_call(f, e, turn, step, call_id, name, arguments).tools;
    let i = crate::store::fold::tool_index(f.tools, call_id);
    if i < f.tools.len() {
        assert forall|k: int| 0 <= k < out.len() implies (#[trigger] out[k]).call_id
            == f.tools[k].call_id by {}
        if f.tools[i].call is None {
            let running = crate::store::fold::running_call(e, turn, step, call_id, name, arguments);
            let t = crate::store::fold::with_call(f.tools[i], running);
            assert(p(f.tools[i]));
            lemma_put(f.nodes, crate::store::fold::settled_call(t), seqs);
        }
    } else {
        assert forall|a: int, b: int| 0 <= a < b < out.len() implies (#[trigger] out[a]).call_id
            != (#[trigger] out[b]).call_id by {
            if b == out.len() - 1 {
                assert(!p(f.tools[a]));
            }
        }
    }
}

proof fn lemma_tool_result(
    f: FoldView,
    e: StoredEventView,
    turn: i64,
    step: i64,
    message: ToolResultMessageView,
    error: Option<ToolErrorIdentityView>,
    meta: Option<JsonView>,
    seqs: Set<i64>,
)
    requires
        fold_fine(f, seqs),
        seqs.contains(e.event.seq),
    ensures
        fold_fine(
            crate::store::fold::fold_tool_result(f, e, turn, step, message, error, meta),
            seqs,
        ),
{
    let call_id = match message.source.get_str("callId"@) {
        Some(id) => id,
        None => Seq::empty(),
    };
    let p = |t: ToolFoldView| t.call_id == call_id;
    crate::seqs::lemma_first_index_holds(f.tools, p);
    let out = crate::store::fold::fold_tool_result(f, e, turn, step, message, error, meta);
    let i = crate::store::fold::tool_index(f.tools, call_id);
    let t = out.tools[i];
    if i < f.tools.len() {
        assert forall|k: int| 0 <= k < out.tools.len() implies (#[trigger] out.tools[k]).call_id
            == f.tools[k].call_id by {}
    } else {
        let q = |c: crate::store::node::RunningToolCallView| c.call_id == call_id;
        crate::seqs::lemma_first_index_holds(f.calls, q);
        let known = crate::store::fold::call_index(f.calls, call_id);
        if known < f.calls.len() {
            assert(q(f.calls[known]));
        }
        assert forall|a: int, b: int| 0 <= a < b < out.tools.len() implies (
        #[trigger] out.tools[a]).call_id != (#[trigger] out.tools[b]).call_id by {
            if b == out.tools.len() - 1 {
                assert(!p(f.tools[a]));
            }
        }
    }
    lemma_put(f.nodes, crate::store::fold::settled_call(t), seqs);
}

proof fn lemma_user_message(f: FoldView, e: StoredEventView, message: UserMessageView, seqs: Set<i64>)
    requires
        fold_fine(f, seqs),
        seqs.contains(e.event.seq),
    ensures
        fold_fine(crate::store::fold::fold_user_message(f, e, message), seqs),
{
    let node = crate::store::fold::user_node(e, message);
    lemma_put(f.nodes, node, seqs);
    lemma_put(f.nodes, crate::store::fold::unknown_node(e), seqs);
    lemma_boundary(f, Scope::All, e.event.seq, seqs);
    lemma_put(crate::store::fold::fold_boundary(f, Scope::All, e.event.seq).nodes, node, seqs);
    let marked = crate::store::fold::fold_checkpoint(f, e.event.seq, message);
    if message.source.get_str("compactionId"@) is Some {
        let id = message.source.get_str("compactionId"@)->0;
        let list = crate::store::fold::with_compaction(f.compactions, id);
        let i = crate::store::fold::compaction_index(f.compactions, id);
        lemma_put(f.nodes, crate::store::fold::compaction_node(list[i], e.event.seq), seqs);
    }
    lemma_put(marked.nodes, node, seqs);
}

proof fn lemma_turn_end(f: FoldView, e: StoredEventView, turn: i64, reason: TurnEndReasonView, seqs: Set<i64>)
    requires
        fold_fine(f, seqs),
        seqs.contains(e.event.seq),
    ensures
        fold_fine(crate::store::fold::fold_turn_end(f, e, turn, reason), seqs),
{
    lemma_boundary(f, Scope::Turn(turn), e.event.seq, seqs);
    let closed = crate::store::fold::fold_boundary(f, Scope::Turn(turn), e.event.seq);
    match reason {
        TurnEndReasonView::Error { error } => {
            lemma_put(
                closed.nodes,
                ChatNodeView {
                    key: "turn-error:"@ + crate::text::int_decimal(turn as int),
                    kind: ChatNodeKind::TurnError,
                    anchor_seq: e.event.seq,
                    data: NodeDataView::TurnError {
                        turn,
                        message: error.message,
                        code: Some(error.code),
                    },
                },
                seqs,
            );
        },
        TurnEndReasonView::MaxTokens => {
            lemma_put(
                closed.nodes,
                ChatNodeView {
                    key: "turn-max-tokens:"@ + crate::text::int_decimal(turn as int),
                    kind: ChatNodeKind::TurnMaxTokens,
                    anchor_seq: e.event.seq,
                    data: NodeDataView::TurnMaxTokens { turn },
                },
                seqs,
            );
        },
        _ => {},
    }
}

/// Every event keeps a fold fine.
pub proof fn law_step_keeps(f: FoldView, e: StoredEventView, seqs: Set<i64>)
    requires
        fold_fine(f, seqs),
        seqs.contains(e.event.seq),
    ensures
        fold_fine(crate::store::fold::fold_step(f, e), seqs),
{
    match e.data {
        EventDataView::Unknown { ignorable } => {
            lemma_put(f.nodes, crate::store::fold::unknown_node(e), seqs);
        },
        EventDataView::TurnEnd { turn, reason } => lemma_turn_end(f, e, turn, reason, seqs),
        EventDataView::StepStart { turn, step } => {
            lemma_with_step(f.assistants, turn, step, e.event.seq, seqs);
        },
        EventDataView::StepEnd { turn, step } => {
            lemma_boundary(f, Scope::Step(turn, step), e.event.seq, seqs);
        },
        EventDataView::UserMessage(message) => lemma_user_message(f, e, message, seqs),
        EventDataView::AssistantChunk { turn, step, chunk } => {
            lemma_chunk(f, e.event.seq, turn, step, chunk, seqs);
        },
        EventDataView::AssistantMessage { turn, step, message, usage } => {
            lemma_assistant_message(f, e, turn, step, message, usage, seqs);
        },
        EventDataView::ToolCall { turn, step, call_id, name, arguments } => {
            lemma_tool_call(f, e, turn, step, call_id, name, arguments, seqs);
        },
        EventDataView::ToolResult { turn, step, message, error, meta } => {
            lemma_tool_result(f, e, turn, step, message, error, meta, seqs);
        },
        _ => {},
    }
}

/// The fold of every window is fine: its nodes are coherent, have distinct keys and are
/// anchored at seqs of the window; its open steps have at most
/// [`MAX_ASSISTANT_BLOCKS`] blocks.
pub proof fn law_window_fine(events: Seq<StoredEventView>)
    ensures
        fold_fine(crate::store::fold::fold_window(events), window_seqs(events)),
    decreases events.len(),
{
    let seqs = window_seqs(events);
    if events.len() > 0 {
        let rest = events.drop_last();
        law_window_fine(rest);
        assert forall|s: i64| window_seqs(rest).contains(s) implies seqs.contains(s) by {
            let i = choose|i: int| 0 <= i < rest.len() && (#[trigger] rest[i]).event.seq == s;
            assert(events[i].event.seq == s);
        }
        lemma_widen(crate::store::fold::fold_window(rest), window_seqs(rest), seqs);
        assert(events[events.len() - 1].event.seq == events.last().event.seq);
        law_step_keeps(crate::store::fold::fold_window(rest), events.last(), seqs);
    }
}

proof fn lemma_running_steps(nodes: Seq<ChatNodeView>, list: Seq<AssistantFoldView>, seqs: Set<i64>)
    requires
        nodes_fine(nodes, seqs),
        steps_fine(list, seqs),
    ensures
        nodes_fine(crate::store::fold::running_steps(nodes, list), seqs),
    decreases list.len(),
{
    if list.len() > 0 {
        let rest = list.drop_last();
        let a = list.last();
        lemma_running_steps(nodes, rest, seqs);
        assert(seqs.contains(list[list.len() - 1].anchor_seq));
        lemma_put(
            crate::store::fold::running_steps(nodes, rest),
            ChatNodeView {
                key: crate::store::fold::assistant_node_key(a.turn, a.step),
                kind: ChatNodeKind::Assistant,
                anchor_seq: a.anchor_seq,
                data: NodeDataView::Assistant {
                    turn: a.turn,
                    step: a.step,
                    blocks: crate::store::fold::arrived(a.blocks),
                    usage: a.usage,
                    finalized: false,
                    interrupted: false,
                },
            },
            seqs,
        );
    }
}

proof fn lemma_running_calls(nodes: Seq<ChatNodeView>, list: Seq<ToolFoldView>, seqs: Set<i64>)
    requires
        nodes_fine(nodes, seqs),
        calls_fine(list, seqs),
    ensures
        nodes_fine(crate::store::fold::running_calls(nodes, list), seqs),
    decreases list.len(),
{
    if list.len() > 0 {
        let rest = list.drop_last();
        let t = list.last();
        lemma_running_calls(nodes, rest, seqs);
        assert(list[list.len() - 1] == t);
        match (t.result, t.call) {
            (None, Some(call)) => {
                lemma_put(
                    crate::store::fold::running_calls(nodes, rest),
                    ChatNodeView {
                        key: call.call_id,
                        kind: ChatNodeKind::Tool,
                        anchor_seq: t.anchor_seq,
                        data: NodeDataView::Tool {
                            call: Some(call),
                            result: None,
                            interrupted: false,
                        },
                    },
                    seqs,
                );
            },
            _ => {},
        }
    }
}

proof fn lemma_insert(sorted: Seq<ChatNodeView>, node: ChatNodeView)
    requires
        in_display_order(sorted),
    ensures
        in_display_order(crate::store::fold::insert_by_anchor(sorted, node)),
        crate::store::fold::insert_by_anchor(sorted, node).to_multiset()
            == sorted.push(node).to_multiset(),
        crate::store::fold::insert_by_anchor(sorted, node).len() == sorted.len() + 1,
        forall|i: int|
            0 <= i < crate::store::fold::insert_by_anchor(sorted, node).len()
                ==> (#[trigger] crate::store::fold::insert_by_anchor(sorted, node)[i] == node
                || sorted.contains(crate::store::fold::insert_by_anchor(sorted, node)[i])),
    decreases sorted.len(),
{
    broadcast use vstd::seq_lib::group_to_multiset_ensures;

    let out = crate::store::fold::insert_by_anchor(sorted, node);
    if sorted.len() == 0 || sorted.last().anchor_seq <= node.anchor_seq {
        assert forall|i: int, j: int| 0 <= i <= j < out.len() implies (#[trigger] out[i]).anchor_seq
            <= (#[trigger] out[j]).anchor_seq by {
            if j == out.len() - 1 && i < j {
                assert(sorted[i].anchor_seq <= sorted[sorted.len() - 1].anchor_seq);
            }
        }
        assert forall|i: int| 0 <= i < out.len() implies (#[trigger] out[i] == node
            || sorted.contains(out[i])) by {
            if i < sorted.len() {
                assert(sorted[i] == out[i]);
            }
        }
    } else {
        let rest = sorted.drop_last();
        let last = sorted.last();
        lemma_insert(rest, node);
        let inner = crate::store::fold::insert_by_anchor(rest, node);
        assert forall|i: int, j: int| 0 <= i <= j < out.len() implies (#[trigger] out[i]).anchor_seq
            <= (#[trigger] out[j]).anchor_seq by {
            if j == out.len() - 1 && i < j {
                assert(out[i] == inner[i]);
                if inner[i] != node {
                    let k = choose|k: int| 0 <= k < rest.len() && rest[k] == inner[i];
                    assert(sorted[k].anchor_seq <= sorted[sorted.len() - 1].anchor_seq);
                }
            }
        }
        assert forall|i: int| 0 <= i < out.len() implies (#[trigger] out[i] == node
            || sorted.contains(out[i])) by {
            if i < inner.len() {
                assert(out[i] == inner[i]);
                if inner[i] != node {
                    let k = choose|k: int| 0 <= k < rest.len() && rest[k] == inner[i];
                    assert(sorted[k] == inner[i]);
                }
            } else {
                assert(sorted[sorted.len() - 1] == out[i]);
            }
        }
        assert(sorted =~= rest.push(last));
        assert(out.to_multiset() =~= sorted.push(node).to_multiset());
    }
}

/// Sorting by anchor gives the same nodes in display order.
pub proof fn law_sort(nodes: Seq<ChatNodeView>)
    ensures
        in_display_order(crate::store::fold::by_anchor(nodes)),
        crate::store::fold::by_anchor(nodes).to_multiset() == nodes.to_multiset(),
        crate::store::fold::by_anchor(nodes).len() == nodes.len(),
    decreases nodes.len(),
{
    broadcast use vstd::seq_lib::group_to_multiset_ensures;

    if nodes.len() > 0 {
        let rest = nodes.drop_last();
        law_sort(rest);
        let sorted = crate::store::fold::by_anchor(rest);
        lemma_insert(sorted, nodes.last());
        assert(nodes =~= rest.push(nodes.last()));
        assert(crate::store::fold::by_anchor(nodes).to_multiset() =~= nodes.to_multiset());
    }
}

/// The nodes with a given anchor.
pub open spec fn anchored_at(nodes: Seq<ChatNodeView>, seq: i64) -> Seq<ChatNodeView>
    decreases nodes.len(),
{
    if nodes.len() == 0 {
        nodes
    } else if nodes.last().anchor_seq == seq {
        anchored_at(nodes.drop_last(), seq).push(nodes.last())
    } else {
        anchored_at(nodes.drop_last(), seq)
    }
}

proof fn lemma_insert_stable(sorted: Seq<ChatNodeView>, node: ChatNodeView, seq: i64)
    requires
        in_display_order(sorted),
    ensures
        anchored_at(crate::store::fold::insert_by_anchor(sorted, node), seq) == anchored_at(
            sorted.push(node),
            seq,
        ),
    decreases sorted.len(),
{
    assert(sorted.push(node).drop_last() =~= sorted);
    if !(sorted.len() == 0 || sorted.last().anchor_seq <= node.anchor_seq) {
        let rest = sorted.drop_last();
        let last = sorted.last();
        lemma_insert_stable(rest, node, seq);
        let inner = crate::store::fold::insert_by_anchor(rest, node);
        assert(inner.push(last).drop_last() =~= inner);
        assert(rest.push(node).drop_last() =~= rest);
        assert(rest.push(node).last() == node);
        assert(inner.push(last).last() == last);
        assert(anchored_at(sorted.push(node), seq) == if node.anchor_seq == seq {
            anchored_at(sorted, seq).push(node)
        } else {
            anchored_at(sorted, seq)
        });
        assert(anchored_at(rest.push(node), seq) == if node.anchor_seq == seq {
            anchored_at(rest, seq).push(node)
        } else {
            anchored_at(rest, seq)
        });
        assert(anchored_at(inner.push(last), seq) == if last.anchor_seq == seq {
            anchored_at(inner, seq).push(last)
        } else {
            anchored_at(inner, seq)
        });
    }
}

/// Sorting by anchor is stable: nodes with the same anchor keep their order.
pub proof fn law_sort_stable(nodes: Seq<ChatNodeView>, seq: i64)
    ensures
        anchored_at(crate::store::fold::by_anchor(nodes), seq) == anchored_at(nodes, seq),
    decreases nodes.len(),
{
    if nodes.len() > 0 {
        let rest = nodes.drop_last();
        law_sort_stable(rest, seq);
        law_sort(rest);
        let sorted = crate::store::fold::by_anchor(rest);
        lemma_insert_stable(sorted, nodes.last(), seq);
        assert(sorted.push(nodes.last()).drop_last() =~= sorted);
    }
}

proof fn lemma_sorted_fine(nodes: Seq<ChatNodeView>, seqs: Set<i64>)
    requires
        nodes_fine(nodes, seqs),
    ensures
        nodes_fine(crate::store::fold::by_anchor(nodes), seqs),
        forall|i: int|
            0 <= i < crate::store::fold::by_anchor(nodes).len() ==> nodes.contains(
                #[trigger] crate::store::fold::by_anchor(nodes)[i],
            ),
    decreases nodes.len(),
{
    if nodes.len() > 0 {
        let rest = nodes.drop_last();
        let last = nodes.last();
        assert(nodes[nodes.len() - 1] == last);
        lemma_sorted_fine(rest, seqs);
        law_sort(rest);
        let sorted = crate::store::fold::by_anchor(rest);
        lemma_insert_fine(sorted, last, seqs, nodes, rest);
    }
}

proof fn lemma_insert_fine(
    sorted: Seq<ChatNodeView>,
    node: ChatNodeView,
    seqs: Set<i64>,
    nodes: Seq<ChatNodeView>,
    rest: Seq<ChatNodeView>,
)
    requires
        in_display_order(sorted),
        nodes_fine(sorted, seqs),
        nodes_fine(nodes, seqs),
        nodes.len() > 0,
        rest == nodes.drop_last(),
        node == nodes.last(),
        forall|i: int| 0 <= i < sorted.len() ==> rest.contains(#[trigger] sorted[i]),
    ensures
        nodes_fine(crate::store::fold::insert_by_anchor(sorted, node), seqs),
        forall|i: int|
            0 <= i < crate::store::fold::insert_by_anchor(sorted, node).len() ==> nodes.contains(
                #[trigger] crate::store::fold::insert_by_anchor(sorted, node)[i],
            ),
    decreases sorted.len(),
{
    let out = crate::store::fold::insert_by_anchor(sorted, node);
    lemma_insert(sorted, node);
    assert(nodes[nodes.len() - 1] == node);
    assert forall|i: int| 0 <= i < sorted.len() implies (#[trigger] sorted[i]).key != node.key
        && nodes.contains(sorted[i]) by {
        let k = choose|k: int| 0 <= k < rest.len() && rest[k] == sorted[i];
        assert(nodes[k] == sorted[i]);
    }
    assert forall|i: int| 0 <= i < out.len() implies nodes.contains(#[trigger] out[i]) && coherent(
        out[i],
    ) && seqs.contains(out[i].anchor_seq) by {
        if out[i] != node {
            assert(sorted.contains(out[i]));
            let k = choose|k: int| 0 <= k < sorted.len() && sorted[k] == out[i];
            assert(nodes.contains(sorted[k]));
        }
    }
    if sorted.len() == 0 || sorted.last().anchor_seq <= node.anchor_seq {
        assert forall|a: int, b: int| 0 <= a < b < out.len() implies (#[trigger] out[a]).key != (
        #[trigger] out[b]).key by {
            if b == out.len() - 1 {
                assert(sorted[a].key != node.key);
            }
        }
    } else {
        let inner_sorted = sorted.drop_last();
        assert forall|i: int| 0 <= i < inner_sorted.len() implies rest.contains(
            #[trigger] inner_sorted[i],
        ) by {
            assert(inner_sorted[i] == sorted[i]);
        }
        lemma_insert_fine(inner_sorted, node, seqs, nodes, rest);
        lemma_insert(inner_sorted, node);
        let inner = crate::store::fold::insert_by_anchor(inner_sorted, node);
        assert forall|a: int, b: int| 0 <= a < b < out.len() implies (#[trigger] out[a]).key != (
        #[trigger] out[b]).key by {
            if b == out.len() - 1 {
                assert(out[a] == inner[a]);
                assert(sorted[sorted.len() - 1].key != node.key);
                if inner[a] != node {
                    let k = choose|k: int|
                        0 <= k < inner_sorted.len() && inner_sorted[k] == inner[a];
                    assert(sorted[k].key != sorted[sorted.len() - 1].key);
                }
            } else {
                assert(out[a] == inner[a] && out[b] == inner[b]);
            }
        }
    }
}

/// The node list of every window: by ascending anchor, one node per key, each node
/// coherent and anchored at an event of the window.
pub proof fn law_chat_nodes(events: Seq<StoredEventView>)
    ensures
        in_display_order(crate::store::fold::chat_nodes(events)),
        nodes_fine(crate::store::fold::chat_nodes(events), window_seqs(events)),
{
    law_window_fine(events);
    let f = crate::store::fold::fold_window(events);
    let seqs = window_seqs(events);
    lemma_running_steps(f.nodes, f.assistants, seqs);
    let shown = crate::store::fold::running_steps(f.nodes, f.assistants);
    lemma_running_calls(shown, f.tools, seqs);
    law_sort(crate::store::fold::finished(f));
    lemma_sorted_fine(crate::store::fold::finished(f), seqs);
}

/// One assistant node per (turn, step).
pub proof fn law_one_node_per_step(events: Seq<StoredEventView>, i: int, j: int)
    requires
        0 <= i < crate::store::fold::chat_nodes(events).len(),
        0 <= j < crate::store::fold::chat_nodes(events).len(),
        crate::store::fold::chat_nodes(events)[i].data is Assistant,
        crate::store::fold::chat_nodes(events)[j].data is Assistant,
        crate::store::fold::chat_nodes(events)[i].data->Assistant_turn
            == crate::store::fold::chat_nodes(events)[j].data->Assistant_turn,
        crate::store::fold::chat_nodes(events)[i].data->Assistant_step
            == crate::store::fold::chat_nodes(events)[j].data->Assistant_step,
    ensures
        i == j,
{
    law_chat_nodes(events);
    let nodes = crate::store::fold::chat_nodes(events);
    assert(coherent(nodes[i]) && coherent(nodes[j]));
    if i < j {
        assert(nodes[i].key != nodes[j].key);
    } else if j < i {
        assert(nodes[j].key != nodes[i].key);
    }
}

/// One tool node per call: the key of a tool node is its call id.
pub proof fn law_one_node_per_call(events: Seq<StoredEventView>, i: int, j: int)
    requires
        0 <= i < crate::store::fold::chat_nodes(events).len(),
        0 <= j < crate::store::fold::chat_nodes(events).len(),
        crate::store::fold::chat_nodes(events)[i].data matches NodeDataView::Tool {
            call: Some(a),
            ..
        } && crate::store::fold::chat_nodes(events)[j].data matches NodeDataView::Tool {
            call: Some(b),
            ..
        } && a.call_id == b.call_id,
    ensures
        i == j,
{
    law_chat_nodes(events);
    let nodes = crate::store::fold::chat_nodes(events);
    assert(coherent(nodes[i]) && coherent(nodes[j]));
    if i < j {
        assert(nodes[i].key != nodes[j].key);
    } else if j < i {
        assert(nodes[j].key != nodes[i].key);
    }
}

/// An unknown event that may be ignored leaves no trace.
pub proof fn law_ignorable_skipped(events: Seq<StoredEventView>, e: StoredEventView)
    requires
        e.data == (EventDataView::Unknown { ignorable: true }),
    ensures
        crate::store::fold::chat_nodes(events.push(e)) == crate::store::fold::chat_nodes(events),
{
    assert(events.push(e).drop_last() =~= events);
}

/// An unknown event that may not be ignored is shown as a row, except for the compaction
/// events, which the fold reads itself.
pub proof fn law_unknown_shown(f: FoldView, e: StoredEventView)
    requires
        e.data == (EventDataView::Unknown { ignorable: false }),
        e.event.kind != "compaction/start"@,
        e.event.kind != "compaction/summary"@,
        e.event.kind != "compaction/end"@,
    ensures
        crate::store::fold::fold_step(f, e).nodes.len() > 0,
        crate::store::fold::fold_step(f, e).nodes.last() == crate::store::fold::unknown_node(e),
{
}

/// A human prompt closes whatever was open: no step stays open, and no call without a
/// result.
pub proof fn law_prompt_closes(f: FoldView, e: StoredEventView, message: UserMessageView, seqs: Set<i64>)
    requires
        fold_fine(f, seqs),
        seqs.contains(e.event.seq),
        e.data == EventDataView::UserMessage(message),
        e.event.surface_op is None,
        message.source.get_str("kind"@) == Some("user"@),
    ensures
        crate::store::fold::fold_step(f, e).assistants.len() == 0,
        forall|i: int|
            0 <= i < crate::store::fold::fold_step(f, e).tools.len() ==> (
            #[trigger] crate::store::fold::fold_step(f, e).tools[i]).result is Some,
{
    lemma_close_steps(f.assistants, f.nodes, Scope::All, e.event.seq, seqs);
    let (open, shown) = crate::store::fold::close_steps(
        f.assistants,
        f.nodes,
        Scope::All,
        e.event.seq,
    );
    lemma_close_calls(f.tools, shown, Scope::All, seqs);
    if open.len() > 0 {
        assert(!Scope::All.has(open[0].turn, open[0].step));
    }
}

/// A settled call stays settled: a boundary does not touch a call that has its result.
pub proof fn law_boundary_keeps_settled(f: FoldView, scope: Scope, seq: i64, i: int)
    requires
        0 <= i < f.tools.len(),
        f.tools[i].result is Some,
    ensures
        crate::store::fold::fold_boundary(f, scope, seq).tools.contains(f.tools[i]),
{
    let shown = crate::store::fold::close_steps(f.assistants, f.nodes, scope, seq).1;
    lemma_settled_stays(f.tools, shown, scope, i);
}

proof fn lemma_settled_stays(list: Seq<ToolFoldView>, nodes: Seq<ChatNodeView>, scope: Scope, i: int)
    requires
        0 <= i < list.len(),
        list[i].result is Some,
    ensures
        crate::store::fold::close_calls(list, nodes, scope).0.contains(list[i]),
    decreases list.len(),
{
    let rest = list.drop_last();
    let (open, shown) = crate::store::fold::close_calls(rest, nodes, scope);
    if i == list.len() - 1 {
        assert(open.push(list.last())[open.len() as int] == list[i]);
    } else {
        lemma_settled_stays(rest, nodes, scope, i);
        let k = choose|k: int| 0 <= k < open.len() && open[k] == rest[i];
        assert(open.push(list.last())[k] == list[i]);
        assert(open[k] == list[i]);
    }
}

// ---------------------------------------------------------------------------
// calls and their results
// ---------------------------------------------------------------------------

/// Whether a call is known.
pub open spec fn is_known(f: FoldView, call_id: Seq<char>) -> bool {
    crate::store::fold::known_call(f.calls, call_id) is Some
}

/// Whether an event is the call of an id.
pub open spec fn calls_it(e: StoredEventView, call_id: Seq<char>) -> bool {
    e.data matches EventDataView::ToolCall { call_id: id, .. } && id == call_id
}

/// Whether a node is that of a tool whose call is not there.
pub open spec fn lacks_call(node: ChatNodeView) -> bool {
    node.data matches NodeDataView::Tool { call: None, .. }
}

/// Whether an entry waits for the call of an id.
pub open spec fn waits(tools: Seq<ToolFoldView>, call_id: Seq<char>) -> bool {
    exists|k: int|
        0 <= k < tools.len() && (#[trigger] tools[k]).call_id == call_id && tools[k].call is None
}

/// The nodes without a call are those whose entries wait for one.
pub open spec fn waiting(nodes: Seq<ChatNodeView>, tools: Seq<ToolFoldView>) -> bool {
    forall|i: int|
        0 <= i < nodes.len() && lacks_call(#[trigger] nodes[i]) ==> waits(tools, nodes[i].key)
}

/// The entries have their calls exactly where those are known.
pub open spec fn told_calls(f: FoldView) -> bool {
    forall|i: int|
        0 <= i < f.tools.len() ==> ((#[trigger] f.tools[i]).call is Some <==> is_known(
            f,
            f.tools[i].call_id,
        ))
}

/// Every call of a window is known, and nothing lacks a call that is.
pub open spec fn calls_told(f: FoldView, events: Seq<StoredEventView>) -> bool {
    &&& forall|i: int, id: Seq<char>|
        0 <= i < events.len() && #[trigger] calls_it(events[i], id) ==> is_known(f, id)
    &&& told_calls(f)
    &&& waiting(f.nodes, f.tools)
}

proof fn lemma_put_members(nodes: Seq<ChatNodeView>, node: ChatNodeView)
    ensures
        ({
            let out = crate::store::fold::put_node(nodes, node);
            forall|i: int|
                0 <= i < out.len() ==> (#[trigger] out[i] == node || (nodes.contains(out[i])
                    && out[i].key != node.key) || !distinct_keys(nodes))
        }),
{
    let out = crate::store::fold::put_node(nodes, node);
    let p = |n: ChatNodeView| n.key == node.key;
    crate::seqs::lemma_first_index_holds(nodes, p);
    let at = crate::store::fold::node_index(nodes, node.key);
    assert forall|i: int| 0 <= i < out.len() && distinct_keys(nodes) implies (#[trigger] out[i]
        == node || (nodes.contains(out[i]) && out[i].key != node.key)) by {
        if i < out.len() - 1 {
            let k = if at < nodes.len() && i >= at {
                i + 1
            } else {
                i
            };
            assert(out[i] == nodes[k]);
            if at < nodes.len() {
                if k < at {
                    assert(nodes[k].key != nodes[at].key);
                } else {
                    assert(nodes[at].key != nodes[k].key);
                }
            } else {
                assert(!p(nodes[k]));
            }
        }
    }
}

proof fn lemma_put_waiting(nodes: Seq<ChatNodeView>, node: ChatNodeView, tools: Seq<ToolFoldView>)
    requires
        distinct_keys(nodes),
        waiting(nodes, tools),
        lacks_call(node) ==> waits(tools, node.key),
    ensures
        waiting(crate::store::fold::put_node(nodes, node), tools),
{
    let out = crate::store::fold::put_node(nodes, node);
    lemma_put_members(nodes, node);
    assert forall|i: int| 0 <= i < out.len() && lacks_call(#[trigger] out[i]) implies waits(
        tools,
        out[i].key,
    ) by {
        if out[i] != node {
            let k = choose|k: int| 0 <= k < nodes.len() && nodes[k] == out[i];
            assert(lacks_call(nodes[k]));
        }
    }
}

proof fn lemma_known_after(
    list: Seq<crate::store::node::RunningToolCallView>,
    call: crate::store::node::RunningToolCallView,
    id: Seq<char>,
)
    ensures
        crate::store::fold::known_call(crate::store::fold::with_known(list, call), id) is Some <==> (
        crate::store::fold::known_call(list, id) is Some || id == call.call_id),
        crate::store::fold::known_call(
            crate::store::fold::with_known(list, call),
            call.call_id,
        ) == Some(call),
{
    let out = crate::store::fold::with_known(list, call);
    let p = |c: crate::store::node::RunningToolCallView| c.call_id == id;
    let q = |c: crate::store::node::RunningToolCallView| c.call_id == call.call_id;
    crate::seqs::lemma_first_index_holds(list, p);
    crate::seqs::lemma_first_index_holds(list, q);
    crate::seqs::lemma_first_index_holds(out, p);
    crate::seqs::lemma_first_index_holds(out, q);
    let at = crate::store::fold::call_index(list, call.call_id);
    let i = crate::store::fold::call_index(list, id);
    assert(out[at] == call);
    assert forall|k: int| 0 <= k < at implies !q(#[trigger] out[k]) by {
        assert(out[k] == list[k]);
    }
    crate::seqs::lemma_first_index(out, q, at);
    let j = crate::store::fold::call_index(out, id);
    if i < list.len() {
        assert(p(list[i]));
        assert(p(out[i]));
        if j == out.len() {
            assert(!p(out[i]));
        }
    }
    if id == call.call_id && j == out.len() {
        assert(!p(out[at]));
    }
    if j < out.len() && i == list.len() && id != call.call_id {
        assert(p(out[j]));
        if j < list.len() {
            assert(!p(list[j]));
        }
    }
}

proof fn lemma_steps_waiting(
    list: Seq<AssistantFoldView>,
    nodes: Seq<ChatNodeView>,
    scope: Scope,
    seq: i64,
    tools: Seq<ToolFoldView>,
    seqs: Set<i64>,
)
    requires
        steps_fine(list, seqs),
        nodes_fine(nodes, seqs),
        seqs.contains(seq),
        waiting(nodes, tools),
    ensures
        waiting(crate::store::fold::close_steps(list, nodes, scope, seq).1, tools),
    decreases list.len(),
{
    if list.len() > 0 {
        let rest = list.drop_last();
        let a = list.last();
        lemma_steps_waiting(rest, nodes, scope, seq, tools, seqs);
        lemma_close_steps(rest, nodes, scope, seq, seqs);
        let shown = crate::store::fold::close_steps(rest, nodes, scope, seq).1;
        lemma_put_waiting(shown, crate::store::fold::interrupted_step(a, seq), tools);
    }
}

proof fn lemma_calls_waiting(
    list: Seq<ToolFoldView>,
    nodes: Seq<ChatNodeView>,
    scope: Scope,
    all: Seq<ToolFoldView>,
    seqs: Set<i64>,
)
    requires
        calls_fine(list, seqs),
        nodes_fine(nodes, seqs),
        waiting(nodes, all),
    ensures
        waiting(crate::store::fold::close_calls(list, nodes, scope).1, all),
    decreases list.len(),
{
    if list.len() > 0 {
        let rest = list.drop_last();
        let t = list.last();
        assert(list[list.len() - 1] == t);
        lemma_calls_waiting(rest, nodes, scope, all, seqs);
        lemma_close_calls(rest, nodes, scope, seqs);
        let shown = crate::store::fold::close_calls(rest, nodes, scope).1;
        if scope.has(t.turn, t.step) && t.result is None {
            lemma_put_waiting(shown, crate::store::fold::interrupted_call(t, t.call->0), all);
        }
    }
}

proof fn lemma_boundary_told(f: FoldView, scope: Scope, seq: i64, seqs: Set<i64>)
    requires
        fold_fine(f, seqs),
        seqs.contains(seq),
        told_calls(f),
        waiting(f.nodes, f.tools),
    ensures
        told_calls(crate::store::fold::fold_boundary(f, scope, seq)),
        waiting(
            crate::store::fold::fold_boundary(f, scope, seq).nodes,
            crate::store::fold::fold_boundary(f, scope, seq).tools,
        ),
        crate::store::fold::fold_boundary(f, scope, seq).calls == f.calls,
{
    let out = crate::store::fold::fold_boundary(f, scope, seq);
    lemma_steps_waiting(f.assistants, f.nodes, scope, seq, f.tools, seqs);
    lemma_close_steps(f.assistants, f.nodes, scope, seq, seqs);
    let shown = crate::store::fold::close_steps(f.assistants, f.nodes, scope, seq).1;
    lemma_calls_waiting(f.tools, shown, scope, f.tools, seqs);
    lemma_close_calls(f.tools, shown, scope, seqs);
    assert forall|i: int| 0 <= i < out.tools.len() implies ((#[trigger] out.tools[i]).call is Some
        <==> is_known(out, out.tools[i].call_id)) by {
        assert(f.tools.contains(out.tools[i]));
        let k = choose|k: int| 0 <= k < f.tools.len() && f.tools[k] == out.tools[i];
        assert(f.tools[k].call is Some <==> is_known(f, f.tools[k].call_id));
    }
    assert forall|i: int| 0 <= i < out.nodes.len() && lacks_call(#[trigger] out.nodes[i]) implies waits(
        out.tools,
        out.nodes[i].key,
    ) by {
        let k = choose|k: int|
            0 <= k < f.tools.len() && (#[trigger] f.tools[k]).call_id == out.nodes[i].key
                && f.tools[k].call is None;
        lemma_settled_stays(f.tools, shown, scope, k);
        let j = choose|j: int| 0 <= j < out.tools.len() && out.tools[j] == f.tools[k];
        assert(out.tools[j].call is None);
    }
}

proof fn lemma_call_told(
    f: FoldView,
    e: StoredEventView,
    turn: i64,
    step: i64,
    call_id: Seq<char>,
    name: Seq<char>,
    arguments: Seq<char>,
    seqs: Set<i64>,
)
    requires
        fold_fine(f, seqs),
        told_calls(f),
        waiting(f.nodes, f.tools),
    ensures
        ({
            let out = crate::store::fold::fold_tool_call(
                f,
                e,
                turn,
                step,
                call_id,
                name,
                arguments,
            );
            &&& told_calls(out)
            &&& waiting(out.nodes, out.tools)
            &&& is_known(out, call_id)
            &&& forall|id: Seq<char>| #[trigger] is_known(f, id) ==> is_known(out, id)
        }),
{
    let out = crate::store::fold::fold_tool_call(f, e, turn, step, call_id, name, arguments);
    let running = crate::store::fold::running_call(e, turn, step, call_id, name, arguments);
    let p = |t: ToolFoldView| t.call_id == call_id;
    crate::seqs::lemma_first_index_holds(f.tools, p);
    let at = crate::store::fold::tool_index(f.tools, call_id);
    assert forall|id: Seq<char>| #[trigger] is_known(f, id) implies is_known(out, id) by {
        lemma_known_after(f.calls, running, id);
    }
    lemma_known_after(f.calls, running, call_id);
    if at < f.tools.len() {
        assert(p(f.tools[at]));
    }
    assert(is_known(out, call_id));
    if !(at < f.tools.len() && f.tools[at].call is Some) {
        assert forall|i: int| 0 <= i < out.tools.len() implies ((
        #[trigger] out.tools[i]).call is Some <==> is_known(out, out.tools[i].call_id)) by {
            lemma_known_after(f.calls, running, out.tools[i].call_id);
            if i != at {
                assert(out.tools[i] == f.tools[i]);
                if at < f.tools.len() {
                    if i < at {
                        assert(f.tools[i].call_id != f.tools[at].call_id);
                    } else {
                        assert(f.tools[at].call_id != f.tools[i].call_id);
                    }
                } else {
                    assert(!p(f.tools[i]));
                }
            }
        }
        if at < f.tools.len() {
            let t = crate::store::fold::with_call(f.tools[at], running);
            lemma_put_members(f.nodes, crate::store::fold::settled_call(t));
        }
        assert forall|i: int| 0 <= i < out.nodes.len() && lacks_call(
            #[trigger] out.nodes[i],
        ) implies waits(out.tools, out.nodes[i].key) by {
            assert(f.nodes.contains(out.nodes[i]));
            let n = choose|n: int| 0 <= n < f.nodes.len() && f.nodes[n] == out.nodes[i];
            assert(lacks_call(f.nodes[n]));
            let k = choose|k: int|
                0 <= k < f.tools.len() && (#[trigger] f.tools[k]).call_id == out.nodes[i].key
                    && f.tools[k].call is None;
            if at < f.tools.len() {
                assert(k != at);
            }
            assert(out.tools[k] == f.tools[k]);
        }
    }
}

proof fn lemma_result_told(
    f: FoldView,
    e: StoredEventView,
    turn: i64,
    step: i64,
    message: ToolResultMessageView,
    error: Option<ToolErrorIdentityView>,
    meta: Option<JsonView>,
    seqs: Set<i64>,
)
    requires
        fold_fine(f, seqs),
        told_calls(f),
        waiting(f.nodes, f.tools),
    ensures
        ({
            let out = crate::store::fold::fold_tool_result(
                f,
                e,
                turn,
                step,
                message,
                error,
                meta,
            );
            &&& told_calls(out)
            &&& waiting(out.nodes, out.tools)
            &&& out.calls == f.calls
        }),
{
    let call_id = match message.source.get_str("callId"@) {
        Some(id) => id,
        None => Seq::empty(),
    };
    let out = crate::store::fold::fold_tool_result(f, e, turn, step, message, error, meta);
    let p = |t: ToolFoldView| t.call_id == call_id;
    crate::seqs::lemma_first_index_holds(f.tools, p);
    let at = crate::store::fold::tool_index(f.tools, call_id);
    if at < f.tools.len() {
        assert(p(f.tools[at]));
    }
    let t = out.tools[at];
    assert(t.call_id == call_id);
    assert forall|i: int| 0 <= i < out.tools.len() implies ((#[trigger] out.tools[i]).call is Some
        <==> is_known(out, out.tools[i].call_id)) by {
        if i < f.tools.len() {
            assert(f.tools[i].call is Some <==> is_known(f, f.tools[i].call_id));
        }
    }
    assert forall|i: int| 0 <= i < f.nodes.len() && lacks_call(#[trigger] f.nodes[i]) implies waits(
        out.tools,
        f.nodes[i].key,
    ) by {
        let k = choose|k: int|
            0 <= k < f.tools.len() && (#[trigger] f.tools[k]).call_id == f.nodes[i].key
                && f.tools[k].call is None;
        assert(out.tools[k].call is None && out.tools[k].call_id == f.tools[k].call_id);
    }
    lemma_put_waiting(f.nodes, crate::store::fold::settled_call(t), out.tools);
}

proof fn lemma_user_told(f: FoldView, e: StoredEventView, message: UserMessageView, seqs: Set<i64>)
    requires
        fold_fine(f, seqs),
        seqs.contains(e.event.seq),
        told_calls(f),
        waiting(f.nodes, f.tools),
    ensures
        ({
            let out = crate::store::fold::fold_user_message(f, e, message);
            &&& told_calls(out)
            &&& waiting(out.nodes, out.tools)
            &&& out.calls == f.calls
        }),
{
    let node = crate::store::fold::user_node(e, message);
    lemma_put_waiting(f.nodes, node, f.tools);
    lemma_put_waiting(f.nodes, crate::store::fold::unknown_node(e), f.tools);
    lemma_boundary_told(f, Scope::All, e.event.seq, seqs);
    lemma_boundary(f, Scope::All, e.event.seq, seqs);
    let closed = crate::store::fold::fold_boundary(f, Scope::All, e.event.seq);
    lemma_put_waiting(closed.nodes, node, closed.tools);
    let marked = crate::store::fold::fold_checkpoint(f, e.event.seq, message);
    if message.source.get_str("compactionId"@) is Some {
        let id = message.source.get_str("compactionId"@)->0;
        let list = crate::store::fold::with_compaction(f.compactions, id);
        let i = crate::store::fold::compaction_index(f.compactions, id);
        let marker = crate::store::fold::compaction_node(list[i], e.event.seq);
        lemma_put(f.nodes, marker, seqs);
        lemma_put_waiting(f.nodes, marker, f.tools);
    }
    lemma_put_waiting(marked.nodes, node, f.tools);
}

#[verifier::spinoff_prover]
proof fn lemma_step_told(f: FoldView, e: StoredEventView, seqs: Set<i64>)
    requires
        fold_fine(f, seqs),
        seqs.contains(e.event.seq),
        told_calls(f),
        waiting(f.nodes, f.tools),
    ensures
        told_calls(crate::store::fold::fold_step(f, e)),
        waiting(
            crate::store::fold::fold_step(f, e).nodes,
            crate::store::fold::fold_step(f, e).tools,
        ),
        forall|id: Seq<char>|
            #[trigger] is_known(f, id) ==> is_known(crate::store::fold::fold_step(f, e), id),
        forall|id: Seq<char>|
            #[trigger] calls_it(e, id) ==> is_known(crate::store::fold::fold_step(f, e), id),
{
    match e.data {
        EventDataView::Unknown { ignorable } => {
            lemma_put_waiting(f.nodes, crate::store::fold::unknown_node(e), f.tools);
        },
        EventDataView::TurnEnd { turn, reason } => {
            lemma_boundary_told(f, Scope::Turn(turn), e.event.seq, seqs);
            lemma_boundary(f, Scope::Turn(turn), e.event.seq, seqs);
            let closed = crate::store::fold::fold_boundary(f, Scope::Turn(turn), e.event.seq);
            let out = crate::store::fold::fold_step(f, e);
            if reason is Error || reason is MaxTokens {
                let node = out.nodes.last();
                assert(out.nodes == crate::store::fold::put_node(closed.nodes, node));
                lemma_put_waiting(closed.nodes, node, closed.tools);
            }
        },
        EventDataView::StepEnd { turn, step } => {
            lemma_boundary_told(f, Scope::Step(turn, step), e.event.seq, seqs);
        },
        EventDataView::UserMessage(message) => lemma_user_told(f, e, message, seqs),
        EventDataView::AssistantMessage { turn, step, message, usage } => {
            let out = crate::store::fold::fold_step(f, e);
            if out.nodes != f.nodes {
                let node = out.nodes.last();
                assert(out.nodes == crate::store::fold::put_node(f.nodes, node));
                lemma_put_waiting(f.nodes, node, f.tools);
            }
        },
        EventDataView::ToolCall { turn, step, call_id, name, arguments } => {
            lemma_call_told(f, e, turn, step, call_id, name, arguments, seqs);
        },
        EventDataView::ToolResult { turn, step, message, error, meta } => {
            lemma_result_told(f, e, turn, step, message, error, meta, seqs);
        },
        _ => {},
    }
}

proof fn lemma_window_told(events: Seq<StoredEventView>)
    ensures
        calls_told(crate::store::fold::fold_window(events), events),
    decreases events.len(),
{
    let f = crate::store::fold::fold_window(events);
    if events.len() > 0 {
        let rest = events.drop_last();
        let before = crate::store::fold::fold_window(rest);
        lemma_window_told(rest);
        law_window_fine(rest);
        let seqs = window_seqs(rest).insert(events.last().event.seq);
        lemma_widen(before, window_seqs(rest), seqs);
        lemma_step_told(before, events.last(), seqs);
        assert forall|i: int, id: Seq<char>|
            0 <= i < events.len() && #[trigger] calls_it(events[i], id) implies is_known(f, id) by {
            if i < rest.len() {
                assert(calls_it(rest[i], id));
                assert(is_known(before, id));
            }
        }
    }
}

proof fn lemma_running_steps_waiting(
    nodes: Seq<ChatNodeView>,
    list: Seq<AssistantFoldView>,
    tools: Seq<ToolFoldView>,
    seqs: Set<i64>,
)
    requires
        nodes_fine(nodes, seqs),
        steps_fine(list, seqs),
        waiting(nodes, tools),
    ensures
        waiting(crate::store::fold::running_steps(nodes, list), tools),
    decreases list.len(),
{
    if list.len() > 0 {
        let rest = list.drop_last();
        lemma_running_steps_waiting(nodes, rest, tools, seqs);
        lemma_running_steps(nodes, rest, seqs);
        let shown = crate::store::fold::running_steps(nodes, rest);
        let out = crate::store::fold::running_steps(nodes, list);
        if out != shown {
            lemma_put_waiting(shown, out.last(), tools);
        }
    }
}

proof fn lemma_running_calls_waiting(
    nodes: Seq<ChatNodeView>,
    list: Seq<ToolFoldView>,
    tools: Seq<ToolFoldView>,
    seqs: Set<i64>,
)
    requires
        nodes_fine(nodes, seqs),
        calls_fine(list, seqs),
        waiting(nodes, tools),
    ensures
        waiting(crate::store::fold::running_calls(nodes, list), tools),
    decreases list.len(),
{
    if list.len() > 0 {
        let rest = list.drop_last();
        lemma_running_calls_waiting(nodes, rest, tools, seqs);
        lemma_running_calls(nodes, rest, seqs);
        let shown = crate::store::fold::running_calls(nodes, rest);
        let out = crate::store::fold::running_calls(nodes, list);
        if out != shown {
            lemma_put_waiting(shown, out.last(), tools);
        }
    }
}

/// A tool node has its call wherever the window has it: a node lacks its call only where no
/// event of the window is that call, whichever came first, the call or the result.
pub proof fn law_call_backfilled(events: Seq<StoredEventView>, i: int, j: int)
    requires
        0 <= i < crate::store::fold::chat_nodes(events).len(),
        lacks_call(crate::store::fold::chat_nodes(events)[i]),
        0 <= j < events.len(),
    ensures
        !calls_it(events[j], crate::store::fold::chat_nodes(events)[i].key),
{
    let f = crate::store::fold::fold_window(events);
    let seqs = window_seqs(events);
    lemma_window_told(events);
    law_window_fine(events);
    lemma_running_steps_waiting(f.nodes, f.assistants, f.tools, seqs);
    lemma_running_steps(f.nodes, f.assistants, seqs);
    let shown = crate::store::fold::running_steps(f.nodes, f.assistants);
    lemma_running_calls_waiting(shown, f.tools, f.tools, seqs);
    lemma_running_calls(shown, f.tools, seqs);
    let all = crate::store::fold::finished(f);
    lemma_sorted_fine(all, seqs);
    let node = crate::store::fold::chat_nodes(events)[i];
    assert(all.contains(node));
    let n = choose|n: int| 0 <= n < all.len() && all[n] == node;
    assert(lacks_call(all[n]));
    let k = choose|k: int|
        0 <= k < f.tools.len() && (#[trigger] f.tools[k]).call_id == node.key
            && f.tools[k].call is None;
    assert(!is_known(f, f.tools[k].call_id));
}

/// A call and its result make one settled node that holds both, in whichever order they come.
pub proof fn law_either_order(
    f: FoldView,
    c: StoredEventView,
    r: StoredEventView,
    turn: i64,
    step: i64,
    call_id: Seq<char>,
    name: Seq<char>,
    arguments: Seq<char>,
    message: ToolResultMessageView,
    error: Option<ToolErrorIdentityView>,
    meta: Option<JsonView>,
)
    requires
        crate::store::fold::tool_index(f.tools, call_id) == f.tools.len(),
        !is_known(f, call_id),
        c.data == (EventDataView::ToolCall { turn, step, call_id, name, arguments }),
        r.data == (EventDataView::ToolResult { turn, step, message, error, meta }),
        message.source.get_str("callId"@) == Some(call_id),
    ensures
        ({
            let call = crate::store::fold::running_call(c, turn, step, call_id, name, arguments);
            let result = crate::store::fold::settled_result(
                r,
                call_id,
                Some(call),
                message,
                error,
                meta,
            );
            let data = NodeDataView::Tool {
                call: Some(call),
                result: Some(result),
                interrupted: false,
            };
            let first = crate::store::fold::fold_step(crate::store::fold::fold_step(f, c), r);
            let last = crate::store::fold::fold_step(crate::store::fold::fold_step(f, r), c);
            &&& first.nodes.last().key == call_id && first.nodes.last().data == data
            &&& last.nodes.last().key == call_id && last.nodes.last().data == data
        }),
{
    let p = |t: ToolFoldView| t.call_id == call_id;
    crate::seqs::lemma_first_index_holds(f.tools, p);
    let called = crate::store::fold::fold_step(f, c);
    let settled = crate::store::fold::fold_step(f, r);
    let n = f.tools.len() as int;
    assert forall|k: int| 0 <= k < n implies !p(#[trigger] called.tools[k]) by {
        assert(!p(f.tools[k]));
    }
    assert forall|k: int| 0 <= k < n implies !p(#[trigger] settled.tools[k]) by {
        assert(!p(f.tools[k]));
    }
    assert(p(called.tools[n]) && p(settled.tools[n]));
    crate::seqs::lemma_first_index(called.tools, p, n);
    crate::seqs::lemma_first_index(settled.tools, p, n);
    let call = crate::store::fold::running_call(c, turn, step, call_id, name, arguments);
    assert(crate::store::fold::backfilled(
        crate::store::fold::settled_result(r, call_id, None, message, error, meta),
        call,
    ) == crate::store::fold::settled_result(r, call_id, Some(call), message, error, meta));
}

} // verus!
