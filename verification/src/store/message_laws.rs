//! What the events of a session become in the chat, event by event.

use vstd::prelude::*;

use crate::store::event_data::{
    AssistantMessageView, ContentBlockView, EventDataView, StreamChunkView, SurfaceOp, TokenUsage,
    ToolErrorIdentityView, ToolResultMessageView, TurnEndReasonView, UserMessageView,
};
use crate::json::JsonView;
use crate::store::fold::{AssistantFoldView, CompactionSummaryView, FoldView, ToolFoldView};
use crate::store::node::{
    AssistantBlockView, ChatNodeKind, ChatNodeView, NodeDataView, UserNodeKind,
};
use crate::store::stored::StoredEventView;

verus! {

/// Whether a content block of a message is one that assistants show: text, reasoning or a tool
/// call.
pub open spec fn is_shown(block: ContentBlockView) -> bool {
    block is Text || block is Reasoning || block is ToolCall
}

/// Whether a shown block is of the kind of a content block and holds what that holds.
pub open spec fn shows(shown: AssistantBlockView, block: ContentBlockView) -> bool {
    match block {
        ContentBlockView::Text { text } => shown is Text && shown->Text_text == text,
        ContentBlockView::Reasoning { text } => shown is Reasoning && shown->Reasoning_text
            == text,
        ContentBlockView::ToolCall { id, name, arguments } => shown is ToolCall
            && shown->ToolCall_call_id == id && shown->ToolCall_name == name
            && shown->ToolCall_args_raw == arguments,
        _ => false,
    }
}

/// Whether an event replaces a range of the surface.
pub open spec fn is_replacing(e: StoredEventView) -> bool {
    crate::store::event_data::surface_op(e.event.surface_op) matches Some(SurfaceOp::Replace { .. })
}

/// An event replaces where its surface marker is an object whose `op` is `replace` and that
/// names where the range starts and ends; the marker `append`, or none, does not replace.
pub proof fn law_replacing(e: StoredEventView)
    ensures
        e.event.surface_op is None ==> !is_replacing(e),
        e.event.surface_op == Some(JsonView::Str("append"@)) ==> !is_replacing(e),
        is_replacing(e) ==> {
            let v = e.event.surface_op->0;
            &&& v.get_str("op"@) == Some("replace"@)
            &&& v.get_i64("start"@) is Some
            &&& v.get_i64("end"@) is Some
        },
        e.event.surface_op is Some && e.event.surface_op->0 is Object
            && e.event.surface_op->0.get_str("op"@) == Some("replace"@)
            && e.event.surface_op->0.get_i64("start"@) is Some
            && e.event.surface_op->0.get_i64("end"@) is Some ==> is_replacing(e),
{
}

proof fn lemma_display_blocks(content: Seq<ContentBlockView>)
    ensures
        ({
            let kept = content.filter(|b: ContentBlockView| is_shown(b));
            let blocks = crate::store::fold::display_blocks(content);
            &&& blocks.len() == kept.len()
            &&& forall|k: int| 0 <= k < kept.len() ==> #[trigger] shows(blocks[k], kept[k])
        }),
    decreases content.len(),
{
    reveal(Seq::filter);
    if content.len() > 0 {
        lemma_display_blocks(content.drop_last());
        let p = |b: ContentBlockView| is_shown(b);
        let was = content.drop_last().filter(p);
        let kept = content.filter(p);
        let before = crate::store::fold::display_blocks(content.drop_last());
        let blocks = crate::store::fold::display_blocks(content);
        assert forall|k: int| 0 <= k < kept.len() implies #[trigger] shows(blocks[k], kept[k]) by {
            if k < was.len() {
                assert(shows(before[k], was[k]));
                assert(kept[k] == was[k] && blocks[k] == before[k]);
            }
        }
    }
}

/// A settled assistant message is published as it is: its node has the text, reasoning and
/// tool-call blocks of the message, all of them, in their order, of their kinds and with their
/// texts, and the usage that the event reports. A message without such a block publishes
/// nothing.
pub proof fn law_settled_message(
    f: FoldView,
    e: StoredEventView,
    turn: i64,
    step: i64,
    message: AssistantMessageView,
    usage: Option<TokenUsage>,
)
    requires
        e.data == (EventDataView::AssistantMessage { turn, step, message, usage }),
        !is_replacing(e),
    ensures
        ({
            let kept = message.content.filter(|b: ContentBlockView| is_shown(b));
            let out = crate::store::fold::fold_step(f, e);
            if kept.len() == 0 {
                out == f
            } else {
                &&& out.nodes.len() > 0
                &&& out.nodes.last().kind == ChatNodeKind::Assistant
                &&& out.nodes.last().anchor_seq == e.event.seq
                &&& out.nodes.last().data matches NodeDataView::Assistant {
                    turn: t,
                    step: s,
                    blocks,
                    usage: u,
                    finalized,
                    interrupted,
                }
                &&& t == turn && s == step && u == usage && finalized && !interrupted
                &&& blocks.len() == kept.len()
                &&& forall|k: int| 0 <= k < kept.len() ==> #[trigger] shows(blocks[k], kept[k])
            }
        }),
{
    lemma_display_blocks(message.content);
}

/// The key of an assistant node tells its turn and step: no other step has it.
pub proof fn law_step_keys_differ(turn: i64, step: i64, t: i64, s: i64)
    requires
        crate::store::fold::assistant_node_key(turn, step)
            == crate::store::fold::assistant_node_key(t, s),
    ensures
        turn == t && step == s,
{
    reveal_strlit(":");
    let a = crate::text::int_decimal(turn as int);
    let b = crate::text::int_decimal(step as int);
    let c = crate::text::int_decimal(t as int);
    let d = crate::text::int_decimal(s as int);
    let x = crate::store::fold::assistant_node_key(turn, step);
    let y = crate::store::fold::assistant_node_key(t, s);
    crate::text_laws::law_int_decimal(turn as int, t as int);
    crate::text_laws::law_int_decimal(step as int, s as int);
    crate::text_laws::law_int_decimal(t as int, turn as int);
    assert(x[a.len() as int] == ':');
    assert(y[c.len() as int] == ':');
    if a.len() < c.len() {
        assert(y[a.len() as int] == c[a.len() as int]);
    }
    if c.len() < a.len() {
        assert(x[c.len() as int] == a[c.len() as int]);
    }
    assert(x.take(a.len() as int) =~= a);
    assert(y.take(c.len() as int) =~= c);
    assert(x.skip(a.len() as int + 1) =~= b);
    assert(y.skip(c.len() as int + 1) =~= d);
}

/// A settled assistant message is in the chat: the nodes of a window that ends with it hold its
/// node, with all the blocks that assistants show. This is of a window in which no tool call
/// has the node's key for its id.
pub proof fn law_settled_message_is_in_the_chat(
    events: Seq<StoredEventView>,
    e: StoredEventView,
    turn: i64,
    step: i64,
    message: AssistantMessageView,
    usage: Option<TokenUsage>,
) -> (at: int)
    requires
        e.data == (EventDataView::AssistantMessage { turn, step, message, usage }),
        !is_replacing(e),
        message.content.filter(|b: ContentBlockView| is_shown(b)).len() > 0,
        forall|i: int|
            0 <= i < crate::store::fold::fold_window(events).tools.len() ==> (
            #[trigger] crate::store::fold::fold_window(events).tools[i]).call_id
                != crate::store::fold::assistant_node_key(turn, step),
    ensures
        ({
            let kept = message.content.filter(|b: ContentBlockView| is_shown(b));
            let nodes = crate::store::fold::chat_nodes(events.push(e));
            &&& 0 <= at < nodes.len()
            &&& nodes[at].kind == ChatNodeKind::Assistant
            &&& nodes[at].data matches NodeDataView::Assistant {
                turn: t,
                step: s,
                blocks,
                usage: u,
                finalized,
                interrupted,
            }
            &&& t == turn && s == step && u == usage && finalized && !interrupted
            &&& blocks.len() == kept.len()
            &&& forall|k: int| 0 <= k < kept.len() ==> #[trigger] shows(blocks[k], kept[k])
        }),
{
    broadcast use vstd::seq_lib::group_to_multiset_ensures;

    let f = crate::store::fold::fold_window(events);
    let all = events.push(e);
    assert(all.drop_last() =~= events);
    let out = crate::store::fold::fold_window(all);
    assert(out == crate::store::fold::fold_step(f, e));
    law_settled_message(f, e, turn, step, message, usage);
    lemma_display_blocks(message.content);
    crate::store::fold_laws::law_window_fine(events);
    let key = crate::store::fold::assistant_node_key(turn, step);
    let n = out.nodes.last();
    assert(n.key == key);
    assert(out.nodes.contains(n));
    let p = |a: AssistantFoldView| a.turn == turn && a.step == step;
    crate::seqs::lemma_first_index_holds(f.assistants, p);
    let i = crate::store::fold::assistant_index(f.assistants, turn, step);
    assert forall|k: int| 0 <= k < out.assistants.len() implies
        crate::store::fold::assistant_node_key(
        (#[trigger] out.assistants[k]).turn,
        out.assistants[k].step,
    ) != key by {
        let a = out.assistants[k];
        if crate::store::fold::assistant_node_key(a.turn, a.step) == key {
            law_step_keys_differ(a.turn, a.step, turn, step);
            if i < f.assistants.len() {
                assert(p(f.assistants[i]));
                if k < i {
                    assert(out.assistants[k] == f.assistants[k]);
                } else {
                    assert(out.assistants[k] == f.assistants[k + 1]);
                }
            } else {
                assert(!p(f.assistants[k]));
            }
        }
    }
    crate::store::call_laws::lemma_running_keeps(out.nodes, out.assistants, n);
    let shown = crate::store::fold::running_steps(out.nodes, out.assistants);
    assert(out.tools == f.tools);
    crate::store::call_laws::lemma_running_calls_keep(shown, out.tools, n);
    let done = crate::store::fold::finished(out);
    crate::store::fold_laws::law_sort(done);
    let nodes = crate::store::fold::chat_nodes(all);
    assert(done.to_multiset().count(n) > 0);
    assert(nodes.to_multiset().count(n) > 0);
    assert(nodes.contains(n));
    choose|at: int| 0 <= at < nodes.len() && nodes[at] == n
}

/// A user message is published as it is: its node has the message's id, content and source, and
/// it is a prompt of the user where and only where its source says so.
pub proof fn law_user_message(f: FoldView, e: StoredEventView, message: UserMessageView)
    requires
        e.data == EventDataView::UserMessage(message),
        !is_replacing(e),
    ensures
        ({
            let out = crate::store::fold::fold_step(f, e);
            &&& out.nodes.len() > 0
            &&& out.nodes.last().key == message.id
            &&& out.nodes.last().kind == ChatNodeKind::User
            &&& out.nodes.last().anchor_seq == e.event.seq
            &&& out.nodes.last().data matches NodeDataView::User {
                kind,
                message_id,
                content,
                source,
            }
            &&& message_id == message.id && content == message.content && source == message.source
            &&& kind == UserNodeKind::User <==> message.source.get_str("kind"@) == Some("user"@)
        }),
{
}

/// Whether a node is a notice that a turn failed or ran out of tokens.
pub open spec fn is_notice(node: ChatNodeView) -> bool {
    node.data is TurnError || node.data is TurnMaxTokens
}

proof fn lemma_steps_notices(
    list: Seq<AssistantFoldView>,
    nodes: Seq<ChatNodeView>,
    scope: crate::store::fold::Scope,
    seq: i64,
)
    ensures
        forall|n: ChatNodeView|
            is_notice(n) && #[trigger] crate::store::fold::close_steps(
                list,
                nodes,
                scope,
                seq,
            ).1.contains(n) ==> nodes.contains(n),
    decreases list.len(),
{
    if list.len() > 0 {
        lemma_steps_notices(list.drop_last(), nodes, scope, seq);
        let shown = crate::store::fold::close_steps(list.drop_last(), nodes, scope, seq).1;
        let out = crate::store::fold::close_steps(list, nodes, scope, seq).1;
        if out != shown {
            lemma_put_from(shown, out.last());
        }
    }
}

proof fn lemma_put_from(nodes: Seq<ChatNodeView>, node: ChatNodeView)
    ensures
        forall|n: ChatNodeView| #[trigger]
            crate::store::fold::put_node(nodes, node).contains(n) ==> n == node || nodes.contains(n),
        crate::store::fold::put_node(nodes, node).len() > 0,
        crate::store::fold::put_node(nodes, node).last() == node,
{
    let out = crate::store::fold::put_node(nodes, node);
    let p = |m: ChatNodeView| m.key == node.key;
    crate::seqs::lemma_first_index_holds(nodes, p);
    let i = crate::store::fold::node_index(nodes, node.key);
    assert forall|n: ChatNodeView| #[trigger] out.contains(n) implies n == node || nodes.contains(
        n,
    ) by {
        let k = choose|k: int| 0 <= k < out.len() && out[k] == n;
        if k < out.len() - 1 {
            if i < nodes.len() && k >= i {
                assert(nodes[k + 1] == n);
            } else {
                assert(nodes[k] == n);
            }
        }
    }
}

proof fn lemma_calls_notices(
    list: Seq<ToolFoldView>,
    nodes: Seq<ChatNodeView>,
    scope: crate::store::fold::Scope,
)
    ensures
        forall|n: ChatNodeView|
            is_notice(n) && #[trigger] crate::store::fold::close_calls(
                list,
                nodes,
                scope,
            ).1.contains(n) ==> nodes.contains(n),
    decreases list.len(),
{
    if list.len() > 0 {
        lemma_calls_notices(list.drop_last(), nodes, scope);
        let shown = crate::store::fold::close_calls(list.drop_last(), nodes, scope).1;
        let out = crate::store::fold::close_calls(list, nodes, scope).1;
        if out != shown {
            lemma_put_from(shown, out.last());
        }
    }
}

/// A turn that failed leaves a notice with the failure's message and code, and one that ran out
/// of tokens a notice that it did; a turn that ended in any other way leaves no notice.
pub proof fn law_turn_end_notice(f: FoldView, e: StoredEventView, turn: i64, reason: TurnEndReasonView)
    requires
        e.data == (EventDataView::TurnEnd { turn, reason }),
    ensures
        ({
            let out = crate::store::fold::fold_step(f, e);
            match reason {
                TurnEndReasonView::Error { error } => {
                    &&& out.nodes.len() > 0
                    &&& out.nodes.last().kind == ChatNodeKind::TurnError
                    &&& out.nodes.last().anchor_seq == e.event.seq
                    &&& out.nodes.last().data matches NodeDataView::TurnError {
                        turn: t,
                        message,
                        code,
                    }
                    &&& t == turn && message == error.message && code == Some(error.code)
                },
                TurnEndReasonView::MaxTokens => {
                    &&& out.nodes.len() > 0
                    &&& out.nodes.last().kind == ChatNodeKind::TurnMaxTokens
                    &&& out.nodes.last().anchor_seq == e.event.seq
                    &&& out.nodes.last().data matches NodeDataView::TurnMaxTokens { turn: t }
                    &&& t == turn
                },
                _ => forall|n: ChatNodeView| #[trigger]
                    out.nodes.contains(n) && is_notice(n) ==> f.nodes.contains(n),
            }
        }),
{
    let scope = crate::store::fold::Scope::Turn(turn);
    lemma_steps_notices(f.assistants, f.nodes, scope, e.event.seq);
    let shown = crate::store::fold::close_steps(f.assistants, f.nodes, scope, e.event.seq).1;
    lemma_calls_notices(f.tools, shown, scope);
}

/// A tool result is published with what it says: its content, whether it failed, the failure's
/// identity, the extra data and the time at which it came, under the id of its call. It is not
/// interrupted.
pub proof fn law_tool_result(
    f: FoldView,
    e: StoredEventView,
    turn: i64,
    step: i64,
    message: ToolResultMessageView,
    error: Option<ToolErrorIdentityView>,
    meta: Option<JsonView>,
    call_id: Seq<char>,
)
    requires
        e.data == (EventDataView::ToolResult { turn, step, message, error, meta }),
        message.source.get_str("callId"@) == Some(call_id),
    ensures
        ({
            let out = crate::store::fold::fold_step(f, e);
            &&& out.nodes.len() > 0
            &&& out.nodes.last().key == call_id || exists|k: int|
                0 <= k < f.tools.len() && (#[trigger] f.tools[k]).call_id == call_id
            &&& out.nodes.last().kind == ChatNodeKind::Tool
            &&& out.nodes.last().data matches NodeDataView::Tool { result, interrupted, .. }
            &&& !interrupted
            &&& result matches Some(r)
            &&& r.call_id == call_id && r.error == error && r.meta == meta && r.result_time == Some(
                e.event.time,
            )
            &&& if message.content.len() > 0 && message.content[0] is ToolResult {
                &&& r.content == message.content[0]->ToolResult_content
                &&& r.is_error <==> message.content[0]->ToolResult_is_error == Some(true)
            } else {
                r.content.len() == 0 && !r.is_error
            }
        }),
{
    let p = |t: ToolFoldView| t.call_id == call_id;
    crate::seqs::lemma_first_index_holds(f.tools, p);
    let i = crate::store::fold::tool_index(f.tools, call_id);
    if i < f.tools.len() {
        assert(p(f.tools[i]));
    }
}

/// A block that has ended is shown as its content block says; a block of a kind that assistants
/// do not show leaves no block. A block that has begun is empty and of its kind.
pub proof fn law_block_bounds(a: AssistantFoldView, index: i64, block: ContentBlockView)
    requires
        0 <= index < crate::store::fold::MAX_ASSISTANT_BLOCKS,
    ensures
        ({
            let ended = crate::store::fold::after_chunk(
                a,
                (StreamChunkView::BlockEnd { index, block }),
            ).blocks;
            &&& index < ended.len()
            &&& if is_shown(block) {
                ended[index as int] matches Some(b) && shows(b, block)
            } else {
                ended[index as int] is None
            }
        }),
        crate::store::fold::after_chunk(
            a,
            (StreamChunkView::BlockStart { index, block_type: "text"@ }),
        ).blocks[index as int] == Some(AssistantBlockView::Text { text: Seq::empty() }),
        crate::store::fold::after_chunk(
            a,
            (StreamChunkView::BlockStart { index, block_type: "reasoning"@ }),
        ).blocks[index as int] == Some(AssistantBlockView::Reasoning { text: Seq::empty() }),
        crate::store::fold::after_chunk(
            a,
            (StreamChunkView::BlockStart { index, block_type: "tool-call"@ }),
        ).blocks[index as int] == Some(
            AssistantBlockView::ToolCall {
                call_id: Seq::empty(),
                name: Seq::empty(),
                args_raw: Seq::empty(),
            },
        ),
{
    reveal_strlit("text");
    reveal_strlit("reasoning");
    reveal_strlit("tool-call");
    assert("text"@.len() == 4 && "reasoning"@.len() == 9 && "tool-call"@.len() == 9);
    assert("reasoning"@[0] == 'r' && "tool-call"@[0] == 't');
}

/// A usage report is the step's usage from then on and changes no block; the end of a stream
/// changes nothing.
pub proof fn law_usage_chunk(a: AssistantFoldView, usage: TokenUsage, finish: StreamChunkView)
    requires
        finish is Finish,
    ensures
        ({
            let out = crate::store::fold::after_chunk(a, (StreamChunkView::Usage { usage }));
            &&& out.usage == Some(usage)
            &&& out.blocks == a.blocks
            &&& out.turn == a.turn && out.step == a.step && out.anchor_seq == a.anchor_seq
        }),
        crate::store::fold::after_chunk(a, finish) == a,
{
}

/// Whether a text has a character that is not white space.
pub open spec fn has_ink(text: Seq<char>) -> bool {
    exists|i: int| 0 <= i < text.len() && !crate::text::white(#[trigger] text[i])
}

/// A block has something to read where it is text or reasoning with a character that is not
/// white space; a tool call has nothing to read.
pub proof fn law_visible_text(block: AssistantBlockView)
    ensures
        match block {
            AssistantBlockView::Text { text } => block.has_visible_text() <==> has_ink(text),
            AssistantBlockView::Reasoning { text } => block.has_visible_text() <==> has_ink(text),
            AssistantBlockView::ToolCall { .. } => !block.has_visible_text(),
        },
{
    match block {
        AssistantBlockView::Text { text } => {
            crate::text_laws::law_trim_blank(text);
        },
        AssistantBlockView::Reasoning { text } => {
            crate::text_laws::law_trim_blank(text);
        },
        AssistantBlockView::ToolCall { .. } => {},
    }
}

/// An open step that its end interrupts is published, as interrupted and not as settled, with
/// the blocks that have arrived, where one of them is a tool call or has something to read; a
/// step that left no such block is not published.
pub proof fn law_interrupted_step(f: FoldView, e: StoredEventView, a: AssistantFoldView)
    requires
        f.assistants == seq![a],
        f.tools.len() == 0,
        e.data == (EventDataView::StepEnd { turn: a.turn, step: a.step }),
    ensures
        ({
            let out = crate::store::fold::fold_step(f, e);
            let left = crate::store::fold::arrived(a.blocks);
            let told = exists|i: int|
                0 <= i < left.len() && ((#[trigger] left[i]) is ToolCall || left[i] is Text
                    && has_ink(left[i]->Text_text) || left[i] is Reasoning && has_ink(
                    left[i]->Reasoning_text,
                ));
            &&& out.assistants.len() == 0
            &&& !told ==> out.nodes == f.nodes
            &&& told ==> {
                &&& out.nodes.len() > 0
                &&& out.nodes.last().kind == ChatNodeKind::Assistant
                &&& out.nodes.last().anchor_seq == e.event.seq
                &&& out.nodes.last().data == (NodeDataView::Assistant {
                    turn: a.turn,
                    step: a.step,
                    blocks: left,
                    usage: a.usage,
                    finalized: false,
                    interrupted: true,
                })
            }
        }),
{
    let left = crate::store::fold::arrived(a.blocks);
    assert forall|i: int| 0 <= i < left.len() implies ((#[trigger] left[i]).has_visible_text()
        || left[i] is ToolCall) == (left[i] is ToolCall || left[i] is Text && has_ink(
        left[i]->Text_text,
    ) || left[i] is Reasoning && has_ink(left[i]->Reasoning_text)) by {
        law_visible_text(left[i]);
    }
    reveal_with_fuel(crate::store::fold::close_steps, 2);
    assert(f.assistants.drop_last() =~= Seq::empty());
    assert(f.assistants.last() == a);
}

// ---------------------------------------------------------------------------
// compaction
// ---------------------------------------------------------------------------

/// The text of a summary is that of its text blocks, one behind the other: the text of two
/// lists of blocks put together is that of the first and then that of the second, and a block
/// that is no text adds nothing.
pub proof fn law_summary_text(a: Seq<ContentBlockView>, b: Seq<ContentBlockView>, block: ContentBlockView)
    ensures
        crate::store::fold::joined_text(a + b) == crate::store::fold::joined_text(a)
            + crate::store::fold::joined_text(b),
        crate::store::fold::joined_text(seq![block]) == (if block is Text {
            block->Text_text
        } else {
            Seq::empty()
        }),
    decreases b.len(),
{
    reveal_with_fuel(crate::store::fold::joined_text, 2);
    assert(seq![block].drop_last() =~= Seq::empty());
    if block is Text {
        assert(Seq::<char>::empty() + block->Text_text =~= block->Text_text);
    }
    if b.len() == 0 {
        assert(a + b =~= a);
        assert(crate::store::fold::joined_text(a) + Seq::<char>::empty()
            =~= crate::store::fold::joined_text(a));
    } else {
        law_summary_text(a, b.drop_last(), block);
        assert((a + b).drop_last() =~= a + b.drop_last());
        assert((a + b).last() == b.last());
        if b.last() is Text {
            let x = crate::store::fold::joined_text(a);
            let y = crate::store::fold::joined_text(b.drop_last());
            assert(x + y + b.last()->Text_text =~= x + (y + b.last()->Text_text));
        }
    }
}

/// The data of a summary event is read in full: the compaction it belongs to, its blocks, how
/// many items it stands for and how many tokens they had.
pub proof fn law_summary_read(data: JsonView, id: Seq<char>, blocks: Seq<JsonView>, seqs: Seq<JsonView>, tokens: i64)
    requires
        data.get_str("compactionId"@) == Some(id),
        data.get("summary"@) == Some(JsonView::Array(blocks)),
        data.get("shadowedSeqs"@) == Some(JsonView::Array(seqs)),
        data.get_i64("shadowedTokenCount"@) == Some(tokens),
        crate::store::event_data::content_blocks(blocks) is Ok,
        forall|k: int| 0 <= k < seqs.len() ==> #[trigger] seqs[k] is Int,
        seqs.len() <= usize::MAX,
    ensures
        crate::store::fold::compaction_summary(data) matches Some(read) && {
            &&& read.0 == id
            &&& read.1.summary == crate::store::event_data::content_blocks(blocks)->Ok_0
            &&& read.1.shadowed_items == seqs.len()
            &&& read.1.shadowed_token_count == tokens
        },
{
}

/// The compaction that a report is for.
pub open spec fn reported_id(data: JsonView) -> Option<Seq<char>> {
    match crate::store::fold::compaction_summary(data) {
        Some((id, _)) => Some(id),
        None => None,
    }
}

/// What a report says.
pub open spec fn reported(data: JsonView) -> CompactionSummaryView {
    let (_, said) = crate::store::fold::compaction_summary(data)->0;
    said
}

/// A compaction that has reported its summary and whose checkpoint has landed is marked in the
/// chat: with the summary's text where that is not blank, with the number of items and tokens it
/// stands for, and with the seq of the report. The checkpoint's own message is published behind
/// the marker.
pub proof fn law_compaction_marked(
    f: FoldView,
    report: StoredEventView,
    checkpoint: StoredEventView,
    message: UserMessageView,
    id: Seq<char>,
)
    requires
        report.data == (EventDataView::Unknown { ignorable: false }),
        report.event.kind == "compaction/summary"@,
        crate::store::fold::compaction_summary(report.event.data) is Some,
        reported_id(report.event.data) == Some(id),
        checkpoint.data == EventDataView::UserMessage(message),
        is_replacing(checkpoint),
        message.source.get_str("kind"@) == Some("plugin"@),
        message.source.get_str("plugin"@) == Some("compact"@),
        message.source.get_str("compactionId"@) == Some(id),
        message.id != id,
    ensures
        ({
            let said = reported(report.event.data);
            let out = crate::store::fold::fold_step(
                crate::store::fold::fold_step(f, report),
                checkpoint,
            );
            let text = crate::store::fold::joined_text(said.summary);
            exists|at: int|
                {
                    &&& 0 <= at < out.nodes.len()
                    &&& (#[trigger] out.nodes[at]).key == id
                    &&& out.nodes[at].kind == ChatNodeKind::Compaction
                    &&& out.nodes[at].anchor_seq == checkpoint.event.seq
                    &&& out.nodes[at].data matches NodeDataView::Compaction {
                        summary,
                        summary_event_seq,
                        shadowed_item_count,
                        shadowed_token_count,
                    }
                    &&& summary == (if has_ink(text) {
                        Some(text)
                    } else {
                        None
                    })
                    &&& summary_event_seq == Some(report.event.seq)
                    &&& shadowed_item_count == Some(said.shadowed_items)
                    &&& shadowed_token_count == Some(said.shadowed_token_count)
                }
        }),
{
    reveal_strlit("compaction/start");
    reveal_strlit("compaction/summary");
    assert("compaction/start"@.len() == 16 && "compaction/summary"@.len() == 18);
    reveal_strlit("plugin");
    reveal_strlit("user");
    let said = reported(report.event.data);
    crate::text_laws::law_trim_blank(crate::store::fold::joined_text(said.summary));
    let g = crate::store::fold::fold_step(f, report);
    let p = |c: crate::store::fold::CompactionFoldView| c.compaction_id == id;
    crate::seqs::lemma_first_index_holds(f.compactions, p);
    let i = crate::store::fold::compaction_index(f.compactions, id);
    if i < f.compactions.len() {
        assert(p(f.compactions[i]));
    }
    assert(p(g.compactions[i]));
    assert forall|k: int| 0 <= k < i implies !#[trigger] p(g.compactions[k]) by {
        assert(!p(f.compactions[k]));
        assert(g.compactions[k] == f.compactions[k]);
    }
    crate::seqs::lemma_first_index(g.compactions, p, i);
    let marker = crate::store::fold::compaction_node(g.compactions[i], checkpoint.event.seq);
    let marked = crate::store::fold::fold_checkpoint(g, checkpoint.event.seq, message);
    lemma_put_from(g.nodes, marker);
    assert(marked.nodes.last() == marker);
    assert(marked.nodes.contains(marker));
    let out = crate::store::fold::fold_step(g, checkpoint);
    crate::store::call_laws::lemma_put_keeps(
        marked.nodes,
        crate::store::fold::user_node(checkpoint, message),
        marker,
    );
    let at = choose|at: int| 0 <= at < out.nodes.len() && out.nodes[at] == marker;
    assert(out.nodes[at].key == id);
}

} // verus!
