//! The event fold: the derivation of the chat nodes from a window of stored events.
//!
//! The node list is derived state: [`fold_events`] is a function of the window alone.
//!
//! - A user node per appended `user/message`, context injections included.
//! - One assistant node per (turn, step), streamed from chunks and settled by
//!   `assistant/message`; one without content is skipped.
//! - One tool node per call id, settled by `tool/result`.
//! - A compaction node per compaction id, formed when the replacement checkpoint lands.
//! - Boundaries (`step/end`, `turn/end`, a new human prompt) close what is open; what was
//!   closed with something to show is interrupted.
//! - Unknown event types that may not be ignored become unknown rows.

use vstd::prelude::*;

use crate::json::{Json, JsonView};
use crate::store::event_data::{
    parse_content_blocks, parse_surface_op, AssistantMessage, AssistantMessageView, CallId,
    ContentBlock, ContentBlockView, EventData, EventDataView, StreamChunk, StreamChunkView,
    SurfaceOp, TokenUsage, ToolErrorIdentity, ToolErrorIdentityView, ToolResultMessage,
    ToolResultMessageView, TurnEndReason, TurnEndReasonView, UserMessage, UserMessageView,
};
use crate::store::node::{
    AssistantBlock, AssistantBlockView, ChatNode, ChatNodeKind, ChatNodeView, NodeData,
    NodeDataView, RunningToolCall, RunningToolCallView, ToolCallBackfill, ToolCallBackfillView,
    ToolResultNode, ToolResultNodeView, UserNodeKind,
};
use crate::store::stored::{StoredEvent, StoredEventView};
use crate::text::{
    duplicate_all, duplicate_opt, i64_text, joined, same, trimmed, Duplicate,
};
use crate::wire::{ToolEventView, ToolEventViewView};

verus! {

/// The most blocks an assistant node may have: a chunk beyond it is dropped.
pub const MAX_ASSISTANT_BLOCKS: usize = 1024;

// ---------------------------------------------------------------------------
// the state of a fold
// ---------------------------------------------------------------------------

/// An assistant step that is still open. `blocks` is indexed by the chunks' index; a
/// block that has not arrived is `None`.
struct AssistantFold {
    turn: i64,
    step: i64,
    anchor_seq: i64,
    blocks: Vec<Option<AssistantBlock>>,
    usage: Option<TokenUsage>,
}

/// An open assistant step.
pub struct AssistantFoldView {
    pub turn: i64,
    pub step: i64,
    pub anchor_seq: i64,
    pub blocks: Seq<Option<AssistantBlockView>>,
    pub usage: Option<TokenUsage>,
}

/// The views of the blocks that have arrived.
pub open spec fn slots(blocks: Seq<Option<AssistantBlock>>) -> Seq<Option<AssistantBlockView>> {
    blocks.map_values(|b: Option<AssistantBlock>| crate::text::opt_view(b))
}

impl View for AssistantFold {
    type V = AssistantFoldView;

    closed spec fn view(&self) -> AssistantFoldView {
        AssistantFoldView {
            turn: self.turn,
            step: self.step,
            anchor_seq: self.anchor_seq,
            blocks: slots(self.blocks@),
            usage: self.usage,
        }
    }
}

/// A tool call of the window: its call, its result, or both.
struct ToolFold {
    call_id: String,
    call: Option<RunningToolCall>,
    result: Option<ToolResultNode>,
    turn: i64,
    step: i64,
    anchor_seq: i64,
}

/// A tool call of the window.
pub struct ToolFoldView {
    pub call_id: Seq<char>,
    pub call: Option<RunningToolCallView>,
    pub result: Option<ToolResultNodeView>,
    pub turn: i64,
    pub step: i64,
    pub anchor_seq: i64,
}

impl View for ToolFold {
    type V = ToolFoldView;

    closed spec fn view(&self) -> ToolFoldView {
        ToolFoldView {
            call_id: self.call_id@,
            call: crate::text::opt_view(self.call),
            result: crate::text::opt_view(self.result),
            turn: self.turn,
            step: self.step,
            anchor_seq: self.anchor_seq,
        }
    }
}

/// What a `compaction/summary` event reports.
struct CompactionSummary {
    summary: Vec<ContentBlock>,
    shadowed_items: usize,
    shadowed_token_count: i64,
}

/// What a `compaction/summary` event reports.
pub struct CompactionSummaryView {
    pub summary: Seq<ContentBlockView>,
    pub shadowed_items: usize,
    pub shadowed_token_count: i64,
}

impl View for CompactionSummary {
    type V = CompactionSummaryView;

    closed spec fn view(&self) -> CompactionSummaryView {
        CompactionSummaryView {
            summary: crate::text::views(self.summary@),
            shadowed_items: self.shadowed_items,
            shadowed_token_count: self.shadowed_token_count,
        }
    }
}

/// One compaction: its summary with the seq of the event that reported it.
struct CompactionFold {
    compaction_id: String,
    summary: Option<CompactionSummary>,
    summary_event_seq: Option<i64>,
}

/// One compaction.
pub struct CompactionFoldView {
    pub compaction_id: Seq<char>,
    pub summary: Option<CompactionSummaryView>,
    pub summary_event_seq: Option<i64>,
}

impl View for CompactionFold {
    type V = CompactionFoldView;

    closed spec fn view(&self) -> CompactionFoldView {
        CompactionFoldView {
            compaction_id: self.compaction_id@,
            summary: crate::text::opt_view(self.summary),
            summary_event_seq: self.summary_event_seq,
        }
    }
}

/// A fold in progress. Open steps, tool calls and compactions stand in the order in which
/// they appeared; no two have the same identity. A call is known from then on, also when it was
/// closed.
pub struct Fold {
    assistants: Vec<AssistantFold>,
    tools: Vec<ToolFold>,
    calls: Vec<RunningToolCall>,
    compactions: Vec<CompactionFold>,
    nodes: Vec<ChatNode>,
}

/// A fold in progress.
pub struct FoldView {
    pub assistants: Seq<AssistantFoldView>,
    pub tools: Seq<ToolFoldView>,
    pub calls: Seq<RunningToolCallView>,
    pub compactions: Seq<CompactionFoldView>,
    pub nodes: Seq<ChatNodeView>,
}

impl View for Fold {
    type V = FoldView;

    closed spec fn view(&self) -> FoldView {
        FoldView {
            assistants: crate::text::views(self.assistants@),
            tools: crate::text::views(self.tools@),
            calls: crate::text::views(self.calls@),
            compactions: crate::text::views(self.compactions@),
            nodes: crate::text::views(self.nodes@),
        }
    }
}

// ---------------------------------------------------------------------------
// what the fold computes
// ---------------------------------------------------------------------------

/// The fold of an empty window.
pub open spec fn empty_fold() -> FoldView {
    FoldView {
        assistants: Seq::empty(),
        tools: Seq::empty(),
        calls: Seq::empty(),
        compactions: Seq::empty(),
        nodes: Seq::empty(),
    }
}

/// The position of the open step (turn, step).
pub open spec fn assistant_index(list: Seq<AssistantFoldView>, turn: i64, step: i64) -> int {
    crate::seqs::first_index(list, |a: AssistantFoldView| a.turn == turn && a.step == step)
}

/// The position of a tool call.
pub open spec fn tool_index(list: Seq<ToolFoldView>, call_id: Seq<char>) -> int {
    crate::seqs::first_index(list, |t: ToolFoldView| t.call_id == call_id)
}

/// The position of a known call.
pub open spec fn call_index(list: Seq<RunningToolCallView>, call_id: Seq<char>) -> int {
    crate::seqs::first_index(list, |c: RunningToolCallView| c.call_id == call_id)
}

/// The known calls with one more, which takes the place of an earlier one with its id.
pub open spec fn with_known(
    list: Seq<RunningToolCallView>,
    call: RunningToolCallView,
) -> Seq<RunningToolCallView> {
    let i = call_index(list, call.call_id);
    if i < list.len() {
        list.update(i, call)
    } else {
        list.push(call)
    }
}

/// The call of an id, where it is known.
pub open spec fn known_call(list: Seq<RunningToolCallView>, call_id: Seq<char>) -> Option<
    RunningToolCallView,
> {
    let i = call_index(list, call_id);
    if i < list.len() {
        Some(list[i])
    } else {
        None
    }
}

/// The position of a compaction.
pub open spec fn compaction_index(list: Seq<CompactionFoldView>, id: Seq<char>) -> int {
    crate::seqs::first_index(list, |c: CompactionFoldView| c.compaction_id == id)
}

/// The position of the node with a key.
pub open spec fn node_index(nodes: Seq<ChatNodeView>, key: Seq<char>) -> int {
    crate::seqs::first_index(nodes, |n: ChatNodeView| n.key == key)
}

/// The nodes with one published: it goes to the end and replaces the node that had its key.
pub open spec fn put_node(nodes: Seq<ChatNodeView>, node: ChatNodeView) -> Seq<ChatNodeView> {
    let i = node_index(nodes, node.key);
    if i < nodes.len() {
        nodes.remove(i).push(node)
    } else {
        nodes.push(node)
    }
}

impl FoldView {
    /// The fold with a node published.
    pub open spec fn put(self, node: ChatNodeView) -> FoldView {
        FoldView { nodes: put_node(self.nodes, node), ..self }
    }
}

/// The key of an assistant node.
pub open spec fn assistant_node_key(turn: i64, step: i64) -> Seq<char> {
    crate::text::int_decimal(turn as int) + ":"@ + crate::text::int_decimal(step as int)
}

/// The blocks with room for `index`: blocks that have not arrived are `None`.
pub open spec fn grown(blocks: Seq<Option<AssistantBlockView>>, index: int) -> Seq<
    Option<AssistantBlockView>,
> {
    if index < blocks.len() {
        blocks
    } else {
        blocks + Seq::new((index + 1 - blocks.len()) as nat, |i: int| None)
    }
}

/// The block at `index`, where it has arrived.
pub open spec fn slot(blocks: Seq<Option<AssistantBlockView>>, index: int) -> Option<
    AssistantBlockView,
> {
    if 0 <= index < blocks.len() {
        blocks[index]
    } else {
        None
    }
}

impl AssistantFoldView {
    /// The step with the block at `index` set. An index that is negative or not below
    /// [`MAX_ASSISTANT_BLOCKS`] changes nothing.
    pub open spec fn with_block(self, index: i64, block: Option<AssistantBlockView>) -> Self {
        if 0 <= index < MAX_ASSISTANT_BLOCKS {
            AssistantFoldView {
                blocks: grown(self.blocks, index as int).update(index as int, block),
                ..self
            }
        } else {
            self
        }
    }
}

/// The empty block of a type that assistants display.
pub open spec fn started_block(block_type: Seq<char>) -> Option<AssistantBlockView> {
    if block_type == "text"@ {
        Some(AssistantBlockView::Text { text: Seq::empty() })
    } else if block_type == "reasoning"@ {
        Some(AssistantBlockView::Reasoning { text: Seq::empty() })
    } else if block_type == "tool-call"@ {
        Some(
            AssistantBlockView::ToolCall {
                call_id: Seq::empty(),
                name: Seq::empty(),
                args_raw: Seq::empty(),
            },
        )
    } else {
        None
    }
}

/// A text block after a delta: the text grows, anything else becomes the delta.
pub open spec fn text_after(block: Option<AssistantBlockView>, delta: Seq<char>) -> AssistantBlockView {
    match block {
        Some(AssistantBlockView::Text { text }) => AssistantBlockView::Text { text: text + delta },
        _ => AssistantBlockView::Text { text: delta },
    }
}

/// A reasoning block after a delta.
pub open spec fn reasoning_after(block: Option<AssistantBlockView>, delta: Seq<char>) -> AssistantBlockView {
    match block {
        Some(AssistantBlockView::Reasoning { text }) => AssistantBlockView::Reasoning {
            text: text + delta,
        },
        _ => AssistantBlockView::Reasoning { text: delta },
    }
}

/// A tool-call block after a delta: the first id stays, the last name counts, the
/// arguments grow.
pub open spec fn call_after(
    block: Option<AssistantBlockView>,
    id: Seq<char>,
    name: Option<Seq<char>>,
    delta: Seq<char>,
) -> AssistantBlockView {
    match block {
        Some(AssistantBlockView::ToolCall { call_id, name: previous, args_raw }) => {
            AssistantBlockView::ToolCall {
                call_id: if call_id.len() == 0 {
                    id
                } else {
                    call_id
                },
                name: match name {
                    Some(n) => n,
                    None => previous,
                },
                args_raw: args_raw + delta,
            }
        },
        _ => AssistantBlockView::ToolCall {
            call_id: id,
            name: match name {
                Some(n) => n,
                None => Seq::empty(),
            },
            args_raw: delta,
        },
    }
}

/// The display block of a content block: text, reasoning and tool calls have one.
pub open spec fn display_block(block: ContentBlockView) -> Option<AssistantBlockView> {
    match block {
        ContentBlockView::Text { text } => Some(AssistantBlockView::Text { text }),
        ContentBlockView::Reasoning { text } => Some(AssistantBlockView::Reasoning { text }),
        ContentBlockView::ToolCall { id, name, arguments } => Some(
            AssistantBlockView::ToolCall { call_id: id, name, args_raw: arguments },
        ),
        _ => None,
    }
}

/// The display blocks of a message.
pub open spec fn display_blocks(content: Seq<ContentBlockView>) -> Seq<AssistantBlockView>
    decreases content.len(),
{
    if content.len() == 0 {
        Seq::empty()
    } else {
        let rest = display_blocks(content.drop_last());
        match display_block(content.last()) {
            Some(b) => rest.push(b),
            None => rest,
        }
    }
}

/// An open step after a chunk.
pub open spec fn after_chunk(a: AssistantFoldView, chunk: StreamChunkView) -> AssistantFoldView {
    match chunk {
        StreamChunkView::BlockStart { index, block_type } => a.with_block(
            index,
            started_block(block_type),
        ),
        StreamChunkView::TextDelta { index, text } => a.with_block(
            index,
            Some(text_after(slot(a.blocks, index as int), text)),
        ),
        StreamChunkView::ReasoningDelta { index, text } => a.with_block(
            index,
            Some(reasoning_after(slot(a.blocks, index as int), text)),
        ),
        StreamChunkView::ToolCallDelta { index, id, name, arguments_delta } => a.with_block(
            index,
            Some(call_after(slot(a.blocks, index as int), id, name, arguments_delta)),
        ),
        StreamChunkView::BlockEnd { index, block } => a.with_block(index, display_block(block)),
        StreamChunkView::Usage { usage } => AssistantFoldView { usage: Some(usage), ..a },
        StreamChunkView::Finish { .. } => a,
    }
}

/// A step that has just opened.
pub open spec fn opened_step(turn: i64, step: i64, seq: i64) -> AssistantFoldView {
    AssistantFoldView { turn, step, anchor_seq: seq, blocks: Seq::empty(), usage: None }
}

/// The open steps with (turn, step) among them.
pub open spec fn with_step(
    list: Seq<AssistantFoldView>,
    turn: i64,
    step: i64,
    seq: i64,
) -> Seq<AssistantFoldView> {
    if assistant_index(list, turn, step) < list.len() {
        list
    } else {
        list.push(opened_step(turn, step, seq))
    }
}

/// The fold after a streamed chunk: the step opens with its first chunk.
pub open spec fn fold_chunk(f: FoldView, seq: i64, turn: i64, step: i64, chunk: StreamChunkView) -> FoldView {
    let list = with_step(f.assistants, turn, step, seq);
    let i = assistant_index(f.assistants, turn, step);
    FoldView { assistants: list.update(i, after_chunk(list[i], chunk)), ..f }
}

/// The blocks that have arrived, in order.
pub open spec fn arrived(blocks: Seq<Option<AssistantBlockView>>) -> Seq<AssistantBlockView>
    decreases blocks.len(),
{
    if blocks.len() == 0 {
        Seq::empty()
    } else {
        let rest = arrived(blocks.drop_last());
        match blocks.last() {
            Some(b) => rest.push(b),
            None => rest,
        }
    }
}

/// Whether there is text or reasoning to show.
pub open spec fn visible(blocks: Seq<AssistantBlockView>) -> bool {
    exists|i: int| 0 <= i < blocks.len() && (#[trigger] blocks[i]).has_visible_text()
}

/// Whether an interruption left something behind: text, reasoning or a tool call.
pub open spec fn interruption_evidence(blocks: Seq<AssistantBlockView>) -> bool {
    exists|i: int|
        0 <= i < blocks.len() && ((#[trigger] blocks[i]).has_visible_text()
            || blocks[i] is ToolCall)
}

/// The node of an interrupted step.
pub open spec fn interrupted_step(a: AssistantFoldView, boundary_seq: i64) -> ChatNodeView {
    ChatNodeView {
        key: assistant_node_key(a.turn, a.step),
        kind: ChatNodeKind::Assistant,
        anchor_seq: boundary_seq,
        data: NodeDataView::Assistant {
            turn: a.turn,
            step: a.step,
            blocks: arrived(a.blocks),
            usage: a.usage,
            finalized: false,
            interrupted: true,
        },
    }
}

/// The nodes after a step was closed: it shows only where it left something behind.
pub open spec fn close_step_node(nodes: Seq<ChatNodeView>, a: AssistantFoldView, boundary_seq: i64) -> Seq<ChatNodeView> {
    if interruption_evidence(arrived(a.blocks)) {
        put_node(nodes, interrupted_step(a, boundary_seq))
    } else {
        nodes
    }
}

/// The node of an interrupted tool call: a failure named `Interrupted` is its result.
pub open spec fn interrupted_call(t: ToolFoldView, call: RunningToolCallView) -> ChatNodeView {
    ChatNodeView {
        key: t.call_id,
        kind: ChatNodeKind::Tool,
        anchor_seq: t.anchor_seq,
        data: NodeDataView::Tool {
            call: Some(call),
            result: Some(
                ToolResultNodeView {
                    call_id: t.call_id,
                    call: Some(
                        ToolCallBackfillView { name: call.name, args_raw: call.args_raw },
                    ),
                    call_time: Some(call.time),
                    result_time: None,
                    content: Seq::empty(),
                    is_error: true,
                    error: Some(
                        ToolErrorIdentityView { name: "Interrupted"@, code: "interrupted"@ },
                    ),
                    meta: None,
                    call_view: call.call_view,
                    result_view: None,
                },
            ),
            interrupted: true,
        },
    }
}

/// The nodes after a call without a result was closed.
pub open spec fn close_call_node(nodes: Seq<ChatNodeView>, t: ToolFoldView) -> Seq<ChatNodeView> {
    match t.call {
        Some(call) => put_node(nodes, interrupted_call(t, call)),
        None => nodes,
    }
}

/// What a boundary closes.
#[derive(Debug, Clone, Copy, PartialEq, Eq)]
pub enum Scope {
    All,
    Turn(i64),
    Step(i64, i64),
}

impl Scope {
    /// Whether a step lies within the scope.
    pub open spec fn has(self, turn: i64, step: i64) -> bool {
        match self {
            Scope::All => true,
            Scope::Turn(t) => turn == t,
            Scope::Step(t, s) => turn == t && step == s,
        }
    }

    fn covers(&self, turn: i64, step: i64) -> (r: bool)
        ensures
            r == self.has(turn, step),
    {
        match *self {
            Scope::All => true,
            Scope::Turn(t) => turn == t,
            Scope::Step(t, s) => turn == t && step == s,
        }
    }
}

/// The steps that stay open, and the nodes with those in scope closed.
pub open spec fn close_steps(
    list: Seq<AssistantFoldView>,
    nodes: Seq<ChatNodeView>,
    scope: Scope,
    boundary_seq: i64,
) -> (Seq<AssistantFoldView>, Seq<ChatNodeView>)
    decreases list.len(),
{
    if list.len() == 0 {
        (Seq::empty(), nodes)
    } else {
        let (open, shown) = close_steps(list.drop_last(), nodes, scope, boundary_seq);
        let a = list.last();
        if scope.has(a.turn, a.step) {
            (open, close_step_node(shown, a, boundary_seq))
        } else {
            (open.push(a), shown)
        }
    }
}

/// The calls that stay, and the nodes with those in scope that have no result closed.
pub open spec fn close_calls(
    list: Seq<ToolFoldView>,
    nodes: Seq<ChatNodeView>,
    scope: Scope,
) -> (Seq<ToolFoldView>, Seq<ChatNodeView>)
    decreases list.len(),
{
    if list.len() == 0 {
        (Seq::empty(), nodes)
    } else {
        let (open, shown) = close_calls(list.drop_last(), nodes, scope);
        let t = list.last();
        if scope.has(t.turn, t.step) && t.result is None {
            (open, close_call_node(shown, t))
        } else {
            (open.push(t), shown)
        }
    }
}

/// The fold after a boundary: first the steps in scope close, then the calls.
pub open spec fn fold_boundary(f: FoldView, scope: Scope, boundary_seq: i64) -> FoldView {
    let (assistants, shown) = close_steps(f.assistants, f.nodes, scope, boundary_seq);
    let (tools, nodes) = close_calls(f.tools, shown, scope);
    FoldView { assistants, tools, nodes, ..f }
}

/// The row of an event that the fold does not understand.
pub open spec fn unknown_node(e: StoredEventView) -> ChatNodeView {
    ChatNodeView {
        key: "unknown:"@ + crate::text::int_decimal(e.event.seq as int),
        kind: ChatNodeKind::Unknown,
        anchor_seq: e.event.seq,
        data: NodeDataView::Unknown { event_type: e.event.kind, data: e.event.data },
    }
}

/// The node of a user message.
pub open spec fn user_node(e: StoredEventView, message: UserMessageView) -> ChatNodeView {
    ChatNodeView {
        key: message.id,
        kind: ChatNodeKind::User,
        anchor_seq: e.event.seq,
        data: NodeDataView::User {
            kind: if message.source.get_str("kind"@) == Some("user"@) {
                UserNodeKind::User
            } else {
                UserNodeKind::Context
            },
            message_id: message.id,
            content: message.content,
            source: message.source,
        },
    }
}

/// A compaction without a summary.
pub open spec fn opened_compaction(id: Seq<char>) -> CompactionFoldView {
    CompactionFoldView { compaction_id: id, summary: None, summary_event_seq: None }
}

/// The compactions with `id` among them.
pub open spec fn with_compaction(list: Seq<CompactionFoldView>, id: Seq<char>) -> Seq<
    CompactionFoldView,
> {
    if compaction_index(list, id) < list.len() {
        list
    } else {
        list.push(opened_compaction(id))
    }
}

/// The texts of the text blocks, one after the other.
pub open spec fn joined_text(blocks: Seq<ContentBlockView>) -> Seq<char>
    decreases blocks.len(),
{
    if blocks.len() == 0 {
        Seq::empty()
    } else {
        let rest = joined_text(blocks.drop_last());
        match blocks.last() {
            ContentBlockView::Text { text } => rest + text,
            _ => rest,
        }
    }
}

/// The text of a summary, where it is not blank.
pub open spec fn summary_text_of(blocks: Seq<ContentBlockView>) -> Option<Seq<char>> {
    if crate::text::trim(joined_text(blocks)).len() == 0 {
        None
    } else {
        Some(joined_text(blocks))
    }
}

/// The marker of a compaction whose checkpoint has landed.
pub open spec fn compaction_node(c: CompactionFoldView, seq: i64) -> ChatNodeView {
    ChatNodeView {
        key: c.compaction_id,
        kind: ChatNodeKind::Compaction,
        anchor_seq: seq,
        data: NodeDataView::Compaction {
            summary: match c.summary {
                Some(s) => summary_text_of(s.summary),
                None => None,
            },
            summary_event_seq: c.summary_event_seq,
            shadowed_item_count: match c.summary {
                Some(s) => Some(s.shadowed_items),
                None => None,
            },
            shadowed_token_count: match c.summary {
                Some(s) => Some(s.shadowed_token_count),
                None => None,
            },
        },
    }
}

/// The fold after a compaction checkpoint: the marker appears.
pub open spec fn fold_checkpoint(f: FoldView, seq: i64, message: UserMessageView) -> FoldView {
    match message.source.get_str("compactionId"@) {
        None => f,
        Some(id) => {
            let list = with_compaction(f.compactions, id);
            let i = compaction_index(f.compactions, id);
            FoldView { compactions: list, ..f }.put(compaction_node(list[i], seq))
        },
    }
}

/// The fold after a user message.
pub open spec fn fold_user_message(f: FoldView, e: StoredEventView, message: UserMessageView) -> FoldView {
    let replaces = crate::store::event_data::surface_op(e.event.surface_op) is Some
        && crate::store::event_data::surface_op(e.event.surface_op)->0 is Replace;
    let compacts = message.source.get_str("kind"@) == Some("plugin"@) && message.source.get_str(
        "plugin"@,
    ) == Some("compact"@);
    if replaces && compacts {
        fold_checkpoint(f, e.event.seq, message).put(user_node(e, message))
    } else if replaces {
        f.put(unknown_node(e))
    } else if message.source.get_str("kind"@) == Some("user"@) {
        fold_boundary(f, Scope::All, e.event.seq).put(user_node(e, message))
    } else {
        f.put(user_node(e, message))
    }
}

/// The fold after an assistant message settled a step.
pub open spec fn fold_assistant_message(
    f: FoldView,
    e: StoredEventView,
    turn: i64,
    step: i64,
    message: AssistantMessageView,
    usage: Option<TokenUsage>,
) -> FoldView {
    let replaces = crate::store::event_data::surface_op(e.event.surface_op) is Some
        && crate::store::event_data::surface_op(e.event.surface_op)->0 is Replace;
    let blocks = display_blocks(message.content);
    if replaces {
        f.put(unknown_node(e))
    } else if blocks.len() == 0 {
        f
    } else {
        let i = assistant_index(f.assistants, turn, step);
        FoldView {
            assistants: if i < f.assistants.len() {
                f.assistants.remove(i)
            } else {
                f.assistants
            },
            ..f
        }.put(
            ChatNodeView {
                key: assistant_node_key(turn, step),
                kind: ChatNodeKind::Assistant,
                anchor_seq: e.event.seq,
                data: NodeDataView::Assistant {
                    turn,
                    step,
                    blocks,
                    usage,
                    finalized: true,
                    interrupted: false,
                },
            },
        )
    }
}

/// The view of a frame, where it is for the call.
pub open spec fn call_view(view: Option<ToolEventViewView>) -> Option<ToolEventViewView> {
    match view {
        Some(v) => if v is Call {
            Some(v)
        } else {
            None
        },
        None => None,
    }
}

/// The view of a frame, where it is for the result.
pub open spec fn result_view(view: Option<ToolEventViewView>) -> Option<ToolEventViewView> {
    match view {
        Some(v) => if v is Result {
            Some(v)
        } else {
            None
        },
        None => None,
    }
}

/// The call that an event tells of.
pub open spec fn running_call(
    e: StoredEventView,
    turn: i64,
    step: i64,
    call_id: Seq<char>,
    name: Seq<char>,
    arguments: Seq<char>,
) -> RunningToolCallView {
    RunningToolCallView {
        call_id,
        name,
        args_raw: arguments,
        turn,
        step,
        time: e.event.time,
        call_view: call_view(e.view),
    }
}

/// A result with the call it belongs to.
pub open spec fn backfilled(result: ToolResultNodeView, call: RunningToolCallView) -> ToolResultNodeView {
    ToolResultNodeView {
        call: Some(ToolCallBackfillView { name: call.name, args_raw: call.args_raw }),
        call_time: Some(call.time),
        call_view: call.call_view,
        ..result
    }
}

/// An entry with its call, and so its result, where it came first.
pub open spec fn with_call(t: ToolFoldView, call: RunningToolCallView) -> ToolFoldView {
    ToolFoldView {
        call: Some(call),
        result: match t.result {
            Some(result) => Some(backfilled(result, call)),
            None => None,
        },
        ..t
    }
}

/// The fold after a tool call: a result that came first gets its call, and its node is shown
/// with it.
pub open spec fn fold_tool_call(
    f: FoldView,
    e: StoredEventView,
    turn: i64,
    step: i64,
    call_id: Seq<char>,
    name: Seq<char>,
    arguments: Seq<char>,
) -> FoldView {
    let running = running_call(e, turn, step, call_id, name, arguments);
    let i = tool_index(f.tools, call_id);
    if i < f.tools.len() {
        if f.tools[i].call is None {
            let t = with_call(f.tools[i], running);
            let known = FoldView {
                tools: f.tools.update(i, t),
                calls: with_known(f.calls, running),
                ..f
            };
            if t.result is Some {
                known.put(settled_call(t))
            } else {
                known
            }
        } else {
            f
        }
    } else {
        FoldView {
            tools: f.tools.push(
                ToolFoldView {
                    call_id,
                    call: Some(running),
                    result: None,
                    turn,
                    step,
                    anchor_seq: e.event.seq,
                },
            ),
            calls: with_known(f.calls, running),
            ..f
        }
    }
}

/// The settled result of a call that may be known.
pub open spec fn settled_result(
    e: StoredEventView,
    call_id: Seq<char>,
    known: Option<RunningToolCallView>,
    message: ToolResultMessageView,
    error: Option<ToolErrorIdentityView>,
    meta: Option<JsonView>,
) -> ToolResultNodeView {
    ToolResultNodeView {
        call_id,
        call: match known {
            Some(c) => Some(ToolCallBackfillView { name: c.name, args_raw: c.args_raw }),
            None => None,
        },
        call_time: match known {
            Some(c) => Some(c.time),
            None => None,
        },
        result_time: Some(e.event.time),
        content: match message.result_block() {
            Some(b) => b->ToolResult_content,
            None => Seq::empty(),
        },
        is_error: message.is_error(),
        error,
        meta,
        call_view: match known {
            Some(c) => c.call_view,
            None => None,
        },
        result_view: result_view(e.view),
    }
}

/// The node of a settled call.
pub open spec fn settled_call(t: ToolFoldView) -> ChatNodeView {
    ChatNodeView {
        key: t.call_id,
        kind: ChatNodeKind::Tool,
        anchor_seq: t.anchor_seq,
        data: NodeDataView::Tool { call: t.call, result: t.result, interrupted: false },
    }
}

/// The fold after a tool result: the call settles, also one that was closed before; one whose
/// call is not in the window still forms a node.
pub open spec fn fold_tool_result(
    f: FoldView,
    e: StoredEventView,
    turn: i64,
    step: i64,
    message: ToolResultMessageView,
    error: Option<ToolErrorIdentityView>,
    meta: Option<JsonView>,
) -> FoldView {
    let call_id = match message.source.get_str("callId"@) {
        Some(id) => id,
        None => Seq::empty(),
    };
    let i = tool_index(f.tools, call_id);
    let known = if i < f.tools.len() {
        f.tools[i].call
    } else {
        known_call(f.calls, call_id)
    };
    let result = settled_result(e, call_id, known, message, error, meta);
    let t = if i < f.tools.len() {
        ToolFoldView { result: Some(result), ..f.tools[i] }
    } else {
        ToolFoldView {
            call_id,
            call: known,
            result: Some(result),
            turn,
            step,
            anchor_seq: e.event.seq,
        }
    };
    FoldView {
        tools: if i < f.tools.len() {
            f.tools.update(i, t)
        } else {
            f.tools.push(t)
        },
        ..f
    }.put(settled_call(t))
}

/// The fold after a turn ended: what the turn left open closes, and a failure or a token
/// limit leaves a notice.
pub open spec fn fold_turn_end(f: FoldView, e: StoredEventView, turn: i64, reason: TurnEndReasonView) -> FoldView {
    let closed = fold_boundary(f, Scope::Turn(turn), e.event.seq);
    match reason {
        TurnEndReasonView::Error { error } => closed.put(
            ChatNodeView {
                key: "turn-error:"@ + crate::text::int_decimal(turn as int),
                kind: ChatNodeKind::TurnError,
                anchor_seq: e.event.seq,
                data: NodeDataView::TurnError {
                    turn,
                    message: error.message,
                    code: Some(error.code),
                },
            },
        ),
        TurnEndReasonView::MaxTokens => closed.put(
            ChatNodeView {
                key: "turn-max-tokens:"@ + crate::text::int_decimal(turn as int),
                kind: ChatNodeKind::TurnMaxTokens,
                anchor_seq: e.event.seq,
                data: NodeDataView::TurnMaxTokens { turn },
            },
        ),
        _ => closed,
    }
}

/// The summary that the data of a `compaction/summary` event reports, with the compaction
/// it belongs to; nothing where the data is malformed.
pub open spec fn compaction_summary(data: JsonView) -> Option<(Seq<char>, CompactionSummaryView)> {
    match data.get_str("compactionId"@) {
        None => None,
        Some(id) => match (data.get("summary"@), data.get("shadowedSeqs"@), data.get_i64(
            "shadowedTokenCount"@,
        )) {
            (
                Some(JsonView::Array(blocks)),
                Some(JsonView::Array(seqs)),
                Some(shadowed_token_count),
            ) => match crate::store::event_data::content_blocks(blocks) {
                Err(_) => None,
                Ok(summary) => if forall|k: int| 0 <= k < seqs.len() ==> #[trigger] seqs[k] is Int {
                    Some(
                        (
                            id,
                            CompactionSummaryView {
                                summary,
                                shadowed_items: seqs.len() as usize,
                                shadowed_token_count,
                            },
                        ),
                    )
                } else {
                    None
                },
            },
            _ => None,
        },
    }
}

/// The fold after a compaction started.
pub open spec fn fold_compaction_start(f: FoldView, e: StoredEventView) -> FoldView {
    match e.event.data.get_str("compactionId"@) {
        Some(id) => FoldView { compactions: with_compaction(f.compactions, id), ..f },
        None => f,
    }
}

/// The fold after a compaction reported its summary; a malformed one changes nothing.
pub open spec fn fold_compaction_summary(f: FoldView, e: StoredEventView) -> FoldView {
    match compaction_summary(e.event.data) {
        Some((id, summary)) => {
            let list = with_compaction(f.compactions, id);
            let i = compaction_index(f.compactions, id);
            FoldView {
                compactions: list.update(
                    i,
                    CompactionFoldView {
                        summary: Some(summary),
                        summary_event_seq: Some(e.event.seq),
                        ..list[i]
                    },
                ),
                ..f
            }
        },
        None => f,
    }
}

/// The fold after an event of a type that is not its own.
pub open spec fn fold_unknown(f: FoldView, e: StoredEventView) -> FoldView {
    if e.event.kind == "compaction/start"@ {
        fold_compaction_start(f, e)
    } else if e.event.kind == "compaction/summary"@ {
        fold_compaction_summary(f, e)
    } else if e.event.kind == "compaction/end"@ {
        f
    } else {
        f.put(unknown_node(e))
    }
}

/// The fold after one event.
pub open spec fn fold_step(f: FoldView, e: StoredEventView) -> FoldView {
    match e.data {
        EventDataView::Unknown { ignorable } => if ignorable {
            f
        } else {
            fold_unknown(f, e)
        },
        EventDataView::TurnEnd { turn, reason } => fold_turn_end(f, e, turn, reason),
        EventDataView::StepStart { turn, step } => FoldView {
            assistants: with_step(f.assistants, turn, step, e.event.seq),
            ..f
        },
        EventDataView::StepEnd { turn, step } => fold_boundary(
            f,
            Scope::Step(turn, step),
            e.event.seq,
        ),
        EventDataView::UserMessage(message) => fold_user_message(f, e, message),
        EventDataView::AssistantChunk { turn, step, chunk } => fold_chunk(
            f,
            e.event.seq,
            turn,
            step,
            chunk,
        ),
        EventDataView::AssistantMessage { turn, step, message, usage } => fold_assistant_message(
            f,
            e,
            turn,
            step,
            message,
            usage,
        ),
        EventDataView::ToolCall { turn, step, call_id, name, arguments } => fold_tool_call(
            f,
            e,
            turn,
            step,
            call_id,
            name,
            arguments,
        ),
        EventDataView::ToolResult { turn, step, message, error, meta } => fold_tool_result(
            f,
            e,
            turn,
            step,
            message,
            error,
            meta,
        ),
        _ => f,
    }
}

/// The fold of a window, event by event.
pub open spec fn fold_window(events: Seq<StoredEventView>) -> FoldView
    decreases events.len(),
{
    if events.len() == 0 {
        empty_fold()
    } else {
        fold_step(fold_window(events.drop_last()), events.last())
    }
}

/// The nodes with the steps that are still running and have something to show.
pub open spec fn running_steps(nodes: Seq<ChatNodeView>, list: Seq<AssistantFoldView>) -> Seq<ChatNodeView>
    decreases list.len(),
{
    if list.len() == 0 {
        nodes
    } else {
        let shown = running_steps(nodes, list.drop_last());
        let a = list.last();
        if visible(arrived(a.blocks)) {
            put_node(
                shown,
                ChatNodeView {
                    key: assistant_node_key(a.turn, a.step),
                    kind: ChatNodeKind::Assistant,
                    anchor_seq: a.anchor_seq,
                    data: NodeDataView::Assistant {
                        turn: a.turn,
                        step: a.step,
                        blocks: arrived(a.blocks),
                        usage: a.usage,
                        finalized: false,
                        interrupted: false,
                    },
                },
            )
        } else {
            shown
        }
    }
}

/// The nodes with the calls that are still running.
pub open spec fn running_calls(nodes: Seq<ChatNodeView>, list: Seq<ToolFoldView>) -> Seq<ChatNodeView>
    decreases list.len(),
{
    if list.len() == 0 {
        nodes
    } else {
        let shown = running_calls(nodes, list.drop_last());
        let t = list.last();
        match (t.result, t.call) {
            (None, Some(call)) => put_node(
                shown,
                ChatNodeView {
                    key: call.call_id,
                    kind: ChatNodeKind::Tool,
                    anchor_seq: t.anchor_seq,
                    data: NodeDataView::Tool {
                        call: Some(call),
                        result: None,
                        interrupted: false,
                    },
                },
            ),
            _ => shown,
        }
    }
}

/// The nodes at the end of the window: what is published, then what is still open.
pub open spec fn finished(f: FoldView) -> Seq<ChatNodeView> {
    running_calls(running_steps(f.nodes, f.assistants), f.tools)
}

/// A list in display order with one node added: it goes behind every node whose anchor is
/// not greater.
pub open spec fn insert_by_anchor(sorted: Seq<ChatNodeView>, node: ChatNodeView) -> Seq<ChatNodeView>
    decreases sorted.len(),
{
    if sorted.len() == 0 || sorted.last().anchor_seq <= node.anchor_seq {
        sorted.push(node)
    } else {
        insert_by_anchor(sorted.drop_last(), node).push(sorted.last())
    }
}

/// The nodes by ascending anchor; nodes with the same anchor keep their order.
pub open spec fn by_anchor(nodes: Seq<ChatNodeView>) -> Seq<ChatNodeView>
    decreases nodes.len(),
{
    if nodes.len() == 0 {
        nodes
    } else {
        insert_by_anchor(by_anchor(nodes.drop_last()), nodes.last())
    }
}

/// The chat nodes of a window.
pub open spec fn chat_nodes(events: Seq<StoredEventView>) -> Seq<ChatNodeView> {
    by_anchor(finished(fold_window(events)))
}

// ---------------------------------------------------------------------------
// the fold, executed
// ---------------------------------------------------------------------------

/// The key of an assistant node: `turn:step`.
pub fn assistant_key(turn: i64, step: i64) -> (r: String)
    ensures
        r@ == assistant_node_key(turn, step),
{
    let mut key = i64_text(turn);
    key.append(":");
    key.append(i64_text(step).as_str());
    key
}

/// The index as an unsigned number, where it is one.
pub fn non_negative(index: i64) -> (r: Option<usize>)
    ensures
        r == (if 0 <= index <= usize::MAX {
            Some(index as usize)
        } else {
            None
        }),
{
    if index >= 0 && index as u64 <= usize::MAX as u64 {
        Some(index as usize)
    } else {
        None
    }
}

/// Makes room for `index`; refuses an index that is not below [`MAX_ASSISTANT_BLOCKS`].
pub fn grow_to(blocks: &mut Vec<Option<AssistantBlock>>, index: usize) -> (r: bool)
    ensures
        r == (index < MAX_ASSISTANT_BLOCKS),
        r ==> slots(final(blocks)@) == grown(slots(old(blocks)@), index as int),
        r ==> index < final(blocks)@.len(),
        !r ==> final(blocks)@ == old(blocks)@,
{
    if index >= MAX_ASSISTANT_BLOCKS {
        return false;
    }
    let ghost before = blocks@;
    while blocks.len() <= index
        invariant
            index < MAX_ASSISTANT_BLOCKS,
            before.len() <= blocks@.len(),
            blocks@.len() <= before.len() || blocks@.len() <= index + 1,
            blocks@ == before + Seq::new((blocks@.len() - before.len()) as nat, |i: int| None),
        decreases index + 1 - blocks@.len(),
    {
        blocks.push(None);
    }
    proof {
        assert(slots(blocks@) =~= grown(slots(before), index as int));
    }
    true
}

/// Sets the block at `index`, where the index is in range.
pub fn set_block(
    blocks: &mut Vec<Option<AssistantBlock>>,
    index: usize,
    block: Option<AssistantBlock>,
)
    ensures
        index < MAX_ASSISTANT_BLOCKS ==> slots(final(blocks)@) == grown(
            slots(old(blocks)@),
            index as int,
        ).update(index as int, crate::text::opt_view(block)),
        index >= MAX_ASSISTANT_BLOCKS ==> final(blocks)@ == old(blocks)@,
{
    if grow_to(blocks, index) {
        let ghost room = blocks@;
        blocks.set(index, block);
        proof {
            assert(slots(blocks@) =~= slots(room).update(
                index as int,
                crate::text::opt_view(block),
            ));
        }
    }
}

/// The blocks that have arrived, in order.
pub fn compact_blocks(blocks: &Vec<Option<AssistantBlock>>) -> (r: Vec<AssistantBlock>)
    ensures
        crate::text::views(r@) == arrived(slots(blocks@)),
{
    let mut out: Vec<AssistantBlock> = Vec::new();
    let mut i: usize = 0;
    proof {
        assert(crate::text::views(out@) =~= Seq::empty());
    }
    while i < blocks.len()
        invariant
            i <= blocks.len(),
            crate::text::views(out@) == arrived(slots(blocks@.take(i as int))),
        decreases blocks.len() - i,
    {
        proof {
            assert(slots(blocks@.take(i + 1)).drop_last() =~= slots(blocks@.take(i as int)));
            assert(slots(blocks@.take(i + 1)).last() == crate::text::opt_view(blocks@[i as int]));
        }
        match &blocks[i] {
            Some(b) => {
                let copy = b.duplicate();
                proof {
                    assert(crate::text::views(out@.push(copy)) =~= crate::text::views(out@).push(
                        copy@,
                    ));
                }
                out.push(copy);
            },
            None => {},
        }
        i = i + 1;
    }
    proof {
        assert(blocks@.take(i as int) =~= blocks@);
    }
    out
}

/// Whether there is text or reasoning to show.
pub fn has_visible_content(blocks: &Vec<AssistantBlock>) -> (r: bool)
    ensures
        r == visible(crate::text::views(blocks@)),
{
    let mut i: usize = 0;
    let ghost all = crate::text::views(blocks@);
    while i < blocks.len()
        invariant
            i <= blocks.len(),
            all == crate::text::views(blocks@),
            forall|k: int| 0 <= k < i ==> !(#[trigger] all[k]).has_visible_text(),
        decreases blocks.len() - i,
    {
        if blocks[i].has_visible_text() {
            proof {
                assert(all[i as int].has_visible_text());
            }
            return true;
        }
        i = i + 1;
    }
    false
}

/// Whether an interruption left something behind: text, reasoning or a tool call.
pub fn has_interruption_evidence(blocks: &Vec<AssistantBlock>) -> (r: bool)
    ensures
        r == interruption_evidence(crate::text::views(blocks@)),
{
    let mut i: usize = 0;
    let ghost all = crate::text::views(blocks@);
    while i < blocks.len()
        invariant
            i <= blocks.len(),
            all == crate::text::views(blocks@),
            forall|k: int|
                0 <= k < i ==> !((#[trigger] all[k]).has_visible_text() || all[k] is ToolCall),
        decreases blocks.len() - i,
    {
        let found = match &blocks[i] {
            AssistantBlock::ToolCall { .. } => true,
            _ => blocks[i].has_visible_text(),
        };
        proof {
            assert(all[i as int] == blocks@[i as int]@);
        }
        if found {
            return true;
        }
        i = i + 1;
    }
    false
}

/// The display block of a content block.
fn to_assistant_block(block: &ContentBlock) -> (r: Option<AssistantBlock>)
    ensures
        crate::text::opt_view(r) == display_block(block@),
{
    match block {
        ContentBlock::Text { text } => Some(AssistantBlock::Text { text: text.clone() }),
        ContentBlock::Reasoning { text } => Some(AssistantBlock::Reasoning { text: text.clone() }),
        ContentBlock::ToolCall { id, name, arguments } => Some(
            AssistantBlock::ToolCall {
                call_id: id.clone(),
                name: name.clone(),
                args_raw: arguments.clone(),
            },
        ),
        _ => None,
    }
}

/// The display blocks of a message.
fn to_assistant_blocks(content: &Vec<ContentBlock>) -> (r: Vec<AssistantBlock>)
    ensures
        crate::text::views(r@) == display_blocks(crate::text::views(content@)),
{
    let mut out: Vec<AssistantBlock> = Vec::new();
    let mut i: usize = 0;
    proof {
        assert(crate::text::views(out@) =~= Seq::empty());
    }
    while i < content.len()
        invariant
            i <= content.len(),
            crate::text::views(out@) == display_blocks(crate::text::views(content@.take(i as int))),
        decreases content.len() - i,
    {
        proof {
            let next = crate::text::views(content@.take(i + 1));
            assert(next.drop_last() =~= crate::text::views(content@.take(i as int)));
            assert(next.last() == content@[i as int]@);
        }
        match to_assistant_block(&content[i]) {
            Some(b) => {
                proof {
                    assert(crate::text::views(out@.push(b)) =~= crate::text::views(out@).push(b@));
                }
                out.push(b);
            },
            None => {},
        }
        i = i + 1;
    }
    proof {
        assert(content@.take(i as int) =~= content@);
    }
    out
}

/// The view of a frame, where it is for the call.
pub fn call_view_of(view: &Option<ToolEventView>) -> (r: Option<ToolEventView>)
    ensures
        crate::text::opt_view(r) == call_view(crate::text::opt_view(*view)),
{
    match view {
        Some(v) => match v {
            ToolEventView::Call { .. } => Some(v.duplicate()),
            _ => None,
        },
        None => None,
    }
}

/// The view of a frame, where it is for the result.
pub fn result_view_of(view: &Option<ToolEventView>) -> (r: Option<ToolEventView>)
    ensures
        crate::text::opt_view(r) == result_view(crate::text::opt_view(*view)),
{
    match view {
        Some(v) => match v {
            ToolEventView::Result { .. } => Some(v.duplicate()),
            _ => None,
        },
        None => None,
    }
}

/// The text of a summary, where it is not blank.
fn summary_text(blocks: &Vec<ContentBlock>) -> (r: Option<String>)
    ensures
        crate::text::opt_view(r) == summary_text_of(crate::text::views(blocks@)),
{
    let mut out = String::new();
    let mut i: usize = 0;
    while i < blocks.len()
        invariant
            i <= blocks.len(),
            out@ == joined_text(crate::text::views(blocks@.take(i as int))),
        decreases blocks.len() - i,
    {
        proof {
            let next = crate::text::views(blocks@.take(i + 1));
            assert(next.drop_last() =~= crate::text::views(blocks@.take(i as int)));
            assert(next.last() == blocks@[i as int]@);
        }
        match &blocks[i] {
            ContentBlock::Text { text } => {
                out.append(text.as_str());
            },
            _ => {},
        }
        i = i + 1;
    }
    proof {
        assert(blocks@.take(i as int) =~= blocks@);
    }
    if trimmed(out.as_str()).as_str().is_empty() {
        None
    } else {
        Some(out)
    }
}

impl AssistantFold {
    /// Makes room for the block at `at` and takes it out, where it has arrived. An index
    /// out of range gives nothing and changes nothing.
    fn take_slot(&mut self, at: usize) -> (r: Option<Option<AssistantBlock>>)
        ensures
            r is Some == (at < MAX_ASSISTANT_BLOCKS),
            r matches Some(block) ==> crate::text::opt_view(block) == slot(
                old(self)@.blocks,
                at as int,
            ) && final(self)@ == (AssistantFoldView {
                blocks: grown(old(self)@.blocks, at as int).update(at as int, None),
                ..old(self)@
            }),
            r is None ==> final(self)@ == old(self)@,
    {
        if grow_to(&mut self.blocks, at) {
            let ghost room = self.blocks@;
            let block = self.blocks[at].take();
            proof {
                assert(slots(self.blocks@) =~= slots(room).update(at as int, None));
                assert(slots(room)[at as int] == crate::text::opt_view(room[at as int]));
            }
            Some(block)
        } else {
            None
        }
    }

    /// Sets the block at `at`, where the index is in range.
    fn put_slot(&mut self, at: usize, block: Option<AssistantBlock>)
        ensures
            at < MAX_ASSISTANT_BLOCKS ==> final(self)@ == (AssistantFoldView {
                blocks: grown(old(self)@.blocks, at as int).update(
                    at as int,
                    crate::text::opt_view(block),
                ),
                ..old(self)@
            }),
            at >= MAX_ASSISTANT_BLOCKS ==> final(self)@ == old(self)@,
    {
        set_block(&mut self.blocks, at, block);
    }

    /// Applies a chunk to the open step.
    fn take_chunk(&mut self, chunk: &StreamChunk)
        ensures
            final(self)@ == after_chunk(old(self)@, chunk@),
    {
        match chunk {
            StreamChunk::BlockStart { index, block_type } => {
                match non_negative(*index) {
                    None => {},
                    Some(at) => {
                        let name = block_type.as_str();
                        let block = if same(name, "text") {
                            Some(AssistantBlock::Text { text: String::new() })
                        } else if same(name, "reasoning") {
                            Some(AssistantBlock::Reasoning { text: String::new() })
                        } else if same(name, "tool-call") {
                            Some(
                                AssistantBlock::ToolCall {
                                    call_id: String::new(),
                                    name: String::new(),
                                    args_raw: String::new(),
                                },
                            )
                        } else {
                            None
                        };
                        self.put_slot(at, block);
                    },
                }
            },
            StreamChunk::TextDelta { index, text } => {
                match non_negative(*index) {
                    None => {},
                    Some(at) => {
                        let before = match self.take_slot(at) {
                            Some(block) => block,
                            None => return,
                        };
                        let block = match before {
                            Some(AssistantBlock::Text { text: previous }) => AssistantBlock::Text {
                                text: joined(previous.as_str(), text.as_str()),
                            },
                            _ => AssistantBlock::Text { text: text.clone() },
                        };
                        self.put_slot(at, Some(block));
                        proof {
                            assert(self@.blocks =~= after_chunk(old(self)@, chunk@).blocks);
                        }
                    },
                }
            },
            StreamChunk::ReasoningDelta { index, text } => {
                match non_negative(*index) {
                    None => {},
                    Some(at) => {
                        let before = match self.take_slot(at) {
                            Some(block) => block,
                            None => return,
                        };
                        let block = match before {
                            Some(AssistantBlock::Reasoning { text: previous }) => {
                                AssistantBlock::Reasoning {
                                    text: joined(previous.as_str(), text.as_str()),
                                }
                            },
                            _ => AssistantBlock::Reasoning { text: text.clone() },
                        };
                        self.put_slot(at, Some(block));
                        proof {
                            assert(self@.blocks =~= after_chunk(old(self)@, chunk@).blocks);
                        }
                    },
                }
            },
            StreamChunk::ToolCallDelta { index, id, name, arguments_delta } => {
                match non_negative(*index) {
                    None => {},
                    Some(at) => {
                        let before = match self.take_slot(at) {
                            Some(block) => block,
                            None => return,
                        };
                        let block = match before {
                            Some(
                                AssistantBlock::ToolCall { call_id, name: previous, args_raw },
                            ) => AssistantBlock::ToolCall {
                                call_id: if call_id.as_str().is_empty() {
                                    id.0.clone()
                                } else {
                                    call_id
                                },
                                name: match name {
                                    Some(n) => n.clone(),
                                    None => previous,
                                },
                                args_raw: joined(args_raw.as_str(), arguments_delta.as_str()),
                            },
                            _ => AssistantBlock::ToolCall {
                                call_id: id.0.clone(),
                                name: match name {
                                    Some(n) => n.clone(),
                                    None => String::new(),
                                },
                                args_raw: arguments_delta.clone(),
                            },
                        };
                        self.put_slot(at, Some(block));
                        proof {
                            assert(self@.blocks =~= after_chunk(old(self)@, chunk@).blocks);
                        }
                    },
                }
            },
            StreamChunk::BlockEnd { index, block } => {
                match non_negative(*index) {
                    None => {},
                    Some(at) => {
                        self.put_slot(at, to_assistant_block(block));
                    },
                }
            },
            StreamChunk::Usage { usage } => {
                self.usage = Some(*usage);
            },
            StreamChunk::Finish { .. } => {},
        }
    }
}

impl Fold {
    pub fn new() -> (r: Fold)
        ensures
            r@ == empty_fold(),
    {
        let fold = Fold {
            assistants: Vec::new(),
            tools: Vec::new(),
            calls: Vec::new(),
            compactions: Vec::new(),
            nodes: Vec::new(),
        };
        proof {
            assert(fold@.assistants =~= Seq::empty());
            assert(fold@.tools =~= Seq::empty());
            assert(fold@.calls =~= Seq::empty());
            assert(fold@.compactions =~= Seq::empty());
            assert(fold@.nodes =~= Seq::empty());
        }
        fold
    }

    /// The position of the open step (turn, step), or the number of steps.
    fn find_step(&self, turn: i64, step: i64) -> (r: usize)
        ensures
            r == assistant_index(self@.assistants, turn, step),
            r <= self.assistants.len(),
    {
        let mut i: usize = 0;
        let ghost p = |a: AssistantFoldView| a.turn == turn && a.step == step;
        while i < self.assistants.len()
            invariant
                i <= self.assistants.len(),
                p == (|a: AssistantFoldView| a.turn == turn && a.step == step),
                forall|k: int| 0 <= k < i ==> !p(#[trigger] self@.assistants[k]),
            decreases self.assistants.len() - i,
        {
            proof {
                assert(self@.assistants[i as int] == self.assistants@[i as int]@);
            }
            if self.assistants[i].turn == turn && self.assistants[i].step == step {
                proof {
                    crate::seqs::lemma_first_index(self@.assistants, p, i as int);
                }
                return i;
            }
            i = i + 1;
        }
        proof {
            crate::seqs::lemma_first_index(self@.assistants, p, i as int);
        }
        i
    }

    /// The position of a tool call, or the number of calls.
    fn find_call(&self, call_id: &str) -> (r: usize)
        ensures
            r == tool_index(self@.tools, call_id@),
            r <= self.tools.len(),
    {
        let mut i: usize = 0;
        let ghost p = |t: ToolFoldView| t.call_id == call_id@;
        while i < self.tools.len()
            invariant
                i <= self.tools.len(),
                p == (|t: ToolFoldView| t.call_id == call_id@),
                forall|k: int| 0 <= k < i ==> !p(#[trigger] self@.tools[k]),
            decreases self.tools.len() - i,
        {
            proof {
                assert(self@.tools[i as int] == self.tools@[i as int]@);
            }
            if same(self.tools[i].call_id.as_str(), call_id) {
                proof {
                    crate::seqs::lemma_first_index(self@.tools, p, i as int);
                }
                return i;
            }
            i = i + 1;
        }
        proof {
            crate::seqs::lemma_first_index(self@.tools, p, i as int);
        }
        i
    }

    /// The position of a compaction, or the number of compactions.
    fn find_compaction(&self, id: &str) -> (r: usize)
        ensures
            r == compaction_index(self@.compactions, id@),
            r <= self.compactions.len(),
    {
        let mut i: usize = 0;
        let ghost p = |c: CompactionFoldView| c.compaction_id == id@;
        while i < self.compactions.len()
            invariant
                i <= self.compactions.len(),
                p == (|c: CompactionFoldView| c.compaction_id == id@),
                forall|k: int| 0 <= k < i ==> !p(#[trigger] self@.compactions[k]),
            decreases self.compactions.len() - i,
        {
            proof {
                assert(self@.compactions[i as int] == self.compactions@[i as int]@);
            }
            if same(self.compactions[i].compaction_id.as_str(), id) {
                proof {
                    crate::seqs::lemma_first_index(self@.compactions, p, i as int);
                }
                return i;
            }
            i = i + 1;
        }
        proof {
            crate::seqs::lemma_first_index(self@.compactions, p, i as int);
        }
        i
    }

    /// Publishes a node: it replaces the node that had its key.
    fn push_node(&mut self, node: ChatNode)
        ensures
            final(self)@ == old(self)@.put(node@),
    {
        publish(&mut self.nodes, node);
    }

    /// Publishes an unknown row.
    fn push_unknown(&mut self, stored: &StoredEvent)
        ensures
            final(self)@ == old(self)@.put(unknown_node(stored@)),
    {
        let node = ChatNode {
            key: joined("unknown:", i64_text(stored.event.seq).as_str()),
            kind: ChatNodeKind::Unknown,
            anchor_seq: stored.event.seq,
            data: NodeData::Unknown {
                event_type: stored.event.kind.clone(),
                data: stored.event.data.duplicate(),
            },
        };
        self.push_node(node);
    }

    /// The position of the step (turn, step), opened where it was not.
    fn step_at(&mut self, turn: i64, step: i64, seq: i64) -> (r: usize)
        ensures
            r == assistant_index(old(self)@.assistants, turn, step),
            r < final(self).assistants.len(),
            final(self)@ == (FoldView {
                assistants: with_step(old(self)@.assistants, turn, step, seq),
                ..old(self)@
            }),
    {
        let i = self.find_step(turn, step);
        if i == self.assistants.len() {
            let opened = AssistantFold {
                turn,
                step,
                anchor_seq: seq,
                blocks: Vec::new(),
                usage: None,
            };
            let ghost before = self.assistants@;
            proof {
                assert(opened@.blocks =~= Seq::empty());
            }
            self.assistants.push(opened);
            proof {
                assert(crate::text::views(self.assistants@) =~= crate::text::views(before).push(
                    opened@,
                ));
            }
        }
        i
    }

    /// Applies a streamed chunk: the step opens with its first chunk.
    pub fn apply_chunk(&mut self, seq: i64, turn: i64, step: i64, chunk: &StreamChunk)
        ensures
            final(self)@ == fold_chunk(old(self)@, seq, turn, step, chunk@),
    {
        let i = self.step_at(turn, step, seq);
        let ghost list = self.assistants@;
        self.assistants[i].take_chunk(chunk);
        proof {
            assert(crate::text::views(self.assistants@) =~= crate::text::views(list).update(
                i as int,
                after_chunk(crate::text::views(list)[i as int], chunk@),
            ));
        }
    }

    /// Closes the steps in scope, then the calls in scope that have no result.
    fn close(&mut self, scope: Scope, boundary_seq: i64)
        ensures
            final(self)@ == fold_boundary(old(self)@, scope, boundary_seq),
    {
        let mut steps: Vec<AssistantFold> = Vec::new();
        std::mem::swap(&mut steps, &mut self.assistants);
        let mut open: Vec<AssistantFold> = Vec::new();
        let ghost all = crate::text::views(steps@);
        let ghost start = self@.nodes;
        proof {
            assert(crate::text::views(open@) =~= Seq::empty());
            assert(all.take(0) =~= Seq::empty());
        }
        for a in iter: steps
            invariant
                crate::text::views(iter.seq()) == all,
                (crate::text::views(open@), crate::text::views(self.nodes@)) == close_steps(
                    all.take(iter.index()),
                    start,
                    scope,
                    boundary_seq,
                ),
                self.tools == old(self).tools,
                self.calls == old(self).calls,
                self.compactions == old(self).compactions,
        {
            proof {
                assert(all.take(iter.index() + 1).drop_last() =~= all.take(iter.index()));
                assert(all.take(iter.index() + 1).last() == a@);
            }
            if scope.covers(a.turn, a.step) {
                close_assistant(&mut self.nodes, a, boundary_seq);
            } else {
                proof {
                    assert(crate::text::views(open@.push(a)) =~= crate::text::views(open@).push(a@));
                }
                open.push(a);
            }
        }
        proof {
            assert(all.take(all.len() as int) =~= all);
        }
        self.assistants = open;
        let mut calls: Vec<ToolFold> = Vec::new();
        std::mem::swap(&mut calls, &mut self.tools);
        let mut kept: Vec<ToolFold> = Vec::new();
        let ghost all_calls = crate::text::views(calls@);
        let ghost shown = self@.nodes;
        let ghost steps_left = self.assistants;
        proof {
            assert(crate::text::views(kept@) =~= Seq::empty());
            assert(all_calls.take(0) =~= Seq::empty());
        }
        for t in iter: calls
            invariant
                crate::text::views(iter.seq()) == all_calls,
                (crate::text::views(kept@), crate::text::views(self.nodes@)) == close_calls(
                    all_calls.take(iter.index()),
                    shown,
                    scope,
                ),
                self.assistants == steps_left,
                self.calls == old(self).calls,
                self.compactions == old(self).compactions,
        {
            proof {
                assert(all_calls.take(iter.index() + 1).drop_last() =~= all_calls.take(
                    iter.index(),
                ));
                assert(all_calls.take(iter.index() + 1).last() == t@);
            }
            if scope.covers(t.turn, t.step) && t.result.is_none() {
                close_tool(&mut self.nodes, t);
            } else {
                proof {
                    assert(crate::text::views(kept@.push(t)) =~= crate::text::views(kept@).push(t@));
                }
                kept.push(t);
            }
        }
        proof {
            assert(all_calls.take(all_calls.len() as int) =~= all_calls);
        }
        self.tools = kept;
    }
}

/// Publishes a node: it goes to the end and replaces the node that had its key.
fn publish(nodes: &mut Vec<ChatNode>, node: ChatNode)
    ensures
        crate::text::views(final(nodes)@) == put_node(crate::text::views(old(nodes)@), node@),
{
    let ghost all = crate::text::views(nodes@);
    let ghost p = |n: ChatNodeView| n.key == node@.key;
    let mut i: usize = 0;
    while i < nodes.len()
        invariant
            i <= nodes.len(),
            all == crate::text::views(nodes@),
            nodes@ == old(nodes)@,
            p == (|n: ChatNodeView| n.key == node@.key),
            forall|k: int| 0 <= k < i ==> !p(#[trigger] all[k]),
        decreases nodes.len() - i,
    {
        proof {
            assert(all[i as int] == nodes@[i as int]@);
        }
        if same(nodes[i].key.as_str(), node.key.as_str()) {
            proof {
                crate::seqs::lemma_first_index(all, p, i as int);
                assert(crate::text::views(nodes@.remove(i as int).push(node)) =~= all.remove(
                    i as int,
                ).push(node@));
            }
            nodes.remove(i);
            nodes.push(node);
            return;
        }
        i = i + 1;
    }
    proof {
        crate::seqs::lemma_first_index(all, p, i as int);
        assert(crate::text::views(nodes@.push(node)) =~= all.push(node@));
    }
    nodes.push(node);
}

/// Closes a step: it shows as interrupted where it left something behind.
fn close_assistant(nodes: &mut Vec<ChatNode>, a: AssistantFold, boundary_seq: i64)
    ensures
        crate::text::views(final(nodes)@) == close_step_node(
            crate::text::views(old(nodes)@),
            a@,
            boundary_seq,
        ),
{
    let blocks = compact_blocks(&a.blocks);
    if !has_interruption_evidence(&blocks) {
        return;
    }
    let node = ChatNode {
        key: assistant_key(a.turn, a.step),
        kind: ChatNodeKind::Assistant,
        anchor_seq: boundary_seq,
        data: NodeData::Assistant {
            turn: a.turn,
            step: a.step,
            blocks,
            usage: a.usage,
            finalized: false,
            interrupted: true,
        },
    };
    publish(nodes, node);
}

/// Closes a call that has no result: it shows as interrupted.
fn close_tool(nodes: &mut Vec<ChatNode>, t: ToolFold)
    ensures
        crate::text::views(final(nodes)@) == close_call_node(crate::text::views(old(nodes)@), t@),
{
    match t.call {
        None => {},
        Some(call) => {
            let content: Vec<ContentBlock> = Vec::new();
            proof {
                assert(crate::text::views(content@) =~= Seq::empty());
            }
            let result = ToolResultNode {
                call_id: t.call_id.clone(),
                call: Some(
                    ToolCallBackfill { name: call.name.clone(), args_raw: call.args_raw.clone() },
                ),
                call_time: Some(call.time),
                result_time: None,
                content,
                is_error: true,
                error: Some(
                    ToolErrorIdentity {
                        name: "Interrupted".to_owned(),
                        code: "interrupted".to_owned(),
                    },
                ),
                meta: None,
                call_view: duplicate_opt(&call.call_view),
                result_view: None,
            };
            let node = ChatNode {
                key: t.call_id,
                kind: ChatNodeKind::Tool,
                anchor_seq: t.anchor_seq,
                data: NodeData::Tool {
                    call: Some(call),
                    result: Some(result),
                    interrupted: true,
                },
            };
            publish(nodes, node);
        },
    }
}

/// Whether a surface marker replaces a range.
fn replaces_surface(op: &Option<Json>) -> (r: bool)
    ensures
        r == (crate::store::event_data::surface_op(crate::text::opt_view(*op)) is Some
            && crate::store::event_data::surface_op(crate::text::opt_view(*op))->0 is Replace),
{
    let marker = match op {
        Some(v) => parse_surface_op(Some(v)),
        None => parse_surface_op(None),
    };
    match marker {
        Some(SurfaceOp::Replace { .. }) => true,
        _ => false,
    }
}

/// Whether an optional string is `expected`.
fn says(value: Option<&str>, expected: &str) -> (r: bool)
    ensures
        r == (crate::text::opt_view(value) == Some(expected@)),
{
    match value {
        Some(s) => same(s, expected),
        None => false,
    }
}

/// The summary that the data of a `compaction/summary` event reports.
fn parse_compaction_summary(data: &Json) -> (r: Option<(String, CompactionSummary)>)
    ensures
        match r {
            Some((id, summary)) => compaction_summary(data@) == Some((id@, summary@)),
            None => compaction_summary(data@) is None,
        },
{
    let id = match data.get_str("compactionId") {
        Some(id) => id,
        None => return None,
    };
    let shadowed_token_count = match data.get_i64("shadowedTokenCount") {
        Some(n) => n,
        None => return None,
    };
    let seqs = match data.get("shadowedSeqs") {
        Some(Json::Array(seqs)) => seqs,
        _ => return None,
    };
    let blocks = match data.get("summary") {
        Some(Json::Array(blocks)) => blocks,
        _ => return None,
    };
    let ghost given = data@.get("shadowedSeqs"@)->0->Array_0;
    proof {
        assert(crate::text::views(seqs@) =~= given);
        assert(crate::text::views(blocks@) =~= data@.get("summary"@)->0->Array_0);
    }
    let summary = match parse_content_blocks(blocks) {
        Ok(summary) => summary,
        Err(_) => return None,
    };
    let mut i: usize = 0;
    while i < seqs.len()
        invariant
            i <= seqs.len(),
            given == crate::text::views(seqs@),
            data@.get("shadowedSeqs"@) == Some(JsonView::Array(given)),
            forall|k: int| 0 <= k < i ==> #[trigger] given[k] is Int,
        decreases seqs.len() - i,
    {
        proof {
            assert(given[i as int] == seqs@[i as int]@);
        }
        match &seqs[i] {
            Json::Int(_) => {},
            _ => {
                proof {
                    assert(!(given[i as int] is Int));
                }
                return None;
            },
        }
        i = i + 1;
    }
    Some(
        (
            id.to_owned(),
            CompactionSummary { summary, shadowed_items: seqs.len(), shadowed_token_count },
        ),
    )
}

impl Fold {
    /// The position of a known call, or the number of them.
    fn find_known(&self, call_id: &str) -> (r: usize)
        ensures
            r == call_index(self@.calls, call_id@),
            r <= self.calls@.len(),
    {
        let ghost p = |c: RunningToolCallView| c.call_id == call_id@;
        let ghost all = self@.calls;
        let mut i: usize = 0;
        while i < self.calls.len()
            invariant
                i <= self.calls.len(),
                all == crate::text::views(self.calls@),
                p == (|c: RunningToolCallView| c.call_id == call_id@),
                forall|k: int| 0 <= k < i ==> !p(#[trigger] all[k]),
            decreases self.calls.len() - i,
        {
            proof {
                assert(all[i as int] == self.calls@[i as int]@);
            }
            if same(self.calls[i].call_id.as_str(), call_id) {
                proof {
                    assert(p(all[i as int]));
                    crate::seqs::lemma_first_index(all, p, i as int);
                }
                return i;
            }
            i = i + 1;
        }
        proof {
            crate::seqs::lemma_first_index(all, p, i as int);
        }
        i
    }

    /// Keeps a call.
    fn know(&mut self, call: RunningToolCall)
        ensures
            final(self)@ == (FoldView { calls: with_known(old(self)@.calls, call@), ..old(self)@ }),
            final(self).tools == old(self).tools,
    {
        let i = self.find_known(call.call_id.as_str());
        let ghost before = crate::text::views(self.calls@);
        let ghost known = call@;
        if i < self.calls.len() {
            self.calls.set(i, call);
            proof {
                assert(crate::text::views(self.calls@) =~= before.update(i as int, known));
            }
        } else {
            self.calls.push(call);
            proof {
                assert(crate::text::views(self.calls@) =~= before.push(known));
            }
        }
    }

    /// The position of the compaction `id`, opened where it was not.
    fn compaction_at(&mut self, id: &str) -> (r: usize)
        ensures
            r == compaction_index(old(self)@.compactions, id@),
            r < final(self).compactions.len(),
            final(self)@ == (FoldView {
                compactions: with_compaction(old(self)@.compactions, id@),
                ..old(self)@
            }),
    {
        let i = self.find_compaction(id);
        if i == self.compactions.len() {
            let opened = CompactionFold {
                compaction_id: id.to_owned(),
                summary: None,
                summary_event_seq: None,
            };
            let ghost before = self.compactions@;
            self.compactions.push(opened);
            proof {
                assert(crate::text::views(self.compactions@) =~= crate::text::views(before).push(
                    opened@,
                ));
            }
        }
        i
    }

    fn apply_compaction_start(&mut self, stored: &StoredEvent)
        ensures
            final(self)@ == fold_compaction_start(old(self)@, stored@),
    {
        match stored.event.data.get_str("compactionId") {
            Some(id) => {
                self.compaction_at(id);
            },
            None => {},
        }
    }

    fn apply_compaction_summary(&mut self, stored: &StoredEvent)
        ensures
            final(self)@ == fold_compaction_summary(old(self)@, stored@),
    {
        match parse_compaction_summary(&stored.event.data) {
            Some((id, summary)) => {
                let i = self.compaction_at(id.as_str());
                let ghost list = self.compactions@;
                let ghost reported = summary@;
                self.compactions[i].summary = Some(summary);
                self.compactions[i].summary_event_seq = Some(stored.event.seq);
                proof {
                    assert(crate::text::views(self.compactions@) =~= crate::text::views(
                        list,
                    ).update(
                        i as int,
                        CompactionFoldView {
                            summary: Some(reported),
                            summary_event_seq: Some(stored@.event.seq),
                            ..crate::text::views(list)[i as int]
                        },
                    ));
                }
            },
            None => {},
        }
    }

    fn apply_compaction_checkpoint(&mut self, seq: i64, message: &UserMessage)
        ensures
            final(self)@ == fold_checkpoint(old(self)@, seq, message@),
    {
        let id = match message.source.get_str("compactionId") {
            Some(id) => id,
            None => return,
        };
        let i = self.compaction_at(id);
        let c = &self.compactions[i];
        let data = match &c.summary {
            Some(s) => NodeData::Compaction {
                summary: summary_text(&s.summary),
                summary_event_seq: c.summary_event_seq,
                shadowed_item_count: Some(s.shadowed_items),
                shadowed_token_count: Some(s.shadowed_token_count),
            },
            None => NodeData::Compaction {
                summary: None,
                summary_event_seq: c.summary_event_seq,
                shadowed_item_count: None,
                shadowed_token_count: None,
            },
        };
        let node = ChatNode {
            key: c.compaction_id.clone(),
            kind: ChatNodeKind::Compaction,
            anchor_seq: seq,
            data,
        };
        proof {
            assert(self@.compactions[i as int] == self.compactions@[i as int]@);
        }
        self.push_node(node);
    }

    fn apply_user_message(&mut self, stored: &StoredEvent, message: &UserMessage)
        ensures
            final(self)@ == fold_user_message(old(self)@, stored@, message@),
    {
        let replaces = replaces_surface(&stored.event.surface_op);
        let from_user = says(message.source_kind(), "user");
        if replaces {
            let compacts = says(message.source_kind(), "plugin") && says(
                message.source_plugin(),
                "compact",
            );
            if !compacts {
                self.push_unknown(stored);
                return;
            }
            self.apply_compaction_checkpoint(stored.event.seq, message);
        } else if from_user {
            self.close(Scope::All, stored.event.seq);
        }
        let node = ChatNode {
            key: message.id.clone(),
            kind: ChatNodeKind::User,
            anchor_seq: stored.event.seq,
            data: NodeData::User {
                kind: if from_user {
                    UserNodeKind::User
                } else {
                    UserNodeKind::Context
                },
                message_id: message.id.clone(),
                content: duplicate_all(&message.content),
                source: message.source.duplicate(),
            },
        };
        self.push_node(node);
    }

    fn apply_assistant_message(
        &mut self,
        stored: &StoredEvent,
        turn: i64,
        step: i64,
        message: &AssistantMessage,
        usage: Option<TokenUsage>,
    )
        ensures
            final(self)@ == fold_assistant_message(
                old(self)@,
                stored@,
                turn,
                step,
                message@,
                usage,
            ),
    {
        if replaces_surface(&stored.event.surface_op) {
            self.push_unknown(stored);
            return;
        }
        let blocks = to_assistant_blocks(&message.content);
        proof {
            assert(crate::text::views(blocks@).len() == blocks@.len());
        }
        if blocks.len() == 0 {
            return;
        }
        let i = self.find_step(turn, step);
        if i < self.assistants.len() {
            let ghost before = self.assistants@;
            self.assistants.remove(i);
            proof {
                assert(crate::text::views(self.assistants@) =~= crate::text::views(before).remove(
                    i as int,
                ));
            }
        }
        let node = ChatNode {
            key: assistant_key(turn, step),
            kind: ChatNodeKind::Assistant,
            anchor_seq: stored.event.seq,
            data: NodeData::Assistant {
                turn,
                step,
                blocks,
                usage,
                finalized: true,
                interrupted: false,
            },
        };
        self.push_node(node);
    }

    fn apply_tool_call(
        &mut self,
        stored: &StoredEvent,
        turn: i64,
        step: i64,
        call_id: &CallId,
        name: &String,
        arguments: &String,
    )
        ensures
            final(self)@ == fold_tool_call(
                old(self)@,
                stored@,
                turn,
                step,
                call_id@,
                name@,
                arguments@,
            ),
    {
        let running = RunningToolCall {
            call_id: call_id.0.clone(),
            name: name.clone(),
            args_raw: arguments.clone(),
            turn,
            step,
            time: stored.event.time,
            call_view: call_view_of(&stored.view),
        };
        let i = self.find_call(call_id.0.as_str());
        let ghost before = self.tools@;
        let ghost call = running@;
        if i < self.tools.len() {
            proof {
                assert(self@.tools[i as int] == before[i as int]@);
            }
            if self.tools[i].call.is_none() {
                let result = match duplicate_opt(&self.tools[i].result) {
                    Some(known) => Some(
                        ToolResultNode {
                            call: Some(
                                ToolCallBackfill {
                                    name: running.name.clone(),
                                    args_raw: running.args_raw.clone(),
                                },
                            ),
                            call_time: Some(running.time),
                            call_view: duplicate_opt(&running.call_view),
                            ..known
                        },
                    ),
                    None => None,
                };
                let shown = duplicate_opt(&result);
                let ghost entry = with_call(crate::text::views(before)[i as int], call);
                proof {
                    assert(crate::text::opt_view(result) == entry.result);
                }
                self.tools[i].result = result;
                self.tools[i].call = Some(running.duplicate());
                self.know(running.duplicate());
                proof {
                    assert(crate::text::views(self.tools@) =~= crate::text::views(before).update(
                        i as int,
                        entry,
                    ));
                }
                if shown.is_some() {
                    let node = ChatNode {
                        key: self.tools[i].call_id.clone(),
                        kind: ChatNodeKind::Tool,
                        anchor_seq: self.tools[i].anchor_seq,
                        data: NodeData::Tool {
                            call: Some(running),
                            result: shown,
                            interrupted: false,
                        },
                    };
                    proof {
                        assert(node@ == settled_call(entry));
                    }
                    self.push_node(node);
                }
            }
        } else {
            self.know(running.duplicate());
            let opened = ToolFold {
                call_id: call_id.0.clone(),
                call: Some(running),
                result: None,
                turn,
                step,
                anchor_seq: stored.event.seq,
            };
            self.tools.push(opened);
            proof {
                assert(crate::text::views(self.tools@) =~= crate::text::views(before).push(opened@));
            }
        }
    }

    fn apply_tool_result(
        &mut self,
        stored: &StoredEvent,
        turn: i64,
        step: i64,
        message: &ToolResultMessage,
        error: &Option<ToolErrorIdentity>,
        meta: &Option<Json>,
    )
        ensures
            final(self)@ == fold_tool_result(
                old(self)@,
                stored@,
                turn,
                step,
                message@,
                crate::text::opt_view(*error),
                crate::text::opt_view(*meta),
            ),
    {
        let call_id = match message.source_call_id() {
            Some(id) => id.to_owned(),
            None => String::new(),
        };
        let content = result_content(message);
        let i = self.find_call(call_id.as_str());
        let ghost before = self.tools@;
        let known = if i < self.tools.len() {
            proof {
                assert(self@.tools[i as int] == before[i as int]@);
            }
            duplicate_opt(&self.tools[i].call)
        } else {
            let k = self.find_known(call_id.as_str());
            if k < self.calls.len() {
                proof {
                    assert(self@.calls[k as int] == self.calls@[k as int]@);
                }
                Some(self.calls[k].duplicate())
            } else {
                None
            }
        };
        let (call, call_time, call_view) = match &known {
            Some(c) => (
                Some(ToolCallBackfill { name: c.name.clone(), args_raw: c.args_raw.clone() }),
                Some(c.time),
                duplicate_opt(&c.call_view),
            ),
            None => (None, None, None),
        };
        let result = ToolResultNode {
            call_id: call_id.clone(),
            call,
            call_time,
            result_time: Some(stored.event.time),
            content,
            is_error: message.is_error(),
            error: duplicate_opt(error),
            meta: duplicate_opt(meta),
            call_view,
            result_view: result_view_of(&stored.view),
        };
        let ghost settled = result@;
        let shown = result.duplicate();
        if i < self.tools.len() {
            self.tools[i].result = Some(result);
            proof {
                assert(crate::text::views(self.tools@) =~= crate::text::views(before).update(
                    i as int,
                    ToolFoldView { result: Some(settled), ..crate::text::views(before)[i as int] },
                ));
            }
            let anchor_seq = self.tools[i].anchor_seq;
            let node = ChatNode {
                key: self.tools[i].call_id.clone(),
                kind: ChatNodeKind::Tool,
                anchor_seq,
                data: NodeData::Tool { call: known, result: Some(shown), interrupted: false },
            };
            self.push_node(node);
        } else {
            let opened = ToolFold {
                call_id: call_id.clone(),
                call: duplicate_opt(&known),
                result: Some(result),
                turn,
                step,
                anchor_seq: stored.event.seq,
            };
            self.tools.push(opened);
            proof {
                assert(crate::text::views(self.tools@) =~= crate::text::views(before).push(opened@));
            }
            let node = ChatNode {
                key: call_id,
                kind: ChatNodeKind::Tool,
                anchor_seq: stored.event.seq,
                data: NodeData::Tool { call: known, result: Some(shown), interrupted: false },
            };
            self.push_node(node);
        }
    }

    fn apply_turn_end(&mut self, stored: &StoredEvent, turn: i64, reason: &TurnEndReason)
        ensures
            final(self)@ == fold_turn_end(old(self)@, stored@, turn, reason@),
    {
        self.close(Scope::Turn(turn), stored.event.seq);
        match reason {
            TurnEndReason::Error { error } => {
                let node = ChatNode {
                    key: joined("turn-error:", i64_text(turn).as_str()),
                    kind: ChatNodeKind::TurnError,
                    anchor_seq: stored.event.seq,
                    data: NodeData::TurnError {
                        turn,
                        message: error.message.clone(),
                        code: Some(error.code.clone()),
                    },
                };
                self.push_node(node);
            },
            TurnEndReason::MaxTokens => {
                let node = ChatNode {
                    key: joined("turn-max-tokens:", i64_text(turn).as_str()),
                    kind: ChatNodeKind::TurnMaxTokens,
                    anchor_seq: stored.event.seq,
                    data: NodeData::TurnMaxTokens { turn },
                };
                self.push_node(node);
            },
            _ => {},
        }
    }

    fn apply_unknown(&mut self, stored: &StoredEvent)
        ensures
            final(self)@ == fold_unknown(old(self)@, stored@),
    {
        let kind = stored.event.kind.as_str();
        if same(kind, "compaction/start") {
            self.apply_compaction_start(stored);
        } else if same(kind, "compaction/summary") {
            self.apply_compaction_summary(stored);
        } else if same(kind, "compaction/end") {
        } else {
            self.push_unknown(stored);
        }
    }

    /// Applies one event.
    pub fn apply(&mut self, stored: &StoredEvent)
        ensures
            final(self)@ == fold_step(old(self)@, stored@),
    {
        match &stored.data {
            EventData::Unknown { ignorable } => {
                if !*ignorable {
                    self.apply_unknown(stored);
                }
            },
            EventData::TurnEnd { turn, reason } => {
                self.apply_turn_end(stored, *turn, reason);
            },
            EventData::StepStart { turn, step } => {
                self.step_at(*turn, *step, stored.event.seq);
            },
            EventData::StepEnd { turn, step } => {
                self.close(Scope::Step(*turn, *step), stored.event.seq);
            },
            EventData::UserMessage(message) => {
                self.apply_user_message(stored, message);
            },
            EventData::AssistantChunk { turn, step, chunk } => {
                self.apply_chunk(stored.event.seq, *turn, *step, chunk);
            },
            EventData::AssistantMessage { turn, step, message, usage } => {
                self.apply_assistant_message(stored, *turn, *step, message, *usage);
            },
            EventData::ToolCall { turn, step, call_id, name, arguments } => {
                self.apply_tool_call(stored, *turn, *step, call_id, name, arguments);
            },
            EventData::ToolResult { turn, step, message, error, meta } => {
                self.apply_tool_result(stored, *turn, *step, message, error, meta);
            },
            _ => {},
        }
    }

    /// The nodes at the end of the window: what is published, then what is still open.
    pub fn finish(self) -> (r: Vec<ChatNode>)
        ensures
            crate::text::views(r@) == finished(self@),
    {
        let mut nodes = self.nodes;
        let ghost published = crate::text::views(nodes@);
        let ghost steps = crate::text::views(self.assistants@);
        proof {
            assert(steps.take(0) =~= Seq::empty());
        }
        let mut i: usize = 0;
        while i < self.assistants.len()
            invariant
                i <= self.assistants.len(),
                steps == crate::text::views(self.assistants@),
                crate::text::views(nodes@) == running_steps(published, steps.take(i as int)),
            decreases self.assistants.len() - i,
        {
            let a = &self.assistants[i];
            let blocks = compact_blocks(&a.blocks);
            proof {
                assert(steps.take(i + 1).drop_last() =~= steps.take(i as int));
                assert(steps.take(i + 1).last() == a@);
            }
            if has_visible_content(&blocks) {
                let node = ChatNode {
                    key: assistant_key(a.turn, a.step),
                    kind: ChatNodeKind::Assistant,
                    anchor_seq: a.anchor_seq,
                    data: NodeData::Assistant {
                        turn: a.turn,
                        step: a.step,
                        blocks,
                        usage: a.usage,
                        finalized: false,
                        interrupted: false,
                    },
                };
                publish(&mut nodes, node);
            }
            i = i + 1;
        }
        let ghost shown = crate::text::views(nodes@);
        let ghost calls = crate::text::views(self.tools@);
        proof {
            assert(steps.take(i as int) =~= steps);
            assert(calls.take(0) =~= Seq::empty());
        }
        let mut k: usize = 0;
        while k < self.tools.len()
            invariant
                k <= self.tools.len(),
                calls == crate::text::views(self.tools@),
                crate::text::views(nodes@) == running_calls(shown, calls.take(k as int)),
            decreases self.tools.len() - k,
        {
            let t = &self.tools[k];
            proof {
                assert(calls.take(k + 1).drop_last() =~= calls.take(k as int));
                assert(calls.take(k + 1).last() == t@);
            }
            if t.result.is_none() {
                match &t.call {
                    Some(call) => {
                        let node = ChatNode {
                            key: call.call_id.clone(),
                            kind: ChatNodeKind::Tool,
                            anchor_seq: t.anchor_seq,
                            data: NodeData::Tool {
                                call: Some(call.duplicate()),
                                result: None,
                                interrupted: false,
                            },
                        };
                        publish(&mut nodes, node);
                    },
                    None => {},
                }
            }
            k = k + 1;
        }
        proof {
            assert(calls.take(k as int) =~= calls);
        }
        nodes
    }
}

/// The content of the result that a message carries.
fn result_content(message: &ToolResultMessage) -> (r: Vec<ContentBlock>)
    ensures
        crate::text::views(r@) == (match message@.result_block() {
            Some(b) => b->ToolResult_content,
            None => Seq::empty(),
        }),
{
    match message.tool_result_block() {
        Some(block) => match block {
            ContentBlock::ToolResult { tool_call_id, content, is_error } => {
                proof {
                    crate::store::event_data::lemma_result_view(*tool_call_id, *content, *is_error);
                }
                duplicate_all(content)
            },
            _ => {
                let none: Vec<ContentBlock> = Vec::new();
                none
            },
        },
        None => {
            let none: Vec<ContentBlock> = Vec::new();
            proof {
                assert(crate::text::views(none@) =~= Seq::empty());
            }
            none
        },
    }
}

/// Puts a node into a list in display order, behind every node whose anchor is not
/// greater.
fn insert_sorted(sorted: &mut Vec<ChatNode>, node: ChatNode)
    ensures
        crate::text::views(final(sorted)@) == insert_by_anchor(
            crate::text::views(old(sorted)@),
            node@,
        ),
{
    let ghost all = crate::text::views(sorted@);
    let mut at: usize = sorted.len();
    proof {
        assert(all.take(at as int) =~= all);
        assert(all.skip(at as int) =~= Seq::empty());
        assert(insert_by_anchor(all.take(at as int), node@) + all.skip(at as int)
            =~= insert_by_anchor(all, node@));
    }
    while at > 0 && sorted[at - 1].anchor_seq > node.anchor_seq
        invariant
            at <= sorted.len(),
            all == crate::text::views(sorted@),
            insert_by_anchor(all, node@) == insert_by_anchor(all.take(at as int), node@)
                + all.skip(at as int),
            sorted@ == old(sorted)@,
        decreases at,
    {
        proof {
            let prefix = all.take(at as int);
            assert(prefix.last() == sorted@[at - 1]@);
            assert(prefix.drop_last() =~= all.take(at - 1));
            assert(insert_by_anchor(all.take(at - 1), node@).push(prefix.last()) + all.skip(
                at as int,
            ) =~= insert_by_anchor(all.take(at - 1), node@) + all.skip(at - 1));
        }
        at = at - 1;
    }
    proof {
        let prefix = all.take(at as int);
        if at > 0 {
            assert(prefix.last() == sorted@[at - 1]@);
        }
        assert(insert_by_anchor(prefix, node@) == prefix.push(node@));
        assert(crate::text::views(sorted@.insert(at as int, node)) =~= prefix.push(node@)
            + all.skip(at as int));
    }
    sorted.insert(at, node);
}

/// The chat nodes of a window of events, by ascending anchor.
pub fn fold_events(events: &Vec<StoredEvent>) -> (r: Vec<ChatNode>)
    ensures
        crate::text::views(r@) == chat_nodes(crate::text::views(events@)),
{
    let mut fold = Fold::new();
    let ghost all = crate::text::views(events@);
    proof {
        assert(all.take(0) =~= Seq::empty());
    }
    let mut i: usize = 0;
    while i < events.len()
        invariant
            i <= events.len(),
            all == crate::text::views(events@),
            fold@ == fold_window(all.take(i as int)),
        decreases events.len() - i,
    {
        proof {
            assert(all.take(i + 1).drop_last() =~= all.take(i as int));
            assert(all.take(i + 1).last() == events@[i as int]@);
        }
        fold.apply(&events[i]);
        i = i + 1;
    }
    proof {
        assert(all.take(i as int) =~= all);
    }
    let nodes = fold.finish();
    let ghost unsorted = crate::text::views(nodes@);
    let mut sorted: Vec<ChatNode> = Vec::new();
    proof {
        assert(crate::text::views(sorted@) =~= Seq::empty());
        assert(unsorted.take(0) =~= Seq::empty());
    }
    for node in iter: nodes
        invariant
            crate::text::views(iter.seq()) == unsorted,
            crate::text::views(sorted@) == by_anchor(unsorted.take(iter.index())),
    {
        proof {
            assert(unsorted.take(iter.index() + 1).drop_last() =~= unsorted.take(iter.index()));
            assert(unsorted.take(iter.index() + 1).last() == node@);
        }
        insert_sorted(&mut sorted, node);
    }
    proof {
        assert(unsorted.take(unsorted.len() as int) =~= unsorted);
    }
    sorted
}

} // verus!
