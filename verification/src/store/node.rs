//! Chat nodes: the conversation tree that the event fold derives.

use vstd::prelude::*;

use crate::json::{Json, JsonView};
use crate::store::event_data::{
    ContentBlock, ContentBlockView, TokenUsage, ToolErrorIdentity, ToolErrorIdentityView,
};
use crate::text::{duplicate_all, duplicate_opt, trimmed, Duplicate};
use crate::wire::{ToolEventView, ToolEventViewView};

verus! {

/// Stable identity of a chat node: it survives rebuilds of the node list. User nodes
/// use the message id, assistant nodes `turn:step`, tool nodes the call id, compaction
/// nodes the compaction id; notices and unknown rows use `turn-error:{turn}`,
/// `turn-max-tokens:{turn}` and `unknown:{seq}`.
pub type NodeKey = String;

/// The kinds of chat node.
#[derive(Debug, Clone, Copy, PartialEq, Eq, Structural)]
pub enum ChatNodeKind {
    User,
    Assistant,
    Tool,
    Compaction,
    TurnError,
    TurnMaxTokens,
    Unknown,
}

/// Who a user node speaks for.
#[derive(Debug, Clone, Copy, PartialEq, Eq, Structural)]
pub enum UserNodeKind {
    User,
    Steering,
    Context,
}

/// Whether one node is shown collapsed.
#[derive(Debug, Clone, Copy, PartialEq, Eq, Structural)]
pub struct FoldState {
    pub collapsed: bool,
}

/// A display block of an assistant node.
#[derive(Debug, PartialEq)]
pub enum AssistantBlock {
    Text { text: String },
    Reasoning { text: String },
    ToolCall { call_id: String, name: String, args_raw: String },
}

/// What a [`AssistantBlock`] stands for.
pub enum AssistantBlockView {
    Text { text: Seq<char> },
    Reasoning { text: Seq<char> },
    ToolCall { call_id: Seq<char>, name: Seq<char>, args_raw: Seq<char> },
}

impl View for AssistantBlock {
    type V = AssistantBlockView;

    open spec fn view(&self) -> AssistantBlockView {
        match *self {
            AssistantBlock::Text { text } => AssistantBlockView::Text {
                text: text@,
            },
            AssistantBlock::Reasoning { text } => AssistantBlockView::Reasoning {
                text: text@,
            },
            AssistantBlock::ToolCall { call_id, name, args_raw } => AssistantBlockView::ToolCall {
                call_id: call_id@,
                name: name@,
                args_raw: args_raw@,
            },
        }
    }
}

impl Duplicate for AssistantBlock {
    fn duplicate(&self) -> (r: Self) {
        match self {
            AssistantBlock::Text { text } => AssistantBlock::Text {
                text: text.clone(),
            },
            AssistantBlock::Reasoning { text } => AssistantBlock::Reasoning {
                text: text.clone(),
            },
            AssistantBlock::ToolCall { call_id, name, args_raw } => AssistantBlock::ToolCall {
                call_id: call_id.clone(),
                name: name.clone(),
                args_raw: args_raw.clone(),
            },
        }
    }
}

impl Clone for AssistantBlock {
    fn clone(&self) -> (r: Self)
        ensures
            r@ == self@,
    {
        self.duplicate()
    }
}

/// The call of a tool node, as `tool/call` reported it.
#[derive(Debug, PartialEq)]
pub struct RunningToolCall {
    pub call_id: String,
    pub name: String,
    /// The arguments, exactly as the model produced them.
    pub args_raw: String,
    pub turn: i64,
    pub step: i64,
    pub time: u64,
    pub call_view: Option<ToolEventView>,
}

/// What a [`RunningToolCall`] stands for.
pub struct RunningToolCallView {
    pub call_id: Seq<char>,
    pub name: Seq<char>,
    pub args_raw: Seq<char>,
    pub turn: i64,
    pub step: i64,
    pub time: u64,
    pub call_view: Option<ToolEventViewView>,
}

impl View for RunningToolCall {
    type V = RunningToolCallView;

    open spec fn view(&self) -> RunningToolCallView {
        RunningToolCallView {
            call_id: self.call_id@,
            name: self.name@,
            args_raw: self.args_raw@,
            turn: self.turn,
            step: self.step,
            time: self.time,
            call_view: crate::text::opt_view(self.call_view),
        }
    }
}

impl Duplicate for RunningToolCall {
    fn duplicate(&self) -> (r: Self) {
        RunningToolCall {
            call_id: self.call_id.clone(),
            name: self.name.clone(),
            args_raw: self.args_raw.clone(),
            turn: self.turn,
            step: self.step,
            time: self.time,
            call_view: duplicate_opt(&self.call_view),
        }
    }
}

impl Clone for RunningToolCall {
    fn clone(&self) -> (r: Self)
        ensures
            r@ == self@,
    {
        self.duplicate()
    }
}

/// The call identity that a settled result carries.
#[derive(Debug, PartialEq)]
pub struct ToolCallBackfill {
    pub name: String,
    pub args_raw: String,
}

/// What a [`ToolCallBackfill`] stands for.
pub struct ToolCallBackfillView {
    pub name: Seq<char>,
    pub args_raw: Seq<char>,
}

impl View for ToolCallBackfill {
    type V = ToolCallBackfillView;

    open spec fn view(&self) -> ToolCallBackfillView {
        ToolCallBackfillView {
            name: self.name@,
            args_raw: self.args_raw@,
        }
    }
}

impl Duplicate for ToolCallBackfill {
    fn duplicate(&self) -> (r: Self) {
        ToolCallBackfill {
            name: self.name.clone(),
            args_raw: self.args_raw.clone(),
        }
    }
}

impl Clone for ToolCallBackfill {
    fn clone(&self) -> (r: Self)
        ensures
            r@ == self@,
    {
        self.duplicate()
    }
}

/// The settled state of a tool node.
#[derive(Debug, PartialEq)]
pub struct ToolResultNode {
    pub call_id: String,
    /// `None` when the call fell out of the window.
    pub call: Option<ToolCallBackfill>,
    pub call_time: Option<u64>,
    /// `None` on an interrupted call: there is no result event.
    pub result_time: Option<u64>,
    pub content: Vec<ContentBlock>,
    pub is_error: bool,
    pub error: Option<ToolErrorIdentity>,
    pub meta: Option<Json>,
    pub call_view: Option<ToolEventView>,
    pub result_view: Option<ToolEventView>,
}

/// What a [`ToolResultNode`] stands for.
pub struct ToolResultNodeView {
    pub call_id: Seq<char>,
    pub call: Option<ToolCallBackfillView>,
    pub call_time: Option<u64>,
    pub result_time: Option<u64>,
    pub content: Seq<ContentBlockView>,
    pub is_error: bool,
    pub error: Option<ToolErrorIdentityView>,
    pub meta: Option<JsonView>,
    pub call_view: Option<ToolEventViewView>,
    pub result_view: Option<ToolEventViewView>,
}

impl View for ToolResultNode {
    type V = ToolResultNodeView;

    open spec fn view(&self) -> ToolResultNodeView {
        ToolResultNodeView {
            call_id: self.call_id@,
            call: crate::text::opt_view(self.call),
            call_time: self.call_time,
            result_time: self.result_time,
            content: crate::text::views(self.content@),
            is_error: self.is_error,
            error: crate::text::opt_view(self.error),
            meta: crate::text::opt_view(self.meta),
            call_view: crate::text::opt_view(self.call_view),
            result_view: crate::text::opt_view(self.result_view),
        }
    }
}

impl Duplicate for ToolResultNode {
    fn duplicate(&self) -> (r: Self) {
        ToolResultNode {
            call_id: self.call_id.clone(),
            call: duplicate_opt(&self.call),
            call_time: self.call_time,
            result_time: self.result_time,
            content: duplicate_all(&self.content),
            is_error: self.is_error,
            error: duplicate_opt(&self.error),
            meta: duplicate_opt(&self.meta),
            call_view: duplicate_opt(&self.call_view),
            result_view: duplicate_opt(&self.result_view),
        }
    }
}

impl Clone for ToolResultNode {
    fn clone(&self) -> (r: Self)
        ensures
            r@ == self@,
    {
        self.duplicate()
    }
}

/// The payload of a node.
#[derive(Debug, PartialEq)]
pub enum NodeData {
    User { kind: UserNodeKind, message_id: String, content: Vec<ContentBlock>, source: Json },
    Assistant { turn: i64, step: i64, blocks: Vec<AssistantBlock>, usage: Option<TokenUsage>, finalized: bool, interrupted: bool },
    Tool { call: Option<RunningToolCall>, result: Option<ToolResultNode>, interrupted: bool },
    Compaction { summary: Option<String>, summary_event_seq: Option<i64>, shadowed_item_count: Option<usize>, shadowed_token_count: Option<i64> },
    TurnError { turn: i64, message: String, code: Option<String> },
    TurnMaxTokens { turn: i64 },
    Unknown { event_type: String, data: Json },
}

/// What a [`NodeData`] stands for.
pub enum NodeDataView {
    User { kind: UserNodeKind, message_id: Seq<char>, content: Seq<ContentBlockView>, source: JsonView },
    Assistant { turn: i64, step: i64, blocks: Seq<AssistantBlockView>, usage: Option<TokenUsage>, finalized: bool, interrupted: bool },
    Tool { call: Option<RunningToolCallView>, result: Option<ToolResultNodeView>, interrupted: bool },
    Compaction { summary: Option<Seq<char>>, summary_event_seq: Option<i64>, shadowed_item_count: Option<usize>, shadowed_token_count: Option<i64> },
    TurnError { turn: i64, message: Seq<char>, code: Option<Seq<char>> },
    TurnMaxTokens { turn: i64 },
    Unknown { event_type: Seq<char>, data: JsonView },
}

impl View for NodeData {
    type V = NodeDataView;

    open spec fn view(&self) -> NodeDataView {
        match *self {
            NodeData::User { kind, message_id, content, source } => NodeDataView::User {
                kind,
                message_id: message_id@,
                content: crate::text::views(content@),
                source: source@,
            },
            NodeData::Assistant { turn, step, blocks, usage, finalized, interrupted } => NodeDataView::Assistant {
                turn,
                step,
                blocks: crate::text::views(blocks@),
                usage,
                finalized,
                interrupted,
            },
            NodeData::Tool { call, result, interrupted } => NodeDataView::Tool {
                call: crate::text::opt_view(call),
                result: crate::text::opt_view(result),
                interrupted,
            },
            NodeData::Compaction { summary, summary_event_seq, shadowed_item_count, shadowed_token_count } => NodeDataView::Compaction {
                summary: crate::text::opt_view(summary),
                summary_event_seq,
                shadowed_item_count,
                shadowed_token_count,
            },
            NodeData::TurnError { turn, message, code } => NodeDataView::TurnError {
                turn,
                message: message@,
                code: crate::text::opt_view(code),
            },
            NodeData::TurnMaxTokens { turn } => NodeDataView::TurnMaxTokens {
                turn,
            },
            NodeData::Unknown { event_type, data } => NodeDataView::Unknown {
                event_type: event_type@,
                data: data@,
            },
        }
    }
}

impl Duplicate for NodeData {
    fn duplicate(&self) -> (r: Self) {
        match self {
            NodeData::User { kind, message_id, content, source } => NodeData::User {
                kind: *kind,
                message_id: message_id.clone(),
                content: duplicate_all(content),
                source: source.duplicate(),
            },
            NodeData::Assistant { turn, step, blocks, usage, finalized, interrupted } => NodeData::Assistant {
                turn: *turn,
                step: *step,
                blocks: duplicate_all(blocks),
                usage: *usage,
                finalized: *finalized,
                interrupted: *interrupted,
            },
            NodeData::Tool { call, result, interrupted } => NodeData::Tool {
                call: duplicate_opt(call),
                result: duplicate_opt(result),
                interrupted: *interrupted,
            },
            NodeData::Compaction { summary, summary_event_seq, shadowed_item_count, shadowed_token_count } => NodeData::Compaction {
                summary: duplicate_opt(summary),
                summary_event_seq: *summary_event_seq,
                shadowed_item_count: *shadowed_item_count,
                shadowed_token_count: *shadowed_token_count,
            },
            NodeData::TurnError { turn, message, code } => NodeData::TurnError {
                turn: *turn,
                message: message.clone(),
                code: duplicate_opt(code),
            },
            NodeData::TurnMaxTokens { turn } => NodeData::TurnMaxTokens {
                turn: *turn,
            },
            NodeData::Unknown { event_type, data } => NodeData::Unknown {
                event_type: event_type.clone(),
                data: data.duplicate(),
            },
        }
    }
}

impl Clone for NodeData {
    fn clone(&self) -> (r: Self)
        ensures
            r@ == self@,
    {
        self.duplicate()
    }
}

/// One derived chat node.
#[derive(Debug, PartialEq)]
pub struct ChatNode {
    pub key: NodeKey,
    pub kind: ChatNodeKind,
    /// The display position: the seq of the event that created the node.
    pub anchor_seq: i64,
    pub data: NodeData,
}

/// What a [`ChatNode`] stands for.
pub struct ChatNodeView {
    pub key: Seq<char>,
    pub kind: ChatNodeKind,
    pub anchor_seq: i64,
    pub data: NodeDataView,
}

impl View for ChatNode {
    type V = ChatNodeView;

    open spec fn view(&self) -> ChatNodeView {
        ChatNodeView {
            key: self.key@,
            kind: self.kind,
            anchor_seq: self.anchor_seq,
            data: self.data@,
        }
    }
}

impl Duplicate for ChatNode {
    fn duplicate(&self) -> (r: Self) {
        ChatNode {
            key: self.key.clone(),
            kind: self.kind,
            anchor_seq: self.anchor_seq,
            data: self.data.duplicate(),
        }
    }
}

impl Clone for ChatNode {
    fn clone(&self) -> (r: Self)
        ensures
            r@ == self@,
    {
        self.duplicate()
    }
}

impl AssistantBlockView {
    /// Text or reasoning that is not blank.
    pub open spec fn has_visible_text(self) -> bool {
        match self {
            AssistantBlockView::Text { text } => crate::text::trim(text).len() > 0,
            AssistantBlockView::Reasoning { text } => crate::text::trim(text).len() > 0,
            AssistantBlockView::ToolCall { .. } => false,
        }
    }
}

impl AssistantBlock {
    /// Whether the block is text or reasoning that is not blank.
    pub fn has_visible_text(&self) -> (r: bool)
        ensures
            r == self@.has_visible_text(),
    {
        match self {
            AssistantBlock::Text { text } => !trimmed(text.as_str()).as_str().is_empty(),
            AssistantBlock::Reasoning { text } => !trimmed(text.as_str()).as_str().is_empty(),
            AssistantBlock::ToolCall { .. } => false,
        }
    }
}

impl Default for FoldState {
    fn default() -> (r: Self)
        ensures
            !r.collapsed,
    {
        FoldState { collapsed: false }
    }
}

/// The fold state of a node that nobody folded: assistant nodes, the notices of a turn and
/// unknown rows are expanded; tools, compactions and user messages are collapsed.
pub open spec fn default_fold(data: NodeDataView) -> FoldState {
    match data {
        NodeDataView::Assistant { .. } => FoldState { collapsed: false },
        NodeDataView::TurnError { .. } => FoldState { collapsed: false },
        NodeDataView::TurnMaxTokens { .. } => FoldState { collapsed: false },
        NodeDataView::Unknown { .. } => FoldState { collapsed: false },
        NodeDataView::Tool { .. } => FoldState { collapsed: true },
        NodeDataView::Compaction { .. } => FoldState { collapsed: true },
        NodeDataView::User { .. } => FoldState { collapsed: true },
    }
}

impl FoldState {
    /// The collapsed state.
    pub fn collapsed() -> (r: Self)
        ensures
            r == (FoldState { collapsed: true }),
    {
        FoldState { collapsed: true }
    }

    /// The expanded state.
    pub fn expanded() -> (r: Self)
        ensures
            r == (FoldState { collapsed: false }),
    {
        FoldState { collapsed: false }
    }

    /// The state of a node that nobody folded.
    pub fn default_for(node: &ChatNode) -> (r: Self)
        ensures
            r == default_fold(node@.data),
    {
        match &node.data {
            NodeData::Assistant { .. } => FoldState::expanded(),
            NodeData::TurnError { .. } => FoldState::expanded(),
            NodeData::TurnMaxTokens { .. } => FoldState::expanded(),
            NodeData::Unknown { .. } => FoldState::expanded(),
            NodeData::Tool { .. } => FoldState::collapsed(),
            NodeData::Compaction { .. } => FoldState::collapsed(),
            NodeData::User { .. } => FoldState::collapsed(),
        }
    }
}

impl View for FoldState {
    type V = FoldState;

    open spec fn view(&self) -> FoldState {
        *self
    }
}

} // verus!
