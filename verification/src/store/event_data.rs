//! Typed payloads of session events.
//! 
//! Parsing is tolerant where the vocabulary may grow (unknown event types become
//! [`EventData::Unknown`], unknown content blocks [`ContentBlock::Raw`]) and strict where a
//! known type is malformed. What is wrong is then told in the words of the JSON parser; see
//! [`crate::store::shape`].

use vstd::prelude::*;

use crate::json::{Json, JsonView};
use crate::store::shape::{
    add_slot, check_array, check_int, check_object, check_shape, check_text, find_field, read_int,
    read_text, skip_null, take_int, take_text, tell_missing, tell_wrong_type, Slot, SlotView,
};
use crate::text::{duplicate_all, duplicate_opt, joined, same, Duplicate};
use crate::wire::{ImageAttachmentRef, ImageAttachmentRefView};

verus! {

/// A known event type whose payload is malformed.
#[derive(Debug, PartialEq, Eq)]
pub struct EventDataError(pub String);

impl View for EventDataError {
    type V = Seq<char>;

    open spec fn view(&self) -> Seq<char> {
        self.0@
    }
}

impl Duplicate for EventDataError {
    fn duplicate(&self) -> (r: Self) {
        EventDataError(self.0.clone())
    }
}

impl EventDataError {
    /// The error as a line of text.
    pub fn message(&self) -> (r: String)
        ensures
            r@ == refused(self@),
    {
        joined("invalid session event data: ", self.0.as_str())
    }
}

/// A provider-issued tool-call id: pairs `tool/call` with `tool/result`.
#[derive(Debug, PartialEq, Eq, Hash)]
pub struct CallId(pub String);

/// A call id stands for its text.
pub type CallIdView = Seq<char>;

impl View for CallId {
    type V = CallIdView;

    open spec fn view(&self) -> CallIdView {
        self.0@
    }
}

impl Duplicate for CallId {
    fn duplicate(&self) -> (r: Self) {
        CallId(self.0.clone())
    }
}

/// One content block of a message. Unknown block types are kept verbatim.
#[derive(Debug, PartialEq)]
pub enum ContentBlock {
    Text { text: String },
    Reasoning { text: String },
    Image { attachment: ImageAttachmentRef },
    ToolCall { id: String, name: String, arguments: String },
    ToolResult { tool_call_id: String, content: Vec<ContentBlock>, is_error: Option<bool> },
    Raw(Json),
}

/// What a [`ContentBlock`] stands for.
pub enum ContentBlockView {
    Text { text: Seq<char> },
    Reasoning { text: Seq<char> },
    Image { attachment: ImageAttachmentRefView },
    ToolCall { id: Seq<char>, name: Seq<char>, arguments: Seq<char> },
    ToolResult { tool_call_id: Seq<char>, content: Seq<ContentBlockView>, is_error: Option<bool> },
    Raw(JsonView),
}

/// The block that a content block stands for.
pub open spec fn block_view(block: ContentBlock) -> ContentBlockView
    decreases block,
{
    match block {
        ContentBlock::Text { text } => ContentBlockView::Text { text: text@ },
        ContentBlock::Reasoning { text } => ContentBlockView::Reasoning { text: text@ },
        ContentBlock::Image { attachment } => ContentBlockView::Image { attachment: attachment@ },
        ContentBlock::ToolCall { id, name, arguments } => ContentBlockView::ToolCall {
            id: id@,
            name: name@,
            arguments: arguments@,
        },
        ContentBlock::ToolResult { tool_call_id, content, is_error } => ContentBlockView::ToolResult {
            tool_call_id: tool_call_id@,
            content: Seq::new(
                content@.len(),
                |i: int|
                    if 0 <= i < content@.len() {
                        block_view(content@[i])
                    } else {
                        ContentBlockView::Text { text: Seq::empty() }
                    },
            ),
            is_error,
        },
        ContentBlock::Raw(value) => ContentBlockView::Raw(value@),
    }
}

impl View for ContentBlock {
    type V = ContentBlockView;

    open spec fn view(&self) -> ContentBlockView {
        block_view(*self)
    }
}

/// The nested blocks of a result block stand for their views.
pub proof fn lemma_result_view(tool_call_id: String, content: Vec<ContentBlock>, is_error: Option<bool>)
    ensures
        (ContentBlock::ToolResult { tool_call_id, content, is_error })@ == (
        ContentBlockView::ToolResult {
            tool_call_id: tool_call_id@,
            content: crate::text::views(content@),
            is_error,
        }),
{
    let block = ContentBlock::ToolResult { tool_call_id, content, is_error };
    assert(block@->ToolResult_content =~= crate::text::views(content@));
}

/// A copy of a content block.
fn duplicate_block(block: &ContentBlock) -> (r: ContentBlock)
    ensures
        r@ == block@,
    decreases block,
{
    match block {
        ContentBlock::Text { text } => ContentBlock::Text { text: text.clone() },
        ContentBlock::Reasoning { text } => ContentBlock::Reasoning { text: text.clone() },
        ContentBlock::Image { attachment } => ContentBlock::Image {
            attachment: attachment.duplicate(),
        },
        ContentBlock::ToolCall { id, name, arguments } => ContentBlock::ToolCall {
            id: id.clone(),
            name: name.clone(),
            arguments: arguments.clone(),
        },
        ContentBlock::ToolResult { tool_call_id, content, is_error } => {
            let mut out: Vec<ContentBlock> = Vec::new();
            let mut i: usize = 0;
            while i < content.len()
                invariant
                    i <= content.len(),
                    out.len() == i,
                    *block == (ContentBlock::ToolResult {
                        tool_call_id: *tool_call_id,
                        content: *content,
                        is_error: *is_error,
                    }),
                    forall|k: int| 0 <= k < i ==> (#[trigger] out@[k])@ == content@[k]@,
                decreases content.len() - i,
            {
                proof {
                    assert(decreases_to!(*block => block->ToolResult_content@[i as int]));
                }
                out.push(duplicate_block(&content[i]));
                i = i + 1;
            }
            let copy = ContentBlock::ToolResult {
                tool_call_id: tool_call_id.clone(),
                content: out,
                is_error: *is_error,
            };
            proof {
                assert(copy@->ToolResult_content =~= block@->ToolResult_content);
            }
            copy
        },
        ContentBlock::Raw(value) => ContentBlock::Raw(value.duplicate()),
    }
}

impl Duplicate for ContentBlock {
    fn duplicate(&self) -> (r: Self) {
        duplicate_block(self)
    }
}

impl Clone for ContentBlock {
    fn clone(&self) -> (r: Self)
        ensures
            r@ == self@,
    {
        duplicate_block(self)
    }
}

/// Token accounting of one model call. The counts are disjoint: `input_tokens` is the
/// uncached input only.
#[derive(Debug, Clone, Copy, PartialEq)]
pub struct TokenUsage {
    pub input_tokens: i64,
    pub output_tokens: i64,
    pub cache_read_tokens: Option<i64>,
    pub cache_write_tokens: Option<i64>,
    pub reasoning_tokens: Option<i64>,
}

/// How an event entered the ordered surface.
#[derive(Debug, Clone, Copy, PartialEq, Eq)]
pub enum SurfaceOp {
    Append,
    Replace { start: i64, end: i64 },
}

/// Provider or transport failure facts.
#[derive(Debug, PartialEq)]
pub struct LlmFailure {
    pub message: String,
    pub code: String,
    pub status: Option<i64>,
    pub provider_retry_after_ms: Option<i64>,
    pub request_id: Option<String>,
}

/// What a [`LlmFailure`] stands for.
pub struct LlmFailureView {
    pub message: Seq<char>,
    pub code: Seq<char>,
    pub status: Option<i64>,
    pub provider_retry_after_ms: Option<i64>,
    pub request_id: Option<Seq<char>>,
}

impl View for LlmFailure {
    type V = LlmFailureView;

    open spec fn view(&self) -> LlmFailureView {
        LlmFailureView {
            message: self.message@,
            code: self.code@,
            status: self.status,
            provider_retry_after_ms: self.provider_retry_after_ms,
            request_id: crate::text::opt_view(self.request_id),
        }
    }
}

impl Duplicate for LlmFailure {
    fn duplicate(&self) -> (r: Self) {
        LlmFailure {
            message: self.message.clone(),
            code: self.code.clone(),
            status: self.status,
            provider_retry_after_ms: self.provider_retry_after_ms,
            request_id: duplicate_opt(&self.request_id),
        }
    }
}

impl Clone for LlmFailure {
    fn clone(&self) -> (r: Self)
        ensures
            r@ == self@,
    {
        self.duplicate()
    }
}

/// Why a model response stopped. Unknown reasons are kept by name.
#[derive(Debug, PartialEq)]
pub enum FinishReason {
    Stop,
    ToolCalls,
    MaxTokens,
    Aborted { failure: LlmFailure },
    Error { failure: LlmFailure },
    Unknown(String),
}

/// What a [`FinishReason`] stands for.
pub enum FinishReasonView {
    Stop,
    ToolCalls,
    MaxTokens,
    Aborted { failure: LlmFailureView },
    Error { failure: LlmFailureView },
    Unknown(Seq<char>),
}

impl View for FinishReason {
    type V = FinishReasonView;

    open spec fn view(&self) -> FinishReasonView {
        match *self {
            FinishReason::Stop => FinishReasonView::Stop,
            FinishReason::ToolCalls => FinishReasonView::ToolCalls,
            FinishReason::MaxTokens => FinishReasonView::MaxTokens,
            FinishReason::Aborted { failure } => FinishReasonView::Aborted {
                failure: failure@,
            },
            FinishReason::Error { failure } => FinishReasonView::Error {
                failure: failure@,
            },
            FinishReason::Unknown(x) => FinishReasonView::Unknown(x@),
        }
    }
}

impl Duplicate for FinishReason {
    fn duplicate(&self) -> (r: Self) {
        match self {
            FinishReason::Stop => FinishReason::Stop,
            FinishReason::ToolCalls => FinishReason::ToolCalls,
            FinishReason::MaxTokens => FinishReason::MaxTokens,
            FinishReason::Aborted { failure } => FinishReason::Aborted {
                failure: failure.duplicate(),
            },
            FinishReason::Error { failure } => FinishReason::Error {
                failure: failure.duplicate(),
            },
            FinishReason::Unknown(x) => FinishReason::Unknown(x.clone()),
        }
    }
}

impl Clone for FinishReason {
    fn clone(&self) -> (r: Self)
        ensures
            r@ == self@,
    {
        self.duplicate()
    }
}

/// One chunk of a streamed model response.
#[derive(Debug, PartialEq)]
pub enum StreamChunk {
    BlockStart { index: i64, block_type: String },
    TextDelta { index: i64, text: String },
    ReasoningDelta { index: i64, text: String },
    ToolCallDelta { index: i64, id: CallId, name: Option<String>, arguments_delta: String },
    BlockEnd { index: i64, block: ContentBlock },
    Usage { usage: TokenUsage },
    Finish { reason: FinishReason, replay_state: Option<Json> },
}

/// What a [`StreamChunk`] stands for.
pub enum StreamChunkView {
    BlockStart { index: i64, block_type: Seq<char> },
    TextDelta { index: i64, text: Seq<char> },
    ReasoningDelta { index: i64, text: Seq<char> },
    ToolCallDelta { index: i64, id: CallIdView, name: Option<Seq<char>>, arguments_delta: Seq<char> },
    BlockEnd { index: i64, block: ContentBlockView },
    Usage { usage: TokenUsage },
    Finish { reason: FinishReasonView, replay_state: Option<JsonView> },
}

impl View for StreamChunk {
    type V = StreamChunkView;

    open spec fn view(&self) -> StreamChunkView {
        match *self {
            StreamChunk::BlockStart { index, block_type } => StreamChunkView::BlockStart {
                index,
                block_type: block_type@,
            },
            StreamChunk::TextDelta { index, text } => StreamChunkView::TextDelta {
                index,
                text: text@,
            },
            StreamChunk::ReasoningDelta { index, text } => StreamChunkView::ReasoningDelta {
                index,
                text: text@,
            },
            StreamChunk::ToolCallDelta { index, id, name, arguments_delta } => StreamChunkView::ToolCallDelta {
                index,
                id: id@,
                name: crate::text::opt_view(name),
                arguments_delta: arguments_delta@,
            },
            StreamChunk::BlockEnd { index, block } => StreamChunkView::BlockEnd {
                index,
                block: block@,
            },
            StreamChunk::Usage { usage } => StreamChunkView::Usage {
                usage,
            },
            StreamChunk::Finish { reason, replay_state } => StreamChunkView::Finish {
                reason: reason@,
                replay_state: crate::text::opt_view(replay_state),
            },
        }
    }
}

impl Duplicate for StreamChunk {
    fn duplicate(&self) -> (r: Self) {
        match self {
            StreamChunk::BlockStart { index, block_type } => StreamChunk::BlockStart {
                index: *index,
                block_type: block_type.clone(),
            },
            StreamChunk::TextDelta { index, text } => StreamChunk::TextDelta {
                index: *index,
                text: text.clone(),
            },
            StreamChunk::ReasoningDelta { index, text } => StreamChunk::ReasoningDelta {
                index: *index,
                text: text.clone(),
            },
            StreamChunk::ToolCallDelta { index, id, name, arguments_delta } => StreamChunk::ToolCallDelta {
                index: *index,
                id: id.duplicate(),
                name: duplicate_opt(name),
                arguments_delta: arguments_delta.clone(),
            },
            StreamChunk::BlockEnd { index, block } => StreamChunk::BlockEnd {
                index: *index,
                block: block.duplicate(),
            },
            StreamChunk::Usage { usage } => StreamChunk::Usage {
                usage: *usage,
            },
            StreamChunk::Finish { reason, replay_state } => StreamChunk::Finish {
                reason: reason.duplicate(),
                replay_state: duplicate_opt(replay_state),
            },
        }
    }
}

impl Clone for StreamChunk {
    fn clone(&self) -> (r: Self)
        ensures
            r@ == self@,
    {
        self.duplicate()
    }
}

/// The durable cause of a cancellation.
#[derive(Debug, PartialEq)]
pub enum TurnEndCancelCause {
    User,
    Parent,
    Hook { reason: String },
    Disposed,
    Legacy,
    Unknown(String),
}

/// What a [`TurnEndCancelCause`] stands for.
pub enum TurnEndCancelCauseView {
    User,
    Parent,
    Hook { reason: Seq<char> },
    Disposed,
    Legacy,
    Unknown(Seq<char>),
}

impl View for TurnEndCancelCause {
    type V = TurnEndCancelCauseView;

    open spec fn view(&self) -> TurnEndCancelCauseView {
        match *self {
            TurnEndCancelCause::User => TurnEndCancelCauseView::User,
            TurnEndCancelCause::Parent => TurnEndCancelCauseView::Parent,
            TurnEndCancelCause::Hook { reason } => TurnEndCancelCauseView::Hook {
                reason: reason@,
            },
            TurnEndCancelCause::Disposed => TurnEndCancelCauseView::Disposed,
            TurnEndCancelCause::Legacy => TurnEndCancelCauseView::Legacy,
            TurnEndCancelCause::Unknown(x) => TurnEndCancelCauseView::Unknown(x@),
        }
    }
}

impl Duplicate for TurnEndCancelCause {
    fn duplicate(&self) -> (r: Self) {
        match self {
            TurnEndCancelCause::User => TurnEndCancelCause::User,
            TurnEndCancelCause::Parent => TurnEndCancelCause::Parent,
            TurnEndCancelCause::Hook { reason } => TurnEndCancelCause::Hook {
                reason: reason.clone(),
            },
            TurnEndCancelCause::Disposed => TurnEndCancelCause::Disposed,
            TurnEndCancelCause::Legacy => TurnEndCancelCause::Legacy,
            TurnEndCancelCause::Unknown(x) => TurnEndCancelCause::Unknown(x.clone()),
        }
    }
}

impl Clone for TurnEndCancelCause {
    fn clone(&self) -> (r: Self)
        ensures
            r@ == self@,
    {
        self.duplicate()
    }
}

/// Why a turn ended. Unknown kinds are kept by name.
#[derive(Debug, PartialEq)]
pub enum TurnEndReason {
    Completed,
    Aborted { reason: TurnEndCancelCause },
    Blocked,
    Error { error: LlmFailure },
    MaxTokens,
    Interrupted,
    Unknown(String),
}

/// What a [`TurnEndReason`] stands for.
pub enum TurnEndReasonView {
    Completed,
    Aborted { reason: TurnEndCancelCauseView },
    Blocked,
    Error { error: LlmFailureView },
    MaxTokens,
    Interrupted,
    Unknown(Seq<char>),
}

impl View for TurnEndReason {
    type V = TurnEndReasonView;

    open spec fn view(&self) -> TurnEndReasonView {
        match *self {
            TurnEndReason::Completed => TurnEndReasonView::Completed,
            TurnEndReason::Aborted { reason } => TurnEndReasonView::Aborted {
                reason: reason@,
            },
            TurnEndReason::Blocked => TurnEndReasonView::Blocked,
            TurnEndReason::Error { error } => TurnEndReasonView::Error {
                error: error@,
            },
            TurnEndReason::MaxTokens => TurnEndReasonView::MaxTokens,
            TurnEndReason::Interrupted => TurnEndReasonView::Interrupted,
            TurnEndReason::Unknown(x) => TurnEndReasonView::Unknown(x@),
        }
    }
}

impl Duplicate for TurnEndReason {
    fn duplicate(&self) -> (r: Self) {
        match self {
            TurnEndReason::Completed => TurnEndReason::Completed,
            TurnEndReason::Aborted { reason } => TurnEndReason::Aborted {
                reason: reason.duplicate(),
            },
            TurnEndReason::Blocked => TurnEndReason::Blocked,
            TurnEndReason::Error { error } => TurnEndReason::Error {
                error: error.duplicate(),
            },
            TurnEndReason::MaxTokens => TurnEndReason::MaxTokens,
            TurnEndReason::Interrupted => TurnEndReason::Interrupted,
            TurnEndReason::Unknown(x) => TurnEndReason::Unknown(x.clone()),
        }
    }
}

impl Clone for TurnEndReason {
    fn clone(&self) -> (r: Self)
        ensures
            r@ == self@,
    {
        self.duplicate()
    }
}

/// One entry of an agent's todo list.
#[derive(Debug, PartialEq)]
pub struct TodoItem {
    pub content: String,
    pub status: String,
}

/// What a [`TodoItem`] stands for.
pub struct TodoItemView {
    pub content: Seq<char>,
    pub status: Seq<char>,
}

impl View for TodoItem {
    type V = TodoItemView;

    open spec fn view(&self) -> TodoItemView {
        TodoItemView {
            content: self.content@,
            status: self.status@,
        }
    }
}

impl Duplicate for TodoItem {
    fn duplicate(&self) -> (r: Self) {
        TodoItem {
            content: self.content.clone(),
            status: self.status.clone(),
        }
    }
}

impl Clone for TodoItem {
    fn clone(&self) -> (r: Self)
        ensures
            r@ == self@,
    {
        self.duplicate()
    }
}

/// A user-role message. `source` says who wrote it.
#[derive(Debug, PartialEq)]
pub struct UserMessage {
    pub id: String,
    pub content: Vec<ContentBlock>,
    pub source: Json,
}

/// What a [`UserMessage`] stands for.
pub struct UserMessageView {
    pub id: Seq<char>,
    pub content: Seq<ContentBlockView>,
    pub source: JsonView,
}

impl View for UserMessage {
    type V = UserMessageView;

    open spec fn view(&self) -> UserMessageView {
        UserMessageView {
            id: self.id@,
            content: crate::text::views(self.content@),
            source: self.source@,
        }
    }
}

impl Duplicate for UserMessage {
    fn duplicate(&self) -> (r: Self) {
        UserMessage {
            id: self.id.clone(),
            content: duplicate_all(&self.content),
            source: self.source.duplicate(),
        }
    }
}

impl Clone for UserMessage {
    fn clone(&self) -> (r: Self)
        ensures
            r@ == self@,
    {
        self.duplicate()
    }
}

/// A message that the model produced.
#[derive(Debug, PartialEq)]
pub struct AssistantMessage {
    pub id: String,
    pub content: Vec<ContentBlock>,
    pub source: Json,
}

/// What a [`AssistantMessage`] stands for.
pub struct AssistantMessageView {
    pub id: Seq<char>,
    pub content: Seq<ContentBlockView>,
    pub source: JsonView,
}

impl View for AssistantMessage {
    type V = AssistantMessageView;

    open spec fn view(&self) -> AssistantMessageView {
        AssistantMessageView {
            id: self.id@,
            content: crate::text::views(self.content@),
            source: self.source@,
        }
    }
}

impl Duplicate for AssistantMessage {
    fn duplicate(&self) -> (r: Self) {
        AssistantMessage {
            id: self.id.clone(),
            content: duplicate_all(&self.content),
            source: self.source.duplicate(),
        }
    }
}

impl Clone for AssistantMessage {
    fn clone(&self) -> (r: Self)
        ensures
            r@ == self@,
    {
        self.duplicate()
    }
}

/// A user-role message whose first block is the result of one tool call.
#[derive(Debug, PartialEq)]
pub struct ToolResultMessage {
    pub id: String,
    pub content: Vec<ContentBlock>,
    pub source: Json,
}

/// What a [`ToolResultMessage`] stands for.
pub struct ToolResultMessageView {
    pub id: Seq<char>,
    pub content: Seq<ContentBlockView>,
    pub source: JsonView,
}

impl View for ToolResultMessage {
    type V = ToolResultMessageView;

    open spec fn view(&self) -> ToolResultMessageView {
        ToolResultMessageView {
            id: self.id@,
            content: crate::text::views(self.content@),
            source: self.source@,
        }
    }
}

impl Duplicate for ToolResultMessage {
    fn duplicate(&self) -> (r: Self) {
        ToolResultMessage {
            id: self.id.clone(),
            content: duplicate_all(&self.content),
            source: self.source.duplicate(),
        }
    }
}

impl Clone for ToolResultMessage {
    fn clone(&self) -> (r: Self)
        ensures
            r@ == self@,
    {
        self.duplicate()
    }
}

/// The identity of a tool failure.
#[derive(Debug, PartialEq)]
pub struct ToolErrorIdentity {
    pub name: String,
    pub code: String,
}

/// What a [`ToolErrorIdentity`] stands for.
pub struct ToolErrorIdentityView {
    pub name: Seq<char>,
    pub code: Seq<char>,
}

impl View for ToolErrorIdentity {
    type V = ToolErrorIdentityView;

    open spec fn view(&self) -> ToolErrorIdentityView {
        ToolErrorIdentityView {
            name: self.name@,
            code: self.code@,
        }
    }
}

impl Duplicate for ToolErrorIdentity {
    fn duplicate(&self) -> (r: Self) {
        ToolErrorIdentity {
            name: self.name.clone(),
            code: self.code.clone(),
        }
    }
}

impl Clone for ToolErrorIdentity {
    fn clone(&self) -> (r: Self)
        ensures
            r@ == self@,
    {
        self.duplicate()
    }
}

/// The typed payload of one session event.
#[derive(Debug, PartialEq)]
pub enum EventData {
    TurnStart { turn: i64 },
    TurnEnd { turn: i64, reason: TurnEndReason },
    StepStart { turn: i64, step: i64 },
    StepEnd { turn: i64, step: i64 },
    UserMessage(UserMessage),
    AssistantChunk { turn: i64, step: i64, chunk: StreamChunk },
    AssistantMessage { turn: i64, step: i64, message: AssistantMessage, usage: Option<TokenUsage> },
    ToolCall { turn: i64, step: i64, call_id: CallId, name: String, arguments: String },
    ToolResult { turn: i64, step: i64, message: ToolResultMessage, error: Option<ToolErrorIdentity>, meta: Option<Json> },
    TodoWrite { todos: Vec<TodoItem> },
    RequestHeader { header: Json },
    RequestContext { provider: String, model: String, context_window: Option<i64> },
    EndSeed,
    /// An event type that the store does not know. One that is not ignorable becomes an
    /// unknown row.
    Unknown { ignorable: bool },
}

/// What a [`EventData`] stands for.
pub enum EventDataView {
    TurnStart { turn: i64 },
    TurnEnd { turn: i64, reason: TurnEndReasonView },
    StepStart { turn: i64, step: i64 },
    StepEnd { turn: i64, step: i64 },
    UserMessage(UserMessageView),
    AssistantChunk { turn: i64, step: i64, chunk: StreamChunkView },
    AssistantMessage { turn: i64, step: i64, message: AssistantMessageView, usage: Option<TokenUsage> },
    ToolCall { turn: i64, step: i64, call_id: CallIdView, name: Seq<char>, arguments: Seq<char> },
    ToolResult { turn: i64, step: i64, message: ToolResultMessageView, error: Option<ToolErrorIdentityView>, meta: Option<JsonView> },
    TodoWrite { todos: Seq<TodoItemView> },
    RequestHeader { header: JsonView },
    RequestContext { provider: Seq<char>, model: Seq<char>, context_window: Option<i64> },
    EndSeed,
    Unknown { ignorable: bool },
}

impl View for EventData {
    type V = EventDataView;

    open spec fn view(&self) -> EventDataView {
        match *self {
            EventData::TurnStart { turn } => EventDataView::TurnStart {
                turn,
            },
            EventData::TurnEnd { turn, reason } => EventDataView::TurnEnd {
                turn,
                reason: reason@,
            },
            EventData::StepStart { turn, step } => EventDataView::StepStart {
                turn,
                step,
            },
            EventData::StepEnd { turn, step } => EventDataView::StepEnd {
                turn,
                step,
            },
            EventData::UserMessage(x) => EventDataView::UserMessage(x@),
            EventData::AssistantChunk { turn, step, chunk } => EventDataView::AssistantChunk {
                turn,
                step,
                chunk: chunk@,
            },
            EventData::AssistantMessage { turn, step, message, usage } => EventDataView::AssistantMessage {
                turn,
                step,
                message: message@,
                usage,
            },
            EventData::ToolCall { turn, step, call_id, name, arguments } => EventDataView::ToolCall {
                turn,
                step,
                call_id: call_id@,
                name: name@,
                arguments: arguments@,
            },
            EventData::ToolResult { turn, step, message, error, meta } => EventDataView::ToolResult {
                turn,
                step,
                message: message@,
                error: crate::text::opt_view(error),
                meta: crate::text::opt_view(meta),
            },
            EventData::TodoWrite { todos } => EventDataView::TodoWrite {
                todos: crate::text::views(todos@),
            },
            EventData::RequestHeader { header } => EventDataView::RequestHeader {
                header: header@,
            },
            EventData::RequestContext { provider, model, context_window } => EventDataView::RequestContext {
                provider: provider@,
                model: model@,
                context_window,
            },
            EventData::EndSeed => EventDataView::EndSeed,
            EventData::Unknown { ignorable } => EventDataView::Unknown {
                ignorable,
            },
        }
    }
}

impl Duplicate for EventData {
    fn duplicate(&self) -> (r: Self) {
        match self {
            EventData::TurnStart { turn } => EventData::TurnStart {
                turn: *turn,
            },
            EventData::TurnEnd { turn, reason } => EventData::TurnEnd {
                turn: *turn,
                reason: reason.duplicate(),
            },
            EventData::StepStart { turn, step } => EventData::StepStart {
                turn: *turn,
                step: *step,
            },
            EventData::StepEnd { turn, step } => EventData::StepEnd {
                turn: *turn,
                step: *step,
            },
            EventData::UserMessage(x) => EventData::UserMessage(x.duplicate()),
            EventData::AssistantChunk { turn, step, chunk } => EventData::AssistantChunk {
                turn: *turn,
                step: *step,
                chunk: chunk.duplicate(),
            },
            EventData::AssistantMessage { turn, step, message, usage } => EventData::AssistantMessage {
                turn: *turn,
                step: *step,
                message: message.duplicate(),
                usage: *usage,
            },
            EventData::ToolCall { turn, step, call_id, name, arguments } => EventData::ToolCall {
                turn: *turn,
                step: *step,
                call_id: call_id.duplicate(),
                name: name.clone(),
                arguments: arguments.clone(),
            },
            EventData::ToolResult { turn, step, message, error, meta } => EventData::ToolResult {
                turn: *turn,
                step: *step,
                message: message.duplicate(),
                error: duplicate_opt(error),
                meta: duplicate_opt(meta),
            },
            EventData::TodoWrite { todos } => EventData::TodoWrite {
                todos: duplicate_all(todos),
            },
            EventData::RequestHeader { header } => EventData::RequestHeader {
                header: header.duplicate(),
            },
            EventData::RequestContext { provider, model, context_window } => EventData::RequestContext {
                provider: provider.clone(),
                model: model.clone(),
                context_window: *context_window,
            },
            EventData::EndSeed => EventData::EndSeed,
            EventData::Unknown { ignorable } => EventData::Unknown {
                ignorable: *ignorable,
            },
        }
    }
}

impl Clone for EventData {
    fn clone(&self) -> (r: Self)
        ensures
            r@ == self@,
    {
        self.duplicate()
    }
}

// ---------------------------------------------------------------------------
// what the payloads mean
// ---------------------------------------------------------------------------

/// The outcome of a parse, by the views of the value or of the message.
pub open spec fn outcome<T: View>(r: Result<T, EventDataError>) -> Result<T::V, Seq<char>> {
    match r {
        Ok(x) => Ok(x@),
        Err(e) => Err(e@),
    }
}

/// The outcome of a parse of a list.
pub open spec fn list_outcome<T: View>(r: Result<Vec<T>, EventDataError>) -> Result<
    Seq<T::V>,
    Seq<char>,
> {
    match r {
        Ok(x) => Ok(crate::text::views(x@)),
        Err(e) => Err(e@),
    }
}

/// The outcome of a parse of an optional value.
pub open spec fn opt_outcome<T: View>(r: Result<Option<T>, EventDataError>) -> Result<
    Option<T::V>,
    Seq<char>,
> {
    match r {
        Ok(x) => Ok(crate::text::opt_view(x)),
        Err(e) => Err(e@),
    }
}

/// A message that names a member: `before`, then the name in back quotes.
pub open spec fn naming(before: Seq<char>, key: Seq<char>) -> Seq<char> {
    before + "`"@ + key + "`"@
}

/// A member that must be there and be an integer.
pub open spec fn int_field(data: JsonView, key: Seq<char>) -> Result<i64, Seq<char>> {
    match data.get_i64(key) {
        Some(n) => Ok(n),
        None => Err(naming("missing or non-integer "@, key)),
    }
}

/// A member that must be there and be a string.
pub open spec fn str_field(data: JsonView, key: Seq<char>) -> Result<Seq<char>, Seq<char>> {
    match data.get_str(key) {
        Some(s) => Ok(s),
        None => Err(naming("missing or non-string "@, key)),
    }
}

/// A member that must be there.
pub open spec fn any_field(data: JsonView, key: Seq<char>) -> Result<JsonView, Seq<char>> {
    match data.get(key) {
        Some(v) => Ok(v),
        None => Err(naming("missing "@, key)),
    }
}

/// An integer member that may be absent or null.
pub open spec fn opt_int(data: JsonView, key: Seq<char>) -> Result<Option<i64>, Seq<char>> {
    match data.get(key) {
        None => Ok(None),
        Some(JsonView::Null) => Ok(None),
        Some(JsonView::Int(n)) => Ok(Some(n)),
        Some(_) => Err(naming("non-integer "@, key)),
    }
}

/// A boolean member that may be absent or null.
pub open spec fn opt_flag(data: JsonView, key: Seq<char>) -> Result<Option<bool>, Seq<char>> {
    match data.get(key) {
        None => Ok(None),
        Some(JsonView::Null) => Ok(None),
        Some(JsonView::Bool(b)) => Ok(Some(b)),
        Some(_) => Err(naming("non-boolean "@, key)),
    }
}

/// A member that may be absent or null.
pub open spec fn opt_any(data: JsonView, key: Seq<char>) -> Option<JsonView> {
    match data.get(key) {
        None => None,
        Some(JsonView::Null) => None,
        Some(v) => Some(v),
    }
}

/// The line of text of an error.
pub open spec fn refused(e: Seq<char>) -> Seq<char> {
    "invalid session event data: "@ + e
}

/// The fields of an image reference.
pub open spec fn image_slots(v: JsonView) -> Seq<SlotView> {
    seq![
        crate::store::shape::needed(
            "attachmentId"@,
            crate::store::shape::text_fault(
                crate::store::shape::field_at(v, "attachmentId"@, 0),
            ),
        ),
        crate::store::shape::optional(
            "name"@,
            crate::store::shape::text_fault(
                crate::store::shape::not_null(crate::store::shape::field_at(v, "name"@, 1)),
            ),
        ),
    ]
}

/// The image reference that a value describes.
pub open spec fn image_ref(v: JsonView) -> Result<ImageAttachmentRefView, Seq<char>> {
    match crate::store::shape::shape_fault(
        v,
        "struct ImageAttachmentRef"@,
        image_slots(v),
        false,
    ) {
        Some(fault) => Err(fault),
        None => Ok(
            ImageAttachmentRefView {
                attachment_id: crate::store::shape::text_of(
                    crate::store::shape::field_at(v, "attachmentId"@, 0),
                ),
                name: crate::store::shape::text_in(
                    crate::store::shape::field_at(v, "name"@, 1),
                ),
            },
        ),
    }
}

/// The content block that a value describes, by its `type` tag.
pub open spec fn content_block(v: JsonView) -> Result<ContentBlockView, Seq<char>>
    decreases v, 2nat,
{
    let tag = match v.get_str("type"@) {
        Some(t) => t,
        None => ""@,
    };
    if tag == "text"@ {
        match str_field(v, "text"@) {
            Ok(text) => Ok(ContentBlockView::Text { text }),
            Err(e) => Err(e),
        }
    } else if tag == "reasoning"@ {
        match str_field(v, "text"@) {
            Ok(text) => Ok(ContentBlockView::Reasoning { text }),
            Err(e) => Err(e),
        }
    } else if tag == "image"@ {
        match v.get("attachment"@) {
            None => Err(naming("missing "@, "attachment"@)),
            Some(a) => match image_ref(a) {
                Ok(attachment) => Ok(ContentBlockView::Image { attachment }),
                Err(e) => Err(e),
            },
        }
    } else if tag == "tool-call"@ {
        match str_field(v, "id"@) {
            Err(e) => Err(e),
            Ok(id) => match str_field(v, "name"@) {
                Err(e) => Err(e),
                Ok(name) => match str_field(v, "arguments"@) {
                    Err(e) => Err(e),
                    Ok(arguments) => Ok(ContentBlockView::ToolCall { id, name, arguments }),
                },
            },
        }
    } else if tag == "tool-result"@ {
        match str_field(v, "toolCallId"@) {
            Err(e) => Err(e),
            Ok(tool_call_id) => match opt_blocks(v, "content"@) {
                Err(e) => Err(e),
                Ok(content) => match opt_flag(v, "isError"@) {
                    Err(e) => Err(e),
                    Ok(is_error) => Ok(
                        ContentBlockView::ToolResult { tool_call_id, content, is_error },
                    ),
                },
            },
        }
    } else {
        Ok(ContentBlockView::Raw(v))
    }
}

/// The content blocks of a member that may be absent or null (no blocks then).
pub open spec fn opt_blocks(data: JsonView, key: Seq<char>) -> Result<
    Seq<ContentBlockView>,
    Seq<char>,
>
    decreases data, 1nat,
{
    proof {
        crate::json::lemma_member_smaller(data, key);
    }
    match data.get(key) {
        None => Ok(Seq::empty()),
        Some(JsonView::Null) => Ok(Seq::empty()),
        Some(JsonView::Array(items)) => content_blocks(items),
        Some(v) => Err(crate::store::shape::wrong_type(v, "a sequence"@)),
    }
}

/// The content blocks that the values describe, in order; the first that is malformed
/// decides the error.
pub open spec fn content_blocks(items: Seq<JsonView>) -> Result<Seq<ContentBlockView>, Seq<char>>
    decreases items, 0nat,
{
    if items.len() == 0 {
        Ok(Seq::empty())
    } else {
        match content_block(items[0]) {
            Err(e) => Err(refused(e)),
            Ok(block) => match content_blocks(items.drop_first()) {
                Err(e) => Err(e),
                Ok(rest) => Ok(seq![block] + rest),
            },
        }
    }
}

/// The field of an integer that has to be there.
pub open spec fn int_slot(v: JsonView, key: Seq<char>, place: int) -> SlotView {
    crate::store::shape::needed(
        key,
        crate::store::shape::int_fault(crate::store::shape::field_at(v, key, place)),
    )
}

/// The field of a text that has to be there.
pub open spec fn text_slot(v: JsonView, key: Seq<char>, place: int) -> SlotView {
    crate::store::shape::needed(
        key,
        crate::store::shape::text_fault(crate::store::shape::field_at(v, key, place)),
    )
}

/// The field of an integer that may be left out or null.
pub open spec fn opt_int_slot(v: JsonView, key: Seq<char>, place: int) -> SlotView {
    crate::store::shape::optional(
        key,
        crate::store::shape::int_fault(
            crate::store::shape::not_null(crate::store::shape::field_at(v, key, place)),
        ),
    )
}

/// The field of a text that may be left out or null.
pub open spec fn opt_text_slot(v: JsonView, key: Seq<char>, place: int) -> SlotView {
    crate::store::shape::optional(
        key,
        crate::store::shape::text_fault(
            crate::store::shape::not_null(crate::store::shape::field_at(v, key, place)),
        ),
    )
}

/// The integer of a field that has to be there.
pub open spec fn int_value(v: JsonView, key: Seq<char>, place: int) -> i64 {
    crate::store::shape::int_of(crate::store::shape::field_at(v, key, place))
}

/// The text of a field that has to be there.
pub open spec fn text_value(v: JsonView, key: Seq<char>, place: int) -> Seq<char> {
    crate::store::shape::text_of(crate::store::shape::field_at(v, key, place))
}

/// The integer of a field that may be left out.
pub open spec fn opt_int_value(v: JsonView, key: Seq<char>, place: int) -> Option<i64> {
    crate::store::shape::int_in(crate::store::shape::field_at(v, key, place))
}

/// The text of a field that may be left out.
pub open spec fn opt_text_value(v: JsonView, key: Seq<char>, place: int) -> Option<Seq<char>> {
    crate::store::shape::text_in(crate::store::shape::field_at(v, key, place))
}

/// The fields of a token usage.
pub open spec fn usage_slots(v: JsonView) -> Seq<SlotView> {
    seq![
        int_slot(v, "inputTokens"@, 0),
        int_slot(v, "outputTokens"@, 1),
        opt_int_slot(v, "cacheReadTokens"@, 2),
        opt_int_slot(v, "cacheWriteTokens"@, 3),
        opt_int_slot(v, "reasoningTokens"@, 4),
    ]
}

/// What is wrong with a value as a token usage.
pub open spec fn usage_fault(v: JsonView, set_aside: bool) -> Option<Seq<char>> {
    crate::store::shape::shape_fault(v, "struct TokenUsage"@, usage_slots(v), set_aside)
}

/// The token usage of a value in which nothing is wrong.
pub open spec fn usage_in(v: JsonView) -> TokenUsage {
    TokenUsage {
        input_tokens: int_value(v, "inputTokens"@, 0),
        output_tokens: int_value(v, "outputTokens"@, 1),
        cache_read_tokens: opt_int_value(v, "cacheReadTokens"@, 2),
        cache_write_tokens: opt_int_value(v, "cacheWriteTokens"@, 3),
        reasoning_tokens: opt_int_value(v, "reasoningTokens"@, 4),
    }
}

/// The token usage that a value describes.
pub open spec fn token_usage(v: JsonView, set_aside: bool) -> Result<TokenUsage, Seq<char>> {
    match usage_fault(v, set_aside) {
        Some(fault) => Err(fault),
        None => Ok(usage_in(v)),
    }
}

/// The fields of failure facts.
pub open spec fn failure_slots(v: JsonView) -> Seq<SlotView> {
    seq![
        text_slot(v, "message"@, 0),
        text_slot(v, "code"@, 1),
        opt_int_slot(v, "status"@, 2),
        opt_int_slot(v, "providerRetryAfterMs"@, 3),
        opt_text_slot(v, "requestId"@, 4),
    ]
}

/// The failure facts that a value describes.
pub open spec fn llm_failure(v: JsonView) -> Result<LlmFailureView, Seq<char>> {
    match crate::store::shape::shape_fault(v, "struct LlmFailure"@, failure_slots(v), false) {
        Some(fault) => Err(fault),
        None => Ok(
            LlmFailureView {
                message: text_value(v, "message"@, 0),
                code: text_value(v, "code"@, 1),
                status: opt_int_value(v, "status"@, 2),
                provider_retry_after_ms: opt_int_value(v, "providerRetryAfterMs"@, 3),
                request_id: opt_text_value(v, "requestId"@, 4),
            },
        ),
    }
}

/// The failure facts of a member that must be there; `missing` is the error where it is
/// not.
pub open spec fn failure_member(v: JsonView, key: Seq<char>, missing: Seq<char>) -> Result<
    LlmFailureView,
    Seq<char>,
> {
    match v.get(key) {
        None => Err(missing),
        Some(f) => llm_failure(f),
    }
}

/// The finish reason that a value describes: a bare name or an object with a `kind`.
pub open spec fn finish_reason(v: JsonView) -> Result<FinishReasonView, Seq<char>> {
    match v {
        JsonView::Str(kind) => Ok(
            if kind == "stop"@ {
                FinishReasonView::Stop
            } else if kind == "tool-calls"@ {
                FinishReasonView::ToolCalls
            } else if kind == "max-tokens"@ {
                FinishReasonView::MaxTokens
            } else {
                FinishReasonView::Unknown(kind)
            },
        ),
        JsonView::Object(_) => match v.get_str("kind"@) {
            None => Err("finish reason object missing `kind`"@),
            Some(kind) => if kind == "stop"@ {
                Ok(FinishReasonView::Stop)
            } else if kind == "tool-calls"@ {
                Ok(FinishReasonView::ToolCalls)
            } else if kind == "max-tokens"@ {
                Ok(FinishReasonView::MaxTokens)
            } else if kind == "aborted"@ {
                match failure_member(v, "failure"@, "aborted finish requires `failure`"@) {
                    Ok(failure) => Ok(FinishReasonView::Aborted { failure }),
                    Err(e) => Err(e),
                }
            } else if kind == "error"@ {
                match failure_member(v, "failure"@, "error finish requires `failure`"@) {
                    Ok(failure) => Ok(FinishReasonView::Error { failure }),
                    Err(e) => Err(e),
                }
            } else {
                Ok(FinishReasonView::Unknown(kind))
            },
        },
        _ => Err("finish reason must be a string or object"@),
    }
}

/// The tag of a stream chunk: its `type`, or the first item of an array.
pub open spec fn chunk_tag(v: JsonView) -> Result<Seq<char>, Seq<char>> {
    match v {
        JsonView::Object(_) | JsonView::Array(_) => match crate::store::shape::field_at(
            v,
            "type"@,
            0,
        ) {
            None => Err(crate::store::shape::missing_field("type"@)),
            Some(JsonView::Str(tag)) => Ok(tag),
            Some(t) => Err(crate::store::shape::wrong_type(t, "variant identifier"@)),
        },
        _ => Err(crate::store::shape::wrong_type(v, "internally tagged enum StreamChunk"@)),
    }
}

/// What is wrong with a stream chunk as one with some fields behind its tag.
pub open spec fn variant_fault(v: JsonView, what: Seq<char>, slots: Seq<SlotView>) -> Option<
    Seq<char>,
> {
    match v {
        JsonView::Array(items) => crate::store::shape::array_fault(
            (items.len() - 1) as nat,
            what,
            slots,
            true,
        ),
        _ => crate::store::shape::object_fault(v, slots),
    }
}

/// That the tag of a stream chunk is not known.
pub open spec fn unknown_chunk(tag: Seq<char>) -> Seq<char> {
    "unknown variant `"@ + tag
        + "`, expected one of `block-start`, `text-delta`, `reasoning-delta`, `tool-call-delta`, `block-end`, `usage`, `finish`"@
}

/// What is wrong with a value as a content block.
pub open spec fn block_fault(v: Option<JsonView>) -> Option<Seq<char>> {
    match v {
        None => None,
        Some(v) => match content_block(v) {
            Ok(_) => None,
            Err(e) => Some(refused(e)),
        },
    }
}

/// What is wrong with a value as a finish reason.
pub open spec fn reason_fault(v: Option<JsonView>) -> Option<Seq<char>> {
    match v {
        None => None,
        Some(v) => match finish_reason(v) {
            Ok(_) => None,
            Err(e) => Some(refused(e)),
        },
    }
}

/// What is wrong with a value as the usage in a chunk.
pub open spec fn chunk_usage_fault(v: Option<JsonView>) -> Option<Seq<char>> {
    match v {
        None => None,
        Some(v) => usage_fault(v, true),
    }
}

/// The fields of a delta: an index and a text.
pub open spec fn delta_slots(v: JsonView, key: Seq<char>) -> Seq<SlotView> {
    seq![int_slot(v, "index"@, 1), text_slot(v, key, 2)]
}

/// The fields of the delta of a tool call.
pub open spec fn call_delta_slots(v: JsonView) -> Seq<SlotView> {
    seq![
        int_slot(v, "index"@, 1),
        text_slot(v, "id"@, 2),
        opt_text_slot(v, "name"@, 3),
        text_slot(v, "argumentsDelta"@, 4),
    ]
}

/// The fields of the end of a block.
pub open spec fn block_end_slots(v: JsonView) -> Seq<SlotView> {
    seq![
        int_slot(v, "index"@, 1),
        crate::store::shape::needed(
            "block"@,
            block_fault(crate::store::shape::field_at(v, "block"@, 2)),
        ),
    ]
}

/// The fields of a usage report.
pub open spec fn usage_chunk_slots(v: JsonView) -> Seq<SlotView> {
    seq![
        crate::store::shape::needed(
            "usage"@,
            chunk_usage_fault(crate::store::shape::field_at(v, "usage"@, 1)),
        ),
    ]
}

/// The fields of the end of a response.
pub open spec fn finish_slots(v: JsonView) -> Seq<SlotView> {
    seq![
        crate::store::shape::needed(
            "reason"@,
            reason_fault(crate::store::shape::field_at(v, "reason"@, 1)),
        ),
        crate::store::shape::optional("replayState"@, None),
    ]
}

/// The content block of a field, which has one where nothing is wrong.
pub open spec fn block_in(v: Option<JsonView>) -> ContentBlockView {
    match v {
        Some(v) => match content_block(v) {
            Ok(block) => block,
            Err(_) => ContentBlockView::Raw(v),
        },
        None => ContentBlockView::Raw(JsonView::Null),
    }
}

/// The finish reason of a field, which has one where nothing is wrong.
pub open spec fn reason_in(v: Option<JsonView>) -> FinishReasonView {
    match v {
        Some(v) => match finish_reason(v) {
            Ok(reason) => reason,
            Err(e) => FinishReasonView::Unknown(e),
        },
        None => FinishReasonView::Unknown(""@),
    }
}

/// The stream chunk of a value in which nothing is wrong, by its tag.
pub open spec fn chunk_in(v: JsonView, tag: Seq<char>) -> StreamChunkView {
    if tag == "block-start"@ {
        StreamChunkView::BlockStart {
            index: int_value(v, "index"@, 1),
            block_type: text_value(v, "blockType"@, 2),
        }
    } else if tag == "text-delta"@ {
        StreamChunkView::TextDelta {
            index: int_value(v, "index"@, 1),
            text: text_value(v, "text"@, 2),
        }
    } else if tag == "reasoning-delta"@ {
        StreamChunkView::ReasoningDelta {
            index: int_value(v, "index"@, 1),
            text: text_value(v, "text"@, 2),
        }
    } else if tag == "tool-call-delta"@ {
        StreamChunkView::ToolCallDelta {
            index: int_value(v, "index"@, 1),
            id: text_value(v, "id"@, 2),
            name: opt_text_value(v, "name"@, 3),
            arguments_delta: text_value(v, "argumentsDelta"@, 4),
        }
    } else if tag == "block-end"@ {
        StreamChunkView::BlockEnd {
            index: int_value(v, "index"@, 1),
            block: block_in(crate::store::shape::field_at(v, "block"@, 2)),
        }
    } else if tag == "usage"@ {
        StreamChunkView::Usage {
            usage: match crate::store::shape::field_at(v, "usage"@, 1) {
                Some(usage) => usage_in(usage),
                None => usage_in(JsonView::Null),
            },
        }
    } else {
        StreamChunkView::Finish {
            reason: reason_in(crate::store::shape::field_at(v, "reason"@, 1)),
            replay_state: crate::store::shape::not_null(
                crate::store::shape::field_at(v, "replayState"@, 2),
            ),
        }
    }
}

/// What is wrong with a value as a stream chunk with a tag.
pub open spec fn chunk_fault(v: JsonView, tag: Seq<char>) -> Option<Seq<char>> {
    if tag == "block-start"@ {
        variant_fault(v, "struct variant StreamChunk::BlockStart"@, delta_slots(v, "blockType"@))
    } else if tag == "text-delta"@ {
        variant_fault(v, "struct variant StreamChunk::TextDelta"@, delta_slots(v, "text"@))
    } else if tag == "reasoning-delta"@ {
        variant_fault(v, "struct variant StreamChunk::ReasoningDelta"@, delta_slots(v, "text"@))
    } else if tag == "tool-call-delta"@ {
        variant_fault(v, "struct variant StreamChunk::ToolCallDelta"@, call_delta_slots(v))
    } else if tag == "block-end"@ {
        variant_fault(v, "struct variant StreamChunk::BlockEnd"@, block_end_slots(v))
    } else if tag == "usage"@ {
        variant_fault(v, "struct variant StreamChunk::Usage"@, usage_chunk_slots(v))
    } else if tag == "finish"@ {
        variant_fault(v, "struct variant StreamChunk::Finish"@, finish_slots(v))
    } else {
        Some(unknown_chunk(tag))
    }
}

/// The stream chunk that a value describes, by its tag.
pub open spec fn stream_chunk(v: JsonView) -> Result<StreamChunkView, Seq<char>> {
    match chunk_tag(v) {
        Err(e) => Err(e),
        Ok(tag) => match chunk_fault(v, tag) {
            Some(fault) => Err(fault),
            None => Ok(chunk_in(v, tag)),
        },
    }
}

/// The cancellation cause that a value describes.
pub open spec fn cancel_cause(v: JsonView) -> TurnEndCancelCauseView {
    let kind = match v.get_str("kind"@) {
        Some(k) => k,
        None => ""@,
    };
    if kind == "user"@ {
        TurnEndCancelCauseView::User
    } else if kind == "parent"@ {
        TurnEndCancelCauseView::Parent
    } else if kind == "hook"@ {
        TurnEndCancelCauseView::Hook {
            reason: match v.get_str("reason"@) {
                Some(r) => r,
                None => Seq::empty(),
            },
        }
    } else if kind == "disposed"@ {
        TurnEndCancelCauseView::Disposed
    } else if kind == "legacy"@ {
        TurnEndCancelCauseView::Legacy
    } else {
        TurnEndCancelCauseView::Unknown(kind)
    }
}

/// The reason a turn ended: a bare name or an object with a `kind`.
pub open spec fn turn_end_reason(v: JsonView) -> Result<TurnEndReasonView, Seq<char>> {
    match v {
        JsonView::Str(kind) => Ok(
            if kind == "completed"@ {
                TurnEndReasonView::Completed
            } else if kind == "blocked"@ {
                TurnEndReasonView::Blocked
            } else if kind == "max-tokens"@ {
                TurnEndReasonView::MaxTokens
            } else if kind == "interrupted"@ {
                TurnEndReasonView::Interrupted
            } else {
                TurnEndReasonView::Unknown(kind)
            },
        ),
        JsonView::Object(_) => match v.get_str("kind"@) {
            None => Err("turn/end reason object missing `kind`"@),
            Some(kind) => if kind == "completed"@ {
                Ok(TurnEndReasonView::Completed)
            } else if kind == "aborted"@ {
                Ok(
                    TurnEndReasonView::Aborted {
                        reason: match v.get("reason"@) {
                            Some(r) => cancel_cause(r),
                            None => TurnEndCancelCauseView::Unknown("missing"@),
                        },
                    },
                )
            } else if kind == "blocked"@ {
                Ok(TurnEndReasonView::Blocked)
            } else if kind == "error"@ {
                match failure_member(v, "error"@, "turn/end error reason missing `error`"@) {
                    Ok(error) => Ok(TurnEndReasonView::Error { error }),
                    Err(e) => Err(e),
                }
            } else if kind == "max-tokens"@ {
                Ok(TurnEndReasonView::MaxTokens)
            } else if kind == "interrupted"@ {
                Ok(TurnEndReasonView::Interrupted)
            } else {
                Ok(TurnEndReasonView::Unknown(kind))
            },
        },
        _ => Err("turn/end reason must be a string or object"@),
    }
}

/// What is wrong with a value as a list of content blocks.
pub open spec fn blocks_fault(v: Option<JsonView>) -> Option<Seq<char>> {
    match v {
        None => None,
        Some(JsonView::Array(items)) => match content_blocks(items) {
            Ok(_) => None,
            Err(e) => Some(e),
        },
        Some(v) => Some(crate::store::shape::wrong_type(v, "a sequence"@)),
    }
}

/// The content blocks of a value in which nothing is wrong.
pub open spec fn blocks_in(v: Option<JsonView>) -> Seq<ContentBlockView> {
    match v {
        Some(JsonView::Array(items)) => match content_blocks(items) {
            Ok(blocks) => blocks,
            Err(_) => Seq::empty(),
        },
        _ => Seq::empty(),
    }
}

/// The fields of a message.
pub open spec fn message_slots(v: JsonView) -> Seq<SlotView> {
    seq![
        text_slot(v, "id"@, 0),
        crate::store::shape::needed(
            "content"@,
            blocks_fault(crate::store::shape::field_at(v, "content"@, 1)),
        ),
        crate::store::shape::needed("source"@, None),
    ]
}

/// The parts of a message: its id, its blocks and its source. `what` is the message in words.
pub open spec fn message_parts(v: JsonView, what: Seq<char>) -> Result<
    (Seq<char>, Seq<ContentBlockView>, JsonView),
    Seq<char>,
> {
    match crate::store::shape::shape_fault(v, what, message_slots(v), false) {
        Some(fault) => Err(fault),
        None => Ok(
            (
                text_value(v, "id"@, 0),
                blocks_in(crate::store::shape::field_at(v, "content"@, 1)),
                match crate::store::shape::field_at(v, "source"@, 2) {
                    Some(source) => source,
                    None => JsonView::Null,
                },
            ),
        ),
    }
}

/// The fields of a todo entry.
pub open spec fn todo_slots(v: JsonView) -> Seq<SlotView> {
    seq![text_slot(v, "content"@, 0), text_slot(v, "status"@, 1)]
}

/// The todo entry that a value describes.
pub open spec fn todo_item(v: JsonView) -> Result<TodoItemView, Seq<char>> {
    match crate::store::shape::shape_fault(v, "struct TodoItem"@, todo_slots(v), false) {
        Some(fault) => Err(fault),
        None => Ok(
            TodoItemView {
                content: text_value(v, "content"@, 0),
                status: text_value(v, "status"@, 1),
            },
        ),
    }
}

/// The todo entries that the values describe, in order.
pub open spec fn todo_items(items: Seq<JsonView>) -> Result<Seq<TodoItemView>, Seq<char>>
    decreases items.len(),
{
    if items.len() == 0 {
        Ok(Seq::empty())
    } else {
        match todo_item(items[0]) {
            Err(e) => Err(e),
            Ok(item) => match todo_items(items.drop_first()) {
                Err(e) => Err(e),
                Ok(rest) => Ok(seq![item] + rest),
            },
        }
    }
}

/// The todo entries of a member that has to be there.
pub open spec fn todos_field(data: JsonView, key: Seq<char>) -> Result<
    Seq<TodoItemView>,
    Seq<char>,
> {
    match data.get(key) {
        None => Err(naming("missing "@, key)),
        Some(JsonView::Array(items)) => todo_items(items),
        Some(v) => Err(crate::store::shape::wrong_type(v, "a sequence"@)),
    }
}

/// The fields of a tool failure.
pub open spec fn identity_slots(v: JsonView) -> Seq<SlotView> {
    seq![text_slot(v, "name"@, 0), text_slot(v, "code"@, 1)]
}

/// The tool failure of a member that may be absent or null.
pub open spec fn tool_error(data: JsonView, key: Seq<char>) -> Result<
    Option<ToolErrorIdentityView>,
    Seq<char>,
> {
    match opt_any(data, key) {
        None => Ok(None),
        Some(v) => match crate::store::shape::shape_fault(
            v,
            "struct ToolErrorIdentity"@,
            identity_slots(v),
            false,
        ) {
            Some(fault) => Err(fault),
            None => Ok(
                Some(
                    ToolErrorIdentityView {
                        name: text_value(v, "name"@, 0),
                        code: text_value(v, "code"@, 1),
                    },
                ),
            ),
        },
    }
}

/// The text of a member that has to be there.
pub open spec fn call_id_field(data: JsonView, key: Seq<char>) -> Result<Seq<char>, Seq<char>> {
    match data.get(key) {
        None => Err(naming("missing "@, key)),
        Some(JsonView::Str(s)) => Ok(s),
        Some(v) => Err(crate::store::shape::wrong_type(v, "a string"@)),
    }
}

/// The surface marker: `append`, or an object that replaces a range. Anything else is no
/// marker.
pub open spec fn surface_op(value: Option<JsonView>) -> Option<SurfaceOp> {
    match value {
        None => None,
        Some(v) => if v.as_str() == Some("append"@) {
            Some(SurfaceOp::Append)
        } else if v.get_str("op"@) == Some("replace"@) {
            match (v.get_i64("start"@), v.get_i64("end"@)) {
                (Some(start), Some(end)) => Some(SurfaceOp::Replace { start, end }),
                _ => None,
            }
        } else {
            None
        },
    }
}

/// The turn and the step that a payload names.
pub open spec fn turn_step(data: JsonView) -> Result<(i64, i64), Seq<char>> {
    match int_field(data, "turn"@) {
        Err(e) => Err(e),
        Ok(turn) => match int_field(data, "step"@) {
            Err(e) => Err(e),
            Ok(step) => Ok((turn, step)),
        },
    }
}

/// The payload of a `turn/end` event.
pub open spec fn turn_end_payload(data: JsonView) -> Result<EventDataView, Seq<char>> {
    match int_field(data, "turn"@) {
        Err(e) => Err(e),
        Ok(turn) => match data.get("reason"@) {
            None => Err("turn/end missing `reason`"@),
            Some(r) => match turn_end_reason(r) {
                Err(e) => Err(e),
                Ok(reason) => Ok(EventDataView::TurnEnd { turn, reason }),
            },
        },
    }
}

/// The payload of a `user/message` event.
pub open spec fn user_message_payload(data: JsonView) -> Result<EventDataView, Seq<char>> {
    match message_parts(data, "struct UserMessage"@) {
        Err(e) => Err(e),
        Ok((id, content, source)) => Ok(
            EventDataView::UserMessage(UserMessageView { id, content, source }),
        ),
    }
}

/// The payload of an `assistant/chunk` event.
pub open spec fn chunk_payload(data: JsonView) -> Result<EventDataView, Seq<char>> {
    match turn_step(data) {
        Err(e) => Err(e),
        Ok((turn, step)) => match any_field(data, "chunk"@) {
            Err(e) => Err(e),
            Ok(c) => match stream_chunk(c) {
                Err(e) => Err(e),
                Ok(chunk) => Ok(EventDataView::AssistantChunk { turn, step, chunk }),
            },
        },
    }
}

/// The usage of a member that may be absent or null.
pub open spec fn opt_usage(data: JsonView, key: Seq<char>) -> Result<Option<TokenUsage>, Seq<char>> {
    match opt_any(data, key) {
        None => Ok(None),
        Some(v) => match token_usage(v, false) {
            Err(e) => Err(e),
            Ok(u) => Ok(Some(u)),
        },
    }
}

/// The payload of an `assistant/message` event.
pub open spec fn assistant_message_payload(data: JsonView) -> Result<EventDataView, Seq<char>> {
    match turn_step(data) {
        Err(e) => Err(e),
        Ok((turn, step)) => match any_field(data, "message"@) {
            Err(e) => Err(e),
            Ok(m) => match message_parts(m, "struct AssistantMessage"@) {
                Err(e) => Err(e),
                Ok((id, content, source)) => match opt_usage(data, "usage"@) {
                    Err(e) => Err(e),
                    Ok(usage) => Ok(
                        EventDataView::AssistantMessage {
                            turn,
                            step,
                            message: AssistantMessageView { id, content, source },
                            usage,
                        },
                    ),
                },
            },
        },
    }
}

/// The payload of a `tool/call` event.
pub open spec fn tool_call_payload(data: JsonView) -> Result<EventDataView, Seq<char>> {
    match turn_step(data) {
        Err(e) => Err(e),
        Ok((turn, step)) => match call_id_field(data, "callId"@) {
            Err(e) => Err(e),
            Ok(call_id) => match str_field(data, "name"@) {
                Err(e) => Err(e),
                Ok(name) => match str_field(data, "arguments"@) {
                    Err(e) => Err(e),
                    Ok(arguments) => Ok(
                        EventDataView::ToolCall { turn, step, call_id, name, arguments },
                    ),
                },
            },
        },
    }
}

/// The payload of a `tool/result` event.
pub open spec fn tool_result_payload(data: JsonView) -> Result<EventDataView, Seq<char>> {
    match turn_step(data) {
        Err(e) => Err(e),
        Ok((turn, step)) => match any_field(data, "message"@) {
            Err(e) => Err(e),
            Ok(m) => match message_parts(m, "struct ToolResultMessage"@) {
                Err(e) => Err(e),
                Ok((id, content, source)) => match tool_error(data, "error"@) {
                    Err(e) => Err(e),
                    Ok(error) => Ok(
                        EventDataView::ToolResult {
                            turn,
                            step,
                            message: ToolResultMessageView { id, content, source },
                            error,
                            meta: opt_any(data, "meta"@),
                        },
                    ),
                },
            },
        },
    }
}

/// The payload of a `request/context` event.
pub open spec fn context_payload(data: JsonView) -> Result<EventDataView, Seq<char>> {
    match str_field(data, "provider"@) {
        Err(e) => Err(e),
        Ok(provider) => match str_field(data, "model"@) {
            Err(e) => Err(e),
            Ok(model) => match opt_int(data, "contextWindow"@) {
                Err(e) => Err(e),
                Ok(context_window) => Ok(
                    EventDataView::RequestContext { provider, model, context_window },
                ),
            },
        },
    }
}

/// The typed payload of an event of type `kind`.
pub open spec fn event_data(kind: Seq<char>, data: JsonView, ignorable: bool) -> Result<
    EventDataView,
    Seq<char>,
> {
    if kind == "turn/start"@ {
        match int_field(data, "turn"@) {
            Ok(turn) => Ok(EventDataView::TurnStart { turn }),
            Err(e) => Err(e),
        }
    } else if kind == "turn/end"@ {
        turn_end_payload(data)
    } else if kind == "step/start"@ {
        match turn_step(data) {
            Ok((turn, step)) => Ok(EventDataView::StepStart { turn, step }),
            Err(e) => Err(e),
        }
    } else if kind == "step/end"@ {
        match turn_step(data) {
            Ok((turn, step)) => Ok(EventDataView::StepEnd { turn, step }),
            Err(e) => Err(e),
        }
    } else if kind == "user/message"@ {
        user_message_payload(data)
    } else if kind == "assistant/chunk"@ {
        chunk_payload(data)
    } else if kind == "assistant/message"@ {
        assistant_message_payload(data)
    } else if kind == "tool/call"@ {
        tool_call_payload(data)
    } else if kind == "tool/result"@ {
        tool_result_payload(data)
    } else if kind == "todo/write"@ {
        match todos_field(data, "todos"@) {
            Ok(todos) => Ok(EventDataView::TodoWrite { todos }),
            Err(e) => Err(e),
        }
    } else if kind == "request/header"@ {
        match any_field(data, "header"@) {
            Ok(header) => Ok(EventDataView::RequestHeader { header }),
            Err(e) => Err(e),
        }
    } else if kind == "request/context"@ {
        context_payload(data)
    } else if kind == "session/end-seed"@ {
        Ok(EventDataView::EndSeed)
    } else {
        Ok(EventDataView::Unknown { ignorable })
    }
}

// ---------------------------------------------------------------------------
// parsing
// ---------------------------------------------------------------------------

fn fail(message: &str) -> (r: EventDataError)
    ensures
        r@ == message@,
{
    EventDataError(message.to_owned())
}

fn error_naming(before: &str, key: &str) -> (r: EventDataError)
    ensures
        r@ == naming(before@, key@),
{
    let mut text = joined(before, "`");
    text.append(key);
    text.append("`");
    EventDataError(text)
}

fn field_i64(data: &Json, key: &str) -> (r: Result<i64, EventDataError>)
    ensures
        outcome(r) == int_field(data@, key@),
{
    match data.get_i64(key) {
        Some(n) => Ok(n),
        None => Err(error_naming("missing or non-integer ", key)),
    }
}

fn field_str(data: &Json, key: &str) -> (r: Result<String, EventDataError>)
    ensures
        outcome(r) == str_field(data@, key@),
{
    match data.get_str(key) {
        Some(s) => Ok(s.to_owned()),
        None => Err(error_naming("missing or non-string ", key)),
    }
}

fn field_value(data: &Json, key: &str) -> (r: Result<Json, EventDataError>)
    ensures
        outcome(r) == any_field(data@, key@),
{
    match data.get(key) {
        Some(v) => Ok(v.duplicate()),
        None => Err(error_naming("missing ", key)),
    }
}

fn field_ref<'a>(data: &'a Json, key: &str) -> (r: Result<&'a Json, EventDataError>)
    ensures
        match r {
            Ok(v) => any_field(data@, key@) == Ok::<JsonView, Seq<char>>(v@),
            Err(e) => any_field(data@, key@) == Err::<JsonView, Seq<char>>(e@),
        },
        r matches Ok(v) ==> decreases_to!(*data => *v),
{
    match data.get(key) {
        Some(v) => Ok(v),
        None => Err(error_naming("missing ", key)),
    }
}

fn opt_i64(data: &Json, key: &str) -> (r: Result<Option<i64>, EventDataError>)
    ensures
        opt_outcome(r) == opt_int(data@, key@),
{
    match data.get(key) {
        None => Ok(None),
        Some(v) => match v {
            Json::Null => Ok(None),
            Json::Int(n) => Ok(Some(*n)),
            _ => Err(error_naming("non-integer ", key)),
        },
    }
}

fn opt_bool(data: &Json, key: &str) -> (r: Result<Option<bool>, EventDataError>)
    ensures
        opt_outcome(r) == opt_flag(data@, key@),
{
    match data.get(key) {
        None => Ok(None),
        Some(v) => match v {
            Json::Null => Ok(None),
            Json::Bool(b) => Ok(Some(*b)),
            _ => Err(error_naming("non-boolean ", key)),
        },
    }
}

fn opt_field<'a>(data: &'a Json, key: &str) -> (r: Option<&'a Json>)
    ensures
        crate::text::opt_view(r) == opt_any(data@, key@),
{
    match data.get(key) {
        None => None,
        Some(v) => match v {
            Json::Null => None,
            _ => Some(v),
        },
    }
}

fn add_int<'a>(slots: &mut Vec<Slot>, v: &'a Json, key: &'static str, place: usize) -> (r: Option<
    &'a Json,
>)
    ensures
        crate::text::views(final(slots)@) == crate::text::views(old(slots)@).push(
            int_slot(v@, key@, place as int),
        ),
        crate::text::opt_view(r) == crate::store::shape::field_at(v@, key@, place as int),
{
    let value = find_field(v, key, place);
    add_slot(slots, key, true, check_int(value));
    value
}

fn add_text<'a>(slots: &mut Vec<Slot>, v: &'a Json, key: &'static str, place: usize) -> (r: Option<
    &'a Json,
>)
    ensures
        crate::text::views(final(slots)@) == crate::text::views(old(slots)@).push(
            text_slot(v@, key@, place as int),
        ),
        crate::text::opt_view(r) == crate::store::shape::field_at(v@, key@, place as int),
{
    let value = find_field(v, key, place);
    add_slot(slots, key, true, check_text(value));
    value
}

fn add_opt_int<'a>(slots: &mut Vec<Slot>, v: &'a Json, key: &'static str, place: usize) -> (r:
    Option<&'a Json>)
    ensures
        crate::text::views(final(slots)@) == crate::text::views(old(slots)@).push(
            opt_int_slot(v@, key@, place as int),
        ),
        crate::text::opt_view(r) == crate::store::shape::field_at(v@, key@, place as int),
{
    let value = find_field(v, key, place);
    add_slot(slots, key, false, check_int(skip_null(value)));
    value
}

fn add_opt_text<'a>(slots: &mut Vec<Slot>, v: &'a Json, key: &'static str, place: usize) -> (r:
    Option<&'a Json>)
    ensures
        crate::text::views(final(slots)@) == crate::text::views(old(slots)@).push(
            opt_text_slot(v@, key@, place as int),
        ),
        crate::text::opt_view(r) == crate::store::shape::field_at(v@, key@, place as int),
{
    let value = find_field(v, key, place);
    add_slot(slots, key, false, check_text(skip_null(value)));
    value
}

fn no_slots() -> (r: Vec<Slot>)
    ensures
        crate::text::views(r@) == Seq::<SlotView>::empty(),
{
    let none: Vec<Slot> = Vec::new();
    proof {
        assert(crate::text::views(none@) =~= Seq::<SlotView>::empty());
    }
    none
}

fn parse_image_ref(v: &Json) -> (r: Result<ImageAttachmentRef, EventDataError>)
    ensures
        outcome(r) == image_ref(v@),
{
    let mut slots = no_slots();
    let attachment_id = add_text(&mut slots, v, "attachmentId", 0);
    let name = add_opt_text(&mut slots, v, "name", 1);
    proof {
        assert(crate::text::views(slots@) =~= image_slots(v@));
    }
    match check_shape(v, "struct ImageAttachmentRef", &slots, false) {
        Some(fault) => Err(EventDataError(fault)),
        None => Ok(
            ImageAttachmentRef { attachment_id: read_text(attachment_id), name: take_text(name) },
        ),
    }
}

/// The content block that `value` describes.
pub fn parse_content_block(value: &Json) -> (r: Result<ContentBlock, EventDataError>)
    ensures
        outcome(r) == content_block(value@),
    decreases value, 2nat,
{
    let tag = match value.get_str("type") {
        Some(t) => t,
        None => "",
    };
    if same(tag, "text") {
        Ok(ContentBlock::Text { text: field_str(value, "text")? })
    } else if same(tag, "reasoning") {
        Ok(ContentBlock::Reasoning { text: field_str(value, "text")? })
    } else if same(tag, "image") {
        let attachment = parse_image_ref(field_ref(value, "attachment")?)?;
        Ok(ContentBlock::Image { attachment })
    } else if same(tag, "tool-call") {
        let id = field_str(value, "id")?;
        let name = field_str(value, "name")?;
        let arguments = field_str(value, "arguments")?;
        Ok(ContentBlock::ToolCall { id, name, arguments })
    } else if same(tag, "tool-result") {
        let tool_call_id = field_str(value, "toolCallId")?;
        let content = parse_opt_blocks(value, "content")?;
        let is_error = opt_bool(value, "isError")?;
        proof {
            lemma_result_view(tool_call_id, content, is_error);
        }
        Ok(ContentBlock::ToolResult { tool_call_id, content, is_error })
    } else {
        Ok(ContentBlock::Raw(value.duplicate()))
    }
}

fn parse_opt_blocks(data: &Json, key: &str) -> (r: Result<Vec<ContentBlock>, EventDataError>)
    ensures
        list_outcome(r) == opt_blocks(data@, key@),
    decreases data, 1nat,
{
    match data.get(key) {
        None => {
            let none: Vec<ContentBlock> = Vec::new();
            proof {
                assert(crate::text::views(none@) =~= Seq::empty());
            }
            Ok(none)
        },
        Some(v) => match v {
            Json::Null => {
                let none: Vec<ContentBlock> = Vec::new();
                proof {
                    assert(crate::text::views(none@) =~= Seq::empty());
                }
                Ok(none)
            },
            Json::Array(items) => {
                proof {
                    assert(crate::text::views(items@) =~= v@->Array_0);
                }
                parse_content_blocks(items)
            },
            _ => Err(EventDataError(tell_wrong_type(v, "a sequence"))),
        },
    }
}

pub(crate) fn parse_content_blocks(items: &Vec<Json>) -> (r: Result<Vec<ContentBlock>, EventDataError>)
    ensures
        list_outcome(r) == content_blocks(crate::text::views(items@)),
    decreases items, 0nat,
{
    let mut out: Vec<ContentBlock> = Vec::new();
    let mut i: usize = 0;
    let ghost all = crate::text::views(items@);
    proof {
        assert(all.skip(0) =~= all);
        assert(crate::text::views(out@) =~= Seq::empty());
        assert(content_blocks(all) is Ok ==> Seq::<ContentBlockView>::empty() + content_blocks(all)->Ok_0
            =~= content_blocks(all)->Ok_0);
    }
    while i < items.len()
        invariant
            i <= items.len(),
            all == crate::text::views(items@),
            content_blocks(all) == (match content_blocks(all.skip(i as int)) {
                Ok(rest) => Ok::<Seq<ContentBlockView>, Seq<char>>(
                    crate::text::views(out@) + rest,
                ),
                Err(e) => Err(e),
            }),
        decreases items.len() - i,
    {
        proof {
            assert(decreases_to!(*items => items@[i as int]));
            assert(all.skip(i as int)[0] == items@[i as int]@);
            assert(all.skip(i as int).drop_first() =~= all.skip(i + 1));
        }
        let block = match parse_content_block(&items[i]) {
            Ok(block) => block,
            Err(e) => return Err(EventDataError(e.message())),
        };
        proof {
            assert(crate::text::views(out@.push(block)) =~= crate::text::views(out@).push(block@));
            let rest = content_blocks(all.skip(i + 1));
            if rest is Ok {
                assert(crate::text::views(out@) + (seq![block@] + rest->Ok_0)
                    =~= crate::text::views(out@).push(block@) + rest->Ok_0);
            }
        }
        out.push(block);
        i = i + 1;
    }
    proof {
        assert(all.skip(i as int) =~= Seq::empty());
        assert(crate::text::views(out@) + Seq::<ContentBlockView>::empty() =~= crate::text::views(out@));
    }
    Ok(out)
}

fn check_blocks(v: Option<&Json>) -> (r: Result<Vec<ContentBlock>, String>)
    ensures
        match r {
            Ok(blocks) => blocks_fault(crate::text::opt_view(v)) is None && crate::text::views(
                blocks@,
            ) == blocks_in(crate::text::opt_view(v)),
            Err(fault) => blocks_fault(crate::text::opt_view(v)) == Some(fault@),
        },
{
    match v {
        Some(x) => match x {
            Json::Array(items) => {
                proof {
                    assert(crate::text::views(items@) =~= x@->Array_0);
                }
                match parse_content_blocks(items) {
                    Ok(blocks) => Ok(blocks),
                    Err(e) => Err(e.0),
                }
            },
            _ => Err(tell_wrong_type(x, "a sequence")),
        },
        None => {
            let none: Vec<ContentBlock> = Vec::new();
            proof {
                assert(crate::text::views(none@) =~= Seq::<ContentBlockView>::empty());
            }
            Ok(none)
        },
    }
}

fn parse_message(v: &Json, what: &str) -> (r: Result<
    (String, Vec<ContentBlock>, Json),
    EventDataError,
>)
    ensures
        match r {
            Ok((id, content, source)) => message_parts(v@, what@) == Ok::<_, Seq<char>>(
                (id@, crate::text::views(content@), source@),
            ),
            Err(e) => message_parts(v@, what@) == Err::<
                (Seq<char>, Seq<ContentBlockView>, JsonView),
                _,
            >(e@),
        },
{
    let mut slots = no_slots();
    let id = add_text(&mut slots, v, "id", 0);
    let (content, fault) = match check_blocks(find_field(v, "content", 1)) {
        Ok(content) => (content, None),
        Err(fault) => (Vec::new(), Some(fault)),
    };
    let ghost wrong = fault is Some;
    add_slot(&mut slots, "content", true, fault);
    let source = find_field(v, "source", 2);
    add_slot(&mut slots, "source", true, None);
    proof {
        assert(crate::text::views(slots@) =~= message_slots(v@));
    }
    match check_shape(v, what, &slots, false) {
        Some(fault) => Err(EventDataError(fault)),
        None => {
            proof {
                if wrong {
                    lemma_content_fits(v@, what@);
                }
            }
            let source = match source {
                Some(source) => source.duplicate(),
                None => Json::Null,
            };
            Ok((read_text(id), content, source))
        },
    }
}

/// A message in which nothing is wrong has content that fits.
proof fn lemma_content_fits(v: JsonView, what: Seq<char>)
    requires
        crate::store::shape::shape_fault(v, what, message_slots(v), false) is None,
    ensures
        blocks_fault(crate::store::shape::field_at(v, "content"@, 1)) is None,
{
    reveal_strlit("id");
    reveal_strlit("content");
    reveal_strlit("source");
    let slots = message_slots(v);
    assert(slots[0].key.len() == 2);
    assert(slots[1].key.len() == 7);
    assert(slots[2].key.len() == 6);
    crate::store::shape::law_good_shape(v, what, slots, false, 1);
}

fn parse_usage(v: &Json, set_aside: bool) -> (r: Result<TokenUsage, EventDataError>)
    ensures
        match r {
            Ok(u) => token_usage(v@, set_aside) == Ok::<TokenUsage, Seq<char>>(u),
            Err(e) => token_usage(v@, set_aside) == Err::<TokenUsage, Seq<char>>(e@),
        },
{
    let mut slots = no_slots();
    let input = add_int(&mut slots, v, "inputTokens", 0);
    let output = add_int(&mut slots, v, "outputTokens", 1);
    let cache_read = add_opt_int(&mut slots, v, "cacheReadTokens", 2);
    let cache_write = add_opt_int(&mut slots, v, "cacheWriteTokens", 3);
    let reasoning = add_opt_int(&mut slots, v, "reasoningTokens", 4);
    proof {
        assert(crate::text::views(slots@) =~= usage_slots(v@));
    }
    match check_shape(v, "struct TokenUsage", &slots, set_aside) {
        Some(fault) => Err(EventDataError(fault)),
        None => Ok(
            TokenUsage {
                input_tokens: read_int(input),
                output_tokens: read_int(output),
                cache_read_tokens: take_int(cache_read),
                cache_write_tokens: take_int(cache_write),
                reasoning_tokens: take_int(reasoning),
            },
        ),
    }
}

fn parse_llm_failure(v: &Json) -> (r: Result<LlmFailure, EventDataError>)
    ensures
        outcome(r) == llm_failure(v@),
{
    let mut slots = no_slots();
    let message = add_text(&mut slots, v, "message", 0);
    let code = add_text(&mut slots, v, "code", 1);
    let status = add_opt_int(&mut slots, v, "status", 2);
    let retry = add_opt_int(&mut slots, v, "providerRetryAfterMs", 3);
    let request_id = add_opt_text(&mut slots, v, "requestId", 4);
    proof {
        assert(crate::text::views(slots@) =~= failure_slots(v@));
    }
    match check_shape(v, "struct LlmFailure", &slots, false) {
        Some(fault) => Err(EventDataError(fault)),
        None => Ok(
            LlmFailure {
                message: read_text(message),
                code: read_text(code),
                status: take_int(status),
                provider_retry_after_ms: take_int(retry),
                request_id: take_text(request_id),
            },
        ),
    }
}

fn parse_failure_member(v: &Json, key: &str, missing: &str) -> (r: Result<
    LlmFailure,
    EventDataError,
>)
    ensures
        outcome(r) == failure_member(v@, key@, missing@),
{
    match v.get(key) {
        None => Err(fail(missing)),
        Some(f) => parse_llm_failure(f),
    }
}

/// The finish reason that `value` describes.
pub fn parse_finish_reason(value: &Json) -> (r: Result<FinishReason, EventDataError>)
    ensures
        outcome(r) == finish_reason(value@),
{
    match value {
        Json::Str(kind) => {
            let kind = kind.as_str();
            Ok(
                if same(kind, "stop") {
                    FinishReason::Stop
                } else if same(kind, "tool-calls") {
                    FinishReason::ToolCalls
                } else if same(kind, "max-tokens") {
                    FinishReason::MaxTokens
                } else {
                    FinishReason::Unknown(kind.to_owned())
                },
            )
        },
        Json::Object(_) => match value.get_str("kind") {
            None => Err(fail("finish reason object missing `kind`")),
            Some(kind) => {
                if same(kind, "stop") {
                    Ok(FinishReason::Stop)
                } else if same(kind, "tool-calls") {
                    Ok(FinishReason::ToolCalls)
                } else if same(kind, "max-tokens") {
                    Ok(FinishReason::MaxTokens)
                } else if same(kind, "aborted") {
                    let failure = parse_failure_member(
                        value,
                        "failure",
                        "aborted finish requires `failure`",
                    )?;
                    Ok(FinishReason::Aborted { failure })
                } else if same(kind, "error") {
                    let failure = parse_failure_member(
                        value,
                        "failure",
                        "error finish requires `failure`",
                    )?;
                    Ok(FinishReason::Error { failure })
                } else {
                    Ok(FinishReason::Unknown(kind.to_owned()))
                }
            },
        },
        _ => Err(fail("finish reason must be a string or object")),
    }
}

fn read_tag<'a>(v: &'a Json) -> (r: Result<&'a str, EventDataError>)
    ensures
        match r {
            Ok(tag) => chunk_tag(v@) == Ok::<_, Seq<char>>(tag@),
            Err(e) => chunk_tag(v@) == Err::<Seq<char>, _>(e@),
        },
{
    match v {
        Json::Object(_) | Json::Array(_) => match find_field(v, "type", 0) {
            None => Err(EventDataError(tell_missing("type"))),
            Some(t) => match t {
                Json::Str(tag) => Ok(tag.as_str()),
                _ => Err(EventDataError(tell_wrong_type(t, "variant identifier"))),
            },
        },
        _ => Err(EventDataError(tell_wrong_type(v, "internally tagged enum StreamChunk"))),
    }
}

fn check_variant(v: &Json, what: &str, slots: &Vec<Slot>) -> (r: Result<(), EventDataError>)
    requires
        chunk_tag(v@) is Ok,
    ensures
        match r {
            Ok(_) => variant_fault(v@, what@, crate::text::views(slots@)) is None,
            Err(e) => variant_fault(v@, what@, crate::text::views(slots@)) == Some(e@),
        },
{
    let fault = match v {
        Json::Array(items) => {
            proof {
                assert(v@->Array_0.len() == items@.len());
            }
            check_array(items.len() - 1, what, slots, true)
        },
        _ => check_object(v, slots),
    };
    match fault {
        Some(fault) => Err(EventDataError(fault)),
        None => Ok(()),
    }
}

fn parse_delta(v: &Json, what: &str, key: &'static str) -> (r: Result<(i64, String), EventDataError>)
    requires
        chunk_tag(v@) is Ok,
    ensures
        match r {
            Ok((index, text)) => {
                &&& variant_fault(v@, what@, delta_slots(v@, key@)) is None
                &&& index == int_value(v@, "index"@, 1)
                &&& text@ == text_value(v@, key@, 2)
            },
            Err(e) => variant_fault(v@, what@, delta_slots(v@, key@)) == Some(e@),
        },
{
    let mut slots = no_slots();
    let index = add_int(&mut slots, v, "index", 1);
    let text = add_text(&mut slots, v, key, 2);
    proof {
        assert(crate::text::views(slots@) =~= delta_slots(v@, key@));
    }
    match check_variant(v, what, &slots) {
        Ok(_) => Ok((read_int(index), read_text(text))),
        Err(e) => Err(e),
    }
}

fn parse_call_delta(v: &Json) -> (r: Result<StreamChunk, EventDataError>)
    requires
        chunk_tag(v@) == Ok::<_, Seq<char>>("tool-call-delta"@),
    ensures
        outcome(r) == stream_chunk(v@),
{
    proof {
        lemma_tags_apart();
    }
    let mut slots = no_slots();
    let index = add_int(&mut slots, v, "index", 1);
    let id = add_text(&mut slots, v, "id", 2);
    let name = add_opt_text(&mut slots, v, "name", 3);
    let delta = add_text(&mut slots, v, "argumentsDelta", 4);
    proof {
        assert(crate::text::views(slots@) =~= call_delta_slots(v@));
    }
    match check_variant(v, "struct variant StreamChunk::ToolCallDelta", &slots) {
        Ok(_) => Ok(
            StreamChunk::ToolCallDelta {
                index: read_int(index),
                id: CallId(read_text(id)),
                name: take_text(name),
                arguments_delta: read_text(delta),
            },
        ),
        Err(e) => Err(e),
    }
}

fn parse_block_end(v: &Json) -> (r: Result<StreamChunk, EventDataError>)
    requires
        chunk_tag(v@) == Ok::<_, Seq<char>>("block-end"@),
    ensures
        outcome(r) == stream_chunk(v@),
{
    proof {
        lemma_tags_apart();
    }
    let mut slots = no_slots();
    let index = add_int(&mut slots, v, "index", 1);
    let (block, fault) = match find_field(v, "block", 2) {
        Some(b) => match parse_content_block(b) {
            Ok(block) => (block, None),
            Err(e) => (ContentBlock::Raw(b.duplicate()), Some(e.message())),
        },
        None => (ContentBlock::Raw(Json::Null), None),
    };
    add_slot(&mut slots, "block", true, fault);
    proof {
        assert(crate::text::views(slots@) =~= block_end_slots(v@));
    }
    match check_variant(v, "struct variant StreamChunk::BlockEnd", &slots) {
        Ok(_) => Ok(StreamChunk::BlockEnd { index: read_int(index), block }),
        Err(e) => Err(e),
    }
}

fn parse_usage_chunk(v: &Json) -> (r: Result<StreamChunk, EventDataError>)
    requires
        chunk_tag(v@) == Ok::<_, Seq<char>>("usage"@),
    ensures
        outcome(r) == stream_chunk(v@),
{
    proof {
        lemma_tags_apart();
    }
    let mut slots = no_slots();
    let found = find_field(v, "usage", 1);
    let parsed = match found {
        Some(u) => Some(parse_usage(u, true)),
        None => None,
    };
    let fault = match &parsed {
        Some(Err(e)) => Some(e.0.clone()),
        _ => None,
    };
    add_slot(&mut slots, "usage", true, fault);
    proof {
        assert(crate::text::views(slots@) =~= usage_chunk_slots(v@));
    }
    match check_variant(v, "struct variant StreamChunk::Usage", &slots) {
        Ok(_) => {
            proof {
                lemma_usage_there(v@);
            }
            match parsed {
                Some(Ok(usage)) => Ok(StreamChunk::Usage { usage }),
                _ => Err(EventDataError(tell_missing("usage"))),
            }
        },
        Err(e) => Err(e),
    }
}

fn parse_finish_chunk(v: &Json) -> (r: Result<StreamChunk, EventDataError>)
    requires
        chunk_tag(v@) == Ok::<_, Seq<char>>("finish"@),
    ensures
        outcome(r) == stream_chunk(v@),
{
    proof {
        lemma_tags_apart();
    }
    let mut slots = no_slots();
    let (reason, fault) = match find_field(v, "reason", 1) {
        Some(r) => match parse_finish_reason(r) {
            Ok(reason) => (reason, None),
            Err(e) => (FinishReason::Unknown(e.0.clone()), Some(e.message())),
        },
        None => (FinishReason::Unknown("".to_owned()), None),
    };
    add_slot(&mut slots, "reason", true, fault);
    let replay = skip_null(find_field(v, "replayState", 2));
    add_slot(&mut slots, "replayState", false, None);
    proof {
        assert(crate::text::views(slots@) =~= finish_slots(v@));
    }
    match check_variant(v, "struct variant StreamChunk::Finish", &slots) {
        Ok(_) => {
            let replay_state = match replay {
                Some(state) => Some(state.duplicate()),
                None => None,
            };
            Ok(StreamChunk::Finish { reason, replay_state })
        },
        Err(e) => Err(e),
    }
}

/// A usage report in which nothing is wrong has a usage that fits.
proof fn lemma_usage_there(v: JsonView)
    requires
        chunk_tag(v) is Ok,
        variant_fault(v, "struct variant StreamChunk::Usage"@, usage_chunk_slots(v)) is None,
    ensures
        crate::store::shape::field_at(v, "usage"@, 1) is Some,
        chunk_usage_fault(crate::store::shape::field_at(v, "usage"@, 1)) is None,
{
    let slots = usage_chunk_slots(v);
    let what = "struct variant StreamChunk::Usage"@;
    match v {
        JsonView::Array(items) => {
            let rest = JsonView::Array(items.drop_first());
            assert(items.drop_first().len() == items.len() - 1);
            crate::store::shape::law_good_shape(rest, what, slots, true, 0);
        },
        _ => crate::store::shape::law_good_shape(v, what, slots, true, 0),
    }
}

/// No two chunks have the same tag.
proof fn lemma_tags_apart()
    ensures
        "tool-call-delta"@ != "block-start"@,
        "tool-call-delta"@ != "text-delta"@,
        "tool-call-delta"@ != "reasoning-delta"@,
        "block-end"@ != "block-start"@,
        "block-end"@ != "text-delta"@,
        "block-end"@ != "reasoning-delta"@,
        "block-end"@ != "tool-call-delta"@,
        "usage"@ != "block-start"@,
        "usage"@ != "text-delta"@,
        "usage"@ != "reasoning-delta"@,
        "usage"@ != "tool-call-delta"@,
        "usage"@ != "block-end"@,
        "finish"@ != "block-start"@,
        "finish"@ != "text-delta"@,
        "finish"@ != "reasoning-delta"@,
        "finish"@ != "tool-call-delta"@,
        "finish"@ != "block-end"@,
        "finish"@ != "usage"@,
{
    reveal_strlit("block-start");
    reveal_strlit("text-delta");
    reveal_strlit("reasoning-delta");
    reveal_strlit("tool-call-delta");
    reveal_strlit("block-end");
    reveal_strlit("usage");
    reveal_strlit("finish");
    assert("block-start"@.len() == 11);
    assert("text-delta"@.len() == 10);
    assert("reasoning-delta"@.len() == 15);
    assert("tool-call-delta"@.len() == 15);
    assert("block-end"@.len() == 9);
    assert("usage"@.len() == 5);
    assert("finish"@.len() == 6);
    assert("tool-call-delta"@[0] != "reasoning-delta"@[0]);
}

fn parse_stream_chunk(v: &Json) -> (r: Result<StreamChunk, EventDataError>)
    ensures
        outcome(r) == stream_chunk(v@),
{
    let tag = match read_tag(v) {
        Ok(tag) => tag,
        Err(e) => return Err(e),
    };
    if same(tag, "block-start") {
        match parse_delta(v, "struct variant StreamChunk::BlockStart", "blockType") {
            Ok((index, block_type)) => Ok(StreamChunk::BlockStart { index, block_type }),
            Err(e) => Err(e),
        }
    } else if same(tag, "text-delta") {
        match parse_delta(v, "struct variant StreamChunk::TextDelta", "text") {
            Ok((index, text)) => Ok(StreamChunk::TextDelta { index, text }),
            Err(e) => Err(e),
        }
    } else if same(tag, "reasoning-delta") {
        match parse_delta(v, "struct variant StreamChunk::ReasoningDelta", "text") {
            Ok((index, text)) => Ok(StreamChunk::ReasoningDelta { index, text }),
            Err(e) => Err(e),
        }
    } else if same(tag, "tool-call-delta") {
        parse_call_delta(v)
    } else if same(tag, "block-end") {
        parse_block_end(v)
    } else if same(tag, "usage") {
        parse_usage_chunk(v)
    } else if same(tag, "finish") {
        parse_finish_chunk(v)
    } else {
        let mut text = joined("unknown variant `", tag);
        text.append(
            "`, expected one of `block-start`, `text-delta`, `reasoning-delta`, `tool-call-delta`, `block-end`, `usage`, `finish`",
        );
        Err(EventDataError(text))
    }
}

fn parse_cancel_cause(v: &Json) -> (r: TurnEndCancelCause)
    ensures
        r@ == cancel_cause(v@),
{
    let kind = match v.get_str("kind") {
        Some(k) => k,
        None => "",
    };
    if same(kind, "user") {
        TurnEndCancelCause::User
    } else if same(kind, "parent") {
        TurnEndCancelCause::Parent
    } else if same(kind, "hook") {
        TurnEndCancelCause::Hook {
            reason: match v.get_str("reason") {
                Some(r) => r.to_owned(),
                None => String::new(),
            },
        }
    } else if same(kind, "disposed") {
        TurnEndCancelCause::Disposed
    } else if same(kind, "legacy") {
        TurnEndCancelCause::Legacy
    } else {
        TurnEndCancelCause::Unknown(kind.to_owned())
    }
}

fn parse_turn_end_reason(v: &Json) -> (r: Result<TurnEndReason, EventDataError>)
    ensures
        outcome(r) == turn_end_reason(v@),
{
    match v {
        Json::Str(kind) => {
            let kind = kind.as_str();
            Ok(
                if same(kind, "completed") {
                    TurnEndReason::Completed
                } else if same(kind, "blocked") {
                    TurnEndReason::Blocked
                } else if same(kind, "max-tokens") {
                    TurnEndReason::MaxTokens
                } else if same(kind, "interrupted") {
                    TurnEndReason::Interrupted
                } else {
                    TurnEndReason::Unknown(kind.to_owned())
                },
            )
        },
        Json::Object(_) => match v.get_str("kind") {
            None => Err(fail("turn/end reason object missing `kind`")),
            Some(kind) => {
                if same(kind, "completed") {
                    Ok(TurnEndReason::Completed)
                } else if same(kind, "aborted") {
                    Ok(
                        TurnEndReason::Aborted {
                            reason: match v.get("reason") {
                                Some(r) => parse_cancel_cause(r),
                                None => TurnEndCancelCause::Unknown("missing".to_owned()),
                            },
                        },
                    )
                } else if same(kind, "blocked") {
                    Ok(TurnEndReason::Blocked)
                } else if same(kind, "error") {
                    let error = parse_failure_member(
                        v,
                        "error",
                        "turn/end error reason missing `error`",
                    )?;
                    Ok(TurnEndReason::Error { error })
                } else if same(kind, "max-tokens") {
                    Ok(TurnEndReason::MaxTokens)
                } else if same(kind, "interrupted") {
                    Ok(TurnEndReason::Interrupted)
                } else {
                    Ok(TurnEndReason::Unknown(kind.to_owned()))
                }
            },
        },
        _ => Err(fail("turn/end reason must be a string or object")),
    }
}

fn parse_todo(v: &Json) -> (r: Result<TodoItem, EventDataError>)
    ensures
        outcome(r) == todo_item(v@),
{
    let mut slots = no_slots();
    let content = add_text(&mut slots, v, "content", 0);
    let status = add_text(&mut slots, v, "status", 1);
    proof {
        assert(crate::text::views(slots@) =~= todo_slots(v@));
    }
    match check_shape(v, "struct TodoItem", &slots, false) {
        Some(fault) => Err(EventDataError(fault)),
        None => Ok(TodoItem { content: read_text(content), status: read_text(status) }),
    }
}

fn parse_todo_items(items: &Vec<Json>) -> (r: Result<Vec<TodoItem>, EventDataError>)
    ensures
        list_outcome(r) == todo_items(crate::text::views(items@)),
{
    let mut out: Vec<TodoItem> = Vec::new();
    let mut i: usize = 0;
    let ghost all = crate::text::views(items@);
    proof {
        assert(all.skip(0) =~= all);
        assert(crate::text::views(out@) =~= Seq::empty());
        assert(todo_items(all) is Ok ==> Seq::<TodoItemView>::empty() + todo_items(all)->Ok_0
            =~= todo_items(all)->Ok_0);
    }
    while i < items.len()
        invariant
            i <= items.len(),
            all == crate::text::views(items@),
            todo_items(all) == (match todo_items(all.skip(i as int)) {
                Ok(rest) => Ok::<Seq<TodoItemView>, Seq<char>>(crate::text::views(out@) + rest),
                Err(e) => Err(e),
            }),
        decreases items.len() - i,
    {
        proof {
            assert(all.skip(i as int)[0] == items@[i as int]@);
            assert(all.skip(i as int).drop_first() =~= all.skip(i + 1));
        }
        let item = match parse_todo(&items[i]) {
            Ok(item) => item,
            Err(e) => return Err(e),
        };
        proof {
            assert(crate::text::views(out@.push(item)) =~= crate::text::views(out@).push(item@));
            let rest = todo_items(all.skip(i + 1));
            if rest is Ok {
                assert(crate::text::views(out@) + (seq![item@] + rest->Ok_0)
                    =~= crate::text::views(out@).push(item@) + rest->Ok_0);
            }
        }
        out.push(item);
        i = i + 1;
    }
    proof {
        assert(all.skip(i as int) =~= Seq::empty());
        assert(crate::text::views(out@) + Seq::<TodoItemView>::empty() =~= crate::text::views(out@));
    }
    Ok(out)
}

fn parse_todos(data: &Json, key: &str) -> (r: Result<Vec<TodoItem>, EventDataError>)
    ensures
        list_outcome(r) == todos_field(data@, key@),
{
    match data.get(key) {
        Some(v) => match v {
            Json::Array(items) => {
                proof {
                    assert(crate::text::views(items@) =~= v@->Array_0);
                }
                parse_todo_items(items)
            },
            _ => Err(EventDataError(tell_wrong_type(v, "a sequence"))),
        },
        None => Err(error_naming("missing ", key)),
    }
}

fn parse_tool_error(data: &Json, key: &str) -> (r: Result<Option<ToolErrorIdentity>, EventDataError>)
    ensures
        opt_outcome(r) == tool_error(data@, key@),
{
    match opt_field(data, key) {
        Some(v) => {
            let mut slots = no_slots();
            let name = add_text(&mut slots, v, "name", 0);
            let code = add_text(&mut slots, v, "code", 1);
            proof {
                assert(crate::text::views(slots@) =~= identity_slots(v@));
            }
            match check_shape(v, "struct ToolErrorIdentity", &slots, false) {
                Some(fault) => Err(EventDataError(fault)),
                None => Ok(
                    Some(ToolErrorIdentity { name: read_text(name), code: read_text(code) }),
                ),
            }
        },
        None => Ok(None),
    }
}

fn parse_call_id(data: &Json, key: &str) -> (r: Result<CallId, EventDataError>)
    ensures
        outcome(r) == call_id_field(data@, key@),
{
    match data.get(key) {
        Some(v) => match v {
            Json::Str(s) => Ok(CallId(s.clone())),
            _ => Err(EventDataError(tell_wrong_type(v, "a string"))),
        },
        None => Err(error_naming("missing ", key)),
    }
}

/// The surface marker of an event.
pub fn parse_surface_op(value: Option<&Json>) -> (r: Option<SurfaceOp>)
    ensures
        r == surface_op(crate::text::opt_view(value)),
{
    match value {
        None => None,
        Some(v) => {
            let appends = match v.as_str() {
                Some(s) => same(s, "append"),
                None => false,
            };
            if appends {
                return Some(SurfaceOp::Append);
            }
            let replaces = match v.get_str("op") {
                Some(s) => same(s, "replace"),
                None => false,
            };
            if !replaces {
                return None;
            }
            match (v.get_i64("start"), v.get_i64("end")) {
                (Some(start), Some(end)) => Some(SurfaceOp::Replace { start, end }),
                _ => None,
            }
        },
    }
}

/// The typed payload of an event of type `kind`. A known type whose payload is
/// malformed is an error; an unknown type is [`EventData::Unknown`].
pub fn parse_event_data(kind: &str, data: &Json, ignorable: bool) -> (r: Result<
    EventData,
    EventDataError,
>)
    ensures
        outcome(r) == event_data(kind@, data@, ignorable),
{
    if same(kind, "turn/start") {
        Ok(EventData::TurnStart { turn: field_i64(data, "turn")? })
    } else if same(kind, "turn/end") {
        let turn = field_i64(data, "turn")?;
        match data.get("reason") {
            None => Err(fail("turn/end missing `reason`")),
            Some(r) => {
                let reason = parse_turn_end_reason(r)?;
                Ok(EventData::TurnEnd { turn, reason })
            },
        }
    } else if same(kind, "step/start") {
        let turn = field_i64(data, "turn")?;
        let step = field_i64(data, "step")?;
        Ok(EventData::StepStart { turn, step })
    } else if same(kind, "step/end") {
        let turn = field_i64(data, "turn")?;
        let step = field_i64(data, "step")?;
        Ok(EventData::StepEnd { turn, step })
    } else if same(kind, "user/message") {
        let (id, content, source) = parse_message(data, "struct UserMessage")?;
        Ok(EventData::UserMessage(UserMessage { id, content, source }))
    } else if same(kind, "assistant/chunk") {
        let turn = field_i64(data, "turn")?;
        let step = field_i64(data, "step")?;
        let chunk = parse_stream_chunk(field_ref(data, "chunk")?)?;
        Ok(EventData::AssistantChunk { turn, step, chunk })
    } else if same(kind, "assistant/message") {
        let turn = field_i64(data, "turn")?;
        let step = field_i64(data, "step")?;
        let m = field_ref(data, "message")?;
        let (id, content, source) = parse_message(m, "struct AssistantMessage")?;
        let usage = match opt_field(data, "usage") {
            Some(u) => Some(parse_usage(u, false)?),
            None => None,
        };
        Ok(
            EventData::AssistantMessage {
                turn,
                step,
                message: AssistantMessage { id, content, source },
                usage,
            },
        )
    } else if same(kind, "tool/call") {
        let turn = field_i64(data, "turn")?;
        let step = field_i64(data, "step")?;
        let call_id = parse_call_id(data, "callId")?;
        let name = field_str(data, "name")?;
        let arguments = field_str(data, "arguments")?;
        Ok(EventData::ToolCall { turn, step, call_id, name, arguments })
    } else if same(kind, "tool/result") {
        let turn = field_i64(data, "turn")?;
        let step = field_i64(data, "step")?;
        let m = field_ref(data, "message")?;
        let (id, content, source) = parse_message(m, "struct ToolResultMessage")?;
        let error = parse_tool_error(data, "error")?;
        let meta = match opt_field(data, "meta") {
            Some(v) => Some(v.duplicate()),
            None => None,
        };
        Ok(
            EventData::ToolResult {
                turn,
                step,
                message: ToolResultMessage { id, content, source },
                error,
                meta,
            },
        )
    } else if same(kind, "todo/write") {
        Ok(EventData::TodoWrite { todos: parse_todos(data, "todos")? })
    } else if same(kind, "request/header") {
        Ok(EventData::RequestHeader { header: field_value(data, "header")? })
    } else if same(kind, "request/context") {
        let provider = field_str(data, "provider")?;
        let model = field_str(data, "model")?;
        let context_window = opt_i64(data, "contextWindow")?;
        Ok(EventData::RequestContext { provider, model, context_window })
    } else if same(kind, "session/end-seed") {
        Ok(EventData::EndSeed)
    } else {
        Ok(EventData::Unknown { ignorable })
    }
}

impl UserMessage {
    /// Who wrote the message (`user`, `plugin`, `model`, `tool`, ...).
    pub fn source_kind(&self) -> (r: Option<&str>)
        ensures
            crate::text::opt_view(r) == self@.source.get_str("kind"@),
    {
        self.source.get_str("kind")
    }

    /// The plugin that wrote the message.
    pub fn source_plugin(&self) -> (r: Option<&str>)
        ensures
            crate::text::opt_view(r) == self@.source.get_str("plugin"@),
    {
        self.source.get_str("plugin")
    }
}

impl ToolResultMessageView {
    /// The first block, where it is a tool result.
    pub open spec fn result_block(self) -> Option<ContentBlockView> {
        if self.content.len() > 0 && self.content[0] is ToolResult {
            Some(self.content[0])
        } else {
            None
        }
    }

    /// Whether the result is flagged as an error.
    pub open spec fn is_error(self) -> bool {
        self.result_block() matches Some(b) && b->ToolResult_is_error == Some(true)
    }
}

impl ToolResultMessage {
    /// The first block, where it is a tool result.
    pub fn tool_result_block(&self) -> (r: Option<&ContentBlock>)
        ensures
            crate::text::opt_view(r) == self@.result_block(),
    {
        if self.content.len() == 0 {
            return None;
        }
        let block = &self.content[0];
        match block {
            ContentBlock::ToolResult { .. } => Some(block),
            _ => None,
        }
    }

    /// Whether the result is flagged as an error.
    pub fn is_error(&self) -> (r: bool)
        ensures
            r == self@.is_error(),
    {
        match self.tool_result_block() {
            Some(block) => match block {
                ContentBlock::ToolResult { is_error, .. } => match is_error {
                    Some(flag) => *flag,
                    None => false,
                },
                _ => false,
            },
            None => false,
        }
    }

    /// The call that the result belongs to.
    pub fn source_call_id(&self) -> (r: Option<&str>)
        ensures
            crate::text::opt_view(r) == self@.source.get_str("callId"@),
    {
        self.source.get_str("callId")
    }
}

} // verus!
