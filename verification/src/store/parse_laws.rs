//! What is read out of the payload of an event is what stands in it.

use vstd::prelude::*;

use crate::json::JsonView;
use crate::store::event_data::{
    ContentBlockView, EventDataView, StreamChunkView, TokenUsage, TurnEndReasonView,
};

verus! {

proof fn lemma_lookup(members: Seq<(Seq<char>, JsonView)>, key: Seq<char>)
    ensures
        match crate::json::find_member(members, key) {
            Some(v) => exists|i: int|
                {
                    &&& 0 <= i < members.len()
                    &&& (#[trigger] members[i]).0 == key
                    &&& members[i].1 == v
                    &&& forall|j: int| 0 <= j < i ==> (#[trigger] members[j]).0 != key
                },
            None => forall|j: int| 0 <= j < members.len() ==> (#[trigger] members[j]).0 != key,
        },
    decreases members.len(),
{
    if members.len() > 0 && members[0].0 != key {
        let rest = members.drop_first();
        lemma_lookup(rest, key);
        match crate::json::find_member(members, key) {
            Some(v) => {
                let i = choose|i: int|
                    {
                        &&& 0 <= i < rest.len()
                        &&& (#[trigger] rest[i]).0 == key
                        &&& rest[i].1 == v
                        &&& forall|j: int| 0 <= j < i ==> (#[trigger] rest[j]).0 != key
                    };
                assert(members[i + 1].0 == key);
                assert forall|j: int| 0 <= j < i + 1 implies (#[trigger] members[j]).0 != key by {
                    if j > 0 {
                        assert(rest[j - 1] == members[j]);
                    }
                }
            },
            None => {
                assert forall|j: int| 0 <= j < members.len() implies (#[trigger] members[j]).0
                    != key by {
                    if j > 0 {
                        assert(rest[j - 1] == members[j]);
                    }
                }
            },
        }
    }
}

/// The member of an object is the value of the first pair with its name, and there is none only
/// where no pair has the name; a value that is no object has no member.
pub proof fn law_member(v: JsonView, key: Seq<char>)
    ensures
        match v {
            JsonView::Object(members) => match v.get(key) {
                Some(x) => exists|i: int|
                    {
                        &&& 0 <= i < members.len()
                        &&& (#[trigger] members[i]).0 == key
                        &&& members[i].1 == x
                        &&& forall|j: int| 0 <= j < i ==> (#[trigger] members[j]).0 != key
                    },
                None => forall|j: int| 0 <= j < members.len() ==> (#[trigger] members[j]).0 != key,
            },
            _ => v.get(key) is None,
        },
        v.get_str(key) matches Some(s) ==> v.get(key) == Some(JsonView::Str(s)),
        v.get(key) matches Some(JsonView::Str(s)) ==> v.get_str(key) == Some(s),
        v.get_i64(key) matches Some(n) ==> v.get(key) == Some(JsonView::Int(n)),
        v.get(key) matches Some(JsonView::Int(n)) ==> v.get_i64(key) == Some(n),
{
    if v is Object {
        lemma_lookup(v->Object_0, key);
    }
}

/// A content block is of the kind that its tag names and holds what its members say; a block
/// with a tag that is not known is kept as it is.
pub proof fn law_block_read(v: JsonView, block: ContentBlockView)
    requires
        crate::store::event_data::content_block(v) == Ok::<ContentBlockView, Seq<char>>(block),
    ensures
        match block {
            ContentBlockView::Text { text } => v.get_str("type"@) == Some("text"@) && v.get_str(
                "text"@,
            ) == Some(text),
            ContentBlockView::Reasoning { text } => v.get_str("type"@) == Some("reasoning"@)
                && v.get_str("text"@) == Some(text),
            ContentBlockView::ToolCall { id, name, arguments } => {
                &&& v.get_str("type"@) == Some("tool-call"@)
                &&& v.get_str("id"@) == Some(id)
                &&& v.get_str("name"@) == Some(name)
                &&& v.get_str("arguments"@) == Some(arguments)
            },
            ContentBlockView::ToolResult { tool_call_id, content, is_error } => {
                &&& v.get_str("type"@) == Some("tool-result"@)
                &&& v.get_str("toolCallId"@) == Some(tool_call_id)
                &&& is_error matches Some(flag) ==> v.get("isError"@) == Some(JsonView::Bool(flag))
                &&& is_error is None ==> v.get("isError"@) is None || v.get("isError"@) == Some(
                    JsonView::Null,
                )
                &&& v.get("content"@) matches Some(JsonView::Array(items)) ==>
                    crate::store::event_data::content_blocks(items) == Ok::<
                    Seq<ContentBlockView>,
                    Seq<char>,
                >(content)
            },
            ContentBlockView::Image { attachment } => {
                &&& v.get_str("type"@) == Some("image"@)
                &&& v.get("attachment"@) matches Some(JsonView::Object(members)) ==> {
                    &&& JsonView::Object(members).get_str("attachmentId"@) == Some(
                        attachment.attachment_id,
                    )
                    &&& JsonView::Object(members).get_str("name"@) == attachment.name
                }
            },
            ContentBlockView::Raw(kept) => kept == v,
        },
{
    reveal_strlit("");
    reveal_strlit("text");
    reveal_strlit("reasoning");
    reveal_strlit("image");
    reveal_strlit("tool-call");
    reveal_strlit("tool-result");
    assert(""@.len() == 0 && "text"@.len() == 4 && "image"@.len() == 5 && "reasoning"@.len() == 9
        && "tool-call"@.len() == 9 && "tool-result"@.len() == 11);
    assert("reasoning"@[0] == 'r' && "tool-call"@[0] == 't');
    if block is Image {
        let a = v.get("attachment"@)->0;
        if a is Object {
            let slots = crate::store::event_data::image_slots(a);
            reveal_strlit("attachmentId");
            reveal_strlit("name");
            assert("attachmentId"@.len() == 12 && "name"@.len() == 4);
            crate::store::shape::law_good_shape(
                a,
                "struct ImageAttachmentRef"@,
                slots,
                false,
                0,
            );
        }
    }
}

/// A block whose members are there is read: text and reasoning want their text, a tool call its
/// id, name and arguments.
pub proof fn law_block_accepted(v: JsonView, text: Seq<char>, id: Seq<char>, name: Seq<char>, arguments: Seq<char>)
    ensures
        v.get_str("type"@) == Some("text"@) && v.get_str("text"@) == Some(text)
            ==> crate::store::event_data::content_block(v) == Ok::<ContentBlockView, Seq<char>>(
            ContentBlockView::Text { text },
        ),
        v.get_str("type"@) == Some("reasoning"@) && v.get_str("text"@) == Some(text)
            ==> crate::store::event_data::content_block(v) == Ok::<ContentBlockView, Seq<char>>(
            ContentBlockView::Reasoning { text },
        ),
        v.get_str("type"@) == Some("tool-call"@) && v.get_str("id"@) == Some(id) && v.get_str(
            "name"@,
        ) == Some(name) && v.get_str("arguments"@) == Some(arguments)
            ==> crate::store::event_data::content_block(v) == Ok::<ContentBlockView, Seq<char>>(
            ContentBlockView::ToolCall { id, name, arguments },
        ),
{
    reveal_strlit("text");
    reveal_strlit("reasoning");
    reveal_strlit("image");
    reveal_strlit("tool-call");
    assert("text"@.len() == 4 && "image"@.len() == 5 && "reasoning"@.len() == 9
        && "tool-call"@.len() == 9);
    assert("reasoning"@[0] == 'r' && "tool-call"@[0] == 't');
}

/// Content blocks are read one by one, in their order, and all of them; they are refused where
/// and only where one of them is.
pub proof fn law_blocks_read(items: Seq<JsonView>)
    ensures
        match crate::store::event_data::content_blocks(items) {
            Ok(blocks) => blocks.len() == items.len() && forall|i: int|
                0 <= i < items.len() ==> crate::store::event_data::content_block(
                    #[trigger] items[i],
                ) == Ok::<ContentBlockView, Seq<char>>(blocks[i]),
            Err(_) => exists|i: int|
                0 <= i < items.len() && crate::store::event_data::content_block(
                    #[trigger] items[i],
                ) is Err,
        },
    decreases items.len(),
{
    if items.len() > 0 {
        let rest = items.drop_first();
        law_blocks_read(rest);
        match crate::store::event_data::content_blocks(items) {
            Ok(blocks) => {
                assert forall|i: int| 0 <= i < items.len() implies
                    crate::store::event_data::content_block(#[trigger] items[i]) == Ok::<
                    ContentBlockView,
                    Seq<char>,
                >(blocks[i]) by {
                    if i > 0 {
                        assert(rest[i - 1] == items[i]);
                    }
                }
            },
            Err(_) => {
                if crate::store::event_data::content_block(items[0]) is Ok {
                    let i = choose|i: int|
                        0 <= i < rest.len() && crate::store::event_data::content_block(
                            #[trigger] rest[i],
                        ) is Err;
                    assert(items[i + 1] == rest[i]);
                }
            },
        }
    }
}

proof fn lemma_usage_names(v: JsonView)
    ensures
        crate::store::shape::names_apart(crate::store::event_data::usage_slots(v)),
{
    reveal_strlit("inputTokens");
    reveal_strlit("outputTokens");
    reveal_strlit("cacheReadTokens");
    reveal_strlit("cacheWriteTokens");
    reveal_strlit("reasoningTokens");
    assert("inputTokens"@.len() == 11 && "outputTokens"@.len() == 12 && "cacheReadTokens"@.len()
        == 15 && "cacheWriteTokens"@.len() == 16 && "reasoningTokens"@.len() == 15);
    assert("cacheReadTokens"@[0] == 'c' && "reasoningTokens"@[0] == 'r');
}

/// A token usage counts what its members say, each kind on its own: the input and output counts
/// have to be there, the others are absent where their members are.
pub proof fn law_usage_read(v: JsonView, set_aside: bool, u: TokenUsage)
    requires
        v is Object,
        crate::store::event_data::token_usage(v, set_aside) == Ok::<TokenUsage, Seq<char>>(u),
    ensures
        v.get_i64("inputTokens"@) == Some(u.input_tokens),
        v.get_i64("outputTokens"@) == Some(u.output_tokens),
        v.get_i64("cacheReadTokens"@) == u.cache_read_tokens,
        v.get_i64("cacheWriteTokens"@) == u.cache_write_tokens,
        v.get_i64("reasoningTokens"@) == u.reasoning_tokens,
{
    lemma_usage_names(v);
    let slots = crate::store::event_data::usage_slots(v);
    crate::store::shape::law_good_shape(v, "struct TokenUsage"@, slots, set_aside, 0);
    crate::store::shape::law_good_shape(v, "struct TokenUsage"@, slots, set_aside, 1);
}

/// A message has the id, the blocks and the source that its members say.
pub proof fn law_message_read(
    v: JsonView,
    what: Seq<char>,
    id: Seq<char>,
    content: Seq<ContentBlockView>,
    source: JsonView,
)
    requires
        v is Object,
        crate::store::event_data::message_parts(v, what) == Ok::<
            (Seq<char>, Seq<ContentBlockView>, JsonView),
            Seq<char>,
        >((id, content, source)),
    ensures
        v.get_str("id"@) == Some(id),
        v.get("source"@) == Some(source),
        v.get("content"@) matches Some(JsonView::Array(items))
            && crate::store::event_data::content_blocks(items) == Ok::<
            Seq<ContentBlockView>,
            Seq<char>,
        >(content),
{
    reveal_strlit("id");
    reveal_strlit("content");
    reveal_strlit("source");
    assert("id"@.len() == 2 && "content"@.len() == 7 && "source"@.len() == 6);
    let slots = crate::store::event_data::message_slots(v);
    crate::store::shape::law_good_shape(v, what, slots, false, 0);
    crate::store::shape::law_good_shape(v, what, slots, false, 1);
    crate::store::shape::law_good_shape(v, what, slots, false, 2);
}

/// Whether a kind is one that the client understands.
pub open spec fn is_understood(kind: Seq<char>) -> bool {
    ||| kind == "turn/start"@
    ||| kind == "turn/end"@
    ||| kind == "step/start"@
    ||| kind == "step/end"@
    ||| kind == "user/message"@
    ||| kind == "assistant/chunk"@
    ||| kind == "assistant/message"@
    ||| kind == "tool/call"@
    ||| kind == "tool/result"@
    ||| kind == "todo/write"@
    ||| kind == "request/header"@
    ||| kind == "request/context"@
    ||| kind == "session/end-seed"@
}

/// An event is of the type that its kind names, and its turn, step, call, name, arguments and
/// model are those that the members of its payload say. An event of a kind that is not
/// understood is kept as unknown and may be ignored where it says so.
pub proof fn law_event_read(kind: Seq<char>, data: JsonView, ignorable: bool, ev: EventDataView)
    requires
        crate::store::event_data::event_data(kind, data, ignorable) == Ok::<
            EventDataView,
            Seq<char>,
        >(ev),
    ensures
        match ev {
            EventDataView::TurnStart { turn } => kind == "turn/start"@ && data.get_i64("turn"@)
                == Some(turn),
            EventDataView::TurnEnd { turn, reason } => {
                &&& kind == "turn/end"@
                &&& data.get_i64("turn"@) == Some(turn)
                &&& data.get("reason"@) matches Some(r)
                    && crate::store::event_data::turn_end_reason(r) == Ok::<
                    TurnEndReasonView,
                    Seq<char>,
                >(reason)
            },
            EventDataView::StepStart { turn, step } => kind == "step/start"@ && data.get_i64(
                "turn"@,
            ) == Some(turn) && data.get_i64("step"@) == Some(step),
            EventDataView::StepEnd { turn, step } => kind == "step/end"@ && data.get_i64("turn"@)
                == Some(turn) && data.get_i64("step"@) == Some(step),
            EventDataView::UserMessage(message) => {
                &&& kind == "user/message"@
                &&& data is Object ==> {
                    &&& data.get_str("id"@) == Some(message.id)
                    &&& data.get("source"@) == Some(message.source)
                    &&& data.get("content"@) matches Some(JsonView::Array(items))
                        && crate::store::event_data::content_blocks(items) == Ok::<
                        Seq<ContentBlockView>,
                        Seq<char>,
                    >(message.content)
                }
            },
            EventDataView::AssistantChunk { turn, step, chunk } => {
                &&& kind == "assistant/chunk"@
                &&& data.get_i64("turn"@) == Some(turn)
                &&& data.get_i64("step"@) == Some(step)
                &&& data.get("chunk"@) matches Some(c) && crate::store::event_data::stream_chunk(c)
                    == Ok::<StreamChunkView, Seq<char>>(chunk)
            },
            EventDataView::AssistantMessage { turn, step, message, usage } => {
                &&& kind == "assistant/message"@
                &&& data.get_i64("turn"@) == Some(turn)
                &&& data.get_i64("step"@) == Some(step)
                &&& data.get("message"@) matches Some(JsonView::Object(m)) ==> {
                    let m = JsonView::Object(m);
                    &&& m.get_str("id"@) == Some(message.id)
                    &&& m.get("content"@) matches Some(JsonView::Array(items))
                        && crate::store::event_data::content_blocks(items) == Ok::<
                        Seq<ContentBlockView>,
                        Seq<char>,
                    >(message.content)
                }
                &&& usage is None <==> data.get("usage"@) is None || data.get("usage"@) == Some(
                    JsonView::Null,
                )
                &&& data.get("usage"@) matches Some(JsonView::Object(members)) ==> {
                    let v = JsonView::Object(members);
                    &&& usage matches Some(u)
                    &&& v.get_i64("inputTokens"@) == Some(u.input_tokens)
                    &&& v.get_i64("outputTokens"@) == Some(u.output_tokens)
                    &&& v.get_i64("cacheReadTokens"@) == u.cache_read_tokens
                    &&& v.get_i64("cacheWriteTokens"@) == u.cache_write_tokens
                    &&& v.get_i64("reasoningTokens"@) == u.reasoning_tokens
                }
            },
            EventDataView::ToolCall { turn, step, call_id, name, arguments } => {
                &&& kind == "tool/call"@
                &&& data.get_i64("turn"@) == Some(turn)
                &&& data.get_i64("step"@) == Some(step)
                &&& data.get_str("callId"@) == Some(call_id)
                &&& data.get_str("name"@) == Some(name)
                &&& data.get_str("arguments"@) == Some(arguments)
            },
            EventDataView::ToolResult { turn, step, message, error, meta } => {
                &&& kind == "tool/result"@
                &&& data.get_i64("turn"@) == Some(turn)
                &&& data.get_i64("step"@) == Some(step)
                &&& data.get("message"@) matches Some(JsonView::Object(m)) ==> {
                    let m = JsonView::Object(m);
                    &&& m.get("source"@) == Some(message.source)
                    &&& m.get("content"@) matches Some(JsonView::Array(items))
                        && crate::store::event_data::content_blocks(items) == Ok::<
                        Seq<ContentBlockView>,
                        Seq<char>,
                    >(message.content)
                }
                &&& meta matches Some(m) ==> data.get("meta"@) == Some(m)
                &&& meta is None ==> data.get("meta"@) is None || data.get("meta"@) == Some(
                    JsonView::Null,
                )
                &&& error is None <==> data.get("error"@) is None || data.get("error"@) == Some(
                    JsonView::Null,
                )
            },
            EventDataView::TodoWrite { .. } => kind == "todo/write"@,
            EventDataView::RequestHeader { header } => kind == "request/header"@ && data.get(
                "header"@,
            ) == Some(header),
            EventDataView::RequestContext { provider, model, context_window } => {
                &&& kind == "request/context"@
                &&& data.get_str("provider"@) == Some(provider)
                &&& data.get_str("model"@) == Some(model)
                &&& data.get_i64("contextWindow"@) == context_window
            },
            EventDataView::EndSeed => kind == "session/end-seed"@,
            EventDataView::Unknown { ignorable: i } => !is_understood(kind) && i == ignorable,
        },
{
    match ev {
        EventDataView::UserMessage(message) => {
            if data is Object {
                law_message_read(
                    data,
                    "struct UserMessage"@,
                    message.id,
                    message.content,
                    message.source,
                );
            }
        },
        EventDataView::AssistantMessage { turn, step, message, usage } => {
            match data.get("message"@) {
                Some(JsonView::Object(m)) => {
                    law_message_read(
                        JsonView::Object(m),
                        "struct AssistantMessage"@,
                        message.id,
                        message.content,
                        message.source,
                    );
                },
                _ => {},
            }
            match data.get("usage"@) {
                Some(JsonView::Object(members)) => {
                    law_usage_read(JsonView::Object(members), false, usage->0);
                },
                _ => {},
            }
        },
        EventDataView::ToolResult { turn, step, message, error, meta } => {
            match data.get("message"@) {
                Some(JsonView::Object(m)) => {
                    law_message_read(
                        JsonView::Object(m),
                        "struct ToolResultMessage"@,
                        message.id,
                        message.content,
                        message.source,
                    );
                },
                _ => {},
            }
        },
        _ => {},
    }
}

/// How a turn ended is told by a name or by the `kind` of an object; a failure's message and
/// code are those that its `error` says.
pub proof fn law_turn_end_read(v: JsonView, reason: TurnEndReasonView)
    requires
        crate::store::event_data::turn_end_reason(v) == Ok::<TurnEndReasonView, Seq<char>>(reason),
    ensures
        ({
            let named = |name: Seq<char>|
                v == JsonView::Str(name) || v is Object && v.get_str("kind"@) == Some(name);
            match reason {
                TurnEndReasonView::Completed => named("completed"@),
                TurnEndReasonView::Blocked => named("blocked"@),
                TurnEndReasonView::MaxTokens => named("max-tokens"@),
                TurnEndReasonView::Interrupted => named("interrupted"@),
                TurnEndReasonView::Aborted { .. } => v.get_str("kind"@) == Some("aborted"@),
                TurnEndReasonView::Error { error } => {
                    &&& v.get_str("kind"@) == Some("error"@)
                    &&& v.get("error"@) matches Some(JsonView::Object(members)) ==> {
                        &&& JsonView::Object(members).get_str("message"@) == Some(error.message)
                        &&& JsonView::Object(members).get_str("code"@) == Some(error.code)
                    }
                },
                TurnEndReasonView::Unknown(name) => named(name),
            }
        }),
{
    if reason is Error {
        let f = v.get("error"@)->0;
        if f is Object {
            reveal_strlit("message");
            reveal_strlit("code");
            reveal_strlit("status");
            reveal_strlit("providerRetryAfterMs");
            reveal_strlit("requestId");
            assert("message"@.len() == 7 && "code"@.len() == 4 && "status"@.len() == 6
                && "providerRetryAfterMs"@.len() == 20 && "requestId"@.len() == 9);
            let slots = crate::store::event_data::failure_slots(f);
            crate::store::shape::law_good_shape(f, "struct LlmFailure"@, slots, false, 0);
            crate::store::shape::law_good_shape(f, "struct LlmFailure"@, slots, false, 1);
        }
    }
}

proof fn lemma_delta_names(v: JsonView, key: Seq<char>)
    requires
        key.len() != 5,
    ensures
        crate::store::shape::names_apart(crate::store::event_data::delta_slots(v, key)),
{
    reveal_strlit("index");
    assert("index"@.len() == 5);
}

/// A chunk of a stream is of the kind that its tag names and is for the block that its index
/// says; a delta carries the text of its member.
pub proof fn law_chunk_read(v: JsonView, chunk: StreamChunkView)
    requires
        v is Object,
        crate::store::event_data::stream_chunk(v) == Ok::<StreamChunkView, Seq<char>>(chunk),
    ensures
        match chunk {
            StreamChunkView::BlockStart { index, block_type } => v.get_str("type"@) == Some(
                "block-start"@,
            ) && v.get_i64("index"@) == Some(index) && v.get_str("blockType"@) == Some(block_type),
            StreamChunkView::TextDelta { index, text } => v.get_str("type"@) == Some("text-delta"@)
                && v.get_i64("index"@) == Some(index) && v.get_str("text"@) == Some(text),
            StreamChunkView::ReasoningDelta { index, text } => v.get_str("type"@) == Some(
                "reasoning-delta"@,
            ) && v.get_i64("index"@) == Some(index) && v.get_str("text"@) == Some(text),
            StreamChunkView::ToolCallDelta { index, id, name, arguments_delta } => {
                &&& v.get_str("type"@) == Some("tool-call-delta"@)
                &&& v.get_i64("index"@) == Some(index)
                &&& v.get_str("id"@) == Some(id)
                &&& v.get_str("name"@) == name
                &&& v.get_str("argumentsDelta"@) == Some(arguments_delta)
            },
            StreamChunkView::BlockEnd { index, block } => {
                &&& v.get_str("type"@) == Some("block-end"@)
                &&& v.get_i64("index"@) == Some(index)
                &&& v.get("block"@) matches Some(b) && crate::store::event_data::content_block(b)
                    == Ok::<ContentBlockView, Seq<char>>(block)
            },
            StreamChunkView::Usage { usage } => {
                &&& v.get_str("type"@) == Some("usage"@)
                &&& v.get("usage"@) matches Some(u) && crate::store::event_data::token_usage(u, true)
                    == Ok::<TokenUsage, Seq<char>>(usage)
            },
            StreamChunkView::Finish { .. } => v.get_str("type"@) == Some("finish"@),
        },
{
    reveal_strlit("index");
    reveal_strlit("blockType");
    reveal_strlit("text");
    reveal_strlit("id");
    reveal_strlit("name");
    reveal_strlit("argumentsDelta");
    reveal_strlit("block");
    assert("index"@.len() == 5 && "blockType"@.len() == 9 && "text"@.len() == 4 && "id"@.len() == 2
        && "name"@.len() == 4 && "argumentsDelta"@.len() == 14 && "block"@.len() == 5);
    assert("index"@[0] == 'i' && "block"@[0] == 'b');
    match chunk {
        StreamChunkView::BlockStart { .. } => {
            let slots = crate::store::event_data::delta_slots(v, "blockType"@);
            lemma_delta_names(v, "blockType"@);
            crate::store::shape::law_good_shape(v, ""@, slots, false, 0);
            crate::store::shape::law_good_shape(v, ""@, slots, false, 1);
        },
        StreamChunkView::TextDelta { .. } => {
            let slots = crate::store::event_data::delta_slots(v, "text"@);
            lemma_delta_names(v, "text"@);
            crate::store::shape::law_good_shape(v, ""@, slots, false, 0);
            crate::store::shape::law_good_shape(v, ""@, slots, false, 1);
        },
        StreamChunkView::ReasoningDelta { .. } => {
            let slots = crate::store::event_data::delta_slots(v, "text"@);
            lemma_delta_names(v, "text"@);
            crate::store::shape::law_good_shape(v, ""@, slots, false, 0);
            crate::store::shape::law_good_shape(v, ""@, slots, false, 1);
        },
        StreamChunkView::ToolCallDelta { .. } => {
            let slots = crate::store::event_data::call_delta_slots(v);
            crate::store::shape::law_good_shape(v, ""@, slots, false, 0);
            crate::store::shape::law_good_shape(v, ""@, slots, false, 1);
            crate::store::shape::law_good_shape(v, ""@, slots, false, 3);
        },
        StreamChunkView::BlockEnd { .. } => {
            let slots = crate::store::event_data::block_end_slots(v);
            crate::store::shape::law_good_shape(v, ""@, slots, false, 0);
            crate::store::shape::law_good_shape(v, ""@, slots, false, 1);
        },
        StreamChunkView::Usage { .. } => {
            let slots = crate::store::event_data::usage_chunk_slots(v);
            crate::store::shape::law_good_shape(v, ""@, slots, false, 0);
        },
        StreamChunkView::Finish { .. } => {},
    }
}

} // verus!
