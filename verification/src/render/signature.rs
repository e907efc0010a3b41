//! A cheap fingerprint of what a node shows: a row whose fingerprint changed is rendered again.
//!
//! Of texts only the lengths count. A text of a chat only ever grows, so a text that changed
//! has another length.

use vstd::prelude::*;

use crate::json::json_string;
use crate::store::event_data::{ContentBlock, ContentBlockView};
use crate::store::node::{
    AssistantBlock, AssistantBlockView, ChatNode, ChatNodeKind, ChatNodeView, NodeData,
    NodeDataView,
};
use crate::text::bytes_of;

verus! {

/// Where a fingerprint begins.
pub const FINGERPRINT_START: u64 = 0xcbf29ce484222325;

/// What a fingerprint is multiplied with at every step.
pub const FINGERPRINT_FACTOR: u64 = 0x100000001b3;

/// A fingerprint after one more number.
pub open spec fn mixed(hash: u64, value: u64) -> u64 {
    (hash ^ value).wrapping_mul(FINGERPRINT_FACTOR)
}

/// A fingerprint after one more number.
pub fn hash_u64(hash: &mut u64, value: u64)
    ensures
        *final(hash) == mixed(*old(hash), value),
{
    *hash = (*hash ^ value).wrapping_mul(FINGERPRINT_FACTOR);
}

/// The length of a text in bytes, as a number.
pub open spec fn text_size(s: Seq<char>) -> u64 {
    crate::text::byte_count(s) as u64
}

/// The length of a text that may be missing.
pub open spec fn opt_size(s: Option<Seq<char>>) -> u64 {
    match s {
        Some(s) => text_size(s),
        None => 0,
    }
}

/// A truth value as a number.
pub open spec fn bit(b: bool) -> u64 {
    if b {
        1
    } else {
        0
    }
}

/// A fingerprint after a content block.
pub open spec fn mixed_block(hash: u64, block: ContentBlockView) -> u64
    decreases block, 0nat,
{
    match block {
        ContentBlockView::Text { text } => mixed(hash, text_size(text)),
        ContentBlockView::Reasoning { text } => mixed(hash, text_size(text)),
        ContentBlockView::Image { attachment } => mixed(hash, opt_size(attachment.name)),
        ContentBlockView::ToolCall { name, arguments, .. } => mixed(
            mixed(hash, text_size(name)),
            text_size(arguments),
        ),
        ContentBlockView::ToolResult { content, is_error, .. } => mixed_blocks(
            mixed(hash, bit(is_error == Some(true))),
            content,
            content.len(),
        ),
        ContentBlockView::Raw(value) => mixed(hash, text_size(crate::json::json_text(value))),
    }
}

/// A fingerprint after the first `n` of some content blocks.
pub open spec fn mixed_blocks(hash: u64, blocks: Seq<ContentBlockView>, n: nat) -> u64
    decreases blocks, n,
{
    if n == 0 || n > blocks.len() {
        hash
    } else {
        mixed_block(mixed_blocks(hash, blocks, (n - 1) as nat), blocks[n - 1])
    }
}

/// A fingerprint after an assistant block.
pub open spec fn mixed_assistant(hash: u64, block: AssistantBlockView) -> u64 {
    match block {
        AssistantBlockView::Text { text } => mixed(hash, text_size(text)),
        AssistantBlockView::Reasoning { text } => mixed(hash, text_size(text)),
        AssistantBlockView::ToolCall { name, args_raw, .. } => mixed(
            mixed(hash, text_size(name)),
            text_size(args_raw),
        ),
    }
}

/// A fingerprint after some assistant blocks.
pub open spec fn mixed_assistants(hash: u64, blocks: Seq<AssistantBlockView>) -> u64
    decreases blocks.len(),
{
    if blocks.len() == 0 {
        hash
    } else {
        mixed_assistant(mixed_assistants(hash, blocks.drop_last()), blocks.last())
    }
}

/// The number of a node kind.
pub open spec fn kind_number(kind: ChatNodeKind) -> u64 {
    match kind {
        ChatNodeKind::User => 0,
        ChatNodeKind::Assistant => 1,
        ChatNodeKind::Tool => 2,
        ChatNodeKind::Compaction => 3,
        ChatNodeKind::TurnError => 4,
        ChatNodeKind::TurnMaxTokens => 5,
        ChatNodeKind::Unknown => 6,
    }
}

/// A fingerprint after a node's data.
pub open spec fn mixed_data(hash: u64, data: NodeDataView) -> u64 {
    match data {
        NodeDataView::User { content, .. } => mixed_blocks(hash, content, content.len()),
        NodeDataView::Assistant { blocks, finalized, interrupted, .. } => mixed_assistants(
            mixed(mixed(hash, bit(finalized)), bit(interrupted)),
            blocks,
        ),
        NodeDataView::Tool { call, result, .. } => {
            let called = match call {
                Some(call) => mixed(mixed(hash, text_size(call.name)), text_size(call.args_raw)),
                None => hash,
            };
            match result {
                Some(result) => {
                    let flagged = mixed(called, bit(result.is_error));
                    let coded = match result.error {
                        Some(error) => mixed(flagged, text_size(error.code)),
                        None => flagged,
                    };
                    mixed_blocks(coded, result.content, result.content.len())
                },
                None => called,
            }
        },
        NodeDataView::Compaction { summary, shadowed_item_count, shadowed_token_count, .. } => mixed(
            mixed(
                mixed(hash, opt_size(summary)),
                match shadowed_item_count {
                    Some(n) => n as u64,
                    None => 0,
                },
            ),
            match shadowed_token_count {
                Some(n) => n as u64,
                None => 0,
            },
        ),
        NodeDataView::TurnError { message, code, .. } => mixed(
            mixed(hash, text_size(message)),
            opt_size(code),
        ),
        NodeDataView::TurnMaxTokens { .. } => hash,
        NodeDataView::Unknown { event_type, data } => mixed(
            mixed(hash, text_size(event_type)),
            text_size(crate::json::json_text(data)),
        ),
    }
}

/// The fingerprint of a node.
pub open spec fn signature(node: ChatNodeView, collapsed: bool) -> u64 {
    mixed_data(
        mixed(
            mixed(
                mixed(FINGERPRINT_START, kind_number(node.kind)),
                node.anchor_seq as u64,
            ),
            bit(collapsed),
        ),
        node.data,
    )
}

fn size_of_text(s: &str) -> (r: u64)
    ensures
        r == text_size(s@),
{
    bytes_of(s) as u64
}

fn size_of_opt(s: &Option<String>) -> (r: u64)
    ensures
        r == opt_size(crate::text::opt_view(*s)),
{
    match s {
        Some(s) => size_of_text(s.as_str()),
        None => 0,
    }
}

fn number_of(b: bool) -> (r: u64)
    ensures
        r == bit(b),
{
    if b {
        1
    } else {
        0
    }
}

/// A fingerprint after a content block.
pub fn hash_content_block(hash: &mut u64, block: &ContentBlock)
    ensures
        *final(hash) == mixed_block(*old(hash), block@),
    decreases block,
{
    match block {
        ContentBlock::Text { text } => hash_u64(hash, size_of_text(text.as_str())),
        ContentBlock::Reasoning { text } => hash_u64(hash, size_of_text(text.as_str())),
        ContentBlock::Image { attachment } => hash_u64(hash, size_of_opt(&attachment.name)),
        ContentBlock::ToolCall { name, arguments, .. } => {
            hash_u64(hash, size_of_text(name.as_str()));
            hash_u64(hash, size_of_text(arguments.as_str()));
        },
        ContentBlock::ToolResult { content, is_error, .. } => {
            let failed = match is_error {
                Some(true) => true,
                _ => false,
            };
            hash_u64(hash, number_of(failed));
            let ghost start = *hash;
            let ghost all = block@->ToolResult_content;
            let mut i: usize = 0;
            while i < content.len()
                invariant
                    i <= content.len(),
                    block matches ContentBlock::ToolResult { content: c, .. } && c == content,
                    all == block@->ToolResult_content,
                    all.len() == content@.len(),
                    *hash == mixed_blocks(start, all, i as nat),
                decreases content.len() - i,
            {
                proof {
                    assert(decreases_to!(*block => block->ToolResult_content@[i as int]));
                    assert(all[i as int] == content@[i as int]@);
                }
                hash_content_block(hash, &content[i]);
                i = i + 1;
            }
        },
        ContentBlock::Raw(value) => hash_u64(hash, size_of_text(json_string(value).as_str())),
    }
}

fn hash_content(hash: &mut u64, content: &Vec<ContentBlock>)
    ensures
        *final(hash) == mixed_blocks(
            *old(hash),
            crate::text::views(content@),
            content@.len(),
        ),
{
    let ghost start = *hash;
    let ghost all = crate::text::views(content@);
    let mut i: usize = 0;
    while i < content.len()
        invariant
            i <= content.len(),
            all == crate::text::views(content@),
            *hash == mixed_blocks(start, all, i as nat),
        decreases content.len() - i,
    {
        proof {
            assert(all[i as int] == content@[i as int]@);
        }
        hash_content_block(hash, &content[i]);
        i = i + 1;
    }
}

fn hash_assistant(hash: &mut u64, blocks: &Vec<AssistantBlock>)
    ensures
        *final(hash) == mixed_assistants(*old(hash), crate::text::views(blocks@)),
{
    let ghost start = *hash;
    let ghost all = crate::text::views(blocks@);
    proof {
        assert(all.take(0) =~= Seq::empty());
    }
    let mut i: usize = 0;
    while i < blocks.len()
        invariant
            i <= blocks.len(),
            all == crate::text::views(blocks@),
            *hash == mixed_assistants(start, all.take(i as int)),
        decreases blocks.len() - i,
    {
        proof {
            assert(all.take(i + 1).drop_last() =~= all.take(i as int));
            assert(all.take(i + 1).last() == blocks@[i as int]@);
        }
        match &blocks[i] {
            AssistantBlock::Text { text } => hash_u64(hash, size_of_text(text.as_str())),
            AssistantBlock::Reasoning { text } => hash_u64(hash, size_of_text(text.as_str())),
            AssistantBlock::ToolCall { name, args_raw, .. } => {
                hash_u64(hash, size_of_text(name.as_str()));
                hash_u64(hash, size_of_text(args_raw.as_str()));
            },
        }
        i = i + 1;
    }
    proof {
        assert(all.take(i as int) =~= all);
    }
}

fn hash_data(hash: &mut u64, data: &NodeData)
    ensures
        *final(hash) == mixed_data(*old(hash), data@),
{
    match data {
        NodeData::User { content, .. } => hash_content(hash, content),
        NodeData::Assistant { blocks, finalized, interrupted, .. } => {
            hash_u64(hash, number_of(*finalized));
            hash_u64(hash, number_of(*interrupted));
            hash_assistant(hash, blocks);
        },
        NodeData::Tool { call, result, .. } => {
            match call {
                Some(call) => {
                    hash_u64(hash, size_of_text(call.name.as_str()));
                    hash_u64(hash, size_of_text(call.args_raw.as_str()));
                },
                None => {},
            }
            match result {
                Some(result) => {
                    hash_u64(hash, number_of(result.is_error));
                    match &result.error {
                        Some(error) => hash_u64(hash, size_of_text(error.code.as_str())),
                        None => {},
                    }
                    hash_content(hash, &result.content);
                },
                None => {},
            }
        },
        NodeData::Compaction { summary, shadowed_item_count, shadowed_token_count, .. } => {
            hash_u64(hash, size_of_opt(summary));
            hash_u64(
                hash,
                match shadowed_item_count {
                    Some(n) => *n as u64,
                    None => 0,
                },
            );
            hash_u64(
                hash,
                match shadowed_token_count {
                    Some(n) => *n as u64,
                    None => 0,
                },
            );
        },
        NodeData::TurnError { message, code, .. } => {
            hash_u64(hash, size_of_text(message.as_str()));
            hash_u64(hash, size_of_opt(code));
        },
        NodeData::TurnMaxTokens { .. } => {},
        NodeData::Unknown { event_type, data } => {
            hash_u64(hash, size_of_text(event_type.as_str()));
            hash_u64(hash, size_of_text(json_string(data).as_str()));
        },
    }
}

/// The fingerprint of a node: of its kind, place, fold and flags, and of the lengths of its
/// texts.
pub fn rendered_signature(node: &ChatNode, collapsed: bool) -> (r: u64)
    ensures
        r == signature(node@, collapsed),
{
    let mut hash: u64 = FINGERPRINT_START;
    let kind: u64 = match node.kind {
        ChatNodeKind::User => 0,
        ChatNodeKind::Assistant => 1,
        ChatNodeKind::Tool => 2,
        ChatNodeKind::Compaction => 3,
        ChatNodeKind::TurnError => 4,
        ChatNodeKind::TurnMaxTokens => 5,
        ChatNodeKind::Unknown => 6,
    };
    hash_u64(&mut hash, kind);
    hash_u64(&mut hash, node.anchor_seq as u64);
    hash_u64(&mut hash, number_of(collapsed));
    hash_data(&mut hash, &node.data);
    hash
}

proof fn lemma_factor(x: u64, y: u64)
    requires
        x.wrapping_mul(FINGERPRINT_FACTOR) == y.wrapping_mul(FINGERPRINT_FACTOR),
    ensures
        x == y,
{
    let m = 0x1_0000_0000_0000_0000int;
    let p = FINGERPRINT_FACTOR as int;
    let q = 0xce965057aff6957bint;
    assert(p * q % m == 1);
    let e = p * q / m;
    assert(p * q == e * m + 1) by {
        vstd::arithmetic::div_mod::lemma_fundamental_div_mod(p * q, m);
        vstd::arithmetic::mul::lemma_mul_is_commutative(m, e);
    }
    lemma_undone(x as int, p, q, e, m);
    lemma_undone(y as int, p, q, e, m);
}

proof fn lemma_undone(x: int, p: int, q: int, e: int, m: int)
    requires
        m > 0,
        0 <= x < m,
        p * q == e * m + 1,
    ensures
        (((x * p) % m) * q) % m == x,
{
    let a = x * p;
    vstd::arithmetic::div_mod::lemma_mul_mod_noop_left(a, q, m);
    assert(a * q == (x * e) * m + x) by (nonlinear_arith)
        requires
            a == x * p,
            p * q == e * m + 1,
    ;
    vstd::arithmetic::div_mod::lemma_mod_multiples_vanish(x * e, x, m);
    vstd::arithmetic::mul::lemma_mul_is_commutative(m, x * e);
    vstd::arithmetic::div_mod::lemma_small_mod(x as nat, m as nat);
}

/// Two fingerprints that differ still differ after the same number, and one fingerprint
/// differs after two numbers that differ.
pub proof fn law_fingerprint_tells_apart(a: u64, b: u64, v: u64, w: u64)
    ensures
        a != b ==> mixed(a, v) != mixed(b, v),
        v != w ==> mixed(a, v) != mixed(a, w),
{
    if mixed(a, v) == mixed(b, v) {
        lemma_factor(a ^ v, b ^ v);
        assert(a ^ v == b ^ v ==> a == b) by (bit_vector);
    }
    if mixed(a, v) == mixed(a, w) {
        lemma_factor(a ^ v, a ^ w);
        assert(a ^ v == a ^ w ==> v == w) by (bit_vector);
    }
}

proof fn lemma_assistants_apart(a: u64, b: u64, blocks: Seq<AssistantBlockView>)
    requires
        a != b,
    ensures
        mixed_assistants(a, blocks) != mixed_assistants(b, blocks),
    decreases blocks.len(),
{
    if blocks.len() > 0 {
        let front = blocks.drop_last();
        lemma_assistants_apart(a, b, front);
        let x = mixed_assistants(a, front);
        let y = mixed_assistants(b, front);
        match blocks.last() {
            AssistantBlockView::Text { text } => {
                law_fingerprint_tells_apart(x, y, text_size(text), 0);
            },
            AssistantBlockView::Reasoning { text } => {
                law_fingerprint_tells_apart(x, y, text_size(text), 0);
            },
            AssistantBlockView::ToolCall { name, args_raw, .. } => {
                law_fingerprint_tells_apart(x, y, text_size(name), 0);
                law_fingerprint_tells_apart(
                    mixed(x, text_size(name)),
                    mixed(y, text_size(name)),
                    text_size(args_raw),
                    0,
                );
            },
        }
    }
}

proof fn lemma_assistants_add(
    hash: u64,
    a: Seq<AssistantBlockView>,
    b: Seq<AssistantBlockView>,
)
    ensures
        mixed_assistants(hash, a + b) == mixed_assistants(mixed_assistants(hash, a), b),
    decreases b.len(),
{
    if b.len() == 0 {
        assert(a + b =~= a);
    } else {
        lemma_assistants_add(hash, a, b.drop_last());
        assert((a + b).drop_last() =~= a + b.drop_last());
    }
}

/// A text that grew is seen: where one text of an assistant message has another length and the
/// rest is the same, the fingerprint is another.
pub proof fn law_grown_text_is_seen(
    hash: u64,
    front: Seq<AssistantBlockView>,
    before: Seq<char>,
    after: Seq<char>,
    rest: Seq<AssistantBlockView>,
)
    requires
        text_size(before) != text_size(after),
    ensures
        mixed_assistants(
            hash,
            front + seq![AssistantBlockView::Text { text: before }] + rest,
        ) != mixed_assistants(
            hash,
            front + seq![AssistantBlockView::Text { text: after }] + rest,
        ),
{
    let a = front + seq![AssistantBlockView::Text { text: before }];
    let b = front + seq![AssistantBlockView::Text { text: after }];
    lemma_assistants_add(hash, a, rest);
    lemma_assistants_add(hash, b, rest);
    assert(a.drop_last() =~= front);
    assert(b.drop_last() =~= front);
    law_fingerprint_tells_apart(
        mixed_assistants(hash, front),
        0,
        text_size(before),
        text_size(after),
    );
    lemma_assistants_apart(mixed_assistants(hash, a), mixed_assistants(hash, b), rest);
}

} // verus!
