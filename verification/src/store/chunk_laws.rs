//! What holds of streamed chunks: deltas concatenate, stray chunks change nothing.

use vstd::prelude::*;

use crate::store::event_data::{EventDataView, StreamChunkView};
use crate::store::fold::{AssistantFoldView, FoldView, MAX_ASSISTANT_BLOCKS};
use crate::store::node::{AssistantBlockView, ChatNodeKind, ChatNodeView, NodeDataView};
use crate::store::stored::StoredEventView;

verus! {

/// The deltas, one behind the other.
pub open spec fn concatenated(deltas: Seq<Seq<char>>) -> Seq<char>
    decreases deltas.len(),
{
    if deltas.len() == 0 {
        Seq::empty()
    } else {
        concatenated(deltas.drop_last()) + deltas.last()
    }
}

/// An open step after a run of chunks.
pub open spec fn after_chunks(a: AssistantFoldView, chunks: Seq<StreamChunkView>) -> AssistantFoldView
    decreases chunks.len(),
{
    if chunks.len() == 0 {
        a
    } else {
        crate::store::fold::after_chunk(after_chunks(a, chunks.drop_last()), chunks.last())
    }
}

/// The text deltas of one block.
pub open spec fn text_deltas(index: i64, deltas: Seq<Seq<char>>) -> Seq<StreamChunkView> {
    deltas.map_values(|text: Seq<char>| StreamChunkView::TextDelta { index, text })
}

/// The reasoning deltas of one block.
pub open spec fn reasoning_deltas(index: i64, deltas: Seq<Seq<char>>) -> Seq<StreamChunkView> {
    deltas.map_values(|text: Seq<char>| StreamChunkView::ReasoningDelta { index, text })
}

/// The argument deltas of one tool call.
pub open spec fn argument_deltas(index: i64, id: Seq<char>, deltas: Seq<Seq<char>>) -> Seq<
    StreamChunkView,
> {
    deltas.map_values(
        |arguments_delta: Seq<char>|
            StreamChunkView::ToolCallDelta { index, id, name: None, arguments_delta },
    )
}

/// The block that a chunk is for.
pub open spec fn chunk_index(chunk: StreamChunkView) -> Option<i64> {
    match chunk {
        StreamChunkView::BlockStart { index, .. } => Some(index),
        StreamChunkView::TextDelta { index, .. } => Some(index),
        StreamChunkView::ReasoningDelta { index, .. } => Some(index),
        StreamChunkView::ToolCallDelta { index, .. } => Some(index),
        StreamChunkView::BlockEnd { index, .. } => Some(index),
        StreamChunkView::Usage { .. } => None,
        StreamChunkView::Finish { .. } => None,
    }
}

/// A chunk whose block index is negative or not below [`MAX_ASSISTANT_BLOCKS`] leaves the
/// step as it was.
pub proof fn law_stray_chunk(a: AssistantFoldView, chunk: StreamChunkView)
    requires
        chunk_index(chunk) matches Some(index) && !(0 <= index < MAX_ASSISTANT_BLOCKS),
    ensures
        crate::store::fold::after_chunk(a, chunk) == a,
{
}

/// A chunk changes no block but the one that it is for.
pub proof fn law_other_blocks_stay(a: AssistantFoldView, chunk: StreamChunkView, j: int)
    requires
        chunk_index(chunk) != Some(j as i64),
        i64::MIN <= j <= i64::MAX,
    ensures
        crate::store::fold::slot(crate::store::fold::after_chunk(a, chunk).blocks, j)
            == crate::store::fold::slot(a.blocks, j),
{
}

/// A step has at most [`MAX_ASSISTANT_BLOCKS`] blocks, whatever is streamed into it.
pub proof fn law_blocks_bounded(a: AssistantFoldView, chunks: Seq<StreamChunkView>)
    requires
        a.blocks.len() <= MAX_ASSISTANT_BLOCKS,
    ensures
        after_chunks(a, chunks).blocks.len() <= MAX_ASSISTANT_BLOCKS,
    decreases chunks.len(),
{
    if chunks.len() > 0 {
        law_blocks_bounded(a, chunks.drop_last());
    }
}

/// The text deltas of one block concatenate: the block holds what it held, then every delta
/// in order. Where it held no text it starts with the first delta.
pub proof fn law_text_concatenates(a: AssistantFoldView, index: i64, deltas: Seq<Seq<char>>)
    requires
        0 <= index < MAX_ASSISTANT_BLOCKS,
        deltas.len() > 0,
    ensures
        crate::store::fold::slot(
            after_chunks(a, text_deltas(index, deltas)).blocks,
            index as int,
        ) == Some(
            crate::store::fold::text_after(
                crate::store::fold::slot(a.blocks, index as int),
                concatenated(deltas),
            ),
        ),
    decreases deltas.len(),
{
    let rest = deltas.drop_last();
    let chunks = text_deltas(index, deltas);
    assert(chunks.drop_last() =~= text_deltas(index, rest));
    if rest.len() > 0 {
        law_text_concatenates(a, index, rest);
        match crate::store::fold::slot(a.blocks, index as int) {
            Some(AssistantBlockView::Text { text }) => {
                assert(text + concatenated(rest) + deltas.last() =~= text + concatenated(deltas));
            },
            _ => {},
        }
    } else {
        assert(text_deltas(index, rest) =~= Seq::empty());
        assert(concatenated(deltas) =~= deltas.last());
    }
}

/// The reasoning deltas of one block concatenate.
pub proof fn law_reasoning_concatenates(a: AssistantFoldView, index: i64, deltas: Seq<Seq<char>>)
    requires
        0 <= index < MAX_ASSISTANT_BLOCKS,
        deltas.len() > 0,
    ensures
        crate::store::fold::slot(
            after_chunks(a, reasoning_deltas(index, deltas)).blocks,
            index as int,
        ) == Some(
            crate::store::fold::reasoning_after(
                crate::store::fold::slot(a.blocks, index as int),
                concatenated(deltas),
            ),
        ),
    decreases deltas.len(),
{
    let rest = deltas.drop_last();
    let chunks = reasoning_deltas(index, deltas);
    assert(chunks.drop_last() =~= reasoning_deltas(index, rest));
    if rest.len() > 0 {
        law_reasoning_concatenates(a, index, rest);
        match crate::store::fold::slot(a.blocks, index as int) {
            Some(AssistantBlockView::Reasoning { text }) => {
                assert(text + concatenated(rest) + deltas.last() =~= text + concatenated(deltas));
            },
            _ => {},
        }
    } else {
        assert(reasoning_deltas(index, rest) =~= Seq::empty());
        assert(concatenated(deltas) =~= deltas.last());
    }
}

/// The argument deltas of one tool call concatenate.
pub proof fn law_arguments_concatenate(
    a: AssistantFoldView,
    index: i64,
    id: Seq<char>,
    deltas: Seq<Seq<char>>,
)
    requires
        0 <= index < MAX_ASSISTANT_BLOCKS,
        deltas.len() > 0,
    ensures
        crate::store::fold::slot(
            after_chunks(a, argument_deltas(index, id, deltas)).blocks,
            index as int,
        ) == Some(
            crate::store::fold::call_after(
                crate::store::fold::slot(a.blocks, index as int),
                id,
                None,
                concatenated(deltas),
            ),
        ),
    decreases deltas.len(),
{
    let rest = deltas.drop_last();
    let chunks = argument_deltas(index, id, deltas);
    assert(chunks.drop_last() =~= argument_deltas(index, id, rest));
    if rest.len() > 0 {
        law_arguments_concatenate(a, index, id, rest);
        match crate::store::fold::slot(a.blocks, index as int) {
            Some(AssistantBlockView::ToolCall { args_raw, .. }) => {
                assert(args_raw + concatenated(rest) + deltas.last() =~= args_raw + concatenated(
                    deltas,
                ));
            },
            _ => {},
        }
    } else {
        assert(argument_deltas(index, id, rest) =~= Seq::empty());
        assert(concatenated(deltas) =~= deltas.last());
    }
}

/// The blocks of a node are those that have arrived, in the order of their indices: the holes
/// are left out and nothing else.
pub proof fn law_arrived_in_order(blocks: Seq<Option<AssistantBlockView>>)
    ensures
        crate::store::fold::arrived(blocks) == blocks.filter(
            |b: Option<AssistantBlockView>| b is Some,
        ).map_values(|b: Option<AssistantBlockView>| b->0),
    decreases blocks.len(),
{
    let there = |b: Option<AssistantBlockView>| b is Some;
    let held = |b: Option<AssistantBlockView>| b->0;
    reveal(Seq::filter);
    if blocks.len() > 0 {
        law_arrived_in_order(blocks.drop_last());
        let rest = blocks.drop_last().filter(there);
        assert(crate::store::fold::arrived(blocks) =~= blocks.filter(there).map_values(held));
    } else {
        assert(crate::store::fold::arrived(blocks) =~= blocks.filter(there).map_values(held));
    }
}

/// The text deltas for one block, in the order of their chunks.
pub open spec fn texts_for(chunks: Seq<StreamChunkView>, index: i64) -> Seq<Seq<char>>
    decreases chunks.len(),
{
    if chunks.len() == 0 {
        Seq::empty()
    } else {
        let rest = texts_for(chunks.drop_last(), index);
        match chunks.last() {
            StreamChunkView::TextDelta { index: at, text } => if at == index {
                rest.push(text)
            } else {
                rest
            },
            _ => rest,
        }
    }
}

/// Whether a block is streamed as text and nothing else.
pub open spec fn only_text(chunks: Seq<StreamChunkView>, index: i64) -> bool {
    forall|k: int|
        0 <= k < chunks.len() && chunk_index(#[trigger] chunks[k]) == Some(index) ==> chunks[k]
            is TextDelta
}

/// A block into which only text is streamed holds all of it, in order, whatever the chunks
/// between are for.
pub proof fn law_block_holds_its_text(
    a: AssistantFoldView,
    chunks: Seq<StreamChunkView>,
    index: i64,
)
    requires
        0 <= index < MAX_ASSISTANT_BLOCKS,
        crate::store::fold::slot(a.blocks, index as int) is None,
        only_text(chunks, index),
    ensures
        crate::store::fold::slot(after_chunks(a, chunks).blocks, index as int) == (if texts_for(
            chunks,
            index,
        ).len() == 0 {
            None
        } else {
            Some(AssistantBlockView::Text { text: concatenated(texts_for(chunks, index)) })
        }),
    decreases chunks.len(),
{
    if chunks.len() > 0 {
        let rest = chunks.drop_last();
        let last = chunks.last();
        assert forall|k: int|
            0 <= k < rest.len() && chunk_index(#[trigger] rest[k]) == Some(index) implies rest[k]
            is TextDelta by {
            assert(rest[k] == chunks[k]);
        }
        assert(chunks[chunks.len() - 1] == last);
        law_block_holds_its_text(a, rest, index);
        let before = after_chunks(a, rest);
        let held = texts_for(rest, index);
        if chunk_index(last) == Some(index) {
            let all = texts_for(chunks, index);
            assert(all.drop_last() =~= held);
            if held.len() == 0 {
                assert(concatenated(held) =~= Seq::empty());
                assert(concatenated(all) =~= all.last());
            }
        } else {
            law_other_blocks_stay(before, last, index as int);
        }
    }
}

/// Whether a chunk is for a block that a step cannot have.
pub open spec fn stray(chunk: StreamChunkView) -> bool {
    chunk_index(chunk) matches Some(index) && !(0 <= index < MAX_ASSISTANT_BLOCKS)
}

/// Stray chunks leave no trace: a step is as if they had not been sent.
pub proof fn law_stray_chunks_leave_no_trace(a: AssistantFoldView, chunks: Seq<StreamChunkView>)
    ensures
        after_chunks(a, chunks) == after_chunks(
            a,
            chunks.filter(|chunk: StreamChunkView| !stray(chunk)),
        ),
    decreases chunks.len(),
{
    reveal(Seq::filter);
    let fits = |chunk: StreamChunkView| !stray(chunk);
    if chunks.len() > 0 {
        let rest = chunks.drop_last();
        let last = chunks.last();
        law_stray_chunks_leave_no_trace(a, rest);
        if stray(last) {
            law_stray_chunk(after_chunks(a, rest), last);
        } else {
            let kept = chunks.filter(fits);
            assert(kept.drop_last() =~= rest.filter(fits));
        }
    }
}

proof fn lemma_arrived_contains(blocks: Seq<Option<AssistantBlockView>>, i: int)
    requires
        0 <= i < blocks.len(),
        blocks[i] is Some,
    ensures
        crate::store::fold::arrived(blocks).contains(blocks[i]->0),
    decreases blocks.len(),
{
    let rest = blocks.drop_last();
    let before = crate::store::fold::arrived(rest);
    let out = crate::store::fold::arrived(blocks);
    if i < rest.len() {
        lemma_arrived_contains(rest, i);
        let k = choose|k: int| 0 <= k < before.len() && before[k] == rest[i]->0;
        assert(out[k] == before[k]);
    } else {
        assert(out[out.len() - 1] == blocks[i]->0);
    }
}

/// Whether a window is chunks of one step and nothing else.
pub open spec fn streams(
    events: Seq<StoredEventView>,
    turn: i64,
    step: i64,
    chunks: Seq<StreamChunkView>,
) -> bool {
    &&& events.len() == chunks.len()
    &&& forall|i: int|
        0 <= i < events.len() ==> (#[trigger] events[i]).data == (EventDataView::AssistantChunk {
            turn,
            step,
            chunk: chunks[i],
        })
}

/// A fold into which chunks of one step were applied, one after the other, at some seqs.
pub open spec fn chunked(
    seqs: Seq<i64>,
    turn: i64,
    step: i64,
    chunks: Seq<StreamChunkView>,
) -> FoldView
    decreases chunks.len(),
{
    if chunks.len() == 0 {
        crate::store::fold::empty_fold()
    } else {
        crate::store::fold::fold_chunk(
            chunked(seqs.drop_last(), turn, step, chunks.drop_last()),
            seqs.last(),
            turn,
            step,
            chunks.last(),
        )
    }
}

proof fn lemma_chunked(seqs: Seq<i64>, turn: i64, step: i64, chunks: Seq<StreamChunkView>)
    requires
        seqs.len() == chunks.len(),
        chunks.len() > 0,
    ensures
        ({
            let f = chunked(seqs, turn, step, chunks);
            let a = after_chunks(crate::store::fold::opened_step(turn, step, seqs[0]), chunks);
            &&& f.assistants == seq![a]
            &&& a.turn == turn
            &&& a.step == step
            &&& a.anchor_seq == seqs[0]
            &&& f.nodes.len() == 0
            &&& f.tools.len() == 0
        }),
    decreases chunks.len(),
{
    let f = chunked(seqs, turn, step, chunks);
    let front = chunks.drop_last();
    let before = chunked(seqs.drop_last(), turn, step, front);
    let opened = crate::store::fold::opened_step(turn, step, seqs[0]);
    let p = |a: AssistantFoldView| a.turn == turn && a.step == step;
    if chunks.len() > 1 {
        lemma_chunked(seqs.drop_last(), turn, step, front);
        assert(p(before.assistants[0]));
    } else {
        assert(front =~= Seq::empty());
        assert(after_chunks(opened, front) == opened);
    }
    crate::seqs::lemma_first_index(before.assistants, p, 0);
    assert(f.assistants =~= seq![after_chunks(opened, chunks)]);
}

/// The seqs of a window, in order.
pub open spec fn seqs_of(events: Seq<StoredEventView>) -> Seq<i64> {
    events.map_values(|e: StoredEventView| e.event.seq)
}

proof fn lemma_streamed_window(
    events: Seq<StoredEventView>,
    turn: i64,
    step: i64,
    chunks: Seq<StreamChunkView>,
)
    requires
        streams(events, turn, step, chunks),
    ensures
        crate::store::fold::fold_window(events) == chunked(seqs_of(events), turn, step, chunks),
    decreases chunks.len(),
{
    if chunks.len() > 0 {
        let rest = events.drop_last();
        let front = chunks.drop_last();
        assert(events.last() == events[events.len() - 1]);
        assert forall|i: int| 0 <= i < rest.len() implies (#[trigger] rest[i]).data == (
        EventDataView::AssistantChunk { turn, step, chunk: front[i] }) by {
            assert(rest[i] == events[i]);
        }
        lemma_streamed_window(rest, turn, step, front);
        assert(seqs_of(events).drop_last() =~= seqs_of(rest));
    }
}

/// The node of a step that is still running.
pub open spec fn running_node(a: AssistantFoldView) -> ChatNodeView {
    ChatNodeView {
        key: crate::store::fold::assistant_node_key(a.turn, a.step),
        kind: ChatNodeKind::Assistant,
        anchor_seq: a.anchor_seq,
        data: NodeDataView::Assistant {
            turn: a.turn,
            step: a.step,
            blocks: crate::store::fold::arrived(a.blocks),
            usage: a.usage,
            finalized: false,
            interrupted: false,
        },
    }
}

/// What was applied to one step is shown at the end: a fold of chunks of one step that show
/// something has one node, whose blocks are those that have arrived, in the order of their
/// indices.
pub proof fn law_applied_step_is_shown(
    seqs: Seq<i64>,
    turn: i64,
    step: i64,
    chunks: Seq<StreamChunkView>,
)
    requires
        seqs.len() == chunks.len(),
        chunks.len() > 0,
        crate::store::fold::visible(
            crate::store::fold::arrived(
                after_chunks(crate::store::fold::opened_step(turn, step, seqs[0]), chunks).blocks,
            ),
        ),
    ensures
        crate::store::fold::finished(chunked(seqs, turn, step, chunks)) == seq![
            running_node(
                after_chunks(crate::store::fold::opened_step(turn, step, seqs[0]), chunks),
            ),
        ],
{
    let f = chunked(seqs, turn, step, chunks);
    lemma_chunked(seqs, turn, step, chunks);
    let before = f.assistants.drop_last();
    assert(before =~= Seq::empty());
    assert(f.nodes =~= Seq::empty());
    assert(crate::store::fold::running_steps(f.nodes, before) == f.nodes);
    let shown = crate::store::fold::running_steps(f.nodes, f.assistants);
    assert(crate::store::fold::running_calls(shown, f.tools) == shown);
    assert(crate::store::fold::finished(f) =~= seq![running_node(f.assistants[0])]);
}

/// The text of a block is shown as it was applied: where only text is applied to a block, and
/// that text is not blank, the node of the step has a block with the deltas one behind the
/// other.
pub proof fn law_applied_text_is_shown(
    seqs: Seq<i64>,
    turn: i64,
    step: i64,
    chunks: Seq<StreamChunkView>,
    index: i64,
)
    requires
        seqs.len() == chunks.len(),
        0 <= index < MAX_ASSISTANT_BLOCKS,
        only_text(chunks, index),
        crate::text::trim(concatenated(texts_for(chunks, index))).len() > 0,
    ensures
        ({
            let nodes = crate::store::fold::finished(chunked(seqs, turn, step, chunks));
            &&& nodes.len() == 1
            &&& nodes[0].key == crate::store::fold::assistant_node_key(turn, step)
            &&& nodes[0].data matches NodeDataView::Assistant { blocks, .. } && blocks.contains(
                AssistantBlockView::Text { text: concatenated(texts_for(chunks, index)) },
            )
        }),
{
    let a = after_chunks(crate::store::fold::opened_step(turn, step, seqs[0]), chunks);
    lemma_text_arrives(turn, step, seqs[0], chunks, index);
    lemma_chunked(seqs, turn, step, chunks);
    law_applied_step_is_shown(seqs, turn, step, chunks);
    assert(crate::store::fold::finished(chunked(seqs, turn, step, chunks))[0] == running_node(a));
}

proof fn lemma_text_arrives(
    turn: i64,
    step: i64,
    seq: i64,
    chunks: Seq<StreamChunkView>,
    index: i64,
)
    requires
        0 <= index < MAX_ASSISTANT_BLOCKS,
        only_text(chunks, index),
        crate::text::trim(concatenated(texts_for(chunks, index))).len() > 0,
    ensures
        chunks.len() > 0,
        ({
            let a = after_chunks(crate::store::fold::opened_step(turn, step, seq), chunks);
            let blocks = crate::store::fold::arrived(a.blocks);
            &&& crate::store::fold::visible(blocks)
            &&& blocks.contains(
                AssistantBlockView::Text { text: concatenated(texts_for(chunks, index)) },
            )
        }),
{
    let opened = crate::store::fold::opened_step(turn, step, seq);
    let a = after_chunks(opened, chunks);
    let text = AssistantBlockView::Text { text: concatenated(texts_for(chunks, index)) };
    assert(texts_for(chunks, index).len() > 0) by {
        if texts_for(chunks, index).len() == 0 {
            assert(crate::text::trim(Seq::<char>::empty()).len() == 0);
        }
    }
    if chunks.len() == 0 {
        assert(texts_for(chunks, index).len() == 0);
    }
    law_block_holds_its_text(opened, chunks, index);
    lemma_arrived_contains(a.blocks, index as int);
    let blocks = crate::store::fold::arrived(a.blocks);
    let k = choose|k: int| 0 <= k < blocks.len() && blocks[k] == text;
    assert(blocks[k].has_visible_text());
}

/// What is streamed into a step is published: a window of chunks of one step that show something
/// is one running assistant node, whose blocks are those that have arrived, in the order of their
/// indices.
pub proof fn law_streamed_step_is_published(
    events: Seq<StoredEventView>,
    turn: i64,
    step: i64,
    chunks: Seq<StreamChunkView>,
)
    requires
        streams(events, turn, step, chunks),
        chunks.len() > 0,
        crate::store::fold::visible(
            crate::store::fold::arrived(
                after_chunks(
                    crate::store::fold::opened_step(turn, step, events[0].event.seq),
                    chunks,
                ).blocks,
            ),
        ),
    ensures
        crate::store::fold::chat_nodes(events) == seq![
            running_node(
                after_chunks(
                    crate::store::fold::opened_step(turn, step, events[0].event.seq),
                    chunks,
                ),
            ),
        ],
{
    let seqs = seqs_of(events);
    assert(seqs[0] == events[0].event.seq);
    lemma_streamed_window(events, turn, step, chunks);
    law_applied_step_is_shown(seqs, turn, step, chunks);
    let shown = crate::store::fold::finished(chunked(seqs, turn, step, chunks));
    let none = shown.drop_last();
    assert(none =~= Seq::empty());
    assert(crate::store::fold::by_anchor(none) == none);
    assert(crate::store::fold::by_anchor(shown) =~= shown);
}

/// The text of a block is published as it was streamed: where only text is streamed into a
/// block, and that text is not blank, the node of the step has a block with the deltas one
/// behind the other.
pub proof fn law_streamed_text_is_published(
    events: Seq<StoredEventView>,
    turn: i64,
    step: i64,
    chunks: Seq<StreamChunkView>,
    index: i64,
)
    requires
        streams(events, turn, step, chunks),
        0 <= index < MAX_ASSISTANT_BLOCKS,
        only_text(chunks, index),
        crate::text::trim(concatenated(texts_for(chunks, index))).len() > 0,
    ensures
        ({
            let nodes = crate::store::fold::chat_nodes(events);
            &&& nodes.len() == 1
            &&& nodes[0].key == crate::store::fold::assistant_node_key(turn, step)
            &&& nodes[0].data matches NodeDataView::Assistant { blocks, .. } && blocks.contains(
                AssistantBlockView::Text { text: concatenated(texts_for(chunks, index)) },
            )
        }),
{
    lemma_text_arrives(turn, step, events[0].event.seq, chunks, index);
    lemma_chunked(seqs_of(events), turn, step, chunks);
    law_streamed_step_is_published(events, turn, step, chunks);
}

} // verus!
