//! What the ledger of a session counts and lists, whatever its events are.

use vstd::prelude::*;

use crate::render::trajectory::TrajectoryRowView;
use crate::store::event_data::{ContentBlockView, EventDataView};
use crate::store::stored::StoredEventView;
use crate::store::StoreView;

verus! {

/// The ledger counts what happened: the counts of two windows put together are the sums of the
/// counts of each, and the model is the one named last.
pub proof fn law_counts_add(a: Seq<StoredEventView>, b: Seq<StoredEventView>)
    ensures
        ({
            let x = crate::render::trajectory::counted(a);
            let y = crate::render::trajectory::counted(b);
            let z = crate::render::trajectory::counted(a + b);
            &&& z.turns == x.turns + y.turns
            &&& z.calls == x.calls + y.calls
            &&& z.tools == x.tools + y.tools
            &&& z.model == (if y.model is Some {
                y.model
            } else {
                x.model
            })
        }),
    decreases b.len(),
{
    if b.len() == 0 {
        assert(a + b =~= a);
    } else {
        law_counts_add(a, b.drop_last());
        assert((a + b).drop_last() =~= a + b.drop_last());
        assert((a + b).last() == b.last());
    }
}

/// One event counts once at most: the start of a turn as a turn, an assistant message as a call
/// of the model with the input it reports, a tool call as a tool, a report of the context for
/// the model it names.
pub proof fn law_one_event_counted(e: StoredEventView)
    ensures
        ({
            let c = crate::render::trajectory::counted(seq![e]);
            &&& c.turns == (if e.data is TurnStart {
                1nat
            } else {
                0
            })
            &&& c.calls == (if e.data is AssistantMessage {
                1nat
            } else {
                0
            })
            &&& c.tools == (if e.data is ToolCall {
                1nat
            } else {
                0
            })
            &&& c.model == (match e.data {
                EventDataView::RequestContext { model, .. } => Some(model),
                _ => None,
            })
            &&& c.input == (match e.data {
                EventDataView::AssistantMessage { usage: Some(u), .. } => u.input_tokens,
                _ => 0,
            })
        }),
{
    reveal_with_fuel(crate::render::trajectory::counted, 2);
    assert(seq![e].drop_last() =~= Seq::empty());
}

/// The input that the ledger counts is the sum of what the messages report, as long as that is
/// a number it can hold.
pub proof fn law_input_adds(events: Seq<StoredEventView>, e: StoredEventView, n: i64)
    requires
        e.data matches EventDataView::AssistantMessage { usage: Some(u), .. } && u.input_tokens == n,
        i64::MIN <= crate::render::trajectory::counted(events).input + n <= i64::MAX,
    ensures
        crate::render::trajectory::counted(events.push(e)).input
            == crate::render::trajectory::counted(events).input + n,
{
    assert(events.push(e).drop_last() =~= events);
}

proof fn lemma_rows_add(a: Seq<StoredEventView>, b: Seq<StoredEventView>)
    ensures
        crate::render::trajectory::event_rows(a + b) == crate::render::trajectory::event_rows(a)
            + crate::render::trajectory::event_rows(b),
    decreases b.len(),
{
    if b.len() == 0 {
        assert(a + b =~= a);
        assert(crate::render::trajectory::event_rows(a) + Seq::<TrajectoryRowView>::empty()
            =~= crate::render::trajectory::event_rows(a));
    } else {
        lemma_rows_add(a, b.drop_last());
        assert((a + b).drop_last() =~= a + b.drop_last());
        assert((a + b).last() == b.last());
        let x = crate::render::trajectory::event_rows(a);
        let y = crate::render::trajectory::event_rows(b.drop_last());
        match crate::render::trajectory::event_row(b.last().data) {
            Some(row) => {
                assert((x + y).push(row) =~= x + y.push(row));
            },
            None => {},
        }
    }
}

/// The ledger lists the events in their order: the rows of two windows put together are those of
/// the first and then those of the second.
pub proof fn law_ledger_in_order(
    store: StoreView,
    id: Seq<char>,
    a: Seq<StoredEventView>,
    b: Seq<StoredEventView>,
)
    requires
        store.sessions.dom().contains(id),
        store.sessions[id].events == a + b,
        !store.sessions[id].truncated,
    ensures
        crate::render::trajectory::ledger(store, id).drop_last()
            == crate::render::trajectory::event_rows(a) + crate::render::trajectory::event_rows(b),
{
    lemma_rows_add(a, b);
    let rows = crate::render::trajectory::event_rows(a + b);
    assert(Seq::<TrajectoryRowView>::empty() + rows =~= rows);
    assert(rows.push(TrajectoryRowView::LoadEarlier).drop_last() =~= rows);
}

/// Each event that has a row has one, with what it says: the number of a turn or a step, the
/// name of a tool, the texts of a message or of a result.
pub proof fn law_event_row(e: StoredEventView)
    ensures
        ({
            let rows = crate::render::trajectory::event_rows(seq![e]);
            match e.data {
                EventDataView::TurnStart { turn } => rows.len() == 1 && rows[0] == (
                TrajectoryRowView::Turn { turn }),
                EventDataView::StepStart { step, .. } => rows.len() == 1 && rows[0] == (
                TrajectoryRowView::Step { step }),
                EventDataView::ToolCall { name, .. } => rows.len() == 1 && rows[0] is Tool
                    && rows[0]->name == name,
                EventDataView::ToolResult { message, .. } => {
                    &&& rows.len() == 1
                    &&& rows[0] is ToolResult
                    &&& message.content.len() > 0 && message.content[0] is ToolResult
                        ==> rows[0]->ToolResult_text == crate::render::trajectory::snippet(
                        message.content[0]->ToolResult_content,
                    )
                },
                EventDataView::AssistantMessage { message, .. } => rows.len() == 1
                    && rows[0] is Assistant && rows[0]->Assistant_text
                    == crate::render::trajectory::snippet(message.content),
                _ => rows.len() == 0,
            }
        }),
{
    reveal_with_fuel(crate::render::trajectory::event_rows, 2);
    assert(seq![e].drop_last() =~= Seq::empty());
}

/// The text of a block without the white space around it: of text and of reasoning; other blocks
/// have none.
pub open spec fn said(block: ContentBlockView) -> Seq<char> {
    if block is Text {
        crate::text::trim(block->Text_text)
    } else if block is Reasoning {
        crate::text::trim(block->Reasoning_text)
    } else {
        Seq::empty()
    }
}

/// The snippet of some blocks is their texts, in their order, a blank between two of them; a
/// block that says nothing adds nothing.
pub proof fn law_snippet(blocks: Seq<ContentBlockView>, block: ContentBlockView)
    ensures
        ({
            let before = crate::render::trajectory::snippet(blocks);
            let after = crate::render::trajectory::snippet(blocks.push(block));
            &&& said(block).len() == 0 ==> after == before
            &&& before.len() == 0 ==> after == said(block)
            &&& before.len() > 0 && said(block).len() > 0 ==> after == before + seq![' '] + said(
                block,
            )
        }),
        crate::render::trajectory::snippet(Seq::empty()).len() == 0,
{
    reveal_strlit(" ");
    assert(" "@ =~= seq![' ']);
    assert(blocks.push(block).drop_last() =~= blocks);
    if said(block).len() == 0 && crate::render::trajectory::snippet(blocks).len() == 0 {
        assert(said(block) =~= crate::render::trajectory::snippet(blocks));
    }
}

} // verus!
