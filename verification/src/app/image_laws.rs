//! Which images a session has and which are asked for, whatever its nodes hold.

use vstd::prelude::*;

use crate::app::command::CommandView;
use crate::app::state::{AppView, ModeView};
use crate::store::event_data::ContentBlockView;
use crate::store::node::{ChatNodeView, NodeDataView};
use crate::wire::ImageAttachmentRefView;

verus! {

proof fn lemma_blocks_prefix(a: Seq<ContentBlockView>, b: Seq<ContentBlockView>, n: nat)
    requires
        n <= a.len() <= b.len(),
        forall|i: int| 0 <= i < a.len() ==> #[trigger] a[i] == b[i],
    ensures
        crate::app::images::blocks_images(a, n) == crate::app::images::blocks_images(b, n),
    decreases n,
{
    if n > 0 {
        lemma_blocks_prefix(a, b, (n - 1) as nat);
        assert(a[n - 1] == b[n - 1]);
    }
}

/// The images of some blocks are those of each block in turn: an image block is its image, a
/// tool result holds those of its content, and other blocks have none.
pub proof fn law_block_images(blocks: Seq<ContentBlockView>, block: ContentBlockView)
    ensures
        crate::app::images::blocks_images(blocks.push(block), blocks.len() + 1)
            == crate::app::images::blocks_images(blocks, blocks.len())
            + crate::app::images::block_images(block),
        block matches ContentBlockView::Image { attachment } ==> crate::app::images::block_images(
            block,
        ) == seq![attachment],
        block matches ContentBlockView::ToolResult { content, .. }
            ==> crate::app::images::block_images(block) == crate::app::images::blocks_images(
            content,
            content.len(),
        ),
        block is Text || block is Reasoning || block is ToolCall || block is Raw
            ==> crate::app::images::block_images(block).len() == 0,
{
    lemma_blocks_prefix(blocks, blocks.push(block), blocks.len());
}

/// The images of a session are those of its user messages and tool results, in the order of the
/// nodes.
pub proof fn law_session_images(a: Seq<ChatNodeView>, b: Seq<ChatNodeView>, node: ChatNodeView)
    ensures
        crate::app::images::all_images(a + b) == crate::app::images::all_images(a)
            + crate::app::images::all_images(b),
        ({
            let one = crate::app::images::all_images(seq![node]);
            match node.data {
                NodeDataView::User { content, .. } => one == crate::app::images::blocks_images(
                    content,
                    content.len(),
                ),
                NodeDataView::Tool { result: Some(r), .. } => one
                    == crate::app::images::blocks_images(r.content, r.content.len()),
                _ => one.len() == 0,
            }
        }),
    decreases b.len(),
{
    reveal_with_fuel(crate::app::images::all_images, 2);
    assert(seq![node].drop_last() =~= Seq::empty());
    let own = crate::app::images::node_images(node);
    assert(Seq::<ImageAttachmentRefView>::empty() + own =~= own);
    let x = crate::app::images::all_images(a);
    if b.len() == 0 {
        assert(a + b =~= a);
        assert(x + Seq::<ImageAttachmentRefView>::empty() =~= x);
    } else {
        law_session_images(a, b.drop_last(), node);
        assert((a + b).drop_last() =~= a + b.drop_last());
        assert((a + b).last() == b.last());
        let y = crate::app::images::all_images(b.drop_last());
        let z = crate::app::images::node_images(b.last());
        assert(x + y + z =~= x + (y + z));
    }
}

/// The viewer shows all images of the session on the screen, fitted; without an image it does
/// not open.
pub proof fn law_viewer_opened(app: AppView, session_id: Seq<char>)
    requires
        app.active_session == Some(session_id),
    ensures
        app.images().len() > 0 ==> (app.viewer_opened().mode matches ModeView::Image(viewer)
            && viewer.images == app.images() && viewer.session_id == session_id && viewer.fit),
        app.images().len() == 0 ==> app.viewer_opened().mode == app.mode,
{
    reveal(AppView::with_mode);
    reveal(AppView::with_hint);
}

proof fn lemma_wanted(app: AppView, n: nat)
    requires
        n <= app.images().len(),
    ensures
        forall|k: int|
            0 <= k < app.wanted(n).len() ==> app.wants(#[trigger] app.wanted(n)[k]) && exists|i: int|
                0 <= i < n && (#[trigger] app.images()[i]).attachment_id == app.wanted(n)[k],
        forall|i: int|
            0 <= i < n && app.wants((#[trigger] app.images()[i]).attachment_id) ==> app.wanted(
                n,
            ).contains(app.images()[i].attachment_id),
    decreases n,
{
    if n > 0 {
        let m = (n - 1) as nat;
        lemma_wanted(app, m);
        let before = app.wanted(m);
        let now = app.wanted(n);
        assert forall|k: int| 0 <= k < now.len() implies app.wants(#[trigger] now[k])
            && exists|i: int|
            0 <= i < n && (#[trigger] app.images()[i]).attachment_id == now[k] by {
            if k < before.len() {
                assert(now[k] == before[k]);
                let i = choose|i: int|
                    0 <= i < m && (#[trigger] app.images()[i]).attachment_id == before[k];
                assert(app.images()[i].attachment_id == now[k]);
            } else {
                assert(app.images()[n - 1].attachment_id == now[k]);
            }
        }
        assert forall|i: int|
            0 <= i < n && app.wants((#[trigger] app.images()[i]).attachment_id) implies now.contains(
            app.images()[i].attachment_id,
        ) by {
            let id = app.images()[i].attachment_id;
            if i < m {
                let k = choose|k: int| 0 <= k < before.len() && before[k] == id;
                assert(now[k] == id);
            } else {
                assert(now[now.len() - 1] == id);
            }
        }
    }
}

/// Where images can be shown, every image of the session that is neither kept nor on its way is
/// needed, and no other; where they cannot, none is.
pub proof fn law_images_needed(app: AppView, i: int)
    requires
        0 <= i < app.images().len(),
    ensures
        ({
            let id = app.images()[i].attachment_id;
            let free = !app.image_cache.dom().contains(id) && !app.pending_attachments.contains(id);
            &&& app.graphics && free ==> app.needs().contains(id)
            &&& !free ==> !app.needs().contains(id)
            &&& !app.graphics ==> app.needs().len() == 0
        }),
{
    lemma_wanted(app, app.images().len());
    let id = app.images()[i].attachment_id;
    if app.needs().contains(id) {
        let k = choose|k: int| 0 <= k < app.needs().len() && app.needs()[k] == id;
        assert(app.wants(app.wanted(app.images().len())[k]));
    }
}

proof fn lemma_asked(pending: Seq<Seq<char>>, ids: Seq<Seq<char>>)
    ensures
        ({
            let (all, sent) = crate::app::images::asked(pending, ids);
            &&& sent.no_duplicates()
            &&& all == pending + sent
            &&& forall|k: int|
                0 <= k < sent.len() ==> !pending.contains(#[trigger] sent[k]) && ids.contains(
                    sent[k],
                )
            &&& forall|i: int|
                0 <= i < ids.len() && !pending.contains(#[trigger] ids[i]) ==> sent.contains(ids[i])
        }),
    decreases ids.len(),
{
    if ids.len() == 0 {
        assert(pending + Seq::<Seq<char>>::empty() =~= pending);
    } else {
        let rest = ids.drop_last();
        lemma_asked(pending, rest);
        let (before, was) = crate::app::images::asked(pending, rest);
        let (all, sent) = crate::app::images::asked(pending, ids);
        let id = ids.last();
        assert(ids[ids.len() - 1] == id);
        if before.contains(id) {
            assert forall|i: int| 0 <= i < ids.len() && !pending.contains(#[trigger] ids[i]) implies
                sent.contains(ids[i]) by {
                if i < rest.len() {
                    assert(rest[i] == ids[i]);
                } else {
                    let k = choose|k: int| 0 <= k < before.len() && before[k] == id;
                    if k < pending.len() {
                        assert(pending[k] == id);
                    } else {
                        assert(was[k - pending.len()] == id);
                    }
                }
            }
        } else {
            assert(all =~= pending + sent);
            assert forall|x: int, y: int|
                0 <= x < sent.len() && 0 <= y < sent.len() && x != y implies sent[x] != sent[y] by {
                if x == was.len() {
                    assert(before[pending.len() + y] == was[y]);
                } else if y == was.len() {
                    assert(before[pending.len() + x] == was[x]);
                }
            }
            assert forall|k: int| 0 <= k < sent.len() implies !pending.contains(#[trigger] sent[k])
                && ids.contains(sent[k]) by {
                if k < was.len() {
                    assert(sent[k] == was[k]);
                    let i = choose|i: int| 0 <= i < rest.len() && rest[i] == was[k];
                    assert(ids[i] == sent[k]);
                } else if pending.contains(id) {
                    let p = choose|p: int| 0 <= p < pending.len() && pending[p] == id;
                    assert(before[p] == id);
                }
            }
            assert forall|i: int| 0 <= i < ids.len() && !pending.contains(#[trigger] ids[i]) implies
                sent.contains(ids[i]) by {
                if i < rest.len() {
                    assert(rest[i] == ids[i]);
                    let k = choose|k: int| 0 <= k < was.len() && was[k] == ids[i];
                    assert(sent[k] == ids[i]);
                } else {
                    assert(sent[sent.len() - 1] == id);
                }
            }
        }
        if before.contains(id) {
            assert forall|k: int| 0 <= k < sent.len() implies !pending.contains(#[trigger] sent[k])
                && ids.contains(sent[k]) by {
                let i = choose|i: int| 0 <= i < rest.len() && rest[i] == was[k];
                assert(ids[i] == sent[k]);
            }
        }
    }
}

/// What is needed is asked for, each image once and of the session on the screen, and is on its
/// way then.
pub proof fn law_images_asked(app: AppView, session_id: Seq<char>, k: int)
    requires
        app.connected,
        app.active_session == Some(session_id),
        0 <= k < app.needs().len(),
        !app.pending_attachments.contains(app.needs()[k]),
    ensures
        ({
            let (out, sent) = app.drained();
            let command = (CommandView::Attachment {
                session_id,
                attachment_id: app.needs()[k],
            });
            &&& sent.contains(command)
            &&& sent.no_duplicates()
            &&& out.pending_attachments.contains(app.needs()[k])
        }),
{
    reveal(AppView::with_pending_attachments);
    lemma_asked(app.pending_attachments, app.needs());
    let (all, ids) = crate::app::images::asked(app.pending_attachments, app.needs());
    let (out, sent) = app.drained();
    let id = app.needs()[k];
    let i = choose|i: int| 0 <= i < ids.len() && ids[i] == id;
    assert(sent[i] == (CommandView::Attachment { session_id, attachment_id: id }));
    assert(all[app.pending_attachments.len() + i] == id);
    assert forall|x: int, y: int|
        0 <= x < sent.len() && 0 <= y < sent.len() && x != y implies sent[x] != sent[y] by {
        assert(ids[x] != ids[y]);
    }
}

/// Without a gateway nothing is asked for.
pub proof fn law_no_image_asked(app: AppView)
    requires
        !app.connected,
    ensures
        app.drained().1.len() == 0,
        app.drained().0.pending_attachments == app.pending_attachments,
{
    reveal(AppView::with_pending_attachments);
}

} // verus!
