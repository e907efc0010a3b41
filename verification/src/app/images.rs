//! The images of a session: which are needed, and the viewer over them.

use vstd::prelude::*;

use crate::app::command::{Command, CommandView};
use crate::app::state::{App, AppView, Mode, ModeView};
use crate::app::takeover::{ImageViewer, ImageViewerView};
use crate::render::row_cache::{RowCache, RowView};
use crate::store::event_data::{ContentBlock, ContentBlockView};
use crate::store::node::{ChatNode, ChatNodeView, NodeData, NodeDataView};
use crate::text::{same, Duplicate};
use crate::wire::{ImageAttachmentRef, ImageAttachmentRefView};

verus! {

// ---------------------------------------------------------------------------
// the images of a session
// ---------------------------------------------------------------------------

/// The images of one block: itself, or those of the blocks inside a tool result.
pub open spec fn block_images(block: ContentBlockView) -> Seq<ImageAttachmentRefView>
    decreases block, 0nat,
{
    match block {
        ContentBlockView::Image { attachment } => seq![attachment],
        ContentBlockView::ToolResult { content, .. } => blocks_images(content, content.len()),
        _ => Seq::empty(),
    }
}

/// The images of the first `n` blocks, in their order.
pub open spec fn blocks_images(blocks: Seq<ContentBlockView>, n: nat) -> Seq<ImageAttachmentRefView>
    decreases blocks, n,
{
    if n == 0 || n > blocks.len() {
        Seq::empty()
    } else {
        blocks_images(blocks, (n - 1) as nat) + block_images(blocks[n - 1])
    }
}

/// The images of a node: those of a user message, and those of a tool result.
pub open spec fn node_images(node: ChatNodeView) -> Seq<ImageAttachmentRefView> {
    match node.data {
        NodeDataView::User { content, .. } => blocks_images(content, content.len()),
        NodeDataView::Tool { result: Some(result), .. } => blocks_images(
            result.content,
            result.content.len(),
        ),
        _ => Seq::empty(),
    }
}

/// The images of some nodes, in display order.
pub open spec fn all_images(nodes: Seq<ChatNodeView>) -> Seq<ImageAttachmentRefView>
    decreases nodes.len(),
{
    if nodes.len() == 0 {
        Seq::empty()
    } else {
        all_images(nodes.drop_last()) + node_images(nodes.last())
    }
}

/// Where the images of a node begin among those of all nodes, for a node that has some.
pub open spec fn first_image(nodes: Seq<ChatNodeView>, key: Seq<char>) -> Option<nat>
    decreases nodes.len(),
{
    if nodes.len() == 0 {
        None
    } else if nodes.last().key == key && node_images(nodes.last()).len() > 0 {
        Some(all_images(nodes.drop_last()).len())
    } else {
        first_image(nodes.drop_last(), key)
    }
}

/// The first image on a row at or behind row `i`.
pub open spec fn image_from(nodes: Seq<ChatNodeView>, rows: Seq<RowView>, i: int) -> Option<nat>
    decreases rows.len() - i,
{
    if i < 0 || i >= rows.len() {
        None
    } else {
        match first_image(nodes, rows[i].key) {
            Some(at) => Some(at),
            None => image_from(nodes, rows, i + 1),
        }
    }
}

/// The image that a viewer starts at: the first on a row at or behind the top of the screen,
/// else the last.
pub open spec fn viewer_start(nodes: Seq<ChatNodeView>, rows: Seq<RowView>, offset: int) -> nat {
    let top = crate::render::row_cache::place_from(rows, 0, offset).0;
    match image_from(nodes, rows, top) {
        Some(at) => at,
        None => (all_images(nodes).len() - 1) as nat,
    }
}

fn collect(blocks: &Vec<ContentBlock>, out: &mut Vec<ImageAttachmentRef>)
    ensures
        crate::text::views(final(out)@) == crate::text::views(old(out)@) + blocks_images(
            crate::text::views(blocks@),
            blocks@.len(),
        ),
    decreases *blocks,
{
    let ghost all = crate::text::views(blocks@);
    let ghost before = crate::text::views(out@);
    let mut i: usize = 0;
    proof {
        assert(before + blocks_images(all, 0) =~= before);
    }
    while i < blocks.len()
        invariant
            i <= blocks@.len(),
            all == crate::text::views(blocks@),
            crate::text::views(out@) == before + blocks_images(all, i as nat),
        decreases blocks.len() - i,
    {
        let ghost held = crate::text::views(out@);
        proof {
            assert(all[i as int] == blocks@[i as int]@);
            assert(decreases_to!(*blocks => blocks@));
            assert(decreases_to!(blocks@ => blocks@[i as int]));
        }
        match &blocks[i] {
            ContentBlock::Image { attachment } => {
                let copy = attachment.duplicate();
                proof {
                    assert(crate::text::views(out@.push(copy)) =~= held + seq![copy@]);
                }
                out.push(copy);
            },
            ContentBlock::ToolResult { tool_call_id, content, is_error } => {
                proof {
                    crate::store::event_data::lemma_result_view(
                        *tool_call_id,
                        *content,
                        *is_error,
                    );
                    assert(decreases_to!(blocks@[i as int] => *content));
                }
                collect(content, out);
            },
            _ => {
                proof {
                    assert(held + block_images(all[i as int]) =~= held);
                }
            },
        }
        proof {
            assert(before + (blocks_images(all, i as nat) + block_images(all[i as int])) =~= (before
                + blocks_images(all, i as nat)) + block_images(all[i as int]));
        }
        i = i + 1;
    }
}

fn images_of(node: &ChatNode) -> (r: Vec<ImageAttachmentRef>)
    ensures
        crate::text::views(r@) == node_images(node@),
{
    let mut out: Vec<ImageAttachmentRef> = Vec::new();
    proof {
        assert(crate::text::views(out@) =~= Seq::<ImageAttachmentRefView>::empty());
    }
    match &node.data {
        NodeData::User { content, .. } => collect(content, &mut out),
        NodeData::Tool { result: Some(result), .. } => collect(&result.content, &mut out),
        _ => {},
    }
    proof {
        assert(crate::text::views(out@) =~= node_images(node@));
    }
    out
}

/// The images of some nodes, in display order.
pub fn session_images(nodes: &Vec<ChatNode>) -> (r: Vec<ImageAttachmentRef>)
    ensures
        crate::text::views(r@) == all_images(crate::text::views(nodes@)),
{
    let ghost all = crate::text::views(nodes@);
    let mut out: Vec<ImageAttachmentRef> = Vec::new();
    let mut i: usize = 0;
    proof {
        assert(crate::text::views(out@) =~= all_images(all.take(0)));
    }
    while i < nodes.len()
        invariant
            i <= nodes@.len(),
            all == crate::text::views(nodes@),
            crate::text::views(out@) == all_images(all.take(i as int)),
        decreases nodes.len() - i,
    {
        let mut more = images_of(&nodes[i]);
        let ghost added = more@;
        let ghost held = out@;
        proof {
            assert(all.take(i + 1).drop_last() =~= all.take(i as int));
            assert(all.take(i + 1).last() == nodes@[i as int]@);
        }
        out.append(&mut more);
        proof {
            assert(crate::text::views(held + added) =~= crate::text::views(held)
                + crate::text::views(added));
        }
        i = i + 1;
    }
    proof {
        assert(all.take(i as int) =~= all);
    }
    out
}

/// Where the images of a node begin among those of all nodes.
fn image_at(nodes: &Vec<ChatNode>, key: &str) -> (r: Option<usize>)
    requires
        all_images(crate::text::views(nodes@)).len() <= usize::MAX,
    ensures
        match r {
            Some(at) => first_image(crate::text::views(nodes@), key@) == Some(at as nat),
            None => first_image(crate::text::views(nodes@), key@) is None,
        },
{
    let ghost all = crate::text::views(nodes@);
    let mut found: Option<usize> = None;
    let mut base: usize = 0;
    let mut i: usize = 0;
    while i < nodes.len()
        invariant
            i <= nodes@.len(),
            all == crate::text::views(nodes@),
            all_images(all).len() <= usize::MAX,
            base == all_images(all.take(i as int)).len(),
            match found {
                Some(at) => first_image(all.take(i as int), key@) == Some(at as nat),
                None => first_image(all.take(i as int), key@) is None,
            },
        decreases nodes.len() - i,
    {
        proof {
            assert(all.take(i + 1).drop_last() =~= all.take(i as int));
            assert(all.take(i + 1).last() == nodes@[i as int]@);
            lemma_images_grow(all, i + 1);
        }
        let count = images_of(&nodes[i]).len();
        proof {
            assert(count == node_images(nodes@[i as int]@).len());
        }
        if count > 0 && same(nodes[i].key.as_str(), key) {
            found = Some(base);
        }
        base = base + count;
        i = i + 1;
    }
    proof {
        assert(all.take(i as int) =~= all);
    }
    found
}

proof fn lemma_images_grow(nodes: Seq<ChatNodeView>, n: int)
    requires
        0 <= n <= nodes.len(),
    ensures
        all_images(nodes.take(n)).len() <= all_images(nodes).len(),
    decreases nodes.len() - n,
{
    if n < nodes.len() {
        lemma_images_grow(nodes, n + 1);
        assert(nodes.take(n + 1).drop_last() =~= nodes.take(n));
    } else {
        assert(nodes.take(n) =~= nodes);
    }
}

proof fn lemma_first_inside(nodes: Seq<ChatNodeView>, key: Seq<char>)
    ensures
        first_image(nodes, key) matches Some(at) ==> at < all_images(nodes).len(),
    decreases nodes.len(),
{
    if nodes.len() > 0 {
        lemma_first_inside(nodes.drop_last(), key);
    }
}

/// A viewer starts at one of the images.
pub proof fn law_viewer_starts_inside(nodes: Seq<ChatNodeView>, rows: Seq<RowView>, offset: int)
    requires
        all_images(nodes).len() > 0,
    ensures
        viewer_start(nodes, rows, offset) < all_images(nodes).len(),
{
    lemma_from_inside(nodes, rows, crate::render::row_cache::place_from(rows, 0, offset).0);
}

proof fn lemma_from_inside(nodes: Seq<ChatNodeView>, rows: Seq<RowView>, i: int)
    ensures
        image_from(nodes, rows, i) matches Some(at) ==> at < all_images(nodes).len(),
    decreases rows.len() - i,
{
    if 0 <= i < rows.len() {
        lemma_first_inside(nodes, rows[i].key);
        lemma_from_inside(nodes, rows, i + 1);
    }
}

fn start_of_viewer(nodes: &Vec<ChatNode>, cache: &RowCache, offset: usize, total: usize) -> (r: usize)
    requires
        total == all_images(crate::text::views(nodes@)).len(),
        total > 0,
    ensures
        r == viewer_start(crate::text::views(nodes@), cache@.rows, offset as int),
{
    let ghost all = crate::text::views(nodes@);
    let rows = cache.lines();
    let (top, _) = cache.line_to_row(offset);
    let mut i: usize = top;
    while i < rows.len()
        invariant
            all == crate::text::views(nodes@),
            crate::text::views(rows@) == cache@.rows,
            total == all_images(all).len(),
            total > 0,
            top == crate::render::row_cache::place_from(cache@.rows, 0, offset as int).0,
            image_from(all, cache@.rows, top as int) == image_from(all, cache@.rows, i as int),
        decreases rows.len() - i,
    {
        proof {
            assert(cache@.rows[i as int] == rows@[i as int]@);
        }
        match image_at(nodes, rows[i].key().as_str()) {
            Some(at) => return at,
            None => {},
        }
        i = i + 1;
    }
    total - 1
}

// ---------------------------------------------------------------------------
// the viewer
// ---------------------------------------------------------------------------

impl AppView {
    /// The images of the active session.
    pub open spec fn images(self) -> Seq<ImageAttachmentRefView> {
        match self.active_state() {
            Some(state) => all_images(state.nodes),
            None => Seq::empty(),
        }
    }

    /// The image viewer opened; a hint where there is no image.
    pub open spec fn viewer_opened(self) -> AppView {
        if self.images().len() == 0 {
            self.advised("hint.no_images"@)
        } else {
            self.with_mode(
                ModeView::Image(
                    ImageViewerView {
                        session_id: self.active_session->0,
                        images: self.images(),
                        index: viewer_start(
                            self.active_state()->0.nodes,
                            self.row_cache.rows,
                            self.view.offset as int,
                        ) as usize,
                        fit: true,
                    },
                ),
            )
        }
    }

    /// Whether an attachment is wanted: its image is not there and not on its way.
    pub open spec fn wants(self, id: Seq<char>) -> bool {
        !self.image_cache.dom().contains(id) && !self.pending_attachments.contains(id)
    }

    /// The attachments that are wanted among the first `n` images.
    pub open spec fn wanted(self, n: nat) -> Seq<Seq<char>>
        decreases n,
    {
        if n == 0 || n > self.images().len() {
            Seq::empty()
        } else {
            let before = self.wanted((n - 1) as nat);
            let id = self.images()[n - 1].attachment_id;
            if self.wants(id) {
                before.push(id)
            } else {
                before
            }
        }
    }

    /// The attachments that are wanted: none where the terminal shows no images.
    pub open spec fn needs(self) -> Seq<Seq<char>> {
        if self.graphics {
            self.wanted(self.images().len())
        } else {
            Seq::empty()
        }
    }

    /// The attachments that are wanted asked for, each once.
    pub open spec fn drained(self) -> (AppView, Seq<CommandView>) {
        if self.connected && self.active_session is Some {
            (
                self.with_pending_attachments(asked(self.pending_attachments, self.needs()).0),
                asked(self.pending_attachments, self.needs()).1.map_values(
                    |id: Seq<char>|
                        CommandView::Attachment {
                            session_id: self.active_session->0,
                            attachment_id: id,
                        },
                ),
            )
        } else {
            (self, Seq::empty())
        }
    }
}

/// The ids that are not asked for yet, each once, and the list of those on their way with them.
pub open spec fn asked(pending: Seq<Seq<char>>, ids: Seq<Seq<char>>) -> (Seq<Seq<char>>, Seq<Seq<char>>)
    decreases ids.len(),
{
    if ids.len() == 0 {
        (pending, Seq::empty())
    } else {
        let (before, sent) = asked(pending, ids.drop_last());
        if before.contains(ids.last()) {
            (before, sent)
        } else {
            (before.push(ids.last()), sent.push(ids.last()))
        }
    }
}

fn has_text_in(list: &Vec<String>, id: &str) -> (r: bool)
    ensures
        r == crate::text::views(list@).contains(id@),
{
    let ghost all = crate::text::views(list@);
    let mut i: usize = 0;
    while i < list.len()
        invariant
            i <= list@.len(),
            all == crate::text::views(list@),
            forall|k: int| 0 <= k < i ==> #[trigger] all[k] != id@,
        decreases list.len() - i,
    {
        proof {
            assert(all[i as int] == list@[i as int]@);
        }
        if same(list[i].as_str(), id) {
            return true;
        }
        i = i + 1;
    }
    false
}

impl App {
    /// Open the image viewer on the images of the active session.
    pub fn open_image_viewer(&mut self)
        ensures
            final(self)@ == old(self)@.viewer_opened(),
    {
        let viewer = match self.active_state() {
            Some(state) => {
                let images = session_images(state.nodes());
                if images.len() == 0 {
                    None
                } else {
                    let start = start_of_viewer(
                        state.nodes(),
                        self.row_cache(),
                        self.viewport().offset,
                        images.len(),
                    );
                    match self.active_session() {
                        Some(id) => Some(ImageViewer::new(id.duplicate(), images, start)),
                        None => None,
                    }
                }
            },
            None => None,
        };
        match viewer {
            Some(viewer) => self.set_mode(Mode::Image(viewer)),
            None => self.hint_key("hint.no_images"),
        }
    }

    /// The attachments that are wanted: those of the active session's images that are neither
    /// there nor on their way.
    pub fn attachment_needs(&self) -> (r: Vec<String>)
        ensures
            crate::text::views(r@) == self@.needs(),
    {
        let mut out: Vec<String> = Vec::new();
        proof {
            assert(crate::text::views(out@) =~= Seq::<Seq<char>>::empty());
        }
        if !self.graphics() {
            return out;
        }
        let images = match self.active_state() {
            Some(state) => session_images(state.nodes()),
            None => Vec::new(),
        };
        proof {
            assert(crate::text::views(images@) =~= self@.images());
        }
        let mut i: usize = 0;
        while i < images.len()
            invariant
                i <= images@.len(),
                crate::text::views(images@) == self@.images(),
                crate::text::views(out@) == self@.wanted(i as nat),
            decreases images.len() - i,
        {
            proof {
                assert(self@.images()[i as int] == images@[i as int]@);
            }
            let id = images[i].attachment_id.clone();
            let there = self.image_cache().get(id.as_str()).is_some();
            if !there && !has_text_in(self.pending_attachments(), id.as_str()) {
                proof {
                    assert(crate::text::views(out@.push(id)) =~= crate::text::views(out@).push(id@));
                }
                out.push(id);
            }
            i = i + 1;
        }
        out
    }

    /// Ask for the attachments that are wanted, each once.
    pub fn drain_attachment_needs(&mut self) -> (r: Vec<Command>)
        ensures
            final(self)@ == old(self)@.drained().0,
            crate::text::views(r@) == old(self)@.drained().1,
    {
        let mut out: Vec<Command> = Vec::new();
        proof {
            assert(crate::text::views(out@) =~= Seq::<CommandView>::empty());
        }
        let session_id = match self.active_session() {
            Some(id) => id.duplicate(),
            None => return out,
        };
        if !self.connected() {
            return out;
        }
        let needs = self.attachment_needs();
        let ghost start = self@.pending_attachments;
        let ghost ids = crate::text::views(needs@);
        let ghost request = |id: Seq<char>|
            CommandView::Attachment { session_id: session_id@, attachment_id: id };
        let mut pending = crate::text::duplicate_all(self.pending_attachments());
        let mut i: usize = 0;
        proof {
            assert(crate::text::views(out@) =~= asked(start, ids.take(0)).1.map_values(request));
        }
        while i < needs.len()
            invariant
                i <= needs@.len(),
                ids == crate::text::views(needs@),
                request == (|id: Seq<char>|
                    CommandView::Attachment { session_id: session_id@, attachment_id: id }),
                crate::text::views(pending@) == asked(start, ids.take(i as int)).0,
                crate::text::views(out@) == asked(start, ids.take(i as int)).1.map_values(request),
            decreases needs.len() - i,
        {
            proof {
                assert(ids.take(i + 1).drop_last() =~= ids.take(i as int));
                assert(ids.take(i + 1).last() == needs@[i as int]@);
            }
            if !has_text_in(&pending, needs[i].as_str()) {
                let id = needs[i].clone();
                let command = Command::Attachment {
                    session_id: session_id.duplicate(),
                    attachment_id: needs[i].clone(),
                };
                let ghost sent = asked(start, ids.take(i as int)).1;
                proof {
                    assert(crate::text::views(pending@.push(id)) =~= crate::text::views(
                        pending@,
                    ).push(id@));
                    assert(crate::text::views(out@.push(command)) =~= crate::text::views(out@).push(
                        command@,
                    ));
                    assert(sent.push(id@).map_values(request) =~= sent.map_values(request).push(
                        request(id@),
                    ));
                }
                pending.push(id);
                out.push(command);
            }
            i = i + 1;
        }
        proof {
            assert(ids.take(i as int) =~= ids);
        }
        self.set_pending_attachments(pending);
        out
    }
}

proof fn lemma_asked(pending: Seq<Seq<char>>, ids: Seq<Seq<char>>)
    ensures
        forall|k: int|
            0 <= k < pending.len() ==> asked(pending, ids).0.contains(#[trigger] pending[k]),
        forall|k: int| 0 <= k < ids.len() ==> asked(pending, ids).0.contains(#[trigger] ids[k]),
    decreases ids.len(),
{
    if ids.len() > 0 {
        lemma_asked(pending, ids.drop_last());
        let before = asked(pending, ids.drop_last()).0;
        let now = asked(pending, ids).0;
        assert forall|x: Seq<char>| before.contains(x) implies now.contains(x) by {
            let j = choose|j: int| 0 <= j < before.len() && before[j] == x;
            assert(now[j] == x);
        }
        assert forall|k: int| 0 <= k < ids.len() implies now.contains(#[trigger] ids[k]) by {
            if k < ids.len() - 1 {
                assert(ids.drop_last()[k] == ids[k]);
            } else if !before.contains(ids.last()) {
                assert(now[now.len() - 1] == ids.last());
            }
        }
    } else {
        assert forall|k: int| 0 <= k < pending.len() implies asked(pending, ids).0.contains(
            #[trigger] pending[k],
        ) by {
            assert(asked(pending, ids).0[k] == pending[k]);
        }
    }
}

/// An attachment that is on its way is not asked for again.
pub proof fn law_asked_once(pending: Seq<Seq<char>>, ids: Seq<Seq<char>>)
    ensures
        asked(asked(pending, ids).0, ids).1.len() == 0,
{
    lemma_asked(pending, ids);
    lemma_none_left(asked(pending, ids).0, ids);
}

proof fn lemma_none_left(pending: Seq<Seq<char>>, ids: Seq<Seq<char>>)
    requires
        forall|k: int| 0 <= k < ids.len() ==> pending.contains(#[trigger] ids[k]),
    ensures
        asked(pending, ids) == (pending, Seq::<Seq<char>>::empty()),
    decreases ids.len(),
{
    if ids.len() > 0 {
        assert forall|k: int| 0 <= k < ids.drop_last().len() implies pending.contains(
            #[trigger] ids.drop_last()[k],
        ) by {
            assert(ids[k] == ids.drop_last()[k]);
        }
        lemma_none_left(pending, ids.drop_last());
        assert(pending.contains(ids[ids.len() - 1]));
    }
}

} // verus!
