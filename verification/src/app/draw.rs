//! What a drawing needs, and what it leaves behind: the areas that the mouse is tested
//! against, the rendered rows, the place of the chat, and what is known of running tools.

use vstd::prelude::*;

use crate::app::layout::{composer_height, panes, sidebar_target, sidebar_width, Panes};
use crate::app::mouse::{columns_before, scroll_of};
use crate::app::state::{
    App, AppView, Focus, Mode, ModeView, RunningTool, RunningToolView, ViewMode, ViewState,
    HINT_WIDTH, TOO_SMALL_WIDTH, WIDE_WIDTH,
};
use crate::render::chat_view::content_width;
use crate::render::fit::truncate_ellipsis;
use crate::render::highlight::Grammars;
use crate::render::markdown::SceneView;
use crate::render::row_cache::{CachedRow, RowView, StageView};
use crate::render::sink::{LookView, RenderContext};
use crate::render::trajectory::{ledger_rows, Piece, PieceView, Role};
use crate::render::width::columns_of;
use crate::store::node::{ChatNode, ChatNodeView, NodeData, NodeDataView};
use crate::table::Table;
use crate::text::{same, Duplicate};
use syntect::parsing::SyntaxSet;

verus! {

/// What is on the screen.
#[derive(Debug, Clone, Copy, PartialEq, Eq, Structural)]
pub enum Screen {
    TooSmall,
    /// A takeover has all of it.
    Takeover,
    /// The chat, perhaps with an approval dialog over it.
    Chat,
}

/// What is on the screen of a width.
pub open spec fn screen_of(width: u16, mode: ModeView) -> Screen {
    if width < TOO_SMALL_WIDTH {
        Screen::TooSmall
    } else if mode is Chat || mode is Approval {
        Screen::Chat
    } else {
        Screen::Takeover
    }
}

// ---------------------------------------------------------------------------
// running tools
// ---------------------------------------------------------------------------

/// Whether a node is a tool call that runs.
pub open spec fn runs_tool(node: ChatNodeView) -> bool {
    node.data matches NodeDataView::Tool { call, result, .. } && call is Some && result is None
}

/// Whether a watched tool is that of a node.
pub open spec fn watched_as(key: Seq<char>) -> spec_fn(RunningToolView) -> bool {
    |t: RunningToolView| t.key == key
}

/// Since when a tool runs: since it was first seen.
pub open spec fn since_of(watched: Seq<RunningToolView>, key: Seq<char>, now: u64) -> u64 {
    let at = crate::seqs::first_index(watched, watched_as(key));
    if at < watched.len() {
        watched[at].since
    } else {
        now
    }
}

/// The running tools of some nodes.
pub open spec fn tools_of(nodes: Seq<ChatNodeView>, watched: Seq<RunningToolView>, now: u64) -> Seq<
    RunningToolView,
>
    decreases nodes.len(),
{
    if nodes.len() == 0 {
        Seq::empty()
    } else {
        let before = tools_of(nodes.drop_last(), watched, now);
        let node = nodes.last();
        if runs_tool(node) {
            before.push(RunningToolView { key: node.key, since: since_of(watched, node.key, now) })
        } else {
            before
        }
    }
}

fn tool_runs(node: &ChatNode) -> (r: bool)
    ensures
        r == runs_tool(node@),
{
    match &node.data {
        NodeData::Tool { call, result, .. } => call.is_some() && result.is_none(),
        _ => false,
    }
}

fn find_since(watched: &Vec<RunningTool>, key: &str, now: u64) -> (r: u64)
    ensures
        r == since_of(crate::text::views(watched@), key@, now),
{
    let ghost all = crate::text::views(watched@);
    let mut i: usize = 0;
    while i < watched.len()
        invariant
            i <= watched@.len(),
            all == crate::text::views(watched@),
            forall|k: int| 0 <= k < i ==> !watched_as(key@)(#[trigger] all[k]),
        decreases watched.len() - i,
    {
        proof {
            assert(all[i as int] == watched@[i as int]@);
        }
        if same(watched[i].key.as_str(), key) {
            proof {
                crate::seqs::lemma_first_index(all, watched_as(key@), i as int);
            }
            return watched[i].since;
        }
        i = i + 1;
    }
    proof {
        crate::seqs::lemma_first_index(all, watched_as(key@), i as int);
    }
    now
}

fn running_of(nodes: &Vec<ChatNode>, watched: &Vec<RunningTool>, now: u64) -> (r: Vec<RunningTool>)
    ensures
        crate::text::views(r@) == tools_of(
            crate::text::views(nodes@),
            crate::text::views(watched@),
            now,
        ),
{
    let ghost all = crate::text::views(nodes@);
    let ghost known = crate::text::views(watched@);
    let mut out: Vec<RunningTool> = Vec::new();
    let mut i: usize = 0;
    proof {
        assert(crate::text::views(out@) =~= tools_of(all.take(0), known, now));
    }
    while i < nodes.len()
        invariant
            i <= nodes@.len(),
            all == crate::text::views(nodes@),
            known == crate::text::views(watched@),
            crate::text::views(out@) == tools_of(all.take(i as int), known, now),
        decreases nodes.len() - i,
    {
        proof {
            assert(all[i as int] == nodes@[i as int]@);
            assert(all.take(i + 1).drop_last() =~= all.take(i as int));
            assert(all.take(i + 1).last() == all[i as int]);
        }
        if tool_runs(&nodes[i]) {
            let tool = RunningTool {
                key: nodes[i].key.clone(),
                since: find_since(watched, nodes[i].key.as_str(), now),
            };
            proof {
                assert(crate::text::views(out@.push(tool)) =~= crate::text::views(out@).push(tool@));
            }
            out.push(tool);
        }
        i = i + 1;
    }
    proof {
        assert(all.take(i as int) =~= all);
    }
    out
}

// ---------------------------------------------------------------------------
// folds
// ---------------------------------------------------------------------------

/// Whether a node has rows.
pub open spec fn has_row(rows: Seq<RowView>, key: Seq<char>) -> bool {
    exists|i: int| 0 <= i < rows.len() && (#[trigger] rows[i]).key == key
}

/// The folds of the nodes that have rows.
pub open spec fn folds_of(folds: Map<Seq<char>, bool>, rows: Seq<RowView>) -> Map<Seq<char>, bool> {
    Map::new(|key: Seq<char>| folds.dom().contains(key) && has_row(rows, key), |key: Seq<char>| folds[key])
}

fn kept_folds(folds: &Table<bool>, rows: &Vec<CachedRow>) -> (r: Table<bool>)
    ensures
        r@ == folds_of(folds@, crate::text::views(rows@)),
{
    let ghost all = crate::text::views(rows@);
    let mut out: Table<bool> = Table::new();
    let mut i: usize = 0;
    proof {
        assert(out@ =~= folds_of(folds@, all.take(0)));
    }
    while i < rows.len()
        invariant
            i <= rows@.len(),
            all == crate::text::views(rows@),
            out@ == folds_of(folds@, all.take(i as int)),
        decreases rows.len() - i,
    {
        let ghost before = all.take(i as int);
        let ghost after = all.take(i + 1);
        let ghost key = all[i as int].key;
        proof {
            assert(all[i as int] == rows@[i as int]@);
            assert(after[i as int].key == key);
            assert forall|k: Seq<char>| has_row(after, k) == (has_row(before, k) || k == key) by {
                if has_row(before, k) {
                    let j = choose|j: int| 0 <= j < before.len() && (#[trigger] before[j]).key == k;
                    assert(after[j].key == k);
                }
                if has_row(after, k) {
                    let j = choose|j: int| 0 <= j < after.len() && (#[trigger] after[j]).key == k;
                    if j < i {
                        assert(before[j].key == k);
                    }
                }
            }
        }
        match folds.get(rows[i].key().as_str()) {
            Some(folded) => {
                let value = *folded;
                out.insert(rows[i].key().clone(), value);
                proof {
                    assert(out@ =~= folds_of(folds@, after));
                }
            },
            None => {
                proof {
                    assert(out@ =~= folds_of(folds@, after));
                }
            },
        }
        i = i + 1;
    }
    proof {
        assert(all.take(i as int) =~= all);
    }
    out
}

// ---------------------------------------------------------------------------
// the application
// ---------------------------------------------------------------------------

/// The line feeds of a text.
pub open spec fn feeds(text: Seq<char>) -> nat
    decreases text.len(),
{
    if text.len() == 0 {
        0
    } else {
        feeds(text.drop_last()) + (if text.last() == '\n' {
            1nat
        } else {
            0
        })
    }
}

fn count_feeds(text: &Vec<char>, stop: usize) -> (r: usize)
    requires
        stop <= text@.len(),
    ensures
        r == feeds(text@.take(stop as int)),
        r <= stop,
{
    let mut n: usize = 0;
    let mut i: usize = 0;
    while i < stop
        invariant
            i <= stop <= text@.len(),
            n == feeds(text@.take(i as int)),
            n <= i,
        decreases stop - i,
    {
        proof {
            assert(text@.take(i + 1).drop_last() =~= text@.take(i as int));
            assert(text@.take(i + 1).last() == text@[i as int]);
        }
        if text[i] == '\n' {
            n = n + 1;
        }
        i = i + 1;
    }
    n
}

impl AppView {
    /// What the rows depend on, at a width.
    pub open spec fn stage(self, width: u16, set: SyntaxSet) -> StageView {
        StageView {
            scene: SceneView {
                look: LookView {
                    theme: self.theme,
                    strings: self.strings,
                    locale: self.locale,
                    set,
                },
                images: self.image_cache,
                width,
            },
            folds: self.skill_folds,
        }
    }

    /// The rows of the active session brought up to date.
    pub open spec fn rendered(self, width: u16, set: SyntaxSet) -> AppView {
        match self.active_session {
            Some(id) => self.with_row_cache(
                crate::render::row_cache::cleaned(
                    crate::render::row_cache::synced(
                        self.row_cache,
                        self.store,
                        id,
                        self.stage(width, set),
                    ),
                    self.store,
                    id,
                    self.stage(width, set),
                ),
            ),
            None => self,
        }
    }

    /// The rows of what the chat area shows, as far as a number reaches.
    pub open spec fn shown_total(self) -> int {
        let total = if self.view_mode == ViewMode::Trajectory {
            crate::render::trajectory::ledger(self.store, self.active_session->0).len()
        } else {
            crate::render::row_cache::line_count(self.row_cache.rows)
        };
        if total <= usize::MAX {
            total as int
        } else {
            usize::MAX as int
        }
    }

    /// At the bottom, where it is followed.
    pub open spec fn followed(self) -> AppView {
        if self.active_session is Some && self.view.follow {
            self.with_view(
                ViewState {
                    offset: if self.shown_total() > self.view.viewport_height {
                        (self.shown_total() - self.view.viewport_height) as usize
                    } else {
                        0
                    },
                    ..self.view
                },
            )
        } else {
            self
        }
    }

    /// The tools that run, each since it was first seen, and since when there is a turn in
    /// flight. Nothing runs without one.
    pub open spec fn watched(self) -> AppView {
        if self.busy() {
            self.with_running_tools(
                match self.active_state() {
                    Some(state) => tools_of(state.nodes, self.running_tools, self.clock),
                    None => Seq::empty(),
                },
            ).with_busy_since(
                match self.busy_since {
                    Some(since) => Some(since),
                    None => Some(self.clock),
                },
            )
        } else {
            self.with_running_tools(Seq::empty()).with_busy_since(None)
        }
    }

    /// Without the folds of nodes that have no rows.
    pub open spec fn pruned(self) -> AppView {
        self.with_skill_folds(folds_of(self.skill_folds, self.row_cache.rows))
    }

    /// The areas that the mouse is tested against, and the height of the chat: one row at its
    /// top stays empty.
    pub open spec fn placed(self, p: Panes, width: u16, height: u16) -> AppView {
        self.with_sidebar_area(
            crate::app::layout::sidebar_hit(width, height, self.drawer_open, p.sidebar),
        ).with_chat_area(p.chat).with_composer_area(p.composer).with_view(
            ViewState {
                viewport_height: crate::app::mouse::minus(p.chat.height, 1),
                ..self.view
            },
        )
    }

    /// Ready to be drawn in some panes.
    pub open spec fn arranged(self, p: Panes, width: u16, height: u16, set: SyntaxSet) -> AppView {
        self.placed(p, width, height).selection_kept().rendered(
            crate::app::mouse::minus(p.chat.width, 4),
            set,
        ).followed().watched().pruned()
    }

    /// On a screen of a width, with the queue closed where it is empty.
    pub open spec fn on_screen(self, width: u16) -> AppView {
        let there = self.with_terminal_width(width);
        if screen_of(width, self.mode) == Screen::Chat && there.queue().len() == 0 {
            there.queue_shown(false)
        } else {
            there
        }
    }

    /// Drawn.
    pub open spec fn drawn(self) -> AppView {
        self.with_last_draw(Some(self.clock)).with_needs_draw(false).with_draws(
            self.draws.wrapping_add(1),
        )
    }

    /// The rows of the header.
    pub open spec fn header_rows(self) -> u16 {
        if self.active_session is Some {
            1
        } else {
            0
        }
    }

    /// The rows of the strip of the queue.
    pub open spec fn queue_rows(self) -> u16 {
        if self.queue().len() > 0 {
            1
        } else {
            0
        }
    }

    /// The rows of the composer on a screen of a height.
    pub open spec fn composing_rows(self, height: u16) -> u16 {
        crate::app::layout::composer_rows(
            feeds(self.composer.editor.text) + 1,
            (height / 2) as u16,
        )
    }

    /// Whether everything has room on a screen.
    pub open spec fn roomy(self, width: u16, height: u16) -> bool {
        let sidebar = crate::app::layout::sidebar_columns(width, self.sidebar_collapsed);
        &&& sidebar + crate::app::layout::gap(width) <= width
        &&& self.header_rows() + self.queue_rows() + self.composing_rows(height) + 2 <= height
    }

    /// The panes of a screen on which everything has room.
    pub open spec fn panes(self, width: u16, height: u16) -> Panes {
        crate::app::layout::roomy_panes(
            width,
            height,
            crate::app::layout::sidebar_columns(width, self.sidebar_collapsed),
            self.header_rows(),
            self.queue_rows(),
            self.composing_rows(height),
        )
    }

    /// What is shown of the left half of the status line: all of it on a wide screen; on a
    /// narrower one the hint, or else its first piece, cut to its width; on a very narrow one
    /// nothing.
    pub open spec fn status_shown(self, left: Seq<PieceView>, width: u16, room: u16) -> Seq<
        PieceView,
    > {
        if width < HINT_WIDTH {
            Seq::empty()
        } else if width < WIDE_WIDTH {
            let piece = match self.hint {
                Some(hint) => PieceView { role: Role::Hint, text: hint },
                None => if left.len() > 0 {
                    left[0]
                } else {
                    PieceView { role: Role::Plain, text: ""@ }
                },
            };
            seq![
                PieceView {
                    role: piece.role,
                    text: crate::render::fit::cut(piece.text, room as nat, 1, "…"@),
                },
            ]
        } else {
            left
        }
    }

    /// Where the terminal's cursor stands: at the caret of the composer, while it has the keys.
    pub open spec fn cursor(self) -> Option<(u16, u16)> {
        if self.focus == Focus::Composer {
            let inner = self.composer_area.content();
            let e = self.composer.editor;
            let start = crate::app::editor::line_start(e.text, e.caret);
            let column = crate::render::width::chars_cols(e.text.subrange(start, e.caret))
                - crate::app::mouse::side_scroll(e, inner.width);
            let bottom = crate::app::mouse::minus(
                crate::app::mouse::plus(inner.y, inner.height as int),
                1,
            );
            Some(
                (
                    crate::app::mouse::plus(inner.x, column),
                    crate::app::layout::smaller(
                        crate::app::mouse::plus(inner.y, feeds(e.text.take(start)) as int),
                        bottom,
                    ),
                ),
            )
        } else {
            None
        }
    }
}

impl App {
    /// What is on a screen of a width.
    pub fn screen(&self, width: u16) -> (r: Screen)
        ensures
            r == screen_of(width, self@.mode),
    {
        if width < TOO_SMALL_WIDTH {
            return Screen::TooSmall;
        }
        match self.mode() {
            Mode::Chat => Screen::Chat,
            Mode::Approval(_) => Screen::Chat,
            _ => Screen::Takeover,
        }
    }

    fn render_rows(&mut self, width: u16, grammars: &Grammars)
        ensures
            final(self)@ == old(self)@.rendered(width, grammars.syntaxes()),
    {
        let id = match self.active_session() {
            Some(id) => id.duplicate(),
            None => return,
        };
        let ctx = RenderContext {
            width,
            theme: &self.theme,
            strings: &self.strings,
            locale: self.locale,
            images: &self.image_cache,
            skill_folds: &self.skill_folds,
            grammars,
        };
        let ghost stage = ctx.stage();
        let _ = self.row_cache.sync(&self.store, &id, &ctx);
        self.row_cache.render_dirty(&self.store, &id, &ctx);
        proof {
            reveal(crate::app::state::app_view);
            reveal(AppView::with_row_cache);
            assert(stage == old(self)@.stage(width, grammars.syntaxes()));
            assert(self@ == old(self)@.rendered(width, grammars.syntaxes()));
        }
    }

    fn follow(&mut self)
        ensures
            final(self)@ == old(self)@.followed(),
    {
        let view = self.viewport();
        if !view.follow {
            return;
        }
        let total = match self.active_session() {
            Some(id) => if self.view_mode() == ViewMode::Trajectory {
                let rows = ledger_rows(self.store(), id);
                proof {
                    assert(rows@.len() == crate::render::trajectory::ledger(
                        self@.store,
                        self@.active_session->0,
                    ).len());
                }
                rows.len()
            } else {
                self.row_cache().line_total()
            },
            None => return,
        };
        let offset = total.saturating_sub(view.viewport_height as usize);
        self.set_view(
            ViewState { offset, follow: view.follow, viewport_height: view.viewport_height },
        );
    }

    fn watch(&mut self)
        ensures
            final(self)@ == old(self)@.watched(),
    {
        if self.session_running() {
            let now = self.clock();
            let since = match self.busy_since() {
                Some(since) => since,
                None => now,
            };
            let tools = match self.active_state() {
                Some(state) => running_of(state.nodes(), self.running_tools(), now),
                None => Vec::new(),
            };
            proof {
                assert(crate::text::views(tools@) =~= (match self@.active_state() {
                    Some(state) => tools_of(state.nodes, self@.running_tools, self@.clock),
                    None => Seq::empty(),
                }));
            }
            self.set_running_tools(tools);
            self.set_busy_since(Some(since));
        } else {
            let tools: Vec<RunningTool> = Vec::new();
            proof {
                assert(crate::text::views(tools@) =~= Seq::<RunningToolView>::empty());
            }
            self.set_running_tools(tools);
            self.set_busy_since(None);
        }
    }

    fn prune(&mut self)
        ensures
            final(self)@ == old(self)@.pruned(),
    {
        let folds = kept_folds(self.skill_folds(), self.row_cache().lines());
        self.set_skill_folds(folds);
    }

    /// Get ready to be drawn in some panes.
    pub fn arrange(&mut self, p: &Panes, width: u16, height: u16, grammars: &Grammars)
        ensures
            final(self)@ == old(self)@.arranged(*p, width, height, grammars.syntaxes()),
    {
        let view = self.viewport();
        let sidebar = sidebar_target(width, height, self.drawer_open(), p.sidebar);
        self.set_sidebar_area(sidebar);
        self.set_chat_area(p.chat);
        self.set_composer_area(p.composer);
        self.set_view(
            ViewState {
                offset: view.offset,
                follow: view.follow,
                viewport_height: p.chat.height.saturating_sub(1),
            },
        );
        self.keep_selection();
        self.render_rows(content_width(p.chat.width), grammars);
        self.follow();
        self.watch();
        self.prune();
    }

    /// Get ready to be drawn on a screen. The panes are told where the chat is shown.
    pub fn prepare_draw(&mut self, width: u16, height: u16, grammars: &Grammars) -> (r: Option<Panes>)
        ensures
            r is Some <==> screen_of(width, old(self)@.mode) == Screen::Chat,
            match r {
                Some(p) => {
                    &&& p.on_screen(width, height)
                    &&& old(self)@.on_screen(width).roomy(width, height) ==> p == old(
                        self,
                    )@.on_screen(width).panes(width, height)
                    &&& final(self)@ == old(self)@.on_screen(width).arranged(
                        p,
                        width,
                        height,
                        grammars.syntaxes(),
                    )
                },
                None => final(self)@ == old(self)@.on_screen(width),
            },
    {
        let screen = self.screen(width);
        self.set_terminal_width(width);
        if screen != Screen::Chat {
            return None;
        }
        let waiting = match self.active_queue() {
            Some(items) => items.len() > 0,
            None => false,
        };
        if !waiting {
            self.set_queue_popup_open(false);
        }
        let queue: u16 = self.queue_strip();
        let header: u16 = if self.active_session().is_some() {
            1
        } else {
            0
        };
        let composer = self.composer_rows(height);
        let sidebar = sidebar_width(width, self.sidebar_collapsed());
        let p = panes(width, height, sidebar, header, queue, composer);
        self.arrange(&p, width, height, grammars);
        Some(p)
    }

    fn queue_strip(&self) -> (r: u16)
        ensures
            r == self@.queue_rows(),
    {
        match self.active_queue() {
            Some(items) => if items.len() > 0 {
                1
            } else {
                0
            },
            None => 0,
        }
    }

    fn composer_rows(&self, height: u16) -> (r: u16)
        ensures
            r == self@.composing_rows(height),
    {
        let text = &self.composer().editor.text;
        let n = count_feeds(text, text.len());
        proof {
            assert(text@.take(text@.len() as int) =~= text@);
        }
        let lines = if n < usize::MAX {
            n + 1
        } else {
            n
        };
        composer_height(lines, height / 2)
    }

    /// The screen was drawn.
    pub fn mark_drawn(&mut self)
        ensures
            final(self)@ == old(self)@.drawn(),
    {
        let now = self.clock();
        let draws = self.draws().wrapping_add(1);
        self.set_last_draw(Some(now));
        self.set_needs_draw(false);
        self.set_draws(draws);
    }

    /// What is shown of the left half of the status line, where it has some columns.
    pub fn shown_status(&self, left: Vec<Piece>, width: u16, room: u16) -> (r: Vec<Piece>)
        ensures
            crate::text::views(r@) == self@.status_shown(crate::text::views(left@), width, room),
    {
        if width >= WIDE_WIDTH {
            return left;
        }
        let mut out: Vec<Piece> = Vec::new();
        proof {
            assert(crate::text::views(out@) =~= Seq::<PieceView>::empty());
        }
        if width < HINT_WIDTH {
            return out;
        }
        let piece = match self.hint() {
            Some(hint) => Piece {
                role: Role::Hint,
                text: truncate_ellipsis(hint.as_str(), room as usize),
            },
            None => if left.len() > 0 {
                proof {
                    assert(crate::text::views(left@)[0] == left@[0]@);
                }
                Piece {
                    role: left[0].role,
                    text: truncate_ellipsis(left[0].text.as_str(), room as usize),
                }
            } else {
                Piece { role: Role::Plain, text: truncate_ellipsis("", room as usize) }
            },
        };
        out.push(piece);
        proof {
            assert(crate::text::views(out@) =~= self@.status_shown(
                crate::text::views(left@),
                width,
                room,
            ));
        }
        out
    }

    /// Where the terminal's cursor stands.
    pub fn cursor_position(&self) -> (r: Option<(u16, u16)>)
        ensures
            r == self@.cursor(),
    {
        if self.focus() != Focus::Composer {
            return None;
        }
        let inner = self.composer_area().inner();
        let editor = &self.composer().editor;
        let caret = if editor.caret <= editor.text.len() {
            editor.caret
        } else {
            editor.text.len()
        };
        let mut start: usize = caret;
        while start > 0 && editor.text[start - 1] != '\n'
            invariant
                start <= caret <= editor.text@.len(),
                crate::app::editor::line_start(editor.text@, start as int)
                    == crate::app::editor::line_start(editor.text@, caret as int),
            decreases start,
        {
            start = start - 1;
        }
        let used = columns_before(&editor.text, start, caret);
        let hidden = scroll_of(editor, inner.width);
        let column = if used >= hidden {
            used - hidden
        } else {
            0
        };
        let x: u16 = if column <= u16::MAX as u128 {
            inner.x.saturating_add(column as u16)
        } else {
            u16::MAX
        };
        let row = count_feeds(&editor.text, start);
        let y: u16 = if row <= u16::MAX as usize {
            inner.y.saturating_add(row as u16)
        } else {
            u16::MAX
        };
        let bottom = inner.y.saturating_add(inner.height).saturating_sub(1);
        Some(
            (
                x,
                if y < bottom {
                    y
                } else {
                    bottom
                },
            ),
        )
    }
}

/// The columns that some pieces take, at least one.
pub open spec fn pieces_width(pieces: Seq<PieceView>) -> nat
    decreases pieces.len(),
{
    if pieces.len() == 0 {
        0
    } else {
        pieces_width(pieces.drop_last()) + crate::app::layout::screen_width(
            crate::render::width::text_columns(pieces.last().text) as nat,
        ) as nat
    }
}

/// The width of the right half of the status line: what it takes, and at least one column.
pub fn right_width(pieces: &Vec<Piece>) -> (r: u16)
    ensures
        r == ({
            let wanted = crate::app::layout::screen_width(
                pieces_width(crate::text::views(pieces@)),
            );
            if wanted == 0 {
                1
            } else {
                wanted
            }
        }),
{
    let ghost all = crate::text::views(pieces@);
    let mut total: u128 = 0;
    let mut i: usize = 0;
    while i < pieces.len()
        invariant
            i <= pieces@.len(),
            all == crate::text::views(pieces@),
            total == pieces_width(all.take(i as int)),
            total <= i * 0xffff,
        decreases pieces.len() - i,
    {
        proof {
            assert(all.take(i + 1).drop_last() =~= all.take(i as int));
            assert(all.take(i + 1).last() == pieces@[i as int]@);
        }
        let columns = columns_of(pieces[i].text.as_str());
        let counted: u16 = if columns <= u16::MAX as usize {
            columns as u16
        } else {
            u16::MAX
        };
        total = total + counted as u128;
        i = i + 1;
    }
    proof {
        assert(all.take(i as int) =~= all);
    }
    if total == 0 {
        1
    } else if total <= u16::MAX as u128 {
        total as u16
    } else {
        u16::MAX
    }
}

/// A chat that is followed shows its last row at the bottom of the screen.
pub proof fn law_follow_shows_end(app: AppView)
    requires
        app.active_session is Some,
        app.view.follow,
    ensures
        ({
            let after = app.followed();
            &&& after.view.follow
            &&& app.shown_total() > app.view.viewport_height ==> after.view.offset
                + after.view.viewport_height == app.shown_total()
            &&& app.shown_total() <= app.view.viewport_height ==> after.view.offset == 0
        }),
{
    reveal(AppView::with_view);
}

/// A tool that goes on running keeps the time that it was first seen at, whenever it is drawn.
pub proof fn law_running_since_kept(
    nodes: Seq<ChatNodeView>,
    watched: Seq<RunningToolView>,
    then: u64,
    now: u64,
    key: Seq<char>,
)
    requires
        exists|i: int| 0 <= i < nodes.len() && (#[trigger] nodes[i]).key == key && runs_tool(nodes[i]),
    ensures
        since_of(tools_of(nodes, watched, then), key, now) == since_of(watched, key, then),
    decreases nodes.len(),
{
    let before = nodes.drop_last();
    let known = tools_of(before, watched, then);
    let all = tools_of(nodes, watched, then);
    let wanted = watched_as(key);
    let i = choose|i: int|
        0 <= i < nodes.len() && (#[trigger] nodes[i]).key == key && runs_tool(nodes[i]);
    crate::seqs::lemma_first_index_holds(known, wanted);
    let at = crate::seqs::first_index(known, wanted);
    if exists|j: int| 0 <= j < before.len() && (#[trigger] before[j]).key == key && runs_tool(before[j]) {
        law_running_since_kept(before, watched, then, now, key);
        lemma_watched(before, watched, then, key);
        assert(at < known.len());
        assert forall|k: int| 0 <= k < at implies !wanted(#[trigger] all[k]) by {
            assert(all[k] == known[k]);
        }
        assert(all[at] == known[at]);
        crate::seqs::lemma_first_index(all, wanted, at);
    } else {
        if i < before.len() {
            assert(before[i] == nodes[i]);
        }
        lemma_unwatched(before, watched, then, key);
        assert forall|k: int| 0 <= k < known.len() implies !wanted(#[trigger] all[k]) by {
            assert(all[k] == known[k]);
        }
        crate::seqs::lemma_first_index(all, wanted, known.len() as int);
    }
}

proof fn lemma_watched(nodes: Seq<ChatNodeView>, watched: Seq<RunningToolView>, now: u64, key: Seq<char>)
    requires
        exists|i: int| 0 <= i < nodes.len() && (#[trigger] nodes[i]).key == key && runs_tool(nodes[i]),
    ensures
        crate::seqs::first_index(tools_of(nodes, watched, now), watched_as(key)) < tools_of(
            nodes,
            watched,
            now,
        ).len(),
    decreases nodes.len(),
{
    let before = nodes.drop_last();
    let all = tools_of(nodes, watched, now);
    let wanted = watched_as(key);
    let i = choose|i: int|
        0 <= i < nodes.len() && (#[trigger] nodes[i]).key == key && runs_tool(nodes[i]);
    crate::seqs::lemma_first_index_holds(all, wanted);
    if i < before.len() {
        assert(before[i] == nodes[i]);
        lemma_watched(before, watched, now, key);
        let known = tools_of(before, watched, now);
        crate::seqs::lemma_first_index_holds(known, wanted);
        let at = crate::seqs::first_index(known, wanted);
        assert(all[at] == known[at]);
        assert(wanted(all[at]));
    } else {
        assert(wanted(all[all.len() - 1]));
    }
}

proof fn lemma_unwatched(nodes: Seq<ChatNodeView>, watched: Seq<RunningToolView>, now: u64, key: Seq<char>)
    requires
        !(exists|i: int|
            0 <= i < nodes.len() && (#[trigger] nodes[i]).key == key && runs_tool(nodes[i])),
    ensures
        forall|k: int|
            0 <= k < tools_of(nodes, watched, now).len() ==> (#[trigger] tools_of(
                nodes,
                watched,
                now,
            )[k]).key != key,
    decreases nodes.len(),
{
    if nodes.len() > 0 {
        let before = nodes.drop_last();
        assert forall|i: int| 0 <= i < before.len() implies !((#[trigger] before[i]).key == key
            && runs_tool(before[i])) by {
            assert(nodes[i] == before[i]);
        }
        lemma_unwatched(before, watched, now, key);
        let known = tools_of(before, watched, now);
        let all = tools_of(nodes, watched, now);
        assert(nodes[nodes.len() - 1] == nodes.last());
        assert forall|k: int| 0 <= k < all.len() implies (#[trigger] all[k]).key != key by {
            if k < known.len() {
                assert(all[k] == known[k]);
            }
        }
    }
}

/// A session without a turn in flight has no running tools and no time that it is busy since.
pub proof fn law_idle_watches_nothing(app: AppView)
    requires
        !app.busy(),
    ensures
        app.watched().running_tools.len() == 0,
        app.watched().busy_since is None,
{
    reveal(AppView::with_running_tools);
    reveal(AppView::with_busy_since);
}

} // verus!
