//! The main loop's decisions: what an event does, which requests follow, and when the screen is
//! drawn.
//!
//! What the user does is drawn at once, what arrives at most once in [`DRAW_INTERVAL_MS`], and
//! the movement of a mouse not at all.

use vstd::prelude::*;

use crate::app::answer::failure_of;
use crate::app::command::{Command, CommandView};
use crate::app::event::{AppEvent, MouseKind, Receipt};
use crate::app::state::{
    Action, ActionView, AnswerTag, App, AppView, SaveKind, ViewState, DRAW_INTERVAL_MS,
    TOO_SMALL_WIDTH, WIDE_WIDTH,
};
use crate::client::ClientError;
use crate::key::KeyEvent;
use crate::wire::MuxFrameView;

verus! {

/// When the screen is drawn after an event.
#[derive(Debug, Clone, Copy, PartialEq, Eq, Structural)]
pub enum Paint {
    Now,
    WhenDue,
    Skip,
}

/// What follows from an event.
#[derive(Debug)]
pub struct Reaction {
    pub commands: Vec<Command>,
    pub paint: Paint,
}

/// The tier of a width: too small, with a drawer, or with a sidebar.
pub open spec fn tier(width: u16) -> int {
    if width < TOO_SMALL_WIDTH {
        0
    } else if width < WIDE_WIDTH {
        1
    } else {
        2
    }
}

fn drawer_tier(width: u16) -> (r: u8)
    ensures
        r == tier(width),
{
    if width < TOO_SMALL_WIDTH {
        0
    } else if width < WIDE_WIDTH {
        1
    } else {
        2
    }
}

/// Why an answer was not accepted.
pub open spec fn receipt_failure(result: Result<Receipt, ClientError>) -> Option<Seq<char>> {
    match result {
        Ok(receipt) => crate::app::answer::answer_failure(None, receipt.accepted, receipt.reason),
        Err(error) => crate::app::answer::answer_failure(
            Some(crate::client::error_text(error@)),
            false,
            None,
        ),
    }
}

/// Whether an event is the outcome of a change of the list of sessions.
pub open spec fn changes_list(event: AppEvent) -> bool {
    event is RenameDone || event is ForkDone || event is SessionCreateDone || event is ArchiveDone
        || event is WorkspaceCreateDone || event is WorkspaceRenameDone
        || event is WorkspaceDeleteDone
}

/// Some requests, and the screen to be drawn.
pub open spec fn then_draw(after: (AppView, Seq<CommandView>), paint: Paint) -> (
    AppView,
    Seq<CommandView>,
    Paint,
) {
    (after.0.with_needs_draw(true), after.1, paint)
}

/// The screen to be drawn.
pub open spec fn then_shown(after: AppView, paint: Paint) -> (AppView, Seq<CommandView>, Paint) {
    then_draw((after, crate::app::dispatch::nothing()), paint)
}

/// The screen to be drawn, and then the attachments that are wanted asked for.
pub open spec fn then_drained(after: AppView, paint: Paint) -> (AppView, Seq<CommandView>, Paint) {
    let marked = after.with_needs_draw(true);
    (marked.drained().0, marked.drained().1, paint)
}

impl AppView {
    /// At a time.
    pub open spec fn at(self, now: u64) -> AppView {
        self.with_clock(now)
    }

    /// After a key: what it does, and what follows from that. A key that quits is not drawn.
    pub open spec fn key_handled(self, key: KeyEvent) -> (AppView, Seq<CommandView>, Paint) {
        let after = crate::app::keys::left(self.keyed(key), self);
        match crate::app::keys::done(self.keyed(key)) {
            Some(action) => if action is Quit {
                (after.with_running(false), crate::app::dispatch::nothing(), Paint::Skip)
            } else {
                then_draw(after.dispatched(action), Paint::Now)
            },
            None => then_shown(after, Paint::Now),
        }
    }

    /// Of another size. A drawer does not survive a change of the tier, nor do the lists and
    /// editors that only the sidebar has.
    pub open spec fn retiered(self, width: u16) -> AppView {
        if tier(width) == tier(self.terminal_width) {
            self
        } else {
            (if self.drawer_open {
                self.drawer_closed()
            } else {
                self
            }).with_view_options(None).with_workspace_editor(None)
        }
    }

    /// Of another height.
    pub open spec fn of_height(self, height: u16) -> AppView {
        self.with_view(ViewState { viewport_height: height, ..self.view })
    }

    /// After a change of the size: everything is rendered anew.
    pub open spec fn resized(self, width: u16, height: u16) -> (AppView, Seq<CommandView>, Paint) {
        then_shown(self.retiered(width).of_height(height).invalidated(), Paint::Now)
    }

    /// After a frame that wants no answer.
    pub open spec fn told(self, frame: MuxFrameView) -> (AppView, Seq<CommandView>, Paint) {
        then_drained(self.after_resolution(frame).ingested(frame), Paint::WhenDue)
    }

    /// After some time.
    pub open spec fn ticked(self) -> AppView {
        self.toast_expired().flash_expired().spun()
    }

    /// After an event. `stamp` is the time that a row made from it bears.
    pub open spec fn handled(self, event: AppEvent, stamp: u64) -> (
        AppView,
        Seq<CommandView>,
        Paint,
    ) {
        match event {
            AppEvent::Key(key) => self.key_handled(key),
            AppEvent::Mouse(mouse) => if mouse.kind == MouseKind::Moved {
                (self.moused(mouse).0, crate::app::dispatch::nothing(), Paint::Skip)
            } else {
                then_shown(self.moused(mouse).0, Paint::WhenDue)
            },
            AppEvent::Paste(text) => then_shown(self.pasted(text@), Paint::Now),
            AppEvent::Resize(width, height) => self.resized(width, height),
            AppEvent::Tick => (self.ticked(), crate::app::dispatch::nothing(), Paint::WhenDue),
            AppEvent::Frame(frame) => self.told(frame@),
            AppEvent::Answerable { rpc_id, frame } => then_drained(
                self.after_request(rpc_id@, frame@).ingested(frame@),
                Paint::Now,
            ),
            AppEvent::HostFrame(frame) => then_drained(self.hosted(frame@, stamp), Paint::WhenDue),
            AppEvent::HistoryLoaded { session_id, result } => then_drained(
                self.after_history(session_id@, crate::app::outcomes::page_outcome(result)),
                Paint::Now,
            ),
            AppEvent::SessionSearchDone { query, result } => then_draw(
                self.after_search(query@, crate::app::outcomes::list_outcome(result)),
                Paint::Now,
            ),
            AppEvent::SettingsSaveDone { ns, result } => then_draw(
                self.after_save(ns@, crate::app::host::outcome(result)),
                Paint::Now,
            ),
            other => then_shown(
                if changes_list(other) {
                    self.list_settled(other, stamp)
                } else {
                    self.settled(other)
                },
                Paint::Now,
            ),
        }
    }

    /// After the outcome of a change of the list of sessions.
    pub open spec fn list_settled(self, event: AppEvent, stamp: u64) -> AppView {
        match event {
            AppEvent::RenameDone { session_id, result } => self.after_rename(
                session_id@,
                crate::app::host::outcome(result),
            ),
            AppEvent::ForkDone { result } => self.after_fork(crate::app::host::outcome(result)),
            AppEvent::SessionCreateDone { result } => self.after_session_create(
                crate::app::host::outcome(result),
                stamp,
            ),
            AppEvent::ArchiveDone { result } => self.after_archive(
                crate::app::outcomes::list_outcome(result),
            ),
            AppEvent::WorkspaceCreateDone { result } => self.after_workspace_create(
                crate::app::host::outcome(result),
            ),
            AppEvent::WorkspaceRenameDone { result } => self.after_workspace_rename(
                crate::app::host::outcome(result),
            ),
            AppEvent::WorkspaceDeleteDone { workspace_id, failure } => self.after_workspace_delete(
                workspace_id@,
                crate::text::opt_view(failure),
            ),
            _ => self,
        }
    }

    /// After the outcome of another request.
    pub open spec fn settled(self, event: AppEvent) -> AppView {
        match event {
            AppEvent::AnswerDone { tag, result } => self.after_answer(
                tag@,
                receipt_failure(result),
            ),
            AppEvent::PromptDone { failure } => self.after_prompt(crate::text::opt_view(failure)),
            AppEvent::CancelDone { failure } => self.after_cancel(crate::text::opt_view(failure)),
            AppEvent::AttachmentDone { attachment_id, result } => self.after_attachment(
                attachment_id@,
                crate::app::host::outcome(result),
            ),
            AppEvent::ModelsLoaded { session_id, result } => self.after_models(
                session_id@,
                crate::app::host::outcome(result),
            ),
            AppEvent::QueueActionDone { kind, failure } => self.after_queue_action(
                kind,
                crate::text::opt_view(failure),
            ),
            AppEvent::CatalogLoaded { result } => self.after_catalog(
                crate::app::outcomes::list_outcome(result),
            ),
            AppEvent::SettingsDescribeDone { result } => self.after_describe(
                crate::app::outcomes::list_outcome(result),
            ),
            _ => self,
        }
    }

    /// Whether the screen is drawn.
    pub open spec fn due(self, paint: Paint) -> bool {
        match paint {
            Paint::Now => true,
            Paint::WhenDue => self.needs_draw && (match self.last_draw {
                Some(last) => self.aged(last, DRAW_INTERVAL_MS),
                None => true,
            }),
            Paint::Skip => false,
        }
    }
}

fn is_list_change(event: &AppEvent) -> (r: bool)
    ensures
        r == changes_list(*event),
{
    match event {
        AppEvent::RenameDone { .. } => true,
        AppEvent::ForkDone { .. } => true,
        AppEvent::SessionCreateDone { .. } => true,
        AppEvent::ArchiveDone { .. } => true,
        AppEvent::WorkspaceCreateDone { .. } => true,
        AppEvent::WorkspaceRenameDone { .. } => true,
        AppEvent::WorkspaceDeleteDone { .. } => true,
        _ => false,
    }
}

fn no_commands() -> (r: Vec<Command>)
    ensures
        crate::text::views(r@) == crate::app::dispatch::nothing(),
{
    let r: Vec<Command> = Vec::new();
    proof {
        assert(crate::text::views(r@) =~= crate::app::dispatch::nothing());
    }
    r
}

impl App {
    fn on_key(&mut self, key: KeyEvent) -> (r: Reaction)
        ensures
            final(self)@ == old(self)@.key_handled(key).0,
            crate::text::views(r.commands@) == old(self)@.key_handled(key).1,
            r.paint == old(self)@.key_handled(key).2,
    {
        match self.handle_key(key) {
            Some(Action::Quit) => {
                self.set_running(false);
                Reaction { commands: no_commands(), paint: Paint::Skip }
            },
            Some(action) => {
                let commands = self.dispatch(action);
                self.set_needs_draw(true);
                Reaction { commands, paint: Paint::Now }
            },
            None => {
                self.set_needs_draw(true);
                Reaction { commands: no_commands(), paint: Paint::Now }
            },
        }
    }

    fn on_resize(&mut self, width: u16, height: u16)
        ensures
            final(self)@ == old(self)@.retiered(width).of_height(height).invalidated(),
    {
        if drawer_tier(width) != drawer_tier(self.terminal_width()) {
            if self.drawer_open() {
                self.close_drawer();
            }
            self.set_view_options(None);
            self.set_workspace_editor(None);
        }
        let view = self.viewport();
        self.set_view(
            ViewState { offset: view.offset, follow: view.follow, viewport_height: height },
        );
        self.invalidate();
    }

    fn on_answer(&mut self, tag: &AnswerTag, result: Result<Receipt, ClientError>)
        ensures
            final(self)@ == old(self)@.after_answer(tag@, receipt_failure(result)),
    {
        let failure = match result {
            Ok(receipt) => failure_of(None, receipt.accepted, receipt.reason),
            Err(error) => failure_of(Some(error.message()), false, None),
        };
        self.on_answer_done(tag, failure);
    }

    fn shown(&mut self, paint: Paint) -> (r: Reaction)
        ensures
            final(self)@ == old(self)@.with_needs_draw(true),
            crate::text::views(r.commands@) == crate::app::dispatch::nothing(),
            r.paint == paint,
    {
        self.set_needs_draw(true);
        Reaction { commands: no_commands(), paint }
    }

    fn shown_with(&mut self, commands: Vec<Command>) -> (r: Reaction)
        ensures
            final(self)@ == old(self)@.with_needs_draw(true),
            r.commands == commands,
            r.paint == Paint::Now,
    {
        self.set_needs_draw(true);
        Reaction { commands, paint: Paint::Now }
    }

    fn shown_and_drained(&mut self, paint: Paint) -> (r: Reaction)
        ensures
            final(self)@ == then_drained(old(self)@, paint).0,
            crate::text::views(r.commands@) == then_drained(old(self)@, paint).1,
            r.paint == paint,
    {
        self.set_needs_draw(true);
        let commands = self.drain_attachment_needs();
        Reaction { commands, paint }
    }

    /// Take in an event, and tell what follows from it. `now` is the time in milliseconds, and
    /// `stamp` the time that a row made from the event bears.
    pub fn handle_event(&mut self, event: AppEvent, now: u64, stamp: u64) -> (r: Reaction)
        requires
            event is Answerable ==> old(self)@.pending_seq < u64::MAX,
        ensures
            final(self)@ == old(self)@.at(now).handled(event, stamp).0,
            crate::text::views(r.commands@) == old(self)@.at(now).handled(event, stamp).1,
            r.paint == old(self)@.at(now).handled(event, stamp).2,
    {
        proof {
            reveal(AppView::with_clock);
        }
        self.set_clock(now);
        match event {
            AppEvent::Key(key) => self.on_key(key),
            AppEvent::Mouse(mouse) => {
                let moved = mouse.kind == MouseKind::Moved;
                let _ = self.handle_mouse(mouse);
                if moved {
                    Reaction { commands: no_commands(), paint: Paint::Skip }
                } else {
                    self.shown(Paint::WhenDue)
                }
            },
            AppEvent::Paste(text) => {
                self.handle_paste(text.as_str());
                self.shown(Paint::Now)
            },
            AppEvent::Resize(width, height) => {
                self.on_resize(width, height);
                self.shown(Paint::Now)
            },
            AppEvent::Tick => {
                self.tick();
                Reaction { commands: no_commands(), paint: Paint::WhenDue }
            },
            AppEvent::Frame(frame) => {
                self.record_resolved(&frame);
                self.ingest(frame);
                self.shown_and_drained(Paint::WhenDue)
            },
            AppEvent::Answerable { rpc_id, frame } => {
                self.record_answerable(rpc_id, &frame);
                self.ingest(frame);
                self.shown_and_drained(Paint::Now)
            },
            AppEvent::HostFrame(frame) => {
                self.handle_host_frame(frame, stamp);
                self.shown_and_drained(Paint::WhenDue)
            },
            AppEvent::HistoryLoaded { session_id, result } => {
                self.on_history_loaded(&session_id, result);
                self.shown_and_drained(Paint::Now)
            },
            AppEvent::SessionSearchDone { query, result } => {
                let commands = self.on_search_done(query.as_str(), result);
                self.shown_with(commands)
            },
            AppEvent::SettingsSaveDone { ns, result } => {
                let commands = self.on_settings_saved(ns.as_str(), result);
                self.shown_with(commands)
            },
            other => {
                if is_list_change(&other) {
                    self.settle_list(other, stamp);
                } else {
                    self.settle(other);
                }
                self.shown(Paint::Now)
            },
        }
    }

    #[verifier::spinoff_prover]
    fn settle_list(&mut self, event: AppEvent, stamp: u64)
        ensures
            final(self)@ == old(self)@.list_settled(event, stamp),
    {
        match event {
            AppEvent::RenameDone { session_id, result } => self.on_rename_done(&session_id, result),
            AppEvent::ForkDone { result } => self.on_fork_done(result),
            AppEvent::SessionCreateDone { result } => self.on_session_create_done(result, stamp),
            AppEvent::ArchiveDone { result } => self.on_archive_done(result),
            AppEvent::WorkspaceCreateDone { result } => self.on_workspace_create_done(result),
            AppEvent::WorkspaceRenameDone { result } => self.on_workspace_rename_done(result),
            AppEvent::WorkspaceDeleteDone { workspace_id, failure } => self.on_workspace_delete_done(
                &workspace_id,
                failure,
            ),
            _ => {},
        }
    }

    #[verifier::spinoff_prover]
    fn settle(&mut self, event: AppEvent)
        ensures
            final(self)@ == old(self)@.settled(event),
    {
        match event {
            AppEvent::AnswerDone { tag, result } => self.on_answer(&tag, result),
            AppEvent::PromptDone { failure } => self.on_prompt_done(failure),
            AppEvent::CancelDone { failure } => self.on_cancel_done(failure),
            AppEvent::AttachmentDone { attachment_id, result } => self.on_attachment_done(
                attachment_id,
                result,
            ),
            AppEvent::ModelsLoaded { session_id, result } => self.on_models_loaded(
                &session_id,
                result,
            ),
            AppEvent::QueueActionDone { kind, failure } => self.on_queue_action_done(kind, failure),
            AppEvent::CatalogLoaded { result } => self.on_catalog_loaded(result),
            AppEvent::SettingsDescribeDone { result } => self.on_settings_described(result),
            _ => {},
        }
    }

    /// Let some time pass.
    pub fn tick(&mut self)
        ensures
            final(self)@ == old(self)@.ticked(),
    {
        self.expire_toast();
        self.expire_copied_flash();
        self.advance_spinner();
    }

    /// Whether the screen is drawn now.
    pub fn draw_due(&self, paint: Paint) -> (r: bool)
        ensures
            r == self@.due(paint),
    {
        match paint {
            Paint::Now => true,
            Paint::WhenDue => self.needs_draw() && (match self.last_draw() {
                Some(last) => self.clock() >= last && self.clock() - last >= DRAW_INTERVAL_MS,
                None => true,
            }),
            Paint::Skip => false,
        }
    }

    /// Hand out that the configuration is to be written, once.
    pub fn take_save(&mut self) -> (r: Option<SaveKind>)
        ensures
            r == old(self)@.pending_save,
            final(self)@ == old(self)@.with_pending_save(None),
    {
        let save = self.pending_save();
        self.set_pending_save(None);
        save
    }
}

/// The movement of a mouse draws nothing and asks for nothing.
pub proof fn law_moves_are_free(app: AppView, event: AppEvent, stamp: u64)
    requires
        event matches AppEvent::Mouse(mouse) && mouse.kind == MouseKind::Moved,
    ensures
        app.handled(event, stamp) == (app, crate::app::dispatch::nothing(), Paint::Skip),
{
}

/// What arrives is drawn at most once in [`DRAW_INTERVAL_MS`].
pub proof fn law_draws_apart(app: AppView, last: u64)
    requires
        app.last_draw == Some(last),
        app.clock - last < DRAW_INTERVAL_MS,
    ensures
        !app.due(Paint::WhenDue),
{
}

/// What the user typed is drawn at once, unless it quits.
pub proof fn law_keys_drawn(app: AppView, key: KeyEvent)
    ensures
        ({
            let (after, commands, paint) = app.key_handled(key);
            if crate::app::keys::done(app.keyed(key)) == Some(ActionView::Quit) {
                !after.running && commands.len() == 0 && paint == Paint::Skip
            } else {
                paint == Paint::Now && after.needs_draw
            }
        }),
{
    reveal(AppView::with_running);
    reveal(AppView::with_needs_draw);
}

/// Time that passes while nothing is busy, and no note runs out, draws nothing.
pub proof fn law_idle_is_quiet(app: AppView)
    requires
        !app.needs_draw,
        !app.busy(),
        app.toast is None,
        app.copied_flash is None,
    ensures
        !app.ticked().due(Paint::WhenDue),
{
    reveal(AppView::with_spinner_frame);
    reveal(AppView::with_needs_draw);
}

proof fn lemma_retiered(app: AppView, width: u16)
    ensures
        app.retiered(width).drawer_open == (app.drawer_open && tier(width) == tier(
            app.terminal_width,
        )),
{
    reveal(AppView::with_drawer_open);
    reveal(AppView::with_focus);
    reveal(AppView::with_hint);
    reveal(AppView::with_drawer_prior_hint);
    reveal(AppView::with_view_options);
    reveal(AppView::with_workspace_editor);
}

proof fn lemma_of_height(app: AppView, height: u16)
    ensures
        app.of_height(height).invalidated().with_needs_draw(true).drawer_open == app.drawer_open,
{
    reveal(AppView::with_view);
    reveal(AppView::with_row_cache);
    reveal(AppView::with_needs_draw);
}

/// A drawer stays open over a change of the size within a tier, and over no other.
pub proof fn law_drawer_over_resize(app: AppView, width: u16, height: u16)
    ensures
        app.resized(width, height).0.drawer_open == (app.drawer_open
            && tier(width) == tier(app.terminal_width)),
{
    lemma_retiered(app, width);
    lemma_of_height(app.retiered(width), height);
}

proof fn lemma_ingested(app: AppView, frame: MuxFrameView)
    ensures
        app.ingested(frame).store == app.store.after_frame(frame).0,
{
    reveal(AppView::with_store);
    reveal(AppView::with_last_error);
}

proof fn lemma_drained(app: AppView, paint: Paint)
    ensures
        then_drained(app, paint).0.store == app.store,
{
    reveal(AppView::with_needs_draw);
    reveal(AppView::with_pending_attachments);
}

/// A frame reaches the store whole: after it, the store is what the frame makes of it.
pub proof fn law_frames_reach_store(app: AppView, frame: MuxFrameView)
    ensures
        app.told(frame).0.store == app.after_resolution(frame).store.after_frame(frame).0,
{
    lemma_ingested(app.after_resolution(frame), frame);
    lemma_drained(app.after_resolution(frame).ingested(frame), Paint::WhenDue);
}

} // verus!
