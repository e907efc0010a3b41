//! The outcomes of requests: prompts, searches, histories, models, settings and attachments.

use vstd::prelude::*;

use crate::app::command::{Command, CommandView};
use crate::app::groups::SidebarState;
use crate::app::settings::{SettingsSection, SettingsSectionView, SettingsState, SettingsStateView};
use crate::app::state::{
    App, AppView, AtCatalog, AtCatalogView, Mode, ModeView, QueueActionKind, SaveKind,
    SidebarSearchState, SidebarSearchStateView,
};
use crate::client::{ClientError, ClientErrorView};
use crate::i18n::Locale;
use crate::json::{Json, JsonView};
use crate::store::HistoryEntry;
use crate::text::{duplicate_all, joined, same, Duplicate};
use crate::theme::ConfigView;
use crate::wire::{
    ModelSelection, ModelSelectionView, MuxFrame, MuxFrameView, RpcErrorKind, SessionEventView,
    SessionId, SessionSearchItem, SessionSearchItemView, SkillEntry, SkillEntryView,
    ToolEventViewView,
};

verus! {

/// What the outcome of a list stands for.
pub open spec fn list_outcome<T: View>(result: Result<Vec<T>, ClientError>) -> Result<
    Seq<T::V>,
    ClientErrorView,
> {
    match result {
        Ok(items) => Ok(crate::text::views(items@)),
        Err(error) => Err(error@),
    }
}

/// What the outcome of a page of history stands for.
pub open spec fn page_outcome(result: Result<Vec<HistoryEntry>, ClientError>) -> Result<
    Seq<(SessionEventView, Option<ToolEventViewView>)>,
    ClientErrorView,
> {
    match result {
        Ok(entries) => Ok(crate::store::entry_views(entries@)),
        Err(error) => Err(error@),
    }
}

/// Whether a write of settings came too late: they had changed meanwhile.
pub open spec fn is_conflict(error: ClientErrorView) -> bool {
    error matches ClientErrorView::Rpc(e) && e.kind == RpcErrorKind::SettingsConflict
}

/// Whether a text is another one.
pub open spec fn other_text(id: Seq<char>) -> spec_fn(Seq<char>) -> bool {
    |t: Seq<char>| t != id
}

fn without_text(list: &Vec<String>, id: &str) -> (r: Vec<String>)
    ensures
        crate::text::views(r@) == crate::text::views(list@).filter(other_text(id@)),
{
    let ghost all = crate::text::views(list@);
    let mut kept: Vec<String> = Vec::new();
    let mut i: usize = 0;
    proof {
        reveal(Seq::filter);
        assert(crate::text::views(kept@) =~= all.take(0).filter(other_text(id@)));
    }
    while i < list.len()
        invariant
            i <= list@.len(),
            all == crate::text::views(list@),
            crate::text::views(kept@) == all.take(i as int).filter(other_text(id@)),
        decreases list.len() - i,
    {
        proof {
            assert(all[i as int] == list@[i as int]@);
            assert(all.take(i + 1).drop_last() =~= all.take(i as int));
            assert(all.take(i + 1).last() == all[i as int]);
            reveal(Seq::filter);
        }
        if !same(list[i].as_str(), id) {
            let text = list[i].clone();
            proof {
                assert(crate::text::views(kept@.push(text)) =~= crate::text::views(kept@).push(
                    text@,
                ));
            }
            kept.push(text);
        }
        i = i + 1;
    }
    proof {
        assert(all.take(i as int) =~= all);
    }
    kept
}

impl SettingsStateView {
    /// The settings as the gateway describes them. What was edited is gone.
    pub open spec fn described(self, sections: Seq<SettingsSectionView>) -> SettingsStateView {
        SettingsStateView {
            sections,
            selected: crate::app::groups::kept(self.selected, sections.len()),
            loading: false,
            ..self
        }
    }
}

impl AppView {
    // -----------------------------------------------------------------------
    // frames
    // -----------------------------------------------------------------------

    /// What went wrong in the store, where anything did.
    pub open spec fn store_told(self, told: Result<(), crate::store::StoreErrorView>) -> AppView {
        match told {
            Ok(_) => self,
            Err(error) => self.with_last_error(Some(crate::store::error_text(error))),
        }
    }

    /// A frame taken into the store.
    pub open spec fn ingested(self, frame: MuxFrameView) -> AppView {
        self.with_store(self.store.after_frame(frame).0).store_told(self.store.after_frame(frame).1)
    }

    // -----------------------------------------------------------------------
    // requests of the active session
    // -----------------------------------------------------------------------

    /// After the outcome of a prompt: only a failure is told.
    pub open spec fn after_prompt(self, failure: Option<ClientErrorView>) -> AppView {
        match failure {
            Some(error) => self.toasted("prompt failed: "@ + crate::client::error_text(error)),
            None => self,
        }
    }

    /// After the outcome of a cancellation.
    pub open spec fn after_cancel(self, failure: Option<ClientErrorView>) -> AppView {
        match failure {
            Some(error) => self.noted_with(
                "toast.cancel_failed"@,
                crate::client::error_text(error),
            ),
            None => self.noted("toast.cancelled"@),
        }
    }

    /// After a page of history: one of a session that is no longer the active one is dropped.
    pub open spec fn after_history(
        self,
        id: Seq<char>,
        result: Result<Seq<(SessionEventView, Option<ToolEventViewView>)>, ClientErrorView>,
    ) -> AppView {
        if self.active_session != Some(id) {
            self
        } else {
            let there = self.with_history_loading(None).unhinted();
            match result {
                Ok(entries) => there.with_store(
                    there.store.after_history(id, entries).0,
                ).store_told(there.store.after_history(id, entries).1),
                Err(error) => there.noted_with(
                    "toast.history_failed"@,
                    crate::client::error_text(error),
                ),
            }
        }
    }

    /// After the models of a session: those of a session that is no longer the active one are
    /// dropped, and a failure changes nothing.
    pub open spec fn after_models(
        self,
        id: Seq<char>,
        result: Result<ModelSelectionView, ClientErrorView>,
    ) -> AppView {
        if self.active_session != Some(id) {
            self
        } else {
            match result {
                Ok(model) => self.with_session_model(Some(model)),
                Err(_) => self,
            }
        }
    }

    /// After the outcome of a change of the queue.
    pub open spec fn after_queue_action(
        self,
        kind: QueueActionKind,
        failure: Option<ClientErrorView>,
    ) -> AppView {
        let free = self.with_queue_action_sending(false);
        match failure {
            Some(error) => free.noted_with(
                "queue.action_failed"@,
                crate::client::error_text(error),
            ),
            None => free.noted(
                match kind {
                    QueueActionKind::Remove => "queue.removed"@,
                    QueueActionKind::Steer => "queue.steered"@,
                    QueueActionKind::Edit => "queue.edited"@,
                },
            ),
        }
    }

    /// After the catalog of skills. A failure leaves what was there.
    pub open spec fn after_catalog(self, result: Result<Seq<SkillEntryView>, ClientErrorView>) -> AppView {
        match result {
            Ok(skills) => self.with_at_catalog(Some(AtCatalogView { skills, loading: false })),
            Err(error) => self.with_at_catalog(
                Some(
                    AtCatalogView {
                        skills: match self.at_catalog {
                            Some(catalog) => catalog.skills,
                            None => Seq::empty(),
                        },
                        loading: false,
                    },
                ),
            ).noted_with("catalog.failed"@, crate::client::error_text(error)),
        }
    }

    // -----------------------------------------------------------------------
    // the search
    // -----------------------------------------------------------------------

    /// After the results of a search. Where the text has changed meanwhile, they are dropped
    /// and the new text is searched for.
    pub open spec fn after_search(
        self,
        query: Seq<char>,
        result: Result<Seq<SessionSearchItemView>, ClientErrorView>,
    ) -> (AppView, Seq<CommandView>) {
        match self.sidebar_search {
            None => (self, crate::app::dispatch::nothing()),
            Some(state) => match result {
                Ok(results) => if state.query.text == query {
                    (
                        self.searching(
                            Some(
                                SidebarSearchStateView {
                                    results,
                                    selected: 0,
                                    sending: false,
                                    ..state
                                },
                            ),
                        ),
                        crate::app::dispatch::nothing(),
                    )
                } else {
                    self.searching(
                        Some(SidebarSearchStateView { sending: false, ..state }),
                    ).search_asked(state.query.text)
                },
                Err(error) => (
                    self.searching(
                        Some(
                            SidebarSearchStateView {
                                results: Seq::empty(),
                                selected: 0,
                                sending: false,
                                ..state
                            },
                        ),
                    ).noted_with("search.failed"@, crate::client::error_text(error)),
                    crate::app::dispatch::nothing(),
                ),
            },
        }
    }

    // -----------------------------------------------------------------------
    // settings
    // -----------------------------------------------------------------------

    /// After a description of the settings. It is dropped where the view is closed.
    pub open spec fn after_describe(
        self,
        result: Result<Seq<SettingsSectionView>, ClientErrorView>,
    ) -> AppView {
        match self.mode {
            ModeView::Settings(state) => match result {
                Ok(sections) => self.in_mode(ModeView::Settings(state.described(sections))),
                Err(error) => self.in_mode(
                    ModeView::Settings(SettingsStateView { loading: false, ..state }),
                ).toasted("settings failed: "@ + crate::client::error_text(error)),
            },
            _ => self,
        }
    }

    /// The language that a namespace of settings tells, where it tells one.
    pub open spec fn told_language(ns: Seq<char>, value: JsonView) -> Option<Seq<char>> {
        if ns == "locale"@ {
            match value.get_str("language"@) {
                Some(language) => if crate::i18n::locale_named(language) is Some {
                    Some(language)
                } else {
                    None
                },
                None => None,
            }
        } else {
            None
        }
    }

    /// In a language that the settings tell, kept in the configuration.
    pub open spec fn in_language(self, language: Seq<char>) -> AppView {
        let spoken = self.in_locale(crate::i18n::locale_named(language)->0);
        spoken.configured(
            ConfigView { locale: Some(language), ..spoken.config },
            SaveKind::Quiet,
        ).invalidated()
    }

    /// After the outcome of a write of settings. One that came too late is followed by a new
    /// description; another failure leaves the view open for another try.
    pub open spec fn after_save(
        self,
        ns: Seq<char>,
        result: Result<JsonView, ClientErrorView>,
    ) -> (AppView, Seq<CommandView>) {
        let quiet = self.unhinted();
        match self.mode {
            ModeView::Settings(state) => match result {
                Ok(value) => (
                    (match Self::told_language(ns, value) {
                        Some(language) => quiet.in_language(language),
                        None => quiet,
                    }).in_mode(ModeView::Chat).noted("toast.saved"@),
                    crate::app::dispatch::nothing(),
                ),
                Err(error) => if is_conflict(error) {
                    quiet.in_mode(
                        ModeView::Settings(
                            SettingsStateView { saving: false, loading: true, ..state },
                        ),
                    ).noted("toast.conflict_refreshed"@).settings_asked()
                } else {
                    (
                        quiet.in_mode(
                            ModeView::Settings(SettingsStateView { saving: false, ..state }),
                        ).noted_with("toast.save_failed"@, crate::client::error_text(error)),
                        crate::app::dispatch::nothing(),
                    )
                },
            },
            _ => (quiet, crate::app::dispatch::nothing()),
        }
    }

    /// After the outcome of a write of the configuration.
    pub open spec fn after_config_save(self, kind: SaveKind, failure: Option<Seq<char>>) -> AppView {
        match failure {
            Some(reason) => if kind == SaveKind::Reported {
                self.noted_with("toast.config_save_failed"@, reason)
            } else {
                self
            },
            None => self,
        }
    }

    // -----------------------------------------------------------------------
    // attachments
    // -----------------------------------------------------------------------

    /// An attachment no longer on its way.
    pub open spec fn attachment_came(self, id: Seq<char>) -> AppView {
        self.with_pending_attachments(self.pending_attachments.filter(other_text(id)))
    }

    /// An attachment that could not be had.
    pub open spec fn attachment_failed(self, reason: Seq<char>) -> AppView {
        self.noted_with("toast.attachment_failed"@, reason)
    }

    /// The bytes of an attachment taken in: its image is kept, or why there is none is told.
    /// Without graphics they are dropped.
    pub open spec fn image_taken(self, id: Seq<char>, bytes: Seq<u8>) -> AppView {
        if self.graphics {
            match crate::render::inline_image::decoded(bytes) {
                Ok(image) => self.with_image_cache(
                    self.image_cache.insert(id, image),
                ).invalidated(),
                Err(reason) => self.attachment_failed(reason),
            }
        } else {
            self
        }
    }

    /// After the outcome of a request for an attachment, whose bytes come in base64.
    pub open spec fn after_attachment(
        self,
        id: Seq<char>,
        result: Result<Seq<char>, ClientErrorView>,
    ) -> AppView {
        let came = self.attachment_came(id);
        match result {
            Ok(data) => match crate::clipboard::base64_bytes(data) {
                Ok(bytes) => came.image_taken(id, bytes),
                Err(reason) => came.attachment_failed(reason),
            },
            Err(error) => came.attachment_failed(crate::client::error_text(error)),
        }
    }
}

impl App {
    /// Take a frame into the store.
    pub fn ingest(&mut self, frame: MuxFrame)
        ensures
            final(self)@ == old(self)@.ingested(frame@),
    {
        let told = self.store.ingest(frame);
        proof {
            reveal(crate::app::state::app_view);
            reveal(AppView::with_store);
            assert(self@ == old(self)@.with_store(old(self)@.store.after_frame(frame@).0));
        }
        self.note_store(told);
    }

    fn note_store(&mut self, told: Result<(), crate::store::StoreError>)
        ensures
            final(self)@ == old(self)@.store_told(crate::store::store_outcome(told)),
    {
        match told {
            Ok(()) => {},
            Err(error) => {
                let text = error.message();
                self.set_last_error(Some(text));
            },
        }
    }

    /// Take in the outcome of a prompt.
    pub fn on_prompt_done(&mut self, failure: Option<ClientError>)
        ensures
            final(self)@ == old(self)@.after_prompt(crate::text::opt_view(failure)),
    {
        match failure {
            Some(error) => {
                let text = joined("prompt failed: ", error.message().as_str());
                self.set_toast(text);
            },
            None => {},
        }
    }

    /// Take in the outcome of a cancellation.
    pub fn on_cancel_done(&mut self, failure: Option<ClientError>)
        ensures
            final(self)@ == old(self)@.after_cancel(crate::text::opt_view(failure)),
    {
        match failure {
            Some(error) => {
                let text = error.message();
                self.toast_with("toast.cancel_failed", text.as_str());
            },
            None => self.toast_key("toast.cancelled"),
        }
    }

    fn append_history(&mut self, id: &SessionId, entries: Vec<HistoryEntry>)
        ensures
            ({
                let there = old(self)@;
                let (store, told) = there.store.after_history(
                    id@,
                    crate::store::entry_views(entries@),
                );
                final(self)@ == there.with_store(store).store_told(told)
            }),
    {
        let told = self.store.ingest_history(id, entries);
        proof {
            reveal(crate::app::state::app_view);
            reveal(AppView::with_store);
            assert(self@ == old(self)@.with_store(
                old(self)@.store.after_history(id@, crate::store::entry_views(entries@)).0,
            ));
        }
        self.note_store(told);
    }

    /// Take in a page of history.
    pub fn on_history_loaded(&mut self, id: &SessionId, result: Result<Vec<HistoryEntry>, ClientError>)
        ensures
            final(self)@ == old(self)@.after_history(id@, page_outcome(result)),
    {
        if !self.is_active(id) {
            return;
        }
        self.set_history_loading(None);
        self.set_hint(None);
        match result {
            Ok(entries) => self.append_history(id, entries),
            Err(error) => {
                let text = error.message();
                self.toast_with("toast.history_failed", text.as_str());
            },
        }
    }

    /// Take in the models of a session.
    pub fn on_models_loaded(&mut self, id: &SessionId, result: Result<ModelSelection, ClientError>)
        ensures
            final(self)@ == old(self)@.after_models(id@, crate::app::host::outcome(result)),
    {
        if !self.is_active(id) {
            return;
        }
        match result {
            Ok(model) => self.set_session_model(Some(model)),
            Err(_) => {},
        }
    }

    /// Take in the outcome of a change of the queue.
    pub fn on_queue_action_done(&mut self, kind: QueueActionKind, failure: Option<ClientError>)
        ensures
            final(self)@ == old(self)@.after_queue_action(kind, crate::text::opt_view(failure)),
    {
        self.set_queue_action_sending(false);
        match failure {
            Some(error) => {
                let text = error.message();
                self.toast_with("queue.action_failed", text.as_str());
            },
            None => {
                let key = match kind {
                    QueueActionKind::Remove => "queue.removed",
                    QueueActionKind::Steer => "queue.steered",
                    QueueActionKind::Edit => "queue.edited",
                };
                self.toast_key(key);
            },
        }
    }

    /// Take in the catalog of skills.
    pub fn on_catalog_loaded(&mut self, result: Result<Vec<SkillEntry>, ClientError>)
        ensures
            final(self)@ == old(self)@.after_catalog(list_outcome(result)),
    {
        match result {
            Ok(skills) => self.set_at_catalog(Some(AtCatalog { skills, loading: false })),
            Err(error) => {
                let text = error.message();
                let skills = match self.at_catalog() {
                    Some(catalog) => duplicate_all(&catalog.skills),
                    None => Vec::new(),
                };
                let catalog = AtCatalog { skills, loading: false };
                proof {
                    assert(catalog@.skills =~= (match self@.at_catalog {
                        Some(catalog) => catalog.skills,
                        None => Seq::empty(),
                    }));
                }
                self.set_at_catalog(Some(catalog));
                self.toast_with("catalog.failed", text.as_str());
            },
        }
    }

    /// Take in the results of a search.
    pub fn on_search_done(
        &mut self,
        query: &str,
        result: Result<Vec<SessionSearchItem>, ClientError>,
    ) -> (r: Vec<Command>)
        ensures
            final(self)@ == old(self)@.after_search(query@, list_outcome(result)).0,
            crate::text::views(r@) == old(self)@.after_search(query@, list_outcome(result)).1,
    {
        let none: Vec<Command> = Vec::new();
        proof {
            assert(crate::text::views(none@) =~= crate::app::dispatch::nothing());
        }
        let mut state: SidebarSearchState = match self.sidebar_search() {
            Some(state) => state.duplicate(),
            None => return none,
        };
        state.sending = false;
        match result {
            Ok(results) => {
                let current = state.query.buffer();
                if same(current.as_str(), query) {
                    state.results = results;
                    state.selected = 0;
                    self.set_sidebar_search(Some(state));
                    none
                } else {
                    self.set_sidebar_search(Some(state));
                    self.search_sessions(current)
                }
            },
            Err(error) => {
                let text = error.message();
                state.results = Vec::new();
                state.selected = 0;
                proof {
                    assert(state@.results =~= Seq::<SessionSearchItemView>::empty());
                }
                self.set_sidebar_search(Some(state));
                self.toast_with("search.failed", text.as_str());
                none
            },
        }
    }

    /// Take in a description of the settings.
    pub fn on_settings_described(&mut self, result: Result<Vec<SettingsSection>, ClientError>)
        ensures
            final(self)@ == old(self)@.after_describe(list_outcome(result)),
    {
        let mut state: SettingsState = match self.mode() {
            Mode::Settings(state) => state.duplicate(),
            _ => return,
        };
        state.loading = false;
        match result {
            Ok(sections) => {
                let mut place = SidebarState { selected: state.selected };
                place.clamp(sections.len());
                state.selected = place.selected;
                state.sections = sections;
                self.set_mode(Mode::Settings(state));
            },
            Err(error) => {
                let text = joined("settings failed: ", error.message().as_str());
                self.set_mode(Mode::Settings(state));
                self.set_toast(text);
            },
        }
    }

    fn speak(&mut self, language: String, locale: Locale)
        requires
            crate::i18n::locale_named(language@) == Some(locale),
        ensures
            final(self)@ == old(self)@.in_language(language@),
    {
        self.set_locale(locale);
        self.configure_locale(language, SaveKind::Quiet);
        self.invalidate();
    }

    /// Take in the outcome of a write of settings: the values of the namespace as they are now.
    pub fn on_settings_saved(&mut self, ns: &str, result: Result<Json, ClientError>) -> (r: Vec<
        Command,
    >)
        ensures
            final(self)@ == old(self)@.after_save(ns@, crate::app::host::outcome(result)).0,
            crate::text::views(r@) == old(self)@.after_save(ns@, crate::app::host::outcome(result)).1,
    {
        let none: Vec<Command> = Vec::new();
        proof {
            assert(crate::text::views(none@) =~= crate::app::dispatch::nothing());
        }
        let open = match self.mode() {
            Mode::Settings(state) => Some(state.duplicate()),
            _ => None,
        };
        self.set_hint(None);
        let mut state: SettingsState = match open {
            Some(state) => state,
            None => return none,
        };
        state.saving = false;
        match result {
            Ok(value) => {
                if same(ns, "locale") {
                    match value.get_str("language") {
                        Some(language) => match Locale::parse(language) {
                            Some(locale) => self.speak(language.to_owned(), locale),
                            None => {},
                        },
                        None => {},
                    }
                }
                self.set_mode(Mode::Chat);
                self.toast_key("toast.saved");
                none
            },
            Err(error) => {
                let conflict = match &error {
                    ClientError::Rpc(e) => e.kind == RpcErrorKind::SettingsConflict,
                    _ => false,
                };
                if conflict {
                    state.loading = true;
                    self.set_mode(Mode::Settings(state));
                    self.toast_key("toast.conflict_refreshed");
                    self.fetch_settings()
                } else {
                    let text = error.message();
                    self.set_mode(Mode::Settings(state));
                    self.toast_with("toast.save_failed", text.as_str());
                    none
                }
            },
        }
    }

    /// Take in the outcome of a write of the configuration.
    pub fn on_config_saved(&mut self, kind: SaveKind, failure: Option<&str>)
        ensures
            final(self)@ == old(self)@.after_config_save(kind, crate::text::opt_view(failure)),
    {
        match failure {
            Some(reason) => {
                if kind == SaveKind::Reported {
                    self.toast_with("toast.config_save_failed", reason);
                }
            },
            None => {},
        }
    }

    fn take_image(&mut self, id: String, bytes: &[u8])
        ensures
            final(self)@ == old(self)@.image_taken(id@, bytes@),
    {
        if !self.graphics() {
            return;
        }
        let kept = self.image_cache.insert(id, bytes);
        match kept {
            Ok(()) => {
                proof {
                    reveal(crate::app::state::app_view);
                    reveal(AppView::with_image_cache);
                    assert(self@ == old(self)@.with_image_cache(
                        old(self)@.image_cache.insert(
                            id@,
                            crate::render::inline_image::decoded(bytes@)->Ok_0,
                        ),
                    ));
                }
                self.invalidate();
            },
            Err(reason) => {
                proof {
                    reveal(crate::app::state::app_view);
                    assert(self@ == old(self)@);
                }
                self.toast_with("toast.attachment_failed", reason.as_str());
            },
        }
    }

    /// Take in the outcome of a request for an attachment.
    pub fn on_attachment_done(&mut self, id: String, result: Result<String, ClientError>)
        ensures
            final(self)@ == old(self)@.after_attachment(id@, crate::app::host::outcome(result)),
    {
        let pending = without_text(self.pending_attachments(), id.as_str());
        self.set_pending_attachments(pending);
        match result {
            Ok(data) => match crate::clipboard::decode(data.as_str()) {
                Ok(bytes) => self.take_image(id, bytes.as_slice()),
                Err(reason) => self.toast_with("toast.attachment_failed", reason.as_str()),
            },
            Err(error) => {
                let text = error.message();
                self.toast_with("toast.attachment_failed", text.as_str());
            },
        }
    }
}

/// A page of history or models of a session that the user has left change nothing.
pub proof fn law_stale_dropped(
    app: AppView,
    id: Seq<char>,
    page: Result<Seq<(SessionEventView, Option<ToolEventViewView>)>, ClientErrorView>,
    models: Result<ModelSelectionView, ClientErrorView>,
)
    requires
        app.active_session != Some(id),
    ensures
        app.after_history(id, page) == app,
        app.after_models(id, models) == app,
{
}

/// The results that are shown are those of the text that stands in the search.
pub proof fn law_latest_search(
    app: AppView,
    query: Seq<char>,
    results: Seq<SessionSearchItemView>,
)
    requires
        app.sidebar_search is Some,
        app.connected,
    ensures
        ({
            let (after, sent) = app.after_search(query, Ok(results));
            let text = app.sidebar_search->0.query.text;
            if text == query {
                &&& after.sidebar_search->0.results == results
                &&& sent.len() == 0
                &&& !after.sidebar_search->0.sending
            } else {
                &&& after.sidebar_search->0.results == app.sidebar_search->0.results
                &&& sent == seq![CommandView::Search { query: text }]
                &&& after.sidebar_search->0.sending
            }
        }),
{
    reveal(AppView::with_sidebar_search);
}

/// A write of settings that came too late keeps the view open, waiting for the values as they
/// are now, which are asked for.
pub proof fn law_conflict_refreshes(app: AppView, ns: Seq<char>, error: ClientErrorView)
    requires
        app.mode is Settings,
        app.connected,
        is_conflict(error),
    ensures
        ({
            let (after, sent) = app.after_save(ns, Err(error));
            &&& after.mode matches ModeView::Settings(state) && state.loading && !state.saving
            &&& sent == seq![CommandView::DescribeSettings]
        }),
{
    reveal(AppView::with_mode);
    reveal(AppView::with_toast);
    reveal(AppView::with_hint);
}

/// An attachment that could not be had, or not be read, is neither on its way nor kept: it is
/// asked for again when it is next wanted.
pub proof fn law_failed_attachment_retried(app: AppView, id: Seq<char>, error: ClientErrorView)
    requires
        !app.image_cache.dom().contains(id),
    ensures
        ({
            let after = app.after_attachment(id, Err(error));
            &&& !after.pending_attachments.contains(id)
            &&& !after.image_cache.dom().contains(id)
        }),
{
    reveal(AppView::with_pending_attachments);
    reveal(AppView::with_toast);
    let left = app.pending_attachments.filter(other_text(id));
    assert forall|i: int| 0 <= i < left.len() implies #[trigger] left[i] != id by {
        app.pending_attachments.lemma_filter_pred(other_text(id), i);
    }
}

} // verus!
