//! The conversation store: per-session state, fed by the frames of the mux downlink.
//!
//! - Events append where their seq is above the last.
//! - Projections apply where their seq is above the one they replace.
//! - `session/subscribed` sets the durable baseline: events and projections beyond it are
//!   dropped, for they will be sent again.
//! - `session/queue` replaces the queue.
//! - The event window is capped: the head is evicted, and history reloads through
//!   [`SessionStore::prepend_events`].

pub mod call_laws;
pub mod chunk_laws;
pub mod event_data;
pub mod fold;
pub mod fold_laws;
pub mod message_laws;
pub mod node;
pub mod parse_laws;
pub mod session;
pub mod shape;
pub mod shape_laws;
pub mod stats;
pub mod stats_laws;
pub mod store_laws;
pub mod stored;
pub mod window_laws;

use vstd::prelude::*;

use crate::store::node::{ChatNodeView, FoldState};
use crate::store::session::{SessionState, SessionView};
use crate::store::stored::StoredEvent;
use crate::table::Table;
use crate::text::{i64_text, joined, same, Duplicate};
use crate::wire::{
    MuxFrame, MuxFrameView, RpcError, RpcErrorView, SessionEvent, SessionEventView, SessionId,
    ToolEventView, ToolEventViewView,
};

verus! {

/// The default cap of a session's event window.
pub const MAX_BUFFERED_EVENTS: usize = 5000;

/// A frame that the store refuses: the payload of a known event type is malformed.
#[derive(Debug, PartialEq, Eq)]
pub enum StoreError {
    InvalidEventData { session_id: SessionId, seq: i64, event_type: String, detail: String },
}

/// A frame that the store refuses.
pub enum StoreErrorView {
    InvalidEventData { session_id: Seq<char>, seq: i64, event_type: Seq<char>, detail: Seq<char> },
}

impl View for StoreError {
    type V = StoreErrorView;

    open spec fn view(&self) -> StoreErrorView {
        match *self {
            StoreError::InvalidEventData { session_id, seq, event_type, detail } => {
                StoreErrorView::InvalidEventData {
                    session_id: session_id@,
                    seq,
                    event_type: event_type@,
                    detail: detail@,
                }
            },
        }
    }
}

/// An error as a line of text.
pub open spec fn error_text(e: StoreErrorView) -> Seq<char> {
    match e {
        StoreErrorView::InvalidEventData { session_id, seq, event_type, detail } => {
            "invalid data on session event "@ + session_id + " seq "@ + crate::text::int_decimal(
                seq as int,
            ) + " of type "@ + event_type + ": "@ + detail
        },
    }
}

impl StoreError {
    /// The error as a line of text.
    pub fn message(&self) -> (r: String)
        ensures
            r@ == error_text(self@),
    {
        match self {
            StoreError::InvalidEventData { session_id, seq, event_type, detail } => {
                let mut text = joined("invalid data on session event ", session_id.0.as_str());
                text.append(" seq ");
                text.append(i64_text(*seq).as_str());
                text.append(" of type ");
                text.append(event_type.as_str());
                text.append(": ");
                text.append(detail.as_str());
                text
            },
        }
    }
}

/// The conversations of all sessions.
#[derive(Debug)]
pub struct SessionStore {
    sessions: Table<SessionState>,
    max_events: usize,
    last_stream_error: Option<String>,
}

/// The conversations of all sessions. `last_stream_error` is the last `stream/error` frame
/// as `code: message`.
pub struct StoreView {
    pub sessions: Map<Seq<char>, SessionView>,
    pub max_events: usize,
    pub last_stream_error: Option<Seq<char>>,
}

impl View for SessionStore {
    type V = StoreView;

    closed spec fn view(&self) -> StoreView {
        StoreView {
            sessions: self.sessions@,
            max_events: self.max_events,
            last_stream_error: crate::text::opt_view(self.last_stream_error),
        }
    }
}

/// The store's window cap is at least one, and so is that of each of its sessions.
pub open spec fn capped(store: StoreView) -> bool {
    &&& store.max_events >= 1
    &&& forall|id: Seq<char>| #[trigger]
        store.sessions.dom().contains(id) ==> store.sessions[id].max_events >= 1
}

impl StoreView {
    /// The state of a session, a fresh one where the store has none.
    pub open spec fn session_or_fresh(self, id: Seq<char>) -> SessionView {
        if self.sessions.dom().contains(id) {
            self.sessions[id]
        } else {
            crate::store::session::fresh_session(id, self.max_events)
        }
    }

    /// The store with the state of a session replaced.
    pub open spec fn with_session(self, id: Seq<char>, state: SessionView) -> StoreView {
        StoreView { sessions: self.sessions.insert(id, state), ..self }
    }

    /// The store after an event frame, or the error where the payload is malformed.
    pub open spec fn after_event(
        self,
        id: Seq<char>,
        event: SessionEventView,
        view: Option<ToolEventViewView>,
    ) -> (StoreView, Result<(), StoreErrorView>) {
        match crate::store::stored::stored_event(event, view) {
            Err(detail) => (
                self,
                Err(
                    StoreErrorView::InvalidEventData {
                        session_id: id,
                        seq: event.seq,
                        event_type: event.kind,
                        detail,
                    },
                ),
            ),
            Ok(stored) => (
                self.with_session(id, self.session_or_fresh(id).with_event(stored).rebuilt()),
                Ok(()),
            ),
        }
    }

    /// The store after a frame.
    pub open spec fn after_frame(self, frame: MuxFrameView) -> (StoreView, Result<
        (),
        StoreErrorView,
    >) {
        match frame {
            MuxFrameView::SessionEvent { session_id, event, view } => self.after_event(
                session_id,
                event,
                view,
            ),
            MuxFrameView::SessionSubscribed { session_id, last_seq } => (
                self.with_session(
                    session_id,
                    self.session_or_fresh(session_id).cut_to(last_seq).rebuilt(),
                ),
                Ok(()),
            ),
            MuxFrameView::SessionProjection { session_id, key, value, seq } => (
                self.with_session(
                    session_id,
                    self.session_or_fresh(session_id).with_projection(key, value, seq),
                ),
                Ok(()),
            ),
            MuxFrameView::SessionQueue { session_id, items } => (
                self.with_session(
                    session_id,
                    self.session_or_fresh(session_id).with_queue(items),
                ),
                Ok(()),
            ),
            MuxFrameView::StreamError { error } => (
                StoreView { last_stream_error: Some(stream_error(error)), ..self },
                Ok(()),
            ),
            _ => (self, Ok(())),
        }
    }
}

/// An entry of a history page: an event with its optional tool view.
pub type HistoryEntry = (SessionEvent, Option<ToolEventView>);

/// The entries of a history page.
pub open spec fn entry_views(entries: Seq<HistoryEntry>) -> Seq<
    (SessionEventView, Option<ToolEventViewView>),
> {
    entries.map_values(|e: HistoryEntry| (e.0@, crate::text::opt_view(e.1)))
}

/// A session after a page of events was appended, up to the first that is malformed.
pub open spec fn absorbed(
    state: SessionView,
    id: Seq<char>,
    entries: Seq<(SessionEventView, Option<ToolEventViewView>)>,
) -> (SessionView, Result<(), StoreErrorView>)
    decreases entries.len(),
{
    if entries.len() == 0 {
        (state, Ok(()))
    } else {
        let (event, view) = entries[0];
        match crate::store::stored::stored_event(event, view) {
            Err(detail) => (
                state,
                Err(
                    StoreErrorView::InvalidEventData {
                        session_id: id,
                        seq: event.seq,
                        event_type: event.kind,
                        detail,
                    },
                ),
            ),
            Ok(stored) => absorbed(state.with_event(stored), id, entries.drop_first()),
        }
    }
}

impl StoreView {
    /// A page of history appended to a session. The nodes are derived anew, unless a malformed
    /// entry ended the page.
    pub open spec fn after_history(
        self,
        id: Seq<char>,
        entries: Seq<(SessionEventView, Option<ToolEventViewView>)>,
    ) -> (StoreView, Result<(), StoreErrorView>) {
        let (state, outcome) = absorbed(self.session_or_fresh(id), id, entries);
        (
            self.with_session(
                id,
                if outcome is Ok {
                    state.rebuilt()
                } else {
                    state
                },
            ),
            outcome,
        )
    }
}

/// An RPC error as a line of text: `code: message`.
pub open spec fn stream_error(error: RpcErrorView) -> Seq<char> {
    crate::wire::rpc_code(error.kind) + ": "@ + error.message
}

/// An RPC error as a line of text.
pub fn stream_error_text(error: &RpcError) -> (r: String)
    ensures
        r@ == stream_error(error@),
{
    let mut text = joined(error.kind.code(), ": ");
    text.append(error.message.as_str());
    text
}

/// The views of the outcome of an operation on the store.
pub open spec fn store_outcome(r: Result<(), StoreError>) -> Result<(), StoreErrorView> {
    match r {
        Ok(()) => Ok(()),
        Err(e) => Err(e@),
    }
}

/// The effective fold state of a node: a choice wins, else the default of the node's kind;
/// an unknown session or node is expanded.
pub open spec fn effective_fold(store: StoreView, id: Seq<char>, key: Seq<char>) -> FoldState {
    if !store.sessions.dom().contains(id) {
        FoldState { collapsed: false }
    } else {
        let state = store.sessions[id];
        if state.folds.dom().contains(key) {
            state.folds[key]
        } else {
            let i = crate::store::fold::node_index(state.nodes, key);
            if i < state.nodes.len() {
                crate::store::node::default_fold(state.nodes[i].data)
            } else {
                FoldState { collapsed: false }
            }
        }
    }
}

impl SessionStore {
    #[verifier::type_invariant]
    spec fn fine(self) -> bool {
        capped(
            StoreView {
                sessions: self.sessions@,
                max_events: self.max_events,
                last_stream_error: crate::text::opt_view(self.last_stream_error),
            },
        )
    }

    /// An empty store with the default window cap.
    pub fn new() -> (r: Self)
        ensures
            r@ == (StoreView {
                sessions: Map::empty(),
                max_events: MAX_BUFFERED_EVENTS,
                last_stream_error: None,
            }),
    {
        Self::with_max_buffered_events(MAX_BUFFERED_EVENTS)
    }

    /// An empty store with a window cap of `max`, but at least one.
    pub fn with_max_buffered_events(max: usize) -> (r: Self)
        ensures
            r@ == (StoreView {
                sessions: Map::empty(),
                max_events: if max >= 1 {
                    max
                } else {
                    1
                },
                last_stream_error: None,
            }),
    {
        SessionStore {
            sessions: Table::new(),
            max_events: if max >= 1 {
                max
            } else {
                1
            },
            last_stream_error: None,
        }
    }

    /// Takes the state of a session out, a fresh one where the store has none.
    fn take_session(&mut self, id: &SessionId) -> (r: SessionState)
        ensures
            r@ == old(self)@.session_or_fresh(id@),
            r@.max_events >= 1,
            final(self)@ == (StoreView {
                sessions: old(self)@.sessions.remove(id@),
                ..old(self)@
            }),
    {
        proof {
            use_type_invariant(&*self);
        }
        let mut sessions: Table<SessionState> = Table::new();
        std::mem::swap(&mut sessions, &mut self.sessions);
        let found = sessions.remove(id.0.as_str());
        self.sessions = sessions;
        match found {
            Some(state) => state,
            None => SessionState::new(id.duplicate(), self.max_events),
        }
    }

    /// Puts the state of a session back.
    fn put_session(&mut self, id: SessionId, state: SessionState)
        requires
            state@.max_events >= 1,
        ensures
            final(self)@ == old(self)@.with_session(id@, state@),
    {
        proof {
            use_type_invariant(&*self);
        }
        let mut sessions: Table<SessionState> = Table::new();
        std::mem::swap(&mut sessions, &mut self.sessions);
        sessions.insert(id.0, state);
        self.sessions = sessions;
    }

    /// Applies one frame of the mux downlink. Only a malformed payload of a known event
    /// type is refused; frames that are not the store's leave it as it is.
    pub fn ingest(&mut self, frame: MuxFrame) -> (r: Result<(), StoreError>)
        ensures
            (final(self)@, store_outcome(r)) == old(self)@.after_frame(frame@),
    {
        match frame {
            MuxFrame::SessionEvent { session_id, event, view } => {
                self.ingest_event(session_id, event, view)
            },
            MuxFrame::SessionSubscribed { session_id, last_seq } => {
                let mut state = self.take_session(&session_id);
                state.truncate_to(last_seq);
                state.rebuild();
                let ghost id = session_id@;
                self.put_session(session_id, state);
                proof {
                    lemma_reinsert(old(self)@.sessions, id, state@);
                }
                Ok(())
            },
            MuxFrame::SessionProjection { session_id, key, value, seq } => {
                let mut state = self.take_session(&session_id);
                state.apply_projection(key, value, seq);
                let ghost id = session_id@;
                self.put_session(session_id, state);
                proof {
                    lemma_reinsert(old(self)@.sessions, id, state@);
                }
                Ok(())
            },
            MuxFrame::SessionQueue { session_id, items } => {
                let mut state = self.take_session(&session_id);
                state.apply_queue(items);
                let ghost id = session_id@;
                self.put_session(session_id, state);
                proof {
                    lemma_reinsert(old(self)@.sessions, id, state@);
                }
                Ok(())
            },
            MuxFrame::StreamError { error } => {
                self.note_stream_error(&error);
                Ok(())
            },
            _ => Ok(()),
        }
    }

    fn note_stream_error(&mut self, error: &RpcError)
        ensures
            final(self)@ == (StoreView {
                last_stream_error: Some(stream_error(error@)),
                ..old(self)@
            }),
    {
        proof {
            use_type_invariant(&*self);
        }
        let text = stream_error_text(error);
        self.last_stream_error = Some(text);
    }

    fn ingest_event(
        &mut self,
        session_id: SessionId,
        event: SessionEvent,
        view: Option<ToolEventView>,
    ) -> (r: Result<(), StoreError>)
        ensures
            (final(self)@, store_outcome(r)) == old(self)@.after_event(
                session_id@,
                event@,
                crate::text::opt_view(view),
            ),
    {
        let seq = event.seq;
        let event_type = event.kind.clone();
        match StoredEvent::try_new(event, view) {
            Err(error) => Err(
                StoreError::InvalidEventData { session_id, seq, event_type, detail: error.0 },
            ),
            Ok(stored) => {
                let mut state = self.take_session(&session_id);
                state.apply_event(stored);
                state.rebuild();
                let ghost id = session_id@;
                self.put_session(session_id, state);
                proof {
                    lemma_reinsert(old(self)@.sessions, id, state@);
                }
                Ok(())
            },
        }
    }

    /// The state of a session.
    pub fn session(&self, session_id: &SessionId) -> (r: Option<&SessionState>)
        ensures
            match r {
                Some(state) => self@.sessions.dom().contains(session_id@)
                    && self@.sessions[session_id@] == state@,
                None => !self@.sessions.dom().contains(session_id@),
            },
    {
        self.sessions.get(session_id.0.as_str())
    }

    /// The last `stream/error` frame, as `code: message`.
    pub fn last_stream_error(&self) -> (r: Option<&String>)
        ensures
            crate::text::opt_view(r) == self@.last_stream_error,
    {
        match &self.last_stream_error {
            Some(text) => Some(text),
            None => None,
        }
    }

    /// Makes sure that a session has a state.
    pub fn open_session(&mut self, session_id: SessionId)
        ensures
            final(self)@ == old(self)@.with_session(
                session_id@,
                old(self)@.session_or_fresh(session_id@),
            ),
    {
        let state = self.take_session(&session_id);
        let ghost id = session_id@;
        self.put_session(session_id, state);
        proof {
            lemma_reinsert(old(self)@.sessions, id, state@);
        }
    }

    /// Appends a page of history. A malformed entry ends the page with an error: what came
    /// before it has been applied, but the nodes are not derived anew.
    pub fn ingest_history(&mut self, session_id: &SessionId, entries: Vec<HistoryEntry>) -> (r:
        Result<(), StoreError>)
        ensures
            final(self)@ == old(self)@.after_history(session_id@, entry_views(entries@)).0,
            store_outcome(r) == old(self)@.after_history(session_id@, entry_views(entries@)).1,
    {
        let mut state = self.take_session(session_id);
        let ghost all = entry_views(entries@);
        let ghost start = state@;
        let ghost id = session_id@;
        proof {
            assert(all.skip(0) =~= all);
        }
        let mut failure: Option<StoreError> = None;
        for entry in iter: entries
            invariant_except_break
                failure is None,
                absorbed(start, id, all) == absorbed(state@, id, all.skip(iter.index())),
            invariant
                entry_views(iter.seq()) == all,
                id == session_id@,
                state@.max_events >= 1,
            ensures
                match failure {
                    None => absorbed(start, id, all) == (state@, Ok::<(), StoreErrorView>(())),
                    Some(e) => absorbed(start, id, all) == (state@, Err::<(), StoreErrorView>(e@)),
                },
        {
            let ghost at = iter.index();
            proof {
                assert(all.skip(at)[0] == all[at]);
                assert(all.skip(at).drop_first() =~= all.skip(at + 1));
            }
            let (event, view) = entry;
            let seq = event.seq;
            let event_type = event.kind.clone();
            match StoredEvent::try_new(event, view) {
                Err(error) => {
                    failure = Some(
                        StoreError::InvalidEventData {
                            session_id: session_id.duplicate(),
                            seq,
                            event_type,
                            detail: error.0,
                        },
                    );
                    break;
                },
                Ok(stored) => {
                    state.apply_event(stored);
                },
            }
        }
        match failure {
            Some(error) => {
                self.put_session(session_id.duplicate(), state);
                proof {
                    lemma_reinsert(old(self)@.sessions, id, state@);
                }
                Err(error)
            },
            None => {
                state.rebuild();
                self.put_session(session_id.duplicate(), state);
                proof {
                    lemma_reinsert(old(self)@.sessions, id, state@);
                }
                Ok(())
            },
        }
    }

    /// The effective fold state of a node.
    pub fn fold_state(&self, session_id: &SessionId, node_key: &str) -> (r: FoldState)
        ensures
            r == effective_fold(self@, session_id@, node_key@),
    {
        let state = match self.sessions.get(session_id.0.as_str()) {
            Some(state) => state,
            None => return FoldState::expanded(),
        };
        match state.fold_choice(node_key) {
            Some(choice) => return choice,
            None => {},
        }
        let nodes = state.nodes();
        let ghost all = state@.nodes;
        let ghost p = |n: ChatNodeView| n.key == node_key@;
        let mut i: usize = 0;
        while i < nodes.len()
            invariant
                i <= nodes.len(),
                all == crate::text::views(nodes@),
                p == (|n: ChatNodeView| n.key == node_key@),
                forall|k: int| 0 <= k < i ==> !p(#[trigger] all[k]),
                self@.sessions.dom().contains(session_id@),
                all == self@.sessions[session_id@].nodes,
                !self@.sessions[session_id@].folds.dom().contains(node_key@),
            decreases nodes.len() - i,
        {
            proof {
                assert(all[i as int] == nodes@[i as int]@);
            }
            if same(nodes[i].key.as_str(), node_key) {
                proof {
                    crate::seqs::lemma_first_index(all, p, i as int);
                }
                return FoldState::default_for(&nodes[i]);
            }
            i = i + 1;
        }
        proof {
            crate::seqs::lemma_first_index(all, p, i as int);
        }
        FoldState::expanded()
    }

    /// Chooses the fold state of a node. A session that the store does not know is left
    /// alone.
    pub fn set_fold(&mut self, session_id: &SessionId, node_key: &str, state: FoldState)
        ensures
            final(self)@ == (if old(self)@.sessions.dom().contains(session_id@) {
                let session = old(self)@.sessions[session_id@];
                old(self)@.with_session(
                    session_id@,
                    SessionView { folds: session.folds.insert(node_key@, state), ..session },
                )
            } else {
                old(self)@
            }),
    {
        if self.sessions.has(session_id.0.as_str()) {
            let mut session = self.take_session(session_id);
            session.choose_fold(node_key, state);
            self.put_session(session_id.duplicate(), session);
            proof {
                lemma_reinsert(old(self)@.sessions, session_id@, session@);
            }
        }
    }

    /// Puts a page of history before the window of a session. A session that the store
    /// does not know is left alone.
    pub fn prepend_events(&mut self, session_id: &SessionId, events: Vec<StoredEvent>)
        ensures
            final(self)@ == (if old(self)@.sessions.dom().contains(session_id@) {
                old(self)@.with_session(
                    session_id@,
                    old(self)@.sessions[session_id@].with_history(
                        crate::text::views(events@),
                    ).rebuilt(),
                )
            } else {
                old(self)@
            }),
    {
        if self.sessions.has(session_id.0.as_str()) {
            let mut session = self.take_session(session_id);
            session.prepend(events);
            session.rebuild();
            self.put_session(session_id.duplicate(), session);
            proof {
                lemma_reinsert(old(self)@.sessions, session_id@, session@);
            }
        }
    }
}

impl Default for SessionStore {
    fn default() -> (r: Self)
        ensures
            r@ == (StoreView {
                sessions: Map::empty(),
                max_events: MAX_BUFFERED_EVENTS,
                last_stream_error: None,
            }),
    {
        Self::new()
    }
}

/// Removing a name before giving it a value changes nothing.
proof fn lemma_reinsert(sessions: Map<Seq<char>, SessionView>, id: Seq<char>, state: SessionView)
    ensures
        sessions.remove(id).insert(id, state) == sessions.insert(id, state),
{
    assert(sessions.remove(id).insert(id, state) =~= sessions.insert(id, state));
}

} // verus!
