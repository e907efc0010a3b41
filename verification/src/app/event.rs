//! Terminal input on its way to the application.

use vstd::prelude::*;

use crate::app::answer::ReceiptReason;
use crate::app::host::{CreatedSession, CreatedWorkspace, Renamed};
use crate::app::settings::SettingsSection;
use crate::app::state::{AnswerTag, QueueActionKind};
use crate::client::ClientError;
use crate::json::Json;
use crate::key::{KeyCode, KeyEvent};
use crate::store::HistoryEntry;
use crate::theme::detect::parse_osc11_response;
use crate::wire::{
    HostFrame, ModelSelection, MuxFrame, RpcId, SessionId, SessionSearchItem, SkillEntry,
    WorkspaceId, WorkspaceView,
};

verus! {

/// What a mouse did.
#[derive(Debug, Clone, Copy, PartialEq, Eq, Structural)]
pub enum MouseKind {
    Down,
    Drag,
    Up,
    ScrollUp,
    ScrollDown,
    Moved,
    Other,
}

/// A mouse event, with the cell it happened at.
#[derive(Debug, Clone, Copy, PartialEq, Eq, Structural)]
pub struct MouseEvent {
    pub kind: MouseKind,
    pub column: u16,
    pub row: u16,
}

/// One event of the terminal.
#[derive(Debug, PartialEq)]
pub enum InputEvent {
    Key(KeyEvent),
    Mouse(MouseEvent),
    Paste(String),
    Resize(u16, u16),
}

/// What a gateway says of an answer.
#[derive(Debug)]
pub struct Receipt {
    pub accepted: bool,
    pub reason: Option<ReceiptReason>,
}

/// One event of the application. Where a request can fail and tells nothing else, `failure` is
/// why it did.
#[derive(Debug)]
pub enum AppEvent {
    Key(KeyEvent),
    Mouse(MouseEvent),
    Paste(String),
    Resize(u16, u16),
    /// Some time has passed.
    Tick,
    Frame(MuxFrame),
    /// A frame whose answer has to echo the id of its envelope.
    Answerable { rpc_id: RpcId, frame: MuxFrame },
    HostFrame(HostFrame),
    AnswerDone { tag: AnswerTag, result: Result<Receipt, ClientError> },
    PromptDone { failure: Option<ClientError> },
    CancelDone { failure: Option<ClientError> },
    /// The bytes of an attachment, in base64.
    AttachmentDone { attachment_id: String, result: Result<String, ClientError> },
    HistoryLoaded { session_id: SessionId, result: Result<Vec<HistoryEntry>, ClientError> },
    ModelsLoaded { session_id: SessionId, result: Result<ModelSelection, ClientError> },
    QueueActionDone { kind: QueueActionKind, failure: Option<ClientError> },
    RenameDone { session_id: SessionId, result: Result<Renamed, ClientError> },
    ForkDone { result: Result<SessionId, ClientError> },
    SessionCreateDone { result: Result<CreatedSession, ClientError> },
    /// All archived sessions.
    ArchiveDone { result: Result<Vec<SessionId>, ClientError> },
    WorkspaceCreateDone { result: Result<CreatedWorkspace, ClientError> },
    WorkspaceRenameDone { result: Result<WorkspaceView, ClientError> },
    WorkspaceDeleteDone { workspace_id: WorkspaceId, failure: Option<ClientError> },
    /// The sessions that match a text, which is told again.
    SessionSearchDone { query: String, result: Result<Vec<SessionSearchItem>, ClientError> },
    CatalogLoaded { result: Result<Vec<SkillEntry>, ClientError> },
    SettingsDescribeDone { result: Result<Vec<SettingsSection>, ClientError> },
    /// The values of a namespace after a write.
    SettingsSaveDone { ns: String, result: Result<Json, ClientError> },
}

/// The event of the application that an event of the terminal is.
pub open spec fn app_event(event: InputEvent) -> AppEvent {
    match event {
        InputEvent::Key(key) => AppEvent::Key(key),
        InputEvent::Mouse(mouse) => AppEvent::Mouse(mouse),
        InputEvent::Paste(text) => AppEvent::Paste(text),
        InputEvent::Resize(width, height) => AppEvent::Resize(width, height),
    }
}

/// The event of the application that an event of the terminal is.
pub fn of_terminal(event: InputEvent) -> (r: AppEvent)
    ensures
        r == app_event(event),
{
    match event {
        InputEvent::Key(key) => AppEvent::Key(key),
        InputEvent::Mouse(mouse) => AppEvent::Mouse(mouse),
        InputEvent::Paste(text) => AppEvent::Paste(text),
        InputEvent::Resize(width, height) => AppEvent::Resize(width, height),
    }
}

/// The event of the application that a frame is: one that has to be answered keeps the id of
/// its envelope.
pub fn of_frame(rpc_id: RpcId, frame: MuxFrame) -> (r: AppEvent)
    ensures
        r == (if frame is ApprovalRequested || frame is QuestionRequested {
            AppEvent::Answerable { rpc_id, frame }
        } else {
            AppEvent::Frame(frame)
        }),
{
    if is_answerable(&frame) {
        AppEvent::Answerable { rpc_id, frame }
    } else {
        AppEvent::Frame(frame)
    }
}

/// Whether the answer to a frame must echo the id of its envelope: only a request for an
/// approval or an answer wants one.
pub fn is_answerable(frame: &MuxFrame) -> (r: bool)
    ensures
        r == (frame is ApprovalRequested || frame is QuestionRequested),
{
    match frame {
        MuxFrame::ApprovalRequested { .. } => true,
        MuxFrame::QuestionRequested { .. } => true,
        _ => false,
    }
}

/// The longest body that a reply may have.
pub const MAX_OSC11_PAYLOAD: usize = 32;

/// Swallows a terminal's reply to the background query where it leaks into the keys.
///
/// A terminal that answers late leaves `ESC ] 11 ; rgb:RRRR/GGGG/BBBB ESC \` in the input,
/// which arrives as keys: Alt+`]`, the body as plain characters, then Alt+`\` (or Ctrl+G
/// for a BEL). The filter collects such a run; one that is a reply is dropped, and
/// anything else comes out again untouched.
#[derive(Debug)]
pub struct OscReplyFilter {
    buffered: Vec<InputEvent>,
    body: Vec<char>,
}

/// The state of the filter: the run since the leading Alt+`]`, and the characters of its body.
pub struct FilterView {
    pub buffered: Seq<InputEvent>,
    pub body: Seq<char>,
}

impl View for OscReplyFilter {
    type V = FilterView;

    closed spec fn view(&self) -> FilterView {
        FilterView { buffered: self.buffered@, body: self.body@ }
    }
}

/// The key that opens a run: `ESC ]` arrives as Alt+`]`.
pub open spec fn opens_reply(key: KeyEvent) -> bool {
    key.code == KeyCode::Char(']') && key.alt
}

/// The key that closes a run: `ESC \` arrives as Alt+`\`, a BEL as Ctrl+G.
pub open spec fn closes_reply(key: KeyEvent) -> bool {
    key.code == KeyCode::Char('\\') && key.alt || key.code == KeyCode::Char('g') && key.control
}

/// A key that may stand in the body: a character without alt or control.
pub open spec fn body_key(key: KeyEvent) -> bool {
    key.code is Char && !key.alt && !key.control
}

/// Whether a text is ASCII, as every reply is.
pub open spec fn is_ascii(text: Seq<char>) -> bool {
    forall|i: int| 0 <= i < text.len() ==> (#[trigger] text[i] as u32) < 0x80
}

/// The bytes of the reply that an ASCII body makes: `ESC ]`, the body, `ESC \`.
pub open spec fn reply_bytes(body: Seq<char>) -> Seq<u8> {
    seq![0x1bu8, 0x5du8] + Seq::new(body.len(), |i: int| body[i] as u8) + seq![0x1bu8, 0x5cu8]
}

/// Whether a body is that of a reply.
pub open spec fn is_reply_body(body: Seq<char>) -> bool {
    is_ascii(body) && crate::theme::detect::osc11_color(reply_bytes(body)) is Some
}

/// The filter that holds nothing.
pub open spec fn idle() -> FilterView {
    FilterView { buffered: Seq::empty(), body: Seq::empty() }
}

/// The filter after an event, and the events that come out.
pub open spec fn filter_step(f: FilterView, event: InputEvent) -> (FilterView, Seq<InputEvent>) {
    match event {
        InputEvent::Key(key) => if f.buffered.len() == 0 {
            if opens_reply(key) {
                (FilterView { buffered: seq![event], body: f.body }, Seq::empty())
            } else {
                (f, seq![event])
            }
        } else if closes_reply(key) {
            if is_reply_body(f.body) {
                (idle(), Seq::empty())
            } else {
                (idle(), f.buffered.push(event))
            }
        } else if body_key(key) && f.body.len() < MAX_OSC11_PAYLOAD {
            (
                FilterView {
                    buffered: f.buffered.push(event),
                    body: f.body.push(key.code->Char_0),
                },
                Seq::empty(),
            )
        } else {
            (idle(), f.buffered.push(event))
        },
        _ => (idle(), f.buffered.push(event)),
    }
}

impl OscReplyFilter {
    /// The filter that holds nothing.
    pub fn new() -> (r: Self)
        ensures
            r@ == idle(),
    {
        OscReplyFilter { buffered: Vec::new(), body: Vec::new() }
    }

    /// Takes one event and gives those to pass on: mostly the event itself, none while a
    /// run is collected or when it was a reply, and the whole run with the event when it
    /// turns out to be ordinary input.
    pub fn filter(&mut self, event: InputEvent) -> (r: Vec<InputEvent>)
        ensures
            (final(self)@, r@) == filter_step(old(self)@, event),
    {
        let key = match &event {
            InputEvent::Key(key) => *key,
            _ => return self.replay(event),
        };
        if self.buffered.len() == 0 {
            let mut out: Vec<InputEvent> = Vec::new();
            if is_osc11_start(&key) {
                self.buffered.push(event);
                proof {
                    assert(self.buffered@ =~= seq![event]);
                }
            } else {
                out.push(event);
                proof {
                    assert(out@ =~= seq![event]);
                }
            }
            return out;
        }
        if is_osc11_end(&key) {
            if is_reply(&self.body) {
                self.buffered = Vec::new();
                self.body = Vec::new();
                return Vec::new();
            }
            return self.replay(event);
        }
        if is_osc11_payload(&key) && self.body.len() < MAX_OSC11_PAYLOAD {
            match key.code {
                KeyCode::Char(c) => {
                    self.body.push(c);
                },
                _ => {},
            }
            self.buffered.push(event);
            return Vec::new();
        }
        self.replay(event)
    }

    /// Gives the collected run and `event`, and holds nothing any more.
    fn replay(&mut self, event: InputEvent) -> (r: Vec<InputEvent>)
        ensures
            final(self)@ == idle(),
            r@ == old(self)@.buffered.push(event),
    {
        let mut out: Vec<InputEvent> = Vec::new();
        std::mem::swap(&mut out, &mut self.buffered);
        self.body = Vec::new();
        out.push(event);
        out
    }
}

fn is_reply(body: &Vec<char>) -> (r: bool)
    ensures
        r == is_reply_body(body@),
{
    let mut reply: Vec<u8> = Vec::new();
    reply.push(0x1b);
    reply.push(0x5d);
    let mut i: usize = 0;
    proof {
        assert(reply@ =~= seq![0x1bu8, 0x5du8] + Seq::new(0, |k: int| body@[k] as u8));
    }
    while i < body.len()
        invariant
            i <= body.len(),
            is_ascii(body@.take(i as int)),
            reply@ == seq![0x1bu8, 0x5du8] + Seq::new(i as nat, |k: int| body@[k] as u8),
        decreases body.len() - i,
    {
        let c = body[i];
        if (c as u32) >= 0x80 {
            proof {
                assert(!is_ascii(body@)) by {
                    assert(body@[i as int] == c);
                }
            }
            return false;
        }
        reply.push(c as u8);
        i = i + 1;
        proof {
            assert(is_ascii(body@.take(i as int))) by {
                assert forall|k: int| 0 <= k < i implies (#[trigger] body@.take(
                    i as int,
                )[k] as u32) < 0x80 by {
                    if k < i - 1 {
                        assert(body@.take(i - 1)[k] == body@[k]);
                    }
                }
            }
            assert(reply@ =~= seq![0x1bu8, 0x5du8] + Seq::new(i as nat, |k: int| body@[k] as u8));
        }
    }
    reply.push(0x1b);
    reply.push(0x5c);
    proof {
        assert(body@.take(i as int) =~= body@);
        assert(reply@ =~= reply_bytes(body@));
    }
    parse_osc11_response(reply.as_slice()).is_some()
}

fn is_osc11_start(key: &KeyEvent) -> (r: bool)
    ensures
        r == opens_reply(*key),
{
    match key.code {
        KeyCode::Char(c) => c == ']' && key.alt,
        _ => false,
    }
}

fn is_osc11_end(key: &KeyEvent) -> (r: bool)
    ensures
        r == closes_reply(*key),
{
    match key.code {
        KeyCode::Char(c) => (c == '\\' && key.alt) || (c == 'g' && key.control),
        _ => false,
    }
}

fn is_osc11_payload(key: &KeyEvent) -> (r: bool)
    ensures
        r == body_key(*key),
{
    match key.code {
        KeyCode::Char(_) => !key.alt && !key.control,
        _ => false,
    }
}

/// The filter after a run of events, and all that came out.
pub open spec fn filter_run(f: FilterView, events: Seq<InputEvent>) -> (FilterView, Seq<InputEvent>)
    decreases events.len(),
{
    if events.len() == 0 {
        (f, Seq::empty())
    } else {
        let (before, out) = filter_run(f, events.drop_last());
        let (after, more) = filter_step(before, events.last());
        (after, out + more)
    }
}

/// No input is lost: after every event, what came out and what the filter still holds is
/// what it held and the event, in order; the one exception is a run that ends in a closing
/// key and whose body is that of a reply, which is dropped whole.
pub proof fn law_nothing_lost(f: FilterView, event: InputEvent)
    ensures
        ({
            let (after, out) = filter_step(f, event);
            ||| out + after.buffered == f.buffered.push(event)
            ||| {
                &&& out.len() == 0
                &&& after == idle()
                &&& f.buffered.len() > 0
                &&& event matches InputEvent::Key(key) && closes_reply(key)
                &&& is_reply_body(f.body)
            }
        }),
{
    let (after, out) = filter_step(f, event);
    if out.len() == 0 {
        assert(out + after.buffered =~= after.buffered);
        if f.buffered.len() == 0 {
            assert(seq![event] =~= f.buffered.push(event));
        }
    } else {
        assert(out + after.buffered =~= out || f.buffered.len() == 0);
        if f.buffered.len() == 0 {
            assert(seq![event] + f.buffered =~= f.buffered.push(event));
        }
    }
}

/// The character of a key that may stand in the body.
pub open spec fn body_char(event: InputEvent) -> Option<char> {
    match event {
        InputEvent::Key(key) => if body_key(key) {
            Some(key.code->Char_0)
        } else {
            None
        },
        _ => None,
    }
}

/// The state that every run of the filter keeps: the run it holds begins with an opening
/// key, and its body is that of the keys behind it, at most [`MAX_OSC11_PAYLOAD`] long.
pub open spec fn filter_fine(f: FilterView) -> bool {
    &&& f.body.len() <= MAX_OSC11_PAYLOAD
    &&& f.buffered.len() == 0 ==> f.body.len() == 0
    &&& f.buffered.len() > 0 ==> {
        &&& f.buffered.len() == f.body.len() + 1
        &&& f.buffered[0] matches InputEvent::Key(key) && opens_reply(key)
        &&& forall|i: int|
            0 <= i < f.body.len() ==> body_char(f.buffered[i + 1]) == Some(#[trigger] f.body[i])
    }
}

/// Every event keeps the filter fine.
pub proof fn law_filter_keeps(f: FilterView, event: InputEvent)
    requires
        filter_fine(f),
    ensures
        filter_fine(filter_step(f, event).0),
{
    let after = filter_step(f, event).0;
    if f.buffered.len() == 0 && after.buffered.len() > 0 {
        assert(after.buffered =~= seq![event]);
        assert(after.buffered[0] == event);
        assert(filter_fine(after));
    }
    if after.buffered.len() > 0 && f.buffered.len() > 0 && after.buffered.len()
        > f.buffered.len() {
        assert(after.buffered[0] == f.buffered[0]);
        assert(after.body.len() == f.body.len() + 1);
        assert forall|i: int| 0 <= i < after.body.len() implies body_char(after.buffered[i + 1])
            == Some(#[trigger] after.body[i]) by {
            if i < f.body.len() {
                assert(after.buffered[i + 1] == f.buffered[i + 1]);
                assert(f.body[i] == after.body[i]);
            }
        }
        assert(filter_fine(after));
    }
}

/// Whether some events are a reply: an opening key, a body of at most [`MAX_OSC11_PAYLOAD`]
/// characters that is that of a reply, and a closing key.
pub open spec fn is_reply_run(events: Seq<InputEvent>, body: Seq<char>) -> bool {
    &&& body.len() <= MAX_OSC11_PAYLOAD
    &&& events.len() == body.len() + 2
    &&& events[0] matches InputEvent::Key(key) && opens_reply(key)
    &&& events.last() matches InputEvent::Key(key) && closes_reply(key)
    &&& forall|i: int|
        0 <= i < body.len() ==> body_char(events[i + 1]) == Some(#[trigger] body[i])
    &&& is_reply_body(body)
}

/// Whether some events are left when nothing but whole replies is taken out of others.
pub open spec fn left_of(events: Seq<InputEvent>, out: Seq<InputEvent>) -> bool
    decreases events.len(),
{
    if events.len() == 0 {
        out.len() == 0
    } else {
        ||| out.len() > 0 && out.last() == events.last() && left_of(
            events.drop_last(),
            out.drop_last(),
        )
        ||| exists|k: int, body: Seq<char>|
            0 <= k < events.len() && #[trigger] is_reply_run(events.skip(k), body) && left_of(
                events.take(k),
                out,
            )
    }
}

proof fn lemma_left_of_more(events: Seq<InputEvent>, out: Seq<InputEvent>, more: Seq<InputEvent>)
    requires
        left_of(events, out),
    ensures
        left_of(events + more, out + more),
    decreases more.len(),
{
    if more.len() == 0 {
        assert(events + more =~= events);
        assert(out + more =~= out);
    } else {
        lemma_left_of_more(events, out, more.drop_last());
        assert((events + more).drop_last() =~= events + more.drop_last());
        assert((out + more).drop_last() =~= out + more.drop_last());
    }
}

proof fn lemma_run_held(events: Seq<InputEvent>)
    ensures
        ({
            let (f, out) = filter_run(idle(), events);
            &&& filter_fine(f)
            &&& f.buffered.len() <= events.len()
            &&& f.buffered == events.skip(events.len() - f.buffered.len())
            &&& left_of(events.take(events.len() - f.buffered.len()), out)
        }),
    decreases events.len(),
{
    let (f, out) = filter_run(idle(), events);
    if events.len() == 0 {
        assert(f.buffered =~= events.skip(0));
        assert(events.take(0).len() == 0);
    } else {
        let rest = events.drop_last();
        let event = events.last();
        lemma_run_held(rest);
        let (before, told) = filter_run(idle(), rest);
        let (after, more) = filter_step(before, event);
        law_filter_keeps(before, event);
        let n = rest.len() - before.buffered.len();
        let head = rest.take(n);
        assert(head + before.buffered =~= rest);
        assert(events.skip(n) =~= before.buffered.push(event));
        assert(events.take(n) =~= head);
        if after.buffered.len() > 0 {
            assert(after.buffered =~= before.buffered.push(event));
            assert(out =~= told);
        } else if more.len() > 0 {
            assert(more =~= before.buffered.push(event));
            lemma_left_of_more(head, told, more);
            assert(head + more =~= events);
            assert(events.take(events.len() as int) =~= events);
            assert(after.buffered =~= events.skip(events.len() as int));
        } else {
            assert(is_reply_run(events.skip(n), before.body)) by {
                let run = events.skip(n);
                assert(run.last() == event);
                assert(run[0] == before.buffered[0]);
                assert forall|i: int| 0 <= i < before.body.len() implies body_char(run[i + 1])
                    == Some(#[trigger] before.body[i]) by {
                    assert(run[i + 1] == before.buffered[i + 1]);
                }
            }
            assert(out =~= told);
            assert(events.take(events.len() as int) =~= events);
            assert(after.buffered =~= events.skip(events.len() as int));
        }
    }
}

/// Genuine input is never lost and never reordered. Whatever events come, what comes out, with
/// what is still held, is those events in order and unchanged, but for whole replies; and after
/// an event that is no key nothing is held.
pub proof fn law_only_replies_dropped(events: Seq<InputEvent>)
    ensures
        ({
            let (f, out) = filter_run(idle(), events);
            &&& left_of(events, out + f.buffered)
            &&& events.len() > 0 && !(events.last() is Key) ==> f == idle() && left_of(events, out)
        }),
{
    let (f, out) = filter_run(idle(), events);
    lemma_run_held(events);
    let n = events.len() - f.buffered.len();
    lemma_left_of_more(events.take(n), out, f.buffered);
    assert(events.take(n) + f.buffered =~= events);
    if events.len() > 0 && !(events.last() is Key) {
        assert(out + f.buffered =~= out);
    }
}

/// Without an opening key nothing is held back: ordinary input passes through at once.
pub proof fn law_ordinary_input_passes(events: Seq<InputEvent>)
    requires
        forall|i: int|
            0 <= i < events.len() ==> !(#[trigger] events[i] matches InputEvent::Key(key)
                && opens_reply(key)),
    ensures
        filter_run(idle(), events) == (idle(), events),
    decreases events.len(),
{
    if events.len() > 0 {
        let rest = events.drop_last();
        law_ordinary_input_passes(rest);
        assert(events[events.len() - 1] == events.last());
        assert(Seq::<InputEvent>::empty().push(events.last()) =~= seq![events.last()]);
        assert(rest + seq![events.last()] =~= events);
    } else {
        assert(events =~= Seq::empty());
    }
}

} // verus!
