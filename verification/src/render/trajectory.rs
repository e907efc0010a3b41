//! The trajectory: the run of a session as a ledger of turns, steps, tool calls and answers.
//!
//! It is read off the same events that the chat is: nothing more is kept.

use vstd::prelude::*;

use crate::i18n::{tr, trf, Locale, Strings, StringsView};
use crate::render::fit::truncate_ellipsis;
use crate::store::event_data::{ContentBlock, ContentBlockView, EventData, EventDataView};
use crate::store::stored::StoredEventView;
use crate::store::{SessionStore, StoreView};
use crate::text::{i64_text, joined, trimmed, u64_text};
use crate::wire::SessionId;

verus! {

/// The rows above the ledger.
pub const HEADER_ROWS: u16 = 3;

/// One row of the ledger.
#[derive(Debug, PartialEq, Eq)]
pub enum TrajectoryRow {
    /// What came before is no longer kept.
    Gap,
    Turn { turn: i64 },
    Step { step: i64 },
    Tool { name: String, args: String },
    ToolResult { text: String },
    Assistant { text: String },
    LoadEarlier,
}

/// What a [`TrajectoryRow`] stands for.
pub enum TrajectoryRowView {
    Gap,
    Turn { turn: i64 },
    Step { step: i64 },
    Tool { name: Seq<char>, args: Seq<char> },
    ToolResult { text: Seq<char> },
    Assistant { text: Seq<char> },
    LoadEarlier,
}

impl View for TrajectoryRow {
    type V = TrajectoryRowView;

    open spec fn view(&self) -> TrajectoryRowView {
        match *self {
            TrajectoryRow::Gap => TrajectoryRowView::Gap,
            TrajectoryRow::Turn { turn } => TrajectoryRowView::Turn { turn },
            TrajectoryRow::Step { step } => TrajectoryRowView::Step { step },
            TrajectoryRow::Tool { name, args } => TrajectoryRowView::Tool {
                name: name@,
                args: args@,
            },
            TrajectoryRow::ToolResult { text } => TrajectoryRowView::ToolResult { text: text@ },
            TrajectoryRow::Assistant { text } => TrajectoryRowView::Assistant { text: text@ },
            TrajectoryRow::LoadEarlier => TrajectoryRowView::LoadEarlier,
        }
    }
}

/// The text of a block, trimmed; none for a block that is not text.
pub open spec fn block_text(block: ContentBlockView) -> Seq<char> {
    match block {
        ContentBlockView::Text { text } => crate::text::trim(text),
        ContentBlockView::Reasoning { text } => crate::text::trim(text),
        _ => Seq::empty(),
    }
}

/// The texts of some blocks, a space between them; blank ones are left out.
pub open spec fn snippet(blocks: Seq<ContentBlockView>) -> Seq<char>
    decreases blocks.len(),
{
    if blocks.len() == 0 {
        Seq::empty()
    } else {
        let before = snippet(blocks.drop_last());
        let text = block_text(blocks.last());
        if text.len() == 0 {
            before
        } else if before.len() == 0 {
            text
        } else {
            before + " "@ + text
        }
    }
}

/// The row of an event.
pub open spec fn event_row(data: EventDataView) -> Option<TrajectoryRowView> {
    match data {
        EventDataView::TurnStart { turn } => Some(TrajectoryRowView::Turn { turn }),
        EventDataView::StepStart { step, .. } => Some(TrajectoryRowView::Step { step }),
        EventDataView::ToolCall { name, arguments, .. } => Some(
            TrajectoryRowView::Tool { name, args: crate::text::trim(arguments) },
        ),
        EventDataView::ToolResult { message, .. } => Some(
            TrajectoryRowView::ToolResult {
                text: match message.result_block() {
                    Some(block) => match block {
                        ContentBlockView::ToolResult { content, .. } => snippet(content),
                        _ => Seq::empty(),
                    },
                    None => Seq::empty(),
                },
            },
        ),
        EventDataView::AssistantMessage { message, .. } => Some(
            TrajectoryRowView::Assistant { text: snippet(message.content) },
        ),
        _ => None,
    }
}

/// The rows of some events, in their order.
pub open spec fn event_rows(events: Seq<StoredEventView>) -> Seq<TrajectoryRowView>
    decreases events.len(),
{
    if events.len() == 0 {
        Seq::empty()
    } else {
        let before = event_rows(events.drop_last());
        match event_row(events.last().data) {
            Some(row) => before.push(row),
            None => before,
        }
    }
}

/// The ledger of a session.
pub open spec fn ledger(store: StoreView, id: Seq<char>) -> Seq<TrajectoryRowView> {
    if store.sessions.dom().contains(id) {
        let state = store.sessions[id];
        (if state.truncated {
            seq![TrajectoryRowView::Gap]
        } else {
            Seq::empty()
        } + event_rows(state.events)).push(TrajectoryRowView::LoadEarlier)
    } else {
        seq![TrajectoryRowView::LoadEarlier]
    }
}

fn text_of_block(block: &ContentBlock) -> (r: String)
    ensures
        r@ == block_text(block@),
{
    match block {
        ContentBlock::Text { text } => trimmed(text.as_str()),
        ContentBlock::Reasoning { text } => trimmed(text.as_str()),
        _ => {
            let none = String::new();
            proof {
                assert(none@ =~= Seq::empty());
            }
            none
        },
    }
}

fn text_snippet(blocks: &Vec<ContentBlock>) -> (r: String)
    ensures
        r@ == snippet(crate::text::views(blocks@)),
{
    let ghost all = crate::text::views(blocks@);
    let mut out = String::new();
    proof {
        assert(all.take(0) =~= Seq::empty());
        assert(out@ =~= Seq::empty());
    }
    let mut i: usize = 0;
    while i < blocks.len()
        invariant
            i <= blocks.len(),
            all == crate::text::views(blocks@),
            out@ == snippet(all.take(i as int)),
        decreases blocks.len() - i,
    {
        proof {
            assert(all.take(i + 1).drop_last() =~= all.take(i as int));
            assert(all.take(i + 1).last() == blocks@[i as int]@);
        }
        let text = text_of_block(&blocks[i]);
        if !text.as_str().is_empty() {
            if out.as_str().is_empty() {
                out = text;
            } else {
                out.append(" ");
                out.append(text.as_str());
            }
        }
        i = i + 1;
    }
    proof {
        assert(all.take(i as int) =~= all);
    }
    out
}

fn row_of_event(data: &EventData) -> (r: Option<TrajectoryRow>)
    ensures
        crate::text::opt_view(r) == event_row(data@),
{
    match data {
        EventData::TurnStart { turn } => Some(TrajectoryRow::Turn { turn: *turn }),
        EventData::StepStart { step, .. } => Some(TrajectoryRow::Step { step: *step }),
        EventData::ToolCall { name, arguments, .. } => Some(
            TrajectoryRow::Tool { name: name.clone(), args: trimmed(arguments.as_str()) },
        ),
        EventData::ToolResult { message, .. } => {
            let nothing = String::new();
            proof {
                assert(nothing@ =~= Seq::empty());
            }
            let text = match message.tool_result_block() {
                Some(block) => match block {
                    ContentBlock::ToolResult { content, .. } => {
                        proof {
                            assert(crate::text::views(content@)
                                =~= block@->ToolResult_content);
                        }
                        text_snippet(content)
                    },
                    _ => nothing,
                },
                None => nothing,
            };
            Some(TrajectoryRow::ToolResult { text })
        },
        EventData::AssistantMessage { message, .. } => Some(
            TrajectoryRow::Assistant { text: text_snippet(&message.content) },
        ),
        _ => None,
    }
}

/// The ledger of a session: a gap where earlier events are no longer kept, a row for each turn,
/// step, call, result and answer, and the pager.
pub fn ledger_rows(store: &SessionStore, session_id: &SessionId) -> (r: Vec<TrajectoryRow>)
    ensures
        crate::text::views(r@) == ledger(store@, session_id@),
{
    let mut rows: Vec<TrajectoryRow> = Vec::new();
    match store.session(session_id) {
        Some(state) => {
            if state.truncated() {
                rows.push(TrajectoryRow::Gap);
            }
            let ghost before = crate::text::views(rows@);
            let events = state.events();
            let ghost all = crate::text::views(events@);
            proof {
                assert(all.take(0) =~= Seq::empty());
                assert(before =~= before + event_rows(all.take(0)));
            }
            let mut i: usize = 0;
            while i < events.len()
                invariant
                    i <= events.len(),
                    all == crate::text::views(events@),
                    crate::text::views(rows@) == before + event_rows(all.take(i as int)),
                decreases events.len() - i,
            {
                proof {
                    assert(all.take(i + 1).drop_last() =~= all.take(i as int));
                    assert(all.take(i + 1).last() == events@[i as int]@);
                }
                match row_of_event(&events[i].data) {
                    Some(row) => {
                        proof {
                            assert(crate::text::views(rows@.push(row)) =~= crate::text::views(
                                rows@,
                            ).push(row@));
                            assert((before + event_rows(all.take(i as int))).push(row@) =~= before
                                + event_rows(all.take(i as int)).push(row@));
                        }
                        rows.push(row);
                    },
                    None => {},
                }
                i = i + 1;
            }
            proof {
                assert(all.take(i as int) =~= all);
                let head = if state@.truncated {
                    seq![TrajectoryRowView::Gap]
                } else {
                    Seq::empty()
                };
                assert(before =~= head);
            }
        },
        None => {},
    }
    let ghost so_far = crate::text::views(rows@);
    rows.push(TrajectoryRow::LoadEarlier);
    proof {
        assert(crate::text::views(rows@) =~= so_far.push(TrajectoryRowView::LoadEarlier));
        assert(crate::text::views(rows@) =~= ledger(store@, session_id@));
    }
    rows
}

/// What the header counts: turns, calls of the model, tokens read, and tool calls, and the
/// model in use.
#[derive(Debug)]
pub struct Counts {
    pub turns: usize,
    pub calls: usize,
    pub input: i64,
    pub model: Option<String>,
    pub tools: usize,
}

/// What a [`Counts`] stands for.
#[verifier::ext_equal]
pub struct CountsView {
    pub turns: nat,
    pub calls: nat,
    pub input: i64,
    pub model: Option<Seq<char>>,
    pub tools: nat,
}

impl View for Counts {
    type V = CountsView;

    open spec fn view(&self) -> CountsView {
        CountsView {
            turns: self.turns as nat,
            calls: self.calls as nat,
            input: self.input,
            model: crate::text::opt_view(self.model),
            tools: self.tools as nat,
        }
    }
}

/// The counts before any event.
pub open spec fn no_counts() -> CountsView {
    CountsView { turns: 0, calls: 0, input: 0, model: None, tools: 0 }
}

/// The counts after some events.
pub open spec fn counted(events: Seq<StoredEventView>) -> CountsView
    decreases events.len(),
{
    if events.len() == 0 {
        no_counts()
    } else {
        let before = counted(events.drop_last());
        match events.last().data {
            EventDataView::TurnStart { .. } => CountsView { turns: before.turns + 1, ..before },
            EventDataView::AssistantMessage { usage, .. } => CountsView {
                calls: before.calls + 1,
                input: match usage {
                    Some(usage) => before.input.wrapping_add(usage.input_tokens),
                    None => before.input,
                },
                ..before
            },
            EventDataView::RequestContext { model, .. } => CountsView {
                model: Some(model),
                ..before
            },
            EventDataView::ToolCall { .. } => CountsView { tools: before.tools + 1, ..before },
            _ => before,
        }
    }
}

/// The counts of a session; none where it is not known.
pub fn counts(store: &SessionStore, session_id: &SessionId) -> (r: Counts)
    ensures
        r@ == (if store@.sessions.dom().contains(session_id@) {
            counted(store@.sessions[session_id@].events)
        } else {
            no_counts()
        }),
{
    let mut turns: usize = 0;
    let mut calls: usize = 0;
    let mut input: i64 = 0;
    let mut model: Option<String> = None;
    let mut tools: usize = 0;
    match store.session(session_id) {
        Some(state) => {
            let events = state.events();
            let ghost all = crate::text::views(events@);
            proof {
                assert(all.take(0) =~= Seq::empty());
            }
            let mut i: usize = 0;
            while i < events.len()
                invariant
                    i <= events.len(),
                    all == crate::text::views(events@),
                    turns <= i,
                    calls <= i,
                    tools <= i,
                    counted(all.take(i as int)) == (CountsView {
                        turns: turns as nat,
                        calls: calls as nat,
                        input,
                        model: crate::text::opt_view(model),
                        tools: tools as nat,
                    }),
                decreases events.len() - i,
            {
                proof {
                    assert(all.take(i + 1).drop_last() =~= all.take(i as int));
                    assert(all.take(i + 1).last() == events@[i as int]@);
                }
                match &events[i].data {
                    EventData::TurnStart { .. } => {
                        turns = turns + 1;
                    },
                    EventData::AssistantMessage { usage, .. } => {
                        calls = calls + 1;
                        match usage {
                            Some(usage) => {
                                input = input.wrapping_add(usage.input_tokens);
                            },
                            None => {},
                        }
                    },
                    EventData::RequestContext { model: name, .. } => {
                        model = Some(name.clone());
                    },
                    EventData::ToolCall { .. } => {
                        tools = tools + 1;
                    },
                    _ => {},
                }
                i = i + 1;
            }
            proof {
                assert(all.take(i as int) =~= all);
            }
        },
        None => {},
    }
    Counts { turns, calls, input, model, tools }
}

/// The look of a piece of a line.
#[derive(Debug, Clone, Copy, PartialEq, Eq, Structural)]
pub enum Role {
    Active,
    Hint,
    Warning,
    Error,
    Success,
    Header,
    Text,
    /// Bold text.
    Label,
    /// No look of its own.
    Plain,
}

/// A piece of a line.
#[derive(Debug, PartialEq, Eq)]
pub struct Piece {
    pub role: Role,
    pub text: String,
}

/// What a [`Piece`] stands for.
#[verifier::ext_equal]
pub struct PieceView {
    pub role: Role,
    pub text: Seq<char>,
}

impl View for Piece {
    type V = PieceView;

    open spec fn view(&self) -> PieceView {
        PieceView { role: self.role, text: self.text@ }
    }
}

/// The pieces of the title: the name of the view and how long the run took.
pub open spec fn title_pieces(strings: StringsView, locale: Locale, duration: Seq<char>) -> Seq<
    PieceView,
> {
    seq![
        PieceView {
            role: Role::Active,
            text: " "@ + crate::i18n::text_of(strings, locale, "trajectory.title"@) + " "@,
        },
        PieceView {
            role: Role::Hint,
            text: " "@ + crate::i18n::text_of(strings, locale, "trajectory.header_duration"@)
                + ": "@ + duration,
        },
    ]
}

/// Some counters with one more.
pub open spec fn with_counter(
    pieces: Seq<PieceView>,
    strings: StringsView,
    locale: Locale,
    key: Seq<char>,
    value: Seq<char>,
) -> Seq<PieceView> {
    let piece = PieceView {
        role: Role::Label,
        text: crate::i18n::text_of(strings, locale, key) + " "@ + value,
    };
    if pieces.len() == 0 {
        pieces.push(piece)
    } else {
        pieces.push(PieceView { role: Role::Plain, text: " · "@ }).push(piece)
    }
}

/// The pieces of the counters; a model that is not known is left out.
pub open spec fn counter_pieces(strings: StringsView, locale: Locale, c: CountsView) -> Seq<PieceView> {
    let a = with_counter(
        Seq::empty(),
        strings,
        locale,
        "trajectory.header_turns"@,
        crate::text::decimal(c.turns),
    );
    let b = with_counter(
        a,
        strings,
        locale,
        "trajectory.header_calls"@,
        crate::text::decimal(c.calls),
    );
    let d = with_counter(
        b,
        strings,
        locale,
        "trajectory.header_input"@,
        crate::text::int_decimal(c.input as int),
    );
    let e = match c.model {
        Some(model) => if model.len() > 0 {
            with_counter(d, strings, locale, "trajectory.header_model"@, model)
        } else {
            d
        },
        None => d,
    };
    with_counter(
        e,
        strings,
        locale,
        "trajectory.header_tools"@,
        crate::text::decimal(c.tools),
    )
}

/// The columns of a width beyond `n`.
pub open spec fn beyond(width: u16, n: int) -> nat {
    if width > n {
        (width - n) as nat
    } else {
        0
    }
}

/// The pieces of a row of the ledger in a width.
pub open spec fn row_pieces(
    row: TrajectoryRowView,
    strings: StringsView,
    locale: Locale,
    width: u16,
) -> Seq<PieceView> {
    match row {
        TrajectoryRowView::Gap => seq![
            PieceView {
                role: Role::Warning,
                text: crate::i18n::text_of(strings, locale, "trajectory.gap"@),
            },
        ],
        TrajectoryRowView::Turn { turn } => seq![
            PieceView {
                role: Role::Header,
                text: "▸ "@ + crate::i18n::text_with(
                    strings,
                    locale,
                    "trajectory.turn"@,
                    seq![crate::text::int_decimal(turn as int)],
                ),
            },
        ],
        TrajectoryRowView::Step { step } => seq![
            PieceView {
                role: Role::Hint,
                text: "  "@ + crate::i18n::text_with(
                    strings,
                    locale,
                    "trajectory.step"@,
                    seq![crate::text::int_decimal(step as int)],
                ),
            },
        ],
        TrajectoryRowView::Tool { name, args } => seq![
            PieceView {
                role: Role::Active,
                text: crate::i18n::text_of(strings, locale, "trajectory.tool"@) + " "@,
            },
            PieceView {
                role: Role::Text,
                text: crate::render::fit::cut(
                    if args.len() == 0 {
                        name
                    } else {
                        name + " "@ + args
                    },
                    beyond(width, 6),
                    1,
                    "…"@,
                ),
            },
        ],
        TrajectoryRowView::ToolResult { text } => seq![
            PieceView { role: Role::Active, text: "→ "@ },
            PieceView {
                role: Role::Text,
                text: crate::render::fit::cut(text, beyond(width, 2), 1, "…"@),
            },
        ],
        TrajectoryRowView::Assistant { text } => seq![
            PieceView {
                role: Role::Active,
                text: crate::i18n::text_of(strings, locale, "trajectory.assistant"@) + " "@,
            },
            PieceView {
                role: Role::Text,
                text: crate::render::fit::cut(text, beyond(width, 11), 1, "…"@),
            },
        ],
        TrajectoryRowView::LoadEarlier => seq![
            PieceView {
                role: Role::Hint,
                text: crate::i18n::text_of(strings, locale, "trajectory.load_earlier"@),
            },
        ],
    }
}

/// The pieces of the title.
pub fn title_line(strings: &Strings, locale: Locale, duration: &str) -> (r: Vec<Piece>)
    ensures
        crate::text::views(r@) == title_pieces(strings@, locale, duration@),
{
    let mut name = joined(" ", tr(strings, locale, "trajectory.title"));
    name.append(" ");
    let mut time = joined(" ", tr(strings, locale, "trajectory.header_duration"));
    time.append(": ");
    time.append(duration);
    let mut out: Vec<Piece> = Vec::new();
    out.push(Piece { role: Role::Active, text: name });
    out.push(Piece { role: Role::Hint, text: time });
    proof {
        assert(crate::text::views(out@) =~= title_pieces(strings@, locale, duration@));
    }
    out
}

fn push_counter(pieces: &mut Vec<Piece>, strings: &Strings, locale: Locale, key: &str, value: &str)
    ensures
        crate::text::views(final(pieces)@) == with_counter(
            crate::text::views(old(pieces)@),
            strings@,
            locale,
            key@,
            value@,
        ),
{
    let ghost before = crate::text::views(pieces@);
    proof {
        assert(before.len() == pieces@.len());
    }
    if pieces.len() > 0 {
        pieces.push(Piece { role: Role::Plain, text: " · ".to_owned() });
    }
    let mut text = joined(tr(strings, locale, key), " ");
    text.append(value);
    pieces.push(Piece { role: Role::Label, text });
    proof {
        assert(crate::text::views(pieces@) =~= with_counter(before, strings@, locale, key@, value@));
    }
}

/// The pieces of the counters.
pub fn counters_line(strings: &Strings, locale: Locale, c: &Counts) -> (r: Vec<Piece>)
    ensures
        crate::text::views(r@) == counter_pieces(strings@, locale, c@),
{
    let mut out: Vec<Piece> = Vec::new();
    proof {
        assert(crate::text::views(out@) =~= Seq::empty());
    }
    push_counter(
        &mut out,
        strings,
        locale,
        "trajectory.header_turns",
        u64_text(c.turns as u64).as_str(),
    );
    push_counter(
        &mut out,
        strings,
        locale,
        "trajectory.header_calls",
        u64_text(c.calls as u64).as_str(),
    );
    push_counter(
        &mut out,
        strings,
        locale,
        "trajectory.header_input",
        i64_text(c.input).as_str(),
    );
    match &c.model {
        Some(model) => {
            if !model.as_str().is_empty() {
                push_counter(
                    &mut out,
                    strings,
                    locale,
                    "trajectory.header_model",
                    model.as_str(),
                );
            }
        },
        None => {},
    }
    push_counter(
        &mut out,
        strings,
        locale,
        "trajectory.header_tools",
        u64_text(c.tools as u64).as_str(),
    );
    out
}

fn one(role: Role, text: String) -> (r: Vec<Piece>)
    ensures
        crate::text::views(r@) == seq![(PieceView { role, text: text@ })],
{
    let ghost view = text@;
    let mut out: Vec<Piece> = Vec::new();
    out.push(Piece { role, text });
    proof {
        assert(crate::text::views(out@) =~= seq![(PieceView { role, text: view })]);
    }
    out
}

fn two(first: String, second: String) -> (r: Vec<Piece>)
    ensures
        crate::text::views(r@) == seq![
            (PieceView { role: Role::Active, text: first@ }),
            (PieceView { role: Role::Text, text: second@ }),
        ],
{
    let ghost a = first@;
    let ghost b = second@;
    let mut out: Vec<Piece> = Vec::new();
    out.push(Piece { role: Role::Active, text: first });
    out.push(Piece { role: Role::Text, text: second });
    proof {
        assert(crate::text::views(out@) =~= seq![
            (PieceView { role: Role::Active, text: a }),
            (PieceView { role: Role::Text, text: b }),
        ]);
    }
    out
}

fn numbered(strings: &Strings, locale: Locale, key: &str, n: i64, lead: &str) -> (r: String)
    ensures
        r@ == lead@ + crate::i18n::text_with(
            strings@,
            locale,
            key@,
            seq![crate::text::int_decimal(n as int)],
        ),
{
    let text = i64_text(n);
    let args: [&str; 1] = [text.as_str()];
    proof {
        assert(crate::i18n::arg_texts(args@) =~= seq![crate::text::int_decimal(n as int)]);
    }
    joined(lead, trf(strings, locale, key, &args).as_str())
}

/// The pieces of a row of the ledger in a width.
pub fn row_line(row: &TrajectoryRow, strings: &Strings, locale: Locale, width: u16) -> (r: Vec<Piece>)
    ensures
        crate::text::views(r@) == row_pieces(row@, strings@, locale, width),
{
    match row {
        TrajectoryRow::Gap => one(
            Role::Warning,
            tr(strings, locale, "trajectory.gap").to_owned(),
        ),
        TrajectoryRow::Turn { turn } => one(
            Role::Header,
            numbered(strings, locale, "trajectory.turn", *turn, "▸ "),
        ),
        TrajectoryRow::Step { step } => one(
            Role::Hint,
            numbered(strings, locale, "trajectory.step", *step, "  "),
        ),
        TrajectoryRow::Tool { name, args } => {
            let body = if args.as_str().is_empty() {
                name.clone()
            } else {
                let mut b = joined(name.as_str(), " ");
                b.append(args.as_str());
                b
            };
            two(
                joined(tr(strings, locale, "trajectory.tool"), " "),
                truncate_ellipsis(body.as_str(), width.saturating_sub(6) as usize),
            )
        },
        TrajectoryRow::ToolResult { text } => two(
            "→ ".to_owned(),
            truncate_ellipsis(text.as_str(), width.saturating_sub(2) as usize),
        ),
        TrajectoryRow::Assistant { text } => two(
            joined(tr(strings, locale, "trajectory.assistant"), " "),
            truncate_ellipsis(text.as_str(), width.saturating_sub(11) as usize),
        ),
        TrajectoryRow::LoadEarlier => one(
            Role::Hint,
            tr(strings, locale, "trajectory.load_earlier").to_owned(),
        ),
    }
}

/// The first row of the ledger that shows in an area of some height, for a scroll position: the
/// last rows stay in view.
pub fn first_row(offset: usize, total: usize, height: u16) -> (r: usize)
    ensures
        ({
            let visible = if height > HEADER_ROWS + 1 {
                height - HEADER_ROWS
            } else {
                1
            };
            let last = if total > visible {
                total - visible
            } else {
                0
            };
            r == (if offset < last {
                offset as int
            } else {
                last
            })
        }),
{
    let mut visible = height.saturating_sub(HEADER_ROWS) as usize;
    if visible < 1 {
        visible = 1;
    }
    let last = total.saturating_sub(visible);
    if offset < last {
        offset
    } else {
        last
    }
}

/// The ledger always ends with the pager, and begins with the gap exactly where earlier events
/// are no longer kept.
pub proof fn law_ledger_ends(store: StoreView, id: Seq<char>)
    ensures
        ledger(store, id).len() > 0,
        ledger(store, id).last() == TrajectoryRowView::LoadEarlier,
        store.sessions.dom().contains(id) ==> (ledger(store, id)[0] == TrajectoryRowView::Gap
            <==> store.sessions[id].truncated),
{
    if store.sessions.dom().contains(id) && !store.sessions[id].truncated {
        lemma_no_gap(store.sessions[id].events);
        let rows = event_rows(store.sessions[id].events);
        if rows.len() > 0 {
            assert(ledger(store, id)[0] == rows[0]);
        }
    }
}

proof fn lemma_no_gap(events: Seq<StoredEventView>)
    ensures
        forall|i: int|
            0 <= i < event_rows(events).len() ==> #[trigger] event_rows(events)[i]
                != TrajectoryRowView::Gap,
    decreases events.len(),
{
    if events.len() > 0 {
        lemma_no_gap(events.drop_last());
        let before = event_rows(events.drop_last());
        let all = event_rows(events);
        assert forall|i: int| 0 <= i < all.len() implies #[trigger] all[i]
            != TrajectoryRowView::Gap by {
            if i < before.len() {
                assert(all[i] == before[i]);
            }
        }
    }
}

} // verus!
