//! The texts around the chat: the header, the two status lines, and the screen that is too
//! small.
//!
//! What a session has not reported is left out. Durations come as texts.

use vstd::prelude::*;

use crate::app::sidebar::{find_session, label_of, permission_label};
use crate::app::state::{App, AppView, COPY_FLASH_TTL_MS};
use crate::i18n::{tr, trf};
use crate::render::chat_view::spinner_at;
use crate::render::format::{format_elapsed, format_tokens, format_tokens_abs, percent_roughly};
use crate::render::trajectory::{Piece, PieceView, Role};
use crate::store::stats::{session_stats, tokens_fit, SessionStats, StatsView};
use crate::text::{i64_text, join_texts, joined, u64_text};
use crate::wire::{SessionSummary, SessionSummaryView};

verus! {

/// The durations of a session in words: of the model, of the tools, the mean time to the first
/// token, and the tokens in a second, where they can be told.
#[derive(Debug)]
pub struct Durations {
    pub llm: String,
    pub tool: String,
    pub first_token: String,
    pub speed: Option<String>,
}

/// Whether what the model was given last is a number of 64 bits.
pub open spec fn usage_fits(stats: StatsView) -> bool {
    i64::MIN <= stats.input_tokens + stats.cache_read_tokens <= i64::MAX
}

/// Whether the sums of the token counts, and a hundred times the cached ones, are numbers of
/// 64 bits.
pub open spec fn counts_fit(stats: StatsView) -> bool {
    &&& usage_fits(stats)
    &&& i64::MIN <= stats.input_tokens + stats.output_tokens <= i64::MAX
    &&& i64::MIN <= stats.cache_read_tokens * 100 <= i64::MAX
}

fn usage_sum_fits(stats: &SessionStats) -> (r: bool)
    ensures
        r == usage_fits(stats@),
{
    let sum = stats.input_tokens as i128 + stats.cache_read_tokens as i128;
    i64::MIN as i128 <= sum && sum <= i64::MAX as i128
}

/// Whether the sums of the token counts, and a hundred times the cached ones, are numbers of
/// 64 bits.
pub fn sums_fit(stats: &SessionStats) -> (r: bool)
    ensures
        r == counts_fit(stats@),
{
    let sum = stats.input_tokens as i128 + stats.output_tokens as i128;
    let cached = stats.cache_read_tokens as i128 * 100;
    let low = i64::MIN as i128;
    let high = i64::MAX as i128;
    usage_sum_fits(stats) && low <= sum && sum <= high && low <= cached && cached <= high
}

/// How full a context window is, in percent without the fraction, as far as 64 bits go.
pub open spec fn fullness(used: int, window: int) -> int {
    let share = crate::render::format::rough_percent(used as nat, window as nat);
    if share > i64::MAX {
        i64::MAX as int
    } else {
        share as int
    }
}

fn fullness_of(used: i64, window: i64) -> (r: i64)
    requires
        used > 0,
        window > 0,
    ensures
        r == fullness(used as int, window as int),
{
    let share = percent_roughly(used, window);
    if share > i64::MAX as u128 {
        i64::MAX
    } else {
        share as i64
    }
}

/// A share in percent, without its fraction.
pub open spec fn percent(part: int, whole: int) -> int {
    if part >= 0 {
        part * 100 / whole
    } else {
        -((-part * 100) / whole)
    }
}

fn percent_of(part: i64, whole: i64) -> (r: i64)
    requires
        whole > 0,
        i64::MIN <= part * 100 <= i64::MAX,
    ensures
        r == percent(part as int, whole as int),
{
    if part >= 0 {
        proof {
            vstd::arithmetic::div_mod::lemma_div_is_ordered_by_denominator(
                part * 100,
                1,
                whole as int,
            );
            assert(0 <= part * 100 / (whole as int)) by (nonlinear_arith)
                requires
                    part >= 0,
                    whole > 0,
            ;
            assert((part * 100) / 1 == part * 100);
        }
        (part * 100) / whole
    } else {
        let over = (-(part as i128)) * 100;
        let by = whole as i128;
        proof {
            vstd::arithmetic::div_mod::lemma_div_is_ordered_by_denominator(
                over as int,
                1,
                whole as int,
            );
            assert(0 <= over as int / (whole as int)) by (nonlinear_arith)
                requires
                    over >= 0,
                    whole > 0,
            ;
            assert(over as int / 1 == over as int);
        }
        (-(over / by)) as i64
    }
}

/// A text with an ordinary look.
pub open spec fn body(text: Seq<char>) -> PieceView {
    PieceView { role: Role::Text, text }
}

/// What separates the pieces of a line.
pub open spec fn dot() -> PieceView {
    PieceView { role: Role::Hint, text: " · "@ }
}

/// Pieces with a dot between each two.
pub open spec fn dotted(parts: Seq<PieceView>) -> Seq<PieceView>
    decreases parts.len(),
{
    if parts.len() == 0 {
        Seq::empty()
    } else if parts.len() == 1 {
        parts
    } else {
        dotted(parts.drop_last()).push(dot()).push(parts.last())
    }
}

/// The part, where there is one.
pub open spec fn given(part: Option<PieceView>) -> Seq<PieceView> {
    match part {
        Some(part) => seq![part],
        None => Seq::empty(),
    }
}

/// A text, where a condition holds.
pub open spec fn provided(holds: bool, text: Seq<char>) -> Seq<Seq<char>> {
    if holds {
        seq![text]
    } else {
        Seq::empty()
    }
}

/// A text as the only one, where there are any to join.
pub open spec fn joint(texts: Seq<Seq<char>>, between: Seq<char>) -> Seq<Seq<char>> {
    provided(texts.len() > 0, crate::text::join_all(texts, between))
}

fn put(parts: &mut Vec<Piece>, role: Role, text: String)
    ensures
        crate::text::views(final(parts)@) == crate::text::views(old(parts)@).push(
            PieceView { role, text: text@ },
        ),
{
    let piece = Piece { role, text };
    parts.push(piece);
    proof {
        assert(crate::text::views(parts@) =~= crate::text::views(old(parts)@).push(piece@));
    }
}

fn add_text(texts: &mut Vec<String>, text: String)
    ensures
        crate::text::views(final(texts)@) == crate::text::views(old(texts)@).push(text@),
{
    texts.push(text);
    proof {
        assert(crate::text::views(texts@) =~= crate::text::views(old(texts)@).push(text@));
    }
}

fn with_dots(parts: Vec<Piece>) -> (r: Vec<Piece>)
    ensures
        crate::text::views(r@) == dotted(crate::text::views(parts@)),
{
    let ghost all = crate::text::views(parts@);
    let mut out: Vec<Piece> = Vec::new();
    let mut i: usize = 0;
    proof {
        assert(crate::text::views(out@) =~= dotted(all.take(0)));
    }
    while i < parts.len()
        invariant
            i <= parts@.len(),
            all == crate::text::views(parts@),
            crate::text::views(out@) == dotted(all.take(i as int)),
        decreases parts.len() - i,
    {
        proof {
            assert(all[i as int] == parts@[i as int]@);
            assert(all.take(i + 1).drop_last() =~= all.take(i as int));
            assert(all.take(i + 1).last() == all[i as int]);
        }
        if i > 0 {
            put(&mut out, Role::Hint, " · ".to_owned());
        }
        put(&mut out, parts[i].role, parts[i].text.clone());
        proof {
            if i == 0 {
                assert(crate::text::views(out@) =~= all.take(1));
            }
        }
        i = i + 1;
    }
    proof {
        assert(all.take(i as int) =~= all);
    }
    out
}

impl AppView {
    /// The row of the active session.
    pub open spec fn active_summary(self) -> Option<SessionSummaryView> {
        match self.active_session {
            Some(id) => crate::app::sidebar::session_row(self.sessions, id),
            None => None,
        }
    }

    /// Turns and steps.
    pub open spec fn turns_part(self, stats: StatsView) -> Seq<Seq<char>> {
        provided(
            stats.turns > 0,
            self.text_with("stats.turns"@, seq![crate::text::decimal(stats.turns)]) + " · "@
                + self.text_with("stats.steps"@, seq![crate::text::decimal(stats.steps)]),
        )
    }

    /// The durations of the model and of the tools, each where it was measured.
    pub open spec fn timing(self, stats: StatsView, spoken: Durations) -> Seq<Seq<char>> {
        provided(
            stats.llm_spans.len() > 0,
            self.text_with("stats.llm"@, seq![spoken.llm@]),
        ) + provided(
            stats.tool_spans.len() > 0,
            self.text_with("stats.tool"@, seq![spoken.tool@]),
        )
    }

    /// The time to the first token and the speed, each where it was measured.
    pub open spec fn latency(self, stats: StatsView, spoken: Durations) -> Seq<Seq<char>> {
        provided(
            stats.first_token_spans.len() > 0,
            self.text_with("stats.ttft"@, seq![spoken.first_token@]),
        ) + (match spoken.speed {
            Some(speed) => seq![self.text_with("stats.tok_s"@, seq![speed@])],
            None => Seq::empty(),
        })
    }

    /// The share of the input that came from the cache.
    pub open spec fn cache_part(self, stats: StatsView) -> Seq<Seq<char>> {
        let base = stats.input_tokens + stats.cache_read_tokens;
        provided(
            base > 0,
            self.text_with(
                "stats.cache"@,
                seq![
                    crate::text::int_decimal(percent(stats.cache_read_tokens, base)),
                ],
            ),
        )
    }

    /// The tokens.
    pub open spec fn tokens_part(self, stats: StatsView) -> Seq<Seq<char>> {
        provided(
            stats.input_tokens + stats.output_tokens > 0,
            self.text_with(
                "stats.input"@,
                seq![crate::render::format::tokens_text(stats.input_tokens)],
            ) + " · "@ + self.text_with(
                "stats.output"@,
                seq![crate::render::format::tokens_text(stats.output_tokens)],
            ),
        )
    }

    /// The metrics of a session, each where it is known.
    pub open spec fn metrics(self, stats: StatsView, spoken: Durations) -> Seq<Seq<char>> {
        self.turns_part(stats) + joint(self.timing(stats, spoken), " · "@) + joint(
            self.latency(stats, spoken),
            " · "@,
        ) + self.cache_part(stats) + self.tokens_part(stats)
    }

    /// That no session is active.
    pub open spec fn no_session_part(self) -> Option<PieceView> {
        if self.active_session is None {
            Some(body(self.text("status.no_session"@)))
        } else {
            None
        }
    }

    /// Where the session stands.
    pub open spec fn seq_part(self) -> Option<PieceView> {
        match self.active_state() {
            Some(state) => Some(
                body(
                    self.text_with(
                        "status.seq"@,
                        seq![crate::text::int_decimal(state.last_seq as int)],
                    ),
                ),
            ),
            None => None,
        }
    }

    /// The surface that has the keys.
    pub open spec fn focus_part(self) -> PieceView {
        body(self.text_with("status.focus"@, seq![self.text(self.focus.name())]))
    }

    /// The metrics of the active session in one text, where there are any. `spoken` are its
    /// durations.
    pub open spec fn metrics_part(self, spoken: Durations) -> Option<PieceView> {
        match self.active_state() {
            Some(state) => {
                let texts = self.metrics(crate::store::stats::stats_of(state), spoken);
                if texts.len() > 0 {
                    Some(body(crate::text::join_all(texts, " | "@)))
                } else {
                    None
                }
            },
            None => None,
        }
    }

    /// Whether the token counts of the active session can be added up in 64 bits.
    pub open spec fn tallies_fit(self) -> bool {
        self.active_state() matches Some(state) ==> crate::store::stats::totals_fit(
            crate::store::stats::token_totals(state.nodes),
        ) && counts_fit(crate::store::stats::stats_of(state))
    }

    /// Whether what the active session gave the model can be added up in 64 bits.
    pub open spec fn usage_fits(self) -> bool {
        self.active_state() matches Some(state) ==> crate::store::stats::totals_fit(
            crate::store::stats::token_totals(state.nodes),
        ) && usage_fits(crate::store::stats::stats_of(state))
    }

    /// The hint.
    pub open spec fn hint_part(self) -> Option<PieceView> {
        match self.hint {
            Some(hint) => Some(PieceView { role: Role::Hint, text: hint }),
            None => None,
        }
    }

    /// The toast.
    pub open spec fn toast_part(self) -> Option<PieceView> {
        match self.toast {
            Some(toast) => Some(PieceView { role: Role::Hint, text: toast.text }),
            None => None,
        }
    }

    /// The error.
    pub open spec fn error_part(self) -> Option<PieceView> {
        match self.last_error {
            Some(error) => Some(
                PieceView {
                    role: Role::Error,
                    text: self.text_with("status.error"@, seq![error]),
                },
            ),
            None => None,
        }
    }

    /// The left half of the status line: that there is no session, or where it stands; the
    /// surface that has the keys; the metrics; the hint, the toast and the error.
    pub open spec fn status_parts(self, spoken: Durations) -> Seq<PieceView> {
        given(self.no_session_part()) + given(self.seq_part()) + seq![self.focus_part()] + given(
            self.metrics_part(spoken),
        ) + given(self.hint_part()) + given(self.toast_part()) + given(self.error_part())
    }

    /// The state in one character: an error, a turn in flight, a history that was cut off, or
    /// nothing of these.
    pub open spec fn indicator(self) -> PieceView {
        if self.last_error is Some {
            PieceView { role: Role::Error, text: "✕"@ }
        } else if self.busy() {
            PieceView {
                role: Role::Active,
                text: crate::render::chat_view::spinner_frame(
                    self.spinner_frame as nat % crate::render::chat_view::SPINNER_COUNT as nat,
                ),
            }
        } else if self.active_state() is Some && self.active_state()->0.truncated {
            PieceView { role: Role::Warning, text: "△"@ }
        } else {
            PieceView { role: Role::Success, text: "●"@ }
        }
    }

    /// Whole seconds since a time.
    pub open spec fn seconds_since(self, since: u64) -> nat {
        if self.clock >= since {
            ((self.clock - since) / 1000) as nat
        } else {
            0
        }
    }

    /// The right half of the status line: the note of a copied text while it is fresh, else the
    /// state, and since when it is busy.
    pub open spec fn status_right(self) -> Seq<PieceView> {
        if self.copied_flash is Some && !self.aged(self.copied_flash->0.at, COPY_FLASH_TTL_MS) {
            seq![PieceView { role: Role::Success, text: self.copied_flash->0.text }]
        } else {
            match self.busy_since {
                Some(since) => seq![
                    self.indicator(),
                    dot(),
                    PieceView {
                        role: Role::Hint,
                        text: crate::render::format::elapsed_text(self.seconds_since(since)),
                    },
                ],
                None => seq![self.indicator()],
            }
        }
    }

    /// What the active session is permitted.
    pub open spec fn permission_part(self) -> Seq<Seq<char>> {
        match self.active_summary() {
            Some(row) => match crate::app::sidebar::permission_of(row) {
                Some(label) => seq![label],
                None => Seq::empty(),
            },
            None => Seq::empty(),
        }
    }

    /// The model and its effort.
    pub open spec fn model_part(self) -> Seq<Seq<char>> {
        match self.session_model {
            Some(selection) => seq![self.text_with("status1.model"@, seq![selection.model])] + (
            match selection.reasoning_effort {
                Some(effort) => seq![self.text_with("status1.effort"@, seq![effort])],
                None => Seq::empty(),
            }),
            None => Seq::empty(),
        }
    }

    /// How much of the context is used; the share only where its size is known.
    pub open spec fn context_part(self) -> Seq<Seq<char>> {
        match self.active_state() {
            Some(state) => {
                let stats = crate::store::stats::stats_of(state);
                let used = stats.input_tokens + stats.cache_read_tokens;
                if used > 0 {
                    seq![
                        if stats.context_window is Some && stats.context_window->0 > 0 {
                            self.text_with(
                                "status1.context"@,
                                seq![
                                    crate::render::format::tokens_abs_text(used),
                                    crate::text::int_decimal(
                                        fullness(used, stats.context_window->0 as int),
                                    ),
                                ],
                            )
                        } else {
                            self.text_with(
                                "status1.context_used"@,
                                seq![crate::render::format::tokens_abs_text(used)],
                            )
                        },
                    ]
                } else {
                    Seq::empty()
                }
            },
            None => Seq::empty(),
        }
    }

    /// The upper status line: permission, model, effort and context, each where it is known.
    pub open spec fn meta_parts(self) -> Seq<Seq<char>> {
        self.permission_part() + self.model_part() + self.context_part()
    }

    /// The title of a session in the header.
    pub open spec fn title_part(self, row: SessionSummaryView) -> Seq<char> {
        self.text_with("header.session"@, seq![crate::app::sidebar::shown_title(row)])
    }

    /// The agent preset of a session in the header.
    pub open spec fn preset_part(self, row: SessionSummaryView) -> Seq<Seq<char>> {
        match row.agent_preset {
            Some(preset) => seq![self.text_with("header.preset"@, seq![preset])],
            None => Seq::empty(),
        }
    }

    /// The running jobs in the header.
    pub open spec fn jobs_part(self, jobs: u64) -> Seq<Seq<char>> {
        provided(
            jobs > 0,
            self.text_with("header.jobs"@, seq![crate::text::decimal(jobs as nat)]),
        )
    }

    /// The header: the title of the active session, its agent preset and its running jobs.
    pub open spec fn header(self, jobs: u64) -> Option<Seq<char>> {
        match self.active_summary() {
            Some(row) => Some(
                crate::text::join_all(
                    seq![self.title_part(row)] + self.preset_part(row) + self.jobs_part(jobs),
                    " | "@,
                ),
            ),
            None => None,
        }
    }
}

impl App {
    /// The text of a key.
    fn tell(&self, key: &str) -> (r: String)
        ensures
            r@ == self@.text(key@),
    {
        tr(self.strings(), self.locale(), key).to_owned()
    }

    /// The text of a key with its placeholder filled in.
    fn tell_with(&self, key: &str, arg: &str) -> (r: String)
        ensures
            r@ == self@.text_with(key@, seq![arg@]),
    {
        let args: [&str; 1] = [arg];
        proof {
            assert(crate::i18n::arg_texts(args@) =~= seq![arg@]);
        }
        trf(self.strings(), self.locale(), key, args.as_slice())
    }

    /// The text of a key with its two placeholders filled in.
    fn tell_with_two(&self, key: &str, first: &str, second: &str) -> (r: String)
        ensures
            r@ == self@.text_with(key@, seq![first@, second@]),
    {
        let args: [&str; 2] = [first, second];
        proof {
            assert(crate::i18n::arg_texts(args@) =~= seq![first@, second@]);
        }
        trf(self.strings(), self.locale(), key, args.as_slice())
    }

    /// The row of the active session.
    pub fn active_summary(&self) -> (r: Option<&SessionSummary>)
        ensures
            crate::text::opt_view(r) == self@.active_summary(),
    {
        match self.active_session() {
            Some(id) => {
                let sessions = self.sessions();
                let at = find_session(sessions, id);
                if at < sessions.len() {
                    proof {
                        assert(self@.sessions[at as int] == sessions@[at as int]@);
                    }
                    Some(&sessions[at])
                } else {
                    None
                }
            },
            None => None,
        }
    }

    fn timing_texts(&self, stats: &SessionStats, spoken: &Durations) -> (r: Vec<String>)
        ensures
            crate::text::views(r@) == self@.timing(stats@, *spoken),
    {
        let mut out: Vec<String> = Vec::new();
        proof {
            assert(crate::text::views(out@) =~= Seq::<Seq<char>>::empty());
        }
        if stats.llm_spans.len() > 0 {
            add_text(&mut out, self.tell_with("stats.llm", spoken.llm.as_str()));
        }
        if stats.tool_spans.len() > 0 {
            add_text(&mut out, self.tell_with("stats.tool", spoken.tool.as_str()));
        }
        proof {
            assert(crate::text::views(out@) =~= self@.timing(stats@, *spoken));
        }
        out
    }

    fn latency_texts(&self, stats: &SessionStats, spoken: &Durations) -> (r: Vec<String>)
        ensures
            crate::text::views(r@) == self@.latency(stats@, *spoken),
    {
        let mut out: Vec<String> = Vec::new();
        proof {
            assert(crate::text::views(out@) =~= Seq::<Seq<char>>::empty());
        }
        if stats.first_token_spans.len() > 0 {
            add_text(&mut out, self.tell_with("stats.ttft", spoken.first_token.as_str()));
        }
        match &spoken.speed {
            Some(speed) => add_text(&mut out, self.tell_with("stats.tok_s", speed.as_str())),
            None => {},
        }
        proof {
            assert(crate::text::views(out@) =~= self@.latency(stats@, *spoken));
        }
        out
    }

    fn metric_texts(&self, stats: &SessionStats, spoken: &Durations) -> (r: Vec<String>)
        requires
            counts_fit(stats@),
        ensures
            crate::text::views(r@) == self@.metrics(stats@, *spoken),
    {
        let mut out: Vec<String> = Vec::new();
        proof {
            assert(crate::text::views(out@) =~= Seq::<Seq<char>>::empty());
        }
        if stats.turns > 0 {
            let turns = self.tell_with("stats.turns", u64_text(stats.turns).as_str());
            let steps = self.tell_with("stats.steps", u64_text(stats.steps).as_str());
            let mut text = joined(turns.as_str(), " · ");
            text.append(steps.as_str());
            add_text(&mut out, text);
        }
        let ghost first = crate::text::views(out@);
        let timing = self.timing_texts(stats, spoken);
        if timing.len() > 0 {
            add_text(&mut out, join_texts(&timing, " · "));
        }
        let ghost second = crate::text::views(out@);
        let latency = self.latency_texts(stats, spoken);
        if latency.len() > 0 {
            add_text(&mut out, join_texts(&latency, " · "));
        }
        let ghost third = crate::text::views(out@);
        let cache_base = stats.input_tokens + stats.cache_read_tokens;
        if cache_base > 0 {
            let share = percent_of(stats.cache_read_tokens, cache_base);
            add_text(&mut out, self.tell_with("stats.cache", i64_text(share).as_str()));
        }
        let ghost fourth = crate::text::views(out@);
        if stats.input_tokens + stats.output_tokens > 0 {
            let input = self.tell_with("stats.input", format_tokens(stats.input_tokens).as_str());
            let output = self.tell_with(
                "stats.output",
                format_tokens(stats.output_tokens).as_str(),
            );
            let mut text = joined(input.as_str(), " · ");
            text.append(output.as_str());
            add_text(&mut out, text);
        }
        proof {
            let m = self@;
            assert(first =~= m.turns_part(stats@));
            assert(second =~= first + joint(m.timing(stats@, *spoken), " · "@));
            assert(third =~= second + joint(m.latency(stats@, *spoken), " · "@));
            assert(fourth =~= third + m.cache_part(stats@));
            assert(crate::text::views(out@) =~= fourth + m.tokens_part(stats@));
        }
        out
    }

    /// Whether the token counts of the active session can be added up in 64 bits.
    pub fn tallies_fit(&self) -> (r: bool)
        ensures
            r == self@.tallies_fit(),
    {
        match self.active_state() {
            Some(state) => tokens_fit(state) && sums_fit(&session_stats(state)),
            None => true,
        }
    }

    /// Whether what the active session gave the model can be added up in 64 bits.
    pub fn usage_fits(&self) -> (r: bool)
        ensures
            r == self@.usage_fits(),
    {
        match self.active_state() {
            Some(state) => tokens_fit(state) && usage_sum_fits(&session_stats(state)),
            None => true,
        }
    }

    /// The two halves of the status line. `spoken` are the durations of the active session.
    pub fn status_line(&self, spoken: &Durations) -> (r: (Vec<Piece>, Vec<Piece>))
        requires
            self@.tallies_fit(),
        ensures
            crate::text::views(r.0@) == dotted(self@.status_parts(*spoken)),
            crate::text::views(r.1@) == self@.status_right(),
    {
        (with_dots(self.left_parts(spoken)), self.right_parts())
    }

    fn left_parts(&self, spoken: &Durations) -> (r: Vec<Piece>)
        requires
            self@.tallies_fit(),
        ensures
            crate::text::views(r@) == self@.status_parts(*spoken),
    {
        let mut parts: Vec<Piece> = Vec::new();
        let ghost p0 = crate::text::views(parts@);
        proof {
            assert(p0 =~= Seq::<PieceView>::empty());
        }
        if self.active_session().is_none() {
            put(&mut parts, Role::Text, self.tell("status.no_session"));
        }
        let ghost p1 = crate::text::views(parts@);
        let state = self.active_state();
        match state {
            Some(state) => put(
                &mut parts,
                Role::Text,
                self.tell_with("status.seq", i64_text(state.last_seq()).as_str()),
            ),
            None => {},
        }
        let ghost p2 = crate::text::views(parts@);
        let surface = self.focus().label(self.strings(), self.locale());
        put(&mut parts, Role::Text, self.tell_with("status.focus", surface));
        let ghost p3 = crate::text::views(parts@);
        match state {
            Some(state) => {
                let texts = self.metric_texts(&session_stats(state), spoken);
                if texts.len() > 0 {
                    put(&mut parts, Role::Text, join_texts(&texts, " | "));
                }
            },
            None => {},
        }
        let ghost p4 = crate::text::views(parts@);
        match self.hint() {
            Some(hint) => put(&mut parts, Role::Hint, hint.clone()),
            None => {},
        }
        let ghost p5 = crate::text::views(parts@);
        match self.toast() {
            Some(toast) => put(&mut parts, Role::Hint, toast.text.clone()),
            None => {},
        }
        let ghost p6 = crate::text::views(parts@);
        match self.last_error() {
            Some(error) => put(
                &mut parts,
                Role::Error,
                self.tell_with("status.error", error.as_str()),
            ),
            None => {},
        }
        proof {
            let m = self@;
            assert(p1 =~= given(m.no_session_part()));
            assert(p2 =~= p1 + given(m.seq_part()));
            assert(p3 =~= p2 + seq![m.focus_part()]);
            assert(p4 =~= p3 + given(m.metrics_part(*spoken)));
            assert(p5 =~= p4 + given(m.hint_part()));
            assert(p6 =~= p5 + given(m.toast_part()));
            assert(crate::text::views(parts@) =~= p6 + given(m.error_part()));
        }
        parts
    }

    fn indicator(&self) -> (r: Piece)
        ensures
            r@ == self@.indicator(),
    {
        if self.last_error().is_some() {
            return Piece { role: Role::Error, text: "✕".to_owned() };
        }
        if self.session_running() {
            return Piece {
                role: Role::Active,
                text: spinner_at(self.spinner_frame()).to_owned(),
            };
        }
        let cut = match self.active_state() {
            Some(state) => state.truncated(),
            None => false,
        };
        if cut {
            Piece { role: Role::Warning, text: "△".to_owned() }
        } else {
            Piece { role: Role::Success, text: "●".to_owned() }
        }
    }

    fn right_parts(&self) -> (r: Vec<Piece>)
        ensures
            crate::text::views(r@) == self@.status_right(),
    {
        let mut out: Vec<Piece> = Vec::new();
        proof {
            assert(crate::text::views(out@) =~= Seq::<PieceView>::empty());
        }
        let now = self.clock();
        match self.copied_flash() {
            Some(flash) => {
                if now < flash.at || now - flash.at < COPY_FLASH_TTL_MS {
                    put(&mut out, Role::Success, flash.text.clone());
                    proof {
                        assert(crate::text::views(out@) =~= self@.status_right());
                    }
                    return out;
                }
            },
            None => {},
        }
        let indicator = self.indicator();
        put(&mut out, indicator.role, indicator.text);
        match self.busy_since() {
            Some(since) => {
                let seconds: u64 = if now >= since {
                    (now - since) / 1000
                } else {
                    0
                };
                put(&mut out, Role::Hint, " · ".to_owned());
                put(&mut out, Role::Hint, format_elapsed(seconds));
            },
            None => {},
        }
        proof {
            assert(crate::text::views(out@) =~= self@.status_right());
        }
        out
    }

    /// The upper status line. Nothing where nothing is known.
    pub fn status_meta_line(&self) -> (r: Option<Piece>)
        requires
            self@.usage_fits(),
        ensures
            ({
                let parts = self@.meta_parts();
                crate::text::opt_view(r) == (if parts.len() == 0 {
                    None
                } else {
                    Some(body(crate::text::join_all(parts, " | "@)))
                })
            }),
    {
        let mut out: Vec<String> = Vec::new();
        let ghost p0 = crate::text::views(out@);
        proof {
            assert(p0 =~= Seq::<Seq<char>>::empty());
        }
        match self.active_summary() {
            Some(row) => match permission_label(row) {
                Some(label) => add_text(&mut out, label),
                None => {},
            },
            None => {},
        }
        let ghost p1 = crate::text::views(out@);
        match self.session_model() {
            Some(selection) => {
                add_text(&mut out, self.tell_with("status1.model", selection.model.as_str()));
                match &selection.reasoning_effort {
                    Some(effort) => add_text(
                        &mut out,
                        self.tell_with("status1.effort", effort.as_str()),
                    ),
                    None => {},
                }
            },
            None => {},
        }
        let ghost p2 = crate::text::views(out@);
        match self.active_state() {
            Some(state) => {
                let stats = session_stats(state);
                let used = stats.input_tokens + stats.cache_read_tokens;
                if used > 0 {
                    let count = format_tokens_abs(used);
                    let text = match stats.context_window {
                        Some(window) => if window > 0 {
                            let share = i64_text(fullness_of(used, window));
                            self.tell_with_two("status1.context", count.as_str(), share.as_str())
                        } else {
                            self.tell_with("status1.context_used", count.as_str())
                        },
                        None => self.tell_with("status1.context_used", count.as_str()),
                    };
                    add_text(&mut out, text);
                }
            },
            None => {},
        }
        proof {
            let m = self@;
            assert(p1 =~= m.permission_part());
            assert(p2 =~= p1 + m.model_part());
            assert(crate::text::views(out@) =~= p2 + m.context_part());
        }
        if out.len() == 0 {
            None
        } else {
            Some(Piece { role: Role::Text, text: join_texts(&out, " | ") })
        }
    }

    /// The header, where a session is active and has a row. `jobs` is how many of its jobs run.
    pub fn header_line(&self, jobs: u64) -> (r: Option<String>)
        ensures
            crate::text::opt_view(r) == self@.header(jobs),
    {
        let row = match self.active_summary() {
            Some(row) => row,
            None => return None,
        };
        let mut out: Vec<String> = Vec::new();
        let ghost p0 = crate::text::views(out@);
        proof {
            assert(p0 =~= Seq::<Seq<char>>::empty());
        }
        add_text(&mut out, self.tell_with("header.session", label_of(row).as_str()));
        let ghost p1 = crate::text::views(out@);
        match &row.agent_preset {
            Some(preset) => add_text(&mut out, self.tell_with("header.preset", preset.as_str())),
            None => {},
        }
        let ghost p2 = crate::text::views(out@);
        if jobs > 0 {
            add_text(&mut out, self.tell_with("header.jobs", u64_text(jobs).as_str()));
        }
        proof {
            let m = self@;
            assert(p1 =~= seq![m.title_part(row@)]);
            assert(p2 =~= p1 + m.preset_part(row@));
            assert(crate::text::views(out@) =~= p2 + m.jobs_part(jobs));
        }
        Some(join_texts(&out, " | "))
    }
}

/// What has to be told is told: an error always stands in the status line, with its own mark.
pub proof fn law_error_shown(app: AppView, spoken: Durations)
    requires
        app.last_error is Some,
    ensures
        app.status_parts(spoken).last() == (PieceView {
            role: Role::Error,
            text: app.text_with("status.error"@, seq![app.last_error->0]),
        }),
        app.indicator() == (PieceView { role: Role::Error, text: "✕"@ }),
{
}

/// A session that has reported nothing has no metrics: none is made up.
pub proof fn law_nothing_made_up(app: AppView, spoken: Durations)
    requires
        app.active_state() is Some,
        ({
            let stats = crate::store::stats::stats_of(app.active_state()->0);
            &&& stats.turns == 0
            &&& stats.llm_spans.len() == 0
            &&& stats.tool_spans.len() == 0
            &&& stats.first_token_spans.len() == 0
            &&& stats.input_tokens == 0
            &&& stats.output_tokens == 0
            &&& stats.cache_read_tokens == 0
        }),
        spoken.speed is None,
    ensures
        app.metrics_part(spoken) is None,
        app.context_part().len() == 0,
{
}

} // verus!
