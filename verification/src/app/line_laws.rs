//! What the header, the metrics and the permission tell, whatever the session is.

use vstd::prelude::*;

use crate::app::state::{AppView, SaveKind};
use crate::app::status::Durations;
use crate::render::trajectory::{CountsView, Role, TrajectoryRowView};
use crate::i18n::{Locale, StringsView};
use crate::store::stats::StatsView;
use crate::wire::{RpcErrorView, SessionSummaryView, WorkspaceViewView};

verus! {

/// The header tells of the session on the screen: its title first, then its preset where it has
/// one, and then its jobs where some run.
pub proof fn law_header(app: AppView, row: SessionSummaryView, jobs: u64)
    requires
        app.active_summary() == Some(row),
    ensures
        ({
            let title = app.text_with("header.session"@, seq![crate::app::sidebar::shown_title(row)]);
            let running = app.text_with("header.jobs"@, seq![crate::text::decimal(jobs as nat)]);
            let header = app.header(jobs);
            match row.agent_preset {
                None => if jobs == 0 {
                    header == Some(title)
                } else {
                    header == Some(title + " | "@ + running)
                },
                Some(preset) => {
                    let named = app.text_with("header.preset"@, seq![preset]);
                    if jobs == 0 {
                        header == Some(title + " | "@ + named)
                    } else {
                        header == Some(title + " | "@ + named + " | "@ + running)
                    }
                },
            }
        }),
{
    reveal_with_fuel(crate::text::join_all, 4);
    let parts = seq![app.title_part(row)] + app.preset_part(row) + app.jobs_part(jobs);
    if parts.len() == 1 {
        assert(parts[0] == app.title_part(row));
    } else {
        assert(parts.drop_last()[0] == app.title_part(row));
        if parts.len() == 3 {
            assert(parts.drop_last().last() == app.preset_part(row)[0]);
            assert(parts.drop_last().drop_last()[0] == app.title_part(row));
        }
    }
}

/// Where everything was measured, everything is told, in one order: the turns and steps, the
/// time of the model and of the tools, the time to the first token and the speed, the share of
/// the cache, and the tokens in and out.
pub proof fn law_metrics_in_order(app: AppView, stats: StatsView, spoken: Durations)
    requires
        stats.turns > 0,
        stats.llm_spans.len() > 0,
        stats.tool_spans.len() > 0,
        stats.first_token_spans.len() > 0,
        spoken.speed is Some,
        stats.input_tokens > 0,
        stats.output_tokens > 0,
        stats.cache_read_tokens >= 0,
    ensures
        ({
            let told = app.metrics(stats, spoken);
            &&& told.len() == 5
            &&& told[0] == app.text_with("stats.turns"@, seq![crate::text::decimal(stats.turns)])
                + " · "@ + app.text_with("stats.steps"@, seq![crate::text::decimal(stats.steps)])
            &&& told[1] == app.text_with("stats.llm"@, seq![spoken.llm@]) + " · "@ + app.text_with(
                "stats.tool"@,
                seq![spoken.tool@],
            )
            &&& told[2] == app.text_with("stats.ttft"@, seq![spoken.first_token@]) + " · "@
                + app.text_with("stats.tok_s"@, seq![spoken.speed->0@])
            &&& told[4] == app.text_with(
                "stats.input"@,
                seq![crate::render::format::tokens_text(stats.input_tokens)],
            ) + " · "@ + app.text_with(
                "stats.output"@,
                seq![crate::render::format::tokens_text(stats.output_tokens)],
            )
        }),
{
    reveal_with_fuel(crate::text::join_all, 3);
    let times = app.timing(stats, spoken);
    assert(times.len() == 2);
    assert(times.drop_last()[0] == app.text_with("stats.llm"@, seq![spoken.llm@]));
    let waits = app.latency(stats, spoken);
    assert(waits.len() == 2);
    assert(waits.drop_last()[0] == app.text_with("stats.ttft"@, seq![spoken.first_token@]));
}

/// What was not measured is not told: without a turn, a span and a token there are no metrics.
pub proof fn law_no_metrics(app: AppView, stats: StatsView, spoken: Durations)
    requires
        stats.turns == 0,
        stats.llm_spans.len() == 0,
        stats.tool_spans.len() == 0,
        stats.first_token_spans.len() == 0,
        spoken.speed is None,
        stats.input_tokens == 0,
        stats.output_tokens == 0,
        stats.cache_read_tokens == 0,
    ensures
        app.metrics(stats, spoken).len() == 0,
{
}

/// The right half of the status line tells of a copied text while that is fresh, and else how
/// the session is, with the time that a turn has taken while one runs.
pub proof fn law_right_half(app: AppView)
    ensures
        ({
            let right = app.status_right();
            let fresh = app.copied_flash is Some && !app.aged(
                app.copied_flash->0.at,
                crate::app::state::COPY_FLASH_TTL_MS,
            );
            &&& fresh ==> right.len() == 1 && right[0].text == app.copied_flash->0.text
            &&& !fresh ==> right.len() > 0 && right[0] == app.indicator()
            &&& !fresh && app.busy_since is None ==> right.len() == 1
            &&& !fresh && app.busy_since is Some ==> right.last().text
                == crate::render::format::elapsed_text(app.seconds_since(app.busy_since->0))
        }),
{
}

/// The upper line begins with the permission, and the model stands before the context.
pub proof fn law_upper_line(app: AppView, row: SessionSummaryView, mode: Seq<char>)
    requires
        app.active_summary() == Some(row),
        crate::app::sidebar::permission_of(row) == Some(mode),
    ensures
        ({
            let line = app.meta_parts();
            &&& line.len() > 0 && line[0] == mode
            &&& line.skip(1) == app.model_part() + app.context_part()
        }),
{
    let line = app.meta_parts();
    assert(line.skip(1) =~= app.model_part() + app.context_part());
}

/// Whether a text is one word of a permission mode.
pub open spec fn mode_word(text: Seq<char>) -> bool {
    text.len() > 0 && forall|i: int| 0 <= i < text.len() ==> #[trigger] text[i] != '-'
}

/// A permission mode of two words is shown as those words, each with a capital and a blank
/// between them.
pub proof fn law_mode_of_two_words(a: Seq<char>, b: Seq<char>)
    requires
        mode_word(a),
        mode_word(b),
    ensures
        crate::app::sidebar::permission_text(a + "-"@ + b) == crate::text::upper_forms(a[0])
            + a.skip(1) + " "@ + crate::text::upper_forms(b[0]) + b.skip(1),
{
    reveal_strlit("-");
    reveal_strlit("danger-full-access");
    let s = a + "-"@ + b;
    let n = a.len() as int;
    crate::seqs::lemma_first_index(s, crate::text::equal_to('-'), n);
    crate::seqs::lemma_first_index(b, crate::text::equal_to('-'), b.len() as int);
    assert(s.take(n) =~= a);
    assert(s.skip(n + 1) =~= b);
    assert(crate::text::split(b, '-') =~= seq![b]);
    let parts = crate::text::split(s, '-');
    assert(parts =~= seq![a, b]);
    if s == "danger-full-access"@ {
        let full = "danger-full-access"@;
        assert(full[6] == '-' && full[11] == '-');
        assert(s[6] == '-' && s[11] == '-');
        if n != 6 {
            assert(n < 6 ==> b[6 - n - 1] == '-');
            assert(n > 6 ==> a[6] == '-');
        }
        assert(b[4] == '-');
        assert(false);
    }
    let p = crate::app::sidebar::not_empty();
    reveal(Seq::filter);
    reveal_with_fuel(Seq::filter, 4);
    assert(parts.drop_last() =~= seq![a]);
    assert(seq![a].drop_last() =~= Seq::<Seq<char>>::empty());
    assert(Seq::<Seq<char>>::empty().filter(p) =~= Seq::empty());
    assert(seq![a].filter(p) =~= seq![a]);
    assert(parts.filter(p) =~= seq![a, b]);
    let shown = parts.filter(p).map_values(|word: Seq<char>| crate::app::sidebar::capital(word));
    assert(shown =~= seq![crate::app::sidebar::capital(a), crate::app::sidebar::capital(b)]);
    reveal_with_fuel(crate::text::join_all, 3);
    assert(shown.drop_last() =~= seq![crate::app::sidebar::capital(a)]);
    let first = crate::text::upper_forms(a[0]) + a.skip(1) + " "@;
    assert(first + (crate::text::upper_forms(b[0]) + b.skip(1)) =~= first
        + crate::text::upper_forms(b[0]) + b.skip(1));
}

/// A write of the configuration that succeeded tells nothing; one that failed tells why where it
/// was asked for, and nothing where it was not.
pub proof fn law_save_told(app: AppView, kind: SaveKind, reason: Seq<char>)
    ensures
        app.after_config_save(kind, None) == app,
        kind == SaveKind::Reported ==> (app.after_config_save(kind, Some(reason)).toast matches Some(
            toast,
        ) && toast.text == app.text_with("toast.config_save_failed"@, seq![reason])),
        kind != SaveKind::Reported ==> app.after_config_save(kind, Some(reason)) == app,
{
    reveal(AppView::with_toast);
}

/// Once attached, the application has what the gateway listed, and the session that was opened
/// is the one on the screen; where there is none, that is told.
pub proof fn law_attached(
    app: AppView,
    opened: Option<Seq<char>>,
    sessions: Seq<SessionSummaryView>,
    workspaces: Seq<WorkspaceViewView>,
    archived: Seq<Seq<char>>,
    i: int,
)
    ensures
        ({
            let out = app.attached(opened, sessions, workspaces, archived);
            &&& out.connected
            &&& out.active_session == opened
            &&& out.sessions == sessions
            &&& out.workspaces == workspaces
            &&& out.archived_session_ids == archived
            &&& out.workspace_order.len() == workspaces.len()
            &&& 0 <= i < workspaces.len() ==> out.workspace_order[i] == workspaces[i].workspace_id
            &&& opened is Some ==> out.last_error == app.last_error
            &&& opened is None ==> out.last_error == Some(app.text("main.no_sessions"@))
        }),
{
    reveal(AppView::with_active_session);
    reveal(AppView::with_sessions);
    reveal(AppView::with_workspace_order);
    reveal(AppView::with_workspaces);
    reveal(AppView::with_archived_session_ids);
    reveal(AppView::with_connected);
    reveal(AppView::with_last_error);
}

/// An error of the stream is told by its code and its message, which can be told apart.
pub proof fn law_stream_error(error: RpcErrorView)
    ensures
        (crate::wire::rpc_code(error.kind) + ": "@).is_prefix_of(
            crate::store::stream_error(error),
        ),
        crate::store::stream_error(error).skip(
            (crate::wire::rpc_code(error.kind).len() + 2) as int,
        ) == error.message,
{
    reveal_strlit(": ");
    assert(crate::store::stream_error(error).skip(
        (crate::wire::rpc_code(error.kind).len() + 2) as int,
    ) =~= error.message);
}

/// The ledger's counters: turns, calls and input first, then the model where it is known, and
/// the tools last, each by its name and a dot between two of them.
pub proof fn law_counters(strings: StringsView, locale: Locale, c: CountsView)
    ensures
        ({
            let line = crate::render::trajectory::counter_pieces(strings, locale, c);
            let named = c.model is Some && c.model->0.len() > 0;
            &&& line.len() == (if named {
                9nat
            } else {
                7
            })
            &&& line[0].text == crate::i18n::text_of(strings, locale, "trajectory.header_turns"@)
                + " "@ + crate::text::decimal(c.turns)
            &&& line[2].text == crate::i18n::text_of(strings, locale, "trajectory.header_calls"@)
                + " "@ + crate::text::decimal(c.calls)
            &&& line[4].text == crate::i18n::text_of(strings, locale, "trajectory.header_input"@)
                + " "@ + crate::text::int_decimal(c.input as int)
            &&& named ==> line[6].text == crate::i18n::text_of(
                strings,
                locale,
                "trajectory.header_model"@,
            ) + " "@ + c.model->0
            &&& line.last().text == crate::i18n::text_of(
                strings,
                locale,
                "trajectory.header_tools"@,
            ) + " "@ + crate::text::decimal(c.tools)
            &&& forall|i: int|
                0 <= i < line.len() && i % 2 == 1 ==> (#[trigger] line[i]).text == " · "@
        }),
{
}

/// A tool in the ledger is shown by its name and its arguments, a result and a message by their
/// text, as far as the row is wide.
pub proof fn law_ledger_texts(
    strings: StringsView,
    locale: Locale,
    width: u16,
    name: Seq<char>,
    args: Seq<char>,
)
    requires
        width > 11,
        args.len() > 0,
    ensures
        ({
            let tool = crate::render::trajectory::row_pieces(
                TrajectoryRowView::Tool { name, args },
                strings,
                locale,
                width,
            );
            let result = crate::render::trajectory::row_pieces(
                TrajectoryRowView::ToolResult { text: args },
                strings,
                locale,
                width,
            );
            let message = crate::render::trajectory::row_pieces(
                TrajectoryRowView::Assistant { text: args },
                strings,
                locale,
                width,
            );
            &&& tool.len() == 2 && tool[1].role == Role::Text && tool[1].text
                == crate::render::fit::cut(name + " "@ + args, (width - 6) as nat, 1, "…"@)
            &&& result.len() == 2 && result[1].role == Role::Text && result[1].text
                == crate::render::fit::cut(args, (width - 2) as nat, 1, "…"@)
            &&& message.len() == 2 && message[1].role == Role::Text && message[1].text
                == crate::render::fit::cut(args, (width - 11) as nat, 1, "…"@)
            &&& tool[0].text == crate::i18n::text_of(strings, locale, "trajectory.tool"@) + " "@
            &&& message[0].text == crate::i18n::text_of(strings, locale, "trajectory.assistant"@)
                + " "@
        }),
{
}

} // verus!
