//! What the status lines tell, whatever the state is.

use vstd::prelude::*;

use crate::app::state::AppView;
use crate::render::trajectory::{PieceView, Role};
use crate::store::stats::StatsView;

verus! {

/// A share in percent is rounded down: the whole times the percentage is at most a hundred times
/// the part, and one percent more would be too much.
pub proof fn law_percent(part: int, whole: int)
    requires
        part >= 0,
        whole > 0,
    ensures
        crate::app::status::percent(part, whole) * whole <= part * 100,
        part * 100 < (crate::app::status::percent(part, whole) + 1) * whole,
{
    let p = part * 100;
    let q = p / whole;
    assert(q * whole <= p && p < (q + 1) * whole) by (nonlinear_arith)
        requires
            whole > 0,
            q == p / whole,
    ;
}

/// The share of the input that came out of the cache is told of the input and the cache
/// together, where there is any.
pub proof fn law_cache_share(app: AppView, stats: StatsView)
    ensures
        ({
            let base = stats.input_tokens + stats.cache_read_tokens;
            let told = app.cache_part(stats);
            &&& base <= 0 ==> told.len() == 0
            &&& base > 0 ==> told.len() == 1 && told[0] == app.text_with(
                "stats.cache"@,
                seq![
                    crate::text::int_decimal(
                        crate::app::status::percent(stats.cache_read_tokens, base),
                    ),
                ],
            )
        }),
{
}

/// The mark at the right tells the worst that there is: an error before all, then work under
/// way, then a window that is not whole, and else that all is well.
pub proof fn law_indicator(app: AppView)
    ensures
        app.last_error is Some ==> app.indicator().role == Role::Error,
        app.last_error is None && app.busy() ==> app.indicator().role == Role::Active,
        app.last_error is None && !app.busy() && app.active_state() is Some
            && app.active_state()->0.truncated ==> app.indicator().role == Role::Warning,
        app.last_error is None && !app.busy() && (app.active_state() is None
            || !app.active_state()->0.truncated) ==> app.indicator().role == Role::Success,
{
}

/// The time that a turn has taken is told in whole seconds, rounded down.
pub proof fn law_busy_seconds(app: AppView, since: u64)
    requires
        since <= app.clock,
    ensures
        app.seconds_since(since) * 1000 <= app.clock - since,
        app.clock - since < (app.seconds_since(since) + 1) * 1000,
{
}

/// Whether a piece is among some pieces, with its text.
pub open spec fn tells(pieces: Seq<PieceView>, text: Seq<char>) -> bool {
    exists|i: int| 0 <= i < pieces.len() && (#[trigger] pieces[i]).text == text
}

/// What there is to tell is told: a hint, a note and an error stand in the status line, in this
/// order and at its end, where they are.
pub proof fn law_notes_told(app: AppView, spoken: crate::app::status::Durations)
    ensures
        ({
            let parts = app.status_parts(spoken);
            &&& app.hint matches Some(hint) ==> tells(parts, hint)
            &&& app.toast matches Some(toast) ==> tells(parts, toast.text)
            &&& app.last_error is Some ==> parts.last().role == Role::Error
            &&& app.last_error is None && app.toast is Some ==> parts.last().text
                == app.toast->0.text
            &&& app.last_error is None && app.toast is None && app.hint is Some ==> parts.last().text
                == app.hint->0
        }),
{
    let a = crate::app::status::given(app.no_session_part()) + crate::app::status::given(
        app.seq_part(),
    ) + seq![app.focus_part()] + crate::app::status::given(app.metrics_part(spoken));
    let b = crate::app::status::given(app.hint_part());
    let c = crate::app::status::given(app.toast_part());
    let d = crate::app::status::given(app.error_part());
    let parts = app.status_parts(spoken);
    assert(parts == a + b + c + d);
    if app.hint is Some {
        assert(parts[a.len() as int] == b[0]);
    }
    if app.toast is Some {
        assert(parts[a.len() as int + b.len()] == c[0]);
    }
}

/// The pieces of a line stand in their order, a dot between two of them and nowhere else.
pub proof fn law_dotted(parts: Seq<PieceView>, i: int)
    requires
        0 <= i < parts.len(),
    ensures
        ({
            let out = crate::app::status::dotted(parts);
            &&& out.len() == 2 * parts.len() - 1
            &&& out[2 * i] == parts[i]
            &&& i + 1 < parts.len() ==> out[2 * i + 1] == crate::app::status::dot()
        }),
    decreases parts.len(),
{
    if parts.len() > 1 {
        let front = parts.drop_last();
        if i < front.len() {
            law_dotted(front, i);
        } else {
            law_dotted(front, i - 1);
        }
    }
}

/// What the context holds is the input and what came out of the cache; nothing is told while it
/// holds nothing.
pub proof fn law_context_told(app: AppView)
    requires
        app.active_state() is Some,
    ensures
        ({
            let stats = crate::store::stats::stats_of(app.active_state()->0);
            let used = stats.input_tokens + stats.cache_read_tokens;
            let told = app.context_part();
            &&& used <= 0 ==> told.len() == 0
            &&& used > 0 && stats.context_window is None ==> told == seq![
                app.text_with(
                    "status1.context_used"@,
                    seq![crate::render::format::tokens_abs_text(used)],
                ),
            ]
            &&& used > 0 && stats.context_window is Some ==> told.len() == 1
        }),
{
}

/// The model line names the model and, where there is one, the effort.
pub proof fn law_model_told(app: AppView)
    ensures
        app.session_model is None ==> app.model_part().len() == 0,
        app.session_model matches Some(m) ==> app.model_part().len() == (
        if m.reasoning_effort is Some {
            2nat
        } else {
            1
        }) && app.model_part()[0] == app.text_with("status1.model"@, seq![m.model]),
        app.session_model is Some && app.session_model->0.reasoning_effort is Some
            ==> app.model_part()[1] == app.text_with(
            "status1.effort"@,
            seq![app.session_model->0.reasoning_effort->0],
        ),
{
}

} // verus!
