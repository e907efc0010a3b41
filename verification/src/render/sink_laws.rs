//! What rendering a message keeps.

use vstd::prelude::*;

use crate::render::markdown_events::MdEventView;
use crate::render::sink::{LookView, SinkView};
use crate::render::skill::SkillItemView;
use crate::render::style::Style;

verus! {

/// A folded skill list is one line, its header; an unfolded one has a line more for each
/// skill. Before the header stands at most one empty line.
pub proof fn law_skill_list_lines(st: SinkView, items: Seq<SkillItemView>)
    ensures
        st.with_skills(items).lines.len() == st.spaced().lines.len() + 1 + (if st.folded {
            0
        } else {
            items.len()
        }),
        st.with_skills(items).skill_header == Some(st.spaced().lines.len()),
        st.spaced().lines.len() <= st.lines.len() + 1,
{
}

/// An empty line never opens a message and never follows an empty one.
pub proof fn law_blank_row(st: SinkView)
    ensures
        st.lines.len() == 0 && st.current.len() == 0 ==> st.spaced() == st,
        st.lines.len() > 0 && st.lines.last().blank() ==> st.spaced() == st,
        st.spaced().spaced() == st.spaced(),
{
}

/// The state with another fold.
spec fn refolded(st: SinkView, folded: bool) -> SinkView {
    SinkView { folded, ..st }
}

proof fn lemma_fold_not_read(st: SinkView, event: MdEventView, folded: bool)
    ensures
        refolded(st, folded).after(event) == refolded(st.after(event), folded),
{
}

proof fn lemma_fold_unused(
    base: Style,
    look: LookView,
    events: Seq<MdEventView>,
    a: bool,
    b: bool,
)
    ensures
        crate::render::sink::sunk(crate::render::sink::sink_start(base, look, b), events, None)
            == refolded(
            crate::render::sink::sunk(crate::render::sink::sink_start(base, look, a), events, None),
            b,
        ),
    decreases events.len(),
{
    if events.len() > 0 {
        let front = events.drop_last();
        lemma_fold_unused(base, look, front, a, b);
        lemma_fold_not_read(
            crate::render::sink::sunk(crate::render::sink::sink_start(base, look, a), front, None),
            events.last(),
            b,
        );
    }
}

/// A message without a skill list looks the same whether skill lists are folded or not.
pub proof fn law_fold_only_for_skills(
    events: Seq<MdEventView>,
    base: Style,
    look: LookView,
)
    requires
        crate::render::skill::skill_block(events) is None,
    ensures
        crate::render::sink::rendered_events(events, base, look, true)
            == crate::render::sink::rendered_events(events, base, look, false),
{
    lemma_fold_unused(base, look, events, true, false);
}

} // verus!
