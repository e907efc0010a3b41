//! What editing a text promises, whatever the text is and wherever the caret stands.

use vstd::prelude::*;

use crate::app::editor::{ComposerView, EditorView, PopupKind};

verus! {

/// Whether `p` is where the line of the place `at` begins.
pub open spec fn begins_line(text: Seq<char>, at: int, p: int) -> bool {
    &&& 0 <= p <= at
    &&& p == 0 || text[p - 1] == '\n'
    &&& forall|i: int| p <= i < at ==> #[trigger] text[i] != '\n'
}

/// Whether `q` is where the line of the place `at` ends.
pub open spec fn ends_line(text: Seq<char>, at: int, q: int) -> bool {
    &&& at <= q <= text.len()
    &&& q == text.len() || text[q] == '\n'
    &&& forall|i: int| at <= i < q ==> #[trigger] text[i] != '\n'
}

proof fn lemma_begins(text: Seq<char>, at: int)
    requires
        0 <= at <= text.len(),
    ensures
        begins_line(text, at, crate::app::editor::line_start(text, at)),
    decreases at,
{
    if at > 0 && text[at - 1] != '\n' {
        lemma_begins(text, at - 1);
    }
}

proof fn lemma_ends(text: Seq<char>, at: int)
    requires
        0 <= at <= text.len(),
    ensures
        ends_line(text, at, crate::app::editor::line_stop(text, at)),
    decreases text.len() - at,
{
    if at < text.len() && text[at] != '\n' {
        lemma_ends(text, at + 1);
    }
}

/// A text that is typed or pasted stands at the caret, what was before and behind the caret
/// stays around it, and the caret comes to stand behind it.
pub proof fn law_typed_at_caret(e: EditorView, text: Seq<char>)
    requires
        0 <= e.caret <= e.text.len(),
    ensures
        e.typed_all(text).text == e.text.take(e.caret) + text + e.text.skip(e.caret),
        e.typed_all(text).caret == e.caret + text.len(),
    decreases text.len(),
{
    if text.len() == 0 {
        assert(e.text =~= e.text.take(e.caret) + text + e.text.skip(e.caret));
    } else {
        law_typed_at_caret(e, text.drop_last());
        let before = e.typed_all(text.drop_last());
        assert(before.typed(text.last()).text =~= e.text.take(e.caret) + text + e.text.skip(
            e.caret,
        ));
    }
}

/// Taking out the character behind the caret, or the one before it, takes out that one and no
/// other; the caret stays between the same neighbours. At the ends of the text nothing happens.
pub proof fn law_taken_out(e: EditorView)
    requires
        0 <= e.caret <= e.text.len(),
    ensures
        e.caret < e.text.len() ==> e.without_next().text == e.text.take(e.caret) + e.text.skip(
            e.caret + 1,
        ) && e.without_next().caret == e.caret,
        e.caret == e.text.len() ==> e.without_next() == e,
        e.caret > 0 ==> e.without_previous().text == e.text.take(e.caret - 1) + e.text.skip(e.caret)
            && e.without_previous().caret == e.caret - 1,
        e.caret == 0 ==> e.without_previous() == e,
{
    if e.caret < e.text.len() {
        assert(e.without_next().text =~= e.text.take(e.caret) + e.text.skip(e.caret + 1));
    }
    if e.caret > 0 {
        assert(e.without_previous().text =~= e.text.take(e.caret - 1) + e.text.skip(e.caret));
    }
}

/// A step to the left and one to the right move the caret by one character, as far as there is
/// one, and undo each other.
pub proof fn law_caret_steps(e: EditorView)
    requires
        0 <= e.caret <= e.text.len(),
    ensures
        e.caret > 0 ==> e.to_left().caret == e.caret - 1 && e.to_left().to_right() == e,
        e.caret == 0 ==> e.to_left() == e,
        e.caret < e.text.len() ==> e.to_right().caret == e.caret + 1 && e.to_right().to_left() == e,
        e.caret == e.text.len() ==> e.to_right() == e,
{
}

/// Home and end lead to where the line of the caret begins and ends, and no further: there is no
/// line feed on the way, and a line feed or the end of the text where the way stops.
pub proof fn law_line_bounds(e: EditorView)
    requires
        0 <= e.caret <= e.text.len(),
    ensures
        e.to_home().text == e.text,
        begins_line(e.text, e.caret, e.to_home().caret),
        e.to_end().text == e.text,
        ends_line(e.text, e.caret, e.to_end().caret),
{
    lemma_begins(e.text, e.caret);
    lemma_ends(e.text, e.caret);
}

/// Up leads to the line above, to the same column or to the end of that line where it is
/// shorter; from the first line it leads nowhere.
pub proof fn law_line_up(e: EditorView, p: int, above: int)
    requires
        0 <= e.caret <= e.text.len(),
        begins_line(e.text, e.caret, p),
        p > 0,
        begins_line(e.text, p - 1, above),
    ensures
        e.to_up().text == e.text,
        above <= e.to_up().caret <= p - 1,
        e.caret - p <= p - 1 - above ==> e.to_up().caret - above == e.caret - p,
        e.caret - p > p - 1 - above ==> e.to_up().caret == p - 1,
{
    lemma_begins(e.text, e.caret);
    lemma_same_start(e.text, e.caret, p, crate::app::editor::line_start(e.text, e.caret));
    lemma_begins(e.text, p - 1);
    lemma_same_start(e.text, p - 1, above, crate::app::editor::line_start(e.text, p - 1));
}

/// From the first line up leads nowhere, and from the last line down leads nowhere.
pub proof fn law_no_line_beyond(e: EditorView)
    requires
        0 <= e.caret <= e.text.len(),
    ensures
        begins_line(e.text, e.caret, 0) ==> e.to_up() == e,
        ends_line(e.text, e.caret, e.text.len() as int) ==> e.to_down() == e,
{
    lemma_begins(e.text, e.caret);
    lemma_ends(e.text, e.caret);
    if begins_line(e.text, e.caret, 0) {
        lemma_same_start(e.text, e.caret, 0, crate::app::editor::line_start(e.text, e.caret));
    }
    if ends_line(e.text, e.caret, e.text.len() as int) {
        lemma_same_end(
            e.text,
            e.caret,
            e.text.len() as int,
            crate::app::editor::line_stop(e.text, e.caret),
        );
    }
}

proof fn lemma_same_start(text: Seq<char>, at: int, p: int, q: int)
    requires
        begins_line(text, at, p),
        begins_line(text, at, q),
    ensures
        p == q,
{
    if p < q {
        assert(text[q - 1] != '\n');
    }
    if q < p {
        assert(text[p - 1] != '\n');
    }
}

proof fn lemma_same_end(text: Seq<char>, at: int, p: int, q: int)
    requires
        ends_line(text, at, p),
        ends_line(text, at, q),
    ensures
        p == q,
{
    if p < q {
        assert(text[p] != '\n');
    }
    if q < p {
        assert(text[q] != '\n');
    }
}

/// Down leads to the line below, to the same column or to the end of that line where it is
/// shorter.
pub proof fn law_line_down(e: EditorView, p: int, q: int, below: int)
    requires
        0 <= e.caret <= e.text.len(),
        begins_line(e.text, e.caret, p),
        ends_line(e.text, e.caret, q),
        q < e.text.len(),
        ends_line(e.text, q + 1, below),
    ensures
        e.to_down().text == e.text,
        q + 1 <= e.to_down().caret <= below,
        e.caret - p <= below - (q + 1) ==> e.to_down().caret - (q + 1) == e.caret - p,
        e.caret - p > below - (q + 1) ==> e.to_down().caret == below,
{
    lemma_begins(e.text, e.caret);
    lemma_same_start(e.text, e.caret, p, crate::app::editor::line_start(e.text, e.caret));
    lemma_ends(e.text, e.caret);
    lemma_same_end(e.text, e.caret, q, crate::app::editor::line_stop(e.text, e.caret));
    lemma_ends(e.text, q + 1);
    lemma_same_end(e.text, q + 1, below, crate::app::editor::line_stop(e.text, q + 1));
}

/// The list above the composer is that of commands where the text begins with a slash and that
/// of files where it begins with an at sign, until it is closed; another text has none.
pub proof fn law_popup(c: ComposerView)
    ensures
        c.popup() == Some(PopupKind::Slash) <==> !c.dismissed && c.editor.text.len() > 0
            && c.editor.text[0] == '/',
        c.popup() == Some(PopupKind::At) <==> !c.dismissed && c.editor.text.len() > 0
            && c.editor.text[0] == '@',
        c.closed().popup() is None,
        c.closed().editor == c.editor,
{
}

/// What is typed into the composer goes into its editor, and the list above starts at its first
/// entry again.
pub proof fn law_composer_types(c: ComposerView, text: Seq<char>)
    ensures
        c.typed_all(text).editor == c.editor.typed_all(text),
        text.len() > 0 ==> c.typed_all(text).selected == 0,
    decreases text.len(),
{
    if text.len() > 0 {
        law_composer_types(c, text.drop_last());
    }
}

/// A list that was closed stays closed while there is text, and opens again once the text is
/// gone.
pub proof fn law_dismissed_until_empty(c: ComposerView, e: EditorView)
    ensures
        c.dismissed && e.text.len() > 0 ==> c.edited(e).dismissed,
        e.text.len() == 0 ==> !c.edited(e).dismissed,
        !c.dismissed ==> !c.edited(e).dismissed,
        c.edited(e).editor == e,
{
}

/// An entry that is accepted becomes the text, with the caret behind it and the list closed.
pub proof fn law_accepted(c: ComposerView, text: Seq<char>)
    ensures
        c.accepted(text).editor.text == text,
        c.accepted(text).editor.caret == text.len(),
        c.accepted(text).popup() is None,
{
}

/// The chosen entry of the list moves by one and stays inside the list.
pub proof fn law_popup_moves(c: ComposerView, entries: nat)
    requires
        c.selected < entries <= usize::MAX,
    ensures
        c.down(entries).selected < entries,
        c.selected + 1 < entries ==> c.down(entries).selected == c.selected + 1,
        c.selected + 1 == entries ==> c.down(entries).selected == c.selected,
        c.selected > 0 ==> c.up().selected == c.selected - 1,
        c.selected == 0 ==> c.up().selected == 0,
        c.up().editor == c.editor && c.down(entries).editor == c.editor,
{
}

} // verus!
