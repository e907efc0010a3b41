//! What answering questions promises, whatever the questions are.

use vstd::prelude::*;

use crate::app::takeover::{
    QuestionAnswerItemView, QuestionStateView, QuestionTakeoverView,
};
use crate::wire::AskUserQuestionItemView;

verus! {

/// How many of the first `n` flags are set.
pub open spec fn flags_set(picked: Seq<bool>, n: int) -> nat
    decreases n,
{
    if n <= 0 {
        0
    } else {
        flags_set(picked, n - 1) + (if picked[n - 1] {
            1nat
        } else {
            0
        })
    }
}

/// Whether one of the first `n` options carries a label and is chosen.
pub open spec fn chosen(options: Seq<Seq<char>>, picked: Seq<bool>, n: int, label: Seq<char>) -> bool {
    exists|i: int| 0 <= i < n && picked[i] && #[trigger] options[i] == label
}

proof fn lemma_labels(options: Seq<Seq<char>>, picked: Seq<bool>, n: nat)
    requires
        n <= options.len(),
        n <= picked.len(),
    ensures
        ({
            let labels = crate::app::takeover::picked_labels(options, picked, n);
            &&& labels.len() == flags_set(picked, n as int)
            &&& forall|i: int|
                0 <= i < n && #[trigger] picked[i] ==> {
                    &&& 0 <= flags_set(picked, i) < labels.len()
                    &&& labels[flags_set(picked, i) as int] == options[i]
                }
            &&& forall|k: int|
                0 <= k < labels.len() ==> chosen(options, picked, n as int, #[trigger] labels[k])
        }),
    decreases n,
{
    if n > 0 {
        let m = (n - 1) as nat;
        lemma_labels(options, picked, m);
        let was = crate::app::takeover::picked_labels(options, picked, m);
        let labels = crate::app::takeover::picked_labels(options, picked, n);
        assert forall|k: int| 0 <= k < labels.len() implies chosen(
            options,
            picked,
            n as int,
            #[trigger] labels[k],
        ) by {
            if k < was.len() {
                assert(labels[k] == was[k]);
                let i = choose|i: int| 0 <= i < m && picked[i] && #[trigger] options[i] == was[k];
                assert(options[i] == labels[k]);
            } else {
                assert(options[n - 1] == labels[k]);
            }
        }
    }
}

/// The labels that answer a question of which several options may be chosen: a label is among
/// them where and only where the flag of an option with that label is set. There are as many as
/// flags that are set, and the label of an option stands behind those of the chosen options
/// before it.
pub proof fn law_chosen_labels(q: QuestionStateView)
    requires
        q.item.multi,
        q.picked.len() == q.item.options.len(),
    ensures
        forall|label: Seq<char>| #[trigger]
            q.labels().contains(label) <==> chosen(
                q.item.options,
                q.picked,
                q.picked.len() as int,
                label,
            ),
        q.labels().len() == flags_set(q.picked, q.picked.len() as int),
        forall|i: int|
            0 <= i < q.picked.len() && #[trigger] q.picked[i]
                ==> q.labels()[flags_set(q.picked, i) as int] == q.item.options[i],
{
    let options = q.item.options;
    lemma_labels(options, q.picked, options.len());
    assert forall|label: Seq<char>| #[trigger]
        q.labels().contains(label) <==> chosen(
            options,
            q.picked,
            q.picked.len() as int,
            label,
        ) by {
        if q.labels().contains(label) {
            let k = choose|k: int| 0 <= k < q.labels().len() && q.labels()[k] == label;
            assert(chosen(options, q.picked, q.picked.len() as int, q.labels()[k]));
        }
        if chosen(options, q.picked, q.picked.len() as int, label) {
            let i = choose|i: int|
                0 <= i < q.picked.len() && q.picked[i] && #[trigger] options[i] == label;
            assert(q.picked[i]);
            assert(q.labels()[flags_set(q.picked, i) as int] == label);
        }
    }
}

proof fn lemma_no_flag(picked: Seq<bool>, n: int)
    requires
        n <= picked.len(),
        forall|i: int| 0 <= i < n ==> !#[trigger] picked[i],
    ensures
        flags_set(picked, n) == 0,
    decreases n,
{
    if n > 0 {
        lemma_no_flag(picked, n - 1);
    }
}

proof fn lemma_one_flag(picked: Seq<bool>, at: int, n: int)
    requires
        0 <= at < n <= picked.len(),
        picked[at],
        forall|i: int| 0 <= i < n && i != at ==> !#[trigger] picked[i],
    ensures
        flags_set(picked, n) == 1,
        flags_set(picked, at) == 0,
    decreases n,
{
    lemma_no_flag(picked, at);
    if n - 1 > at {
        lemma_one_flag(picked, at, n - 1);
    }
}

/// A question as it is asked: the cursor is on the first option, and where several options may
/// be chosen, none is, so that its answer is empty; where only one may be, its answer is the
/// first option.
pub proof fn law_fresh_question(item: AskUserQuestionItemView)
    ensures
        ({
            let q = QuestionStateView::asked(item);
            &&& q.item == item
            &&& q.cursor == 0
            &&& q.picked.len() == item.options.len()
            &&& item.multi ==> q.labels().len() == 0
            &&& !item.multi && item.options.len() > 0 ==> q.labels() == seq![item.options[0]]
            &&& !item.multi && item.options.len() == 0 ==> q.labels().len() == 0
        }),
{
    let q = QuestionStateView::asked(item);
    lemma_no_flag(q.picked, q.picked.len() as int);
    if item.multi {
        law_chosen_labels(q);
    }
}

/// Where several options may be chosen and none is, choosing the option under the cursor makes
/// that option the whole answer.
pub proof fn law_first_choice(item: AskUserQuestionItemView, cursor: usize)
    requires
        item.multi,
        cursor < item.options.len(),
    ensures
        (QuestionStateView { cursor, ..QuestionStateView::asked(item) }).toggled().labels()
            == seq![item.options[cursor as int]],
{
    let q = (QuestionStateView { cursor, ..QuestionStateView::asked(item) }).toggled();
    lemma_one_flag(q.picked, cursor as int, q.picked.len() as int);
    law_chosen_labels(q);
    assert(q.picked[cursor as int]);
    assert(q.labels() =~= seq![item.options[cursor as int]]);
}

/// Choosing an option changes the choice of the option under the cursor and of no other, and
/// choosing it again takes it back. Where only one option may be chosen it changes nothing.
pub proof fn law_toggle(q: QuestionStateView)
    ensures
        q.toggled().toggled() == q,
        q.toggled().item == q.item,
        q.toggled().cursor == q.cursor,
        q.toggled().picked.len() == q.picked.len(),
        forall|i: int|
            0 <= i < q.picked.len() && i != q.cursor ==> #[trigger] q.toggled().picked[i]
                == q.picked[i],
        q.item.multi && q.cursor < q.picked.len() ==> q.toggled().picked[q.cursor as int]
            != q.picked[q.cursor as int],
        !q.item.multi ==> q.toggled() == q,
{
    assert(q.toggled().toggled().picked =~= q.picked);
}

/// Where one option may be chosen, the answer is the option under the cursor and nothing else.
pub proof fn law_single_answer(q: QuestionStateView)
    requires
        !q.item.multi,
        q.cursor < q.item.options.len(),
    ensures
        q.labels().len() == 1,
        q.labels()[0] == q.item.options[q.cursor as int],
{
}

/// The cursor of a question moves by one option at a time, stays among the options, and changes
/// no choice.
pub proof fn law_cursor_moves(q: QuestionStateView)
    requires
        q.cursor < q.item.options.len() <= usize::MAX,
    ensures
        q.down().cursor < q.item.options.len(),
        q.down().cursor == q.cursor + 1 || q.cursor + 1 == q.item.options.len() && q.down().cursor
            == q.cursor,
        q.up().cursor == q.cursor - 1 || q.cursor == 0 && q.up().cursor == 0,
        q.up().picked == q.picked && q.up().item == q.item,
        q.down().picked == q.picked && q.down().item == q.item,
{
}

/// The answer holds one entry for each question, in the order of the questions, with the
/// question's id and the labels that answer it.
pub proof fn law_answers(t: QuestionTakeoverView)
    ensures
        t.answers().len() == t.questions.len(),
        forall|i: int|
            0 <= i < t.questions.len() ==> (#[trigger] t.answers()[i]).id
                == t.questions[i].item.id && t.answers()[i].selected == t.questions[i].labels(),
{
}

/// Keys act on the question in focus and leave every other question as it was.
pub proof fn law_only_focused_changes(t: QuestionTakeoverView, i: int)
    requires
        0 <= i < t.questions.len(),
    ensures
        t.up().questions.len() == t.questions.len(),
        t.down().questions.len() == t.questions.len(),
        t.toggled().questions.len() == t.questions.len(),
        i != t.focused ==> t.up().questions[i] == t.questions[i],
        i != t.focused ==> t.down().questions[i] == t.questions[i],
        i != t.focused ==> t.toggled().questions[i] == t.questions[i],
        i == t.focused ==> t.up().questions[i] == t.questions[i].up(),
        i == t.focused ==> t.down().questions[i] == t.questions[i].down(),
        i == t.focused ==> t.toggled().questions[i] == t.questions[i].toggled(),
        t.focused_on().questions == t.questions,
        t.up().focused == t.focused && t.down().focused == t.focused && t.toggled().focused
            == t.focused,
{
}

/// The next question comes into focus, and the first one behind the last.
pub proof fn law_focus_goes_round(t: QuestionTakeoverView)
    requires
        t.focused < t.questions.len() <= usize::MAX,
    ensures
        t.focused + 1 < t.questions.len() ==> t.focused_on().focused == t.focused + 1,
        t.focused + 1 == t.questions.len() ==> t.focused_on().focused == 0,
{
}

/// The takeover of a question frame shows each question of the frame as it is asked, in the
/// order of the frame.
pub proof fn law_questions_asked(
    session_id: Seq<char>,
    rpc_id: Seq<char>,
    items: Seq<AskUserQuestionItemView>,
)
    ensures
        ({
            let t = QuestionTakeoverView::asked(session_id, rpc_id, items);
            &&& t.session_id == session_id
            &&& t.rpc_id == rpc_id
            &&& t.focused == 0
            &&& !t.sending
            &&& t.questions.len() == items.len()
            &&& forall|i: int| 0 <= i < items.len() ==> (#[trigger] t.questions[i]).item == items[i]
        }),
{
}

} // verus!
