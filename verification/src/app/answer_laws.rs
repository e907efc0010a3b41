//! What becomes of a request that waits for the user, whatever else is open.

use vstd::prelude::*;

use crate::app::answer::ReceiptReason;
use crate::app::command::CommandView;
use crate::app::state::{
    AnswerTagView, AppView, ApprovalPendingView, ModeView, QuestionPendingView,
};
use crate::store::node::{ChatNodeView, NodeDataView};
use crate::wire::{ApprovalResponseOutcome, AskUserQuestionItemView, MuxFrameView};

verus! {

/// Those of a list that meet a condition are in the list and meet it, and none is left out.
proof fn lemma_kept<T>(list: Seq<T>, p: spec_fn(T) -> bool)
    ensures
        forall|x: T| #[trigger] list.filter(p).contains(x) <==> list.contains(x) && p(x),
    decreases list.len(),
{
    reveal(Seq::filter);
    if list.len() > 0 {
        let front = list.drop_last();
        lemma_kept(front, p);
        assert forall|x: T| #[trigger] list.filter(p).contains(x) <==> list.contains(x) && p(x) by {
            assert(front.filter(p).contains(x) <==> front.contains(x) && p(x));
            if list.contains(x) {
                let i = choose|i: int| 0 <= i < list.len() && list[i] == x;
                if i < front.len() {
                    assert(front[i] == x);
                }
            }
            if front.contains(x) {
                let i = choose|i: int| 0 <= i < front.len() && front[i] == x;
                assert(list[i] == x);
            }
            if front.filter(p).contains(x) {
                let i = choose|i: int| 0 <= i < front.filter(p).len() && front.filter(p)[i] == x;
                assert(list.filter(p)[i] == x);
            }
            if list.filter(p).contains(x) {
                let i = choose|i: int| 0 <= i < list.filter(p).len() && list.filter(p)[i] == x;
                if i < front.filter(p).len() {
                    assert(front.filter(p)[i] == x);
                } else {
                    assert(x == list[list.len() - 1]);
                }
            }
            if p(list.last()) {
                assert(list.filter(p)[list.filter(p).len() - 1] == list.last());
            }
        }
    }
}

/// An approval that is asked for is open from then on, with what its frame says, and in place of
/// one with its id; the other approvals and the questions stay open. The screen shows it as the
/// frame has it, with no answer on its way.
pub proof fn law_approval_asked(
    app: AppView,
    rpc_id: Seq<char>,
    session_id: Seq<char>,
    approval_id: Seq<char>,
    tool_name: Seq<char>,
    call_id: Option<Seq<char>>,
    reason: Option<Seq<char>>,
    other: ApprovalPendingView,
)
    requires
        app.pending_seq < u64::MAX,
    ensures
        ({
            let out = app.after_request(
                rpc_id,
                MuxFrameView::ApprovalRequested {
                    session_id,
                    approval_id,
                    tool_name,
                    call_id,
                    reason,
                },
            );
            let open = out.pending_approvals;
            &&& open.len() > 0
            &&& open.last().rpc_id == rpc_id && open.last().session_id == session_id
            &&& open.last().approval_id == approval_id && open.last().tool_name == tool_name
            &&& open.last().call_id == call_id && open.last().reason == reason
            &&& open.last().seq > app.pending_seq
            &&& other.approval_id != approval_id ==> (open.contains(other)
                <==> app.pending_approvals.contains(other))
            &&& other.approval_id == approval_id && open.contains(other) ==> other == open.last()
            &&& out.pending_questions == app.pending_questions
            &&& out.mode matches ModeView::Approval(t) && t.rpc_id == rpc_id && t.session_id
                == session_id && t.approval_id == approval_id && t.tool_name == tool_name
                && t.call_id == call_id && t.reason == reason && !t.sending
        }),
{
    reveal(AppView::with_mode);
    reveal(AppView::with_pending_approvals);
    reveal(AppView::with_pending_seq);
    let kept = app.pending_approvals.filter(crate::app::answer::other_approval(approval_id));
    lemma_kept(app.pending_approvals, crate::app::answer::other_approval(approval_id));
    let out = app.after_request(
        rpc_id,
        MuxFrameView::ApprovalRequested { session_id, approval_id, tool_name, call_id, reason },
    );
    let open = out.pending_approvals;
    assert(open == kept.push(open.last()));
    assert(kept.contains(other) <==> app.pending_approvals.contains(other) && other.approval_id
        != approval_id);
    if open.contains(other) {
        let i = choose|i: int| 0 <= i < open.len() && open[i] == other;
        if i < kept.len() {
            assert(kept[i] == other);
        }
    }
    if kept.contains(other) {
        let i = choose|i: int| 0 <= i < kept.len() && kept[i] == other;
        assert(open[i] == other);
    }
}

/// Questions that are asked are open from then on, with what their frame says, and in place of
/// those of the same frame; the others and the approvals stay open. Where the screen shows them,
/// it shows as many as were asked, the first in focus and no answer on its way.
pub proof fn law_question_asked(
    app: AppView,
    rpc_id: Seq<char>,
    session_id: Seq<char>,
    questions: Seq<AskUserQuestionItemView>,
    other: QuestionPendingView,
)
    requires
        app.pending_seq < u64::MAX,
    ensures
        ({
            let out = app.after_request(
                rpc_id,
                MuxFrameView::QuestionRequested { session_id, questions },
            );
            let open = out.pending_questions;
            &&& open.len() > 0
            &&& open.last().rpc_id == rpc_id && open.last().session_id == session_id
            &&& open.last().questions == questions
            &&& open.last().seq > app.pending_seq
            &&& other.rpc_id != rpc_id ==> (open.contains(other)
                <==> app.pending_questions.contains(other))
            &&& other.rpc_id == rpc_id && open.contains(other) ==> other == open.last()
            &&& out.pending_approvals == app.pending_approvals
            &&& !(app.mode is Approval) ==> (out.mode matches ModeView::Question(t) && t.rpc_id
                == rpc_id && t.session_id == session_id && t.questions.len() == questions.len()
                && t.focused == 0 && !t.sending)
        }),
{
    reveal(AppView::with_mode);
    reveal(AppView::with_pending_questions);
    reveal(AppView::with_pending_seq);
    let kept = app.pending_questions.filter(crate::app::answer::other_question(rpc_id));
    lemma_kept(app.pending_questions, crate::app::answer::other_question(rpc_id));
    let out = app.after_request(rpc_id, MuxFrameView::QuestionRequested { session_id, questions });
    let open = out.pending_questions;
    assert(open == kept.push(open.last()));
    assert(kept.contains(other) <==> app.pending_questions.contains(other) && other.rpc_id
        != rpc_id);
    if open.contains(other) {
        let i = choose|i: int| 0 <= i < open.len() && open[i] == other;
        if i < kept.len() {
            assert(kept[i] == other);
        }
    }
    if kept.contains(other) {
        let i = choose|i: int| 0 <= i < kept.len() && kept[i] == other;
        assert(open[i] == other);
    }
}

/// With a gateway the answer to the approval on the screen goes out, under the approval's own
/// ids and with the outcome that was chosen, and the approval stays open until it is confirmed.
/// Without one the approval alone is no longer open, and nothing goes out.
pub proof fn law_approval_answered(
    app: AppView,
    outcome: ApprovalResponseOutcome,
    other: ApprovalPendingView,
)
    requires
        app.mode matches ModeView::Approval(t) && !t.sending,
    ensures
        ({
            let (out, sent) = app.answering_approval(outcome);
            let t = app.mode->Approval_0;
            &&& app.connected ==> {
                &&& sent == Some(
                    CommandView::RespondApproval {
                        rpc_id: t.rpc_id,
                        session_id: t.session_id,
                        approval_id: t.approval_id,
                        outcome,
                    },
                )
                &&& out.pending_approvals == app.pending_approvals
                &&& out.mode matches ModeView::Approval(now) && now.sending && now.approval_id
                    == t.approval_id
            }
            &&& !app.connected ==> {
                &&& sent is None
                &&& out.pending_approvals.contains(other) <==> app.pending_approvals.contains(other)
                    && other.approval_id != t.approval_id
            }
            &&& out.pending_questions == app.pending_questions
        }),
{
    reveal(AppView::with_mode);
    reveal(AppView::with_pending_approvals);
    reveal(AppView::with_toast);
    reveal(AppView::with_hint);
    let t = app.mode->Approval_0;
    lemma_kept(app.pending_approvals, crate::app::answer::other_approval(t.approval_id));
    let kept = app.pending_approvals.filter(crate::app::answer::other_approval(t.approval_id));
    assert(kept.contains(other) <==> app.pending_approvals.contains(other) && other.approval_id
        != t.approval_id);
}

/// With a gateway the answers to the questions on the screen go out, under the ids of their
/// frame, and the questions stay open until they are confirmed. Without one these questions
/// alone are no longer open, and nothing goes out.
pub proof fn law_question_answered(app: AppView, other: QuestionPendingView)
    requires
        app.mode matches ModeView::Question(t) && !t.sending,
    ensures
        ({
            let (out, sent) = app.answering_question();
            let t = app.mode->Question_0;
            &&& app.connected ==> {
                &&& sent == Some(
                    CommandView::RespondQuestion {
                        rpc_id: t.rpc_id,
                        session_id: t.session_id,
                        answers: t.answers(),
                    },
                )
                &&& out.pending_questions == app.pending_questions
                &&& out.mode matches ModeView::Question(now) && now.sending && now.rpc_id
                    == t.rpc_id && now.questions == t.questions
            }
            &&& !app.connected ==> {
                &&& sent is None
                &&& out.pending_questions.contains(other) <==> app.pending_questions.contains(other)
                    && other.rpc_id != t.rpc_id
            }
            &&& out.pending_approvals == app.pending_approvals
        }),
{
    reveal(AppView::with_mode);
    reveal(AppView::with_pending_questions);
    reveal(AppView::with_toast);
    reveal(AppView::with_hint);
    let t = app.mode->Question_0;
    lemma_kept(app.pending_questions, crate::app::answer::other_question(t.rpc_id));
    let kept = app.pending_questions.filter(crate::app::answer::other_question(t.rpc_id));
    assert(kept.contains(other) <==> app.pending_questions.contains(other) && other.rpc_id
        != t.rpc_id);
}

/// An approval whose answer was confirmed is no longer open, every other one is, and a toast
/// tells what it was answered.
pub proof fn law_approval_confirmed(
    app: AppView,
    approval_id: Seq<char>,
    outcome: ApprovalResponseOutcome,
    other: ApprovalPendingView,
)
    ensures
        ({
            let out = app.after_answer(AnswerTagView::Approval { approval_id, outcome }, None);
            &&& out.pending_approvals.contains(other) <==> app.pending_approvals.contains(other)
                && other.approval_id != approval_id
            &&& out.pending_questions == app.pending_questions
            &&& out.hint is None
            &&& !app.shows_approval(approval_id) ==> out.mode == app.mode
            &&& out.toast matches Some(toast) && toast.text == app.text(
                match outcome {
                    ApprovalResponseOutcome::AllowedOnce => "toast.allowed_once"@,
                    ApprovalResponseOutcome::Rejected => "toast.rejected"@,
                },
            )
        }),
{
    reveal(AppView::with_mode);
    reveal(AppView::with_pending_approvals);
    reveal(AppView::with_toast);
    reveal(AppView::with_hint);
    lemma_kept(app.pending_approvals, crate::app::answer::other_approval(approval_id));
    let kept = app.pending_approvals.filter(crate::app::answer::other_approval(approval_id));
    assert(kept.contains(other) <==> app.pending_approvals.contains(other) && other.approval_id
        != approval_id);
}

/// Questions whose answers were confirmed are no longer open, and every other one is.
pub proof fn law_question_confirmed(app: AppView, rpc_id: Seq<char>, other: QuestionPendingView)
    ensures
        ({
            let out = app.after_answer(AnswerTagView::Question(rpc_id), None);
            &&& out.pending_questions.contains(other) <==> app.pending_questions.contains(other)
                && other.rpc_id != rpc_id
            &&& out.pending_approvals == app.pending_approvals
            &&& out.hint is None
            &&& !app.shows_question(rpc_id) ==> out.mode == app.mode
        }),
{
    reveal(AppView::with_mode);
    reveal(AppView::with_pending_questions);
    reveal(AppView::with_toast);
    reveal(AppView::with_hint);
    lemma_kept(app.pending_questions, crate::app::answer::other_question(rpc_id));
    let kept = app.pending_questions.filter(crate::app::answer::other_question(rpc_id));
    assert(kept.contains(other) <==> app.pending_questions.contains(other) && other.rpc_id
        != rpc_id);
}

/// What another client resolved is no longer open here, every other request is, and the screen
/// changes only where it showed that request.
pub proof fn law_resolved_elsewhere(app: AppView, frame: MuxFrameView, other: ApprovalPendingView)
    requires
        frame is ApprovalResolved,
    ensures
        ({
            let id = frame->ApprovalResolved_approval_id;
            let out = app.after_resolution(frame);
            &&& out.pending_approvals.contains(other) <==> app.pending_approvals.contains(other)
                && other.approval_id != id
            &&& !app.shows_approval(id) ==> out.mode == app.mode
        }),
{
    reveal(AppView::with_mode);
    reveal(AppView::with_pending_approvals);
    reveal(AppView::with_toast);
    let id = frame->ApprovalResolved_approval_id;
    lemma_kept(app.pending_approvals, crate::app::answer::other_approval(id));
    let kept = app.pending_approvals.filter(crate::app::answer::other_approval(id));
    assert(kept.contains(other) <==> app.pending_approvals.contains(other) && other.approval_id
        != id);
    if app.pending_approvals.contains(other) {
        let i = choose|i: int|
            0 <= i < app.pending_approvals.len() && app.pending_approvals[i] == other;
        assert(app.pending_approvals[i].approval_id == other.approval_id);
    }
}

/// An approval tells of the first call in the session with its call's id, by that call's name;
/// where the session has no such call, of none.
pub proof fn law_call_told(nodes: Seq<ChatNodeView>, call_id: Seq<char>, i: int)
    requires
        0 <= i < nodes.len(),
        nodes[i].data matches NodeDataView::Tool { call: Some(call), .. } && call.call_id
            == call_id,
        forall|k: int|
            0 <= k < i ==> !((#[trigger] nodes[k]).data matches NodeDataView::Tool {
                call: Some(call),
                ..
            } && call.call_id == call_id),
    ensures
        nodes[i].data matches NodeDataView::Tool { call: Some(call), .. } && (
        crate::app::answer::call_summary(nodes, call_id) matches Some(text) && (call.name
            + " "@).is_prefix_of(text)),
{
    crate::seqs::lemma_first_index(nodes, crate::app::answer::of_call(call_id), i);
}

/// An answer failed where the request did, or where the gateway did not accept it; the error of
/// the request is told as it is.
pub proof fn law_answer_failed(
    error: Option<Seq<char>>,
    accepted: bool,
    reason: Option<ReceiptReason>,
    text: Seq<char>,
)
    ensures
        crate::app::answer::answer_failure(error, accepted, reason) is None <==> error is None
            && accepted,
        crate::app::answer::answer_failure(Some(text), accepted, reason) == Some(text),
        crate::app::answer::answer_failure(None, false, Some(ReceiptReason::NotPending)) == Some(
            "not pending"@,
        ),
        crate::app::answer::answer_failure(None, false, Some(ReceiptReason::BadResponse)) == Some(
            "bad response"@,
        ),
{
}

} // verus!
