//! Requests that wait for the user: approvals and questions.
//!
//! The approval that came last takes the screen; a question takes it while no approval is
//! open. Others may answer too: what they resolve leaves the screen, with a note.

use vstd::prelude::*;

use crate::app::command::{Command, CommandView};
use crate::app::state::{
    AnswerTag, AnswerTagView, App, AppView, ApprovalPending, ApprovalPendingView, Mode, ModeView,
    QuestionPending, QuestionPendingView,
};
use crate::app::takeover::{
    ApprovalTakeover, ApprovalTakeoverView, QuestionTakeover, QuestionTakeoverView,
};
use crate::render::fit::truncate_width;
use crate::store::node::{NodeData, NodeDataView};
use crate::store::node::ChatNodeView;
use crate::text::{duplicate_all, duplicate_opt, joined, same, Duplicate};
use crate::wire::{
    ApprovalOutcome, ApprovalResponseOutcome, MuxFrame, MuxFrameView, QuestionOutcome, RpcId,
    SessionId,
};

verus! {

// ---------------------------------------------------------------------------
// what is open
// ---------------------------------------------------------------------------

/// Whether an approval is another one.
pub open spec fn other_approval(id: Seq<char>) -> spec_fn(ApprovalPendingView) -> bool {
    |p: ApprovalPendingView| p.approval_id != id
}

/// Whether a question frame is another one.
pub open spec fn other_question(rpc_id: Seq<char>) -> spec_fn(QuestionPendingView) -> bool {
    |p: QuestionPendingView| p.rpc_id != rpc_id
}

/// Whether an approval is open.
pub open spec fn has_approval(list: Seq<ApprovalPendingView>, id: Seq<char>) -> bool {
    exists|i: int| 0 <= i < list.len() && (#[trigger] list[i]).approval_id == id
}

/// Whether a question frame is open.
pub open spec fn has_question(list: Seq<QuestionPendingView>, rpc_id: Seq<char>) -> bool {
    exists|i: int| 0 <= i < list.len() && (#[trigger] list[i]).rpc_id == rpc_id
}

/// The open approval that came last.
pub open spec fn newest_approval(list: Seq<ApprovalPendingView>) -> Option<ApprovalPendingView>
    decreases list.len(),
{
    if list.len() == 0 {
        None
    } else {
        match newest_approval(list.drop_last()) {
            Some(best) => if list.last().seq >= best.seq {
                Some(list.last())
            } else {
                Some(best)
            },
            None => Some(list.last()),
        }
    }
}

/// The open question frame that came last.
pub open spec fn newest_question(list: Seq<QuestionPendingView>) -> Option<QuestionPendingView>
    decreases list.len(),
{
    if list.len() == 0 {
        None
    } else {
        match newest_question(list.drop_last()) {
            Some(best) => if list.last().seq >= best.seq {
                Some(list.last())
            } else {
                Some(best)
            },
            None => Some(list.last()),
        }
    }
}

fn drop_approval(list: &Vec<ApprovalPending>, id: &str) -> (r: Vec<ApprovalPending>)
    ensures
        crate::text::views(r@) == crate::text::views(list@).filter(other_approval(id@)),
{
    let ghost all = crate::text::views(list@);
    let mut kept: Vec<ApprovalPending> = Vec::new();
    let mut i: usize = 0;
    proof {
        reveal(Seq::filter);
        assert(crate::text::views(kept@) =~= all.take(0).filter(other_approval(id@)));
    }
    while i < list.len()
        invariant
            i <= list@.len(),
            all == crate::text::views(list@),
            crate::text::views(kept@) == all.take(i as int).filter(other_approval(id@)),
        decreases list.len() - i,
    {
        proof {
            assert(all[i as int] == list@[i as int]@);
            assert(all.take(i + 1).drop_last() =~= all.take(i as int));
            assert(all.take(i + 1).last() == all[i as int]);
            reveal(Seq::filter);
        }
        if !same(list[i].approval_id.0.as_str(), id) {
            let entry = list[i].duplicate();
            proof {
                assert(crate::text::views(kept@.push(entry)) =~= crate::text::views(kept@).push(
                    entry@,
                ));
            }
            kept.push(entry);
        }
        i = i + 1;
    }
    proof {
        assert(all.take(i as int) =~= all);
    }
    kept
}

fn drop_question(list: &Vec<QuestionPending>, rpc_id: &str) -> (r: Vec<QuestionPending>)
    ensures
        crate::text::views(r@) == crate::text::views(list@).filter(other_question(rpc_id@)),
{
    let ghost all = crate::text::views(list@);
    let mut kept: Vec<QuestionPending> = Vec::new();
    let mut i: usize = 0;
    proof {
        reveal(Seq::filter);
        assert(crate::text::views(kept@) =~= all.take(0).filter(other_question(rpc_id@)));
    }
    while i < list.len()
        invariant
            i <= list@.len(),
            all == crate::text::views(list@),
            crate::text::views(kept@) == all.take(i as int).filter(other_question(rpc_id@)),
        decreases list.len() - i,
    {
        proof {
            assert(all[i as int] == list@[i as int]@);
            assert(all.take(i + 1).drop_last() =~= all.take(i as int));
            assert(all.take(i + 1).last() == all[i as int]);
            reveal(Seq::filter);
        }
        if !same(list[i].rpc_id.0.as_str(), rpc_id) {
            let entry = list[i].duplicate();
            proof {
                assert(crate::text::views(kept@.push(entry)) =~= crate::text::views(kept@).push(
                    entry@,
                ));
            }
            kept.push(entry);
        }
        i = i + 1;
    }
    proof {
        assert(all.take(i as int) =~= all);
    }
    kept
}

fn approval_open(list: &Vec<ApprovalPending>, id: &str) -> (r: bool)
    ensures
        r == has_approval(crate::text::views(list@), id@),
{
    let ghost all = crate::text::views(list@);
    let mut i: usize = 0;
    while i < list.len()
        invariant
            i <= list@.len(),
            all == crate::text::views(list@),
            forall|k: int| 0 <= k < i ==> (#[trigger] all[k]).approval_id != id@,
        decreases list.len() - i,
    {
        proof {
            assert(all[i as int] == list@[i as int]@);
        }
        if same(list[i].approval_id.0.as_str(), id) {
            return true;
        }
        i = i + 1;
    }
    false
}

fn question_open(list: &Vec<QuestionPending>, rpc_id: &str) -> (r: bool)
    ensures
        r == has_question(crate::text::views(list@), rpc_id@),
{
    let ghost all = crate::text::views(list@);
    let mut i: usize = 0;
    while i < list.len()
        invariant
            i <= list@.len(),
            all == crate::text::views(list@),
            forall|k: int| 0 <= k < i ==> (#[trigger] all[k]).rpc_id != rpc_id@,
        decreases list.len() - i,
    {
        proof {
            assert(all[i as int] == list@[i as int]@);
        }
        if same(list[i].rpc_id.0.as_str(), rpc_id) {
            return true;
        }
        i = i + 1;
    }
    false
}

fn last_approval(list: &Vec<ApprovalPending>) -> (r: Option<&ApprovalPending>)
    ensures
        crate::text::opt_view(r) == newest_approval(crate::text::views(list@)),
{
    let ghost all = crate::text::views(list@);
    let mut best: Option<&ApprovalPending> = None;
    let mut i: usize = 0;
    while i < list.len()
        invariant
            i <= list@.len(),
            all == crate::text::views(list@),
            crate::text::opt_view(best) == newest_approval(all.take(i as int)),
        decreases list.len() - i,
    {
        proof {
            assert(all.take(i + 1).drop_last() =~= all.take(i as int));
            assert(all.take(i + 1).last() == list@[i as int]@);
        }
        best = match best {
            Some(b) => if list[i].seq >= b.seq {
                Some(&list[i])
            } else {
                Some(b)
            },
            None => Some(&list[i]),
        };
        i = i + 1;
    }
    proof {
        assert(all.take(i as int) =~= all);
    }
    best
}

fn last_question(list: &Vec<QuestionPending>) -> (r: Option<&QuestionPending>)
    ensures
        crate::text::opt_view(r) == newest_question(crate::text::views(list@)),
{
    let ghost all = crate::text::views(list@);
    let mut best: Option<&QuestionPending> = None;
    let mut i: usize = 0;
    while i < list.len()
        invariant
            i <= list@.len(),
            all == crate::text::views(list@),
            crate::text::opt_view(best) == newest_question(all.take(i as int)),
        decreases list.len() - i,
    {
        proof {
            assert(all.take(i + 1).drop_last() =~= all.take(i as int));
            assert(all.take(i + 1).last() == list@[i as int]@);
        }
        best = match best {
            Some(b) => if list[i].seq >= b.seq {
                Some(&list[i])
            } else {
                Some(b)
            },
            None => Some(&list[i]),
        };
        i = i + 1;
    }
    proof {
        assert(all.take(i as int) =~= all);
    }
    best
}

// ---------------------------------------------------------------------------
// takeovers
// ---------------------------------------------------------------------------

/// Whether a node is that of a tool call.
pub open spec fn of_call(call_id: Seq<char>) -> spec_fn(ChatNodeView) -> bool {
    |node: ChatNodeView|
        match node.data {
            NodeDataView::Tool { call: Some(call), .. } => call.call_id == call_id,
            _ => false,
        }
}

/// The tool call of some nodes in one line: its name and the beginning of its arguments.
pub open spec fn call_summary(nodes: Seq<ChatNodeView>, call_id: Seq<char>) -> Option<Seq<char>> {
    let at = crate::seqs::first_index(nodes, of_call(call_id));
    if at < nodes.len() {
        match nodes[at].data {
            NodeDataView::Tool { call: Some(call), .. } => Some(
                call.name + " "@ + crate::render::fit::cut(call.args_raw, 60, 3, "..."@),
            ),
            _ => None,
        }
    } else {
        None
    }
}

/// The text of a resolution that came from elsewhere.
pub open spec fn remote_approval_key(outcome: ApprovalOutcome) -> Seq<char> {
    match outcome {
        ApprovalOutcome::AllowedOnce => "toast.approved_remote"@,
        ApprovalOutcome::Rejected => "toast.rejected_remote"@,
        ApprovalOutcome::Cancelled => "toast.approval_cancelled"@,
        ApprovalOutcome::Unavailable => "toast.approval_unavailable"@,
    }
}

/// The text of a resolution that came from elsewhere.
pub open spec fn remote_question_key(outcome: QuestionOutcome) -> Seq<char> {
    match outcome {
        QuestionOutcome::Answered => "toast.answered_remote"@,
        QuestionOutcome::Cancelled => "toast.question_cancelled"@,
    }
}

/// The text of an answer that was accepted.
pub open spec fn answered_key(outcome: ApprovalResponseOutcome) -> Seq<char> {
    match outcome {
        ApprovalResponseOutcome::AllowedOnce => "toast.allowed_once"@,
        ApprovalResponseOutcome::Rejected => "toast.rejected"@,
    }
}

impl AppView {
    /// The tool call that an approval waits for, in one line, where its session has it.
    pub open spec fn summary_of(self, session_id: Seq<char>, call_id: Option<Seq<char>>) -> Option<
        Seq<char>,
    > {
        if call_id is Some && self.store.sessions.dom().contains(session_id) {
            call_summary(self.store.sessions[session_id].nodes, call_id->0)
        } else {
            None
        }
    }

    /// An approval on the screen.
    pub open spec fn approval_mode(self, p: ApprovalPendingView) -> ModeView {
        ModeView::Approval(
            ApprovalTakeoverView {
                session_id: p.session_id,
                approval_id: p.approval_id,
                rpc_id: p.rpc_id,
                tool_name: p.tool_name,
                call_id: p.call_id,
                reason: p.reason,
                tool_summary: self.summary_of(p.session_id, p.call_id),
                sending: false,
            },
        )
    }

    /// What has the screen once the displayed request is resolved: the open approval that came
    /// last, else the open question that came last, else the chat.
    pub open spec fn next_mode(self) -> ModeView {
        match newest_approval(self.pending_approvals) {
            Some(p) => self.approval_mode(p),
            None => match newest_question(self.pending_questions) {
                Some(q) => ModeView::Question(
                    QuestionTakeoverView::asked(q.session_id, q.rpc_id, q.questions),
                ),
                None => ModeView::Chat,
            },
        }
    }

    /// An approval recorded and shown.
    pub open spec fn with_approval(self, p: ApprovalPendingView) -> AppView {
        self.with_mode(self.approval_mode(p)).with_pending_approvals(
            self.pending_approvals.filter(other_approval(p.approval_id)).push(p),
        )
    }

    /// A question frame recorded, and shown unless an approval is.
    pub open spec fn with_question(self, q: QuestionPendingView) -> AppView {
        let list = self.pending_questions.filter(other_question(q.rpc_id)).push(q);
        if self.mode is Approval {
            self.with_pending_questions(list)
        } else {
            self.with_mode(
                ModeView::Question(
                    QuestionTakeoverView::asked(q.session_id, q.rpc_id, q.questions),
                ),
            ).with_pending_questions(list)
        }
    }

    /// One more request counted.
    pub open spec fn counted(self) -> AppView {
        self.with_pending_seq((self.pending_seq + 1) as u64)
    }

    /// A request recorded.
    pub open spec fn after_request(self, rpc_id: Seq<char>, frame: MuxFrameView) -> AppView {
        let seq = (self.pending_seq + 1) as u64;
        match frame {
            MuxFrameView::ApprovalRequested {
                session_id,
                approval_id,
                tool_name,
                call_id,
                reason,
            } => self.counted().with_approval(
                ApprovalPendingView {
                    rpc_id,
                    session_id,
                    approval_id,
                    tool_name,
                    call_id,
                    reason,
                    seq,
                },
            ),
            MuxFrameView::QuestionRequested { session_id, questions } => self.counted().with_question(
                QuestionPendingView { rpc_id, session_id, questions, seq },
            ),
            _ => self.counted(),
        }
    }

    /// The open approval taken out.
    pub open spec fn without_approval(self, id: Seq<char>) -> AppView {
        self.with_pending_approvals(self.pending_approvals.filter(other_approval(id)))
    }

    /// The open question taken out.
    pub open spec fn without_question(self, rpc_id: Seq<char>) -> AppView {
        self.with_pending_questions(self.pending_questions.filter(other_question(rpc_id)))
    }

    /// Whether an approval is the displayed one.
    pub open spec fn shows_approval(self, id: Seq<char>) -> bool {
        match self.mode {
            ModeView::Approval(takeover) => takeover.approval_id == id,
            _ => false,
        }
    }

    /// Whether a question frame is the displayed one.
    pub open spec fn shows_question(self, rpc_id: Seq<char>) -> bool {
        match self.mode {
            ModeView::Question(takeover) => takeover.rpc_id == rpc_id,
            _ => false,
        }
    }

    /// The next request on the screen.
    pub open spec fn promoted(self) -> AppView {
        self.with_mode(self.next_mode())
    }

    /// A resolution: that of an open request came from elsewhere, and is noted; that of any
    /// other is the echo of an answer given here.
    pub open spec fn after_resolution(self, frame: MuxFrameView) -> AppView {
        match frame {
            MuxFrameView::ApprovalResolved { approval_id, outcome, .. } => if has_approval(
                self.pending_approvals,
                approval_id,
            ) {
                let noted = self.without_approval(approval_id).noted(
                    remote_approval_key(outcome),
                );
                if self.shows_approval(approval_id) {
                    noted.promoted()
                } else {
                    noted
                }
            } else {
                self
            },
            MuxFrameView::QuestionResolved { question_rpc_id, outcome, .. } => if has_question(
                self.pending_questions,
                question_rpc_id,
            ) {
                let noted = self.without_question(question_rpc_id).noted(
                    remote_question_key(outcome),
                );
                if self.shows_question(question_rpc_id) {
                    noted.promoted()
                } else {
                    noted
                }
            } else {
                self
            },
            _ => self,
        }
    }

    /// The displayed approval answered: sent where a gateway is attached, else taken as
    /// accepted. While an answer is on its way, nothing happens.
    pub open spec fn answering_approval(self, outcome: ApprovalResponseOutcome) -> (
        AppView,
        Option<CommandView>,
    ) {
        match self.mode {
            ModeView::Approval(takeover) => if takeover.sending {
                (self, None)
            } else if self.connected {
                (
                    self.advised("hint.sending"@).with_mode(
                        ModeView::Approval(ApprovalTakeoverView { sending: true, ..takeover }),
                    ),
                    Some(
                        CommandView::RespondApproval {
                            rpc_id: takeover.rpc_id,
                            session_id: takeover.session_id,
                            approval_id: takeover.approval_id,
                            outcome,
                        },
                    ),
                )
            } else {
                (
                    self.without_approval(takeover.approval_id).promoted().noted(answered_key(outcome)),
                    None,
                )
            },
            _ => (self, None),
        }
    }

    /// The displayed questions answered, in the same way.
    pub open spec fn answering_question(self) -> (AppView, Option<CommandView>) {
        match self.mode {
            ModeView::Question(takeover) => if takeover.sending {
                (self, None)
            } else if self.connected {
                (
                    self.advised("hint.sending"@).with_mode(
                        ModeView::Question(QuestionTakeoverView { sending: true, ..takeover }),
                    ),
                    Some(
                        CommandView::RespondQuestion {
                            rpc_id: takeover.rpc_id,
                            session_id: takeover.session_id,
                            answers: takeover.answers(),
                        },
                    ),
                )
            } else {
                (
                    self.without_question(takeover.rpc_id).promoted().noted("toast.answered"@),
                    None,
                )
            },
            _ => (self, None),
        }
    }

    /// Whether an answer belongs to the displayed request.
    pub open spec fn shows(self, tag: AnswerTagView) -> bool {
        match tag {
            AnswerTagView::Approval { approval_id, .. } => self.shows_approval(approval_id),
            AnswerTagView::Question(rpc_id) => self.shows_question(rpc_id),
        }
    }

    /// The answered request taken out.
    pub open spec fn without(self, tag: AnswerTagView) -> AppView {
        match tag {
            AnswerTagView::Approval { approval_id, .. } => self.without_approval(approval_id),
            AnswerTagView::Question(rpc_id) => self.without_question(rpc_id),
        }
    }

    /// The displayed request ready to be answered again.
    pub open spec fn rearmed(self) -> AppView {
        self.with_mode(
            match self.mode {
                ModeView::Approval(takeover) => ModeView::Approval(
                    ApprovalTakeoverView { sending: false, ..takeover },
                ),
                ModeView::Question(takeover) => ModeView::Question(
                    QuestionTakeoverView { sending: false, ..takeover },
                ),
                other => other,
            },
        )
    }

    /// An answer that came back. `failure` is why it was not accepted. An accepted answer
    /// takes its request out and, where it is displayed, brings up the next; one that failed
    /// leaves everything as it is, ready for another try.
    pub open spec fn after_answer(self, tag: AnswerTagView, failure: Option<Seq<char>>) -> AppView {
        let cleared = self.unhinted();
        match failure {
            None => {
                let dropped = cleared.without(tag);
                let shown = if self.shows(tag) {
                    dropped.promoted()
                } else {
                    dropped
                };
                match tag {
                    AnswerTagView::Approval { outcome, .. } => shown.noted(answered_key(outcome)),
                    AnswerTagView::Question(_) => shown.toasted("answered"@),
                }
            },
            Some(reason) => {
                let noted = cleared.toasted("answer failed: "@ + reason);
                if self.shows(tag) {
                    noted.rearmed()
                } else {
                    noted
                }
            },
        }
    }
}

/// Why a gateway did not accept an answer.
#[derive(Debug, Clone, Copy, PartialEq, Eq, Structural)]
pub enum ReceiptReason {
    NotPending,
    BadResponse,
}

/// Why an answer failed: the error of the request, or what the receipt says. Nothing where it
/// was accepted.
pub open spec fn answer_failure(
    error: Option<Seq<char>>,
    accepted: bool,
    reason: Option<ReceiptReason>,
) -> Option<Seq<char>> {
    match error {
        Some(text) => Some(text),
        None => if accepted {
            None
        } else {
            Some(
                match reason {
                    Some(ReceiptReason::NotPending) => "not pending"@,
                    Some(ReceiptReason::BadResponse) => "bad response"@,
                    None => "not accepted"@,
                },
            )
        },
    }
}

/// Why an answer failed.
pub fn failure_of(error: Option<String>, accepted: bool, reason: Option<ReceiptReason>) -> (r: Option<
    String,
>)
    ensures
        crate::text::opt_view(r) == answer_failure(crate::text::opt_view(error), accepted, reason),
{
    match error {
        Some(text) => Some(text),
        None => if accepted {
            None
        } else {
            Some(
                match reason {
                    Some(ReceiptReason::NotPending) => "not pending".to_owned(),
                    Some(ReceiptReason::BadResponse) => "bad response".to_owned(),
                    None => "not accepted".to_owned(),
                },
            )
        },
    }
}

impl App {
    fn tool_summary(&self, session_id: &SessionId, call_id: Option<&String>) -> (r: Option<String>)
        ensures
            crate::text::opt_view(r) == self@.summary_of(
                session_id@,
                crate::text::opt_view(call_id),
            ),
    {
        let wanted = match call_id {
            Some(wanted) => wanted,
            None => return None,
        };
        let state = match self.store().session(session_id) {
            Some(state) => state,
            None => return None,
        };
        let nodes = state.nodes();
        let ghost all = state@.nodes;
        let mut i: usize = 0;
        while i < nodes.len()
            invariant
                i <= nodes@.len(),
                all == crate::text::views(nodes@),
                all == state@.nodes,
                call_id is Some,
                call_id->0@ == wanted@,
                self@.store.sessions.dom().contains(session_id@),
                self@.store.sessions[session_id@] == state@,
                forall|k: int| 0 <= k < i ==> !of_call(wanted@)(#[trigger] all[k]),
            decreases nodes.len() - i,
        {
            proof {
                assert(all[i as int] == nodes@[i as int]@);
            }
            match &nodes[i].data {
                NodeData::Tool { call: Some(call), .. } => {
                    if same(call.call_id.as_str(), wanted.as_str()) {
                        proof {
                            crate::seqs::lemma_first_index(all, of_call(wanted@), i as int);
                        }
                        let mut out = joined(call.name.as_str(), " ");
                        out.append(truncate_width(call.args_raw.as_str(), 60).as_str());
                        return Some(out);
                    }
                },
                _ => {},
            }
            i = i + 1;
        }
        proof {
            crate::seqs::lemma_first_index(all, of_call(wanted@), i as int);
        }
        None
    }

    fn approval_takeover(&self, pending: &ApprovalPending) -> (r: Mode)
        ensures
            r@ == self@.approval_mode(pending@),
    {
        let call_id = match &pending.call_id {
            Some(call_id) => Some(call_id),
            None => None,
        };
        let tool_summary = self.tool_summary(&pending.session_id, call_id);
        Mode::Approval(
            ApprovalTakeover {
                session_id: pending.session_id.duplicate(),
                approval_id: pending.approval_id.duplicate(),
                rpc_id: pending.rpc_id.duplicate(),
                tool_name: pending.tool_name.clone(),
                call_id: duplicate_opt(&pending.call_id),
                reason: duplicate_opt(&pending.reason),
                tool_summary,
                sending: false,
            },
        )
    }

    fn next_takeover(&self) -> (r: Mode)
        ensures
            r@ == self@.next_mode(),
    {
        match last_approval(self.pending_approvals()) {
            Some(pending) => self.approval_takeover(pending),
            None => match last_question(self.pending_questions()) {
                Some(pending) => Mode::Question(
                    QuestionTakeover::new(
                        pending.session_id.duplicate(),
                        pending.rpc_id.duplicate(),
                        duplicate_all(&pending.questions),
                    ),
                ),
                None => Mode::Chat,
            },
        }
    }

    fn promote(&mut self)
        ensures
            final(self)@ == old(self)@.promoted(),
    {
        let mode = self.next_takeover();
        self.set_mode(mode);
    }

    fn forget_approval(&mut self, id: &str)
        ensures
            final(self)@ == old(self)@.without_approval(id@),
    {
        let kept = drop_approval(self.pending_approvals(), id);
        self.set_pending_approvals(kept);
    }

    fn forget_question(&mut self, rpc_id: &str)
        ensures
            final(self)@ == old(self)@.without_question(rpc_id@),
    {
        let kept = drop_question(self.pending_questions(), rpc_id);
        self.set_pending_questions(kept);
    }

    fn displays_approval(&self, id: &str) -> (r: bool)
        ensures
            r == self@.shows_approval(id@),
    {
        match self.mode() {
            Mode::Approval(takeover) => same(takeover.approval_id.0.as_str(), id),
            _ => false,
        }
    }

    fn displays_question(&self, rpc_id: &str) -> (r: bool)
        ensures
            r == self@.shows_question(rpc_id@),
    {
        match self.mode() {
            Mode::Question(takeover) => same(takeover.rpc_id.0.as_str(), rpc_id),
            _ => false,
        }
    }

    fn request_approval(&mut self, pending: ApprovalPending)
        ensures
            final(self)@ == old(self)@.with_approval(pending@),
    {
        let mode = self.approval_takeover(&pending);
        let mut list = drop_approval(self.pending_approvals(), pending.approval_id.0.as_str());
        proof {
            assert(crate::text::views(list@.push(pending)) =~= crate::text::views(list@).push(
                pending@,
            ));
        }
        list.push(pending);
        self.set_mode(mode);
        self.set_pending_approvals(list);
    }

    fn request_question(&mut self, pending: QuestionPending)
        ensures
            final(self)@ == old(self)@.with_question(pending@),
    {
        let covered = match self.mode() {
            Mode::Approval(_) => true,
            _ => false,
        };
        let mut list = drop_question(self.pending_questions(), pending.rpc_id.0.as_str());
        let takeover = QuestionTakeover::new(
            pending.session_id.duplicate(),
            pending.rpc_id.duplicate(),
            duplicate_all(&pending.questions),
        );
        proof {
            assert(crate::text::views(list@.push(pending)) =~= crate::text::views(list@).push(
                pending@,
            ));
        }
        list.push(pending);
        if !covered {
            self.set_mode(Mode::Question(takeover));
        }
        self.set_pending_questions(list);
    }

    /// Record a request for an approval or an answer, with the id of its envelope, and show
    /// it. An approval takes the screen at once; a question takes it unless an approval has
    /// it.
    pub fn record_answerable(&mut self, rpc_id: RpcId, frame: &MuxFrame)
        requires
            old(self)@.pending_seq < u64::MAX,
        ensures
            final(self)@ == old(self)@.after_request(rpc_id@, frame@),
    {
        let seq = self.pending_seq() + 1;
        self.set_pending_seq(seq);
        proof {
            assert(self@ == old(self)@.counted());
        }
        match frame {
            MuxFrame::ApprovalRequested { session_id, approval_id, tool_name, call_id, reason } => {
                let pending = ApprovalPending {
                    rpc_id,
                    session_id: session_id.duplicate(),
                    approval_id: approval_id.duplicate(),
                    tool_name: tool_name.clone(),
                    call_id: duplicate_opt(call_id),
                    reason: duplicate_opt(reason),
                    seq,
                };
                self.request_approval(pending);
            },
            MuxFrame::QuestionRequested { session_id, questions } => {
                let pending = QuestionPending {
                    rpc_id,
                    session_id: session_id.duplicate(),
                    questions: duplicate_all(questions),
                    seq,
                };
                self.request_question(pending);
            },
            _ => {},
        }
    }

    /// Take a resolved request out. One that was open was resolved elsewhere: that is noted,
    /// and where it is displayed the next request comes up.
    pub fn record_resolved(&mut self, frame: &MuxFrame)
        ensures
            final(self)@ == old(self)@.after_resolution(frame@),
    {
        match frame {
            MuxFrame::ApprovalResolved { approval_id, outcome, .. } => {
                let id = approval_id.0.as_str();
                if !approval_open(self.pending_approvals(), id) {
                    return;
                }
                let shown = self.displays_approval(id);
                self.forget_approval(id);
                self.toast_key(
                    match *outcome {
                        ApprovalOutcome::AllowedOnce => "toast.approved_remote",
                        ApprovalOutcome::Rejected => "toast.rejected_remote",
                        ApprovalOutcome::Cancelled => "toast.approval_cancelled",
                        ApprovalOutcome::Unavailable => "toast.approval_unavailable",
                    },
                );
                if shown {
                    self.promote();
                }
            },
            MuxFrame::QuestionResolved { question_rpc_id, outcome, .. } => {
                let id = question_rpc_id.0.as_str();
                if !question_open(self.pending_questions(), id) {
                    return;
                }
                let shown = self.displays_question(id);
                self.forget_question(id);
                self.toast_key(
                    match *outcome {
                        QuestionOutcome::Answered => "toast.answered_remote",
                        QuestionOutcome::Cancelled => "toast.question_cancelled",
                    },
                );
                if shown {
                    self.promote();
                }
            },
            _ => {},
        }
    }

    fn start_sending(&mut self, mode: Mode)
        ensures
            final(self)@ == old(self)@.advised("hint.sending"@).with_mode(mode@),
    {
        self.hint_key("hint.sending");
        self.set_mode(mode);
    }

    /// Answer the displayed approval.
    pub fn answer_approval(&mut self, outcome: ApprovalResponseOutcome) -> (r: Option<Command>)
        ensures
            final(self)@ == old(self)@.answering_approval(outcome).0,
            crate::text::opt_view(r) == old(self)@.answering_approval(outcome).1,
    {
        let takeover = match self.mode() {
            Mode::Approval(takeover) => takeover.duplicate(),
            _ => return None,
        };
        if takeover.sending {
            return None;
        }
        if self.connected() {
            let command = Command::RespondApproval {
                rpc_id: takeover.rpc_id.duplicate(),
                session_id: takeover.session_id.duplicate(),
                approval_id: takeover.approval_id.duplicate(),
                outcome,
            };
            self.start_sending(Mode::Approval(ApprovalTakeover { sending: true, ..takeover }));
            return Some(command);
        }
        self.forget_approval(takeover.approval_id.0.as_str());
        self.promote();
        self.toast_key(
            match outcome {
                ApprovalResponseOutcome::AllowedOnce => "toast.allowed_once",
                ApprovalResponseOutcome::Rejected => "toast.rejected",
            },
        );
        None
    }

    /// Answer the displayed questions.
    pub fn answer_question(&mut self) -> (r: Option<Command>)
        ensures
            final(self)@ == old(self)@.answering_question().0,
            crate::text::opt_view(r) == old(self)@.answering_question().1,
    {
        let takeover = match self.mode() {
            Mode::Question(takeover) => takeover.duplicate(),
            _ => return None,
        };
        if takeover.sending {
            return None;
        }
        if self.connected() {
            let command = Command::RespondQuestion {
                rpc_id: takeover.rpc_id.duplicate(),
                session_id: takeover.session_id.duplicate(),
                answers: takeover.answers(),
            };
            self.start_sending(Mode::Question(QuestionTakeover { sending: true, ..takeover }));
            return Some(command);
        }
        self.forget_question(takeover.rpc_id.0.as_str());
        self.promote();
        self.toast_key("toast.answered");
        None
    }

    fn rearm(&mut self)
        ensures
            final(self)@ == old(self)@.rearmed(),
    {
        let mode = match self.mode() {
            Mode::Approval(takeover) => Mode::Approval(
                ApprovalTakeover { sending: false, ..takeover.duplicate() },
            ),
            Mode::Question(takeover) => Mode::Question(
                QuestionTakeover { sending: false, ..takeover.duplicate() },
            ),
            other => other.duplicate(),
        };
        self.set_mode(mode);
    }

    fn displays(&self, tag: &AnswerTag) -> (r: bool)
        ensures
            r == self@.shows(tag@),
    {
        match tag {
            AnswerTag::Approval { approval_id, .. } => self.displays_approval(
                approval_id.0.as_str(),
            ),
            AnswerTag::Question(rpc_id) => self.displays_question(rpc_id.0.as_str()),
        }
    }

    /// Apply an answer that came back; `failure` is why it was not accepted.
    pub fn on_answer_done(&mut self, tag: &AnswerTag, failure: Option<String>)
        ensures
            final(self)@ == old(self)@.after_answer(tag@, crate::text::opt_view(failure)),
    {
        let shown = self.displays(tag);
        self.set_hint(None);
        match failure {
            None => {
                match tag {
                    AnswerTag::Approval { approval_id, .. } => self.forget_approval(
                        approval_id.0.as_str(),
                    ),
                    AnswerTag::Question(rpc_id) => self.forget_question(rpc_id.0.as_str()),
                }
                if shown {
                    self.promote();
                }
                match tag {
                    AnswerTag::Approval { outcome, .. } => match *outcome {
                        ApprovalResponseOutcome::AllowedOnce => self.toast_key("toast.allowed_once"),
                        ApprovalResponseOutcome::Rejected => self.toast_key("toast.rejected"),
                    },
                    AnswerTag::Question(_) => self.set_toast("answered".to_owned()),
                }
            },
            Some(reason) => {
                self.set_toast(joined("answer failed: ", reason.as_str()));
                if shown {
                    self.rearm();
                }
            },
        }
    }
}

// ---------------------------------------------------------------------------
// laws
// ---------------------------------------------------------------------------

/// Whether the requests are numbered in the order they came in.
pub open spec fn numbered(app: AppView) -> bool {
    &&& forall|i: int|
        0 <= i < app.pending_approvals.len() ==> (#[trigger] app.pending_approvals[i]).seq
            <= app.pending_seq
    &&& forall|i: int|
        0 <= i < app.pending_questions.len() ==> (#[trigger] app.pending_questions[i]).seq
            <= app.pending_seq
}

proof fn lemma_kept_approval(list: Seq<ApprovalPendingView>, id: Seq<char>, i: int)
    requires
        0 <= i < list.filter(other_approval(id)).len(),
    ensures
        list.contains(list.filter(other_approval(id))[i]),
        list.filter(other_approval(id))[i].approval_id != id,
    decreases list.len(),
{
    reveal(Seq::filter);
    if list.len() > 0 {
        let before = list.drop_last().filter(other_approval(id));
        if i < before.len() {
            lemma_kept_approval(list.drop_last(), id, i);
            let k = choose|k: int| 0 <= k < list.drop_last().len() && list.drop_last()[k] == before[i];
            assert(list[k] == before[i]);
        } else {
            assert(list[list.len() - 1] == list.filter(other_approval(id))[i]);
        }
    }
}

proof fn lemma_kept_question(list: Seq<QuestionPendingView>, id: Seq<char>, i: int)
    requires
        0 <= i < list.filter(other_question(id)).len(),
    ensures
        list.contains(list.filter(other_question(id))[i]),
        list.filter(other_question(id))[i].rpc_id != id,
    decreases list.len(),
{
    reveal(Seq::filter);
    if list.len() > 0 {
        let before = list.drop_last().filter(other_question(id));
        if i < before.len() {
            lemma_kept_question(list.drop_last(), id, i);
            let k = choose|k: int| 0 <= k < list.drop_last().len() && list.drop_last()[k] == before[i];
            assert(list[k] == before[i]);
        } else {
            assert(list[list.len() - 1] == list.filter(other_question(id))[i]);
        }
    }
}

/// The requests stay numbered in the order they come in.
pub proof fn law_requests_numbered(app: AppView, rpc_id: Seq<char>, frame: MuxFrameView)
    requires
        numbered(app),
        app.pending_seq < u64::MAX,
    ensures
        numbered(app.after_request(rpc_id, frame)),
        numbered(app.after_resolution(frame)),
{
    reveal(AppView::with_mode);
    reveal(AppView::with_pending_approvals);
    reveal(AppView::with_pending_questions);
    reveal(AppView::with_pending_seq);
    reveal(AppView::with_toast);
    reveal(AppView::with_hint);
    match frame {
        MuxFrameView::ApprovalRequested { approval_id, .. } => {
            let kept = app.pending_approvals.filter(other_approval(approval_id));
            assert forall|i: int| 0 <= i < kept.len() implies (#[trigger] kept[i]).seq <= app.pending_seq by {
                lemma_kept_approval(app.pending_approvals, approval_id, i);
            }
        },
        MuxFrameView::QuestionRequested { .. } => {
            let kept = app.pending_questions.filter(other_question(rpc_id));
            assert forall|i: int| 0 <= i < kept.len() implies (#[trigger] kept[i]).seq <= app.pending_seq by {
                lemma_kept_question(app.pending_questions, rpc_id, i);
            }
        },
        MuxFrameView::ApprovalResolved { approval_id, .. } => {
            let kept = app.pending_approvals.filter(other_approval(approval_id));
            assert forall|i: int| 0 <= i < kept.len() implies (#[trigger] kept[i]).seq <= app.pending_seq by {
                lemma_kept_approval(app.pending_approvals, approval_id, i);
            }
        },
        MuxFrameView::QuestionResolved { question_rpc_id, .. } => {
            let kept = app.pending_questions.filter(other_question(question_rpc_id));
            assert forall|i: int| 0 <= i < kept.len() implies (#[trigger] kept[i]).seq <= app.pending_seq by {
                lemma_kept_question(app.pending_questions, question_rpc_id, i);
            }
        },
        _ => {},
    }
}

proof fn lemma_newest(list: Seq<ApprovalPendingView>)
    ensures
        newest_approval(list) is None <==> list.len() == 0,
        newest_approval(list) matches Some(p) ==> list.contains(p) && forall|i: int|
            0 <= i < list.len() ==> (#[trigger] list[i]).seq <= p.seq,
    decreases list.len(),
{
    if list.len() > 0 {
        let rest = list.drop_last();
        lemma_newest(rest);
        assert(list[list.len() - 1] == list.last());
        match newest_approval(rest) {
            Some(best) => {
                let k = choose|k: int| 0 <= k < rest.len() && rest[k] == best;
                assert(list[k] == best);
                assert forall|i: int| 0 <= i < list.len() implies (#[trigger] list[i]).seq <= newest_approval(
                    list,
                )->0.seq by {
                    if i < rest.len() {
                        assert(rest[i] == list[i]);
                    }
                }
            },
            None => {},
        }
    }
}

/// A new approval has the screen at once, whatever had it; a question never takes it from an
/// approval.
pub proof fn law_approval_takes_screen(app: AppView, rpc_id: Seq<char>, frame: MuxFrameView)
    ensures
        frame matches MuxFrameView::ApprovalRequested { approval_id, .. } ==> app.after_request(
            rpc_id,
            frame,
        ).shows_approval(approval_id),
        frame is QuestionRequested && app.mode is Approval ==> app.after_request(rpc_id, frame).mode
            == app.mode,
        frame is QuestionRequested && !(app.mode is Approval) ==> app.after_request(
            rpc_id,
            frame,
        ).shows_question(rpc_id),
{
    reveal(AppView::with_mode);
    reveal(AppView::with_pending_approvals);
    reveal(AppView::with_pending_questions);
    reveal(AppView::with_pending_seq);
    reveal(AppView::with_toast);
    reveal(AppView::with_hint);
}

/// What comes up next is an approval wherever one is open, and then the one that came last; a
/// question comes up only where no approval is open.
pub proof fn law_next_takeover(app: AppView)
    ensures
        app.pending_approvals.len() > 0 ==> (app.next_mode() matches ModeView::Approval(t)
            && exists|p: ApprovalPendingView|
            app.pending_approvals.contains(p) && #[trigger] app.approval_mode(p) == app.next_mode()
                && forall|i: int|
                0 <= i < app.pending_approvals.len() ==> (#[trigger] app.pending_approvals[i]).seq
                    <= p.seq),
        app.next_mode() is Question ==> app.pending_approvals.len() == 0,
        app.next_mode() is Chat <==> app.pending_approvals.len() == 0 && app.pending_questions.len()
            == 0,
{
    reveal(AppView::with_mode);
    reveal(AppView::with_pending_approvals);
    reveal(AppView::with_pending_questions);
    reveal(AppView::with_pending_seq);
    reveal(AppView::with_toast);
    reveal(AppView::with_hint);
    lemma_newest(app.pending_approvals);
    if app.pending_questions.len() > 0 {
        assert(newest_question(app.pending_questions) is Some) by {
            reveal_with_fuel(newest_question, 2);
        }
    }
}

/// A request that was resolved is no longer open, and the other requests are untouched by it.
pub proof fn law_resolved_is_gone(app: AppView, frame: MuxFrameView)
    ensures
        frame matches MuxFrameView::ApprovalResolved { approval_id, .. } ==> !has_approval(
            app.after_resolution(frame).pending_approvals,
            approval_id,
        ) && app.after_resolution(frame).pending_questions == app.pending_questions,
        frame matches MuxFrameView::QuestionResolved { question_rpc_id, .. } ==> !has_question(
            app.after_resolution(frame).pending_questions,
            question_rpc_id,
        ) && app.after_resolution(frame).pending_approvals == app.pending_approvals,
{
    reveal(AppView::with_mode);
    reveal(AppView::with_pending_approvals);
    reveal(AppView::with_pending_questions);
    reveal(AppView::with_pending_seq);
    reveal(AppView::with_toast);
    reveal(AppView::with_hint);
    match frame {
        MuxFrameView::ApprovalResolved { approval_id, .. } => {
            let kept = app.pending_approvals.filter(other_approval(approval_id));
            assert forall|i: int| 0 <= i < kept.len() implies (#[trigger] kept[i]).approval_id != approval_id by {
                lemma_kept_approval(app.pending_approvals, approval_id, i);
            }
        },
        MuxFrameView::QuestionResolved { question_rpc_id, .. } => {
            let kept = app.pending_questions.filter(other_question(question_rpc_id));
            assert forall|i: int| 0 <= i < kept.len() implies (#[trigger] kept[i]).rpc_id != question_rpc_id by {
                lemma_kept_question(app.pending_questions, question_rpc_id, i);
            }
        },
        _ => {},
    }
}

/// The echo of an answer given here changes nothing: its request is no longer open.
pub proof fn law_echo_ignored(app: AppView, frame: MuxFrameView)
    ensures
        app.after_resolution(frame).after_resolution(frame) == app.after_resolution(frame),
{
    reveal(AppView::with_mode);
    reveal(AppView::with_pending_approvals);
    reveal(AppView::with_pending_questions);
    reveal(AppView::with_pending_seq);
    reveal(AppView::with_toast);
    reveal(AppView::with_hint);
    law_resolved_is_gone(app, frame);
}

/// An answer that failed leaves its request open and on the screen, ready for another try.
pub proof fn law_failed_answer_stays(app: AppView, tag: AnswerTagView, reason: Seq<char>)
    requires
        app.shows(tag),
    ensures
        ({
            let after = app.after_answer(tag, Some(reason));
            &&& after.shows(tag)
            &&& after.pending_approvals == app.pending_approvals
            &&& after.pending_questions == app.pending_questions
            &&& match after.mode {
                ModeView::Approval(takeover) => !takeover.sending,
                ModeView::Question(takeover) => !takeover.sending,
                _ => true,
            }
        }),
{
    reveal(AppView::with_mode);
    reveal(AppView::with_pending_approvals);
    reveal(AppView::with_pending_questions);
    reveal(AppView::with_pending_seq);
    reveal(AppView::with_toast);
    reveal(AppView::with_hint);
}

/// While an answer is on its way, no other is sent.
pub proof fn law_one_answer_at_a_time(app: AppView, outcome: ApprovalResponseOutcome)
    ensures
        app.answering_approval(outcome).1 is Some ==> app.answering_approval(
            outcome,
        ).0.answering_approval(outcome).1 is None,
        app.answering_question().1 is Some ==> app.answering_question().0.answering_question().1
            is None,
{
    reveal(AppView::with_mode);
    reveal(AppView::with_pending_approvals);
    reveal(AppView::with_pending_questions);
    reveal(AppView::with_pending_seq);
    reveal(AppView::with_toast);
    reveal(AppView::with_hint);
}

} // verus!
