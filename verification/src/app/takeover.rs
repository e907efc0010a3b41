//! What takes the screen over: approval requests, questions and the image viewer.

use vstd::prelude::*;

use crate::text::{duplicate_all, duplicate_opt, Duplicate};
use crate::wire::{
    ApprovalRequestId, ApprovalRequestIdView, AskUserQuestionItem, AskUserQuestionItemView,
    ImageAttachmentRef, ImageAttachmentRefView, RpcId, RpcIdView, SessionId, SessionIdView,
};

verus! {

/// The approval request on the screen. While `sending`, an answer is on its way.
#[derive(Debug)]
pub struct ApprovalTakeover {
    pub session_id: SessionId,
    pub approval_id: ApprovalRequestId,
    pub rpc_id: RpcId,
    pub tool_name: String,
    pub call_id: Option<String>,
    pub reason: Option<String>,
    /// The tool call that waits, in one line.
    pub tool_summary: Option<String>,
    pub sending: bool,
}

/// What a [`ApprovalTakeover`] stands for.
#[verifier::ext_equal]
pub struct ApprovalTakeoverView {
    pub session_id: SessionIdView,
    pub approval_id: ApprovalRequestIdView,
    pub rpc_id: RpcIdView,
    pub tool_name: Seq<char>,
    pub call_id: Option<Seq<char>>,
    pub reason: Option<Seq<char>>,
    pub tool_summary: Option<Seq<char>>,
    pub sending: bool,
}

impl View for ApprovalTakeover {
    type V = ApprovalTakeoverView;

    open spec fn view(&self) -> ApprovalTakeoverView {
        ApprovalTakeoverView {
            session_id: self.session_id@,
            approval_id: self.approval_id@,
            rpc_id: self.rpc_id@,
            tool_name: self.tool_name@,
            call_id: crate::text::opt_view(self.call_id),
            reason: crate::text::opt_view(self.reason),
            tool_summary: crate::text::opt_view(self.tool_summary),
            sending: self.sending,
        }
    }
}

impl Duplicate for ApprovalTakeover {
    fn duplicate(&self) -> (r: Self) {
        ApprovalTakeover {
            session_id: self.session_id.duplicate(),
            approval_id: self.approval_id.duplicate(),
            rpc_id: self.rpc_id.duplicate(),
            tool_name: self.tool_name.clone(),
            call_id: duplicate_opt(&self.call_id),
            reason: duplicate_opt(&self.reason),
            tool_summary: duplicate_opt(&self.tool_summary),
            sending: self.sending,
        }
    }
}

impl Clone for ApprovalTakeover {
    fn clone(&self) -> (r: Self)
        ensures
            r@ == self@,
    {
        self.duplicate()
    }
}

/// One question on the screen: the option under the cursor and, where several may be chosen,
/// the options that are.
#[derive(Debug)]
pub struct QuestionState {
    pub item: AskUserQuestionItem,
    pub cursor: usize,
    pub picked: Vec<bool>,
}

/// What a [`QuestionState`] stands for.
#[verifier::ext_equal]
pub struct QuestionStateView {
    pub item: AskUserQuestionItemView,
    pub cursor: usize,
    pub picked: Seq<bool>,
}

impl View for QuestionState {
    type V = QuestionStateView;

    open spec fn view(&self) -> QuestionStateView {
        QuestionStateView {
            item: self.item@,
            cursor: self.cursor,
            picked: self.picked@,
        }
    }
}

impl Duplicate for QuestionState {
    fn duplicate(&self) -> (r: Self) {
        QuestionState {
            item: self.item.duplicate(),
            cursor: self.cursor,
            picked: self.picked.clone(),
        }
    }
}

impl Clone for QuestionState {
    fn clone(&self) -> (r: Self)
        ensures
            r@ == self@,
    {
        self.duplicate()
    }
}

/// The questions on the screen. While `sending`, an answer is on its way.
#[derive(Debug)]
pub struct QuestionTakeover {
    pub session_id: SessionId,
    pub rpc_id: RpcId,
    pub questions: Vec<QuestionState>,
    pub focused: usize,
    pub sending: bool,
}

/// What a [`QuestionTakeover`] stands for.
#[verifier::ext_equal]
pub struct QuestionTakeoverView {
    pub session_id: SessionIdView,
    pub rpc_id: RpcIdView,
    pub questions: Seq<QuestionStateView>,
    pub focused: usize,
    pub sending: bool,
}

impl View for QuestionTakeover {
    type V = QuestionTakeoverView;

    open spec fn view(&self) -> QuestionTakeoverView {
        QuestionTakeoverView {
            session_id: self.session_id@,
            rpc_id: self.rpc_id@,
            questions: crate::text::views(self.questions@),
            focused: self.focused,
            sending: self.sending,
        }
    }
}

impl Duplicate for QuestionTakeover {
    fn duplicate(&self) -> (r: Self) {
        QuestionTakeover {
            session_id: self.session_id.duplicate(),
            rpc_id: self.rpc_id.duplicate(),
            questions: duplicate_all(&self.questions),
            focused: self.focused,
            sending: self.sending,
        }
    }
}

impl Clone for QuestionTakeover {
    fn clone(&self) -> (r: Self)
        ensures
            r@ == self@,
    {
        self.duplicate()
    }
}

/// The answer to one question: the labels that were chosen.
#[derive(Debug)]
pub struct QuestionAnswerItem {
    pub id: String,
    pub selected: Vec<String>,
}

/// What a [`QuestionAnswerItem`] stands for.
#[verifier::ext_equal]
pub struct QuestionAnswerItemView {
    pub id: Seq<char>,
    pub selected: Seq<Seq<char>>,
}

impl View for QuestionAnswerItem {
    type V = QuestionAnswerItemView;

    open spec fn view(&self) -> QuestionAnswerItemView {
        QuestionAnswerItemView {
            id: self.id@,
            selected: crate::text::views(self.selected@),
        }
    }
}

impl Duplicate for QuestionAnswerItem {
    fn duplicate(&self) -> (r: Self) {
        QuestionAnswerItem {
            id: self.id.clone(),
            selected: duplicate_all(&self.selected),
        }
    }
}

impl Clone for QuestionAnswerItem {
    fn clone(&self) -> (r: Self)
        ensures
            r@ == self@,
    {
        self.duplicate()
    }
}

/// The image viewer: the images of a session, the one that is shown, and whether it is fitted
/// to the screen.
#[derive(Debug)]
pub struct ImageViewer {
    pub session_id: SessionId,
    pub images: Vec<ImageAttachmentRef>,
    pub index: usize,
    pub fit: bool,
}

/// What a [`ImageViewer`] stands for.
#[verifier::ext_equal]
pub struct ImageViewerView {
    pub session_id: SessionIdView,
    pub images: Seq<ImageAttachmentRefView>,
    pub index: usize,
    pub fit: bool,
}

impl View for ImageViewer {
    type V = ImageViewerView;

    open spec fn view(&self) -> ImageViewerView {
        ImageViewerView {
            session_id: self.session_id@,
            images: crate::text::views(self.images@),
            index: self.index,
            fit: self.fit,
        }
    }
}

impl Duplicate for ImageViewer {
    fn duplicate(&self) -> (r: Self) {
        ImageViewer {
            session_id: self.session_id.duplicate(),
            images: duplicate_all(&self.images),
            index: self.index,
            fit: self.fit,
        }
    }
}

impl Clone for ImageViewer {
    fn clone(&self) -> (r: Self)
        ensures
            r@ == self@,
    {
        self.duplicate()
    }
}


/// One position up, no further than the first.
pub open spec fn one_up(at: usize) -> usize {
    if at > 0 {
        (at - 1) as usize
    } else {
        0
    }
}

/// One position down in a list of some entries, no further than the last.
pub open spec fn one_down(at: usize, entries: nat) -> usize {
    if at + 1 < entries {
        (at + 1) as usize
    } else if entries == 0 || entries > usize::MAX {
        0
    } else {
        (entries - 1) as usize
    }
}

/// The next position in a list of some entries, the first behind the last.
pub open spec fn one_on(at: usize, entries: nat) -> usize {
    if at + 1 < entries {
        (at + 1) as usize
    } else {
        0
    }
}

/// The previous position in a list of some entries, the last before the first.
pub open spec fn one_back(at: usize, entries: nat) -> usize {
    if 0 < at && at <= entries {
        (at - 1) as usize
    } else if entries == 0 || entries > usize::MAX {
        0
    } else {
        (entries - 1) as usize
    }
}

/// One position up, no further than the first.
pub fn step_up(at: usize) -> (r: usize)
    ensures
        r == one_up(at),
{
    if at > 0 {
        at - 1
    } else {
        0
    }
}

/// One position down in a list of some entries, no further than the last.
pub fn step_down(at: usize, entries: usize) -> (r: usize)
    ensures
        r == one_down(at, entries as nat),
{
    if at < entries && at + 1 < entries {
        at + 1
    } else if entries == 0 {
        0
    } else {
        entries - 1
    }
}

/// The next position in a list of some entries, the first behind the last.
pub fn step_on(at: usize, entries: usize) -> (r: usize)
    ensures
        r == one_on(at, entries as nat),
{
    if at < entries && at + 1 < entries {
        at + 1
    } else {
        0
    }
}

/// The previous position in a list of some entries, the last before the first.
pub fn step_back(at: usize, entries: usize) -> (r: usize)
    ensures
        r == one_back(at, entries as nat),
{
    if 0 < at && at <= entries {
        at - 1
    } else if entries == 0 {
        0
    } else {
        entries - 1
    }
}

/// A step on and a step back lead to where one was, through the whole list.
pub proof fn law_steps_cycle(at: usize, entries: nat)
    requires
        at < entries <= usize::MAX,
    ensures
        one_back(one_on(at, entries), entries) == at,
        one_on(one_back(at, entries), entries) == at,
{
}

/// The flags of `n` options of which none is chosen.
pub open spec fn none_picked(n: nat) -> Seq<bool> {
    Seq::new(n, |i: int| false)
}

/// The labels of the options that are chosen, in their order.
pub open spec fn picked_labels(options: Seq<Seq<char>>, picked: Seq<bool>, n: nat) -> Seq<Seq<char>>
    decreases n,
{
    if n == 0 || n > options.len() {
        Seq::empty()
    } else {
        let before = picked_labels(options, picked, (n - 1) as nat);
        if n - 1 < picked.len() && picked[n - 1] {
            before.push(options[n - 1])
        } else {
            before
        }
    }
}

impl QuestionStateView {
    /// A question that nobody has answered.
    pub open spec fn asked(item: AskUserQuestionItemView) -> QuestionStateView {
        QuestionStateView { item, cursor: 0, picked: none_picked(item.options.len()) }
    }

    /// The cursor one option up.
    pub open spec fn up(self) -> QuestionStateView {
        QuestionStateView { cursor: one_up(self.cursor), ..self }
    }

    /// The cursor one option down.
    pub open spec fn down(self) -> QuestionStateView {
        QuestionStateView { cursor: one_down(self.cursor, self.item.options.len()), ..self }
    }

    /// The option under the cursor chosen, or no longer chosen, where several may be.
    pub open spec fn toggled(self) -> QuestionStateView {
        if self.item.multi && self.cursor < self.picked.len() {
            QuestionStateView {
                picked: self.picked.update(
                    self.cursor as int,
                    !self.picked[self.cursor as int],
                ),
                ..self
            }
        } else {
            self
        }
    }

    /// The labels that answer the question: those chosen where several may be, else that
    /// under the cursor.
    pub open spec fn labels(self) -> Seq<Seq<char>> {
        if self.item.multi {
            picked_labels(self.item.options, self.picked, self.item.options.len())
        } else if self.cursor < self.item.options.len() {
            seq![self.item.options[self.cursor as int]]
        } else {
            Seq::empty()
        }
    }
}

impl QuestionState {
    /// A question that nobody has answered.
    pub fn new(item: AskUserQuestionItem) -> (r: Self)
        ensures
            r@ == QuestionStateView::asked(item@),
    {
        let n = item.options.len();
        let mut picked: Vec<bool> = Vec::new();
        let mut i: usize = 0;
        while i < n
            invariant
                i <= n,
                picked@ == none_picked(i as nat),
            decreases n - i,
        {
            picked.push(false);
            proof {
                assert(picked@ =~= none_picked((i + 1) as nat));
            }
            i = i + 1;
        }
        QuestionState { item, cursor: 0, picked }
    }

    /// Move the cursor one option up.
    pub fn move_up(&mut self)
        ensures
            final(self)@ == old(self)@.up(),
    {
        self.cursor = step_up(self.cursor);
    }

    /// Move the cursor one option down.
    pub fn move_down(&mut self)
        ensures
            final(self)@ == old(self)@.down(),
    {
        self.cursor = step_down(self.cursor, self.item.options.len());
    }

    /// Choose the option under the cursor, or take the choice back, where several may be
    /// chosen.
    pub fn toggle(&mut self)
        ensures
            final(self)@ == old(self)@.toggled(),
    {
        if self.item.multi && self.cursor < self.picked.len() {
            let at = self.cursor;
            let flag = self.picked[at];
            self.picked.set(at, !flag);
        }
    }

    /// The labels that answer the question.
    pub fn selected_labels(&self) -> (r: Vec<String>)
        ensures
            crate::text::views(r@) == self@.labels(),
    {
        let mut out: Vec<String> = Vec::new();
        let ghost all = crate::text::views(self.item.options@);
        if !self.item.multi {
            if self.cursor < self.item.options.len() {
                out.push(self.item.options[self.cursor].clone());
            }
            proof {
                assert(crate::text::views(out@) =~= self@.labels());
            }
            return out;
        }
        let n = self.item.options.len();
        let mut i: usize = 0;
        proof {
            assert(crate::text::views(out@) =~= picked_labels(all, self.picked@, 0));
        }
        while i < n
            invariant
                i <= n,
                n == self.item.options@.len(),
                all == crate::text::views(self.item.options@),
                crate::text::views(out@) == picked_labels(all, self.picked@, i as nat),
            decreases n - i,
        {
            if i < self.picked.len() && self.picked[i] {
                let label = self.item.options[i].clone();
                proof {
                    assert(crate::text::views(out@.push(label)) =~= crate::text::views(out@).push(
                        label@,
                    ));
                }
                out.push(label);
            }
            i = i + 1;
        }
        out
    }
}

impl QuestionTakeoverView {
    /// The takeover of a question frame: every question as asked, the first in focus.
    pub open spec fn asked(
        session_id: Seq<char>,
        rpc_id: Seq<char>,
        questions: Seq<AskUserQuestionItemView>,
    ) -> QuestionTakeoverView {
        QuestionTakeoverView {
            session_id,
            rpc_id,
            questions: questions.map_values(
                |item: AskUserQuestionItemView| QuestionStateView::asked(item),
            ),
            focused: 0,
            sending: false,
        }
    }

    /// The next question in focus, the first behind the last.
    pub open spec fn focused_on(self) -> QuestionTakeoverView {
        QuestionTakeoverView { focused: one_on(self.focused, self.questions.len()), ..self }
    }

    /// The question in focus changed.
    pub open spec fn with_focused(self, question: QuestionStateView) -> QuestionTakeoverView {
        QuestionTakeoverView {
            questions: self.questions.update(self.focused as int, question),
            ..self
        }
    }

    /// The cursor of the question in focus one option up.
    pub open spec fn up(self) -> QuestionTakeoverView {
        if self.focused < self.questions.len() {
            self.with_focused(self.questions[self.focused as int].up())
        } else {
            self
        }
    }

    /// The cursor of the question in focus one option down.
    pub open spec fn down(self) -> QuestionTakeoverView {
        if self.focused < self.questions.len() {
            self.with_focused(self.questions[self.focused as int].down())
        } else {
            self
        }
    }

    /// The option under the cursor of the question in focus chosen, or no longer chosen.
    pub open spec fn toggled(self) -> QuestionTakeoverView {
        if self.focused < self.questions.len() {
            self.with_focused(self.questions[self.focused as int].toggled())
        } else {
            self
        }
    }

    /// The labels that answer each question.
    pub open spec fn answers(self) -> Seq<QuestionAnswerItemView> {
        self.questions.map_values(
            |q: QuestionStateView| QuestionAnswerItemView { id: q.item.id, selected: q.labels() },
        )
    }
}

impl QuestionTakeover {
    /// The takeover of a question frame.
    pub fn new(session_id: SessionId, rpc_id: RpcId, questions: Vec<AskUserQuestionItem>) -> (r: Self)
        ensures
            r@ == QuestionTakeoverView::asked(
                session_id@,
                rpc_id@,
                crate::text::views(questions@),
            ),
    {
        let mut states: Vec<QuestionState> = Vec::new();
        let mut i: usize = 0;
        while i < questions.len()
            invariant
                i <= questions@.len(),
                states@.len() == i,
                forall|k: int|
                    0 <= k < i ==> (#[trigger] states@[k])@ == QuestionStateView::asked(
                        questions@[k]@,
                    ),
            decreases questions.len() - i,
        {
            states.push(QuestionState::new(questions[i].duplicate()));
            i = i + 1;
        }
        let r = QuestionTakeover { session_id, rpc_id, questions: states, focused: 0, sending: false };
        proof {
            assert(r@.questions =~= QuestionTakeoverView::asked(
                session_id@,
                rpc_id@,
                crate::text::views(questions@),
            ).questions);
        }
        r
    }

    /// Move the focus to the next question.
    pub fn focus_next(&mut self)
        ensures
            final(self)@ == old(self)@.focused_on(),
    {
        self.focused = step_on(self.focused, self.questions.len());
    }

    /// Move the cursor of the question in focus one option up.
    pub fn cursor_up(&mut self)
        ensures
            final(self)@ == old(self)@.up(),
    {
        if self.focused < self.questions.len() {
            let at = self.focused;
            let mut question = self.questions[at].duplicate();
            question.move_up();
            self.questions.set(at, question);
            proof {
                assert(self@.questions =~= old(self)@.with_focused(
                    old(self)@.questions[at as int].up(),
                ).questions);
            }
        }
    }

    /// Move the cursor of the question in focus one option down.
    pub fn cursor_down(&mut self)
        ensures
            final(self)@ == old(self)@.down(),
    {
        if self.focused < self.questions.len() {
            let at = self.focused;
            let mut question = self.questions[at].duplicate();
            question.move_down();
            self.questions.set(at, question);
            proof {
                assert(self@.questions =~= old(self)@.with_focused(
                    old(self)@.questions[at as int].down(),
                ).questions);
            }
        }
    }

    /// Choose the option under the cursor of the question in focus, or take the choice back.
    pub fn toggle(&mut self)
        ensures
            final(self)@ == old(self)@.toggled(),
    {
        if self.focused < self.questions.len() {
            let at = self.focused;
            let mut question = self.questions[at].duplicate();
            question.toggle();
            self.questions.set(at, question);
            proof {
                assert(self@.questions =~= old(self)@.with_focused(
                    old(self)@.questions[at as int].toggled(),
                ).questions);
            }
        }
    }

    /// The answer: the labels of each question, by its id.
    pub fn answers(&self) -> (r: Vec<QuestionAnswerItem>)
        ensures
            crate::text::views(r@) == self@.answers(),
    {
        let mut out: Vec<QuestionAnswerItem> = Vec::new();
        let mut i: usize = 0;
        while i < self.questions.len()
            invariant
                i <= self.questions@.len(),
                out@.len() == i,
                forall|k: int| 0 <= k < i ==> (#[trigger] out@[k])@ == self@.answers()[k],
            decreases self.questions.len() - i,
        {
            let question = &self.questions[i];
            out.push(
                QuestionAnswerItem {
                    id: question.item.id.clone(),
                    selected: question.selected_labels(),
                },
            );
            i = i + 1;
        }
        proof {
            assert(crate::text::views(out@) =~= self@.answers());
        }
        out
    }
}

impl ImageViewer {
    /// A viewer that starts at an image, fitted to the screen.
    pub fn new(session_id: SessionId, images: Vec<ImageAttachmentRef>, start: usize) -> (r: Self)
        ensures
            r@ == (ImageViewerView {
                session_id: session_id@,
                images: crate::text::views(images@),
                index: start,
                fit: true,
            }),
    {
        ImageViewer { session_id, images, index: start, fit: true }
    }

    /// Show the next image, the first behind the last.
    pub fn next(&mut self)
        ensures
            final(self)@ == (ImageViewerView {
                index: one_on(old(self)@.index, old(self)@.images.len()),
                ..old(self)@
            }),
    {
        self.index = step_on(self.index, self.images.len());
    }

    /// Show the previous image, the last before the first.
    pub fn prev(&mut self)
        ensures
            final(self)@ == (ImageViewerView {
                index: one_back(old(self)@.index, old(self)@.images.len()),
                ..old(self)@
            }),
    {
        self.index = step_back(self.index, self.images.len());
    }

    /// Fit the image to the screen, or show it as large as it is.
    pub fn toggle_fit(&mut self)
        ensures
            final(self)@ == (ImageViewerView { fit: !old(self)@.fit, ..old(self)@ }),
    {
        self.fit = !self.fit;
    }
}

} // verus!
