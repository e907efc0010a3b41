//! The text editors: a buffer with a caret, and the composer around one.

use vstd::prelude::*;

use crate::text::{chars_of, string_of, Duplicate};

verus! {

/// A text with a caret. The caret counts characters; one behind the end stands for the end.
#[derive(Debug)]
pub struct Editor {
    pub text: Vec<char>,
    pub caret: usize,
}

/// A text with a caret, `0 <= caret <= text.len()`.
#[verifier::ext_equal]
pub struct EditorView {
    pub text: Seq<char>,
    pub caret: int,
}

impl View for Editor {
    type V = EditorView;

    open spec fn view(&self) -> EditorView {
        EditorView {
            text: self.text@,
            caret: if self.caret <= self.text@.len() {
                self.caret as int
            } else {
                self.text@.len() as int
            },
        }
    }
}

impl Duplicate for Editor {
    fn duplicate(&self) -> (r: Self) {
        Editor { text: self.text.clone(), caret: self.caret }
    }
}

/// Where the line that holds a position begins.
pub open spec fn line_start(text: Seq<char>, at: int) -> int
    decreases at,
{
    if at <= 0 || at > text.len() {
        0
    } else if text[at - 1] == '\n' {
        at
    } else {
        line_start(text, at - 1)
    }
}

/// Where the line that holds a position ends: at its line feed, or at the end of the text.
pub open spec fn line_stop(text: Seq<char>, at: int) -> int
    decreases text.len() - at,
{
    if at < 0 || at >= text.len() {
        text.len() as int
    } else if text[at] == '\n' {
        at
    } else {
        line_stop(text, at + 1)
    }
}

/// The smaller of two numbers.
pub open spec fn least(a: int, b: int) -> int {
    if a < b {
        a
    } else {
        b
    }
}

impl EditorView {
    /// An editor without text.
    pub open spec fn blank() -> EditorView {
        EditorView { text: Seq::empty(), caret: 0 }
    }

    /// An editor on a text, with the caret behind it.
    pub open spec fn holding(text: Seq<char>) -> EditorView {
        EditorView { text, caret: text.len() as int }
    }

    /// A character put in at the caret.
    pub open spec fn typed(self, c: char) -> EditorView {
        EditorView { text: self.text.insert(self.caret, c), caret: self.caret + 1 }
    }

    /// The characters of a text put in one after the other.
    pub open spec fn typed_all(self, text: Seq<char>) -> EditorView
        decreases text.len(),
    {
        if text.len() == 0 {
            self
        } else {
            self.typed_all(text.drop_last()).typed(text.last())
        }
    }

    /// The character before the caret taken out.
    pub open spec fn without_previous(self) -> EditorView {
        if self.caret == 0 {
            self
        } else {
            EditorView { text: self.text.remove(self.caret - 1), caret: self.caret - 1 }
        }
    }

    /// The character behind the caret taken out.
    pub open spec fn without_next(self) -> EditorView {
        if self.caret == self.text.len() {
            self
        } else {
            EditorView { text: self.text.remove(self.caret), caret: self.caret }
        }
    }

    /// The caret one character to the left.
    pub open spec fn to_left(self) -> EditorView {
        EditorView {
            caret: if self.caret > 0 {
                self.caret - 1
            } else {
                0
            },
            ..self
        }
    }

    /// The caret one character to the right.
    pub open spec fn to_right(self) -> EditorView {
        EditorView { caret: least(self.caret + 1, self.text.len() as int), ..self }
    }

    /// The caret at the beginning of its line.
    pub open spec fn to_home(self) -> EditorView {
        EditorView { caret: line_start(self.text, self.caret), ..self }
    }

    /// The caret at the end of its line.
    pub open spec fn to_end(self) -> EditorView {
        EditorView { caret: line_stop(self.text, self.caret), ..self }
    }

    /// The caret one line up, as far to the right as it was or at that line's end. On the
    /// first line it stays.
    pub open spec fn to_up(self) -> EditorView {
        let start = line_start(self.text, self.caret);
        if start == 0 {
            self
        } else {
            EditorView {
                caret: least(line_start(self.text, start - 1) + (self.caret - start), start - 1),
                ..self
            }
        }
    }

    /// The caret one line down, as far to the right as it was or at that line's end. On the
    /// last line it stays.
    pub open spec fn to_down(self) -> EditorView {
        let start = line_start(self.text, self.caret);
        let stop = line_stop(self.text, self.caret);
        if stop == self.text.len() {
            self
        } else {
            EditorView {
                caret: least(stop + 1 + (self.caret - start), line_stop(self.text, stop + 1)),
                ..self
            }
        }
    }
}

proof fn lemma_line_start(text: Seq<char>, at: int)
    requires
        0 <= at <= text.len(),
    ensures
        0 <= line_start(text, at) <= at,
        line_start(text, at) > 0 ==> text[line_start(text, at) - 1] == '\n',
    decreases at,
{
    if at > 0 && text[at - 1] != '\n' {
        lemma_line_start(text, at - 1);
    }
}

proof fn lemma_line_stop(text: Seq<char>, at: int)
    requires
        0 <= at <= text.len(),
    ensures
        at <= line_stop(text, at) <= text.len(),
    decreases text.len() - at,
{
    if at < text.len() && text[at] != '\n' {
        lemma_line_stop(text, at + 1);
    }
}

fn start_of_line(text: &Vec<char>, at: usize) -> (r: usize)
    requires
        at <= text@.len(),
    ensures
        r == line_start(text@, at as int),
        r <= at,
{
    let mut i: usize = at;
    while i > 0 && text[i - 1] != '\n'
        invariant
            i <= at <= text@.len(),
            line_start(text@, i as int) == line_start(text@, at as int),
        decreases i,
    {
        i = i - 1;
    }
    i
}

fn stop_of_line(text: &Vec<char>, at: usize) -> (r: usize)
    requires
        at <= text@.len(),
    ensures
        r == line_stop(text@, at as int),
        at <= r <= text@.len(),
{
    let mut i: usize = at;
    while i < text.len() && text[i] != '\n'
        invariant
            at <= i <= text@.len(),
            line_stop(text@, i as int) == line_stop(text@, at as int),
        decreases text.len() - i,
    {
        i = i + 1;
    }
    i
}

impl Editor {
    /// An editor without text.
    pub fn new() -> (r: Self)
        ensures
            r@ == EditorView::blank(),
    {
        let r = Editor { text: Vec::new(), caret: 0 };
        proof {
            assert(r@ =~= EditorView::blank());
        }
        r
    }

    /// An editor on a text, with the caret behind it.
    pub fn on(text: &str) -> (r: Self)
        ensures
            r@ == EditorView::holding(text@),
    {
        let text = chars_of(text);
        let caret = text.len();
        Editor { text, caret }
    }

    fn at(&self) -> (r: usize)
        ensures
            r == self@.caret,
            r <= self.text@.len(),
    {
        if self.caret <= self.text.len() {
            self.caret
        } else {
            self.text.len()
        }
    }

    /// The text.
    pub fn buffer(&self) -> (r: String)
        ensures
            r@ == self@.text,
    {
        string_of(self.text.as_slice())
    }

    /// Whether there is no text.
    pub fn is_empty(&self) -> (r: bool)
        ensures
            r == (self@.text.len() == 0),
    {
        self.text.len() == 0
    }

    /// Put a character in at the caret.
    pub fn insert_char(&mut self, c: char)
        ensures
            final(self)@ == old(self)@.typed(c),
    {
        let at = self.at();
        self.text.insert(at, c);
        let total = self.text.len();
        self.caret = if at < total {
            at + 1
        } else {
            total
        };
        proof {
            assert(self@ =~= old(self)@.typed(c));
        }
    }

    /// Put the characters of a text in, one after the other.
    pub fn insert_text(&mut self, text: &str)
        ensures
            final(self)@ == old(self)@.typed_all(text@),
    {
        let chars = chars_of(text);
        let mut i: usize = 0;
        proof {
            assert(text@.take(0) =~= Seq::empty());
        }
        while i < chars.len()
            invariant
                i <= chars@.len(),
                chars@ == text@,
                self@ == old(self)@.typed_all(text@.take(i as int)),
            decreases chars.len() - i,
        {
            proof {
                assert(text@.take(i + 1).drop_last() =~= text@.take(i as int));
                assert(text@.take(i + 1).last() == chars@[i as int]);
            }
            self.insert_char(chars[i]);
            i = i + 1;
        }
        proof {
            assert(text@.take(i as int) =~= text@);
        }
    }

    /// Take out the character before the caret.
    pub fn backspace(&mut self)
        ensures
            final(self)@ == old(self)@.without_previous(),
    {
        let at = self.at();
        if at > 0 {
            self.text.remove(at - 1);
            self.caret = at - 1;
        } else {
            self.caret = 0;
        }
        proof {
            assert(self@ =~= old(self)@.without_previous());
        }
    }

    /// Take out the character behind the caret.
    pub fn delete(&mut self)
        ensures
            final(self)@ == old(self)@.without_next(),
    {
        let at = self.at();
        if at < self.text.len() {
            self.text.remove(at);
        }
        self.caret = at;
        proof {
            assert(self@ =~= old(self)@.without_next());
        }
    }

    /// Move the caret one character to the left.
    pub fn move_left(&mut self)
        ensures
            final(self)@ == old(self)@.to_left(),
    {
        let at = self.at();
        self.caret = if at > 0 {
            at - 1
        } else {
            0
        };
    }

    /// Move the caret one character to the right.
    pub fn move_right(&mut self)
        ensures
            final(self)@ == old(self)@.to_right(),
    {
        let at = self.at();
        self.caret = if at < self.text.len() {
            at + 1
        } else {
            at
        };
    }

    /// Move the caret to the beginning of its line.
    pub fn move_home(&mut self)
        ensures
            final(self)@ == old(self)@.to_home(),
    {
        let at = self.at();
        self.caret = start_of_line(&self.text, at);
    }

    /// Move the caret to the end of its line.
    pub fn move_end(&mut self)
        ensures
            final(self)@ == old(self)@.to_end(),
    {
        let at = self.at();
        self.caret = stop_of_line(&self.text, at);
    }

    /// Move the caret one line up.
    pub fn move_up(&mut self)
        ensures
            final(self)@ == old(self)@.to_up(),
    {
        let at = self.at();
        let start = start_of_line(&self.text, at);
        if start > 0 {
            let above = start_of_line(&self.text, start - 1);
            let column = at - start;
            self.caret = if column < start - 1 - above {
                above + column
            } else {
                start - 1
            };
        } else {
            self.caret = at;
        }
    }

    /// Move the caret one line down.
    pub fn move_down(&mut self)
        ensures
            final(self)@ == old(self)@.to_down(),
    {
        let at = self.at();
        let start = start_of_line(&self.text, at);
        let stop = stop_of_line(&self.text, at);
        if stop < self.text.len() {
            let below = stop_of_line(&self.text, stop + 1);
            let column = at - start;
            self.caret = if column < below - (stop + 1) {
                stop + 1 + column
            } else {
                below
            };
        } else {
            self.caret = at;
        }
    }

    /// Hand the text out and start over.
    pub fn take(&mut self) -> (r: String)
        ensures
            r@ == old(self)@.text,
            final(self)@ == EditorView::blank(),
    {
        let r = self.buffer();
        self.text = Vec::new();
        self.caret = 0;
        proof {
            assert(self@ =~= EditorView::blank());
        }
        r
    }
}

/// What is typed into an empty editor is the text it holds, with the caret behind it.
pub proof fn law_typed_is_held(text: Seq<char>)
    ensures
        EditorView::blank().typed_all(text) == EditorView::holding(text),
    decreases text.len(),
{
    if text.len() == 0 {
        assert(EditorView::blank() =~= EditorView::holding(text));
    } else {
        law_typed_is_held(text.drop_last());
        let before = EditorView::holding(text.drop_last());
        assert(before.typed(text.last()).text =~= text);
    }
}

/// Taking the last character out again undoes typing it.
pub proof fn law_backspace_undoes(e: EditorView, c: char)
    requires
        0 <= e.caret <= e.text.len(),
    ensures
        e.typed(c).without_previous() == e,
{
    assert(e.text.insert(e.caret, c).remove(e.caret) =~= e.text);
}

/// Every move leaves the text alone and the caret inside it.
pub proof fn law_moves_keep_text(e: EditorView)
    requires
        0 <= e.caret <= e.text.len(),
    ensures
        forall|m: EditorView|
            (m == e.to_left() || m == e.to_right() || m == e.to_home() || m == e.to_end() || m
                == e.to_up() || m == e.to_down()) ==> #[trigger] m.text == e.text && 0 <= m.caret
                <= e.text.len(),
{
    lemma_line_start(e.text, e.caret);
    lemma_line_stop(e.text, e.caret);
    let start = line_start(e.text, e.caret);
    if start > 0 {
        lemma_line_start(e.text, start - 1);
    }
    let stop = line_stop(e.text, e.caret);
    if stop < e.text.len() {
        lemma_line_stop(e.text, stop + 1);
    }
}

/// Which list a composer offers.
#[derive(Debug, Clone, Copy, PartialEq, Eq, Structural)]
pub enum PopupKind {
    Slash,
    At,
}

/// The composer: an editor that offers a list while its text begins with `/` or `@`.
#[derive(Debug)]
pub struct Composer {
    pub editor: Editor,
    /// The list was closed by hand; it stays closed until the text is gone.
    pub dismissed: bool,
    /// The selected entry of the list.
    pub selected: usize,
}

/// What a [`Composer`] stands for.
#[verifier::ext_equal]
pub struct ComposerView {
    pub editor: EditorView,
    pub dismissed: bool,
    pub selected: usize,
}

impl View for Composer {
    type V = ComposerView;

    open spec fn view(&self) -> ComposerView {
        ComposerView { editor: self.editor@, dismissed: self.dismissed, selected: self.selected }
    }
}

impl Duplicate for Composer {
    fn duplicate(&self) -> (r: Self) {
        Composer {
            editor: self.editor.duplicate(),
            dismissed: self.dismissed,
            selected: self.selected,
        }
    }
}

impl ComposerView {
    /// A composer without text.
    pub open spec fn blank() -> ComposerView {
        ComposerView { editor: EditorView::blank(), dismissed: false, selected: 0 }
    }

    /// The list that is offered.
    pub open spec fn popup(self) -> Option<PopupKind> {
        if self.dismissed || self.editor.text.len() == 0 {
            None
        } else if self.editor.text[0] == '/' {
            Some(PopupKind::Slash)
        } else if self.editor.text[0] == '@' {
            Some(PopupKind::At)
        } else {
            None
        }
    }

    /// The text or the caret changed. The selection starts over; where the text is gone, a
    /// list may open again.
    pub open spec fn edited(self, editor: EditorView) -> ComposerView {
        ComposerView { editor, dismissed: self.dismissed && editor.text.len() > 0, selected: 0 }
    }

    /// The characters of a text put in one after the other.
    pub open spec fn typed_all(self, text: Seq<char>) -> ComposerView
        decreases text.len(),
    {
        if text.len() == 0 {
            self
        } else {
            let before = self.typed_all(text.drop_last());
            before.edited(before.editor.typed(text.last()))
        }
    }

    /// The selection one entry up.
    pub open spec fn up(self) -> ComposerView {
        ComposerView {
            selected: if self.selected > 0 {
                (self.selected - 1) as usize
            } else {
                0
            },
            ..self
        }
    }

    /// The selection one entry down in a list of some entries.
    pub open spec fn down(self, entries: nat) -> ComposerView {
        ComposerView {
            selected: if self.selected + 1 < entries {
                (self.selected + 1) as usize
            } else if entries == 0 {
                0
            } else {
                (entries - 1) as usize
            },
            ..self
        }
    }

    /// The list closed.
    pub open spec fn closed(self) -> ComposerView {
        ComposerView { dismissed: true, ..self }
    }

    /// An entry's text put in the place of the whole text, the list closed.
    pub open spec fn accepted(self, text: Seq<char>) -> ComposerView {
        ComposerView { editor: EditorView::holding(text), dismissed: true, selected: 0 }
    }
}

impl Composer {
    /// A composer without text.
    pub fn new() -> (r: Self)
        ensures
            r@ == ComposerView::blank(),
    {
        Composer { editor: Editor::new(), dismissed: false, selected: 0 }
    }

    /// The text.
    pub fn buffer(&self) -> (r: String)
        ensures
            r@ == self@.editor.text,
    {
        self.editor.buffer()
    }

    /// The list that is offered.
    pub fn popup(&self) -> (r: Option<PopupKind>)
        ensures
            r == self@.popup(),
    {
        if self.dismissed || self.editor.text.len() == 0 {
            None
        } else if self.editor.text[0] == '/' {
            Some(PopupKind::Slash)
        } else if self.editor.text[0] == '@' {
            Some(PopupKind::At)
        } else {
            None
        }
    }

    fn settle(&mut self)
        ensures
            final(self)@ == old(self)@.edited(old(self)@.editor),
    {
        if self.editor.is_empty() {
            self.dismissed = false;
        }
        self.selected = 0;
    }

    /// Put a character in.
    pub fn insert_char(&mut self, c: char)
        ensures
            final(self)@ == old(self)@.edited(old(self)@.editor.typed(c)),
    {
        self.editor.insert_char(c);
        self.settle();
    }

    /// Put the characters of a text in, one after the other.
    pub fn insert_text(&mut self, text: &str)
        ensures
            final(self)@ == old(self)@.typed_all(text@),
    {
        let chars = chars_of(text);
        let mut i: usize = 0;
        proof {
            assert(text@.take(0) =~= Seq::empty());
        }
        while i < chars.len()
            invariant
                i <= chars@.len(),
                chars@ == text@,
                self@ == old(self)@.typed_all(text@.take(i as int)),
            decreases chars.len() - i,
        {
            proof {
                assert(text@.take(i + 1).drop_last() =~= text@.take(i as int));
                assert(text@.take(i + 1).last() == chars@[i as int]);
            }
            self.insert_char(chars[i]);
            i = i + 1;
        }
        proof {
            assert(text@.take(i as int) =~= text@);
        }
    }

    /// Take out the character before the caret.
    pub fn backspace(&mut self)
        ensures
            final(self)@ == old(self)@.edited(old(self)@.editor.without_previous()),
    {
        self.editor.backspace();
        self.settle();
    }

    /// Take out the character behind the caret.
    pub fn delete(&mut self)
        ensures
            final(self)@ == old(self)@.edited(old(self)@.editor.without_next()),
    {
        self.editor.delete();
        self.settle();
    }

    /// Move the selection one entry up.
    pub fn popup_up(&mut self)
        ensures
            final(self)@ == old(self)@.up(),
    {
        self.selected = if self.selected > 0 {
            self.selected - 1
        } else {
            0
        };
    }

    /// Move the selection one entry down in a list of some entries.
    pub fn popup_down(&mut self, entries: usize)
        ensures
            final(self)@ == old(self)@.down(entries as nat),
    {
        self.selected = if self.selected < entries && self.selected + 1 < entries {
            self.selected + 1
        } else if entries == 0 {
            0
        } else {
            entries - 1
        };
    }

    /// Put an entry's text in the place of the whole text and close the list.
    pub fn popup_accept(&mut self, text: &str)
        ensures
            final(self)@ == old(self)@.accepted(text@),
    {
        self.editor = Editor::on(text);
        self.dismissed = true;
        self.selected = 0;
    }

    /// Close the list.
    pub fn popup_dismiss(&mut self)
        ensures
            final(self)@ == old(self)@.closed(),
    {
        self.dismissed = true;
    }

    /// Hand the text out and start over.
    pub fn take(&mut self) -> (r: String)
        ensures
            r@ == old(self)@.editor.text,
            final(self)@ == ComposerView::blank(),
    {
        let r = self.editor.take();
        self.dismissed = false;
        self.selected = 0;
        r
    }
}

} // verus!
