//! Styled text: colors, modifiers, spans and lines.

use vstd::prelude::*;

use crate::text::{duplicate_all, lines_of, Duplicate};

verus! {

/// A color of a cell.
#[derive(Debug, Clone, Copy, PartialEq, Eq, Structural)]
pub enum Color {
    /// The terminal's own color.
    Reset,
    Rgb(u8, u8, u8),
    Indexed(u8),
}

/// A text modifier.
#[derive(Debug, Clone, Copy, PartialEq, Eq, Structural)]
pub enum Modifier {
    Bold,
    Dim,
    Italic,
    CrossedOut,
    Underlined,
    Reversed,
}

/// Colors and modifiers of a text; what is not set is left as it is.
#[derive(Debug, Clone, Copy, PartialEq, Eq)]
pub struct Style {
    pub fg: Option<Color>,
    pub bg: Option<Color>,
    pub bold: bool,
    pub dim: bool,
    pub italic: bool,
    pub crossed_out: bool,
    pub underlined: bool,
    pub reversed: bool,
}

/// The style that sets nothing.
pub open spec fn plain() -> Style {
    Style {
        fg: None,
        bg: None,
        bold: false,
        dim: false,
        italic: false,
        crossed_out: false,
        underlined: false,
        reversed: false,
    }
}

/// The style that sets the foreground alone.
pub open spec fn fg(color: Color) -> Style {
    plain().with_fg(color)
}

impl Style {
    /// The style with another foreground.
    pub open spec fn with_fg(self, color: Color) -> Style {
        Style { fg: Some(color), ..self }
    }

    /// The style with another background.
    pub open spec fn with_bg(self, color: Color) -> Style {
        Style { bg: Some(color), ..self }
    }

    /// The style with a modifier set.
    pub open spec fn with(self, modifier: Modifier) -> Style {
        match modifier {
            Modifier::Bold => Style { bold: true, ..self },
            Modifier::Dim => Style { dim: true, ..self },
            Modifier::Italic => Style { italic: true, ..self },
            Modifier::CrossedOut => Style { crossed_out: true, ..self },
            Modifier::Underlined => Style { underlined: true, ..self },
            Modifier::Reversed => Style { reversed: true, ..self },
        }
    }

    /// The style that sets nothing.
    pub fn new() -> (r: Style)
        ensures
            r == plain(),
    {
        Style {
            fg: None,
            bg: None,
            bold: false,
            dim: false,
            italic: false,
            crossed_out: false,
            underlined: false,
            reversed: false,
        }
    }

    /// The style with another foreground.
    pub fn fg(self, color: Color) -> (r: Style)
        ensures
            r == self.with_fg(color),
    {
        let mut r = self;
        r.fg = Some(color);
        r
    }

    /// The style with another background.
    pub fn bg(self, color: Color) -> (r: Style)
        ensures
            r == self.with_bg(color),
    {
        let mut r = self;
        r.bg = Some(color);
        r
    }

    /// The style with a modifier set.
    pub fn add_modifier(self, modifier: Modifier) -> (r: Style)
        ensures
            r == self.with(modifier),
    {
        let mut r = self;
        match modifier {
            Modifier::Bold => r.bold = true,
            Modifier::Dim => r.dim = true,
            Modifier::Italic => r.italic = true,
            Modifier::CrossedOut => r.crossed_out = true,
            Modifier::Underlined => r.underlined = true,
            Modifier::Reversed => r.reversed = true,
        }
        r
    }
}

impl Default for Style {
    fn default() -> (r: Self)
        ensures
            r == plain(),
    {
        Style::new()
    }
}

/// A text in one style.
#[derive(Debug, PartialEq, Eq)]
pub struct Span {
    pub content: String,
    pub style: Style,
}

/// What a [`Span`] stands for.
#[verifier::ext_equal]
pub struct SpanView {
    pub content: Seq<char>,
    pub style: Style,
}

impl View for Span {
    type V = SpanView;

    open spec fn view(&self) -> SpanView {
        SpanView { content: self.content@, style: self.style }
    }
}

impl Duplicate for Span {
    fn duplicate(&self) -> (r: Self) {
        Span { content: self.content.clone(), style: self.style }
    }
}

impl Clone for Span {
    fn clone(&self) -> (r: Self)
        ensures
            r@ == self@,
    {
        self.duplicate()
    }
}

/// A span in a style.
pub open spec fn styled_span(content: Seq<char>, style: Style) -> SpanView {
    SpanView { content, style }
}

/// A span without a style.
pub open spec fn raw_span(content: Seq<char>) -> SpanView {
    SpanView { content, style: plain() }
}

impl Span {
    /// A span in a style.
    pub fn styled(content: &str, style: Style) -> (r: Span)
        ensures
            r@ == styled_span(content@, style),
    {
        Span { content: content.to_owned(), style }
    }

    /// A span without a style.
    pub fn raw(content: &str) -> (r: Span)
        ensures
            r@ == raw_span(content@),
    {
        Span { content: content.to_owned(), style: Style::new() }
    }
}

/// One display line. The line's style lies under those of its spans.
#[derive(Debug, PartialEq, Eq)]
pub struct Line {
    pub spans: Vec<Span>,
    pub style: Style,
}

/// What a [`Line`] stands for.
#[verifier::ext_equal]
pub struct LineView {
    pub spans: Seq<SpanView>,
    pub style: Style,
}

impl View for Line {
    type V = LineView;

    open spec fn view(&self) -> LineView {
        LineView { spans: crate::text::views(self.spans@), style: self.style }
    }
}

impl Duplicate for Line {
    fn duplicate(&self) -> (r: Self) {
        Line { spans: duplicate_all(&self.spans), style: self.style }
    }
}

impl Clone for Line {
    fn clone(&self) -> (r: Self)
        ensures
            r@ == self@,
    {
        self.duplicate()
    }
}

/// The spans of a text without a style: one for each of its lines.
pub open spec fn raw_spans(content: Seq<char>) -> Seq<SpanView> {
    crate::text::text_lines(content).map_values(|l: Seq<char>| raw_span(l))
}

/// A line of one text in a style.
pub open spec fn styled_line(content: Seq<char>, style: Style) -> LineView {
    LineView { spans: raw_spans(content), style }
}

/// A line of one text without a style.
pub open spec fn raw_line(content: Seq<char>) -> LineView {
    styled_line(content, plain())
}

/// A line of spans.
pub open spec fn line_of(spans: Seq<SpanView>) -> LineView {
    LineView { spans, style: plain() }
}

/// The line that holds nothing.
pub open spec fn empty_line() -> LineView {
    line_of(Seq::empty())
}

impl LineView {
    /// Whether the line shows nothing.
    pub open spec fn blank(self) -> bool {
        forall|i: int| 0 <= i < self.spans.len() ==> (#[trigger] self.spans[i]).content.len() == 0
    }

    /// The text of the line.
    pub open spec fn text(self) -> Seq<char> {
        spans_text(self.spans)
    }
}

/// The text of some spans.
pub open spec fn spans_text(spans: Seq<SpanView>) -> Seq<char>
    decreases spans.len(),
{
    if spans.len() == 0 {
        Seq::empty()
    } else {
        spans_text(spans.drop_last()) + spans.last().content
    }
}

impl Line {
    /// A line of spans.
    pub fn from_spans(spans: Vec<Span>) -> (r: Line)
        ensures
            r@ == line_of(crate::text::views(spans@)),
    {
        Line { spans, style: Style::new() }
    }

    /// A line of one span.
    pub fn from_span(span: Span) -> (r: Line)
        ensures
            r@ == line_of(seq![span@]),
    {
        let mut spans: Vec<Span> = Vec::new();
        let ghost view = span@;
        spans.push(span);
        proof {
            assert(crate::text::views(spans@) =~= seq![view]);
        }
        Line { spans, style: Style::new() }
    }

    /// A line of one text in a style.
    pub fn styled(content: &str, style: Style) -> (r: Line)
        ensures
            r@ == styled_line(content@, style),
    {
        let lines = lines_of(content);
        let mut spans: Vec<Span> = Vec::new();
        let mut i: usize = 0;
        while i < lines.len()
            invariant
                i <= lines.len(),
                spans.len() == i,
                forall|k: int| 0 <= k < i ==> (#[trigger] spans@[k])@ == raw_span(lines@[k]@),
            decreases lines.len() - i,
        {
            spans.push(Span::raw(lines[i].as_str()));
            i = i + 1;
        }
        proof {
            let all = crate::text::views(lines@);
            assert forall|k: int| 0 <= k < spans.len() implies #[trigger] crate::text::views(
                spans@,
            )[k] == raw_spans(content@)[k] by {
                assert(all[k] == lines@[k]@);
            }
            assert(raw_spans(content@).len() == all.len());
            assert(crate::text::views(spans@) =~= raw_spans(content@));
        }
        Line { spans, style }
    }

    /// A line of one text without a style.
    pub fn raw(content: &str) -> (r: Line)
        ensures
            r@ == raw_line(content@),
    {
        Line::styled(content, Style::new())
    }

    /// The line that holds nothing.
    pub fn empty() -> (r: Line)
        ensures
            r@ == empty_line(),
    {
        let r = Line { spans: Vec::new(), style: Style::new() };
        proof {
            assert(crate::text::views(r.spans@) =~= Seq::empty());
        }
        r
    }

    /// Whether the line shows nothing.
    pub fn is_blank(&self) -> (r: bool)
        ensures
            r == self@.blank(),
    {
        let mut i: usize = 0;
        while i < self.spans.len()
            invariant
                i <= self.spans.len(),
                forall|k: int|
                    0 <= k < i ==> (#[trigger] self@.spans[k]).content.len() == 0,
            decreases self.spans.len() - i,
        {
            if !self.spans[i].content.as_str().is_empty() {
                proof {
                    assert(self@.spans[i as int].content.len() != 0);
                }
                return false;
            }
            i = i + 1;
        }
        true
    }
}

/// The lines of a list, as what they stand for, with one more.
pub proof fn lemma_push_line(lines: Seq<Line>, line: Line)
    ensures
        crate::text::views(lines.push(line)) == crate::text::views(lines).push(line@),
{
    assert(crate::text::views(lines.push(line)) =~= crate::text::views(lines).push(line@));
}

/// The spans of a list, as what they stand for, with one more.
pub proof fn lemma_push_span(spans: Seq<Span>, span: Span)
    ensures
        crate::text::views(spans.push(span)) == crate::text::views(spans).push(span@),
{
    assert(crate::text::views(spans.push(span)) =~= crate::text::views(spans).push(span@));
}

} // verus!
