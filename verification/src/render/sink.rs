//! From markdown events to styled lines.

use vstd::prelude::*;

use syntect::parsing::SyntaxSet;

use crate::i18n::{trf, Locale, Strings, StringsView};
use crate::render::highlight::{highlight_code, Grammars};
use crate::render::inline_image::ImageCache;
use crate::render::markdown_events::{events_of, MdEnd, MdEvent, MdEventView, MdTag, MdTagView};
use crate::render::skill::{detect_skill_block, SkillBlockView, SkillItem, SkillItemView};
use crate::render::style::{Line, LineView, Modifier, Span, SpanView, Style};
use crate::render::width::cell_width;
use crate::table::Table;
use crate::text::{chars_of, duplicate_all, is_white, joined, raw_lines_of, slice_text, u64_text};
use crate::theme::{Theme, ThemeView};

verus! {

/// The mark around the address of a link at the start of a span's text. It takes no column.
pub const LINK_PREFIX: char = '\u{200B}';

/// What rendering needs beside the text.
#[derive(Clone, Copy)]
pub struct RenderContext<'a> {
    /// The width that lines are wrapped at, which inline images are fitted to.
    pub width: u16,
    pub theme: &'a Theme,
    pub strings: &'a Strings,
    pub locale: Locale,
    pub images: &'a ImageCache,
    /// Whether the skill list of a node is folded; one that is missing is.
    pub skill_folds: &'a Table<bool>,
    pub grammars: &'a Grammars,
}

/// What the look of a text depends on.
pub struct LookView {
    pub theme: ThemeView,
    pub strings: StringsView,
    pub locale: Locale,
    pub set: SyntaxSet,
}

/// Whether the skill list of a node is folded: it is unless it was unfolded.
pub open spec fn is_folded(folds: Map<Seq<char>, bool>, key: Seq<char>) -> bool {
    if folds.dom().contains(key) {
        folds[key]
    } else {
        true
    }
}

impl<'a> RenderContext<'a> {
    /// What the look of a text depends on.
    pub open spec fn look(self) -> LookView {
        LookView {
            theme: self.theme@,
            strings: self.strings@,
            locale: self.locale,
            set: self.grammars.syntaxes(),
        }
    }

    /// Whether the skill list of a node is folded.
    pub fn skill_fold(&self, key: &str) -> (r: bool)
        ensures
            r == is_folded(self.skill_folds@, key@),
    {
        match self.skill_folds.get(key) {
            Some(folded) => *folded,
            None => true,
        }
    }
}

/// Rendered text: its lines, the ranges of them that are code, and the line of the header of a
/// skill list.
#[derive(Debug)]
pub struct Rendered {
    pub lines: Vec<Line>,
    pub code_ranges: Vec<(usize, usize)>,
    pub skill_header: Option<usize>,
}

/// What a [`Rendered`] stands for.
#[verifier::ext_equal]
pub struct RenderedView {
    pub lines: Seq<LineView>,
    pub code_ranges: Seq<(nat, nat)>,
    pub skill_header: Option<nat>,
}

/// An optional machine number as a number.
pub open spec fn opt_nat(n: Option<usize>) -> Option<nat> {
    match n {
        Some(n) => Some(n as nat),
        None => None,
    }
}

impl View for Rendered {
    type V = RenderedView;

    open spec fn view(&self) -> RenderedView {
        RenderedView {
            lines: crate::text::views(self.lines@),
            code_ranges: crate::render::wrap::nat_pairs(self.code_ranges@),
            skill_header: opt_nat(self.skill_header),
        }
    }
}

/// Whether what is known by line index lies within the lines.
pub open spec fn within(lines: nat, ranges: Seq<(nat, nat)>, header: Option<nat>) -> bool {
    &&& forall|i: int|
        0 <= i < ranges.len() ==> (#[trigger] ranges[i]).0 <= ranges[i].1 && ranges[i].1 <= lines
    &&& header matches Some(h) ==> h < lines
}

impl RenderedView {
    /// Whether what is known by line index lies within the lines.
    pub open spec fn fine(self) -> bool {
        within(self.lines.len(), self.code_ranges, self.skill_header)
    }
}

/// One level of list nesting.
#[derive(Debug, Clone, Copy, PartialEq, Eq, Structural)]
pub struct ListState {
    pub ordered: bool,
    pub counter: u64,
}

/// A code block on its way.
pub struct CodeView {
    pub language: Option<Seq<char>>,
    pub text: Seq<char>,
}

/// A table on its way: cells are spans.
pub struct TableView {
    pub header: Seq<Seq<SpanView>>,
    pub rows: Seq<Seq<Seq<SpanView>>>,
    pub current_row: Seq<Seq<SpanView>>,
}

/// A message on its way through its events.
pub struct SinkView {
    pub base: Style,
    pub look: LookView,
    pub folded: bool,
    pub skill_header: Option<nat>,
    pub lines: Seq<LineView>,
    pub code_ranges: Seq<(nat, nat)>,
    pub link: Option<Seq<char>>,
    pub current: Seq<SpanView>,
    pub modifiers: Seq<Modifier>,
    pub quotes: nat,
    pub lists: Seq<ListState>,
    pub code: Option<CodeView>,
    pub table: Option<TableView>,
}

/// The start of a message.
pub open spec fn sink_start(base: Style, look: LookView, folded: bool) -> SinkView {
    SinkView {
        base,
        look,
        folded,
        skill_header: None,
        lines: Seq::empty(),
        code_ranges: Seq::empty(),
        link: None,
        current: Seq::empty(),
        modifiers: Seq::empty(),
        quotes: 0,
        lists: Seq::empty(),
        code: None,
        table: None,
    }
}

/// A character some times over.
pub open spec fn repeated(c: char, n: nat) -> Seq<char> {
    Seq::new(n, |i: int| c)
}

/// The first word of a text.
pub open spec fn first_word(text: Seq<char>) -> Option<Seq<char>> {
    let t = crate::text::trim_start(text);
    if t.len() == 0 {
        None
    } else {
        Some(t.take(crate::seqs::first_index(t, is_blank())))
    }
}

/// Whether a character is white space.
pub open spec fn is_blank() -> spec_fn(char) -> bool {
    |c: char| crate::text::white(c)
}

/// A style with some modifiers set.
pub open spec fn modified(style: Style, modifiers: Seq<Modifier>) -> Style
    decreases modifiers.len(),
{
    if modifiers.len() == 0 {
        style
    } else {
        modified(style, modifiers.drop_last()).with(modifiers.last())
    }
}

/// The lines of code: highlighted where its language is known, else each in the color of code.
pub open spec fn code_lines(look: LookView, code: Seq<char>, language: Option<Seq<char>>) -> Seq<
    LineView,
> {
    match language {
        Some(lang) => match crate::render::highlight::highlighted(look.set, code, lang, look.theme) {
            Some(lines) => lines,
            None => plain_code(look, code),
        },
        None => plain_code(look, code),
    }
}

/// A line of code in the color of code.
pub open spec fn plain_code_line(look: LookView) -> spec_fn(Seq<char>) -> LineView {
    |l: Seq<char>|
        crate::render::style::line_of(
            seq![crate::render::style::styled_span(l, crate::render::style::fg(look.theme.code))],
        )
}

/// The lines of code, each in the color of code.
pub open spec fn plain_code(look: LookView, code: Seq<char>) -> Seq<LineView> {
    crate::text::raw_lines(code).map_values(plain_code_line(look))
}

/// The rows of a table: the header first, where there is one.
pub open spec fn table_rows(table: TableView) -> Seq<Seq<Seq<SpanView>>> {
    if table.header.len() > 0 {
        seq![table.header] + table.rows
    } else {
        table.rows
    }
}

/// The number of columns of some rows.
pub open spec fn column_count(rows: Seq<Seq<Seq<SpanView>>>) -> nat
    decreases rows.len(),
{
    if rows.len() == 0 {
        0
    } else {
        let before = column_count(rows.drop_last());
        if rows.last().len() > before {
            rows.last().len()
        } else {
            before
        }
    }
}

/// The width of a column.
pub open spec fn column_width(rows: Seq<Seq<Seq<SpanView>>>, column: int) -> nat
    decreases rows.len(),
{
    if rows.len() == 0 {
        0
    } else {
        let before = column_width(rows.drop_last(), column);
        let row = rows.last();
        if column < row.len() && crate::render::width::spans_columns(row[column]) > before {
            crate::render::width::spans_columns(row[column])
        } else {
            before
        }
    }
}

/// The widths of the columns.
pub open spec fn column_widths(rows: Seq<Seq<Seq<SpanView>>>) -> Seq<nat> {
    Seq::new(column_count(rows), |c: int| column_width(rows, c))
}

/// The spans of a row up to column `n`.
pub open spec fn row_spans(row: Seq<Seq<SpanView>>, widths: Seq<nat>, n: int) -> Seq<SpanView>
    decreases n,
{
    if n <= 0 {
        seq![crate::render::style::raw_span("| "@)]
    } else {
        let c = n - 1;
        let before = if c > 0 {
            row_spans(row, widths, c).push(crate::render::style::raw_span(" | "@))
        } else {
            row_spans(row, widths, c)
        };
        if c < row.len() {
            let taken = crate::render::width::spans_columns(row[c]);
            if widths[c] > taken {
                (before + row[c]).push(
                    crate::render::style::raw_span(repeated(' ', (widths[c] - taken) as nat)),
                )
            } else {
                before + row[c]
            }
        } else {
            before.push(crate::render::style::raw_span(repeated(' ', widths[c])))
        }
    }
}

/// The line of a row.
pub open spec fn row_line(row: Seq<Seq<SpanView>>, widths: Seq<nat>) -> LineView {
    crate::render::style::line_of(
        row_spans(row, widths, widths.len() as int).push(crate::render::style::raw_span(" |"@)),
    )
}

/// The rule below the first row.
pub open spec fn rule_text(widths: Seq<nat>) -> Seq<char>
    decreases widths.len(),
{
    if widths.len() == 0 {
        "|"@
    } else {
        rule_text(widths.drop_last()) + repeated(
            '─',
            crate::render::width::capped_sum(widths.last(), 2),
        ) + "|"@
    }
}

/// The lines of some rows at some column widths.
pub open spec fn row_lines(rows: Seq<Seq<Seq<SpanView>>>, widths: Seq<nat>) -> Seq<LineView>
    decreases rows.len(),
{
    if rows.len() == 0 {
        Seq::empty()
    } else {
        let before = row_lines(rows.drop_last(), widths).push(row_line(rows.last(), widths));
        if rows.len() == 1 {
            before.push(
                crate::render::style::line_of(
                    seq![crate::render::style::raw_span(rule_text(widths))],
                ),
            )
        } else {
            before
        }
    }
}

/// The lines of a table.
pub open spec fn table_lines(table: TableView) -> Seq<LineView> {
    let rows = table_rows(table);
    row_lines(rows, column_widths(rows))
}

/// The list marker of an item.
pub open spec fn marker(lists: Seq<ListState>) -> Seq<char> {
    if lists.len() > 0 && lists.last().ordered {
        crate::text::decimal(lists.last().counter as nat) + ". "@
    } else {
        "• "@
    }
}

/// The lists after an item.
pub open spec fn counted(lists: Seq<ListState>) -> Seq<ListState> {
    if lists.len() > 0 && lists.last().ordered {
        lists.update(
            lists.len() - 1,
            ListState { ordered: true, counter: lists.last().counter.wrapping_add(1) },
        )
    } else {
        lists
    }
}

/// A sequence without its last item, where it has one.
pub open spec fn popped<T>(s: Seq<T>) -> Seq<T> {
    if s.len() > 0 {
        s.drop_last()
    } else {
        s
    }
}

/// The header of a skill list.
pub open spec fn skill_header_line(look: LookView, folded: bool, count: nat) -> LineView {
    crate::render::style::line_of(
        seq![
            crate::render::style::styled_span(
                if folded {
                    "▸ "@
                } else {
                    "▾ "@
                },
                crate::render::style::plain().with(Modifier::Bold).with_fg(look.theme.accent),
            ),
            crate::render::style::styled_span(
                crate::i18n::text_with(
                    look.strings,
                    look.locale,
                    "skill.count"@,
                    seq![crate::text::decimal(count)],
                ),
                crate::render::style::fg(look.theme.text),
            ),
        ],
    )
}

/// The line of a skill.
pub open spec fn skill_line(look: LookView, item: SkillItemView) -> LineView {
    let name = crate::render::style::styled_span(
        item.name,
        crate::render::style::plain().with(Modifier::Bold).with_fg(look.theme.text),
    );
    crate::render::style::line_of(
        if item.description.len() == 0 {
            seq![name]
        } else {
            seq![
                name,
                crate::render::style::styled_span(
                    " — "@ + item.description,
                    crate::render::style::fg(look.theme.muted),
                ),
            ]
        },
    )
}

/// The lines of some skills.
pub open spec fn skill_lines(look: LookView, items: Seq<SkillItemView>) -> Seq<LineView> {
    items.map_values(|i: SkillItemView| skill_line(look, i))
}

impl SinkView {
    /// The line being filled, put among the lines behind its quote bars. One without spans is
    /// none.
    pub open spec fn flushed(self) -> SinkView {
        if self.current.len() == 0 {
            self
        } else {
            SinkView {
                lines: self.lines.push(
                    crate::render::style::line_of(
                        Seq::new(
                            self.quotes,
                            |i: int| crate::render::style::raw_span("│ "@),
                        ) + self.current,
                    ),
                ),
                current: Seq::empty(),
                ..self
            }
        }
    }

    /// One empty line: not at the top of a message, and never two in a row.
    pub open spec fn spaced(self) -> SinkView {
        let has_content = self.lines.len() > 0 || self.current.len() > 0;
        let last_blank = self.lines.len() > 0 && self.lines.last().blank();
        if has_content && !last_blank {
            SinkView { lines: self.lines.push(crate::render::style::empty_line()), ..self }
        } else {
            self
        }
    }

    /// One more span on the line. Within a link its text carries the address in front.
    pub open spec fn with_span(self, span: SpanView) -> SinkView {
        let span = match self.link {
            Some(url) => if url.len() > 0 {
                SpanView {
                    content: seq![LINK_PREFIX] + url + seq![LINK_PREFIX] + span.content,
                    ..span
                }
            } else {
                span
            },
            None => span,
        };
        SinkView { current: self.current.push(span), ..self }
    }

    /// The style of text at this place.
    pub open spec fn text_style(self) -> Style {
        modified(
            if self.link is Some {
                self.base.with_fg(self.look.theme.accent)
            } else {
                self.base
            },
            self.modifiers,
        )
    }

    /// Something opens.
    pub open spec fn opened(self, tag: MdTagView) -> SinkView {
        match tag {
            MdTagView::Heading(_) => {
                let st = self.flushed().spaced();
                SinkView { modifiers: st.modifiers.push(Modifier::Bold), ..st }
            },
            MdTagView::BlockQuote => {
                let st = self.flushed();
                SinkView { quotes: st.quotes + 1, ..st }
            },
            MdTagView::CodeBlock(info) => {
                let st = self.flushed().spaced();
                SinkView {
                    code: Some(
                        CodeView {
                            language: match info {
                                Some(info) => first_word(info),
                                None => None,
                            },
                            text: Seq::empty(),
                        },
                    ),
                    ..st
                }
            },
            MdTagView::List(start) => SinkView {
                lists: self.lists.push(
                    ListState {
                        ordered: start is Some,
                        counter: match start {
                            Some(n) => n,
                            None => 1,
                        },
                    },
                ),
                ..self
            },
            MdTagView::Item => {
                let st = self.with_span(crate::render::style::raw_span(marker(self.lists)));
                SinkView { lists: counted(self.lists), ..st }
            },
            MdTagView::Emphasis => SinkView {
                modifiers: self.modifiers.push(Modifier::Italic),
                ..self
            },
            MdTagView::Strong => SinkView { modifiers: self.modifiers.push(Modifier::Bold), ..self },
            MdTagView::Strikethrough => SinkView {
                modifiers: self.modifiers.push(Modifier::CrossedOut),
                ..self
            },
            MdTagView::Table => {
                let st = self.flushed();
                SinkView {
                    table: Some(
                        TableView {
                            header: Seq::empty(),
                            rows: Seq::empty(),
                            current_row: Seq::empty(),
                        },
                    ),
                    ..st
                }
            },
            MdTagView::TableCell => SinkView { current: Seq::empty(), ..self },
            MdTagView::Link(url) => SinkView { link: Some(url), ..self },
            MdTagView::Other => self,
        }
    }

    /// Something closes.
    pub open spec fn ended(self, end: MdEnd) -> SinkView {
        match end {
            MdEnd::Paragraph => self.flushed(),
            MdEnd::Heading => SinkView { modifiers: popped(self.modifiers), ..self }.flushed(),
            MdEnd::BlockQuote => {
                let st = self.flushed();
                SinkView {
                    quotes: if st.quotes > 0 {
                        (st.quotes - 1) as nat
                    } else {
                        0
                    },
                    ..st
                }
            },
            MdEnd::CodeBlock => match self.code {
                Some(code) => {
                    let more = code_lines(self.look, code.text, code.language);
                    SinkView {
                        lines: (self.lines + more).push(crate::render::style::empty_line()),
                        code_ranges: if more.len() > 0 {
                            self.code_ranges.push(
                                (self.lines.len(), self.lines.len() + more.len()),
                            )
                        } else {
                            self.code_ranges
                        },
                        code: None,
                        ..self
                    }
                },
                None => self,
            },
            MdEnd::List => SinkView { lists: popped(self.lists), ..self }.flushed(),
            MdEnd::Item => self.flushed(),
            MdEnd::Emphasis => SinkView { modifiers: popped(self.modifiers), ..self },
            MdEnd::Strong => SinkView { modifiers: popped(self.modifiers), ..self },
            MdEnd::Strikethrough => SinkView { modifiers: popped(self.modifiers), ..self },
            MdEnd::Table => match self.table {
                Some(table) => SinkView {
                    lines: self.lines + table_lines(table),
                    table: None,
                    ..self
                },
                None => self,
            },
            MdEnd::TableHead => match self.table {
                Some(table) => SinkView {
                    table: Some(
                        TableView {
                            header: table.current_row,
                            current_row: Seq::empty(),
                            ..table
                        },
                    ),
                    ..self
                },
                None => self,
            },
            MdEnd::TableRow => match self.table {
                Some(table) => SinkView {
                    table: Some(
                        TableView {
                            rows: table.rows.push(table.current_row),
                            current_row: Seq::empty(),
                            ..table
                        },
                    ),
                    ..self
                },
                None => self,
            },
            MdEnd::TableCell => match self.table {
                Some(table) => SinkView {
                    table: Some(
                        TableView { current_row: table.current_row.push(self.current), ..table },
                    ),
                    current: Seq::empty(),
                    ..self
                },
                None => self,
            },
            MdEnd::Link => SinkView { link: None, ..self },
            MdEnd::Other => self,
        }
    }

    /// One more event.
    pub open spec fn after(self, event: MdEventView) -> SinkView {
        match event {
            MdEventView::Start(tag) => self.opened(tag),
            MdEventView::End(end) => self.ended(end),
            MdEventView::Text(text) => match self.code {
                Some(code) => SinkView {
                    code: Some(CodeView { text: code.text + text, ..code }),
                    ..self
                },
                None => self.with_span(crate::render::style::styled_span(text, self.text_style())),
            },
            MdEventView::Code(text) => self.with_span(
                crate::render::style::styled_span(
                    text,
                    self.text_style().with_fg(self.look.theme.code),
                ),
            ),
            MdEventView::SoftBreak => self.with_span(crate::render::style::raw_span(" "@)),
            MdEventView::HardBreak => self.flushed(),
            MdEventView::Rule => self.flushed().with_span(
                crate::render::style::raw_span("────────"@),
            ).flushed(),
            MdEventView::Other => self,
        }
    }

    /// A skill list in place of its heading and items: its header alone where it is folded.
    pub open spec fn with_skills(self, items: Seq<SkillItemView>) -> SinkView {
        let st = self.spaced();
        let lines = st.lines.push(skill_header_line(self.look, self.folded, items.len()));
        SinkView {
            skill_header: Some(st.lines.len()),
            lines: if self.folded {
                lines
            } else {
                lines + skill_lines(self.look, items)
            },
            ..st
        }
    }

    /// Whether what is known by line index lies within the lines.
    pub open spec fn fine(self) -> bool {
        within(self.lines.len(), self.code_ranges, self.skill_header)
    }
}

/// A message after its events. Those of a skill list give way to the list.
pub open spec fn sunk(
    start: SinkView,
    events: Seq<MdEventView>,
    block: Option<SkillBlockView>,
) -> SinkView
    decreases events.len(),
{
    if events.len() == 0 {
        start
    } else {
        let index = events.len() - 1;
        let before = sunk(start, events.drop_last(), block);
        match block {
            Some(b) => if index == b.start {
                before.with_skills(b.items)
            } else if b.start < index <= b.end {
                before
            } else {
                before.after(events.last())
            },
            None => before.after(events.last()),
        }
    }
}

/// The rendered form of some events.
pub open spec fn rendered_events(
    events: Seq<MdEventView>,
    base: Style,
    look: LookView,
    folded: bool,
) -> RenderedView {
    let done = sunk(
        sink_start(base, look, folded),
        events,
        crate::render::skill::skill_block(events),
    ).flushed();
    RenderedView {
        lines: done.lines,
        code_ranges: done.code_ranges,
        skill_header: done.skill_header,
    }
}

/// The rendered form of a markdown text.
pub open spec fn rendered_markdown(
    text: Seq<char>,
    base: Style,
    look: LookView,
    folded: bool,
) -> RenderedView {
    rendered_events(
        crate::render::markdown_events::markdown_events(text),
        base,
        look,
        folded,
    )
}

proof fn lemma_event_keeps(st: SinkView, event: MdEventView)
    ensures
        st.fine() ==> st.after(event).fine(),
        st.after(event).quotes <= st.quotes + 1,
{
}

proof fn lemma_skills_keep(st: SinkView, items: Seq<SkillItemView>)
    ensures
        st.fine() ==> st.with_skills(items).fine(),
        st.with_skills(items).quotes == st.quotes,
{
}

/// A character some times over.
pub fn repeat_char(c: char, n: usize) -> (r: String)
    ensures
        r@ == repeated(c, n as nat),
{
    let mut out = String::new();
    let mut i: usize = 0;
    while i < n
        invariant
            i <= n,
            out@ == repeated(c, i as nat),
        decreases n - i,
    {
        out.push(c);
        i = i + 1;
        proof {
            assert(out@ =~= repeated(c, i as nat));
        }
    }
    out
}

fn word_of(text: &str) -> (r: Option<String>)
    ensures
        crate::text::opt_view(r) == first_word(text@),
{
    let chars = chars_of(text);
    let mut start: usize = 0;
    proof {
        assert(chars@.skip(0) =~= chars@);
    }
    while start < chars.len() && is_white(chars[start])
        invariant
            start <= chars.len(),
            crate::text::trim_start(chars@.skip(start as int)) == crate::text::trim_start(chars@),
        decreases chars.len() - start,
    {
        proof {
            assert(chars@.skip(start as int).drop_first() =~= chars@.skip(start + 1));
        }
        start = start + 1;
    }
    let ghost t = chars@.skip(start as int);
    if start == chars.len() {
        return None;
    }
    let mut end: usize = start;
    while end < chars.len() && !is_white(chars[end])
        invariant
            start <= end <= chars.len(),
            t == chars@.skip(start as int),
            forall|k: int| 0 <= k < end - start ==> !is_blank()(#[trigger] t[k]),
        decreases chars.len() - end,
    {
        end = end + 1;
    }
    proof {
        crate::seqs::lemma_first_index(t, is_blank(), end - start);
        assert(chars@.subrange(start as int, end as int) =~= t.take(end - start));
    }
    Some(slice_text(&chars, start, end))
}

/// The lines of code: highlighted where its language is known, else each in the color of code.
pub fn code_block_lines(
    grammars: &Grammars,
    code: &str,
    language: Option<&str>,
    theme: &Theme,
) -> (r: Vec<Line>)
    ensures
        forall|look: LookView|
            look.set == grammars.syntaxes() && look.theme == theme@ ==> crate::text::views(r@)
                == #[trigger] code_lines(look, code@, crate::text::opt_view(language)),
{
    match language {
        Some(lang) => match highlight_code(grammars, code, lang, theme) {
            Some(lines) => return lines,
            None => {},
        },
        None => {},
    }
    let source = raw_lines_of(code);
    let ghost all = crate::text::raw_lines(code@);
    let mut lines: Vec<Line> = Vec::new();
    let mut i: usize = 0;
    while i < source.len()
        invariant
            i <= source.len(),
            lines.len() == i,
            forall|k: int|
                0 <= k < i ==> (#[trigger] lines@[k])@ == crate::render::style::line_of(
                    seq![
                        crate::render::style::styled_span(
                            source@[k]@,
                            crate::render::style::fg(theme.code),
                        ),
                    ],
                ),
        decreases source.len() - i,
    {
        lines.push(Line::from_span(Span::styled(source[i].as_str(), Style::new().fg(theme.code))));
        i = i + 1;
    }
    proof {
        assert forall|look: LookView|
            look.set == grammars.syntaxes() && look.theme == theme@ implies crate::text::views(
            lines@,
        ) == #[trigger] code_lines(look, code@, crate::text::opt_view(language)) by {
            assert(all == crate::text::views(source@));
            assert(crate::text::views(lines@) =~= plain_code(look, code@));
        }
    }
    lines
}

/// The cells of a row, as what they stand for.
pub open spec fn cell_views(row: Seq<Vec<Span>>) -> Seq<Seq<SpanView>> {
    row.map_values(|c: Vec<Span>| crate::text::views(c@))
}

/// The rows of a table, as what they stand for.
pub open spec fn row_views(rows: Seq<Vec<Vec<Span>>>) -> Seq<Seq<Seq<SpanView>>> {
    rows.map_values(|r: Vec<Vec<Span>>| cell_views(r@))
}

fn measure_column(rows: &Vec<Vec<Vec<Span>>>, column: usize) -> (r: usize)
    ensures
        r == column_width(row_views(rows@), column as int),
{
    let ghost all = row_views(rows@);
    let mut width: usize = 0;
    let mut i: usize = 0;
    while i < rows.len()
        invariant
            i <= rows.len(),
            all == row_views(rows@),
            width == column_width(all.take(i as int), column as int),
        decreases rows.len() - i,
    {
        proof {
            assert(all.take(i + 1).drop_last() =~= all.take(i as int));
            assert(all.take(i + 1).last() == cell_views(rows@[i as int]@));
        }
        if column < rows[i].len() {
            let w = cell_width(&rows[i][column]);
            if w > width {
                width = w;
            }
        }
        i = i + 1;
    }
    proof {
        assert(all.take(i as int) =~= all);
    }
    width
}

fn measure_columns(rows: &Vec<Vec<Vec<Span>>>) -> (r: Vec<usize>)
    ensures
        crate::render::wrap::nats(r@) == column_widths(row_views(rows@)),
{
    let ghost all = row_views(rows@);
    let mut columns: usize = 0;
    let mut i: usize = 0;
    while i < rows.len()
        invariant
            i <= rows.len(),
            all == row_views(rows@),
            columns == column_count(all.take(i as int)),
        decreases rows.len() - i,
    {
        proof {
            assert(all.take(i + 1).drop_last() =~= all.take(i as int));
            assert(all.take(i + 1).last() == cell_views(rows@[i as int]@));
        }
        if rows[i].len() > columns {
            columns = rows[i].len();
        }
        i = i + 1;
    }
    proof {
        assert(all.take(i as int) =~= all);
    }
    let mut widths: Vec<usize> = Vec::new();
    let mut c: usize = 0;
    while c < columns
        invariant
            c <= columns,
            all == row_views(rows@),
            widths.len() == c,
            forall|k: int| 0 <= k < c ==> (#[trigger] widths@[k]) == column_width(all, k),
        decreases columns - c,
    {
        widths.push(measure_column(rows, c));
        c = c + 1;
    }
    proof {
        assert(crate::render::wrap::nats(widths@) =~= column_widths(all));
    }
    widths
}

fn push_raw(spans: &mut Vec<Span>, text: &str)
    ensures
        crate::text::views(final(spans)@) == crate::text::views(old(spans)@).push(
            crate::render::style::raw_span(text@),
        ),
{
    let span = Span::raw(text);
    proof {
        crate::render::style::lemma_push_span(spans@, span);
    }
    spans.push(span);
}

fn push_styled(spans: &mut Vec<Span>, text: &str, style: Style)
    ensures
        crate::text::views(final(spans)@) == crate::text::views(old(spans)@).push(
            crate::render::style::styled_span(text@, style),
        ),
{
    let span = Span::styled(text, style);
    proof {
        crate::render::style::lemma_push_span(spans@, span);
    }
    spans.push(span);
}

fn append_spans(spans: &mut Vec<Span>, mut more: Vec<Span>)
    ensures
        crate::text::views(final(spans)@) == crate::text::views(old(spans)@)
            + crate::text::views(more@),
{
    proof {
        assert(crate::text::views(spans@ + more@) =~= crate::text::views(spans@)
            + crate::text::views(more@));
    }
    spans.append(&mut more);
}

pub(crate) fn append_lines(lines: &mut Vec<Line>, mut more: Vec<Line>)
    ensures
        crate::text::views(final(lines)@) == crate::text::views(old(lines)@)
            + crate::text::views(more@),
        final(lines)@.len() == old(lines)@.len() + more@.len(),
{
    proof {
        assert(crate::text::views(lines@ + more@) =~= crate::text::views(lines@)
            + crate::text::views(more@));
    }
    lines.append(&mut more);
}

pub(crate) fn push_line(lines: &mut Vec<Line>, line: Line)
    ensures
        crate::text::views(final(lines)@) == crate::text::views(old(lines)@).push(line@),
        final(lines)@.len() == old(lines)@.len() + 1,
{
    proof {
        crate::render::style::lemma_push_line(lines@, line);
    }
    lines.push(line);
}

fn table_row_line(row: &Vec<Vec<Span>>, widths: &Vec<usize>) -> (r: Line)
    ensures
        r@ == row_line(cell_views(row@), crate::render::wrap::nats(widths@)),
{
    let ghost cells = cell_views(row@);
    let ghost ws = crate::render::wrap::nats(widths@);
    let mut spans: Vec<Span> = Vec::new();
    push_raw(&mut spans, "| ");
    proof {
        assert(crate::text::views(spans@) =~= row_spans(cells, ws, 0));
    }
    let mut c: usize = 0;
    while c < widths.len()
        invariant
            c <= widths.len(),
            cells == cell_views(row@),
            ws == crate::render::wrap::nats(widths@),
            crate::text::views(spans@) == row_spans(cells, ws, c as int),
        decreases widths.len() - c,
    {
        let width = widths[c];
        proof {
            assert(ws[c as int] == width as nat);
        }
        if c > 0 {
            push_raw(&mut spans, " | ");
        }
        if c < row.len() {
            proof {
                assert(cells[c as int] == crate::text::views(row@[c as int]@));
            }
            let taken = cell_width(&row[c]);
            append_spans(&mut spans, duplicate_all(&row[c]));
            if width > taken {
                push_raw(&mut spans, repeat_char(' ', width - taken).as_str());
            }
        } else {
            push_raw(&mut spans, repeat_char(' ', width).as_str());
        }
        c = c + 1;
    }
    push_raw(&mut spans, " |");
    Line::from_spans(spans)
}

fn table_rule(widths: &Vec<usize>) -> (r: String)
    ensures
        r@ == rule_text(crate::render::wrap::nats(widths@)),
{
    let ghost ws = crate::render::wrap::nats(widths@);
    let mut out = "|".to_owned();
    proof {
        assert(ws.take(0) =~= Seq::empty());
    }
    let mut c: usize = 0;
    while c < widths.len()
        invariant
            c <= widths.len(),
            ws == crate::render::wrap::nats(widths@),
            out@ == rule_text(ws.take(c as int)),
        decreases widths.len() - c,
    {
        proof {
            assert(ws.take(c + 1).drop_last() =~= ws.take(c as int));
            assert(ws.take(c + 1).last() == widths@[c as int] as nat);
        }
        out.append(repeat_char('─', widths[c].saturating_add(2)).as_str());
        out.append("|");
        c = c + 1;
    }
    proof {
        assert(ws.take(c as int) =~= ws);
    }
    out
}

struct CodeBlockState {
    language: Option<String>,
    text: String,
}

impl View for CodeBlockState {
    type V = CodeView;

    closed spec fn view(&self) -> CodeView {
        CodeView { language: crate::text::opt_view(self.language), text: self.text@ }
    }
}

struct TableState {
    header: Vec<Vec<Span>>,
    rows: Vec<Vec<Vec<Span>>>,
    current_row: Vec<Vec<Span>>,
}

impl View for TableState {
    type V = TableView;

    closed spec fn view(&self) -> TableView {
        TableView {
            header: cell_views(self.header@),
            rows: row_views(self.rows@),
            current_row: cell_views(self.current_row@),
        }
    }
}

struct Sink<'a> {
    base: Style,
    theme: &'a Theme,
    strings: &'a Strings,
    locale: Locale,
    grammars: &'a Grammars,
    folded: bool,
    skill_header: Option<usize>,
    lines: Vec<Line>,
    code_ranges: Vec<(usize, usize)>,
    link: Option<String>,
    current: Vec<Span>,
    modifiers: Vec<Modifier>,
    quotes: usize,
    lists: Vec<ListState>,
    code: Option<CodeBlockState>,
    table: Option<TableState>,
}

impl<'a> View for Sink<'a> {
    type V = SinkView;

    closed spec fn view(&self) -> SinkView {
        SinkView {
            base: self.base,
            look: LookView {
                theme: self.theme@,
                strings: self.strings@,
                locale: self.locale,
                set: self.grammars.syntaxes(),
            },
            folded: self.folded,
            skill_header: opt_nat(self.skill_header),
            lines: crate::text::views(self.lines@),
            code_ranges: crate::render::wrap::nat_pairs(self.code_ranges@),
            link: crate::text::opt_view(self.link),
            current: crate::text::views(self.current@),
            modifiers: self.modifiers@,
            quotes: self.quotes as nat,
            lists: self.lists@,
            code: crate::text::opt_view(self.code),
            table: crate::text::opt_view(self.table),
        }
    }
}

impl<'a> Sink<'a> {
    fn new(base: Style, ctx: &RenderContext<'a>, folded: bool) -> (r: Self)
        ensures
            r@ == sink_start(base, ctx.look(), folded),
    {
        let r = Sink {
            base,
            theme: ctx.theme,
            strings: ctx.strings,
            locale: ctx.locale,
            grammars: ctx.grammars,
            folded,
            skill_header: None,
            lines: Vec::new(),
            code_ranges: Vec::new(),
            link: None,
            current: Vec::new(),
            modifiers: Vec::new(),
            quotes: 0,
            lists: Vec::new(),
            code: None,
            table: None,
        };
        proof {
            assert(r@.lines =~= Seq::empty());
            assert(r@.code_ranges =~= Seq::empty());
            assert(r@.current =~= Seq::empty());
            assert(r@.modifiers =~= Seq::empty());
            assert(r@.lists =~= Seq::empty());
        }
        r
    }

    fn flush_line(&mut self)
        ensures
            final(self)@ == old(self)@.flushed(),
    {
        proof {
            assert(self@.current.len() == self.current@.len());
        }
        if self.current.len() == 0 {
            return;
        }
        let mut spans: Vec<Span> = Vec::new();
        let ghost bar = crate::render::style::raw_span("│ "@);
        let mut i: usize = 0;
        while i < self.quotes
            invariant
                i <= self.quotes,
                self@ == old(self)@,
                bar == crate::render::style::raw_span("│ "@),
                crate::text::views(spans@) =~= Seq::new(i as nat, |k: int| bar),
            decreases self.quotes - i,
        {
            push_raw(&mut spans, "│ ");
            i = i + 1;
        }
        let mut current: Vec<Span> = Vec::new();
        std::mem::swap(&mut current, &mut self.current);
        append_spans(&mut spans, current);
        push_line(&mut self.lines, Line::from_spans(spans));
        proof {
            assert(self@.current =~= Seq::empty());
            assert(Seq::new(i as nat, |k: int| bar) =~= Seq::new(
                old(self)@.quotes,
                |k: int| crate::render::style::raw_span("│ "@),
            ));
        }
    }

    fn blank_row(&mut self)
        ensures
            final(self)@ == old(self)@.spaced(),
    {
        let n = self.lines.len();
        let has_content = n > 0 || self.current.len() > 0;
        let last_blank = n > 0 && self.lines[n - 1].is_blank();
        proof {
            assert(self@.lines.len() == n);
            assert(self@.current.len() == self.current@.len());
            if n > 0 {
                assert(self@.lines.last() == self.lines@[n - 1]@);
            }
        }
        if has_content && !last_blank {
            push_line(&mut self.lines, Line::empty());
        }
    }

    fn push_span(&mut self, span: Span)
        ensures
            final(self)@ == old(self)@.with_span(span@),
    {
        let mut out = span;
        match &self.link {
            Some(url) => {
                if !url.as_str().is_empty() {
                    let mut content = String::new();
                    content.push(LINK_PREFIX);
                    content.append(url.as_str());
                    content.push(LINK_PREFIX);
                    content.append(out.content.as_str());
                    proof {
                        assert(content@ =~= seq![LINK_PREFIX] + url@ + seq![LINK_PREFIX]
                            + out.content@);
                    }
                    out = Span { content, style: out.style };
                }
            },
            None => {},
        }
        proof {
            crate::render::style::lemma_push_span(self.current@, out);
        }
        self.current.push(out);
    }

    fn style(&self) -> (r: Style)
        ensures
            r == self@.text_style(),
    {
        let mut style = self.base;
        if self.link.is_some() {
            style = style.fg(self.theme.accent);
        }
        let ghost start = style;
        let ghost all = self.modifiers@;
        proof {
            assert(all.take(0) =~= Seq::empty());
        }
        let mut i: usize = 0;
        while i < self.modifiers.len()
            invariant
                i <= self.modifiers.len(),
                all == self.modifiers@,
                style == modified(start, all.take(i as int)),
            decreases self.modifiers.len() - i,
        {
            proof {
                assert(all.take(i + 1).drop_last() =~= all.take(i as int));
                assert(all.take(i + 1).last() == all[i as int]);
            }
            style = style.add_modifier(self.modifiers[i]);
            i = i + 1;
        }
        proof {
            assert(all.take(i as int) =~= all);
        }
        style
    }

    fn pop_modifier(&mut self)
        ensures
            final(self)@ == (SinkView { modifiers: popped(old(self)@.modifiers), ..old(self)@ }),
    {
        if self.modifiers.len() > 0 {
            let _ = self.modifiers.pop();
        }
    }

    fn add_modifier(&mut self, modifier: Modifier)
        ensures
            final(self)@ == (SinkView {
                modifiers: old(self)@.modifiers.push(modifier),
                ..old(self)@
            }),
    {
        self.modifiers.push(modifier);
    }

    fn item(&mut self)
        ensures
            final(self)@ == old(self)@.opened(MdTagView::Item),
    {
        let n = self.lists.len();
        let text = if n > 0 && self.lists[n - 1].ordered {
            let counter = self.lists[n - 1].counter;
            self.lists.set(n - 1, ListState { ordered: true, counter: counter.wrapping_add(1) });
            joined(u64_text(counter).as_str(), ". ")
        } else {
            "• ".to_owned()
        };
        self.push_span(Span::raw(text.as_str()));
    }

    fn start(&mut self, tag: &MdTag)
        requires
            old(self)@.quotes < usize::MAX,
        ensures
            final(self)@ == old(self)@.opened(tag@),
    {
        match tag {
            MdTag::Heading(_) => {
                self.flush_line();
                self.blank_row();
                self.add_modifier(Modifier::Bold);
            },
            MdTag::BlockQuote => {
                self.flush_line();
                self.quotes = self.quotes + 1;
            },
            MdTag::CodeBlock(info) => {
                self.flush_line();
                self.blank_row();
                let language = match info {
                    Some(info) => word_of(info.as_str()),
                    None => None,
                };
                let code = CodeBlockState { language, text: String::new() };
                proof {
                    assert(code@.text =~= Seq::empty());
                }
                self.code = Some(code);
            },
            MdTag::List(start) => {
                let counter = match start {
                    Some(n) => *n,
                    None => 1,
                };
                self.lists.push(ListState { ordered: start.is_some(), counter });
            },
            MdTag::Item => self.item(),
            MdTag::Emphasis => self.add_modifier(Modifier::Italic),
            MdTag::Strong => self.add_modifier(Modifier::Bold),
            MdTag::Strikethrough => self.add_modifier(Modifier::CrossedOut),
            MdTag::Table => {
                self.flush_line();
                let table = TableState {
                    header: Vec::new(),
                    rows: Vec::new(),
                    current_row: Vec::new(),
                };
                proof {
                    assert(table@.header =~= Seq::empty());
                    assert(table@.rows =~= Seq::empty());
                    assert(table@.current_row =~= Seq::empty());
                }
                self.table = Some(table);
            },
            MdTag::TableCell => {
                self.current = Vec::new();
                proof {
                    assert(self@.current =~= Seq::empty());
                }
            },
            MdTag::Link(url) => {
                self.link = Some(url.clone());
            },
            MdTag::Other => {},
        }
    }

    fn end_code(&mut self)
        ensures
            final(self)@ == old(self)@.ended(MdEnd::CodeBlock),
    {
        match self.code.take() {
            Some(code) => {
                let start = self.lines.len();
                let language = match &code.language {
                    Some(l) => Some(l.as_str()),
                    None => None,
                };
                let more = code_block_lines(self.grammars, code.text.as_str(), language, self.theme);
                let ghost look = old(self)@.look;
                proof {
                    assert(crate::text::views(more@) == code_lines(
                        look,
                        code@.text,
                        code@.language,
                    ));
                    assert(crate::text::views(more@).len() == more@.len());
                    assert(old(self)@.lines.len() == start);
                }
                append_lines(&mut self.lines, more);
                let end = self.lines.len();
                if end > start {
                    proof {
                        assert(crate::render::wrap::nat_pairs(self.code_ranges@.push((start, end)))
                            =~= crate::render::wrap::nat_pairs(self.code_ranges@).push(
                            (start as nat, end as nat),
                        ));
                    }
                    self.code_ranges.push((start, end));
                }
                push_line(&mut self.lines, Line::empty());
            },
            None => {},
        }
    }

    fn end_table(&mut self)
        ensures
            final(self)@ == old(self)@.ended(MdEnd::Table),
    {
        match self.table.take() {
            Some(table) => {
                let ghost view = table@;
                let mut rows: Vec<Vec<Vec<Span>>> = Vec::new();
                let header = table.header;
                let mut body = table.rows;
                if header.len() > 0 {
                    rows.push(header);
                }
                rows.append(&mut body);
                let ghost all = table_rows(view);
                proof {
                    assert(view.header.len() == header@.len());
                    assert(row_views(rows@) =~= all);
                }
                let widths = measure_columns(&rows);
                let ghost ws = column_widths(all);
                let ghost before = crate::text::views(self.lines@);
                proof {
                    assert(all.take(0) =~= Seq::empty());
                    assert(before + row_lines(all.take(0), ws) =~= before);
                }
                let mut i: usize = 0;
                while i < rows.len()
                    invariant
                        i <= rows.len(),
                        all == row_views(rows@),
                        ws == crate::render::wrap::nats(widths@),
                        self@ == (SinkView {
                            lines: before + row_lines(all.take(i as int), ws),
                            table: None,
                            ..old(self)@
                        }),
                    decreases rows.len() - i,
                {
                    proof {
                        assert(all.take(i + 1).drop_last() =~= all.take(i as int));
                        assert(all.take(i + 1).last() == cell_views(rows@[i as int]@));
                    }
                    push_line(&mut self.lines, table_row_line(&rows[i], &widths));
                    if i == 0 {
                        push_line(
                            &mut self.lines,
                            Line::from_span(Span::raw(table_rule(&widths).as_str())),
                        );
                    }
                    proof {
                        assert(self@.lines =~= before + row_lines(all.take(i + 1), ws));
                    }
                    i = i + 1;
                }
                proof {
                    assert(all.take(i as int) =~= all);
                }
            },
            None => {},
        }
    }

    fn end_head(&mut self)
        ensures
            final(self)@ == old(self)@.ended(MdEnd::TableHead),
    {
        match self.table.take() {
            Some(table) => {
                let next = TableState {
                    header: table.current_row,
                    rows: table.rows,
                    current_row: Vec::new(),
                };
                proof {
                    assert(next@.current_row =~= Seq::empty());
                }
                self.table = Some(next);
            },
            None => {},
        }
    }

    fn end_row(&mut self)
        ensures
            final(self)@ == old(self)@.ended(MdEnd::TableRow),
    {
        match self.table.take() {
            Some(table) => {
                let mut rows = table.rows;
                let row = table.current_row;
                proof {
                    assert(row_views(rows@.push(row)) =~= row_views(rows@).push(cell_views(row@)));
                }
                rows.push(row);
                let next = TableState { header: table.header, rows, current_row: Vec::new() };
                proof {
                    assert(next@.current_row =~= Seq::empty());
                }
                self.table = Some(next);
            },
            None => {},
        }
    }

    fn end_cell(&mut self)
        ensures
            final(self)@ == old(self)@.ended(MdEnd::TableCell),
    {
        match self.table.take() {
            Some(table) => {
                let mut cell: Vec<Span> = Vec::new();
                std::mem::swap(&mut cell, &mut self.current);
                let mut row = table.current_row;
                proof {
                    assert(cell_views(row@.push(cell)) =~= cell_views(row@).push(
                        crate::text::views(cell@),
                    ));
                    assert(crate::text::views(self.current@) =~= Seq::empty());
                }
                row.push(cell);
                self.table =
                Some(TableState { header: table.header, rows: table.rows, current_row: row });
            },
            None => {},
        }
    }

    fn end(&mut self, end: MdEnd)
        ensures
            final(self)@ == old(self)@.ended(end),
    {
        match end {
            MdEnd::Paragraph => self.flush_line(),
            MdEnd::Heading => {
                self.pop_modifier();
                self.flush_line();
            },
            MdEnd::BlockQuote => {
                self.flush_line();
                if self.quotes > 0 {
                    self.quotes = self.quotes - 1;
                }
            },
            MdEnd::CodeBlock => self.end_code(),
            MdEnd::List => {
                if self.lists.len() > 0 {
                    let _ = self.lists.pop();
                }
                self.flush_line();
            },
            MdEnd::Item => self.flush_line(),
            MdEnd::Emphasis => self.pop_modifier(),
            MdEnd::Strong => self.pop_modifier(),
            MdEnd::Strikethrough => self.pop_modifier(),
            MdEnd::Table => self.end_table(),
            MdEnd::TableHead => self.end_head(),
            MdEnd::TableRow => self.end_row(),
            MdEnd::TableCell => self.end_cell(),
            MdEnd::Link => {
                self.link = None;
            },
            MdEnd::Other => {},
        }
    }

    fn text(&mut self, text: &str)
        ensures
            final(self)@ == old(self)@.after(MdEventView::Text(text@)),
    {
        match self.code.take() {
            Some(code) => {
                let mut longer = code.text;
                longer.append(text);
                self.code = Some(CodeBlockState { language: code.language, text: longer });
            },
            None => {
                let style = self.style();
                self.push_span(Span::styled(text, style));
            },
        }
    }

    fn push_event(&mut self, event: &MdEvent)
        requires
            old(self)@.quotes < usize::MAX,
        ensures
            final(self)@ == old(self)@.after(event@),
    {
        match event {
            MdEvent::Start(tag) => self.start(tag),
            MdEvent::End(end) => self.end(*end),
            MdEvent::Text(text) => self.text(text.as_str()),
            MdEvent::Code(text) => {
                let style = self.style().fg(self.theme.code);
                self.push_span(Span::styled(text.as_str(), style));
            },
            MdEvent::SoftBreak => self.push_span(Span::raw(" ")),
            MdEvent::HardBreak => self.flush_line(),
            MdEvent::Rule => {
                self.flush_line();
                self.push_span(Span::raw("────────"));
                self.flush_line();
            },
            MdEvent::Other => {},
        }
    }

    fn skill_row(&self, item: &SkillItem) -> (r: Line)
        ensures
            r@ == skill_line(self@.look, item@),
    {
        let mut spans: Vec<Span> = Vec::new();
        push_styled(
            &mut spans,
            item.name.as_str(),
            Style::new().add_modifier(Modifier::Bold).fg(self.theme.text),
        );
        if !item.description.as_str().is_empty() {
            push_styled(
                &mut spans,
                joined(" — ", item.description.as_str()).as_str(),
                Style::new().fg(self.theme.muted),
            );
        }
        proof {
            assert(crate::text::views(spans@) =~= skill_line(self@.look, item@).spans);
        }
        Line::from_spans(spans)
    }

    fn begin_skill_block(&mut self, items: &Vec<SkillItem>)
        ensures
            final(self)@ == old(self)@.with_skills(crate::text::views(items@)),
    {
        self.blank_row();
        let ghost st = self@;
        let ghost look = self@.look;
        let ghost views = crate::text::views(items@);
        self.skill_header = Some(self.lines.len());
        let mut spans: Vec<Span> = Vec::new();
        push_styled(
            &mut spans,
            if self.folded {
                "▸ "
            } else {
                "▾ "
            },
            Style::new().add_modifier(Modifier::Bold).fg(self.theme.accent),
        );
        let count = u64_text(items.len() as u64);
        let args: [&str; 1] = [count.as_str()];
        proof {
            assert(crate::i18n::arg_texts(args@) =~= seq![crate::text::decimal(items@.len())]);
        }
        let label = trf(self.strings, self.locale, "skill.count", &args);
        push_styled(&mut spans, label.as_str(), Style::new().fg(self.theme.text));
        proof {
            assert(st.lines.len() == self.lines@.len());
            assert(crate::text::views(spans@) =~= skill_header_line(
                look,
                self.folded,
                views.len(),
            ).spans);
        }
        push_line(&mut self.lines, Line::from_spans(spans));
        if !self.folded {
            let ghost before = crate::text::views(self.lines@);
            proof {
                assert(before + skill_lines(look, views.take(0)) =~= before);
            }
            let mut i: usize = 0;
            while i < items.len()
                invariant
                    i <= items.len(),
                    views == crate::text::views(items@),
                    look == st.look,
                    self@ == (SinkView {
                        skill_header: Some(st.lines.len()),
                        lines: before + skill_lines(look, views.take(i as int)),
                        ..st
                    }),
                decreases items.len() - i,
            {
                let line = self.skill_row(&items[i]);
                push_line(&mut self.lines, line);
                proof {
                    assert(self@.lines =~= before + skill_lines(look, views.take(i + 1)));
                }
                i = i + 1;
            }
            proof {
                assert(views.take(i as int) =~= views);
            }
        }
    }
}

/// Render the events of a message. Those of a skill list give way to the list: its header
/// alone where it is folded, the header and a line for each skill where it is not.
pub fn render_events(
    events: &Vec<MdEvent>,
    base_style: Style,
    ctx: &RenderContext<'_>,
    skill_fold: bool,
) -> (r: Rendered)
    ensures
        r@ == rendered_events(crate::text::views(events@), base_style, ctx.look(), skill_fold),
        r@.fine(),
{
    let block = detect_skill_block(events);
    let mut sink = Sink::new(base_style, ctx, skill_fold);
    let ghost start = sink@;
    let ghost all = crate::text::views(events@);
    let ghost found = crate::render::skill::skill_block(all);
    proof {
        assert(all.take(0) =~= Seq::empty());
    }
    let mut i: usize = 0;
    while i < events.len()
        invariant
            i <= events.len(),
            all == crate::text::views(events@),
            found == crate::text::opt_view(block),
            sink@ == sunk(start, all.take(i as int), found),
            sink@.fine(),
            sink@.quotes <= i,
        decreases events.len() - i,
    {
        proof {
            assert(all.take(i + 1).drop_last() =~= all.take(i as int));
            assert(all.take(i + 1).last() == events@[i as int]@);
            lemma_event_keeps(sink@, events@[i as int]@);
        }
        match &block {
            Some(b) => {
                if i == b.start {
                    proof {
                        lemma_skills_keep(sink@, crate::text::views(b.items@));
                    }
                    sink.begin_skill_block(&b.items);
                } else if i < b.start || i > b.end {
                    sink.push_event(&events[i]);
                }
            },
            None => sink.push_event(&events[i]),
        }
        i = i + 1;
    }
    proof {
        assert(all.take(i as int) =~= all);
    }
    sink.flush_line();
    Rendered {
        lines: sink.lines,
        code_ranges: sink.code_ranges,
        skill_header: sink.skill_header,
    }
}

/// Render a markdown text in a style.
pub fn render_markdown(
    text: &str,
    base_style: Style,
    ctx: &RenderContext<'_>,
    skill_fold: bool,
) -> (r: Rendered)
    ensures
        r@ == rendered_markdown(text@, base_style, ctx.look(), skill_fold),
        r@.fine(),
{
    let events = events_of(text);
    render_events(&events, base_style, ctx, skill_fold)
}

} // verus!
