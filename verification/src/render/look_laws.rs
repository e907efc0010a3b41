//! What the parts of a message look like, whatever stands in them.

use vstd::prelude::*;

use crate::render::markdown_events::{MdEnd, MdEventView, MdTagView};
use crate::render::sink::{SinkView, TableView, LINK_PREFIX};
use crate::render::style::{Modifier, SpanView, Style};

verus! {

/// Whether a style has a modifier.
pub open spec fn carries(style: Style, modifier: Modifier) -> bool {
    match modifier {
        Modifier::Bold => style.bold,
        Modifier::Dim => style.dim,
        Modifier::Italic => style.italic,
        Modifier::CrossedOut => style.crossed_out,
        Modifier::Underlined => style.underlined,
        Modifier::Reversed => style.reversed,
    }
}

/// A modifier that is set is there, the others are as they were, and the colors stay; a color
/// that is set is there, and all else stays.
pub proof fn law_style_parts(style: Style, set: Modifier, other: Modifier, color: crate::render::style::Color)
    ensures
        carries(style.with(set), set),
        other != set ==> carries(style.with(set), other) == carries(style, other),
        style.with(set).fg == style.fg && style.with(set).bg == style.bg,
        style.with_fg(color).fg == Some(color) && style.with_fg(color).bg == style.bg,
        carries(style.with_fg(color), set) == carries(style, set),
        style.with_bg(color).bg == Some(color) && style.with_bg(color).fg == style.fg,
        carries(style.with_bg(color), set) == carries(style, set),
        !carries(crate::render::style::plain(), set),
        crate::render::style::plain().fg is None && crate::render::style::plain().bg is None,
{
}

proof fn lemma_modified(style: Style, modifiers: Seq<Modifier>, m: Modifier)
    ensures
        carries(crate::render::sink::modified(style, modifiers), m) <==> carries(style, m)
            || modifiers.contains(m),
        crate::render::sink::modified(style, modifiers).fg == style.fg,
        crate::render::sink::modified(style, modifiers).bg == style.bg,
    decreases modifiers.len(),
{
    if modifiers.len() > 0 {
        let rest = modifiers.drop_last();
        lemma_modified(style, rest, m);
        if modifiers.contains(m) {
            let k = choose|k: int| 0 <= k < modifiers.len() && modifiers[k] == m;
            if k < rest.len() {
                assert(rest[k] == m);
            }
        }
        if rest.contains(m) {
            let k = choose|k: int| 0 <= k < rest.len() && rest[k] == m;
            assert(modifiers[k] == m);
        }
        assert(modifiers[modifiers.len() - 1] == modifiers.last());
    }
}

/// The span that a text becomes outside of code: the text itself, with the modifiers of the
/// message's own style and of whatever is open around it, and no others. Outside of a link it
/// has the colors of the message's style; within one, the accent color, and the address stands
/// before the text between two marks.
pub proof fn law_text_span(st: SinkView, text: Seq<char>, m: Modifier)
    requires
        st.code is None,
    ensures
        ({
            let out = st.after(MdEventView::Text(text));
            let span = out.current.last();
            &&& out.current.len() == st.current.len() + 1
            &&& out.current.drop_last() == st.current
            &&& out.lines == st.lines
            &&& carries(span.style, m) <==> carries(st.base, m) || st.modifiers.contains(m)
            &&& span.style.bg == st.base.bg
            &&& st.link is None ==> span.content == text && span.style.fg == st.base.fg
            &&& st.link matches Some(url) ==> {
                &&& span.style.fg == Some(st.look.theme.accent)
                &&& url.len() > 0 ==> span.content == seq![LINK_PREFIX] + url + seq![LINK_PREFIX]
                    + text
                &&& url.len() == 0 ==> span.content == text
            }
        }),
{
    let base = if st.link is Some {
        st.base.with_fg(st.look.theme.accent)
    } else {
        st.base
    };
    lemma_modified(base, st.modifiers, m);
    assert(st.after(MdEventView::Text(text)).current.drop_last() =~= st.current);
}

/// Inline code is text in the color of code: it has the modifiers around it, and nothing else of
/// the line changes.
pub proof fn law_code_span(st: SinkView, text: Seq<char>, m: Modifier)
    ensures
        ({
            let out = st.after(MdEventView::Code(text));
            let span = out.current.last();
            &&& out.current.len() == st.current.len() + 1
            &&& out.current.drop_last() == st.current
            &&& span.style.fg == Some(st.look.theme.code)
            &&& carries(span.style, m) <==> carries(st.base, m) || st.modifiers.contains(m)
            &&& st.link is None ==> span.content == text
        }),
{
    let base = if st.link is Some {
        st.base.with_fg(st.look.theme.accent)
    } else {
        st.base
    };
    lemma_modified(base, st.modifiers, m);
    assert(st.after(MdEventView::Code(text)).current.drop_last() =~= st.current);
}

/// Strong text and headings are bold, emphasis is italic, and what is struck through is crossed
/// out; behind its end the modifiers are what they were before.
pub proof fn law_emphasis(st: SinkView, level: u8)
    ensures
        st.after(MdEventView::Start(MdTagView::Strong)).modifiers.contains(Modifier::Bold),
        st.after(MdEventView::Start(MdTagView::Emphasis)).modifiers.contains(Modifier::Italic),
        st.after(MdEventView::Start(MdTagView::Strikethrough)).modifiers.contains(
            Modifier::CrossedOut,
        ),
        st.after(MdEventView::Start(MdTagView::Heading(level))).modifiers.contains(Modifier::Bold),
        st.after(MdEventView::Start(MdTagView::Strong)).after(
            MdEventView::End(MdEnd::Strong),
        ).modifiers == st.modifiers,
        st.after(MdEventView::Start(MdTagView::Emphasis)).after(
            MdEventView::End(MdEnd::Emphasis),
        ).modifiers == st.modifiers,
        st.after(MdEventView::Start(MdTagView::Strikethrough)).after(
            MdEventView::End(MdEnd::Strikethrough),
        ).modifiers == st.modifiers,
        st.after(MdEventView::Start(MdTagView::Heading(level))).after(
            MdEventView::End(MdEnd::Heading),
        ).modifiers == st.modifiers,
{
    let bold = st.modifiers.push(Modifier::Bold);
    let italic = st.modifiers.push(Modifier::Italic);
    let crossed = st.modifiers.push(Modifier::CrossedOut);
    assert(bold[bold.len() - 1] == Modifier::Bold);
    assert(italic[italic.len() - 1] == Modifier::Italic);
    assert(crossed[crossed.len() - 1] == Modifier::CrossedOut);
    assert(bold.drop_last() =~= st.modifiers);
    assert(italic.drop_last() =~= st.modifiers);
    assert(crossed.drop_last() =~= st.modifiers);
}

/// A link is open between its start and its end and changes nothing else.
pub proof fn law_link_bounds(st: SinkView, url: Seq<char>)
    ensures
        st.after(MdEventView::Start(MdTagView::Link(url))).link == Some(url),
        st.after(MdEventView::Start(MdTagView::Link(url))).current == st.current,
        st.after(MdEventView::Start(MdTagView::Link(url))).lines == st.lines,
        st.after(MdEventView::End(MdEnd::Link)).link is None,
        st.after(MdEventView::End(MdEnd::Link)).current == st.current,
        st.after(MdEventView::End(MdEnd::Link)).lines == st.lines,
{
}

/// The bars of some quotes.
pub open spec fn bars(n: nat) -> Seq<char>
    decreases n,
{
    if n == 0 {
        Seq::empty()
    } else {
        bars((n - 1) as nat) + seq!['│', ' ']
    }
}

proof fn lemma_bars(n: nat, rest: Seq<SpanView>)
    ensures
        crate::render::style::spans_text(
            Seq::new(n, |i: int| crate::render::style::raw_span("│ "@)) + rest,
        ) == bars(n) + crate::render::style::spans_text(rest),
    decreases n, rest.len(),
{
    let front = Seq::new(n, |i: int| crate::render::style::raw_span("│ "@));
    let all = front + rest;
    if rest.len() > 0 {
        lemma_bars(n, rest.drop_last());
        assert(all.drop_last() =~= front + rest.drop_last());
        assert(all.last() == rest.last());
        assert(bars(n) + crate::render::style::spans_text(rest.drop_last()) + rest.last().content
            =~= bars(n) + (crate::render::style::spans_text(rest.drop_last())
            + rest.last().content));
    } else if n > 0 {
        reveal_strlit("│ ");
        assert("│ "@ =~= seq!['│', ' ']);
        let m = (n - 1) as nat;
        let fewer = Seq::new(m, |i: int| crate::render::style::raw_span("│ "@));
        lemma_bars(m, rest);
        assert(all =~= front);
        assert(front.drop_last() =~= fewer);
        assert(fewer + rest =~= fewer);
        assert(bars(m) + crate::render::style::spans_text(rest) =~= bars(m));
        assert(bars(n) + crate::render::style::spans_text(rest) =~= bars(n));
    } else {
        assert(all =~= rest);
        assert(bars(0) + crate::render::style::spans_text(rest) =~= Seq::empty());
    }
}

/// What ends a line: the end of a paragraph, an item or a heading, and a hard break. The line
/// holds the texts that came since the line before, behind one bar for each quote around it; a
/// line that nothing was put on is none.
pub proof fn law_line_ends(st: SinkView, end: MdEventView)
    requires
        end == MdEventView::End(MdEnd::Paragraph) || end == MdEventView::End(MdEnd::Item) || end
            == MdEventView::End(MdEnd::Heading) || end == MdEventView::HardBreak,
    ensures
        ({
            let out = st.after(end);
            &&& out.current.len() == 0
            &&& st.current.len() == 0 ==> out.lines == st.lines
            &&& st.current.len() > 0 ==> {
                &&& out.lines.len() == st.lines.len() + 1
                &&& out.lines.drop_last() == st.lines
                &&& out.lines.last().text() == bars(st.quotes) + crate::render::style::spans_text(
                    st.current,
                )
            }
        }),
{
    lemma_bars(st.quotes, st.current);
    let out = st.after(end);
    if st.current.len() > 0 {
        assert(out.lines.drop_last() =~= st.lines);
    }
}

/// A quote has one bar more than what is around it, and takes it back at its end.
pub proof fn law_quote_bars(st: SinkView)
    ensures
        st.after(MdEventView::Start(MdTagView::BlockQuote)).quotes == st.quotes + 1,
        st.after(MdEventView::Start(MdTagView::BlockQuote)).after(
            MdEventView::End(MdEnd::BlockQuote),
        ).quotes == st.quotes,
{
}

/// A soft break is a blank on the same line; a rule is a line of its own.
pub proof fn law_breaks(st: SinkView)
    requires
        st.link is None,
    ensures
        st.after(MdEventView::SoftBreak).lines == st.lines,
        st.after(MdEventView::SoftBreak).current.len() == st.current.len() + 1,
        st.after(MdEventView::SoftBreak).current.last().content == seq![' '],
        st.after(MdEventView::Rule).current.len() == 0,
        st.after(MdEventView::Rule).lines.len() == st.lines.len() + 1 + (if st.current.len() > 0 {
            1int
        } else {
            0
        }),
        st.quotes == 0 ==> forall|i: int|
            0 <= i < st.after(MdEventView::Rule).lines.last().text().len()
                ==> #[trigger] st.after(MdEventView::Rule).lines.last().text()[i] == '─',
{
    reveal_strlit(" ");
    assert(" "@ =~= seq![' ']);
    reveal_strlit("────────");
    let flushed = st.flushed();
    let rule = crate::render::style::raw_span("────────"@);
    let on = flushed.with_span(rule);
    assert(on.current =~= seq![rule]);
    let out = st.after(MdEventView::Rule);
    lemma_bars(on.quotes, on.current);
    reveal_with_fuel(crate::render::style::spans_text, 2);
    assert(on.current.drop_last() =~= Seq::empty());
    assert(crate::render::style::spans_text(on.current) =~= "────────"@);
    if st.quotes == 0 {
        assert(bars(0) + "────────"@ =~= "────────"@);
        assert(out.lines.last().text() == "────────"@);
    }
}

// ---------------------------------------------------------------------------
// code blocks
// ---------------------------------------------------------------------------

/// The texts of a code block are its code, one behind the other; they put nothing on the line.
pub proof fn law_code_gathers(st: SinkView, text: Seq<char>)
    requires
        st.code is Some,
    ensures
        ({
            let out = st.after(MdEventView::Text(text));
            &&& out.code matches Some(code)
            &&& code.text == st.code->0.text + text
            &&& code.language == st.code->0.language
            &&& out.current == st.current
            &&& out.lines == st.lines
        }),
{
}

/// A code block of no language is shown as it is: one line for each line of the code, with that
/// line's text in the color of code, and an empty line behind it. The lines that are code are
/// marked as such.
pub proof fn law_code_block(st: SinkView, code: Seq<char>)
    requires
        st.code == Some(crate::render::sink::CodeView { language: None, text: code }),
    ensures
        ({
            let out = st.after(MdEventView::End(MdEnd::CodeBlock));
            let n = crate::text::lines_with_endings(code).len();
            &&& out.code is None
            &&& out.lines.len() == st.lines.len() + n + 1
            &&& out.lines.take(st.lines.len() as int) == st.lines
            &&& out.lines.last().text().len() == 0
            &&& forall|i: int|
                0 <= i < n ==> {
                    let line = #[trigger] out.lines[st.lines.len() + i];
                    let whole = crate::text::lines_with_endings(code)[i];
                    &&& line.spans.len() == 1
                    &&& line.spans[0].style.fg == Some(st.look.theme.code)
                    &&& whole == line.text() || whole == line.text() + seq!['\n']
                    &&& forall|k: int| 0 <= k < line.text().len() ==> #[trigger] line.text()[k] != '\n'
                }
            &&& n > 0 ==> out.code_ranges == st.code_ranges.push(
                (st.lines.len(), st.lines.len() + n),
            )
            &&& n == 0 ==> out.code_ranges == st.code_ranges
        }),
{
    let out = st.after(MdEventView::End(MdEnd::CodeBlock));
    let whole = crate::text::lines_with_endings(code);
    let more = crate::render::sink::plain_code(st.look, code);
    crate::text_laws::law_lines_with_endings(code);
    assert(out.lines.take(st.lines.len() as int) =~= st.lines);
    assert forall|i: int| 0 <= i < whole.len() implies {
        let line = #[trigger] out.lines[st.lines.len() + i];
        &&& line.spans.len() == 1
        &&& line.spans[0].style.fg == Some(st.look.theme.code)
        &&& whole[i] == line.text() || whole[i] == line.text() + seq!['\n']
        &&& forall|k: int| 0 <= k < line.text().len() ==> #[trigger] line.text()[k] != '\n'
    } by {
        let line = out.lines[st.lines.len() + i];
        assert(line == more[i]);
        let text = crate::text::without_newline(whole[i]);
        lemma_one_span(line.spans[0]);
        assert(line.spans =~= seq![line.spans[0]]);
        assert(line.text() == text);
        if whole[i].last() == '\n' {
            assert(whole[i] =~= text + seq!['\n']);
        }
        assert forall|k: int| 0 <= k < text.len() implies #[trigger] text[k] != '\n' by {
            assert(whole[i][k] == text[k]);
        }
    }
}

proof fn lemma_one_span(a: SpanView)
    ensures
        crate::render::style::spans_text(seq![a]) == a.content,
{
    reveal_with_fuel(crate::render::style::spans_text, 2);
    assert(seq![a].drop_last() =~= Seq::empty());
    assert(Seq::<char>::empty() + a.content =~= a.content);
}

// ---------------------------------------------------------------------------
// tables
// ---------------------------------------------------------------------------

/// A cell, a row and the head of a table are gathered as they end: the cell holds what was put
/// on the line since it began, the row its cells in their order, the table its rows in theirs.
pub proof fn law_table_gathers(st: SinkView, table: TableView)
    requires
        st.table == Some(table),
    ensures
        st.after(MdEventView::Start(MdTagView::TableCell)).current.len() == 0,
        ({
            let out = st.after(MdEventView::End(MdEnd::TableCell));
            &&& out.table matches Some(t)
            &&& t.current_row == table.current_row.push(st.current)
            &&& t.rows == table.rows && t.header == table.header
            &&& out.current.len() == 0
        }),
        ({
            let out = st.after(MdEventView::End(MdEnd::TableRow));
            &&& out.table matches Some(t)
            &&& t.rows == table.rows.push(table.current_row)
            &&& t.current_row.len() == 0
            &&& t.header == table.header
        }),
        ({
            let out = st.after(MdEventView::End(MdEnd::TableHead));
            &&& out.table matches Some(t)
            &&& t.header == table.current_row
            &&& t.current_row.len() == 0
            &&& t.rows == table.rows
        }),
{
}

proof fn lemma_column_count(rows: Seq<Seq<Seq<SpanView>>>)
    ensures
        forall|i: int|
            0 <= i < rows.len() ==> (#[trigger] rows[i]).len() <= crate::render::sink::column_count(
                rows,
            ),
        rows.len() > 0 ==> exists|i: int|
            0 <= i < rows.len() && (#[trigger] rows[i]).len() == crate::render::sink::column_count(
                rows,
            ),
    decreases rows.len(),
{
    if rows.len() > 0 {
        let rest = rows.drop_last();
        lemma_column_count(rest);
        let n = crate::render::sink::column_count(rows);
        assert forall|i: int| 0 <= i < rows.len() implies (#[trigger] rows[i]).len() <= n by {
            if i < rest.len() {
                assert(rest[i].len() <= crate::render::sink::column_count(rest));
            }
        }
        if rows.last().len() == n {
            assert(rows[rows.len() - 1].len() == n);
        } else {
            let i = choose|i: int|
                0 <= i < rest.len() && (#[trigger] rest[i]).len()
                    == crate::render::sink::column_count(rest);
            assert(rows[i].len() == n);
        }
    }
}

/// The columns of a cell of a row, none where the row has no such cell.
pub open spec fn cell_columns(row: Seq<Seq<SpanView>>, column: int) -> nat {
    if 0 <= column < row.len() {
        crate::render::width::spans_columns(row[column])
    } else {
        0
    }
}

proof fn lemma_column_width(rows: Seq<Seq<Seq<SpanView>>>, column: int)
    requires
        0 <= column,
    ensures
        forall|i: int|
            0 <= i < rows.len() ==> cell_columns(#[trigger] rows[i], column)
                <= crate::render::sink::column_width(rows, column),
        crate::render::sink::column_width(rows, column) > 0 ==> exists|i: int|
            0 <= i < rows.len() && cell_columns(#[trigger] rows[i], column)
                == crate::render::sink::column_width(rows, column),
    decreases rows.len(),
{
    if rows.len() > 0 {
        let rest = rows.drop_last();
        lemma_column_width(rest, column);
        let w = crate::render::sink::column_width(rows, column);
        let before = crate::render::sink::column_width(rest, column);
        assert forall|i: int| 0 <= i < rows.len() implies cell_columns(#[trigger] rows[i], column)
            <= w by {
            if i < rest.len() {
                assert(cell_columns(rest[i], column) <= before);
            }
        }
        if w > 0 {
            if cell_columns(rows.last(), column) == w {
                assert(cell_columns(rows[rows.len() - 1], column) == w);
            } else {
                let i = choose|i: int|
                    0 <= i < rest.len() && cell_columns(#[trigger] rest[i], column) == before;
                assert(cell_columns(rows[i], column) == w);
            }
        }
    }
}

/// A table has as many columns as its longest row has cells, and a column is as wide as its
/// widest cell.
pub proof fn law_table_widths(rows: Seq<Seq<Seq<SpanView>>>, column: int)
    requires
        0 <= column < crate::render::sink::column_widths(rows).len(),
    ensures
        forall|i: int|
            0 <= i < rows.len() ==> (#[trigger] rows[i]).len()
                <= crate::render::sink::column_widths(rows).len(),
        exists|i: int|
            0 <= i < rows.len() && (#[trigger] rows[i]).len()
                == crate::render::sink::column_widths(rows).len(),
        forall|i: int|
            0 <= i < rows.len() ==> cell_columns(#[trigger] rows[i], column)
                <= crate::render::sink::column_widths(rows)[column],
        crate::render::sink::column_widths(rows)[column] > 0 ==> exists|i: int|
            0 <= i < rows.len() && cell_columns(#[trigger] rows[i], column)
                == crate::render::sink::column_widths(rows)[column],
{
    lemma_column_count(rows);
    lemma_column_width(rows, column);
}

/// The text of a cell, filled with blanks to a width.
pub open spec fn filled_cell(row: Seq<Seq<SpanView>>, column: int, width: nat) -> Seq<char> {
    let text = if 0 <= column < row.len() {
        crate::render::style::spans_text(row[column])
    } else {
        Seq::empty()
    };
    if cell_columns(row, column) < width {
        text + Seq::new((width - cell_columns(row, column)) as nat, |i: int| ' ')
    } else {
        text
    }
}

/// The cells of a row, each filled to its column's width.
pub open spec fn filled_cells(row: Seq<Seq<SpanView>>, widths: Seq<nat>, n: nat) -> Seq<Seq<char>> {
    Seq::new(n, |c: int| filled_cell(row, c, widths[c]))
}

proof fn lemma_spans_add(a: Seq<SpanView>, b: Seq<SpanView>)
    ensures
        crate::render::style::spans_text(a + b) == crate::render::style::spans_text(a)
            + crate::render::style::spans_text(b),
    decreases b.len(),
{
    if b.len() == 0 {
        assert(a + b =~= a);
        assert(crate::render::style::spans_text(a) + Seq::<char>::empty()
            =~= crate::render::style::spans_text(a));
    } else {
        lemma_spans_add(a, b.drop_last());
        assert((a + b).drop_last() =~= a + b.drop_last());
        assert((a + b).last() == b.last());
        assert(crate::render::style::spans_text(a) + crate::render::style::spans_text(
            b.drop_last(),
        ) + b.last().content =~= crate::render::style::spans_text(a) + (
        crate::render::style::spans_text(b.drop_last()) + b.last().content));
    }
}

/// The text of a line of spans is the texts of its spans, one behind the other.
pub proof fn law_line_text(a: Seq<SpanView>, b: Seq<SpanView>, span: SpanView)
    ensures
        crate::render::style::line_of(a + b).text() == crate::render::style::line_of(a).text()
            + crate::render::style::line_of(b).text(),
        crate::render::style::line_of(seq![span]).text() == span.content,
        crate::render::style::empty_line().text().len() == 0,
{
    lemma_spans_add(a, b);
    lemma_one_span(span);
}

proof fn lemma_row_spans(row: Seq<Seq<SpanView>>, widths: Seq<nat>, n: nat)
    requires
        n <= widths.len(),
    ensures
        crate::render::style::spans_text(crate::render::sink::row_spans(row, widths, n as int))
            == seq!['|', ' '] + crate::text::join_all(
            filled_cells(row, widths, n),
            seq![' ', '|', ' '],
        ),
    decreases n,
{
    reveal_strlit("| ");
    assert("| "@ =~= seq!['|', ' ']);
    reveal_strlit(" | ");
    assert(" | "@ =~= seq![' ', '|', ' ']);
    let sep = seq![' ', '|', ' '];
    let out = crate::render::sink::row_spans(row, widths, n as int);
    if n == 0 {
        lemma_one_span(crate::render::style::raw_span("| "@));
        assert(filled_cells(row, widths, 0) =~= Seq::empty());
        assert(seq!['|', ' '] + Seq::<char>::empty() =~= seq!['|', ' ']);
    } else {
        let m = (n - 1) as nat;
        let c = n - 1;
        lemma_row_spans(row, widths, m);
        let front = crate::render::sink::row_spans(row, widths, c);
        let bar = crate::render::style::raw_span(" | "@);
        let before = if c > 0 {
            front.push(bar)
        } else {
            front
        };
        lemma_spans_add(front, seq![bar]);
        lemma_one_span(bar);
        assert(front.push(bar) =~= front + seq![bar]);
        let cells = filled_cells(row, widths, n);
        let fewer = filled_cells(row, widths, m);
        assert(cells.drop_last() =~= fewer);
        assert(cells.last() == filled_cell(row, c, widths[c]));
        let said = crate::render::style::spans_text(before);
        let all = crate::text::join_all(cells, sep);
        let joined = crate::text::join_all(fewer, sep);
        if c > 0 {
            assert(said == seq!['|', ' '] + joined + sep);
            assert(all == joined + sep + cells.last());
            assert(said + cells.last() =~= seq!['|', ' '] + all);
        } else {
            assert(fewer =~= Seq::empty());
            assert(said =~= seq!['|', ' ']);
            assert(all == cells.last());
        }
        let taken = cell_columns(row, c);
        if c < row.len() {
            lemma_spans_add(before, row[c]);
            if widths[c] > taken {
                let pad = crate::render::style::raw_span(
                    crate::render::sink::repeated(' ', (widths[c] - taken) as nat),
                );
                lemma_spans_add(before + row[c], seq![pad]);
                lemma_one_span(pad);
                assert(out =~= before + row[c] + seq![pad]);
                assert(pad.content =~= Seq::new((widths[c] - taken) as nat, |i: int| ' '));
                assert(said + crate::render::style::spans_text(row[c]) + pad.content =~= said
                    + cells.last());
            }
        } else {
            let pad = crate::render::style::raw_span(
                crate::render::sink::repeated(' ', widths[c]),
            );
            lemma_spans_add(before, seq![pad]);
            lemma_one_span(pad);
            assert(out =~= before + seq![pad]);
            assert(pad.content =~= cells.last());
        }
    }
}

/// A row of a table reads: a bar, its cells each filled with blanks to the width of its column,
/// a bar between two of them, and a bar at the end.
pub proof fn law_table_row(row: Seq<Seq<SpanView>>, widths: Seq<nat>)
    ensures
        crate::render::sink::row_line(row, widths).text() == seq!['|', ' '] + crate::text::join_all(
            filled_cells(row, widths, widths.len()),
            seq![' ', '|', ' '],
        ) + seq![' ', '|'],
{
    lemma_row_spans(row, widths, widths.len());
    reveal_strlit(" |");
    assert(" |"@ =~= seq![' ', '|']);
    let spans = crate::render::sink::row_spans(row, widths, widths.len() as int);
    let end = crate::render::style::raw_span(" |"@);
    lemma_spans_add(spans, seq![end]);
    lemma_one_span(end);
    assert(spans.push(end) =~= spans + seq![end]);
}

proof fn lemma_row_lines(rows: Seq<Seq<Seq<SpanView>>>, widths: Seq<nat>)
    ensures
        ({
            let lines = crate::render::sink::row_lines(rows, widths);
            &&& rows.len() > 0 ==> lines.len() == rows.len() + 1
            &&& rows.len() == 0 ==> lines.len() == 0
            &&& forall|i: int|
                0 <= i < rows.len() ==> #[trigger] crate::render::sink::row_line(rows[i], widths)
                    == lines[if i == 0 {
                    0
                } else {
                    i + 1
                }]
        }),
    decreases rows.len(),
{
    if rows.len() > 0 {
        let rest = rows.drop_last();
        lemma_row_lines(rest, widths);
        let lines = crate::render::sink::row_lines(rows, widths);
        let before = crate::render::sink::row_lines(rest, widths);
        assert forall|i: int| 0 <= i < rows.len() implies #[trigger] crate::render::sink::row_line(
            rows[i],
            widths,
        ) == lines[if i == 0 {
            0
        } else {
            i + 1
        }] by {
            if i < rest.len() {
                assert(rest[i] == rows[i]);
                assert(crate::render::sink::row_line(rest[i], widths) == before[if i == 0 {
                    0
                } else {
                    i + 1
                }]);
            }
        }
    }
}

/// A table becomes one line for each row, the head first, and one for the rule below its first
/// row; all rows have the widths that the whole table asks for.
pub proof fn law_table_lines(st: SinkView, table: TableView)
    requires
        st.table == Some(table),
    ensures
        ({
            let rows = if table.header.len() > 0 {
                seq![table.header] + table.rows
            } else {
                table.rows
            };
            let widths = crate::render::sink::column_widths(rows);
            let out = st.after(MdEventView::End(MdEnd::Table));
            let top = st.lines.len() as int;
            &&& out.table is None
            &&& out.lines.take(top) == st.lines
            &&& out.lines.len() == top + (if rows.len() > 0 {
                rows.len() + 1
            } else {
                0
            })
            &&& forall|i: int|
                0 <= i < rows.len() ==> #[trigger] crate::render::sink::row_line(rows[i], widths)
                    == out.lines[top + (if i == 0 {
                    0
                } else {
                    i + 1
                })]
        }),
{
    let rows = crate::render::sink::table_rows(table);
    lemma_row_lines(rows, crate::render::sink::column_widths(rows));
    let out = st.after(MdEventView::End(MdEnd::Table));
    assert(out.lines.take(st.lines.len() as int) =~= st.lines);
}

} // verus!
