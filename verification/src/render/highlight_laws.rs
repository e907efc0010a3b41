//! What highlighting keeps.

use vstd::prelude::*;

use syntect::parsing::{ScopeStack, ScopeStackOp, SyntaxReference, SyntaxSet};

use crate::render::style::SpanView;
use crate::theme::ThemeView;

verus! {

/// Whether changes stand in the order of their places.
pub open spec fn in_order(ops: Seq<(usize, ScopeStackOp)>) -> bool {
    forall|i: int, j: int| 0 <= i < j < ops.len() ==> (#[trigger] ops[i]).0 <= (#[trigger] ops[j]).0
}

proof fn lemma_char_at_byte(s: Seq<char>, a: int, b: int)
    requires
        0 <= a <= b,
        crate::render::highlight::char_at_byte(s, a) is Some,
        crate::render::highlight::char_at_byte(s, b) is Some,
    ensures
        0 <= crate::render::highlight::char_at_byte(s, a)->0
            <= crate::render::highlight::char_at_byte(s, b)->0 <= s.len(),
    decreases s.len(),
{
    if b > 0 {
        let size = crate::render::highlight::char_bytes(s[0]);
        if a > 0 {
            lemma_char_at_byte(s.drop_first(), a - size, b - size);
        } else {
            lemma_char_at_byte(s.drop_first(), b - size, b - size);
        }
    }
}

proof fn lemma_runs(
    line: Seq<char>,
    ops: Seq<(usize, ScopeStackOp)>,
    stack: ScopeStack,
    theme: ThemeView,
)
    requires
        in_order(ops),
        crate::render::highlight::runs(line, ops, stack, theme) is Some,
    ensures
        ({
            let run = crate::render::highlight::runs(line, ops, stack, theme)->0;
            &&& 0 <= run.at <= line.len()
            &&& crate::render::style::spans_text(run.spans) == line.take(run.at)
            &&& ops.len() > 0 ==> crate::render::highlight::char_at_byte(
                line,
                ops.last().0 as int,
            ) == Some(run.at)
        }),
    decreases ops.len(),
{
    let run = crate::render::highlight::runs(line, ops, stack, theme)->0;
    if ops.len() == 0 {
        assert(line.take(0) =~= Seq::empty());
    } else {
        let front = ops.drop_last();
        assert forall|i: int, j: int| 0 <= i < j < front.len() implies (#[trigger] front[i]).0 <= (
        #[trigger] front[j]).0 by {
            assert(front[i] == ops[i] && front[j] == ops[j]);
        }
        lemma_runs(line, front, stack, theme);
        let before = crate::render::highlight::runs(line, front, stack, theme)->0;
        let k = crate::render::highlight::char_at_byte(line, ops.last().0 as int)->0;
        if front.len() > 0 {
            assert(front.last() == ops[ops.len() - 2]);
            lemma_char_at_byte(line, front.last().0 as int, ops.last().0 as int);
        } else {
            lemma_char_at_byte(line, ops.last().0 as int, ops.last().0 as int);
        }
        if k > before.at {
            assert(run.spans.drop_last() =~= before.spans);
            assert(line.take(before.at) + line.subrange(before.at, k) =~= line.take(k));
        }
    }
}

/// Where the changes stand in the order of their places, the runs of a line hold the whole
/// line.
pub proof fn law_runs_cover_line(
    line: Seq<char>,
    ops: Seq<(usize, ScopeStackOp)>,
    stack: ScopeStack,
    theme: ThemeView,
)
    requires
        in_order(ops),
        crate::render::highlight::line_runs(line, ops, stack, theme) is Some,
    ensures
        crate::render::style::spans_text(
            crate::render::highlight::line_runs(line, ops, stack, theme)->0.spans,
        ) == line,
{
    lemma_runs(line, ops, stack, theme);
    let run = crate::render::highlight::runs(line, ops, stack, theme)->0;
    let whole = crate::render::highlight::line_runs(line, ops, stack, theme)->0;
    if run.at < line.len() {
        assert(whole.spans.drop_last() =~= run.spans);
        assert(line.take(run.at) + line.subrange(run.at, line.len() as int) =~= line);
    } else {
        assert(line.take(run.at) =~= line);
    }
}

/// Whether the line endings of a text all stand at its end.
pub open spec fn endings_last(text: Seq<char>) -> bool {
    forall|i: int, j: int|
        0 <= i < j < text.len() && crate::render::highlight::is_ending(#[trigger] text[i])
            ==> crate::render::highlight::is_ending(#[trigger] text[j])
}

proof fn lemma_bare_add(a: Seq<char>, b: Seq<char>)
    ensures
        crate::render::highlight::bare(a + b) == (if crate::render::highlight::bare(b).len() == 0 {
            crate::render::highlight::bare(a)
        } else {
            a + crate::render::highlight::bare(b)
        }),
    decreases b.len(),
{
    if b.len() == 0 {
        assert(a + b =~= a);
    } else if crate::render::highlight::is_ending(b.last()) {
        lemma_bare_add(a, b.drop_last());
        assert((a + b).drop_last() =~= a + b.drop_last());
    }
}

proof fn lemma_bare_shows(text: Seq<char>)
    ensures
        crate::render::highlight::bare(text).len() > 0 ==> exists|i: int|
            0 <= i < text.len() && !crate::render::highlight::is_ending(#[trigger] text[i]),
    decreases text.len(),
{
    if text.len() > 0 {
        if crate::render::highlight::is_ending(text.last()) {
            let front = text.drop_last();
            lemma_bare_shows(front);
            if crate::render::highlight::bare(text).len() > 0 {
                let i = choose|i: int|
                    0 <= i < front.len() && !crate::render::highlight::is_ending(
                        #[trigger] front[i],
                    );
                assert(text[i] == front[i]);
            }
        } else {
            assert(text[text.len() - 1] == text.last());
        }
    }
}

proof fn lemma_bare_runs(spans: Seq<SpanView>)
    requires
        endings_last(crate::render::style::spans_text(spans)),
    ensures
        crate::render::style::spans_text(crate::render::highlight::bare_runs(spans))
            == crate::render::highlight::bare(crate::render::style::spans_text(spans)),
    decreases spans.len(),
{
    if spans.len() > 0 {
        let front = spans.drop_last();
        let a = crate::render::style::spans_text(front);
        let b = spans.last().content;
        let text = a + b;
        assert(text == crate::render::style::spans_text(spans));
        assert forall|i: int, j: int|
            0 <= i < j < a.len() && crate::render::highlight::is_ending(
                #[trigger] a[i],
            ) implies crate::render::highlight::is_ending(#[trigger] a[j]) by {
            assert(text[i] == a[i] && text[j] == a[j]);
        }
        lemma_bare_runs(front);
        lemma_bare_add(a, b);
        let left = crate::render::highlight::bare(b);
        if left.len() > 0 {
            lemma_bare_shows(b);
            let k = choose|k: int|
                0 <= k < b.len() && !crate::render::highlight::is_ending(#[trigger] b[k]);
            if a.len() > 0 && crate::render::highlight::is_ending(a.last()) {
                assert(text[a.len() - 1] == a.last());
                assert(text[a.len() + k] == b[k]);
            }
            let kept = crate::render::highlight::bare_runs(spans);
            assert(kept.drop_last() =~= crate::render::highlight::bare_runs(front));
            assert(crate::render::style::spans_text(kept) =~= a + left);
        }
    }
}

/// A highlighted line shows the line as it is, without its line ending.
pub proof fn law_highlighted_line_shows_line(
    line: Seq<char>,
    ops: Seq<(usize, ScopeStackOp)>,
    stack: ScopeStack,
    theme: ThemeView,
)
    requires
        in_order(ops),
        endings_last(line),
        crate::render::highlight::line_runs(line, ops, stack, theme) is Some,
    ensures
        crate::render::highlight::run_line(
            crate::render::highlight::line_runs(line, ops, stack, theme)->0.spans,
        ).text() == crate::render::highlight::bare(line),
{
    law_runs_cover_line(line, ops, stack, theme);
    let spans = crate::render::highlight::line_runs(line, ops, stack, theme)->0.spans;
    lemma_bare_runs(spans);
    let left = crate::render::highlight::bare_runs(spans);
    if left.len() == 0 {
        let only = seq![crate::render::style::raw_span(Seq::empty())];
        assert(only.drop_last() =~= Seq::empty());
        assert(crate::render::style::spans_text(only) =~= Seq::empty()) by {
            reveal_with_fuel(crate::render::style::spans_text, 2);
        }
    }
}

proof fn lemma_paint_lines(
    set: SyntaxSet,
    syntax: SyntaxReference,
    lines: Seq<Seq<char>>,
    theme: ThemeView,
)
    ensures
        crate::render::highlight::paint(set, syntax, lines, theme) matches Some(done)
            ==> done.lines.len() == lines.len(),
    decreases lines.len(),
{
    if lines.len() > 0 {
        lemma_paint_lines(set, syntax, lines.drop_last(), theme);
    }
}

/// Highlighted code has one line for each line of the code: a line feed at its end adds none.
pub proof fn law_highlight_keeps_line_count(
    set: SyntaxSet,
    code: Seq<char>,
    lang: Seq<char>,
    theme: ThemeView,
)
    ensures
        crate::render::highlight::highlighted(set, code, lang, theme) matches Some(lines)
            ==> lines.len() == crate::text::text_lines(code).len(),
{
    match crate::render::highlight::syntax_for(set, lang) {
        Some(syntax) => {
            lemma_paint_lines(set, syntax, crate::text::lines_with_endings(code), theme);
        },
        None => {},
    }
}

/// Whether the changes of every line stand in the order of their places.
pub open spec fn changes_in_order(
    set: SyntaxSet,
    syntax: SyntaxReference,
    lines: Seq<Seq<char>>,
    theme: ThemeView,
) -> bool
    decreases lines.len(),
{
    lines.len() > 0 ==> {
        let front = lines.drop_last();
        &&& changes_in_order(set, syntax, front, theme)
        &&& crate::render::highlight::paint(set, syntax, front, theme) matches Some(before)
            ==> crate::render::highlight::parsed_line(
            before.state,
            lines.last(),
            set,
        ).1 matches Some(ops) ==> in_order(ops)
    }
}

proof fn lemma_paint_shows(
    set: SyntaxSet,
    syntax: SyntaxReference,
    lines: Seq<Seq<char>>,
    theme: ThemeView,
)
    requires
        changes_in_order(set, syntax, lines, theme),
        forall|i: int| 0 <= i < lines.len() ==> endings_last(#[trigger] lines[i]),
    ensures
        crate::render::highlight::paint(set, syntax, lines, theme) matches Some(done) ==> {
            &&& done.lines.len() == lines.len()
            &&& forall|i: int|
                0 <= i < lines.len() ==> (#[trigger] done.lines[i]).text()
                    == crate::render::highlight::bare(lines[i])
        },
    decreases lines.len(),
{
    if lines.len() > 0 {
        let front = lines.drop_last();
        assert forall|i: int| 0 <= i < front.len() implies endings_last(#[trigger] front[i]) by {
            assert(front[i] == lines[i]);
        }
        lemma_paint_shows(set, syntax, front, theme);
        match crate::render::highlight::paint(set, syntax, lines, theme) {
            Some(done) => {
                let before = crate::render::highlight::paint(set, syntax, front, theme)->0;
                let ops = crate::render::highlight::parsed_line(
                    before.state,
                    lines.last(),
                    set,
                ).1->0;
                assert(endings_last(lines[lines.len() - 1]));
                law_highlighted_line_shows_line(lines.last(), ops, before.stack, theme);
                assert forall|i: int| 0 <= i < lines.len() implies (
                #[trigger] done.lines[i]).text() == crate::render::highlight::bare(lines[i]) by {
                    if i < front.len() {
                        assert(done.lines[i] == before.lines[i]);
                        assert(front[i] == lines[i]);
                    }
                }
            },
            None => {},
        }
    }
}

proof fn lemma_line_endings(code: Seq<char>)
    requires
        !code.contains('\r'),
    ensures
        ({
            let lines = crate::text::lines_with_endings(code);
            forall|i: int|
                0 <= i < lines.len() ==> endings_last(#[trigger] lines[i])
                    && crate::render::highlight::bare(lines[i]) == crate::text::without_ending(
                    lines[i],
                )
        }),
    decreases code.len(),
{
    let lines = crate::text::lines_with_endings(code);
    if code.len() > 0 {
        crate::seqs::lemma_first_index_holds(code, crate::text::newline());
        let end = crate::text::line_end(code);
        let n = if end < code.len() {
            end + 1
        } else {
            code.len() as int
        };
        let line = code.take(n);
        let rest = code.skip(n);
        assert forall|i: int| 0 <= i < code.len() implies #[trigger] code[i] != '\r' by {
            assert(code.contains(code[i]));
        }
        assert(!rest.contains('\r')) by {
            if rest.contains('\r') {
                let i = choose|i: int| 0 <= i < rest.len() && rest[i] == '\r';
                assert(code[n + i] == '\r');
            }
        }
        lemma_line_endings(rest);
        assert forall|i: int| 0 <= i < end implies !crate::render::highlight::is_ending(
            #[trigger] line[i],
        ) by {
            assert(line[i] == code[i]);
            assert(!crate::text::newline()(code[i]));
        }
        let front = line.drop_last();
        if front.len() > 0 {
            assert(front.last() == line[front.len() - 1]);
        }
        if end < code.len() {
            assert(crate::text::newline()(code[end]));
            assert(line.last() == code[end]);
            assert(crate::render::highlight::bare(front) == front);
        } else {
            assert(line.last() == line[line.len() - 1]);
        }
        assert(crate::render::highlight::bare(line) == crate::text::without_ending(line));
        let others = crate::text::lines_with_endings(rest);
        assert forall|i: int| 0 <= i < lines.len() implies endings_last(#[trigger] lines[i])
            && crate::render::highlight::bare(lines[i]) == crate::text::without_ending(
            lines[i],
        ) by {
            if i > 0 {
                assert(lines[i] == others[i - 1]);
            }
        }
    }
}

/// Highlighted code shows the code as it is: as many lines as the code has, and the runs of each
/// put together are that line of the code. This is of code without carriage returns, where the
/// changes of every line stand in the order of their places.
pub proof fn law_highlight_shows_code(
    set: SyntaxSet,
    code: Seq<char>,
    lang: Seq<char>,
    theme: ThemeView,
)
    requires
        !code.contains('\r'),
        crate::render::highlight::syntax_for(set, lang) matches Some(syntax) ==> changes_in_order(
            set,
            syntax,
            crate::text::lines_with_endings(code),
            theme,
        ),
    ensures
        crate::render::highlight::highlighted(set, code, lang, theme) matches Some(lines) ==> {
            let source = crate::text::text_lines(code);
            &&& lines.len() == source.len()
            &&& forall|i: int|
                0 <= i < source.len() ==> crate::render::style::spans_text(
                    (#[trigger] lines[i]).spans,
                ) == source[i]
        },
{
    match crate::render::highlight::syntax_for(set, lang) {
        Some(syntax) => {
            let raw = crate::text::lines_with_endings(code);
            lemma_line_endings(code);
            lemma_paint_shows(set, syntax, raw, theme);
            match crate::render::highlight::highlighted(set, code, lang, theme) {
                Some(lines) => {
                    let source = crate::text::text_lines(code);
                    assert forall|i: int| 0 <= i < source.len() implies
                        crate::render::style::spans_text((#[trigger] lines[i]).spans)
                        == source[i] by {
                        assert(lines[i].text() == crate::render::highlight::bare(raw[i]));
                        assert(source[i] == crate::text::without_ending(raw[i]));
                    }
                },
                None => {},
            }
        },
        None => {},
    }
}

/// Highlighting changes the look alone: in whichever languages and themes code is highlighted,
/// the texts of its lines are the same.
pub proof fn law_highlight_texts_agree(
    set: SyntaxSet,
    code: Seq<char>,
    lang: Seq<char>,
    theme: ThemeView,
    other_lang: Seq<char>,
    other_theme: ThemeView,
    i: int,
)
    requires
        !code.contains('\r'),
        crate::render::highlight::syntax_for(set, lang) matches Some(syntax) ==> changes_in_order(
            set,
            syntax,
            crate::text::lines_with_endings(code),
            theme,
        ),
        crate::render::highlight::syntax_for(set, other_lang) matches Some(syntax)
            ==> changes_in_order(
            set,
            syntax,
            crate::text::lines_with_endings(code),
            other_theme,
        ),
        0 <= i < crate::text::text_lines(code).len(),
    ensures
        crate::render::highlight::highlighted(set, code, lang, theme) matches Some(a) ==> (
        crate::render::highlight::highlighted(set, code, other_lang, other_theme) matches Some(b)
            ==> a[i].text() == b[i].text()),
{
    law_highlight_shows_code(set, code, lang, theme);
    law_highlight_shows_code(set, code, other_lang, other_theme);
    let source = crate::text::text_lines(code);
    match crate::render::highlight::highlighted(set, code, lang, theme) {
        Some(a) => {
            assert(crate::render::style::spans_text(a[i].spans) == source[i]);
        },
        None => {},
    }
    match crate::render::highlight::highlighted(set, code, other_lang, other_theme) {
        Some(b) => {
            assert(crate::render::style::spans_text(b[i].spans) == source[i]);
        },
        None => {},
    }
}

/// The role of code under some scopes does not change with their order.
pub proof fn law_token_ignores_order(a: Seq<Seq<char>>, b: Seq<Seq<char>>)
    requires
        forall|s: Seq<char>| a.contains(s) == b.contains(s),
    ensures
        crate::render::highlight::token_of(a) == crate::render::highlight::token_of(b),
{
    assert forall|p: Seq<char>|
        crate::render::highlight::under(a, p) == #[trigger] crate::render::highlight::under(b, p) by {
        if crate::render::highlight::under(a, p) {
            let i = choose|i: int| 0 <= i < a.len() && p.is_prefix_of(#[trigger] a[i]);
            assert(a.contains(a[i]));
            assert(b.contains(a[i]));
            let j = choose|j: int| 0 <= j < b.len() && b[j] == a[i];
            assert(p.is_prefix_of(b[j]));
        }
        if crate::render::highlight::under(b, p) {
            let i = choose|i: int| 0 <= i < b.len() && p.is_prefix_of(#[trigger] b[i]);
            assert(b.contains(b[i]));
            assert(a.contains(b[i]));
            let j = choose|j: int| 0 <= j < a.len() && a[j] == b[i];
            assert(p.is_prefix_of(a[j]));
        }
    }
}

} // verus!
