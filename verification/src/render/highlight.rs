//! Syntax highlighting of code blocks: scopes become theme colors.
//!
//! The grammars are those of `two_face`, parsed by `syntect`. Every run of characters is
//! painted by the scopes that lie over it: the theme stays the only source of color. Where the
//! language is not known or the code is too big there is no highlighting.

use vstd::prelude::*;

use syntect::parsing::{ParseState, ParsingError, ScopeError, ScopeStack, ScopeStackOp};
use syntect::parsing::{SyntaxReference, SyntaxSet};

use crate::render::style::{Color, Line, LineView, Modifier, Span, SpanView, Style};
use crate::text::{begins_with, bytes_of, chars_of, lines_of, lowered, same, slice_text, split_endings};
use crate::theme::{Theme, ThemeView};

verus! {

/// The longest code that is highlighted, in bytes.
pub const MAX_HIGHLIGHT_BYTES: usize = 524288;

/// The longest code that is highlighted, in lines.
pub const MAX_HIGHLIGHT_LINES: usize = 10000;

/// The longest line of code that is highlighted, in bytes.
pub const MAX_HIGHLIGHT_LINE_BYTES: usize = 4096;

/// The theme role of a run of code.
#[derive(Debug, Clone, Copy, PartialEq, Eq, Structural)]
pub enum CodeToken {
    /// Comments.
    Muted,
    /// Keywords.
    Accent,
    /// Strings and regular expressions.
    Success,
    /// Numbers and constants of the language.
    Warning,
    /// Functions.
    Code,
    /// Types, in bold.
    Type,
    /// Anything else.
    Plain,
}

/// Whether one of the scopes begins with `prefix`.
pub open spec fn under(scopes: Seq<Seq<char>>, prefix: Seq<char>) -> bool {
    exists|i: int| 0 <= i < scopes.len() && prefix.is_prefix_of(#[trigger] scopes[i])
}

/// The role of code under some scopes: the first rule that takes one of them decides.
pub open spec fn token_of(scopes: Seq<Seq<char>>) -> CodeToken {
    if under(scopes, "comment."@) {
        CodeToken::Muted
    } else if under(scopes, "keyword."@) {
        CodeToken::Accent
    } else if under(scopes, "string."@) || under(scopes, "regexp"@) {
        CodeToken::Success
    } else if under(scopes, "constant.numeric"@) || under(scopes, "constant.language"@) {
        CodeToken::Warning
    } else if under(scopes, "entity.name.function"@) || under(scopes, "support.function"@) {
        CodeToken::Code
    } else if under(scopes, "entity.name.type"@) || under(scopes, "storage.type"@) {
        CodeToken::Type
    } else {
        CodeToken::Plain
    }
}

/// The texts of some string slices.
pub open spec fn texts(scopes: Seq<&str>) -> Seq<Seq<char>> {
    scopes.map_values(|s: &str| s@)
}

fn any_under(scopes: &[&str], prefix: &str) -> (r: bool)
    ensures
        r == under(texts(scopes@), prefix@),
{
    let mut i: usize = 0;
    while i < scopes.len()
        invariant
            i <= scopes.len(),
            forall|k: int| 0 <= k < i ==> !prefix@.is_prefix_of(#[trigger] texts(scopes@)[k]),
        decreases scopes.len() - i,
    {
        if begins_with(scopes[i], prefix) {
            proof {
                assert(prefix@.is_prefix_of(texts(scopes@)[i as int]));
            }
            return true;
        }
        i = i + 1;
    }
    false
}

/// The role of code under some scopes, outermost first.
pub fn classify(scopes: &[&str]) -> (r: CodeToken)
    ensures
        r == token_of(texts(scopes@)),
{
    if any_under(scopes, "comment.") {
        CodeToken::Muted
    } else if any_under(scopes, "keyword.") {
        CodeToken::Accent
    } else if any_under(scopes, "string.") || any_under(scopes, "regexp") {
        CodeToken::Success
    } else if any_under(scopes, "constant.numeric") || any_under(scopes, "constant.language") {
        CodeToken::Warning
    } else if any_under(scopes, "entity.name.function") || any_under(scopes, "support.function") {
        CodeToken::Code
    } else if any_under(scopes, "entity.name.type") || any_under(scopes, "storage.type") {
        CodeToken::Type
    } else {
        CodeToken::Plain
    }
}

/// The color of a role.
pub open spec fn token_color(token: CodeToken, theme: ThemeView) -> Color {
    match token {
        CodeToken::Muted => theme.muted,
        CodeToken::Accent => theme.accent,
        CodeToken::Success => theme.success,
        CodeToken::Warning => theme.warning,
        CodeToken::Code => theme.code,
        CodeToken::Type => theme.text,
        CodeToken::Plain => theme.text,
    }
}

/// The style of a role: its color, and bold for types.
pub open spec fn style_of(token: CodeToken, theme: ThemeView) -> Style {
    let colored = crate::render::style::fg(token_color(token, theme));
    if token == CodeToken::Type {
        colored.with(Modifier::Bold)
    } else {
        colored
    }
}

/// The style of a role: its color, and bold for types. There is no background.
pub fn token_style(token: CodeToken, theme: &Theme) -> (r: Style)
    ensures
        r == style_of(token, theme@),
{
    let color = match token {
        CodeToken::Muted => theme.muted,
        CodeToken::Accent => theme.accent,
        CodeToken::Success => theme.success,
        CodeToken::Warning => theme.warning,
        CodeToken::Code => theme.code,
        CodeToken::Type => theme.text,
        CodeToken::Plain => theme.text,
    };
    let style = Style::new().fg(color);
    if token == CodeToken::Type {
        style.add_modifier(Modifier::Bold)
    } else {
        style
    }
}

/// `syntect::parsing::SyntaxSet`: a set of grammars.
#[verifier::external_type_specification]
#[verifier::external_body]
pub struct ExSyntaxSet(SyntaxSet);

/// `syntect::parsing::SyntaxReference`: one grammar of a set.
#[verifier::external_type_specification]
#[verifier::external_body]
pub struct ExSyntaxReference(SyntaxReference);

/// `syntect::parsing::ParseState`: where a parse stands between two lines.
#[verifier::external_type_specification]
#[verifier::external_body]
pub struct ExParseState(ParseState);

/// `syntect::parsing::ScopeStack`: the scopes over a place in the code.
#[verifier::external_type_specification]
#[verifier::external_body]
pub struct ExScopeStack(ScopeStack);

/// `syntect::parsing::ScopeStackOp`: a change of a scope stack.
#[verifier::external_type_specification]
#[verifier::external_body]
pub struct ExScopeStackOp(ScopeStackOp);

/// `syntect::parsing::ParsingError`.
#[verifier::external_type_specification]
#[verifier::external_body]
pub struct ExParsingError(ParsingError);

/// `syntect::parsing::ScopeError`.
#[verifier::external_type_specification]
#[verifier::external_body]
pub struct ExScopeError(ScopeError);

/// The grammar of a set for a token: its extension or its name.
pub uninterp spec fn by_token(set: SyntaxSet, token: Seq<char>) -> Option<SyntaxReference>;

/// The grammar of a set for a file extension.
pub uninterp spec fn by_extension(set: SyntaxSet, extension: Seq<char>) -> Option<SyntaxReference>;

/// Whether a grammar is one of a set.
pub uninterp spec fn belongs(syntax: SyntaxReference, set: SyntaxSet) -> bool;

/// Whether a parse was begun with a grammar of a set.
pub uninterp spec fn runs_with(state: ParseState, set: SyntaxSet) -> bool;

/// Where a parse with a grammar begins.
pub uninterp spec fn first_state(syntax: SyntaxReference) -> ParseState;

/// What the parse of one line gives: where the parse stands after it, and the changes of the
/// scope stack with the byte offsets at which they take effect; `None` where it fails.
pub uninterp spec fn parsed_line(state: ParseState, line: Seq<char>, set: SyntaxSet) -> (
    ParseState,
    Option<Seq<(usize, ScopeStackOp)>>,
);

/// The stack that holds some scopes and has cleared none.
pub uninterp spec fn stack_of(scopes: Seq<Seq<char>>) -> ScopeStack;

/// The scopes that a stack holds, outermost first.
pub uninterp spec fn scopes_in(stack: ScopeStack) -> Seq<Seq<char>>;

/// A scope stack after a change; `None` where the change cannot be made.
pub uninterp spec fn applied(stack: ScopeStack, op: ScopeStackOp) -> Option<ScopeStack>;

/// `two_face::syntax::extra_newlines`: the bundled grammars, for lines that keep their line
/// feed. Nothing is said of what is in the set.
#[verifier::external_body]
fn bundled_grammars() -> (r: SyntaxSet) {
    two_face::syntax::extra_newlines()
}

/// `SyntaxSet::find_syntax_by_token`: the grammar for an extension or a name; it is one of
/// the set.
pub assume_specification<'a>[ SyntaxSet::find_syntax_by_token ](
    set: &'a SyntaxSet,
    s: &str,
) -> (r: Option<&'a SyntaxReference>)
    ensures
        match r {
            Some(syntax) => by_token(*set, s@) == Some(*syntax) && belongs(*syntax, *set),
            None => by_token(*set, s@) is None,
        },
;

/// `SyntaxSet::find_syntax_by_extension`: the grammar for a file extension; it is one of the
/// set.
pub assume_specification<'a>[ SyntaxSet::find_syntax_by_extension ](
    set: &'a SyntaxSet,
    extension: &str,
) -> (r: Option<&'a SyntaxReference>)
    ensures
        match r {
            Some(syntax) => by_extension(*set, extension@) == Some(*syntax) && belongs(
                *syntax,
                *set,
            ),
            None => by_extension(*set, extension@) is None,
        },
;

/// `ParseState::new`: the parse begins with a grammar, and runs with every set that the
/// grammar is of.
pub assume_specification[ ParseState::new ](syntax: &SyntaxReference) -> (r: ParseState)
    ensures
        r == first_state(*syntax),
        forall|set: SyntaxSet| belongs(*syntax, set) ==> runs_with(r, set),
;

/// `ParseState::parse_line`: the changes of the scope stack within a line, and the step of the
/// parse past it. The set has to be the one that the parse was begun with.
pub assume_specification[ ParseState::parse_line ](
    state: &mut ParseState,
    line: &str,
    syntax_set: &SyntaxSet,
) -> (r: Result<Vec<(usize, ScopeStackOp)>, ParsingError>)
    requires
        runs_with(*old(state), *syntax_set),
    ensures
        runs_with(*final(state), *syntax_set),
        match r {
            Ok(ops) => parsed_line(*old(state), line@, *syntax_set) == (*final(state), Some(ops@)),
            Err(_) => parsed_line(*old(state), line@, *syntax_set) == (
                *final(state),
                None::<Seq<(usize, ScopeStackOp)>>,
            ),
        },
;

/// `ScopeStack::new`: the stack without scopes.
pub assume_specification[ ScopeStack::new ]() -> (r: ScopeStack)
    ensures
        r == stack_of(Seq::empty()),
        scopes_in(r) == Seq::<Seq<char>>::empty(),
;

/// `ScopeStack::apply`: one change of the stack.
pub assume_specification[ ScopeStack::apply ](stack: &mut ScopeStack, op: &ScopeStackOp) -> (r: Result<
    (),
    ScopeError,
>)
    ensures
        match r {
            Ok(_) => applied(*old(stack), *op) == Some(*final(stack)),
            Err(_) => applied(*old(stack), *op) is None,
        },
;

/// `ScopeStack::as_slice`, each scope in its dotted form.
#[verifier::external_body]
fn scope_names(stack: &ScopeStack) -> (r: Vec<String>)
    ensures
        crate::text::views(r@) == scopes_in(*stack),
{
    stack.as_slice().iter().map(|scope| scope.to_string()).collect()
}

/// The grammars that code is highlighted with.
pub struct Grammars {
    set: SyntaxSet,
}

impl Grammars {
    /// The set of grammars.
    pub closed spec fn syntaxes(self) -> SyntaxSet {
        self.set
    }
}

/// Load the grammars. This takes a while: it is done once, at startup.
pub fn warmup() -> (r: Grammars) {
    Grammars { set: bundled_grammars() }
}

/// The name under which a language is looked up.
pub open spec fn patched(lang: Seq<char>) -> Seq<char> {
    let lower = crate::text::lower_text(lang);
    if lower == "csharp"@ || lower == "c-sharp"@ {
        "c#"@
    } else if lower == "golang"@ {
        "go"@
    } else if lower == "python3"@ {
        "python"@
    } else if lower == "shell"@ {
        "bash"@
    } else {
        lang
    }
}

/// The grammar of a language.
pub open spec fn syntax_for(set: SyntaxSet, lang: Seq<char>) -> Option<SyntaxReference> {
    match by_token(set, patched(lang)) {
        Some(syntax) => Some(syntax),
        None => by_extension(set, lang),
    }
}

fn find_syntax<'a>(set: &'a SyntaxSet, lang: &str) -> (r: Option<&'a SyntaxReference>)
    ensures
        match r {
            Some(syntax) => syntax_for(*set, lang@) == Some(*syntax) && belongs(*syntax, *set),
            None => syntax_for(*set, lang@) is None,
        },
{
    let lower = lowered(lang);
    let name = if same(lower.as_str(), "csharp") || same(lower.as_str(), "c-sharp") {
        "c#"
    } else if same(lower.as_str(), "golang") {
        "go"
    } else if same(lower.as_str(), "python3") {
        "python"
    } else if same(lower.as_str(), "shell") {
        "bash"
    } else {
        lang
    };
    match set.find_syntax_by_token(name) {
        Some(syntax) => Some(syntax),
        None => set.find_syntax_by_extension(lang),
    }
}

/// The length of a character in bytes of UTF-8.
pub open spec fn char_bytes(c: char) -> nat {
    if (c as u32) < 0x80 {
        1
    } else if (c as u32) < 0x800 {
        2
    } else if (c as u32) < 0x10000 {
        3
    } else {
        4
    }
}

/// The character of a text that starts at a byte offset; the end counts as a start.
pub open spec fn char_at_byte(s: Seq<char>, offset: int) -> Option<int>
    decreases s.len(),
{
    if offset == 0 {
        Some(0)
    } else if s.len() == 0 || offset < char_bytes(s[0]) {
        None
    } else {
        match char_at_byte(s.drop_first(), offset - char_bytes(s[0])) {
            Some(k) => Some(k + 1),
            None => None,
        }
    }
}

fn find_char(chars: &Vec<char>, offset: usize) -> (r: Option<usize>)
    ensures
        match r {
            Some(k) => char_at_byte(chars@, offset as int) == Some(k as int) && k <= chars@.len(),
            None => char_at_byte(chars@, offset as int) is None,
        },
{
    let mut left: usize = offset;
    let mut k: usize = 0;
    proof {
        assert(chars@.skip(0) =~= chars@);
    }
    loop
        invariant
            k <= chars.len(),
            match char_at_byte(chars@.skip(k as int), left as int) {
                Some(m) => char_at_byte(chars@, offset as int) == Some(m + k),
                None => char_at_byte(chars@, offset as int) is None,
            },
        decreases chars.len() - k,
    {
        if left == 0 {
            return Some(k);
        }
        if k == chars.len() {
            return None;
        }
        let c = chars[k];
        let size: usize = if (c as u32) < 0x80 {
            1
        } else if (c as u32) < 0x800 {
            2
        } else if (c as u32) < 0x10000 {
            3
        } else {
            4
        };
        proof {
            assert(chars@.skip(k as int)[0] == c);
            assert(chars@.skip(k as int).drop_first() =~= chars@.skip(k + 1));
        }
        if left < size {
            return None;
        }
        left = left - size;
        k = k + 1;
    }
}

/// A line on its way through painting: the scopes over the next character, its place, and the
/// runs so far.
pub struct RunView {
    pub stack: ScopeStack,
    pub at: int,
    pub spans: Seq<SpanView>,
}

/// A run of code in the style of the scopes over it.
pub open spec fn painted(text: Seq<char>, stack: ScopeStack, theme: ThemeView) -> SpanView {
    SpanView { content: text, style: style_of(token_of(scopes_in(stack)), theme) }
}

/// A line up to the place of the last of some changes.
pub open spec fn runs(
    line: Seq<char>,
    ops: Seq<(usize, ScopeStackOp)>,
    stack: ScopeStack,
    theme: ThemeView,
) -> Option<RunView>
    decreases ops.len(),
{
    if ops.len() == 0 {
        Some(RunView { stack, at: 0, spans: Seq::empty() })
    } else {
        let (offset, op) = ops.last();
        match (runs(line, ops.drop_last(), stack, theme), char_at_byte(line, offset as int)) {
            (Some(run), Some(k)) => {
                let spans = if k > run.at {
                    run.spans.push(painted(line.subrange(run.at, k), run.stack, theme))
                } else {
                    run.spans
                };
                match applied(run.stack, op) {
                    Some(after) => Some(RunView { stack: after, at: k, spans }),
                    None => None,
                }
            },
            _ => None,
        }
    }
}

/// A whole line after some changes.
pub open spec fn line_runs(
    line: Seq<char>,
    ops: Seq<(usize, ScopeStackOp)>,
    stack: ScopeStack,
    theme: ThemeView,
) -> Option<RunView> {
    match runs(line, ops, stack, theme) {
        Some(run) => Some(
            if run.at < line.len() {
                RunView {
                    spans: run.spans.push(
                        painted(line.subrange(run.at, line.len() as int), run.stack, theme),
                    ),
                    ..run
                }
            } else {
                run
            },
        ),
        None => None,
    }
}

/// Whether a character ends a line.
pub open spec fn is_ending(c: char) -> bool {
    c == '\n' || c == '\r'
}

/// A text without the line endings at its end.
pub open spec fn bare(text: Seq<char>) -> Seq<char>
    decreases text.len(),
{
    if text.len() > 0 && is_ending(text.last()) {
        bare(text.drop_last())
    } else {
        text
    }
}

/// The runs of a line without line endings; what is nothing else is dropped.
pub open spec fn bare_runs(spans: Seq<SpanView>) -> Seq<SpanView>
    decreases spans.len(),
{
    if spans.len() == 0 {
        Seq::empty()
    } else {
        let before = bare_runs(spans.drop_last());
        let text = bare(spans.last().content);
        if text.len() == 0 {
            before
        } else {
            before.push(SpanView { content: text, style: spans.last().style })
        }
    }
}

/// The display line of some runs.
pub open spec fn run_line(spans: Seq<SpanView>) -> LineView {
    let left = bare_runs(spans);
    crate::render::style::line_of(
        if left.len() == 0 {
            seq![crate::render::style::raw_span(Seq::empty())]
        } else {
            left
        },
    )
}

/// Code on its way through painting: where the parse stands, the scopes over the next line,
/// and the lines so far.
pub struct PaintView {
    pub state: ParseState,
    pub stack: ScopeStack,
    pub lines: Seq<LineView>,
}

/// Some lines of code, painted.
pub open spec fn paint(
    set: SyntaxSet,
    syntax: SyntaxReference,
    lines: Seq<Seq<char>>,
    theme: ThemeView,
) -> Option<PaintView>
    decreases lines.len(),
{
    if lines.len() == 0 {
        Some(
            PaintView {
                state: first_state(syntax),
                stack: stack_of(Seq::empty()),
                lines: Seq::empty(),
            },
        )
    } else {
        match paint(set, syntax, lines.drop_last(), theme) {
            Some(before) => {
                let (state, ops) = parsed_line(before.state, lines.last(), set);
                match ops {
                    Some(ops) => match line_runs(lines.last(), ops, before.stack, theme) {
                        Some(run) => Some(
                            PaintView {
                                state,
                                stack: run.stack,
                                lines: before.lines.push(run_line(run.spans)),
                            },
                        ),
                        None => None,
                    },
                    None => None,
                }
            },
            None => None,
        }
    }
}

/// Whether code is left as it is: there is none, or too much of it.
pub open spec fn left_plain(code: Seq<char>) -> bool {
    ||| code.len() == 0
    ||| crate::text::byte_count(code) > MAX_HIGHLIGHT_BYTES
    ||| crate::text::text_lines(code).len() > MAX_HIGHLIGHT_LINES
    ||| exists|i: int|
        0 <= i < crate::text::text_lines(code).len() && crate::text::byte_count(
            #[trigger] crate::text::text_lines(code)[i],
        ) > MAX_HIGHLIGHT_LINE_BYTES
}

/// Highlighted code; `None` where it is left as it is.
pub open spec fn highlighted(
    set: SyntaxSet,
    code: Seq<char>,
    lang: Seq<char>,
    theme: ThemeView,
) -> Option<Seq<LineView>> {
    if left_plain(code) {
        None
    } else {
        match syntax_for(set, lang) {
            Some(syntax) => match paint(set, syntax, crate::text::lines_with_endings(code), theme) {
                Some(done) => Some(done.lines),
                None => None,
            },
            None => None,
        }
    }
}

fn is_left_plain(code: &str) -> (r: bool)
    ensures
        r == left_plain(code@),
{
    if code.is_empty() || bytes_of(code) > MAX_HIGHLIGHT_BYTES {
        return true;
    }
    let lines = lines_of(code);
    let ghost all = crate::text::text_lines(code@);
    proof {
        assert(all.len() == lines@.len());
    }
    if lines.len() > MAX_HIGHLIGHT_LINES {
        return true;
    }
    let mut i: usize = 0;
    while i < lines.len()
        invariant
            i <= lines.len(),
            all == crate::text::views(lines@),
            all == crate::text::text_lines(code@),
            forall|k: int|
                0 <= k < i ==> crate::text::byte_count(#[trigger] all[k])
                    <= MAX_HIGHLIGHT_LINE_BYTES,
        decreases lines.len() - i,
    {
        proof {
            assert(all[i as int] == lines@[i as int]@);
        }
        if bytes_of(lines[i].as_str()) > MAX_HIGHLIGHT_LINE_BYTES {
            return true;
        }
        i = i + 1;
    }
    false
}

fn paint_run(text: &str, stack: &ScopeStack, theme: &Theme) -> (r: Span)
    ensures
        r@ == painted(text@, *stack, theme@),
{
    let names = scope_names(stack);
    let mut slices: Vec<&str> = Vec::new();
    let mut i: usize = 0;
    while i < names.len()
        invariant
            i <= names.len(),
            slices.len() == i,
            forall|k: int| 0 <= k < i ==> (#[trigger] slices@[k])@ == names@[k]@,
        decreases names.len() - i,
    {
        slices.push(names[i].as_str());
        i = i + 1;
    }
    proof {
        assert(texts(slices@) =~= crate::text::views(names@));
    }
    let token = classify(slices.as_slice());
    Span::styled(text, token_style(token, theme))
}

/// The runs of a line under the changes of the scope stack within it; the stack moves on to
/// the end of the line. `None` where a change cannot be made or does not fall between two
/// characters.
pub fn line_spans(
    line: &str,
    ops: &Vec<(usize, ScopeStackOp)>,
    stack: &mut ScopeStack,
    theme: &Theme,
) -> (r: Option<Vec<Span>>)
    ensures
        match (r, line_runs(line@, ops@, *old(stack), theme@)) {
            (Some(spans), Some(run)) => crate::text::views(spans@) == run.spans && *final(stack)
                == run.stack,
            (None, None) => true,
            _ => false,
        },
{
    let chars = chars_of(line);
    let ghost start = *stack;
    let mut spans: Vec<Span> = Vec::new();
    let mut at: usize = 0;
    proof {
        assert(ops@.take(0) =~= Seq::empty());
        assert(crate::text::views(spans@) =~= Seq::empty());
    }
    let mut i: usize = 0;
    while i < ops.len()
        invariant
            i <= ops.len(),
            chars@ == line@,
            at <= chars.len(),
            runs(line@, ops@.take(i as int), start, theme@) == Some(
                RunView { stack: *stack, at: at as int, spans: crate::text::views(spans@) },
            ),
            start == *old(stack),
        decreases ops.len() - i,
    {
        proof {
            assert(ops@.take(i + 1).drop_last() =~= ops@.take(i as int));
            assert(ops@.take(i + 1).last() == ops@[i as int]);
        }
        match find_char(&chars, ops[i].0) {
            Some(k) => {
                if k > at {
                    let run = paint_run(slice_text(&chars, at, k).as_str(), &*stack, theme);
                    proof {
                        crate::render::style::lemma_push_span(spans@, run);
                    }
                    spans.push(run);
                }
                match stack.apply(&ops[i].1) {
                    Ok(_) => {},
                    Err(_) => {
                        proof {
                            lemma_runs_none(line@, ops@, start, theme@, i + 1);
                        }
                        return None;
                    },
                }
                at = k;
            },
            None => {
                proof {
                    lemma_runs_none(line@, ops@, start, theme@, i + 1);
                }
                return None;
            },
        }
        i = i + 1;
    }
    proof {
        assert(ops@.take(i as int) =~= ops@);
    }
    if at < chars.len() {
        let run = paint_run(slice_text(&chars, at, chars.len()).as_str(), &*stack, theme);
        proof {
            crate::render::style::lemma_push_span(spans@, run);
        }
        spans.push(run);
    }
    Some(spans)
}

proof fn lemma_runs_none(
    line: Seq<char>,
    ops: Seq<(usize, ScopeStackOp)>,
    stack: ScopeStack,
    theme: ThemeView,
    n: int,
)
    requires
        0 <= n <= ops.len(),
        runs(line, ops.take(n), stack, theme) is None,
    ensures
        runs(line, ops, stack, theme) is None,
    decreases ops.len(),
{
    if n == ops.len() {
        assert(ops.take(n) =~= ops);
    } else {
        assert(ops.drop_last().take(n) =~= ops.take(n));
        lemma_runs_none(line, ops.drop_last(), stack, theme, n);
    }
}

fn strip_endings(text: &str) -> (r: String)
    ensures
        r@ == bare(text@),
{
    let chars = chars_of(text);
    let mut end: usize = chars.len();
    proof {
        assert(chars@.take(end as int) =~= chars@);
    }
    while end > 0 && (chars[end - 1] == '\n' || chars[end - 1] == '\r')
        invariant
            end <= chars.len(),
            bare(chars@.take(end as int)) == bare(chars@),
        decreases end,
    {
        proof {
            assert(chars@.take(end as int).drop_last() =~= chars@.take(end - 1));
        }
        end = end - 1;
    }
    let r = slice_text(&chars, 0, end);
    proof {
        assert(r@ =~= chars@.take(end as int));
    }
    r
}

/// The display line of some runs: without line endings, and never without a span.
pub fn finish_line(spans: &Vec<Span>) -> (r: Line)
    ensures
        r@ == run_line(crate::text::views(spans@)),
{
    let ghost all = crate::text::views(spans@);
    let mut left: Vec<Span> = Vec::new();
    proof {
        assert(all.take(0) =~= Seq::empty());
        assert(crate::text::views(left@) =~= Seq::empty());
    }
    let mut i: usize = 0;
    while i < spans.len()
        invariant
            i <= spans.len(),
            all == crate::text::views(spans@),
            crate::text::views(left@) == bare_runs(all.take(i as int)),
        decreases spans.len() - i,
    {
        let text = strip_endings(spans[i].content.as_str());
        proof {
            assert(all.take(i + 1).drop_last() =~= all.take(i as int));
            assert(all.take(i + 1).last() == spans@[i as int]@);
        }
        if !text.as_str().is_empty() {
            let span = Span { content: text, style: spans[i].style };
            proof {
                crate::render::style::lemma_push_span(left@, span);
            }
            left.push(span);
        }
        i = i + 1;
    }
    proof {
        assert(all.take(i as int) =~= all);
        assert(left@.len() == crate::text::views(left@).len());
    }
    if left.len() == 0 {
        let empty = Span { content: String::new(), style: Style::new() };
        proof {
            assert(empty@.content =~= Seq::empty());
        }
        return Line::from_span(empty);
    }
    Line::from_spans(left)
}

proof fn lemma_paint_none(
    set: SyntaxSet,
    syntax: SyntaxReference,
    lines: Seq<Seq<char>>,
    theme: ThemeView,
    n: int,
)
    requires
        0 <= n <= lines.len(),
        paint(set, syntax, lines.take(n), theme) is None,
    ensures
        paint(set, syntax, lines, theme) is None,
    decreases lines.len(),
{
    if n == lines.len() {
        assert(lines.take(n) =~= lines);
    } else {
        assert(lines.drop_last().take(n) =~= lines.take(n));
        lemma_paint_none(set, syntax, lines.drop_last(), theme, n);
    }
}

/// Highlight `code` as `lang`: one line for each line of the code. `None` where the language is
/// not known, there is no code or too much of it, or its parse fails.
pub fn highlight_code(grammars: &Grammars, code: &str, lang: &str, theme: &Theme) -> (r: Option<
    Vec<Line>,
>)
    ensures
        match r {
            Some(lines) => highlighted(grammars.syntaxes(), code@, lang@, theme@) == Some(
                crate::text::views(lines@),
            ),
            None => highlighted(grammars.syntaxes(), code@, lang@, theme@) is None,
        },
{
    if is_left_plain(code) {
        return None;
    }
    let set = &grammars.set;
    let syntax = match find_syntax(set, lang) {
        Some(syntax) => syntax,
        None => return None,
    };
    let mut state = ParseState::new(syntax);
    let mut stack = ScopeStack::new();
    let source = split_endings(code);
    let ghost all = crate::text::lines_with_endings(code@);
    let mut lines: Vec<Line> = Vec::new();
    proof {
        assert(all.take(0) =~= Seq::empty());
        assert(crate::text::views(lines@) =~= Seq::empty());
    }
    let mut i: usize = 0;
    while i < source.len()
        invariant
            i <= source.len(),
            all == crate::text::lines_with_endings(code@),
            all == crate::text::views(source@),
            *set == grammars.syntaxes(),
            runs_with(state, *set),
            !left_plain(code@),
            syntax_for(*set, lang@) == Some(*syntax),
            paint(*set, *syntax, all.take(i as int), theme@) == Some(
                PaintView { state, stack, lines: crate::text::views(lines@) },
            ),
        decreases source.len() - i,
    {
        let raw = source[i].as_str();
        proof {
            assert(all.take(i + 1).drop_last() =~= all.take(i as int));
            assert(all.take(i + 1).last() == raw@);
        }
        let ops = match state.parse_line(raw, set) {
            Ok(ops) => ops,
            Err(_) => {
                proof {
                    lemma_paint_none(*set, *syntax, all, theme@, i + 1);
                }
                return None;
            },
        };
        let spans = match line_spans(raw, &ops, &mut stack, theme) {
            Some(spans) => spans,
            None => {
                proof {
                    lemma_paint_none(*set, *syntax, all, theme@, i + 1);
                }
                return None;
            },
        };
        let line = finish_line(&spans);
        proof {
            crate::render::style::lemma_push_line(lines@, line);
        }
        lines.push(line);
        i = i + 1;
    }
    proof {
        assert(all.take(i as int) =~= all);
    }
    Some(lines)
}

} // verus!
