//! Code in color.

use dsh_tui::render::highlight::{
    classify, highlight_code, token_style, warmup, CodeToken, MAX_HIGHLIGHT_BYTES,
    MAX_HIGHLIGHT_LINES, MAX_HIGHLIGHT_LINE_BYTES,
};
use dsh_tui::render::style::Span;
use dsh_tui::theme::Theme;

fn theme() -> Theme {
    Theme::from_toml_str(
        r##"
name = "highlight-test"
accent = "#111111"
muted = "#222222"
error = "#333333"
warning = "#444444"
success = "#555555"
code = "#666666"
bg = "#777777"
text = "#888888"
panel_bg = "#999999"
border = "#aaaaaa"
"##,
    )
    .expect("valid theme")
}

#[test]
fn classifier_maps_each_scope_family_to_its_token() {
    let cases: &[(&[&str], CodeToken)] = &[
        (&["comment.line.double-slash.rust"], CodeToken::Muted),
        (&["comment.block.rust"], CodeToken::Muted),
        (&["keyword.control.rust"], CodeToken::Accent),
        (&["keyword.other.rust"], CodeToken::Accent),
        (&["keyword.operator.arithmetic.rust"], CodeToken::Accent),
        (&["string.quoted.double.rust"], CodeToken::Success),
        (&["string.regexp.rust"], CodeToken::Success),
        (&["regexp.unquoted.rust"], CodeToken::Success),
        (&["constant.numeric.rust"], CodeToken::Warning),
        (&["constant.language.boolean.rust"], CodeToken::Warning),
        (&["entity.name.function.rust"], CodeToken::Code),
        (&["support.function.rust"], CodeToken::Code),
        (&["entity.name.type.rust"], CodeToken::Type),
        (&["storage.type.rust"], CodeToken::Type),
        (&["source.rust"], CodeToken::Plain),
        (&["meta.function.rust"], CodeToken::Plain),
    ];
    for (scopes, expected) in cases {
        assert_eq!(
            classify(scopes),
            *expected,
            "classify({scopes:?}) — rule mismatch"
        );
    }
}

#[test]
fn classifier_priority_is_table_order_not_stack_order() {
    assert_eq!(
        classify(&["string.quoted.rust", "comment.line.rust"]),
        CodeToken::Muted
    );
    assert_eq!(
        classify(&["keyword.control.rust", "string.quoted.rust"]),
        CodeToken::Accent
    );
    assert_eq!(
        classify(&["source.rust", "entity.name.function.rust"]),
        CodeToken::Code
    );
    assert_eq!(
        classify(&["meta.expression.rust", "keyword.operator.rust"]),
        CodeToken::Accent
    );
}

#[test]
fn unknown_and_empty_scopes_pass_through_to_plain() {
    assert_eq!(classify(&[] as &[&str]), CodeToken::Plain);
    assert_eq!(
        classify(&["variable.other.rust", "meta.function.rust"]),
        CodeToken::Plain
    );
    assert_eq!(classify(&["punctuation.definition.rust"]), CodeToken::Plain);
}

#[test]
fn token_style_maps_tokens_to_theme_colors() {
    let theme = theme();
    assert_eq!(token_style(CodeToken::Muted, &theme).fg, Some(theme.muted));
    assert_eq!(
        token_style(CodeToken::Accent, &theme).fg,
        Some(theme.accent)
    );
    assert_eq!(
        token_style(CodeToken::Success, &theme).fg,
        Some(theme.success)
    );
    assert_eq!(
        token_style(CodeToken::Warning, &theme).fg,
        Some(theme.warning)
    );
    assert_eq!(token_style(CodeToken::Code, &theme).fg, Some(theme.code));
    assert_eq!(token_style(CodeToken::Plain, &theme).fg, Some(theme.text));
}

#[test]
fn token_style_types_are_bold_text() {
    let theme = theme();
    let style = token_style(CodeToken::Type, &theme);
    assert_eq!(style.fg, Some(theme.text));
    assert!(style.bold);
    for token in [
        CodeToken::Muted,
        CodeToken::Accent,
        CodeToken::Success,
        CodeToken::Warning,
        CodeToken::Code,
        CodeToken::Plain,
    ] {
        assert!(
            !token_style(token, &theme).bold,
            "{token:?} must not be bold"
        );
    }
}

#[test]
fn unknown_language_and_empty_input_return_none() {
    let theme = theme();
    let grammars = warmup();
    assert!(highlight_code(&grammars, "fn main() {}", "not-a-language", &theme).is_none());
    assert!(highlight_code(&grammars, "", "rust", &theme).is_none());
}

#[test]
fn oversized_inputs_return_none() {
    let theme = theme();
    let grammars = warmup();
    let huge = "x".repeat(MAX_HIGHLIGHT_BYTES + 1);
    assert!(highlight_code(&grammars, &huge, "rust", &theme).is_none());
    let many_lines = "let x = 1;\n".repeat(MAX_HIGHLIGHT_LINES + 1);
    assert!(highlight_code(&grammars, &many_lines, "rust", &theme).is_none());
    let long_line = "x".repeat(MAX_HIGHLIGHT_LINE_BYTES + 1);
    assert!(highlight_code(&grammars, &long_line, "bash", &theme).is_none());
}

#[test]
fn highlight_preserves_content_and_line_count() {
    let theme = theme();
    let code = "fn main() {\n    println!(\"hi\");\n}\n";
    let lines = highlight_code(&warmup(), code, "rust", &theme).expect("rust highlights");
    let reconstructed: Vec<String> = lines
        .iter()
        .map(|line| {
            line.spans
                .iter()
                .map(|span| span.content.clone())
                .collect::<String>()
        })
        .collect();
    assert_eq!(reconstructed.join("\n"), code.trim_end_matches('\n'));
    assert_eq!(lines.len(), 3, "trailing newline adds no phantom line");
}

fn find<'a>(spans: &'a [&'a Span], needle: &str) -> Option<&'a Span> {
    spans.iter().find(|s| s.content == needle).copied()
}

#[test]
fn rust_keyword_and_string_spans_carry_mapped_colors() {
    let theme = theme();
    let lines = highlight_code(&warmup(), "fn main() { let s = \"hi\"; }", "rust", &theme)
        .expect("rust highlights");
    let spans: Vec<&Span> = lines[0].spans.iter().collect();
    for keyword in ["fn", "let"] {
        let span = find(&spans, keyword).unwrap_or_else(|| panic!("{keyword:?} span"));
        assert_eq!(span.style.fg, Some(theme.text), "{keyword:?} → text");
        assert!(span.style.bold, "{keyword:?} → bold");
    }
    assert_eq!(find(&spans, "main").unwrap().style.fg, Some(theme.code));
    assert_eq!(find(&spans, "=").unwrap().style.fg, Some(theme.accent));
    assert_eq!(find(&spans, "hi").unwrap().style.fg, Some(theme.success));
    assert_eq!(find(&spans, "\"").unwrap().style.fg, Some(theme.success));
    assert_eq!(find(&spans, "{").unwrap().style.fg, Some(theme.text));
}

#[test]
fn bash_highlights_with_comment_support_function_and_string() {
    let theme = theme();
    let lines = highlight_code(&warmup(), "echo \"hi\" # done\nls -la", "bash", &theme)
        .expect("bash highlights");
    let spans: Vec<&Span> = lines.iter().flat_map(|line| line.spans.iter()).collect();
    assert_eq!(find(&spans, "echo").unwrap().style.fg, Some(theme.code));
    assert_eq!(find(&spans, "hi").unwrap().style.fg, Some(theme.success));
    assert_eq!(find(&spans, "#").unwrap().style.fg, Some(theme.muted));
    assert_eq!(find(&spans, " done").unwrap().style.fg, Some(theme.muted));
    assert_eq!(find(&spans, "ls").unwrap().style.fg, Some(theme.text));
    assert_eq!(find(&spans, "la").unwrap().style.fg, Some(theme.text));
}

#[test]
fn json_keys_numbers_and_booleans_map_correctly() {
    let theme = theme();
    let lines = highlight_code(&warmup(), r#"{"a": 1, "b": true}"#, "json", &theme)
        .expect("json highlights");
    let spans: Vec<&Span> = lines[0].spans.iter().collect();
    assert_eq!(find(&spans, "a").unwrap().style.fg, Some(theme.success));
    assert_eq!(find(&spans, "1").unwrap().style.fg, Some(theme.warning));
    assert_eq!(find(&spans, "true").unwrap().style.fg, Some(theme.warning));
}

#[test]
fn aliases_resolve_to_a_highlight() {
    let theme = theme();
    let grammars = warmup();
    for (alias, code) in [
        ("shell", "echo hi"),
        ("python3", "print(1)"),
        ("golang", "package main"),
        ("csharp", "class C {}"),
    ] {
        assert!(
            highlight_code(&grammars, code, alias, &theme).is_some(),
            "alias {alias:?} should resolve"
        );
    }
}

#[test]
fn the_largest_inputs_are_still_highlighted() {
    let theme = theme();
    let grammars = warmup();
    let line = "x".repeat(MAX_HIGHLIGHT_LINE_BYTES);
    assert!(highlight_code(&grammars, &line, "bash", &theme).is_some());
    let lines = "a\n".repeat(MAX_HIGHLIGHT_LINES);
    let out = highlight_code(&grammars, &lines, "bash", &theme).expect("as many lines as allowed");
    assert_eq!(out.len(), MAX_HIGHLIGHT_LINES);
}

#[test]
fn highlighted_code_shows_the_code() {
    let grammars = warmup();
    let theme = theme();
    let code = "fn main() {\n    let s = \"é\";\n\n    // done\n}\n";
    let lines = highlight_code(&grammars, code, "rust", &theme).expect("highlighted");
    let shown: Vec<String> = lines
        .iter()
        .map(|line| line.spans.iter().map(|span| span.content.as_str()).collect())
        .collect();
    assert_eq!(shown, code.lines().collect::<Vec<_>>());
}
