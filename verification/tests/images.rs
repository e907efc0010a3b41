//! Images and the clipboard.

use base64::Engine;
use dsh_tui::app::state::App;
use dsh_tui::clipboard::{copied_count, osc52_sequence};
use dsh_tui::i18n::Strings;
use dsh_tui::render::inline_image::{
    capped_rows, detect_protocol_with, picker_protocol, ImageCache, ImageProtocol,
    MAX_INLINE_ROWS,
};
use dsh_tui::theme::ThemeRegistry;
use image::DynamicImage;

#[test]
fn osc52_sequence_encodes_base64() {
    assert_eq!(osc52_sequence("hi"), "\x1b]52;c;aGk=\x1b\\");
    assert_eq!(osc52_sequence(""), "\x1b]52;c;\x1b\\");
    assert_eq!(osc52_sequence("héllo"), "\x1b]52;c;aMOpbGxv\x1b\\");
}

#[test]
fn copied_characters_are_counted() {
    assert_eq!(copied_count("héllo"), 5);
    assert_eq!(copied_count(""), 0);
}

fn detect(vars: &[(&str, &str)]) -> ImageProtocol {
    detect_protocol_with(vars)
}

#[test]
fn detection_tier() {
    assert_eq!(
        detect(&[("TERM", "xterm-kitty")]),
        ImageProtocol::Kitty,
        "kitty TERM"
    );
    assert_eq!(
        detect(&[("TERM_PROGRAM", "ghostty"), ("TERM", "xterm-256color")]),
        ImageProtocol::Kitty,
        "ghostty"
    );
    assert_eq!(
        detect(&[("TERM_PROGRAM", "iTerm.app"), ("TERM", "xterm-256color")]),
        ImageProtocol::ITerm2,
        "iTerm2"
    );
    assert_eq!(
        detect(&[
            ("WEZTERM_EXECUTABLE", "/usr/bin/wezterm"),
            ("TERM", "xterm-256color")
        ]),
        ImageProtocol::ITerm2,
        "wezterm lands on iterm2 (crate parity)"
    );
    assert_eq!(
        detect(&[("TERM", "foot")]),
        ImageProtocol::Sixel,
        "foot is sixel"
    );
    assert_eq!(
        detect(&[("TERM", "xterm-256color")]),
        ImageProtocol::Halfblocks,
        "unknown truecolor-ish terminal falls to halfblocks"
    );
    assert_eq!(detect(&[]), ImageProtocol::NoGraphics, "no TERM");
    assert_eq!(detect(&[("TERM", "dumb")]), ImageProtocol::NoGraphics, "dumb");
    assert_eq!(
        detect(&[
            ("TMUX", "/tmp/tmux-1000/default,1,0"),
            ("TERM", "xterm-kitty"),
            ("KITTY_WINDOW_ID", "1"),
        ]),
        ImageProtocol::Halfblocks,
        "tmux wins over leaked kitty markers (conservative v1)"
    );
}

#[test]
fn picker_only_for_real_protocols() {
    assert!(picker_protocol(ImageProtocol::NoGraphics).is_none());
    for protocol in [
        ImageProtocol::Kitty,
        ImageProtocol::ITerm2,
        ImageProtocol::Sixel,
        ImageProtocol::Halfblocks,
    ] {
        assert!(picker_protocol(protocol).is_some());
    }
}

#[test]
fn inline_rows_respect_aspect_and_cap() {
    let wide = DynamicImage::new_rgb8(2000, 500);
    assert_eq!(ImageCache::inline_rows(&wide, 80), 10);
    let tall = DynamicImage::new_rgb8(100, 5000);
    assert_eq!(
        ImageCache::inline_rows(&tall, 80),
        MAX_INLINE_ROWS,
        "tall images cap at MAX_INLINE_ROWS"
    );
    assert_eq!(
        ImageCache::inline_rows(&wide, 0),
        1,
        "zero width degenerates"
    );
}

#[test]
fn rows_are_capped_at_both_ends() {
    assert_eq!(capped_rows(0), 1);
    assert_eq!(capped_rows(7), 7);
    assert_eq!(capped_rows(u16::MAX), MAX_INLINE_ROWS);
}

#[test]
fn bytes_that_are_no_image_are_not_kept() {
    let mut cache = ImageCache::default();
    assert!(cache.insert("a".to_string(), b"not an image").is_err());
    assert!(cache.get("a").is_none());
}

#[test]
fn a_decoded_image_is_kept() {
    let source = DynamicImage::new_rgb8(3, 2);
    let mut bytes = std::io::Cursor::new(Vec::new());
    source
        .write_to(&mut bytes, image::ImageFormat::Png)
        .expect("written");
    let mut cache = ImageCache::default();
    assert!(cache.insert("a".to_string(), bytes.get_ref()).is_ok());
    let kept = cache.get("a").expect("kept");
    assert_eq!((kept.source.width(), kept.source.height()), (3, 2));
    assert!(cache.get("b").is_none());
}

#[test]
fn an_attachment_is_decoded_and_kept() {
    let source = DynamicImage::new_rgb8(4, 5);
    let mut bytes = std::io::Cursor::new(Vec::new());
    source
        .write_to(&mut bytes, image::ImageFormat::Png)
        .expect("written");
    let text = base64::engine::general_purpose::STANDARD.encode(bytes.get_ref());
    let themes = ThemeRegistry { themes: vec![] };
    let mut app = App::new(Strings { en: vec![], zh: vec![] }, themes);
    app.set_graphics(true);
    app.on_attachment_done("at".to_string(), Ok(text));
    let kept = app.image_cache().get("at").expect("kept");
    assert_eq!((kept.source.width(), kept.source.height()), (4, 5));
    app.on_attachment_done("no".to_string(), Ok("%%%".to_string()));
    assert!(app.image_cache().get("no").is_none());
    assert!(app.toast_text().is_some());
}
