//! Inline images: which graphics protocol the terminal takes, and how many rows an image gets.
//!
//! The protocol is read off environment variables alone. Inside a terminal multiplexer nothing
//! is assumed to pass through: images become half-block cells there. An image whose bytes are
//! not at hand shows as its caption.

use vstd::prelude::*;

use image::DynamicImage;
use ratatui_image::picker::ProtocolType;

use crate::table::Table;
use crate::text::{begins_with, contains_text, lowered, same};

verus! {

/// The assumed width of a terminal cell in pixels.
pub const ASSUMED_FONT_WIDTH: u16 = 10;

/// The assumed height of a terminal cell in pixels.
pub const ASSUMED_FONT_HEIGHT: u16 = 20;

/// The most rows that an inline image takes.
pub const MAX_INLINE_ROWS: u16 = 12;

/// A graphics protocol, from the best to none.
#[derive(Debug, Clone, Copy, PartialEq, Eq, Structural)]
pub enum ImageProtocol {
    Kitty,
    ITerm2,
    Sixel,
    /// Colored half-block cells, which every terminal shows.
    Halfblocks,
    /// No graphics at all: the caption stands for the image.
    NoGraphics,
}

impl Default for ImageProtocol {
    fn default() -> (r: Self)
        ensures
            r == ImageProtocol::NoGraphics,
    {
        ImageProtocol::NoGraphics
    }
}

/// The value of a variable: that of its first entry.
pub open spec fn variable(vars: Seq<(&str, &str)>, key: Seq<char>) -> Option<Seq<char>>
    decreases vars.len(),
{
    if vars.len() == 0 {
        None
    } else if vars[0].0@ == key {
        Some(vars[0].1@)
    } else {
        variable(vars.drop_first(), key)
    }
}

/// Whether a variable is set to something.
pub open spec fn is_set(vars: Seq<(&str, &str)>, key: Seq<char>) -> bool {
    variable(vars, key) matches Some(v) && v.len() > 0
}

/// The value of a variable in lower case, empty where it is not set.
pub open spec fn lower_variable(vars: Seq<(&str, &str)>, key: Seq<char>) -> Seq<char> {
    match variable(vars, key) {
        Some(v) => crate::text::lower_text(v),
        None => Seq::empty(),
    }
}

/// The protocol that the environment tells of.
pub open spec fn protocol_of(vars: Seq<(&str, &str)>) -> ImageProtocol {
    let term = lower_variable(vars, "TERM"@);
    let program = lower_variable(vars, "TERM_PROGRAM"@);
    if is_set(vars, "TMUX"@) || "screen"@.is_prefix_of(term) || "tmux"@.is_prefix_of(term) {
        ImageProtocol::Halfblocks
    } else if crate::text::has_text(term, "kitty"@) || program == "kitty"@ || is_set(
        vars,
        "KITTY_WINDOW_ID"@,
    ) || crate::text::has_text(term, "ghostty"@) || program == "ghostty"@ || is_set(
        vars,
        "GHOSTTY_RESOURCES_DIR"@,
    ) {
        ImageProtocol::Kitty
    } else if program == "iterm.app"@ || is_set(vars, "ITERM_SESSION_ID"@) || program == "wezterm"@
        || is_set(vars, "WEZTERM_EXECUTABLE"@) {
        ImageProtocol::ITerm2
    } else if crate::text::has_text(term, "sixel"@) || "foot"@.is_prefix_of(term)
        || crate::text::has_text(term, "mlterm"@) || crate::text::has_text(term, "yaft"@) {
        ImageProtocol::Sixel
    } else if term.len() == 0 || term == "dumb"@ {
        ImageProtocol::NoGraphics
    } else {
        ImageProtocol::Halfblocks
    }
}

fn find_variable<'a>(vars: &[(&'a str, &'a str)], key: &str) -> (r: Option<&'a str>)
    ensures
        crate::text::opt_view(r) == variable(vars@, key@),
{
    proof {
        assert(vars@.skip(0) =~= vars@);
    }
    let mut i: usize = 0;
    while i < vars.len()
        invariant
            i <= vars.len(),
            variable(vars@, key@) == variable(vars@.skip(i as int), key@),
        decreases vars.len() - i,
    {
        proof {
            assert(vars@.skip(i as int)[0] == vars@[i as int]);
            assert(vars@.skip(i as int).drop_first() =~= vars@.skip(i + 1));
        }
        let (name, value) = vars[i];
        if same(name, key) {
            return Some(value);
        }
        i = i + 1;
    }
    None
}

fn has_value(vars: &[(&str, &str)], key: &str) -> (r: bool)
    ensures
        r == is_set(vars@, key@),
{
    match find_variable(vars, key) {
        Some(v) => !v.is_empty(),
        None => false,
    }
}

fn lower_value(vars: &[(&str, &str)], key: &str) -> (r: String)
    ensures
        r@ == lower_variable(vars@, key@),
{
    match find_variable(vars, key) {
        Some(v) => lowered(v),
        None => String::new(),
    }
}

/// The protocol that some environment variables, given by name and value, tell of.
pub fn detect_protocol_with(vars: &[(&str, &str)]) -> (r: ImageProtocol)
    ensures
        r == protocol_of(vars@),
{
    let term_text = lower_value(vars, "TERM");
    let program_text = lower_value(vars, "TERM_PROGRAM");
    let term = term_text.as_str();
    let program = program_text.as_str();
    if has_value(vars, "TMUX") || begins_with(term, "screen") || begins_with(term, "tmux") {
        ImageProtocol::Halfblocks
    } else if contains_text(term, "kitty") || same(program, "kitty") || has_value(
        vars,
        "KITTY_WINDOW_ID",
    ) || contains_text(term, "ghostty") || same(program, "ghostty") || has_value(
        vars,
        "GHOSTTY_RESOURCES_DIR",
    ) {
        ImageProtocol::Kitty
    } else if same(program, "iterm.app") || has_value(vars, "ITERM_SESSION_ID") || same(
        program,
        "wezterm",
    ) || has_value(vars, "WEZTERM_EXECUTABLE") {
        ImageProtocol::ITerm2
    } else if contains_text(term, "sixel") || begins_with(term, "foot") || contains_text(
        term,
        "mlterm",
    ) || contains_text(term, "yaft") {
        ImageProtocol::Sixel
    } else if term.is_empty() || same(term, "dumb") {
        ImageProtocol::NoGraphics
    } else {
        ImageProtocol::Halfblocks
    }
}

/// `ratatui_image::picker::ProtocolType`.
#[verifier::external_type_specification]
pub struct ExProtocolType(ProtocolType);

/// The protocol that images are prepared for; none where there are no graphics.
pub fn picker_protocol(protocol: ImageProtocol) -> (r: Option<ProtocolType>)
    ensures
        r == (match protocol {
            ImageProtocol::Kitty => Some(ProtocolType::Kitty),
            ImageProtocol::ITerm2 => Some(ProtocolType::Iterm2),
            ImageProtocol::Sixel => Some(ProtocolType::Sixel),
            ImageProtocol::Halfblocks => Some(ProtocolType::Halfblocks),
            ImageProtocol::NoGraphics => None,
        }),
{
    match protocol {
        ImageProtocol::Kitty => Some(ProtocolType::Kitty),
        ImageProtocol::ITerm2 => Some(ProtocolType::Iterm2),
        ImageProtocol::Sixel => Some(ProtocolType::Sixel),
        ImageProtocol::Halfblocks => Some(ProtocolType::Halfblocks),
        ImageProtocol::NoGraphics => None,
    }
}

/// `image::DynamicImage`: a decoded image.
#[verifier::external_type_specification]
#[verifier::external_body]
pub struct ExDynamicImage(DynamicImage);

/// The image that some bytes hold, or in words why they hold none.
pub uninterp spec fn decoded(bytes: Seq<u8>) -> Result<DynamicImage, Seq<char>>;

/// `image::load_from_memory`: decode an image, its format guessed from the bytes. The error is
/// handed on in words.
#[verifier::external_body]
fn decode(bytes: &[u8]) -> (r: Result<DynamicImage, String>)
    ensures
        match r {
            Ok(image) => decoded(bytes@) == Ok::<DynamicImage, Seq<char>>(image),
            Err(reason) => decoded(bytes@) == Err::<DynamicImage, Seq<char>>(reason@),
        },
{
    image::load_from_memory(bytes).map_err(|error| error.to_string())
}

/// The rows that an image takes where it is fitted into an area of terminal cells.
pub uninterp spec fn fitted_rows(
    image: DynamicImage,
    font_width: u16,
    font_height: u16,
    columns: u16,
    rows: u16,
) -> u16;

/// `ratatui_image::Resize::size_for` for a fit that keeps the aspect: the height of the result.
#[verifier::external_body]
fn fit_rows(
    image: &DynamicImage,
    font_width: u16,
    font_height: u16,
    columns: u16,
    rows: u16,
) -> (r: u16)
    ensures
        r == fitted_rows(*image, font_width, font_height, columns, rows),
{
    let font = ratatui_image::FontSize::new(font_width, font_height);
    let area = ratatui::layout::Size { width: columns, height: rows };
    ratatui_image::Resize::Fit(None).size_for(image, font, area).height
}

/// A number kept between two bounds.
pub open spec fn clamped(n: int, low: int, high: int) -> int {
    if n < low {
        low
    } else if n > high {
        high
    } else {
        n
    }
}

/// A decoded image, ready to draw.
pub struct LoadedImage {
    pub source: DynamicImage,
}

impl View for LoadedImage {
    type V = DynamicImage;

    open spec fn view(&self) -> DynamicImage {
        self.source
    }
}

/// The place of an inline image among a node's lines: `rows` empty lines from `line_index` on,
/// right below its caption.
#[derive(Debug, PartialEq, Eq)]
pub struct ImageRow {
    pub line_index: usize,
    pub attachment_id: String,
    pub rows: u16,
}

/// What an [`ImageRow`] stands for.
#[verifier::ext_equal]
pub struct ImageRowView {
    pub line_index: nat,
    pub attachment_id: Seq<char>,
    pub rows: u16,
}

impl View for ImageRow {
    type V = ImageRowView;

    open spec fn view(&self) -> ImageRowView {
        ImageRowView {
            line_index: self.line_index as nat,
            attachment_id: self.attachment_id@,
            rows: self.rows,
        }
    }
}

/// The decoded images by attachment.
pub struct ImageCache {
    map: Table<LoadedImage>,
}

impl View for ImageCache {
    type V = Map<Seq<char>, DynamicImage>;

    closed spec fn view(&self) -> Map<Seq<char>, DynamicImage> {
        self.map@
    }
}

impl Default for ImageCache {
    fn default() -> (r: Self)
        ensures
            r@ == Map::<Seq<char>, DynamicImage>::empty(),
    {
        ImageCache { map: Table::new() }
    }
}

/// The rows that an inline image takes at a width: fitted to it, at least one and at most
/// [`MAX_INLINE_ROWS`].
pub open spec fn rows_at(image: DynamicImage, width: u16) -> u16 {
    if width == 0 {
        1
    } else {
        clamped(
            fitted_rows(image, ASSUMED_FONT_WIDTH, ASSUMED_FONT_HEIGHT, width, u16::MAX) as int,
            1,
            MAX_INLINE_ROWS as int,
        ) as u16
    }
}

impl ImageCache {
    /// The image of an attachment.
    pub fn get(&self, id: &str) -> (r: Option<&LoadedImage>)
        ensures
            match r {
                Some(image) => self@.dom().contains(id@) && self@[id@] == image@,
                None => !self@.dom().contains(id@),
            },
    {
        self.map.get(id)
    }

    /// Decode an attachment and keep its image.
    pub fn insert(&mut self, id: String, bytes: &[u8]) -> (r: Result<(), String>)
        ensures
            match decoded(bytes@) {
                Ok(image) => r is Ok && final(self)@ == old(self)@.insert(id@, image),
                Err(reason) => r matches Err(e) && e@ == reason && final(self)@ == old(self)@,
            },
    {
        match decode(bytes) {
            Ok(source) => {
                self.map.insert(id, LoadedImage { source });
                Ok(())
            },
            Err(e) => Err(e),
        }
    }

    /// The rows that an inline image takes at a width.
    pub fn inline_rows(image: &DynamicImage, width: u16) -> (r: u16)
        ensures
            r == rows_at(*image, width),
            1 <= r <= MAX_INLINE_ROWS,
    {
        if width == 0 {
            return 1;
        }
        let rows = fit_rows(image, ASSUMED_FONT_WIDTH, ASSUMED_FONT_HEIGHT, width, u16::MAX);
        capped_rows(rows)
    }
}

/// The rows that an inline image takes, for the rows that a fit gives.
pub fn capped_rows(rows: u16) -> (r: u16)
    ensures
        r == clamped(rows as int, 1, MAX_INLINE_ROWS as int),
{
    if rows < 1 {
        1
    } else if rows > MAX_INLINE_ROWS {
        MAX_INLINE_ROWS
    } else {
        rows
    }
}

/// Inside a multiplexer images are half-block cells, whatever else the environment tells of.
pub proof fn law_multiplexer_wins(vars: Seq<(&str, &str)>)
    requires
        is_set(vars, "TMUX"@),
    ensures
        protocol_of(vars) == ImageProtocol::Halfblocks,
{
}

} // verus!
