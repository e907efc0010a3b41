//! Where everything stands on the screen.
//!
//! A screen that is wide enough has a sidebar at the left; one that is not has a drawer over
//! the chat. Beside the sidebar stand, from the top: the header, the chat, the queue, the
//! composer and two status lines.

use vstd::prelude::*;

use crate::app::mouse::line_at;
use crate::app::state::{Area, CellPos, TOO_SMALL_WIDTH, WIDE_WIDTH};
use crate::render::fit::wrapped_height;
use crate::render::row_cache::{RowCache, RowView};
use crate::render::width::cell_width;

verus! {

/// The width of the sidebar.
pub const SIDEBAR_WIDTH: u16 = 30;

/// The most columns that the drawer takes.
pub const DRAWER_WIDTH: u16 = 30;

/// The most rows that the composer takes, with its rule.
pub const COMPOSER_MAX_ROWS: u16 = 8;

/// The most columns that the approval dialog takes.
pub const DIALOG_WIDTH: u16 = 64;

/// The columns of the name on the screen that is too small.
pub const NAME_WIDTH: u16 = 7;

// ---------------------------------------------------------------------------
// splitting
// ---------------------------------------------------------------------------

/// The direction in which an area is split.
#[derive(Debug, Clone, Copy, PartialEq, Eq, Structural)]
pub enum Axis {
    Horizontal,
    Vertical,
}

/// The size of a part of an area: a number of cells, or a share of what is left.
#[derive(Debug, Clone, Copy, PartialEq, Eq, Structural)]
pub enum Extent {
    Length(u16),
    Fill(u16),
}

/// The cells that the parts of a fixed size want together.
pub open spec fn lengths(extents: Seq<Extent>) -> int
    decreases extents.len(),
{
    if extents.len() == 0 {
        0
    } else {
        lengths(extents.drop_last()) + (match extents.last() {
            Extent::Length(n) => n as int,
            Extent::Fill(_) => 0,
        })
    }
}

/// How many parts take what is left.
pub open spec fn fills(extents: Seq<Extent>) -> nat
    decreases extents.len(),
{
    if extents.len() == 0 {
        0
    } else {
        fills(extents.drop_last()) + (if extents.last() is Fill {
            1nat
        } else {
            0
        })
    }
}

/// What is left of a size when the parts of a fixed size and the spaces between all parts are
/// taken from it.
pub open spec fn rest(size: int, extents: Seq<Extent>, spacing: int) -> int {
    size - lengths(extents) - spacing * (extents.len() - 1)
}

/// The size of a part, where one part takes all that is left.
pub open spec fn size_at(extents: Seq<Extent>, i: int, left: int) -> int {
    match extents[i] {
        Extent::Length(n) => n as int,
        Extent::Fill(_) => left,
    }
}

/// Where a part begins, counted from the beginning of the area.
pub open spec fn start_at(extents: Seq<Extent>, i: int, left: int, spacing: int) -> int
    decreases i,
{
    if i <= 0 {
        0
    } else {
        start_at(extents, i - 1, left, spacing) + size_at(extents, i - 1, left) + spacing
    }
}

impl Area {
    /// The size in a direction.
    pub open spec fn size_along(self, axis: Axis) -> int {
        match axis {
            Axis::Horizontal => self.width as int,
            Axis::Vertical => self.height as int,
        }
    }

    /// A part of the area across its other direction.
    pub open spec fn slice(self, axis: Axis, start: int, size: int) -> Area {
        match axis {
            Axis::Horizontal => Area {
                x: (self.x + start) as u16,
                width: size as u16,
                ..self
            },
            Axis::Vertical => Area { y: (self.y + start) as u16, height: size as u16, ..self },
        }
    }

    /// Whether an area lies inside this one.
    pub open spec fn encloses(self, inner: Area) -> bool {
        &&& self.x <= inner.x && inner.x + inner.width <= self.x + self.width
        &&& self.y <= inner.y && inner.y + inner.height <= self.y + self.height
    }
}

/// `ratatui::layout::Layout::split`: an area split in a direction, with spaces between the
/// parts. There is one part for each size, each inside the area. Where exactly one part takes
/// what is left, and the others and the spaces fit, each part has its size and they follow one
/// another. Where they do not fit, which part gives way is left unsaid: the solver behind it
/// walks hash maps.
#[verifier::external_body]
fn split(area: Area, axis: Axis, extents: &Vec<Extent>, spacing: u16) -> (r: Vec<Area>)
    requires
        area.x + area.width <= u16::MAX,
        area.y + area.height <= u16::MAX,
        spacing <= i16::MAX,
    ensures
        r@.len() == extents@.len(),
        forall|i: int| 0 <= i < r@.len() ==> area.encloses(#[trigger] r@[i]),
        fills(extents@) == 1 && rest(area.size_along(axis), extents@, spacing as int) >= 0
            ==> forall|i: int|
            0 <= i < r@.len() ==> #[trigger] r@[i] == area.slice(
                axis,
                start_at(
                    extents@,
                    i,
                    rest(area.size_along(axis), extents@, spacing as int),
                    spacing as int,
                ),
                size_at(extents@, i, rest(area.size_along(axis), extents@, spacing as int)),
            ),
{
    let rect = ratatui::layout::Rect::new(area.x, area.y, area.width, area.height);
    let direction = match axis {
        Axis::Horizontal => ratatui::layout::Direction::Horizontal,
        Axis::Vertical => ratatui::layout::Direction::Vertical,
    };
    let constraints = extents.iter().map(|extent| match extent {
        Extent::Length(n) => ratatui::layout::Constraint::Length(*n),
        Extent::Fill(n) => ratatui::layout::Constraint::Fill(*n),
    });
    let parts = ratatui::layout::Layout::new(direction, constraints).spacing(spacing).split(rect);
    parts.iter().map(|p| Area { x: p.x, y: p.y, width: p.width, height: p.height }).collect()
}

// ---------------------------------------------------------------------------
// the panes
// ---------------------------------------------------------------------------

/// The panes of the chat screen.
#[derive(Debug, Clone, Copy, PartialEq, Eq, Structural)]
pub struct Panes {
    pub sidebar: Area,
    /// Everything beside the sidebar.
    pub right: Area,
    pub header: Area,
    pub chat: Area,
    pub queue: Area,
    pub composer: Area,
    /// The upper status line.
    pub meta: Area,
    /// The lower status line.
    pub status: Area,
}

/// The columns of the sidebar: none where the screen is narrow, one where it is folded.
pub open spec fn sidebar_columns(width: u16, collapsed: bool) -> u16 {
    if width < WIDE_WIDTH {
        0
    } else if collapsed {
        1
    } else {
        SIDEBAR_WIDTH
    }
}

/// The columns of the sidebar.
pub fn sidebar_width(width: u16, collapsed: bool) -> (r: u16)
    ensures
        r == sidebar_columns(width, collapsed),
{
    if width < WIDE_WIDTH {
        0
    } else if collapsed {
        1
    } else {
        SIDEBAR_WIDTH
    }
}

/// The columns between the sidebar and the rest: one, where the screen is wide.
pub open spec fn gap(width: u16) -> u16 {
    if width >= WIDE_WIDTH {
        1
    } else {
        0
    }
}

/// The whole screen.
pub open spec fn whole(width: u16, height: u16) -> Area {
    Area { x: 0, y: 0, width, height }
}

/// The panes of a screen on which everything has room.
pub open spec fn roomy_panes(
    width: u16,
    height: u16,
    sidebar: u16,
    header: u16,
    queue: u16,
    composer: u16,
) -> Panes {
    let x = (sidebar + gap(width)) as u16;
    let w = (width - sidebar - gap(width)) as u16;
    let chat = (height - header - queue - composer - 2) as u16;
    Panes {
        sidebar: Area { x: 0, y: 0, width: sidebar, height },
        right: Area { x, y: 0, width: w, height },
        header: Area { x, y: 0, width: w, height: header },
        chat: Area { x, y: header, width: w, height: chat },
        queue: Area { x, y: (header + chat) as u16, width: w, height: queue },
        composer: Area { x, y: (header + chat + queue) as u16, width: w, height: composer },
        meta: Area { x, y: (height - 2) as u16, width: w, height: 1 },
        status: Area { x, y: (height - 1) as u16, width: w, height: 1 },
    }
}

impl Panes {
    /// Whether every pane lies on the screen.
    pub open spec fn on_screen(self, width: u16, height: u16) -> bool {
        let screen = whole(width, height);
        &&& screen.encloses(self.sidebar)
        &&& screen.encloses(self.right)
        &&& screen.encloses(self.header)
        &&& screen.encloses(self.chat)
        &&& screen.encloses(self.queue)
        &&& screen.encloses(self.composer)
        &&& screen.encloses(self.meta)
        &&& screen.encloses(self.status)
    }
}

/// The panes of a screen. Where everything has room, each has the rows it asks for and the chat
/// has the rest; every pane lies on the screen in any case.
pub fn panes(width: u16, height: u16, sidebar: u16, header: u16, queue: u16, composer: u16) -> (r:
    Panes)
    ensures
        r.on_screen(width, height),
        sidebar + gap(width) <= width && header + queue + composer + 2 <= height ==> r
            == roomy_panes(width, height, sidebar, header, queue, composer),
{
    let spacing: u16 = if width >= WIDE_WIDTH {
        1
    } else {
        0
    };
    let mut columns: Vec<Extent> = Vec::new();
    columns.push(Extent::Length(sidebar));
    columns.push(Extent::Fill(1));
    let screen = Area { x: 0, y: 0, width, height };
    let halves = split(screen, Axis::Horizontal, &columns, spacing);
    proof {
        reveal_with_fuel(lengths, 3);
        reveal_with_fuel(fills, 3);
        reveal_with_fuel(start_at, 3);
        assert(columns@.drop_last().drop_last().len() == 0);
        assert(columns@.drop_last().last() == Extent::Length(sidebar));
        assert(fills(columns@) == 1);
        assert(lengths(columns@) == sidebar);
        assert(screen.encloses(halves@[0]));
        assert(screen.encloses(halves@[1]));
    }
    let right = halves[1];
    let mut rows: Vec<Extent> = Vec::new();
    rows.push(Extent::Length(header));
    rows.push(Extent::Fill(1));
    rows.push(Extent::Length(queue));
    rows.push(Extent::Length(composer));
    rows.push(Extent::Length(1));
    rows.push(Extent::Length(1));
    let parts = split(right, Axis::Vertical, &rows, 0);
    proof {
        reveal_with_fuel(lengths, 7);
        reveal_with_fuel(fills, 7);
        reveal_with_fuel(start_at, 7);
        let d1 = rows@.drop_last();
        let d2 = d1.drop_last();
        let d3 = d2.drop_last();
        let d4 = d3.drop_last();
        let d5 = d4.drop_last();
        assert(d1.last() == Extent::Length(1));
        assert(d2.last() == Extent::Length(composer));
        assert(d3.last() == Extent::Length(queue));
        assert(d4.last() == Extent::Fill(1));
        assert(d5.last() == Extent::Length(header));
        assert(d5.drop_last().len() == 0);
        assert(fills(rows@) == 1);
        assert(lengths(rows@) == header + queue + composer + 2);
        assert(right.encloses(parts@[0]));
        assert(right.encloses(parts@[1]));
        assert(right.encloses(parts@[2]));
        assert(right.encloses(parts@[3]));
        assert(right.encloses(parts@[4]));
        assert(right.encloses(parts@[5]));
    }
    Panes {
        sidebar: halves[0],
        right,
        header: parts[0],
        chat: parts[1],
        queue: parts[2],
        composer: parts[3],
        meta: parts[4],
        status: parts[5],
    }
}

/// On a screen with room for everything, the panes beside the sidebar follow one another from
/// its top to its bottom: no row is lost and none is shown twice.
pub proof fn law_panes_tile(
    width: u16,
    height: u16,
    sidebar: u16,
    header: u16,
    queue: u16,
    composer: u16,
)
    requires
        sidebar + gap(width) <= width,
        header + queue + composer + 2 <= height,
    ensures
        ({
            let p = roomy_panes(width, height, sidebar, header, queue, composer);
            &&& p.header.y == 0
            &&& p.chat.y == p.header.y + p.header.height
            &&& p.queue.y == p.chat.y + p.chat.height
            &&& p.composer.y == p.queue.y + p.queue.height
            &&& p.meta.y == p.composer.y + p.composer.height
            &&& p.status.y == p.meta.y + p.meta.height
            &&& p.status.y + p.status.height == height
            &&& p.sidebar.width + gap(width) + p.right.width == width
        }),
{
}

/// The rows of the composer: its rule and its lines, as far as a limit and
/// [`COMPOSER_MAX_ROWS`] allow.
pub open spec fn composer_rows(lines: nat, limit: u16) -> u16 {
    let wanted = lines + 1;
    let most = if limit < COMPOSER_MAX_ROWS {
        limit
    } else {
        COMPOSER_MAX_ROWS
    };
    if wanted <= most {
        wanted as u16
    } else {
        most
    }
}

/// The rows of the composer.
pub fn composer_height(lines: usize, limit: u16) -> (r: u16)
    ensures
        r == composer_rows(lines as nat, limit),
{
    let most = if limit < COMPOSER_MAX_ROWS {
        limit
    } else {
        COMPOSER_MAX_ROWS
    };
    if lines < most as usize {
        lines as u16 + 1
    } else {
        most
    }
}

/// The drawer: over the left of a narrow screen, at its full height, while it is open.
pub open spec fn drawer_at(width: u16, height: u16, open: bool) -> Area {
    if width < WIDE_WIDTH && open {
        Area {
            x: 0,
            y: 0,
            width: if width < DRAWER_WIDTH {
                width
            } else {
                DRAWER_WIDTH
            },
            height,
        }
    } else {
        Area::none()
    }
}

/// The drawer.
pub fn drawer_area(width: u16, height: u16, open: bool) -> (r: Area)
    ensures
        r == drawer_at(width, height, open),
{
    if width < WIDE_WIDTH && open {
        Area {
            x: 0,
            y: 0,
            width: if width < DRAWER_WIDTH {
                width
            } else {
                DRAWER_WIDTH
            },
            height,
        }
    } else {
        Area { x: 0, y: 0, width: 0, height: 0 }
    }
}

impl Area {
    /// What is left inside a border of one cell.
    pub open spec fn bordered(self) -> Area {
        if self.width < 2 || self.height < 2 {
            Area::none()
        } else {
            Area {
                x: crate::app::mouse::plus(self.x, 1),
                y: crate::app::mouse::plus(self.y, 1),
                width: (self.width - 2) as u16,
                height: (self.height - 2) as u16,
            }
        }
    }

    /// What is left inside a border of one cell.
    pub fn inside_border(&self) -> (r: Area)
        ensures
            r == self.bordered(),
    {
        if self.width < 2 || self.height < 2 {
            Area { x: 0, y: 0, width: 0, height: 0 }
        } else {
            Area {
                x: self.x.saturating_add(1),
                y: self.y.saturating_add(1),
                width: self.width - 2,
                height: self.height - 2,
            }
        }
    }
}

/// Where the sidebar takes the mouse: inside the drawer on a narrow screen, else on its pane.
pub open spec fn sidebar_hit(width: u16, height: u16, open: bool, pane: Area) -> Area {
    if width < WIDE_WIDTH {
        if drawer_at(width, height, open).width > 0 {
            drawer_at(width, height, open).bordered()
        } else {
            Area::none()
        }
    } else {
        pane
    }
}

/// Where the sidebar takes the mouse.
pub fn sidebar_target(width: u16, height: u16, open: bool, pane: Area) -> (r: Area)
    ensures
        r == sidebar_hit(width, height, open, pane),
{
    if width < WIDE_WIDTH {
        let drawer = drawer_area(width, height, open);
        if drawer.width > 0 {
            drawer.inside_border()
        } else {
            Area { x: 0, y: 0, width: 0, height: 0 }
        }
    } else {
        pane
    }
}

/// Where the left half of the status line begins: behind the drawer, while it is open.
pub fn status_left(area: Area, width: u16, drawer_open: bool) -> (r: Area)
    ensures
        r == (if drawer_open {
            Area {
                x: crate::app::mouse::plus(
                    area.x,
                    if width < DRAWER_WIDTH {
                        width as int
                    } else {
                        DRAWER_WIDTH as int
                    },
                ),
                ..area
            }
        } else {
            area
        }),
{
    if drawer_open {
        let covered = if width < DRAWER_WIDTH {
            width
        } else {
            DRAWER_WIDTH
        };
        Area { x: area.x.saturating_add(covered), y: area.y, width: area.width, height: area.height }
    } else {
        area
    }
}

/// The halves of a status line: the right one as wide as it has to be, the left one the rest.
pub fn status_halves(area: Area, right: u16) -> (r: (Area, Area))
    requires
        area.x + area.width <= u16::MAX,
        area.y + area.height <= u16::MAX,
    ensures
        area.encloses(r.0),
        area.encloses(r.1),
        right <= area.width ==> {
            &&& r.0 == Area { width: (area.width - right) as u16, ..area }
            &&& r.1 == Area {
                x: (area.x + area.width - right) as u16,
                width: right,
                ..area
            }
        },
{
    let mut columns: Vec<Extent> = Vec::new();
    columns.push(Extent::Fill(1));
    columns.push(Extent::Length(right));
    let halves = split(area, Axis::Horizontal, &columns, 0);
    proof {
        reveal_with_fuel(lengths, 3);
        reveal_with_fuel(fills, 3);
        reveal_with_fuel(start_at, 3);
        assert(columns@.drop_last().drop_last().len() == 0);
        assert(columns@.drop_last().last() == Extent::Fill(1));
        assert(fills(columns@) == 1);
        assert(lengths(columns@) == right);
        assert(area.encloses(halves@[0]));
        assert(area.encloses(halves@[1]));
    }
    (halves[0], halves[1])
}

// ---------------------------------------------------------------------------
// what floats over the panes
// ---------------------------------------------------------------------------

/// Half of what is left beside something.
pub open spec fn margin(outer: u16, inner: u16) -> int {
    crate::app::mouse::minus(outer, inner as int) as int / 2
}

/// The smaller of two sizes.
pub open spec fn smaller(a: u16, b: u16) -> u16 {
    if a < b {
        a
    } else {
        b
    }
}

fn least(a: u16, b: u16) -> (r: u16)
    ensures
        r == smaller(a, b),
{
    if a < b {
        a
    } else {
        b
    }
}

/// Something of a size in the middle of an area.
pub open spec fn centred(area: Area, width: u16, height: u16) -> Area {
    Area {
        x: crate::app::mouse::plus(area.x, margin(area.width, width)),
        y: crate::app::mouse::plus(area.y, margin(area.height, height)),
        width,
        height: smaller(height, area.height),
    }
}

/// Something of a size in the middle of an area: over the sidebar or the whole screen.
pub fn centred_over(area: Area, width: u16, height: u16) -> (r: Area)
    ensures
        r == centred(area, width, height),
{
    Area {
        x: area.x.saturating_add(area.width.saturating_sub(width) / 2),
        y: area.y.saturating_add(area.height.saturating_sub(height) / 2),
        width,
        height: least(height, area.height),
    }
}

/// Something of a size above a row, in the middle of the columns of an area: the theme picker,
/// the launcher and the new-session picker.
pub fn centred_above(area: Area, row: u16, width: u16, height: u16) -> (r: Area)
    ensures
        r == (Area {
            x: crate::app::mouse::plus(area.x, margin(area.width, width)),
            y: crate::app::mouse::minus(row, height as int),
            width,
            height: smaller(height, row),
        }),
{
    Area {
        x: area.x.saturating_add(area.width.saturating_sub(width) / 2),
        y: row.saturating_sub(height),
        width,
        height: least(height, row),
    }
}

/// Something of a size above a row, at the left of an area: the list of the composer.
pub fn docked_above(area: Area, row: u16, width: u16, height: u16) -> (r: Area)
    ensures
        r == (Area {
            x: area.x,
            y: crate::app::mouse::minus(row, height as int),
            width,
            height: smaller(height, row),
        }),
{
    Area { x: area.x, y: row.saturating_sub(height), width, height: least(height, row) }
}

/// The row that the queue docks above: that of its strip, or of the composer where it has none.
pub fn queue_anchor(panes: &Panes) -> (r: u16)
    ensures
        r == (if panes.queue.height > 0 {
            panes.queue.y
        } else {
            panes.composer.y
        }),
{
    if panes.queue.height > 0 {
        panes.queue.y
    } else {
        panes.composer.y
    }
}

/// What stands above a row ends at that row, where there is room for it.
pub proof fn law_above(row: u16, height: u16)
    requires
        height <= row,
    ensures
        crate::app::mouse::minus(row, height as int) + smaller(height, row) == row,
{
}

/// The rows that some texts take at a width.
pub open spec fn wrapped_rows(texts: Seq<Seq<char>>, width: nat) -> nat
    decreases texts.len(),
{
    if texts.len() == 0 {
        0
    } else {
        wrapped_rows(texts.drop_last(), width) + crate::render::fit::wrapped_rows(
            texts.last(),
            width,
        )
    }
}

fn rows_of(texts: &Vec<String>, width: u16) -> (r: u128)
    ensures
        r == wrapped_rows(crate::text::views(texts@), width as nat),
        r <= texts@.len() * usize::MAX,
{
    let ghost all = crate::text::views(texts@);
    let mut total: u128 = 0;
    let mut i: usize = 0;
    while i < texts.len()
        invariant
            i <= texts@.len(),
            all == crate::text::views(texts@),
            total == wrapped_rows(all.take(i as int), width as nat),
            total <= i * usize::MAX,
        decreases texts.len() - i,
    {
        proof {
            assert(all.take(i + 1).drop_last() =~= all.take(i as int));
            assert(all.take(i + 1).last() == texts@[i as int]@);
            assert(i * usize::MAX + usize::MAX == (i + 1) * usize::MAX) by (nonlinear_arith);
            assert((i + 1) * usize::MAX <= usize::MAX * usize::MAX) by (nonlinear_arith)
                requires
                    i + 1 <= usize::MAX,
            ;
            assert(usize::MAX * usize::MAX <= 0xffff_ffff_ffff_ffff * 0xffff_ffff_ffff_ffff)
                by (nonlinear_arith)
                requires
                    usize::MAX <= 0xffff_ffff_ffff_ffff,
            ;
        }
        total = total + wrapped_height(texts[i].as_str(), width) as u128;
        i = i + 1;
    }
    proof {
        assert(all.take(i as int) =~= all);
    }
    total
}

/// The width of the approval dialog.
pub open spec fn dialog_width(chat: Area) -> u16 {
    smaller(DIALOG_WIDTH, crate::app::mouse::minus(chat.width, 4))
}

/// The rows of the approval dialog, with its border, where its lines take some rows.
pub open spec fn dialog_height(chat: Area, rows: nat) -> u16 {
    let wanted = if rows + 2 < chat.height {
        rows + 2
    } else {
        chat.height as nat
    };
    if wanted < 3 {
        3
    } else {
        wanted as u16
    }
}

/// Whether the approval dialog leaves its hints out: with them it is higher than the chat.
pub open spec fn dialog_short(chat: Area, lines: Seq<Seq<char>>) -> bool {
    2 + wrapped_rows(lines, crate::app::mouse::minus(dialog_width(chat), 4) as nat) > chat.height
}

/// The approval dialog, in the middle of the chat, and whether it leaves its hints out. `short`
/// are its lines without them.
pub fn dialog_area(chat: Area, lines: &Vec<String>, short: &Vec<String>) -> (r: (Area, bool))
    ensures
        r.1 == dialog_short(chat, crate::text::views(lines@)),
        r.0 == (Area {
            x: crate::app::mouse::plus(chat.x, margin(chat.width, dialog_width(chat))),
            y: crate::app::mouse::plus(chat.y, margin(chat.height, r.0.height)),
            width: dialog_width(chat),
            height: dialog_height(
                chat,
                wrapped_rows(
                    crate::text::views(
                        if r.1 {
                            short@
                        } else {
                            lines@
                        },
                    ),
                    crate::app::mouse::minus(dialog_width(chat), 4) as nat,
                ),
            ),
        }),
{
    let width = least(DIALOG_WIDTH, chat.width.saturating_sub(4));
    let inner = width.saturating_sub(4);
    let full = rows_of(lines, inner);
    let compact = full > (chat.height as u128) || full + 2 > chat.height as u128;
    let rows = if compact {
        rows_of(short, inner)
    } else {
        full
    };
    let limit = chat.height as u128;
    let wanted = if rows < limit && rows + 2 < limit {
        (rows + 2) as u16
    } else {
        chat.height
    };
    let height: u16 = if wanted < 3 {
        3
    } else {
        wanted
    };
    let area = Area {
        x: chat.x.saturating_add(chat.width.saturating_sub(width) / 2),
        y: chat.y.saturating_add(chat.height.saturating_sub(height) / 2),
        width,
        height,
    };
    (area, compact)
}

// ---------------------------------------------------------------------------
// the selection
// ---------------------------------------------------------------------------

/// A width in cells, as far as a screen reaches.
pub open spec fn screen_width(columns: nat) -> u16 {
    if columns <= u16::MAX {
        columns as u16
    } else {
        u16::MAX
    }
}

/// The cells of a row of the chat that a selection covers: no more than its line has.
pub open spec fn highlight(
    rows: Seq<RowView>,
    offset: int,
    start: CellPos,
    end: CellPos,
    content: Area,
    row: int,
) -> Option<Area> {
    if row >= content.height {
        None
    } else {
        match crate::app::mouse::nth_line(rows, 0, offset + row) {
            Some(line) => {
                let line_width = screen_width(crate::render::width::spans_columns(line.spans));
                let (from, to) = crate::app::mouse::covered(start, end, row);
                let first = smaller(from as u16, line_width);
                let last = smaller(to as u16, line_width);
                if last <= first {
                    None
                } else {
                    Some(
                        Area {
                            x: crate::app::mouse::plus(content.x, first as int),
                            y: crate::app::mouse::plus(content.y, row),
                            width: (last - first) as u16,
                            height: 1,
                        },
                    )
                }
            },
            None => None,
        }
    }
}

/// The cells of the rows before row `n` that a selection covers.
pub open spec fn highlights(
    rows: Seq<RowView>,
    offset: int,
    start: CellPos,
    end: CellPos,
    content: Area,
    n: int,
) -> Seq<Area>
    decreases n - start.row,
{
    if n <= start.row {
        Seq::empty()
    } else {
        let before = highlights(rows, offset, start, end, content, n - 1);
        match highlight(rows, offset, start, end, content, n - 1) {
            Some(area) => before.push(area),
            None => before,
        }
    }
}

fn highlight_row(
    cache: &RowCache,
    offset: usize,
    start: CellPos,
    end: CellPos,
    content: Area,
    row: u16,
) -> (r: Option<Area>)
    ensures
        r == highlight(cache@.rows, offset as int, start, end, content, row as int),
{
    if row >= content.height {
        return None;
    }
    match line_at(cache, offset, row) {
        Some(line) => {
            let columns = cell_width(&line.spans);
            let line_width: u16 = if columns <= u16::MAX as usize {
                columns as u16
            } else {
                u16::MAX
            };
            let from: u16 = if row == start.row {
                start.col
            } else {
                0
            };
            let to: u16 = if row == end.row {
                end.col
            } else {
                u16::MAX
            };
            let first = least(from, line_width);
            let last = least(to, line_width);
            if last <= first {
                None
            } else {
                Some(
                    Area {
                        x: content.x.saturating_add(first),
                        y: content.y.saturating_add(row),
                        width: last - first,
                        height: 1,
                    },
                )
            }
        },
        None => None,
    }
}

/// The cells that a selection covers on the screen, row by row.
pub fn selection_areas(
    cache: &RowCache,
    offset: usize,
    anchor: CellPos,
    current: CellPos,
    content: Area,
) -> (r: Vec<Area>)
    ensures
        ({
            let (start, end) = crate::app::mouse::in_order(anchor, current);
            r@ == highlights(cache@.rows, offset as int, start, end, content, end.row + 1)
        }),
{
    let (start, end) = if anchor.row < current.row || (anchor.row == current.row && anchor.col
        <= current.col) {
        (anchor, current)
    } else {
        (current, anchor)
    };
    let mut out: Vec<Area> = Vec::new();
    let mut row: u32 = start.row as u32;
    let stop: u32 = end.row as u32 + 1;
    while row < stop
        invariant
            start.row <= row <= stop,
            stop == end.row + 1,
            stop <= 0x1_0000,
            out@ == highlights(cache@.rows, offset as int, start, end, content, row as int),
        decreases stop - row,
    {
        match highlight_row(cache, offset, start, end, content, row as u16) {
            Some(area) => out.push(area),
            None => {},
        }
        row = row + 1;
    }
    out
}

// ---------------------------------------------------------------------------
// the screen that is too small
// ---------------------------------------------------------------------------

/// Where the three rows of the screen that is too small stand: the name and the two texts, one
/// below the other, in the middle.
#[derive(Debug, Clone, Copy, PartialEq, Eq, Structural)]
pub struct TooSmall {
    pub x: u16,
    pub y: u16,
    pub title_x: u16,
    pub hint_x: u16,
}

/// The larger of two sizes.
pub open spec fn larger(a: u16, b: u16) -> u16 {
    if a < b {
        b
    } else {
        a
    }
}

/// Where the three rows of the screen that is too small stand, in the middle of it.
pub fn too_small(width: u16, height: u16, title: u16, hint: u16) -> (r: TooSmall)
    ensures
        ({
            let block = larger(larger(NAME_WIDTH, title), hint);
            &&& r.x == margin(width, block)
            &&& r.y == margin(height, 3)
            &&& r.title_x == crate::app::mouse::plus(r.x, (block - title) / 2)
            &&& r.hint_x == crate::app::mouse::plus(r.x, (block - hint) / 2)
        }),
{
    let mut block = NAME_WIDTH;
    if title > block {
        block = title;
    }
    if hint > block {
        block = hint;
    }
    let x = width.saturating_sub(block) / 2;
    TooSmall {
        x,
        y: height.saturating_sub(3) / 2,
        title_x: x.saturating_add((block - title) / 2),
        hint_x: x.saturating_add((block - hint) / 2),
    }
}

/// Whether a screen is too small for anything else.
pub fn is_too_small(width: u16) -> (r: bool)
    ensures
        r == (width < TOO_SMALL_WIDTH),
{
    width < TOO_SMALL_WIDTH
}

} // verus!
