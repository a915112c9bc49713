//! The frame around the content: panes, the splitter, scrollbars, the tab bar
//! and the status bar.
//!
//! Each of these draws itself *and* records where it landed, in the same call.
//! The rectangle is in hand at draw time, so hit testing asks which rectangle
//! holds a position, and draw order is z order. Nothing has to be kept in step
//! with anything.

use crate::geometry::{least, less, max_usize, min_usize, most, Position, Rect};
use crate::hit::{
    grab_area, grabbed, nothing_above, target_at, what_is_elsewhere_changes_nothing,
    what_is_recorded_on_top_is_found, ButtonId, PaneId, ScrollPart, SplitId, Target, Z_BASE,
    Z_CHROME,
};
use crate::ids::TabId;
use crate::model::{BusyItem, Snapshot};
use crate::paint::{styled, BorderKind, Canvas, CanvasView, Color, Span, SpanView, Style};
use crate::search::views;
use crate::state::{TabView, UiView};
use crate::text::{
    chars_of, copy_of, decimal, display_columns, display_width, push_all, push_decimal,
};
use crate::ui::{OpenTab, UiState, MIN_PANE_WIDTH};
use vstd::prelude::*;
use vstd::string::StrSliceExecFns;

verus! {

/// Below this the layout stops being a layout, so one message is drawn instead
/// of five broken widgets.
pub const MIN_WIDTH: u16 = 60;

pub const MIN_HEIGHT: u16 = 20;

/// What the grid keeps of the screen whatever the pane under it asks for: its
/// border, its header and a few rows to choose a cell from.
pub const MIN_GRID_HEIGHT: u16 = 6;

/// Where each part of the screen ended up.
#[derive(Debug, Clone, Copy, PartialEq, Eq, Structural)]
pub struct Frames {
    pub tab_bar: Rect,
    pub explorer: Rect,
    pub splitter: Rect,
    pub grid: Rect,
    /// The rows under the grid, which are none while the pane is closed.
    pub detail: Rect,
    pub status_bar: Rect,
}

// ── dividing the screen ────────────────────────────────────────────────────

/// Rows of an area: `height` of them, `from` the top.
pub open spec fn rows_of(area: Rect, from: int, height: int) -> Rect {
    Rect { x: area.x, y: (area.y + from) as u16, width: area.width, height: height as u16 }
}

/// Columns of an area: `width` of them, `from` the left.
pub open spec fn columns_from(area: Rect, from: int, width: int) -> Rect {
    Rect { x: (area.x + from) as u16, y: area.y, width: width as u16, height: area.height }
}

/// The areas that `ratatui::layout::Layout::vertical` gives the constraints
/// `Length(top)`, `Min(middle)`, `Length(bottom)`.
///
/// Every part keeps to the area, and takes its full width. Where there is room
/// for all three, the outer two have their lengths and the one between them
/// has the rest; nothing is said of how a shortage is shared, which is the
/// solver's affair.
#[verifier::external_body]
fn split_rows(area: Rect, top: u16, middle: u16, bottom: u16) -> (r: (Rect, Rect, Rect))
    requires
        area.fits(),
        middle <= i16::MAX,
    ensures
        r.0.within(area) && r.1.within(area) && r.2.within(area),
        r.0.x == area.x && r.1.x == area.x && r.2.x == area.x,
        r.0.width == area.width && r.1.width == area.width && r.2.width == area.width,
        top + middle + bottom <= area.height ==> {
            &&& r.0 == rows_of(area, 0, top as int)
            &&& r.1 == rows_of(area, top as int, area.height - top - bottom)
            &&& r.2 == rows_of(area, area.height - bottom, bottom as int)
        },
{
    let [a, b, c] = ratatui::layout::Layout::vertical([
        ratatui::layout::Constraint::Length(top),
        ratatui::layout::Constraint::Min(middle),
        ratatui::layout::Constraint::Length(bottom),
    ]).areas(ratatui::layout::Rect::new(area.x, area.y, area.width, area.height));
    (
        Rect { x: a.x, y: a.y, width: a.width, height: a.height },
        Rect { x: b.x, y: b.y, width: b.width, height: b.height },
        Rect { x: c.x, y: c.y, width: c.width, height: c.height },
    )
}

/// The areas that `ratatui::layout::Layout::horizontal` gives the constraints
/// `Length(first)`, `Length(second)`, `Min(rest)`.
///
/// Every part keeps to the area, and takes its full height. Where there is
/// room for all three, the first two have their lengths and the last has the
/// rest; nothing is said of how a shortage is shared, which is the solver's
/// affair.
#[verifier::external_body]
fn split_columns(area: Rect, first: u16, second: u16, rest: u16) -> (r: (Rect, Rect, Rect))
    requires
        area.fits(),
        rest <= i16::MAX,
    ensures
        r.0.within(area) && r.1.within(area) && r.2.within(area),
        r.0.y == area.y && r.1.y == area.y && r.2.y == area.y,
        r.0.height == area.height && r.1.height == area.height && r.2.height == area.height,
        first + second + rest <= area.width ==> {
            &&& r.0 == columns_from(area, 0, first as int)
            &&& r.1 == columns_from(area, first as int, second as int)
            &&& r.2 == columns_from(area, first + second, area.width - first - second)
        },
{
    let [a, b, c] = ratatui::layout::Layout::horizontal([
        ratatui::layout::Constraint::Length(first),
        ratatui::layout::Constraint::Length(second),
        ratatui::layout::Constraint::Min(rest),
    ]).areas(ratatui::layout::Rect::new(area.x, area.y, area.width, area.height));
    (
        Rect { x: a.x, y: a.y, width: a.width, height: a.height },
        Rect { x: b.x, y: b.y, width: b.width, height: b.height },
        Rect { x: c.x, y: c.y, width: c.width, height: c.height },
    )
}

/// Whether the terminal is too small to lay out at all.
pub open spec fn cramped(area: Rect) -> bool {
    area.width < MIN_WIDTH || area.height < MIN_HEIGHT
}

impl Frames {
    /// The screen from its parts: the detail pane takes its rows off the
    /// bottom of the right hand column, and the grid keeps the others.
    pub open spec fn of(rows: (Rect, Rect, Rect), columns: (Rect, Rect, Rect), detail: int) -> Frames {
        Frames {
            tab_bar: rows.0,
            explorer: columns.0,
            splitter: columns.1,
            grid: rows_of(columns.2, 0, columns.2.height - detail),
            detail: rows_of(columns.2, columns.2.height - detail, detail),
            status_bar: rows.2,
        }
    }

    /// The screen laid out with room for everything on it, which takes a row for
    /// each bar and one between them, and the columns of one pane and the
    /// splitter: the explorer is the one that yields.
    pub open spec fn roomy(area: Rect, ui: UiView) -> Frames {
        let body = rows_of(area, 1, area.height - 2);
        let explorer = ui.explorer_share(area.width);
        Self::of(
            (rows_of(area, 0, 1), body, rows_of(area, area.height - 1, 1)),
            (
                columns_from(body, 0, explorer),
                columns_from(body, explorer, 1),
                columns_from(body, explorer + 1, area.width - explorer - 1),
            ),
            ui.detail_share(body.height),
        )
    }

    /// What holds of a screen of any size: every part keeps to it, the two bars
    /// take its full width, and the detail pane has its share of the right hand
    /// column and the grid above it the others.
    pub open spec fn keep_to(self, area: Rect, ui: UiView) -> bool {
        &&& self.tab_bar.within(area) && self.status_bar.within(area)
        &&& self.explorer.within(area) && self.splitter.within(area)
        &&& self.grid.within(area) && self.detail.within(area)
        &&& self.tab_bar.x == area.x && self.tab_bar.width == area.width
        &&& self.status_bar.x == area.x && self.status_bar.width == area.width
        &&& self.splitter.y == self.explorer.y && self.splitter.height == self.explorer.height
        &&& self.grid.y == self.explorer.y
        &&& self.grid.height + self.detail.height == self.explorer.height
        &&& self.detail.x == self.grid.x && self.detail.width == self.grid.width
        &&& self.detail.y == self.grid.y + self.grid.height
        &&& self.detail.height == ui.detail_share(self.explorer.height)
    }

    /// Whether every part can be measured.
    pub open spec fn fit(self) -> bool {
        self.tab_bar.fits() && self.explorer.fits() && self.splitter.fits() && self.grid.fits()
            && self.detail.fits() && self.status_bar.fits()
    }
}

/// Divide the screen. The explorer's width comes from [`UiState`], so dragging
/// the splitter survives a redraw; what was divided is recorded there, so it
/// cannot drift from what was drawn.
pub fn layout(area: Rect, ui: &mut UiState) -> (r: Frames)
    requires
        area.fits(),
    ensures
        r.keep_to(area, old(ui)@),
        area.width > MIN_PANE_WIDTH && area.height >= 3 ==> r == Frames::roomy(area, old(ui)@),
        r.fit(),
        final(ui)@ == (UiView { screen: area, ..old(ui)@ }),
{
    ui.set_screen(area);
    let rows: (Rect, Rect, Rect) = split_rows(area, 1, 1, 1);
    let explorer_width: u16 = ui.explorer_width(area.width);
    let columns: (Rect, Rect, Rect) = split_columns(rows.1, explorer_width, 1, MIN_PANE_WIDTH);
    let right: Rect = columns.2;
    let detail: u16 = ui.detail_height(right.height);
    Frames {
        tab_bar: rows.0,
        explorer: columns.0,
        splitter: columns.1,
        grid: Rect { x: right.x, y: right.y, width: right.width, height: right.height - detail },
        detail: Rect {
            x: right.x,
            y: right.y + (right.height - detail),
            width: right.width,
            height: detail,
        },
        status_bar: rows.2,
    }
}

/// Every row and every column of a screen belongs to one part of it, and no
/// part but the detail pane is without a row.
pub proof fn the_layout_accounts_for_every_row_and_column(area: Rect, ui: UiView)
    requires
        area.fits(),
        !cramped(area),
    ensures
        ({
            let f = Frames::roomy(area, ui);
            &&& f.tab_bar.y == area.y && f.tab_bar.height == 1
            &&& f.explorer.y == area.y + 1
            &&& f.explorer.y + f.explorer.height == f.status_bar.y
            &&& f.status_bar.height == 1
            &&& f.status_bar.y + 1 == area.y + area.height
            &&& f.explorer.x == area.x
            &&& f.splitter.x == f.explorer.x + f.explorer.width
            &&& f.splitter.width == 1
            &&& f.grid.x == f.splitter.x + 1
            &&& f.grid.x + f.grid.width == area.x + area.width
            &&& f.grid.y == f.explorer.y
            &&& f.detail.y == f.grid.y + f.grid.height
            &&& f.grid.height + f.detail.height == f.explorer.height
            &&& f.explorer.width >= MIN_PANE_WIDTH
            &&& f.grid.width >= MIN_PANE_WIDTH
            &&& f.grid.height >= MIN_GRID_HEIGHT
        }),
{
}

/// True when the terminal is too small to lay out at all.
pub fn too_small(area: Rect) -> (b: bool)
    ensures
        b == cramped(area),
{
    area.width < MIN_WIDTH || area.height < MIN_HEIGHT
}

/// What is said in place of a layout.
pub open spec fn too_small_words(area: Rect) -> Seq<char> {
    "terminal is "@ + decimal(area.width as nat) + "×"@ + decimal(area.height as nat)
        + "; sqlake needs "@ + decimal(MIN_WIDTH as nat) + "×"@ + decimal(MIN_HEIGHT as nat)
}

pub fn render_too_small(canvas: &mut Canvas, area: Rect)
    ensures
        final(canvas)@ == old(canvas)@.said(
            area,
            too_small_words(area),
            Style::colored(Color::Yellow),
        ),
{
    let mut text: String = copy_of("terminal is ");
    push_decimal(&mut text, area.width as u128);
    push_all(&mut text, "×");
    push_decimal(&mut text, area.height as u128);
    push_all(&mut text, "; sqlake needs ");
    push_decimal(&mut text, MIN_WIDTH as u128);
    push_all(&mut text, "×");
    push_decimal(&mut text, MIN_HEIGHT as u128);
    canvas.say(area, text.as_str(), Style::of(Color::Yellow));
}

// ── text that has to fit ───────────────────────────────────────────────────

/// How many characters of a text fit a number of columns, from one that do.
pub open spec fn fitting(text: Seq<char>, room: int, from: int) -> int
    decreases text.len() - from,
{
    if from < 0 || from >= text.len() || display_columns(text.take(from + 1)) > room {
        from
    } else {
        fitting(text, room, from + 1)
    }
}

/// A text, or as much of it as fits with a mark that there is more.
pub open spec fn fitted(text: Seq<char>, width: u16) -> Seq<char> {
    if display_columns(text) <= width {
        text
    } else if width == 0 {
        Seq::empty()
    } else {
        text.take(fitting(text, width - 1, 0)).push('…')
    }
}

/// Cut a text to a number of columns, saying that it was cut.
pub fn fit(text: &str, width: u16) -> (r: String)
    ensures
        r@ == fitted(text@, width),
{
    if display_width(text) <= width {
        return copy_of(text);
    }
    if width == 0 {
        return String::new();
    }
    let chars: Vec<char> = chars_of(text);
    let mut out: String = String::new();
    let mut i: usize = 0;
    while i < chars.len()
        invariant
            i <= chars@.len(),
            chars@ == text@,
            width > 0,
            out@ == text@.take(i as int),
            fitting(text@, width - 1, 0) == fitting(text@, width - 1, i as int),
        ensures
            i <= chars@.len(),
            out@ == text@.take(i as int),
            fitting(text@, width - 1, i as int) == i,
        decreases chars@.len() - i,
    {
        let mut longer: String = copy_of(out.as_str());
        longer.push(chars[i]);
        proof {
            assert(longer@ =~= text@.take(i + 1));
        }
        if display_width(longer.as_str()) > width - 1 {
            break;
        }
        out = longer;
        i += 1;
    }
    out.push('…');
    out
}

/// A frame with one line of it taken by a caption.
pub open spec fn captioned(c: CanvasView, area: Rect, text: Seq<char>) -> CanvasView {
    c.said(
        rows_of(area, 0, least(area.height as int, 1)),
        fitted(text, area.width),
        Style::colored(Color::DarkGray),
    )
}

/// What a caption leaves of an area.
pub open spec fn below(area: Rect) -> Rect {
    rows_of(area, least(area.height as int, 1), less(area.height as int, 1))
}

/// One line across the top of an area. Returns what is left under it.
pub fn caption(canvas: &mut Canvas, area: Rect, text: &str) -> (r: Rect)
    requires
        area.fits(),
    ensures
        final(canvas)@ == captioned(old(canvas)@, area, text@),
        r == below(area),
        r.fits(),
{
    let taken: u16 = if area.height < 1 {
        0
    } else {
        1
    };
    let line: Rect = Rect { x: area.x, y: area.y, width: area.width, height: taken };
    canvas.say(line, fit(text, area.width).as_str(), Style::of(Color::DarkGray));
    Rect { x: area.x, y: area.y + taken, width: area.width, height: area.height - taken }
}

// ── panes ──────────────────────────────────────────────────────────────────

/// A title with a space on either side.
pub open spec fn spaced(title: Seq<char>) -> Seq<char> {
    " "@ + title + " "@
}

/// A title with a space on either side.
pub fn padded(title: &str) -> (r: String)
    ensures
        r@ == spaced(title@),
{
    let mut out: String = copy_of(" ");
    push_all(&mut out, title);
    push_all(&mut out, " ");
    out
}

/// A frame with a titled box on it.
pub open spec fn pane_drawn(
    c: CanvasView,
    area: Rect,
    id: PaneId,
    title: Seq<char>,
    focused: bool,
) -> CanvasView {
    c.hit(area, Z_BASE, Target::Pane(id)).boxed(
        area,
        if focused {
            BorderKind::Thick
        } else {
            BorderKind::Plain
        },
        Style::colored(
            if focused {
                Color::Cyan
            } else {
                Color::DarkGray
            },
        ),
        Some(
            styled(
                spaced(title),
                if focused {
                    Style::plain().in_bold()
                } else {
                    Style::colored(Color::Gray)
                },
            ),
        ),
    )
}

/// A titled box. Returns the area inside the border, which is where the caller
/// draws and what it should record as the pane's viewport.
pub fn pane(canvas: &mut Canvas, area: Rect, id: PaneId, title: &str, focused: bool) -> (r: Rect)
    requires
        area.fits(),
    ensures
        final(canvas)@ == pane_drawn(old(canvas)@, area, id, title@, focused),
        r == area.bordered(),
        r.fits(),
{
    // The whole pane, border included: a click on the border focuses it, and
    // the background is what the wheel finds over empty space below the last
    // row. Z_BASE so anything drawn inside wins.
    canvas.hit(area, Z_BASE, Target::Pane(id));
    let title: Span = if focused {
        Span::styled(padded(title), Style::new().bold())
    } else {
        Span::styled(padded(title), Style::of(Color::Gray))
    };
    if focused {
        canvas.border(area, BorderKind::Thick, Style::of(Color::Cyan), Some(title));
    } else {
        canvas.border(area, BorderKind::Plain, Style::of(Color::DarkGray), Some(title));
    }
    area.inner()
}

/// A frame with a mark in the first column of some rows of it.
pub open spec fn bars_drawn(
    c: CanvasView,
    x: u16,
    from: int,
    to: int,
    mark: Seq<char>,
    style: Style,
) -> CanvasView
    decreases to - from,
{
    if from >= to {
        c
    } else {
        bars_drawn(
            c.said(Rect::cut(x, from as u16, 1, 1), mark, style),
            x,
            from + 1,
            to,
            mark,
            style,
        )
    }
}

/// A frame with the divider between the two panes on it.
pub open spec fn splitter_drawn(c: CanvasView, area: Rect, hovered: bool) -> CanvasView {
    bars_drawn(
        c.hit(grabbed(area), Z_CHROME, Target::Splitter(SplitId::Explorer)),
        area.x,
        area.y as int,
        area.bottom_edge(),
        "│"@,
        Style::colored(
            if hovered {
                Color::Cyan
            } else {
                Color::DarkGray
            },
        ),
    )
}

/// The draggable divider between the two panes.
pub fn splitter(canvas: &mut Canvas, area: Rect, hovered: bool)
    ensures
        final(canvas)@ == splitter_drawn(old(canvas)@, area, hovered),
{
    // One cell is too thin to hit with a mouse, so the grab area is widened
    // while the drawn line stays one cell.
    canvas.hit(grab_area(area), Z_CHROME, Target::Splitter(SplitId::Explorer));
    let style: Style = if hovered {
        Style::of(Color::Cyan)
    } else {
        Style::of(Color::DarkGray)
    };
    let bottom: u16 = area.bottom();
    let mut y: u16 = area.y;
    let ghost start = canvas@;
    while y < bottom
        invariant
            area.y <= y,
            bars_drawn(start, area.x, area.y as int, bottom as int, "│"@, style) == bars_drawn(
                canvas@,
                area.x,
                y as int,
                bottom as int,
                "│"@,
                style,
            ),
        decreases bottom - y,
    {
        canvas.say(Rect::new(area.x, y, 1, 1), "│", style);
        y += 1;
    }
}

// ── scrollbars ─────────────────────────────────────────────────────────────

/// How many cells of a track the thumb takes.
pub open spec fn thumb_length(track: int, content: int) -> int {
    least(most(track * track / content, 1), track)
}

/// How far down a track the thumb is.
pub open spec fn thumb_place(track: int, offset: int, content: int) -> int {
    let span = content - track;
    least(offset, span) * (track - thumb_length(track, content)) / span
}

/// The cells down the right edge of an area.
pub open spec fn track_of(area: Rect, from: int, len: int) -> Rect {
    Rect {
        x: less(area.right_edge(), 1) as u16,
        y: (area.y + from) as u16,
        width: 1,
        height: len as u16,
    }
}

/// A frame with the cells of a track on it.
pub open spec fn track_drawn(
    c: CanvasView,
    area: Rect,
    from: int,
    thumb_at: int,
    thumb_len: int,
) -> CanvasView
    decreases area.height - from,
{
    if from >= area.height {
        c
    } else {
        let drawn = if thumb_at <= from < thumb_at + thumb_len {
            c.said(track_of(area, from, 1), "█"@, Style::colored(Color::Gray))
        } else {
            c.said(track_of(area, from, 1), "│"@, Style::colored(Color::DarkGray))
        };
        track_drawn(drawn, area, from + 1, thumb_at, thumb_len)
    }
}

/// A frame with a scrollbar on it, or as it was where everything shows.
pub open spec fn scrollbar_drawn(
    c: CanvasView,
    area: Rect,
    pane: PaneId,
    offset: int,
    content: int,
) -> CanvasView {
    let track = area.height as int;
    if track == 0 || content <= track {
        c
    } else {
        let len = thumb_length(track, content);
        let at = thumb_place(track, offset, content);
        let part = |part: ScrollPart| Target::Scrollbar { pane, part };
        track_drawn(
            c.hit(track_of(area, 0, at), Z_CHROME, part(ScrollPart::TrackBefore)).hit(
                track_of(area, at + len, track - at - len),
                Z_CHROME,
                part(ScrollPart::TrackAfter),
            ).hit(track_of(area, at, len), Z_CHROME, part(ScrollPart::Thumb)),
            area,
            0,
            at,
            len,
        )
    }
}

/// The thumb never leaves its track, and never vanishes from it.
pub proof fn the_thumb_stays_on_its_track(track: int, offset: int, content: int)
    requires
        0 < track < content,
        0 <= offset,
    ensures
        1 <= thumb_length(track, content) <= track,
        0 <= thumb_place(track, offset, content),
        thumb_place(track, offset, content) + thumb_length(track, content) <= track,
{
    let span = content - track;
    let travel = track - thumb_length(track, content);
    let at = least(offset, span);
    assert(0 <= at * travel <= span * travel) by (nonlinear_arith)
        requires
            0 <= at <= span,
            0 <= travel,
    ;
    vstd::arithmetic::div_mod::lemma_div_is_ordered(0, at * travel, span);
    vstd::arithmetic::div_mod::lemma_div_is_ordered(at * travel, span * travel, span);
    vstd::arithmetic::div_mod::lemma_div_multiples_vanish(travel, span);
    assert(span * travel == travel * span) by (nonlinear_arith);
    assert(0int / span == 0) by (nonlinear_arith)
        requires
            span > 0,
    ;
}

/// Scrolled to the end, the thumb is at the end; scrolled to the start, at the
/// start.
pub proof fn the_ends_of_the_content_are_the_ends_of_the_track(track: int, content: int)
    requires
        0 < track < content,
    ensures
        thumb_place(track, 0, content) == 0,
        thumb_place(track, content - track, content) + thumb_length(track, content) == track,
{
    let span = content - track;
    let travel = track - thumb_length(track, content);
    assert(0 * travel == 0) by (nonlinear_arith);
    assert(0int / span == 0) by (nonlinear_arith)
        requires
            span > 0,
    ;
    vstd::arithmetic::div_mod::lemma_div_multiples_vanish(travel, span);
    assert(span * travel == travel * span) by (nonlinear_arith);
}

/// A vertical scrollbar down the right edge of `area`.
///
/// Drawn by hand because the thumb's rectangle has to be recorded for hit
/// testing, and reproducing a widget's arithmetic to guess where it drew is
/// worse than doing the arithmetic once.
pub fn scrollbar(canvas: &mut Canvas, area: Rect, pane: PaneId, offset: usize, content: usize)
    requires
        area.fits(),
    ensures
        final(canvas)@ == scrollbar_drawn(old(canvas)@, area, pane, offset as int, content as int),
{
    if area.height == 0 || content <= area.height as usize {
        return ;  // Nothing to scroll: a full-height thumb is just noise.
    }
    let track: usize = area.height as usize;
    proof {
        the_thumb_stays_on_its_track(track as int, offset as int, content as int);
        assert(0 <= track * track <= 65535 * 65535) by (nonlinear_arith)
            requires
                0 <= track <= 65535,
        ;
    }
    let thumb_len: usize = min_usize(max_usize(track * track / content, 1), track);
    let span: usize = content - track;
    let travel: usize = track - thumb_len;
    let reached: usize = min_usize(offset, span);
    proof {
        assert(0 <= reached * travel <= u64::MAX * 65535) by (nonlinear_arith)
            requires
                0 <= reached <= u64::MAX,
                0 <= travel <= 65535,
        ;
    }
    let thumb_at: usize = (reached as u128 * travel as u128 / span as u128) as usize;
    let x: u16 = area.right().saturating_sub(1);

    let before: Rect = Rect { x, y: area.y, width: 1, height: thumb_at as u16 };
    let thumb: Rect = Rect {
        x,
        y: area.y + thumb_at as u16,
        width: 1,
        height: thumb_len as u16,
    };
    let after: Rect = Rect {
        x,
        y: area.y + (thumb_at + thumb_len) as u16,
        width: 1,
        height: (track - thumb_at - thumb_len) as u16,
    };

    // The thumb last: recorded later at the same level, it wins where they
    // touch.
    canvas.hit(before, Z_CHROME, Target::Scrollbar { pane, part: ScrollPart::TrackBefore });
    canvas.hit(after, Z_CHROME, Target::Scrollbar { pane, part: ScrollPart::TrackAfter });
    canvas.hit(thumb, Z_CHROME, Target::Scrollbar { pane, part: ScrollPart::Thumb });

    let ghost start = canvas@;
    let mut y: u16 = 0;
    while y < area.height
        invariant
            area.fits(),
            y <= area.height,
            x == less(area.right_edge(), 1),
            thumb_at + thumb_len <= area.height,
            track_drawn(start, area, 0, thumb_at as int, thumb_len as int) == track_drawn(
                canvas@,
                area,
                y as int,
                thumb_at as int,
                thumb_len as int,
            ),
        decreases area.height - y,
    {
        let cell: Rect = Rect { x, y: area.y + y, width: 1, height: 1 };
        if y as usize >= thumb_at && (y as usize) < thumb_at + thumb_len {
            canvas.say(cell, "█", Style::of(Color::Gray));
        } else {
            canvas.say(cell, "│", Style::of(Color::DarkGray));
        }
        y += 1;
    }
}

// ── the tab bar ────────────────────────────────────────────────────────────

/// How a tab is painted.
pub open spec fn tab_style(active: bool) -> Style {
    if active {
        Style::colored(Color::Black).on(Color::Cyan).in_bold()
    } else {
        Style::colored(Color::Gray)
    }
}

/// A frame with one tab on it.
pub open spec fn tab_drawn(
    c: CanvasView,
    area: Rect,
    x: int,
    tab: TabView,
    active: Option<TabId>,
) -> CanvasView {
    let label = spaced(tab.content.title());
    let style = tab_style(active == Some(tab.id));
    let title = Rect::cut(x as u16, area.y, label.len() as int, 1);
    let close = Rect::cut((x + label.len()) as u16, area.y, 2, 1);
    c.said(title, label, style).hit(title, Z_CHROME, Target::Tab(tab.id)).said(
        close,
        "× "@,
        style,
    ).hit(close, Z_CHROME, Target::TabClose(tab.id))
}

/// A frame with the tabs from one of them on, and where the next would go. A
/// tab that does not fit ends them.
pub open spec fn tabs_drawn(
    c: CanvasView,
    area: Rect,
    x: int,
    tabs: Seq<TabView>,
    active: Option<TabId>,
    from: int,
) -> (CanvasView, int)
    decreases tabs.len() - from,
{
    if from < 0 || from >= tabs.len() {
        (c, x)
    } else {
        let width = spaced(tabs[from].content.title()).len();
        if x + width + 2 > area.right_edge() {
            (c, x)
        } else {
            tabs_drawn(
                tab_drawn(c, area, x, tabs[from], active),
                area,
                x + width + 2,
                tabs,
                active,
                from + 1,
            )
        }
    }
}

/// A frame with the tab bar on it.
pub open spec fn tab_bar_drawn(
    c: CanvasView,
    area: Rect,
    tabs: Seq<TabView>,
    active: Option<TabId>,
    live: bool,
) -> CanvasView {
    let (drawn, x) = tabs_drawn(
        c.hit(area, Z_BASE, Target::Pane(PaneId::TabBar)).said(
            area,
            ""@,
            Style::plain().on(Color::Black),
        ),
        area,
        area.x as int,
        tabs,
        active,
        0,
    );
    if live && x + 3 <= area.right_edge() {
        let plus = Rect::cut(x as u16, area.y, 3, 1);
        drawn.said(plus, " + "@, Style::colored(Color::Gray)).hit(
            plus,
            Z_CHROME,
            Target::Button(ButtonId::NewSqlTab),
        )
    } else {
        drawn
    }
}

/// One entry per open tab, each with a close box, and a way to open one more
/// while there is a connection to open it on.
pub fn tab_bar(canvas: &mut Canvas, area: Rect, ui: &UiState, live: bool)
    requires
        area.fits(),
    ensures
        final(canvas)@ == tab_bar_drawn(old(canvas)@, area, ui@.tabs, ui@.active_tab, live),
{
    canvas.hit(area, Z_BASE, Target::Pane(PaneId::TabBar));
    canvas.say(area, "", Style::new().bg(Color::Black));

    let right: u16 = area.right();
    let mut x: u16 = area.x;
    let mut i: usize = 0;
    let ghost start = canvas@;
    while i < ui.tabs.len()
        invariant
            area.fits(),
            i <= ui.tabs@.len(),
            right == area.right_edge(),
            area.x <= x <= right,
            ui@.tabs == views(ui.tabs@),
            ui@.active_tab == ui.active_tab,
            tabs_drawn(start, area, area.x as int, ui@.tabs, ui@.active_tab, 0) == tabs_drawn(
                canvas@,
                area,
                x as int,
                ui@.tabs,
                ui@.active_tab,
                i as int,
            ),
        ensures
            tabs_drawn(start, area, area.x as int, ui@.tabs, ui@.active_tab, 0) == (
            canvas@,
            x as int,
            ),
            area.x <= x <= right,
        decreases ui.tabs@.len() - i,
    {
        let tab: &OpenTab = &ui.tabs[i];
        let active: bool = match ui.active_tab {
            Some(id) => id == tab.id,
            None => false,
        };
        let label: String = padded(tab.title().as_str());
        let width: usize = label.as_str().unicode_len();
        // Stop at the edge rather than drawing a tab half off the screen.
        if width > 65535 || x as u32 + width as u32 + 2 > right as u32 {
            break;
        }
        let style: Style = if active {
            Style::of(Color::Black).bg(Color::Cyan).bold()
        } else {
            Style::of(Color::Gray)
        };
        let title_rect: Rect = Rect::new(x, area.y, width as u16, 1);
        canvas.say(title_rect, label.as_str(), style);
        canvas.hit(title_rect, Z_CHROME, Target::Tab(tab.id));

        let close_rect: Rect = Rect::new(x + width as u16, area.y, 2, 1);
        canvas.say(close_rect, "× ", style);
        canvas.hit(close_rect, Z_CHROME, Target::TabClose(tab.id));

        x = x + width as u16 + 2;
        i += 1;
    }
    if live && x as u32 + 3 <= right as u32 {
        let plus: Rect = Rect::new(x, area.y, 3, 1);
        canvas.say(plus, " + ", Style::of(Color::Gray));
        canvas.hit(plus, Z_CHROME, Target::Button(ButtonId::NewSqlTab));
    }
}

// ── the status bar ─────────────────────────────────────────────────────────

/// What a running job is called.
pub open spec fn busy_label(item: BusyItem) -> Seq<char> {
    " ⟳ "@ + item.label@ + " "@
}

/// A line of the status bar while it is put together: the frame, what the line
/// says so far, and where it has got to.
pub struct Saying {
    pub canvas: CanvasView,
    pub spans: Seq<SpanView>,
    pub x: int,
}

/// With the jobs from one of them on, each with a way to stop it. A job that
/// does not fit ends them.
pub open spec fn jobs_said(s: Saying, area: Rect, busy: Seq<BusyItem>, from: int) -> Saying
    decreases busy.len() - from,
{
    if from < 0 || from >= busy.len() {
        s
    } else {
        let label = busy_label(busy[from]);
        if s.x + label.len() + 3 > area.right_edge() {
            s
        } else {
            jobs_said(
                Saying {
                    canvas: s.canvas.hit(
                        Rect::cut((s.x + label.len()) as u16, area.y, 3, 1),
                        Z_CHROME,
                        Target::Button(ButtonId::Cancel(busy[from].id)),
                    ),
                    spans: s.spans.push(styled(label, Style::colored(Color::Yellow))).push(
                        styled("[×]"@, Style::colored(Color::Red).in_bold()),
                    ),
                    x: s.x + label.len() + 3,
                },
                area,
                busy,
                from + 1,
            )
        }
    }
}

/// With a way to run the statement in front, where there is room for it.
pub open spec fn run_said(s: Saying, area: Rect, can_run: bool) -> Saying {
    if can_run && s.x + 5 <= area.right_edge() {
        Saying {
            canvas: s.canvas.hit(
                Rect::cut(s.x as u16, area.y, 5, 1),
                Z_CHROME,
                Target::Button(ButtonId::RunQuery),
            ),
            spans: s.spans.push(
                styled(" Run "@, Style::colored(Color::Black).on(Color::Green).in_bold()),
            ),
            x: s.x + 5,
        }
    } else {
        s
    }
}

/// How many rows and columns are selected, in words.
pub open spec fn selected_words(cells: (usize, usize)) -> Seq<char> {
    " "@ + decimal(cells.0 as nat) + "×"@ + decimal(cells.1 as nat) + " selected "@
}

/// What the status bar says beside the jobs: how many cells are selected, and
/// where there is nothing to say, how to select text.
pub open spec fn status_spans(spans: Seq<SpanView>, selected: Option<(usize, usize)>) -> Seq<SpanView> {
    match selected {
        Some(cells) => spans.push(
            styled(selected_words(cells), Style::colored(Color::Cyan)),
        ),
        None => if spans.len() == 0 {
            seq![
                styled(
                    " Shift (or Option) + drag to select text "@,
                    Style::colored(Color::DarkGray),
                ),
            ]
        } else {
            spans
        },
    }
}

/// A frame with the status bar on it.
pub open spec fn status_bar_drawn(
    c: CanvasView,
    area: Rect,
    busy: Seq<BusyItem>,
    selected: Option<(usize, usize)>,
    can_run: bool,
) -> CanvasView {
    let s = run_said(
        jobs_said(
            Saying {
                canvas: c.hit(area, Z_BASE, Target::Pane(PaneId::StatusBar)),
                spans: Seq::empty(),
                x: area.x as int,
            },
            area,
            busy,
            0,
        ),
        area,
        can_run,
    );
    s.canvas.lined(area, status_spans(s.spans, selected), Style::plain())
}

/// What the status bar says of the jobs under way. Returns where it got to.
fn busy_jobs(canvas: &mut Canvas, spans: &mut Vec<Span>, area: Rect, busy: &Vec<BusyItem>) -> (r:
    u16)
    requires
        area.fits(),
    ensures
        ({
            let s = jobs_said(
                Saying { canvas: old(canvas)@, spans: views(old(spans)@), x: area.x as int },
                area,
                busy@,
                0,
            );
            &&& final(canvas)@ == s.canvas
            &&& views(final(spans)@) == s.spans
            &&& r == s.x
        }),
        area.x <= r <= area.right_edge(),
{
    let right: u16 = area.right();
    let mut x: u16 = area.x;
    let mut i: usize = 0;
    let ghost start = Saying { canvas: canvas@, spans: views(spans@), x: x as int };
    while i < busy.len()
        invariant
            area.fits(),
            i <= busy@.len(),
            right == area.right_edge(),
            area.x <= x <= right,
            jobs_said(start, area, busy@, 0) == jobs_said(
                Saying { canvas: canvas@, spans: views(spans@), x: x as int },
                area,
                busy@,
                i as int,
            ),
        ensures
            area.x <= x <= right,
            jobs_said(start, area, busy@, 0) == (Saying {
                canvas: canvas@,
                spans: views(spans@),
                x: x as int,
            }),
        decreases busy@.len() - i,
    {
        let item: &BusyItem = &busy[i];
        let mut label: String = copy_of(" ⟳ ");
        push_all(&mut label, item.label.as_str());
        push_all(&mut label, " ");
        let width: usize = label.as_str().unicode_len();
        if width > 65535 || x as u32 + width as u32 + 3 > right as u32 {
            break;
        }
        let ghost said = spans@;
        let name: Span = Span::styled(label, Style::of(Color::Yellow));
        let stop: Span = Span::styled(copy_of("[×]"), Style::of(Color::Red).bold());
        let ghost (name_view, stop_view) = (name@, stop@);
        spans.push(name);
        spans.push(stop);
        proof {
            assert(views(spans@) =~= views(said).push(name_view).push(stop_view));
        }
        x = x + width as u16;
        canvas.hit(
            Rect::new(x, area.y, 3, 1),
            Z_CHROME,
            Target::Button(ButtonId::Cancel(item.id)),
        );
        x = x + 3;
        i += 1;
    }
    x
}

/// Running work, with a way to stop it, and the hints that have to be visible
/// rather than discovered.
pub fn status_bar(
    canvas: &mut Canvas,
    area: Rect,
    snapshot: &Snapshot,
    selected: Option<(usize, usize)>,
    can_run: bool,
)
    requires
        area.fits(),
    ensures
        final(canvas)@ == status_bar_drawn(
            old(canvas)@,
            area,
            snapshot.busy@,
            selected,
            can_run,
        ),
{
    canvas.hit(area, Z_BASE, Target::Pane(PaneId::StatusBar));
    let mut spans: Vec<Span> = Vec::new();
    proof {
        assert(views(spans@) =~= Seq::empty());
    }
    let x: u16 = busy_jobs(canvas, &mut spans, area, &snapshot.busy);
    let ghost said = spans@;

    if can_run && x as u32 + 5 <= area.right() as u32 {
        let style: Style = Style::of(Color::Black).bg(Color::Green).bold();
        let run: Span = Span::styled(copy_of(" Run "), style);
        let ghost run_view = run@;
        spans.push(run);
        proof {
            assert(views(spans@) =~= views(said).push(run_view));
        }
        canvas.hit(Rect::new(x, area.y, 5, 1), Z_CHROME, Target::Button(ButtonId::RunQuery));
    }
    let ghost said = spans@;
    match selected {
        Some(cells) => {
            let mut words: String = copy_of(" ");
            push_decimal(&mut words, cells.0 as u128);
            push_all(&mut words, "×");
            push_decimal(&mut words, cells.1 as u128);
            push_all(&mut words, " selected ");
            let count: Span = Span::styled(words, Style::of(Color::Cyan));
            let ghost count_view = count@;
            spans.push(count);
            proof {
                assert(views(spans@) =~= views(said).push(count_view));
            }
        },
        None => {
            if spans.len() == 0 {
                // Mouse capture takes the terminal's own text selection away,
                // so the way to get it back cannot be something the user has
                // to know already.
                let hint: Span = Span::styled(
                    copy_of(" Shift (or Option) + drag to select text "),
                    Style::of(Color::DarkGray),
                );
                let ghost hint_view = hint@;
                spans.push(hint);
                proof {
                    assert(views(spans@) =~= seq![hint_view]);
                }
            }
        },
    }
    canvas.line(area, spans, Style::new());
}

// ── what a click on the frame finds ────────────────────────────────────────

proof fn painting_a_track_records_nothing(
    c: CanvasView,
    area: Rect,
    from: int,
    thumb_at: int,
    thumb_len: int,
)
    ensures
        track_drawn(c, area, from, thumb_at, thumb_len).hits == c.hits,
    decreases area.height - from,
{
    if from < area.height {
        let drawn = if thumb_at <= from < thumb_at + thumb_len {
            c.said(track_of(area, from, 1), "█"@, Style::colored(Color::Gray))
        } else {
            c.said(track_of(area, from, 1), "│"@, Style::colored(Color::DarkGray))
        };
        painting_a_track_records_nothing(drawn, area, from + 1, thumb_at, thumb_len);
    }
}

/// Every cell of a track can be pressed, and says where it is: before the thumb,
/// on it, or after it.
pub proof fn a_track_says_where_it_is_pressed(
    c: CanvasView,
    area: Rect,
    pane: PaneId,
    offset: int,
    content: int,
    at: Position,
)
    requires
        area.fits(),
        0 < area.height < content,
        0 <= offset,
        at.x == less(area.right_edge(), 1),
        area.y <= at.y < area.y + area.height,
        nothing_above(c.hits, at, Z_CHROME),
    ensures
        ({
            let thumb_at = thumb_place(area.height as int, offset, content);
            let thumb_len = thumb_length(area.height as int, content);
            let down = at.y - area.y;
            target_at(scrollbar_drawn(c, area, pane, offset, content).hits, at) == Some(
                Target::Scrollbar {
                    pane,
                    part: if down < thumb_at {
                        ScrollPart::TrackBefore
                    } else if down < thumb_at + thumb_len {
                        ScrollPart::Thumb
                    } else {
                        ScrollPart::TrackAfter
                    },
                },
            )
        }),
{
    let track = area.height as int;
    let len = thumb_length(track, content);
    let place = thumb_place(track, offset, content);
    the_thumb_stays_on_its_track(track, offset, content);
    let part = |part: ScrollPart| Target::Scrollbar { pane, part };
    let before = track_of(area, 0, place);
    let after = track_of(area, place + len, track - place - len);
    let thumb = track_of(area, place, len);
    let first = c.hit(before, Z_CHROME, part(ScrollPart::TrackBefore));
    let second = first.hit(after, Z_CHROME, part(ScrollPart::TrackAfter));
    let third = second.hit(thumb, Z_CHROME, part(ScrollPart::Thumb));
    painting_a_track_records_nothing(third, area, 0, place, len);
    if before.covers(at) {
        let target = part(ScrollPart::TrackBefore);
        what_is_recorded_on_top_is_found(c.hits, before, Z_CHROME, target, at);
    } else {
        let target = part(ScrollPart::TrackBefore);
        what_is_elsewhere_changes_nothing(c.hits, before, Z_CHROME, target, at);
    }
    let target = part(ScrollPart::TrackAfter);
    if after.covers(at) {
        what_is_recorded_on_top_is_found(first.hits, after, Z_CHROME, target, at);
    } else {
        what_is_elsewhere_changes_nothing(first.hits, after, Z_CHROME, target, at);
    }
    let target = part(ScrollPart::Thumb);
    if thumb.covers(at) {
        what_is_recorded_on_top_is_found(second.hits, thumb, Z_CHROME, target, at);
    } else {
        what_is_elsewhere_changes_nothing(second.hits, thumb, Z_CHROME, target, at);
    }
}

/// How many columns a tab takes, its close box with it.
pub open spec fn tab_columns(tab: TabView) -> int {
    spaced(tab.content.title()).len() + 2int
}

/// Where the `n`th of some tabs begins, the first of them at `x`.
pub open spec fn tab_start(tabs: Seq<TabView>, x: int, from: int, n: int) -> int
    decreases n - from,
{
    if n <= from {
        x
    } else {
        tab_start(tabs, x + tab_columns(tabs[from]), from + 1, n)
    }
}

proof fn a_later_tab_begins_later(tabs: Seq<TabView>, x: int, from: int, n: int)
    requires
        from <= n,
    ensures
        x <= tab_start(tabs, x, from, n),
        tab_start(tabs, x, from, n + 1) == tab_start(tabs, x, from, n) + tab_columns(tabs[n]),
    decreases n - from,
{
    let after = x + tab_columns(tabs[from]);
    if from < n {
        a_later_tab_begins_later(tabs, after, from + 1, n);
    } else {
        assert(tab_start(tabs, after, from + 1, n + 1) == after);
    }
}

proof fn a_tab_elsewhere_changes_nothing(
    c: CanvasView,
    area: Rect,
    x: int,
    tab: TabView,
    active: Option<TabId>,
    at: Position,
)
    requires
        0 <= x,
        x + tab_columns(tab) <= u16::MAX,
        at.x < x || x + tab_columns(tab) <= at.x,
        nothing_above(c.hits, at, Z_CHROME),
    ensures
        target_at(tab_drawn(c, area, x, tab, active).hits, at) == target_at(c.hits, at),
        nothing_above(tab_drawn(c, area, x, tab, active).hits, at, Z_CHROME),
{
    let width = spaced(tab.content.title()).len();
    let title = Rect::cut(x as u16, area.y, width as int, 1);
    let close = Rect::cut((x + width) as u16, area.y, 2, 1);
    let first = c.hit(title, Z_CHROME, Target::Tab(tab.id));
    what_is_elsewhere_changes_nothing(c.hits, title, Z_CHROME, Target::Tab(tab.id), at);
    what_is_elsewhere_changes_nothing(first.hits, close, Z_CHROME, Target::TabClose(tab.id), at);
}

proof fn later_tabs_change_nothing(
    c: CanvasView,
    area: Rect,
    x: int,
    tabs: Seq<TabView>,
    active: Option<TabId>,
    from: int,
    at: Position,
)
    requires
        area.fits(),
        0 <= from,
        0 <= x,
        at.x < x,
        nothing_above(c.hits, at, Z_CHROME),
    ensures
        target_at(tabs_drawn(c, area, x, tabs, active, from).0.hits, at) == target_at(c.hits, at),
        x <= tabs_drawn(c, area, x, tabs, active, from).1,
        x <= area.right_edge() ==> tabs_drawn(c, area, x, tabs, active, from).1
            <= area.right_edge(),
    decreases tabs.len() - from,
{
    if from < tabs.len() {
        let columns = tab_columns(tabs[from]);
        if x + columns <= area.right_edge() {
            a_tab_elsewhere_changes_nothing(c, area, x, tabs[from], active, at);
            later_tabs_change_nothing(
                tab_drawn(c, area, x, tabs[from], active),
                area,
                x + columns,
                tabs,
                active,
                from + 1,
                at,
            );
        }
    }
}

proof fn a_tab_is_found_among_the_others(
    c: CanvasView,
    area: Rect,
    x: int,
    tabs: Seq<TabView>,
    active: Option<TabId>,
    from: int,
    n: int,
    at: Position,
)
    requires
        area.fits(),
        0 <= from <= n < tabs.len(),
        0 <= x,
        tab_start(tabs, x, from, n + 1) <= area.right_edge(),
        at.y == area.y,
        area.height > 0,
        tab_start(tabs, x, from, n) <= at.x < tab_start(tabs, x, from, n + 1),
        nothing_above(c.hits, at, Z_CHROME),
    ensures
        target_at(tabs_drawn(c, area, x, tabs, active, from).0.hits, at) == Some(
            if at.x < tab_start(tabs, x, from, n + 1) - 2 {
                Target::Tab(tabs[n].id)
            } else {
                Target::TabClose(tabs[n].id)
            },
        ),
        at.x < tabs_drawn(c, area, x, tabs, active, from).1 <= area.right_edge(),
    decreases n - from,
{
    let tab = tabs[from];
    let columns = tab_columns(tab);
    let next = tab_drawn(c, area, x, tab, active);
    a_later_tab_begins_later(tabs, x, from, n);
    if from == n {
        let width = spaced(tab.content.title()).len();
        let title = Rect::cut(x as u16, area.y, width as int, 1);
        let close = Rect::cut((x + width) as u16, area.y, 2, 1);
        let first = c.hit(title, Z_CHROME, Target::Tab(tab.id));
        if title.covers(at) {
            what_is_recorded_on_top_is_found(c.hits, title, Z_CHROME, Target::Tab(tab.id), at);
            what_is_elsewhere_changes_nothing(
                first.hits,
                close,
                Z_CHROME,
                Target::TabClose(tab.id),
                at,
            );
        } else {
            what_is_recorded_on_top_is_found(
                first.hits,
                close,
                Z_CHROME,
                Target::TabClose(tab.id),
                at,
            );
        }
        later_tabs_change_nothing(next, area, x + columns, tabs, active, from + 1, at);
    } else {
        a_later_tab_begins_later(tabs, x + columns, from + 1, n);
        a_tab_elsewhere_changes_nothing(c, area, x, tab, active, at);
        a_tab_is_found_among_the_others(
            next,
            area,
            x + columns,
            tabs,
            active,
            from + 1,
            n,
            at,
        );
    }
}

/// Every tab that fits on the bar can be clicked, and offers its own close box
/// in its last two columns.
pub proof fn every_tab_offers_its_own_close_box(
    c: CanvasView,
    area: Rect,
    tabs: Seq<TabView>,
    active: Option<TabId>,
    live: bool,
    n: int,
    at: Position,
)
    requires
        area.fits(),
        area.height > 0,
        0 <= n < tabs.len(),
        tab_start(tabs, area.x as int, 0, n + 1) <= area.right_edge(),
        at.y == area.y,
        tab_start(tabs, area.x as int, 0, n) <= at.x < tab_start(tabs, area.x as int, 0, n + 1),
        nothing_above(c.hits, at, Z_CHROME),
    ensures
        target_at(tab_bar_drawn(c, area, tabs, active, live).hits, at) == Some(
            if at.x < tab_start(tabs, area.x as int, 0, n + 1) - 2 {
                Target::Tab(tabs[n].id)
            } else {
                Target::TabClose(tabs[n].id)
            },
        ),
{
    let bar = c.hit(area, Z_BASE, Target::Pane(PaneId::TabBar)).said(
        area,
        ""@,
        Style::plain().on(Color::Black),
    );
    a_tab_is_found_among_the_others(bar, area, area.x as int, tabs, active, 0, n, at);
    let (drawn, x) = tabs_drawn(bar, area, area.x as int, tabs, active, 0);
    let plus = Rect::cut(x as u16, area.y, 3, 1);
    what_is_elsewhere_changes_nothing(
        drawn.hits,
        plus,
        Z_CHROME,
        Target::Button(ButtonId::NewSqlTab),
        at,
    );
}

} // verus!
