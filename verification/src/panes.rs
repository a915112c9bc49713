//! What the panes, the bars and the dialogs show.

use crate::chrome::{
    busy_label, fitted, jobs_said, scrollbar_drawn, spaced, tab_columns, tab_drawn, tab_start,
    tab_style, tabs_drawn, thumb_length, thumb_place, track_drawn, track_of, Saying,
};
use crate::datagrid::{
    body_drawn, columns_in, content_place, header_drawn, lines_drawn, under_header,
};
use crate::definition::{
    comment_part, list_drawn, section_style, stat_text, summed_up, Laid, LIST_WIDTH,
};
use crate::geometry::{least, less, Rect};
use crate::grid::sanitised;
use crate::hit::{ButtonId, PaneId, ScrollPart, Target, Z_BACKDROP, Z_CHROME, Z_MODAL};
use crate::ids::TabId;
use crate::model::{BusyItem, PagedResult, Snapshot, Sort, Template};
use crate::overlay::{
    button_style, centred, choices_drawn, dialog_color, dialog_place, dismiss_place, modal_drawn,
    ModalView,
};
use crate::paint::{raw, styled, CanvasView, Color, Overflow, PaintView, Style};
use crate::palette::{field_spans, fields_drawn, listed_as, templates_drawn, FormView};
use crate::pictures::{
    a_frame_under_another_stays, cell_paint, on, one_line, over, the_cells_are_on_the_screen,
    the_rows_of_the_explorer_are_on_the_screen, what_is_painted_stays,
};
use crate::state::{GridView, TabView};
use crate::text::{display_columns, joined, lowercase};
use crate::tree::{asked_color, row_spans, row_style, rows_drawn, shown, tree_drawn};
use crate::ui::TreeUi;
use vstd::prelude::*;

verus! {

// ── scrollbars ─────────────────────────────────────────────────────────────

proof fn more_of_a_track_stays_over(
    c: CanvasView,
    area: Rect,
    from: int,
    thumb_at: int,
    thumb_len: int,
)
    ensures
        over(c, track_drawn(c, area, from, thumb_at, thumb_len)),
    decreases area.height - from,
{
    if from < area.height {
        let drawn = if thumb_at <= from < thumb_at + thumb_len {
            c.said(track_of(area, from, 1), "█"@, Style::colored(Color::Gray))
        } else {
            c.said(track_of(area, from, 1), "│"@, Style::colored(Color::DarkGray))
        };
        more_of_a_track_stays_over(drawn, area, from + 1, thumb_at, thumb_len);
        a_frame_under_another_stays(
            c,
            drawn,
            track_drawn(drawn, area, from + 1, thumb_at, thumb_len),
        );
    }
}

/// Every cell of a track is on the screen down the right edge, as the thumb where
/// the thumb is and as the track elsewhere.
pub proof fn a_track_is_on_the_screen(
    c: CanvasView,
    area: Rect,
    from: int,
    thumb_at: int,
    thumb_len: int,
    k: int,
)
    requires
        from <= k < area.height,
    ensures
        ({
            let thumb = thumb_at <= k < thumb_at + thumb_len;
            on(
                track_drawn(c, area, from, thumb_at, thumb_len),
                track_of(area, k, 1),
                seq![
                    raw(
                        if thumb {
                            "█"@
                        } else {
                            "│"@
                        },
                    ),
                ],
                Style::colored(
                    if thumb {
                        Color::Gray
                    } else {
                        Color::DarkGray
                    },
                ),
            )
        }),
    decreases area.height - from,
{
    let drawn = if thumb_at <= from < thumb_at + thumb_len {
        c.said(track_of(area, from, 1), "█"@, Style::colored(Color::Gray))
    } else {
        c.said(track_of(area, from, 1), "│"@, Style::colored(Color::DarkGray))
    };
    let after = track_drawn(drawn, area, from + 1, thumb_at, thumb_len);
    more_of_a_track_stays_over(drawn, area, from + 1, thumb_at, thumb_len);
    if k == from {
        what_is_painted_stays(drawn, after, drawn.paints[drawn.paints.len() - 1]);
    } else {
        a_track_is_on_the_screen(drawn, area, from + 1, thumb_at, thumb_len, k);
    }
}

/// A scrollbar leaves what is on a frame on it, and is not there where
/// everything shows.
pub proof fn a_scrollbar_is_painted_over(
    c: CanvasView,
    area: Rect,
    pane: PaneId,
    offset: int,
    content: int,
)
    ensures
        over(c, scrollbar_drawn(c, area, pane, offset, content)),
        content <= area.height ==> scrollbar_drawn(c, area, pane, offset, content) == c,
{
    let track = area.height as int;
    if !(track == 0 || content <= track) {
        let len = thumb_length(track, content);
        let at = thumb_place(track, offset, content);
        let part = |part: ScrollPart| Target::Scrollbar { pane, part };
        let before = c.hit(
            track_of(area, 0, at),
            Z_CHROME,
            part(ScrollPart::TrackBefore),
        ).hit(
            track_of(area, at + len, track - at - len),
            Z_CHROME,
            part(ScrollPart::TrackAfter),
        ).hit(track_of(area, at, len), Z_CHROME, part(ScrollPart::Thumb));
        more_of_a_track_stays_over(before, area, 0, at, len);
        a_frame_under_another_stays(c, before, track_drawn(before, area, 0, at, len));
    }
}

// ── the explorer ───────────────────────────────────────────────────────────

/// The explorer shows its rows from the one it is scrolled to on, as many as
/// there are lines for: the one that is `k` below the first is `k` lines down.
pub proof fn the_explorer_shows_its_rows(
    c: CanvasView,
    area: Rect,
    snapshot: Snapshot,
    ui: TreeUi,
    filter: Option<Seq<char>>,
    k: int,
)
    requires
        area.width > 1,
        0 <= k < area.height,
        ui.offset + k < shown(snapshot.explorer@, filter).len(),
        snapshot.explorer@.len() > 0,
    ensures
        ({
            let row = ui.offset + k;
            let node = snapshot.explorer@[shown(snapshot.explorer@, filter)[row] as int];
            let place = Rect::cut(area.x, (area.y + k) as u16, area.width - 1, 1);
            let selected = ui.selected == Some(row as usize);
            on(
                tree_drawn(c, area, snapshot, ui, filter),
                place,
                row_spans(place.width, node, selected, asked_color(snapshot, node)),
                row_style(selected),
            )
        }),
{
    let place = Rect { width: (area.width - 1) as u16, ..area };
    let rows = shown(snapshot.explorer@, filter);
    let to = least(rows.len() as int, ui.offset + place.height);
    let drawn = rows_drawn(c, place, snapshot, rows, ui, ui.offset as int, to);
    let row = ui.offset + k;
    the_rows_of_the_explorer_are_on_the_screen(
        c,
        place,
        snapshot,
        rows,
        ui,
        ui.offset as int,
        to,
        row,
    );
    let node = snapshot.explorer@[rows[row] as int];
    let selected = ui.selected == Some(row as usize);
    let line = Rect::cut(area.x, (area.y + k) as u16, area.width - 1, 1);
    let bar = PaneId::Explorer;
    a_scrollbar_is_painted_over(drawn, area, bar, ui.offset as int, rows.len() as int);
    what_is_painted_stays(
        drawn,
        tree_drawn(c, area, snapshot, ui, filter),
        one_line(
            line,
            row_spans(line.width, node, selected, asked_color(snapshot, node)),
            row_style(selected),
        ),
    );
}

// ── the grid ───────────────────────────────────────────────────────────────

/// A grid shows its rows under its header from the one it is scrolled to on, as
/// many as there are lines for: every cell of a column that is shown is on the
/// screen, in the line of its row.
pub proof fn a_grid_shows_its_rows(
    c: CanvasView,
    area: Rect,
    rows: PagedResult,
    grid: GridView,
    sortable: bool,
    sort: Option<Sort>,
    k: int,
    j: int,
)
    requires
        area.fits(),
        area.width > 1,
        0 <= k < area.height - 1,
        grid.row_offset + k < rows.rows@.len(),
        0 <= j < columns_in(under_header(content_place(area)), rows, grid).len(),
        columns_in(under_header(content_place(area)), rows, grid)[j].0 < rows.columns@.len(),
    ensures
        body_drawn(c, area, rows, grid, sortable, sort).paints.contains(
            cell_paint(
                (area.y + 1 + k) as u16,
                rows,
                grid,
                (grid.row_offset + k) as usize,
                columns_in(under_header(content_place(area)), rows, grid)[j],
            ),
        ),
{
    let content = content_place(area);
    let place = under_header(content);
    let headed = header_drawn(c, content, rows, grid, sortable, sort);
    let columns = columns_in(place, rows, grid);
    let from = grid.row_offset as int;
    let to = least(rows.rows@.len() as int, from + place.height);
    let drawn = lines_drawn(headed, place, rows, grid, columns, from, to);
    the_cells_are_on_the_screen(headed, place, rows, grid, columns, from, to, from + k, j);
    a_scrollbar_is_painted_over(
        drawn,
        under_header(area),
        PaneId::Grid,
        from,
        rows.rows@.len() as int,
    );
    what_is_painted_stays(
        drawn,
        body_drawn(c, area, rows, grid, sortable, sort),
        cell_paint(
            (area.y + 1 + k) as u16,
            rows,
            grid,
            (grid.row_offset + k) as usize,
            columns[j],
        ),
    );
}

// ── tabs ───────────────────────────────────────────────────────────────────

proof fn more_tabs_stay_over(
    c: CanvasView,
    area: Rect,
    x: int,
    tabs: Seq<TabView>,
    active: Option<TabId>,
    from: int,
)
    ensures
        over(c, tabs_drawn(c, area, x, tabs, active, from).0),
    decreases tabs.len() - from,
{
    if !(from < 0 || from >= tabs.len()) {
        let width = spaced(tabs[from].content.title()).len();
        if x + width + 2 <= area.right_edge() {
            let next = tab_drawn(c, area, x, tabs[from], active);
            crate::pictures::a_tab_is_on_the_bar(c, area, x, tabs[from], active);
            more_tabs_stay_over(next, area, x + width + 2, tabs, active, from + 1);
            a_frame_under_another_stays(
                c,
                next,
                tabs_drawn(next, area, x + width + 2, tabs, active, from + 1).0,
            );
        }
    }
}

proof fn a_tab_begins_no_earlier(tabs: Seq<TabView>, x: int, from: int, n: int)
    ensures
        x <= tab_start(tabs, x, from, n),
    decreases n - from,
{
    if from < n {
        a_tab_begins_no_earlier(tabs, x + tab_columns(tabs[from]), from + 1, n);
    }
}

/// Every tab that fits on the bar is on it under its title, behind those before
/// it; and the one that is in front is painted unlike the others.
pub proof fn the_tabs_are_on_the_bar(
    c: CanvasView,
    area: Rect,
    x: int,
    tabs: Seq<TabView>,
    active: Option<TabId>,
    from: int,
    n: int,
)
    requires
        0 <= from <= n < tabs.len(),
        tab_start(tabs, x, from, n + 1) <= area.right_edge(),
    ensures
        ({
            let title = tabs[n].content.title();
            on(
                tabs_drawn(c, area, x, tabs, active, from).0,
                Rect::cut(
                    tab_start(tabs, x, from, n) as u16,
                    area.y,
                    title.len() as int + 2,
                    1,
                ),
                seq![raw(spaced(title))],
                tab_style(active == Some(tabs[n].id)),
            )
        }),
    decreases tabs.len() - from,
{
    let width = tab_columns(tabs[from]);
    let next = tab_drawn(c, area, x, tabs[from], active);
    let after = tabs_drawn(next, area, x + width, tabs, active, from + 1).0;
    a_tab_begins_no_earlier(tabs, x + width, from + 1, n + 1);
    more_tabs_stay_over(next, area, x + width, tabs, active, from + 1);
    if n == from {
        let title = tabs[n].content.title();
        crate::pictures::a_tab_is_on_the_bar(c, area, x, tabs[from], active);
        what_is_painted_stays(
            next,
            after,
            one_line(
                Rect::cut(x as u16, area.y, title.len() as int + 2, 1),
                seq![raw(spaced(title))],
                tab_style(active == Some(tabs[n].id)),
            ),
        );
    } else {
        the_tabs_are_on_the_bar(next, area, x + width, tabs, active, from + 1, n);
    }
}

// ── what is under way ──────────────────────────────────────────────────────

/// Where the `n`th of some jobs begins, the first of them at `x`.
pub open spec fn job_start(busy: Seq<BusyItem>, x: int, from: int, n: int) -> int
    decreases n - from,
{
    if n <= from {
        x
    } else {
        job_start(busy, x + busy[from].label@.len() + 7, from + 1, n)
    }
}

proof fn a_job_begins_no_earlier(busy: Seq<BusyItem>, x: int, from: int, n: int)
    ensures
        x <= job_start(busy, x, from, n),
    decreases n - from,
{
    if from < n {
        a_job_begins_no_earlier(busy, x + busy[from].label@.len() + 7, from + 1, n);
    }
}

proof fn jobs_follow_what_is_said(s: Saying, area: Rect, busy: Seq<BusyItem>, from: int, i: int)
    requires
        0 <= i < s.spans.len(),
    ensures
        s.spans.len() <= jobs_said(s, area, busy, from).spans.len(),
        jobs_said(s, area, busy, from).spans[i] == s.spans[i],
    decreases busy.len() - from,
{
    if !(from < 0 || from >= busy.len()) {
        let label = busy_label(busy[from]);
        if s.x + label.len() + 3 <= area.right_edge() {
            let next = Saying {
                canvas: s.canvas.hit(
                    Rect::cut((s.x + label.len()) as u16, area.y, 3, 1),
                    Z_CHROME,
                    Target::Button(ButtonId::Cancel(busy[from].id)),
                ),
                spans: s.spans.push(styled(label, Style::colored(Color::Yellow))).push(
                    styled("[×]"@, Style::colored(Color::Red).in_bold()),
                ),
                x: s.x + label.len() + 3,
            };
            jobs_follow_what_is_said(next, area, busy, from + 1, i);
        }
    }
}

/// Every job under way that fits on the status bar is named on it, in the order
/// they are under way, each with a box to stop it behind its name.
pub proof fn the_jobs_are_named(
    s: Saying,
    area: Rect,
    busy: Seq<BusyItem>,
    from: int,
    n: int,
)
    requires
        0 <= from <= n < busy.len(),
        job_start(busy, s.x, from, n + 1) <= area.right_edge(),
    ensures
        ({
            let said = jobs_said(s, area, busy, from).spans;
            let at = s.spans.len() + 2 * (n - from);
            let name = said[at].text;
            &&& at + 1 < said.len()
            &&& name.subrange(3, name.len() - 1) == busy[n].label@
            &&& name.len() == busy[n].label@.len() + 4
            &&& said[at + 1].text == "[×]"@
        }),
    decreases busy.len() - from,
{
    reveal_strlit(" ⟳ ");
    reveal_strlit(" ");
    let label = busy_label(busy[from]);
    assert(label.subrange(3, label.len() - 1) =~= busy[from].label@);
    let next = Saying {
        canvas: s.canvas.hit(
            Rect::cut((s.x + label.len()) as u16, area.y, 3, 1),
            Z_CHROME,
            Target::Button(ButtonId::Cancel(busy[from].id)),
        ),
        spans: s.spans.push(styled(label, Style::colored(Color::Yellow))).push(
            styled("[×]"@, Style::colored(Color::Red).in_bold()),
        ),
        x: s.x + label.len() + 3,
    };
    assert(next.x == s.x + busy[from].label@.len() + 7);
    a_job_begins_no_earlier(busy, next.x, from + 1, n + 1);
    if n == from {
        let at = s.spans.len() as int;
        jobs_follow_what_is_said(next, area, busy, from + 1, at);
        jobs_follow_what_is_said(next, area, busy, from + 1, at + 1);
    } else {
        the_jobs_are_named(next, area, busy, from + 1, n);
    }
}

// ── dialogs ────────────────────────────────────────────────────────────────

/// A block in the middle has the same room on either side, and above and below,
/// to a cell; and is as large as it was to be wherever there is room.
pub proof fn what_is_centred_is_in_the_middle(area: Rect, width: u16, height: u16)
    requires
        area.fits(),
    ensures
        ({
            let r = centred(area, width, height);
            let left = r.x - area.x;
            let right = (area.x + area.width) - (r.x + r.width);
            let above = r.y - area.y;
            let under = (area.y + area.height) - (r.y + r.height);
            &&& 0 <= left <= right <= left + 1
            &&& 0 <= above <= under <= above + 1
            &&& width <= area.width ==> r.width == width
            &&& height <= area.height ==> r.height == height
            &&& width > area.width ==> r.width == area.width
            &&& height > area.height ==> r.height == area.height
        }),
{
}

proof fn more_choices_stay_over(
    c: CanvasView,
    inner: Rect,
    dialog: ModalView,
    x: int,
    n: int,
)
    ensures
        over(c, choices_drawn(c, inner, dialog, x, n)),
    decreases n,
{
    if n > 0 {
        let label = spaced(sanitised(dialog.choices[n - 1].label));
        let width = display_columns(label);
        let left = x - 1 - width;
        if left >= inner.x {
            let button = Rect::cut(left as u16, less(inner.bottom_edge(), 1) as u16, width as int, 1);
            let next = c.hit(
                button,
                Z_MODAL,
                Target::Button(ButtonId::ModalChoice { index: (n - 1) as usize }),
            ).said(button, label, button_style(dialog.grave));
            more_choices_stay_over(next, inner, dialog, left, n - 1);
            a_frame_under_another_stays(c, next, choices_drawn(next, inner, dialog, left, n - 1));
        }
    }
}

/// A dialog says its title on its border and its body inside it, and has a way
/// out; a grave one is painted unlike one that is not.
pub proof fn a_dialog_says_what_it_is_about(c: CanvasView, area: Rect, dialog: ModalView)
    requires
        area.fits(),
        dialog_place(area, dialog).bordered().height > 0,
    ensures
        ({
            let after = modal_drawn(c, area, dialog);
            let place = dialog_place(area, dialog);
            let inner = place.bordered();
            let color = if dialog.grave {
                Color::Red
            } else {
                Color::Cyan
            };
            &&& over(c, after)
            &&& exists|i: int|
                0 <= i < after.paints.len() && (#[trigger] after.paints[i] matches PaintView::Border {
                    area: border,
                    title: Some(title),
                    style,
                    ..
                } && border == place && style == Style::colored(color) && title.text == spaced(
                    sanitised(dialog.title),
                ))
            &&& after.paints.contains(
                PaintView::Text {
                    area: Rect { height: less(inner.height as int, 2) as u16, ..inner },
                    lines: seq![seq![raw(sanitised(dialog.body))]],
                    style: Style::plain(),
                    overflow: Overflow::Wrap,
                    scroll: 0,
                },
            )
            &&& on(
                after,
                dismiss_place(inner),
                seq![raw(" Dismiss "@)],
                Style::colored(Color::Black).on(color).in_bold(),
            )
        }),
{
    let rect = dialog_place(area, dialog);
    let color = dialog_color(dialog.grave);
    let boxed = c.hit(area, Z_BACKDROP, Target::Backdrop).hit(
        rect,
        Z_MODAL,
        Target::Modal,
    ).cleared(rect).boxed(
        rect,
        crate::paint::BorderKind::Rounded,
        Style::colored(color),
        Some(styled(spaced(sanitised(dialog.title)), Style::colored(color).in_bold())),
    );
    let inner = rect.bordered();
    let button = dismiss_place(inner);
    let body = PaintView::Text {
        area: Rect { height: less(inner.height as int, 2) as u16, ..inner },
        lines: seq![seq![raw(sanitised(dialog.body))]],
        style: Style::plain(),
        overflow: Overflow::Wrap,
        scroll: 0,
    };
    let said = boxed.painted(body).hit(
        button,
        Z_MODAL,
        Target::Button(ButtonId::DismissModal),
    ).said(button, " Dismiss "@, button_style(dialog.grave));
    let after = modal_drawn(c, area, dialog);
    more_choices_stay_over(said, inner, dialog, button.x as int, dialog.choices.len() as int);
    let n = c.paints.len() as int;
    assert(said.paints[n + 1] == boxed.paints[n + 1]);
    assert(said.paints[n + 2] == body);
    assert(said.paints[n + 3] == one_line(
        button,
        seq![raw(" Dismiss "@)],
        button_style(dialog.grave),
    ));
    assert(over(c, said));
    a_frame_under_another_stays(c, said, after);
    what_is_painted_stays(said, after, body);
    what_is_painted_stays(said, after, said.paints[n + 3]);
    assert(after.paints[n + 1] == said.paints[n + 1]);
}

/// The last answer of a dialog is the one nearest its way out: its name is on the
/// screen where a click gives that answer, and the others follow to the left of
/// it.
pub proof fn an_answer_is_given_by_its_name(
    c: CanvasView,
    inner: Rect,
    dialog: ModalView,
    x: int,
    n: int,
)
    requires
        0 < n <= dialog.choices.len(),
        x <= u16::MAX,
        inner.x <= x - 1 - display_columns(spaced(sanitised(dialog.choices[n - 1].label))),
    ensures
        ({
            let label = spaced(sanitised(dialog.choices[n - 1].label));
            let width = display_columns(label);
            let place = Rect::cut(
                (x - 1 - width) as u16,
                less(inner.bottom_edge(), 1) as u16,
                width as int,
                1,
            );
            let next = c.hit(
                place,
                Z_MODAL,
                Target::Button(ButtonId::ModalChoice { index: (n - 1) as usize }),
            ).said(place, label, button_style(dialog.grave));
            let after = choices_drawn(c, inner, dialog, x, n);
            &&& on(after, place, seq![raw(label)], button_style(dialog.grave))
            &&& after == choices_drawn(next, inner, dialog, x - 1 - width, n - 1)
        }),
{
    let label = spaced(sanitised(dialog.choices[n - 1].label));
    let width = display_columns(label);
    let place = Rect::cut(
        (x - 1 - width) as u16,
        less(inner.bottom_edge(), 1) as u16,
        width as int,
        1,
    );
    let next = c.hit(
        place,
        Z_MODAL,
        Target::Button(ButtonId::ModalChoice { index: (n - 1) as usize }),
    ).said(place, label, button_style(dialog.grave));
    more_choices_stay_over(next, inner, dialog, x - 1 - width, n - 1);
    what_is_painted_stays(
        next,
        choices_drawn(c, inner, dialog, x, n),
        next.paints[next.paints.len() - 1],
    );
}

// ── lists ──────────────────────────────────────────────────────────────────

proof fn more_sections_stay_over(
    c: CanvasView,
    area: Rect,
    titles: Seq<Seq<char>>,
    selected: usize,
    from: int,
)
    ensures
        over(c, list_drawn(c, area, titles, selected, from)),
    decreases titles.len() - from,
{
    if !(from < 0 || from >= titles.len() || from >= area.height) {
        let row = Rect::cut(area.x, (area.y + from) as u16, LIST_WIDTH as int, 1);
        let next = c.hit(row, Z_CHROME, Target::Section { index: from as usize }).lined(
            row,
            seq![
                styled(
                    spaced(fitted(titles[from], (LIST_WIDTH - 2) as u16)),
                    section_style(from == selected),
                ),
            ],
            Style::plain(),
        );
        more_sections_stay_over(next, area, titles, selected, from + 1);
        a_frame_under_another_stays(c, next, list_drawn(next, area, titles, selected, from + 1));
    }
}

/// The sections of a definition stand one under the other in their order, and the
/// one that is shown is painted unlike the others.
pub proof fn the_sections_are_listed(
    c: CanvasView,
    area: Rect,
    titles: Seq<Seq<char>>,
    selected: usize,
    from: int,
    k: int,
)
    requires
        0 <= from <= k < titles.len(),
        k < area.height,
    ensures
        on(
            list_drawn(c, area, titles, selected, from),
            Rect::cut(area.x, (area.y + k) as u16, LIST_WIDTH as int, 1),
            seq![
                styled(
                    spaced(fitted(titles[k], (LIST_WIDTH - 2) as u16)),
                    section_style(k == selected),
                ),
            ],
            Style::plain(),
        ),
        section_style(true) != section_style(false),
    decreases titles.len() - from,
{
    let row = Rect::cut(area.x, (area.y + from) as u16, LIST_WIDTH as int, 1);
    let next = c.hit(row, Z_CHROME, Target::Section { index: from as usize }).lined(
        row,
        seq![
            styled(
                spaced(fitted(titles[from], (LIST_WIDTH - 2) as u16)),
                section_style(from == selected),
            ),
        ],
        Style::plain(),
    );
    let after = list_drawn(next, area, titles, selected, from + 1);
    more_sections_stay_over(next, area, titles, selected, from + 1);
    if k == from {
        what_is_painted_stays(next, after, next.paints[next.paints.len() - 1]);
    } else {
        the_sections_are_listed(next, area, titles, selected, from + 1, k);
    }
}

proof fn more_templates_stay_over(
    c: CanvasView,
    body: Rect,
    templates: Seq<Template>,
    list: Seq<usize>,
    selected: usize,
    first: int,
    row: int,
)
    ensures
        over(c, templates_drawn(c, body, templates, list, selected, first, row)),
    decreases body.height - row,
{
    let index = first + row;
    if !(row < 0 || row >= body.height || index >= list.len()) {
        let next = template_drawn(c, body, templates, list, selected, first, row);
        more_templates_stay_over(next, body, templates, list, selected, first, row + 1);
        a_frame_under_another_stays(
            c,
            next,
            templates_drawn(next, body, templates, list, selected, first, row + 1),
        );
    }
}

/// A frame with one saved statement on it.
pub open spec fn template_drawn(
    c: CanvasView,
    body: Rect,
    templates: Seq<Template>,
    list: Seq<usize>,
    selected: usize,
    first: int,
    row: int,
) -> CanvasView {
    let line = Rect { y: (body.y + row) as u16, height: 1, ..body };
    let index = first + row;
    c.hit(line, Z_MODAL, Target::PaletteRow { index: index as usize }).lined(
        line,
        seq![
            styled(
                fitted(sanitised(listed_as(templates[list[index] as int])), line.width),
                if index == selected {
                    Style::colored(Color::Black).on(Color::Cyan)
                } else {
                    Style::plain()
                },
            ),
        ],
        Style::plain(),
    )
}

/// The saved statements that are listed stand one under the other in their order,
/// from the first that is on the screen, and the selected one alone is painted
/// as such.
pub proof fn the_saved_statements_are_listed(
    c: CanvasView,
    body: Rect,
    templates: Seq<Template>,
    list: Seq<usize>,
    selected: usize,
    first: int,
    row: int,
    k: int,
)
    requires
        0 <= row <= k < body.height,
        first + k < list.len(),
    ensures
        on(
            templates_drawn(c, body, templates, list, selected, first, row),
            Rect { y: (body.y + k) as u16, height: 1, ..body },
            seq![
                styled(
                    fitted(
                        sanitised(listed_as(templates[list[first + k] as int])),
                        body.width,
                    ),
                    if first + k == selected {
                        Style::colored(Color::Black).on(Color::Cyan)
                    } else {
                        Style::plain()
                    },
                ),
            ],
            Style::plain(),
        ),
    decreases body.height - row,
{
    let next = template_drawn(c, body, templates, list, selected, first, row);
    let after = templates_drawn(next, body, templates, list, selected, first, row + 1);
    more_templates_stay_over(next, body, templates, list, selected, first, row + 1);
    if k == row {
        what_is_painted_stays(next, after, next.paints[next.paints.len() - 1]);
    } else {
        the_saved_statements_are_listed(
            next,
            body,
            templates,
            list,
            selected,
            first,
            row + 1,
            k,
        );
    }
}

proof fn more_fields_stay_over(c: CanvasView, area: Rect, form: FormView, from: int)
    ensures
        over(c, fields_drawn(c, area, form, from)),
    decreases form.fields.len() - from,
{
    if !(from < 0 || from >= form.fields.len() || from >= area.height) {
        let next = c.lined(
            Rect { y: (area.y + from) as u16, height: 1, ..area },
            field_spans(form.fields[from], from == form.at),
            Style::plain(),
        );
        more_fields_stay_over(next, area, form, from + 1);
        a_frame_under_another_stays(c, next, fields_drawn(next, area, form, from + 1));
    }
}

/// The fields of a form stand one under the other in their order, and the
/// keyboard is in the one it is in.
pub proof fn the_fields_are_on_the_form(
    c: CanvasView,
    area: Rect,
    form: FormView,
    from: int,
    k: int,
)
    requires
        0 <= from <= k < form.fields.len(),
        k < area.height,
    ensures
        on(
            fields_drawn(c, area, form, from),
            Rect { y: (area.y + k) as u16, height: 1, ..area },
            field_spans(form.fields[k], k == form.at),
            Style::plain(),
        ),
    decreases form.fields.len() - from,
{
    let next = c.lined(
        Rect { y: (area.y + from) as u16, height: 1, ..area },
        field_spans(form.fields[from], from == form.at),
        Style::plain(),
    );
    let after = fields_drawn(next, area, form, from + 1);
    more_fields_stay_over(next, area, form, from + 1);
    if k == from {
        what_is_painted_stays(next, after, next.paints[next.paints.len() - 1]);
    } else {
        the_fields_are_on_the_form(next, area, form, from + 1, k);
    }
}

// ── the line above a definition ────────────────────────────────────────────

/// Whether a text is in another somewhere.
pub open spec fn is_in(part: Seq<char>, whole: Seq<char>) -> bool {
    exists|at: int|
        0 <= at <= whole.len() - part.len() && #[trigger] whole.subrange(at, at + part.len())
            == part
}

/// Every part of what is joined is in it.
pub proof fn a_part_is_in_the_whole(parts: Seq<Seq<char>>, sep: Seq<char>, i: int)
    requires
        0 <= i < parts.len(),
    ensures
        is_in(parts[i], joined(parts, sep)),
    decreases parts.len(),
{
    let whole = joined(parts, sep);
    if parts.len() == 1 {
        assert(whole.subrange(0int, 0int + parts[i].len()) =~= parts[i]);
    } else {
        let before = joined(parts.drop_last(), sep);
        if i == parts.len() - 1 {
            let at = (before.len() + sep.len()) as int;
            assert(whole.subrange(at, at + parts[i].len()) =~= parts[i]);
        } else {
            a_part_is_in_the_whole(parts.drop_last(), sep, i);
            let at = choose|at: int|
                0 <= at <= before.len() - parts[i].len() && #[trigger] before.subrange(
                    at,
                    at + parts[i].len(),
                ) == parts[i];
            assert(whole.subrange(at, at + parts[i].len()) =~= before.subrange(
                at,
                at + parts[i].len(),
            ));
        }
    }
}

proof fn the_whole_begins_with_the_first(parts: Seq<Seq<char>>, sep: Seq<char>)
    requires
        parts.len() > 0,
    ensures
        parts[0].len() <= joined(parts, sep).len(),
        joined(parts, sep).take(parts[0].len() as int) == parts[0],
    decreases parts.len(),
{
    if parts.len() > 1 {
        the_whole_begins_with_the_first(parts.drop_last(), sep);
        let before = joined(parts.drop_last(), sep);
        assert(joined(parts, sep).take(parts[0].len() as int) =~= before.take(
            parts[0].len() as int,
        ));
    } else {
        assert(joined(parts, sep).take(parts[0].len() as int) =~= parts[0]);
    }
}

/// What is said above a definition begins with what kind of relation it is, and
/// has every one of its numbers under its name, and its comment.
pub proof fn a_relation_is_summed_up(laid: Laid, i: int)
    requires
        0 <= i < laid.stats@.len(),
    ensures
        ({
            let said = summed_up(laid);
            let (name, number) = laid.stats@[i];
            &&& said.take(laid.kind@.len() as int) == laid.kind@
            &&& is_in(lowercase(name@) + ": "@ + number@, said)
            &&& laid.comment matches Some(comment) ==> is_in(sanitised(comment@), said)
        }),
{
    let stats = laid.stats@.map_values(|s: (String, String)| stat_text(s));
    let parts = seq![laid.kind@] + stats + comment_part(laid.comment);
    the_whole_begins_with_the_first(parts, " · "@);
    assert(parts[i + 1] == stat_text(laid.stats@[i]));
    a_part_is_in_the_whole(parts, " · "@, i + 1);
    if let Some(comment) = laid.comment {
        let last = laid.stats@.len() as int + 1;
        assert(parts[last] == sanitised(comment@));
        a_part_is_in_the_whole(parts, " · "@, last);
    }
}

} // verus!
