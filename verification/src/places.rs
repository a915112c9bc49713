//! What stands in a place: what it is while there is nothing to show, how much
//! room it takes, and what it says of where the keyboard is.

use crate::chrome::{fitted, pane_drawn, run_said, selected_words, spaced, status_spans, Saying};
use crate::datagrid::{
    body_place, content_place, grid_drawn, header_drawn, preview_drawn, under_header,
};
use crate::definition::beside_the_list;
use crate::geometry::{least, less, Rect};
use crate::grid::sanitised;
use crate::hit::PaneId;
use crate::ids::{ConnId, TabId};
use crate::intent::Dialect;
use crate::model::{
    conn_is, preview_of, query_is, ConnectionView, LoadState, PagedResult, PreviewView, QueryView,
    Snapshot, Sort, Template, VisibleNode,
};
use crate::overlay::{broken, dialog_place, placed, rows_from, text_rows, ModalView};
use crate::paint::{raw, styled, CanvasView, Color, PaintView, Style};
use crate::palette::{
    choosing_drawn, form_drawn, list_of, listed_as, prompt_drawn, FormView, PaletteView,
};
use crate::panes::{a_part_is_in_the_whole, is_in, the_saved_statements_are_listed};
use crate::pictures::{a_line_is_painted, on, over};
use crate::screen::{front_title, over_drawn, rows_front, sql_front, text_front};
use crate::search::{first, first_item};
use crate::shown::{a_cell_shows_its_text, shows};
use crate::sql::{buffer_drawn, statement_drawn};
use crate::state::{GridView, TabView, UiView};
use crate::text::{blank, display_columns, holds, joined, lines_of, lowercase, pieces};
use crate::tree::{
    a_search_leaves_exactly_what_stays, answers, asked_color, explorer_drawn, filter_drawn,
    profile_color, shown, stays, tree_drawn, under, waiting_words,
};
use crate::ui::TreeUi;
use vstd::prelude::*;

verus! {

// ── how much room words take ───────────────────────────────────────────────

/// How many columns the first `n` of some words take together.
pub open spec fn columns_of(words: Seq<Seq<char>>, n: int) -> int
    decreases n,
{
    if n <= 0 {
        0
    } else {
        columns_of(words, n - 1) + display_columns(words[n - 1])
    }
}

proof fn a_broken_word_is_all_there(rows: int, used: int, width: int)
    requires
        0 < width,
        0 <= used,
        0 <= rows <= u16::MAX,
    ensures
        ({
            let (r, u) = broken(rows, used, width);
            &&& r < u16::MAX ==> r * width + u == rows * width + used
            &&& rows <= r <= u16::MAX
            &&& 0 <= u <= width
        }),
    decreases used,
{
    if used > width {
        let next = least(rows + 1, u16::MAX as int);
        a_broken_word_is_all_there(next, used - width, width);
        assert((rows + 1) * width == rows * width + width) by (nonlinear_arith);
    }
}

proof fn rows_are_never_taken_back(
    words: Seq<Seq<char>>,
    width: int,
    from: int,
    rows: int,
    used: int,
)
    requires
        0 < width,
        0 <= rows <= u16::MAX,
        0 <= used <= width,
    ensures
        rows <= rows_from(words, width, from, rows, used) <= u16::MAX,
    decreases words.len() - from,
{
    if 0 <= from < words.len() {
        let wide = display_columns(words[from]) as int;
        a_broken_word_is_all_there(rows, wide, width);
        a_broken_word_is_all_there(least(rows + 1, u16::MAX as int), wide, width);
        let (r, u) = placed(from == 0, wide, width, rows, used);
        rows_are_never_taken_back(words, width, from + 1, r, u);
    }
}

proof fn rows_hold_the_words(
    words: Seq<Seq<char>>,
    width: int,
    from: int,
    rows: int,
    used: int,
)
    requires
        0 < width < u16::MAX,
        0 <= from <= words.len(),
        1 <= rows <= u16::MAX,
        0 <= used <= width,
        from == 0 ==> rows == 1 && used == 0,
        (rows - 1) * width + used >= columns_of(words, from),
        rows_from(words, width, from, rows, used) < u16::MAX,
    ensures
        rows_from(words, width, from, rows, used) * width >= columns_of(
            words,
            words.len() as int,
        ),
    decreases words.len() - from,
{
    if from < words.len() {
        let wide = display_columns(words[from]) as int;
        let next = least(rows + 1, u16::MAX as int);
        a_broken_word_is_all_there(rows, wide, width);
        a_broken_word_is_all_there(next, wide, width);
        let (r, u) = placed(from == 0, wide, width, rows, used);
        rows_are_never_taken_back(words, width, from + 1, r, u);
        assert(r < u16::MAX);
        let before = columns_of(words, from);
        assert((rows - 1) * width + width == rows * width) by (nonlinear_arith);
        assert((r - 1) * width + width == r * width) by (nonlinear_arith);
        assert((rows + 1) * width == rows * width + width) by (nonlinear_arith);
        assert((r - 1) * width + u >= columns_of(words, from + 1));
        rows_hold_the_words(words, width, from + 1, r, u);
    } else {
        assert((rows - 1) * width + used <= rows * width) by (nonlinear_arith)
            requires
                used <= width,
        ;
    }
}

/// A box is never too low for its text: the rows that are counted for it have
/// room for every word.
pub proof fn a_box_has_room_for_its_text(text: Seq<char>, width: u16)
    requires
        0 < width < u16::MAX,
        text_rows(text, width) < u16::MAX,
    ensures
        text_rows(text, width) * width >= columns_of(
            pieces(text, ' '),
            pieces(text, ' ').len() as int,
        ),
        text_rows(text, width) >= 1,
{
    let words = pieces(text, ' ');
    assert((1 - 1) * (width as int) + 0 == 0) by (nonlinear_arith);
    rows_hold_the_words(words, width as int, 0, 1, 0);
    rows_are_never_taken_back(words, width as int, 0, 1, 0);
}

proof fn a_row_holds_what_fits_on_it(
    words: Seq<Seq<char>>,
    width: int,
    from: int,
    used: int,
)
    requires
        0 < width <= u16::MAX,
        0 <= from <= words.len(),
        0 <= used,
        from == 0 ==> used == 0,
        from > 0 ==> used == columns_of(words, from) + from - 1,
        columns_of(words, words.len() as int) + words.len() - 1 <= width,
        columns_of(words, from) + (from - 1) <= columns_of(words, words.len() as int)
            + words.len() - 1,
    ensures
        rows_from(words, width, from, 1, used) == 1,
    decreases words.len() - from,
{
    if from < words.len() {
        let wide = display_columns(words[from]) as int;
        more_words_take_more(words, from + 1, words.len() as int);
        let (r, u) = placed(from == 0, wide, width, 1, used);
        assert(r == 1);
        a_row_holds_what_fits_on_it(words, width, from + 1, u);
    }
}

proof fn more_words_take_more(words: Seq<Seq<char>>, n: int, m: int)
    requires
        0 <= n <= m,
    ensures
        columns_of(words, n) <= columns_of(words, m),
        0 <= columns_of(words, n),
    decreases m,
{
    if n < m {
        more_words_take_more(words, n, m - 1);
    } else if n > 0 {
        more_words_take_more(words, n - 1, n - 1);
    }
}

/// Words that fit on one row together, with a space between each two, take one.
pub proof fn what_fits_on_a_row_takes_one(text: Seq<char>, width: u16)
    requires
        ({
            let words = pieces(text, ' ');
            columns_of(words, words.len() as int) + words.len() - 1 <= width
        }),
        width > 0,
    ensures
        text_rows(text, width) == 1,
{
    let words = pieces(text, ' ');
    more_words_take_more(words, 0, words.len() as int);
    crate::reading::a_text_is_its_pieces(text, ' ', Seq::empty());
    a_row_holds_what_fits_on_it(words, width as int, 0, 0);
}

/// A dialog is sixty columns wide where the screen is, and has two rows for its
/// border, one for its answers and one to breathe besides the rows of its
/// text, where the screen has them.
pub proof fn a_dialog_takes_the_room_it_needs(area: Rect, dialog: ModalView)
    requires
        area.fits(),
        area.width >= 60,
        text_rows(sanitised(dialog.body), 58) + 4 <= area.height,
        text_rows(sanitised(dialog.body), 58) >= 0,
    ensures
        dialog_place(area, dialog).width == 60,
        dialog_place(area, dialog).height == text_rows(sanitised(dialog.body), 58) + 4,
{
}

// ── in place of what is not there ──────────────────────────────────────────

/// An explorer with nothing in it says why: a connection is being opened, nothing
/// is configured, or nothing is connected.
pub proof fn an_empty_explorer_says_why(
    c: CanvasView,
    area: Rect,
    snapshot: Snapshot,
    ui: TreeUi,
    filter: Option<Seq<char>>,
)
    requires
        snapshot.explorer@.len() == 0,
    ensures
        ({
            let said = waiting_words(snapshot);
            let connecting = snapshot.connections@.len() > 0
                && snapshot.connections@[0].status is Connecting;
            let after = tree_drawn(c, area, snapshot, ui, filter);
            &&& connecting <==> said == " connecting… "@
            &&& !connecting && snapshot.profiles@.len() == 0 <==> said
                == " no connections configured — write connections.toml "@
            &&& !connecting && snapshot.profiles@.len() > 0 <==> said
                == " nothing connected — press c "@
            &&& after.paints.last() matches PaintView::Text { area: place, lines, .. } && place
                == area && lines == seq![seq![raw(said)]]
        }),
{
    reveal_strlit(" connecting… ");
    reveal_strlit(" no connections configured — write connections.toml ");
    reveal_strlit(" nothing connected — press c ");
    assert(" connecting… "@[1] == 'c');
    assert(" no connections configured — write connections.toml "@[3] == ' ');
    assert(" nothing connected — press c "@[3] == 't');
}

/// A preview shows its rows once they are there, and before that what it is
/// waiting for or why it will not come.
pub proof fn a_preview_says_how_it_stands(
    c: CanvasView,
    area: Rect,
    preview: PreviewView,
    grid: GridView,
    sortable: bool,
)
    requires
        !area.empty(),
        !(preview.data is Ready),
    ensures
        ({
            let after = preview_drawn(c, area, preview, grid, sortable);
            let (text, color) = match preview.data {
                LoadState::Loading => ("loading…"@, Color::Yellow),
                LoadState::Failed(why) => (why@, Color::Red),
                _ => ("select a table"@, Color::DarkGray),
            };
            &&& over(c, after)
            &&& on(after, area, seq![raw(spaced(sanitised(text)))], Style::colored(color))
            &&& shows(sanitised(text), text)
        }),
{
    let (text, color) = match preview.data {
        LoadState::Loading => ("loading…"@, Color::Yellow),
        LoadState::Failed(why) => (why@, Color::Red),
        _ => ("select a table"@, Color::DarkGray),
    };
    a_cell_shows_its_text(text);
    a_line_is_painted(c, area, seq![raw(spaced(sanitised(text)))], Style::colored(color));
}

/// A grid without rows still has its header, and says under it that there are
/// none.
pub proof fn a_grid_without_rows_says_so(
    c: CanvasView,
    area: Rect,
    rows: PagedResult,
    grid: GridView,
    sortable: bool,
    sort: Option<Sort>,
)
    requires
        rows.rows@.len() == 0,
        area.height > 1,
    ensures
        ({
            let after = grid_drawn(c, area, rows, grid, sortable, sort);
            &&& over(header_drawn(c, area, rows, grid, sortable, sort), after)
            &&& on(
                after,
                under_header(area),
                seq![raw(spaced(sanitised("no rows"@)))],
                Style::colored(Color::DarkGray),
            )
        }),
{
    a_line_is_painted(
        header_drawn(c, area, rows, grid, sortable, sort),
        under_header(area),
        seq![raw(spaced(sanitised("no rows"@)))],
        Style::colored(Color::DarkGray),
    );
}

/// A statement tab shows the rows of its run once they are there, and otherwise
/// its text, with the line that the run failed at.
pub proof fn a_statement_shows_its_rows_or_its_text(
    c: CanvasView,
    ui: UiView,
    id: TabId,
    text: Seq<char>,
    run: QueryView,
    area: Rect,
    snapshot: Snapshot,
    wanted: bool,
)
    requires
        first_item(snapshot.queries@, query_is(run.id)) == Some(run),
    ensures
        ({
            let front = sql_front(c, ui, id, text, Some(run.id), area, snapshot, wanted);
            match run.data {
                LoadState::Ready(rows) => front == rows_front(c, ui, id, area, *rows, wanted),
                _ => front == text_front(c, ui, area, text, run.failed_at),
            }
        }),
        sql_front(c, ui, id, text, None, area, snapshot, wanted) == text_front(
            c,
            ui,
            area,
            text,
            None,
        ),
{
}

/// A text is drawn from the line it is scrolled to, as many lines as there is
/// room for; and a blank one says how to fill it.
pub proof fn a_text_is_drawn_from_where_it_is_scrolled(
    c: CanvasView,
    area: Rect,
    text: Seq<char>,
    offset: usize,
    at: Option<usize>,
)
    requires
        area.height > 0,
    ensures
        ({
            let after = statement_drawn(c, area, text, offset, at);
            let all = lines_of(text);
            let last = after.paints.last();
            &&& over(c, after)
            &&& blank(text) ==> on(
                after,
                area,
                seq![raw("Press e to write a query."@)],
                Style::colored(Color::DarkGray).dimmed(),
            )
            &&& !blank(text) ==> (last matches PaintView::Text { area: place, lines, scroll, .. }
                && {
                &&& place == area && scroll == 0
                &&& offset + area.height <= all.len() ==> lines == buffer_drawn(
                    all,
                    at,
                    offset as int,
                    offset + area.height,
                )
                &&& offset + area.height > all.len() ==> lines == buffer_drawn(
                    all,
                    at,
                    offset as int,
                    all.len() as int,
                )
            })
        }),
{
    if blank(text) {
        a_line_is_painted(
            c,
            area,
            seq![raw("Press e to write a query."@)],
            Style::colored(Color::DarkGray).dimmed(),
        );
    }
}

// ── the explorer ───────────────────────────────────────────────────────────

/// The search box shows what is typed into it, on the first line of the
/// explorer, and the rows begin on the line below.
pub proof fn a_search_of_the_explorer_is_shown(
    c: CanvasView,
    area: Rect,
    snapshot: Snapshot,
    ui: TreeUi,
    text: Seq<char>,
)
    requires
        !area.empty(),
        area.height > 1,
        area.fits(),
    ensures
        ({
            let line = Rect { height: 1, ..area };
            let boxed = filter_drawn(c, line, text);
            let rest = Rect {
                y: (area.y + 1) as u16,
                height: (area.height - 1) as u16,
                ..area
            };
            &&& explorer_drawn(c, area, snapshot, ui, Some(text)) == tree_drawn(
                boxed,
                rest,
                snapshot,
                ui,
                Some(text),
            )
            &&& (boxed.paints.last() matches PaintView::Text { area: place, lines, .. } && place
                == line && lines[0].len() == 3 && (display_columns(sanitised(text)) + 2
                <= area.width ==> lines[0][1].text == sanitised(text)))
            &&& shows(sanitised(text), text)
        }),
{
    a_cell_shows_its_text(text);
}

/// The row of a connection has the colour its profile asks for, and no row under
/// it has.
pub proof fn only_a_connection_has_the_colour_of_its_profile(snapshot: Snapshot, node: VisibleNode)
    ensures
        node.node_ref.path@.len() > 0 ==> asked_color(snapshot, node) is None,
        node.node_ref.path@.len() == 0 ==> match first_item(
            snapshot.connections@,
            conn_is(node.conn),
        ) {
            Some(conn) => match conn.color {
                Some(color) => asked_color(snapshot, node) == Some(profile_color(color)),
                None => asked_color(snapshot, node) is None,
            },
            None => asked_color(snapshot, node) is None,
        },
{
}

// ── panes ──────────────────────────────────────────────────────────────────

/// A pane has its title on its border, and the one that the keyboard is in can be
/// told from the others by it.
pub proof fn the_pane_in_focus_can_be_seen(
    c: CanvasView,
    area: Rect,
    id: PaneId,
    title: Seq<char>,
)
    ensures
        ({
            let here = pane_drawn(c, area, id, title, true).paints.last();
            let not = pane_drawn(c, area, id, title, false).paints.last();
            &&& (here matches PaintView::Border {
                area: place,
                title: Some(said),
                kind,
                style,
            } && (not matches PaintView::Border {
                area: other,
                title: Some(same),
                kind: other_kind,
                style: other_style,
            } && place == area && other == area && said.text == spaced(title) && same.text
                == spaced(title) && kind != other_kind && style != other_style))
        }),
{
}

/// The pane in front is called what the tab in front is called.
pub proof fn the_pane_in_front_is_called_by_its_tab(ui: UiView)
    ensures
        match ui.current() {
            Some(tab) => front_title(ui) == tab.content.title(),
            None => front_title(ui) == "Preview"@,
        },
{
}

/// The list of sections takes its columns from the left of the pane, and only
/// where as many and more are left for the rest.
pub proof fn a_list_leaves_more_than_it_takes(area: Rect)
    requires
        area.fits(),
    ensures
        ({
            let rest = beside_the_list(area);
            let taken = area.width - rest.width;
            &&& taken == 0 || taken == 16
            &&& taken == 16 <==> area.width > 32
            &&& rest.x == area.x + taken
            &&& rest.y == area.y && rest.height == area.height
        }),
{
}

/// The status bar offers to run what is in front where it can be run and there is
/// room, after the jobs; and says last how many cells are selected.
pub proof fn the_status_bar_offers_to_run(s: Saying, area: Rect, selected: Option<(usize, usize)>)
    ensures
        ({
            let offered = run_said(s, area, true);
            let not = run_said(s, area, false);
            &&& not == s
            &&& s.x + 5 <= area.right_edge() ==> offered.spans.len() == s.spans.len() + 1
                && offered.spans.last().text == " Run "@
            &&& s.x + 5 > area.right_edge() ==> offered == s
            &&& (selected matches Some(cells) ==> status_spans(s.spans, selected).last().text
                == selected_words(cells) && status_spans(s.spans, selected).drop_last() == s.spans)
            &&& selected is None && s.spans.len() > 0 ==> status_spans(s.spans, selected) == s.spans
        }),
{
    if let Some(cells) = selected {
        assert(status_spans(s.spans, selected).drop_last() =~= s.spans);
    }
}

// ── the palette ────────────────────────────────────────────────────────────

/// Whichever saved statement is selected is on the screen, under its name, and as
/// the selected one; a list that has nothing on it, or cannot be had, says so.
pub proof fn the_selected_line_is_on_the_list(
    c: CanvasView,
    area: Rect,
    palette: PaletteView,
    templates: Seq<Template>,
    unavailable: Option<Seq<char>>,
)
    requires
        area.height > 2,
    ensures
        ({
            let after = choosing_drawn(c, area, palette, templates, unavailable);
            let body = Rect { y: (area.y + 2) as u16, height: (area.height - 2) as u16, ..area };
            let list = list_of(templates, palette.filter);
            match unavailable {
                Some(why) => on(
                    after,
                    body,
                    seq![styled(fitted(sanitised(why), body.width), Style::colored(Color::Red))],
                    Style::plain(),
                ),
                None => if list.len() == 0 {
                    on(
                        after,
                        body,
                        seq![
                            styled(
                                fitted("nothing saved matches"@, body.width),
                                Style::colored(Color::DarkGray),
                            ),
                        ],
                        Style::plain(),
                    )
                } else {
                    palette.selected < list.len() ==> exists|k: int|
                        0 <= k < body.height && #[trigger] on(
                            after,
                            Rect { y: (body.y + k) as u16, height: 1, ..body },
                            seq![
                                styled(
                                    fitted(
                                        sanitised(
                                            listed_as(
                                                templates[list[palette.selected as int] as int],
                                            ),
                                        ),
                                        body.width,
                                    ),
                                    Style::colored(Color::Black).on(Color::Cyan),
                                ),
                            ],
                            Style::plain(),
                        )
                },
            }
        }),
{
    let prompted = prompt_drawn(c, area, palette.filter);
    let body = Rect { y: (area.y + 2) as u16, height: (area.height - 2) as u16, ..area };
    let list = list_of(templates, palette.filter);
    match unavailable {
        Some(why) => {
            a_line_is_painted(
                prompted,
                body,
                seq![styled(fitted(sanitised(why), body.width), Style::colored(Color::Red))],
                Style::plain(),
            );
        },
        None => {
            if list.len() == 0 {
                a_line_is_painted(
                    prompted,
                    body,
                    seq![
                        styled(
                            fitted("nothing saved matches"@, body.width),
                            Style::colored(Color::DarkGray),
                        ),
                    ],
                    Style::plain(),
                );
            } else if palette.selected < list.len() {
                let first = less(palette.selected as int, body.height - 1);
                let k = palette.selected - first;
                the_saved_statements_are_listed(
                    prompted,
                    body,
                    templates,
                    list,
                    palette.selected,
                    first,
                    0,
                    k,
                );
                assert(on(
                    choosing_drawn(c, area, palette, templates, unavailable),
                    Rect { y: (body.y + k) as u16, height: 1, ..body },
                    seq![
                        styled(
                            fitted(
                                sanitised(
                                    listed_as(templates[list[palette.selected as int] as int]),
                                ),
                                body.width,
                            ),
                            Style::colored(Color::Black).on(Color::Cyan),
                        ),
                    ],
                    Style::plain(),
                ));
            }
        },
    }
}

/// The palette is called by what it is open for, and the place it has fits the
/// lines it shows: one at least, and twelve at most.
pub proof fn the_palette_takes_the_room_it_needs(
    palette: PaletteView,
    area: Rect,
    templates: Seq<Template>,
)
    requires
        area.fits(),
        area.width >= 20,
        area.height >= 16,
    ensures
        ({
            let place = palette.place(area, templates);
            let lines = palette.lines(templates);
            &&& 1 <= lines <= 12 ==> place.height == lines + 4
            &&& lines == 0 ==> place.height == 5
            &&& lines > 12 ==> place.height == 16
            &&& place.within(area)
            &&& (palette.asking matches Some(form) ==> palette.title() == spaced(form.name) && lines
                == form.fields.len())
            &&& palette.asking is None ==> lines == list_of(templates, palette.filter).len()
        }),
{
}

/// What was typed to narrow the list is on its first line; what is wrong with a
/// form is on its last.
pub proof fn the_palette_shows_what_was_typed(
    c: CanvasView,
    area: Rect,
    filter: Seq<char>,
    form: FormView,
)
    requires
        area.height > 0,
    ensures
        ({
            let after = prompt_drawn(c, area, filter);
            &&& on(
                after,
                Rect { height: 1, ..area },
                seq![
                    styled("> "@, Style::colored(Color::Cyan)),
                    raw(sanitised(filter)),
                    styled("▏"@, Style::colored(Color::Cyan)),
                ],
                Style::plain(),
            )
            &&& shows(sanitised(filter), filter)
            &&& (form.failed matches Some(why) ==> on(
                form_drawn(c, area, form),
                Rect { y: (area.y + area.height - 1) as u16, height: 1, ..area },
                seq![styled(fitted(sanitised(why), area.width), Style::colored(Color::Red))],
                Style::plain(),
            ))
        }),
{
    a_cell_shows_its_text(filter);
    a_line_is_painted(
        c,
        Rect { height: 1, ..area },
        seq![
            styled("> "@, Style::colored(Color::Cyan)),
            raw(sanitised(filter)),
            styled("▏"@, Style::colored(Color::Cyan)),
        ],
        Style::plain(),
    );
    if let Some(why) = form.failed {
        a_line_is_painted(
            crate::palette::fields_drawn(c, area, form, 0),
            Rect { y: (area.y + area.height - 1) as u16, height: 1, ..area },
            seq![styled(fitted(sanitised(why), area.width), Style::colored(Color::Red))],
            Style::plain(),
        );
    }
}

/// While a dialog is up the palette is not on the screen: what is drawn is the
/// same with one open and with none.
pub proof fn a_palette_waits_for_a_dialog(
    c: CanvasView,
    ui: UiView,
    area: Rect,
    frames: crate::chrome::Frames,
    snapshot: Snapshot,
)
    requires
        ui.modal is Some,
    ensures
        over_drawn(c, ui, area, frames, snapshot) == over_drawn(
            c,
            (UiView { palette: None, ..ui }),
            area,
            frames,
            snapshot,
        ),
{
}

// ── names ──────────────────────────────────────────────────────────────────

/// The relation that is selected is named by every part of its path, the last of
/// them at the end.
pub proof fn a_relation_is_named_by_its_path(ui: UiView, snapshot: Snapshot, i: int)
    requires
        ui.selected_table(snapshot) is Some,
        0 <= i < ui.selected_node(snapshot)->0.node_ref.relation()->0@.len(),
    ensures
        ({
            let name = ui.selected_table(snapshot)->0;
            let path = ui.selected_node(snapshot)->0.node_ref.relation()->0@;
            let last = path.last();
            &&& is_in(path[i], name)
            &&& path.len() == 1 ==> name == path[0]
            &&& last.len() <= name.len()
            &&& name.skip(name.len() - last.len()) == last
        }),
{
    let path = ui.selected_node(snapshot)->0.node_ref.relation()->0@;
    let name = joined(path, "."@);
    a_part_is_in_the_whole(path, "."@, i);
    let last = path.last();
    assert(name.skip(name.len() - last.len()) =~= last);
}

/// A statement is quoted by the rules of the connection of the tab in front, once
/// those are known.
pub proof fn a_statement_is_quoted_for_its_connection(ui: UiView, snapshot: Snapshot, tab: TabView)
    requires
        ui.current() == Some(tab),
    ensures
        ui.dialect(snapshot) == match first_item(snapshot.connections@, conn_is(tab.conn)) {
            Some(conn) => match conn.capabilities {
                Some(_) => Dialect::OfConnection(tab.conn),
                None => Dialect::PostgreSql,
            },
            None => Dialect::PostgreSql,
        },
{
}

// ── what is meant ──────────────────────────────────────────────────────────

/// A search of the explorer leaves a row on the screen where its name, or that of
/// a row somewhere under it, holds what is searched for — in capitals or not —
/// and leaves no other; and those it leaves stay in their order.
pub proof fn a_search_leaves_what_it_finds_and_what_that_is_under(
    nodes: Seq<VisibleNode>,
    wanted: Seq<char>,
    i: int,
)
    requires
        0 <= i < nodes.len() <= usize::MAX,
        wanted.len() > 0,
    ensures
        ({
            let rows = shown(nodes, Some(wanted));
            &&& rows.contains(i as usize) <==> exists|j: int|
                i <= j < nodes.len() && #[trigger] holds(
                    lowercase(nodes[j].label@),
                    lowercase(wanted),
                ) && forall|k: int| i < k <= j ==> (#[trigger] nodes[k]).depth > nodes[i].depth
            &&& forall|a: int, b: int|
                0 <= a < b < rows.len() ==> #[trigger] rows[a] < #[trigger] rows[b]
        }),
{
    let rows = shown(nodes, Some(wanted));
    let n = nodes.len() as int;
    a_search_leaves_exactly_what_stays(nodes, wanted, n);
    if rows.contains(i as usize) {
        let a = choose|a: int| 0 <= a < rows.len() && rows[a] == i as usize;
        assert(stays(nodes, wanted, rows[a] as int));
        if answers(nodes[i], wanted) {
            assert(holds(lowercase(nodes[i].label@), lowercase(wanted)));
        } else {
            let j = choose|j: int| #[trigger] under(nodes, i, j) && answers(nodes[j], wanted);
            assert(holds(lowercase(nodes[j].label@), lowercase(wanted)));
        }
    }
    if exists|j: int|
        i <= j < nodes.len() && #[trigger] holds(lowercase(nodes[j].label@), lowercase(wanted))
            && forall|k: int| i < k <= j ==> (#[trigger] nodes[k]).depth > nodes[i].depth {
        let j = choose|j: int|
            i <= j < nodes.len() && #[trigger] holds(
                lowercase(nodes[j].label@),
                lowercase(wanted),
            ) && forall|k: int| i < k <= j ==> (#[trigger] nodes[k]).depth > nodes[i].depth;
        assert(answers(nodes[j], wanted));
        if j > i {
            assert(under(nodes, i, j));
        }
        assert(stays(nodes, wanted, i));
    }
}

/// Without a search every row is on the screen where it stands.
pub proof fn without_a_search_a_row_is_where_it_stands(nodes: Seq<VisibleNode>, i: int)
    requires
        0 <= i < nodes.len() <= usize::MAX,
    ensures
        shown(nodes, None)[i] == i,
        shown(nodes, None).len() == nodes.len(),
{
}

/// A connection can be used from the moment it is being opened until it fails or
/// is closed, and puts rows in order only where its driver says that it can.
pub proof fn what_a_connection_is_good_for(conn: ConnectionView)
    ensures
        conn.live() <==> !(conn.status is Failed) && !(conn.status is Closed),
        conn.capabilities is None ==> !conn.sorts(),
        conn.capabilities matches Some(can) ==> conn.sorts() == can.sort_preview,
{
}

/// The value of a cell is the one in its row and its column, and there is none
/// beside them.
pub proof fn a_value_is_in_its_row_and_column(rows: PagedResult, row: int, col: int)
    ensures
        0 <= row < rows.rows@.len() && 0 <= col < rows.rows@[row].0@.len() ==> rows.value_at(
            row,
            col,
        ) == Some(rows.rows@[row].0@[col].value) && rows.datum_at(row, col) == Some(
            rows.rows@[row].0@[col],
        ),
        !(0 <= row < rows.rows@.len()) || !(0 <= col < rows.rows@[row].0@.len())
            ==> rows.value_at(row, col) is None,
{
}

/// What is kept of a relation is found by its connection and its whole name, so
/// that two of one name on two connections are two.
pub proof fn a_relation_is_found_by_its_connection_and_its_name(
    preview: PreviewView,
    a: ConnId,
    b: ConnId,
    name: Seq<Seq<char>>,
    other: Seq<Seq<char>>,
)
    ensures
        preview_of(a, name)(preview) && preview_of(b, other)(preview) ==> a == b && name == other,
        preview_of(preview.conn, preview.table@)(preview),
{
}

/// The rows that a page is counted in are those that are drawn: under the header,
/// and beside the scrollbar.
pub proof fn a_page_is_what_is_drawn(area: Rect)
    requires
        area.fits(),
        area.width > 1,
    ensures
        body_place(area) == under_header(content_place(area)),
        body_place(area).height == if area.height > 0 {
            area.height - 1
        } else {
            0
        },
        body_place(area).width == area.width - 1,
{
}

} // verus!
