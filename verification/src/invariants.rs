//! What every screen keeps to, whatever is done to it.

use crate::chrome::MIN_GRID_HEIGHT;
use crate::copy::Format;
use crate::geometry::{least, most, stepped};
use crate::hit::{PaneId, SplitId};
use crate::ids::{ConnId, QueryId, TabId};
use crate::intent::{Action, ActionView, CmdView, ViewCmd};
use crate::model::{preview_of, query_is, PagedResult, Snapshot, Sort, TableRef, VisibleNode};
use crate::search::{filter_of_one_more, first, first_is_the_first, first_item};
use crate::state::{
    column_total, into_view, leftmost, report_not_of, report_of, row_total, tab_defines, tab_is,
    tab_is_not, tab_previews, tab_searches, with_text, ContentView, GridView, ReportView, TabView,
    UiView,
};
use crate::text::blank;
use crate::tree::a_shown_row_is_there;
use crate::ui::{FilterView, Severity, MIN_PANE_WIDTH};
use vstd::prelude::*;

verus! {

// ── tabs ───────────────────────────────────────────────────────────────────

/// Whether two tabs show the same thing: one preview, one definition or one
/// history is all there is to look at.
pub open spec fn same_thing(a: TabView, b: TabView) -> bool {
    a.conn == b.conn && match (a.content, b.content) {
        (ContentView::Preview(t), ContentView::Preview(u)) => t@ == u@,
        (ContentView::Definition { table: t, .. }, ContentView::Definition { table: u, .. }) => t@
            == u@,
        (ContentView::History { .. }, ContentView::History { .. }) => true,
        _ => false,
    }
}

/// Whether the tabs of a screen can be told apart, nothing is open twice, and
/// the tab in front is there.
pub open spec fn sound(ui: UiView) -> bool {
    &&& forall|i: int| 0 <= i < ui.tabs.len() ==> (#[trigger] ui.tabs[i]).id.0 <= ui.next_tab
    &&& forall|i: int, j: int|
        0 <= i < j < ui.tabs.len() ==> (#[trigger] ui.tabs[i]).id != (#[trigger] ui.tabs[j]).id
    &&& forall|i: int, j: int|
        0 <= i < j < ui.tabs.len() ==> !same_thing(#[trigger] ui.tabs[i], #[trigger] ui.tabs[j])
    &&& ui.active_tab matches Some(id) ==> ui.tab(id) is Some
}

proof fn the_first_tab_is_there(ui: UiView, id: TabId)
    ensures
        first(ui.tabs, tab_is(id)) matches Some(i) ==> 0 <= i < ui.tabs.len() && ui.tabs[i].id
            == id && ui.tab(id) == Some(ui.tabs[i]),
        first(ui.tabs, tab_is(id)) is None ==> ui.tab(id) is None && forall|j: int|
            0 <= j < ui.tabs.len() ==> (#[trigger] ui.tabs[j]).id != id,
{
    first_is_the_first(ui.tabs, tab_is(id));
    if first(ui.tabs, tab_is(id)) is None {
        assert forall|j: int| 0 <= j < ui.tabs.len() implies (#[trigger] ui.tabs[j]).id != id by {
            assert(!tab_is(id)(ui.tabs[j]));
        }
    }
}

/// A tab is found by its id.
pub proof fn a_tab_is_found_by_its_id(ui: UiView, i: int)
    requires
        sound(ui),
        0 <= i < ui.tabs.len(),
    ensures
        first(ui.tabs, tab_is(ui.tabs[i].id)) == Some(i),
        ui.tab(ui.tabs[i].id) == Some(ui.tabs[i]),
{
    let id = ui.tabs[i].id;
    first_is_the_first(ui.tabs, tab_is(id));
    assert(tab_is(id)(ui.tabs[i]));
    let k = first(ui.tabs, tab_is(id))->0;
    if k < i {
        assert(ui.tabs[k].id != ui.tabs[i].id);
    } else if k > i {
        assert(ui.tabs[i].id != ui.tabs[k].id);
    }
}

/// A screen that has just been opened is sound.
pub proof fn a_new_screen_is_sound()
    ensures
        sound(UiView::initial()),
{
}

proof fn opening_keeps_sound(ui: UiView, conn: ConnId, content: ContentView)
    requires
        sound(ui),
        ui.next_tab < u32::MAX,
        forall|i: int|
            0 <= i < ui.tabs.len() ==> !same_thing(
                #[trigger] ui.tabs[i],
                TabView { id: ui.tabs[i].id, conn, content },
            ),
    ensures
        sound(ui.opened(conn, content)),
        ui.opened(conn, content).current() == Some(
            TabView { id: TabId((ui.next_tab + 1) as u32), conn, content },
        ),
{
    let next = ui.opened(conn, content);
    let n = ui.tabs.len() as int;
    let id = TabId((ui.next_tab + 1) as u32);
    assert(next.tabs[n].id == id);
    assert forall|i: int, j: int| 0 <= i < j < next.tabs.len() implies (#[trigger] next.tabs[i]).id
        != (#[trigger] next.tabs[j]).id by {
        if j == n {
            assert(ui.tabs[i].id.0 <= ui.next_tab);
        } else {
            assert(ui.tabs[i].id != ui.tabs[j].id);
        }
    }
    assert forall|i: int, j: int| 0 <= i < j < next.tabs.len() implies !same_thing(
        #[trigger] next.tabs[i],
        #[trigger] next.tabs[j],
    ) by {
        assert(next.tabs[i] == ui.tabs[i]);
        if j < n {
            assert(next.tabs[j] == ui.tabs[j]);
        } else {
            assert(!same_thing(ui.tabs[i], TabView { id: ui.tabs[i].id, conn, content }));
        }
    }
    first_is_the_first(next.tabs, tab_is(id));
    assert(tab_is(id)(next.tabs[n]));
    let k = first(next.tabs, tab_is(id))->0;
    if k < n {
        assert(ui.tabs[k].id.0 <= ui.next_tab);
        assert(next.tabs[k] == ui.tabs[k]);
    }
}

proof fn raising_keeps_sound(
    ui: UiView,
    which: spec_fn(TabView) -> bool,
    conn: ConnId,
    content: ContentView,
)
    requires
        sound(ui),
        ui.next_tab < u32::MAX,
        forall|t: TabView|
            same_thing(t, (TabView { id: t.id, conn, content })) ==> #[trigger] which(t),
    ensures
        sound(ui.raised(which, conn, content)),
        ui.raised(which, conn, content).current() matches Some(tab) && (which(tab) || tab.content
            == content),
{
    first_is_the_first(ui.tabs, which);
    match first(ui.tabs, which) {
        Some(i) => {
            a_tab_is_found_by_its_id(ui, i);
        },
        None => {
            assert forall|i: int| 0 <= i < ui.tabs.len() implies !same_thing(
                #[trigger] ui.tabs[i],
                TabView { id: ui.tabs[i].id, conn, content },
            ) by {
                assert(!which(ui.tabs[i]));
            }
            opening_keeps_sound(ui, conn, content);
        },
    }
}

proof fn changing_content_keeps_sound(ui: UiView, id: TabId, content: ContentView)
    requires
        sound(ui),
        ui.tab(id) matches Some(tab) && match (tab.content, content) {
            (ContentView::Sql { .. }, ContentView::Sql { .. }) => true,
            (ContentView::History { .. }, ContentView::History { .. }) => true,
            (ContentView::Definition { table: t, .. }, ContentView::Definition { table: u, .. }) => t
                == u,
            (ContentView::Preview(t), ContentView::Preview(u)) => t == u,
            _ => false,
        },
    ensures
        sound(ui.recontent(id, content)),
        ui.recontent(id, content).tab(id) == Some(TabView { content, ..ui.tab(id)->0 }),
        forall|other: TabId|
            other != id ==> #[trigger] ui.recontent(id, content).tab(other) == ui.tab(other),
{
    the_first_tab_is_there(ui, id);
    let at = first(ui.tabs, tab_is(id))->0;
    let next = ui.recontent(id, content);
    assert forall|i: int, j: int| 0 <= i < j < next.tabs.len() implies (#[trigger] next.tabs[i]).id
        != (#[trigger] next.tabs[j]).id by {
        assert(ui.tabs[i].id != ui.tabs[j].id);
    }
    assert forall|i: int, j: int| 0 <= i < j < next.tabs.len() implies !same_thing(
        #[trigger] next.tabs[i],
        #[trigger] next.tabs[j],
    ) by {
        assert(!same_thing(ui.tabs[i], ui.tabs[j]));
    }
    assert forall|i: int| 0 <= i < next.tabs.len() implies (#[trigger] next.tabs[i]).id.0
        <= next.next_tab by {
        assert(ui.tabs[i].id.0 <= ui.next_tab);
    }
    assert forall|other: TabId| #[trigger]
        first(next.tabs, tab_is(other)) == first(ui.tabs, tab_is(other)) by {
        first_is_the_first(next.tabs, tab_is(other));
        first_is_the_first(ui.tabs, tab_is(other));
        let a = first(next.tabs, tab_is(other));
        let b = first(ui.tabs, tab_is(other));
        if let Some(i) = a {
            assert(tab_is(other)(next.tabs[i]));
            assert(tab_is(other)(ui.tabs[i]));
        }
        if let Some(i) = b {
            assert(tab_is(other)(ui.tabs[i]));
            assert(tab_is(other)(next.tabs[i]));
        }
        if a is Some && b is Some {
            let i = a->0;
            let j = b->0;
            if i < j {
                assert(ui.tabs[i].id != ui.tabs[j].id);
            } else if j < i {
                assert(ui.tabs[j].id != ui.tabs[i].id);
            }
        }
    }
    assert forall|other: TabId| other != id implies #[trigger] next.tab(other) == ui.tab(other) by {
        assert(first(next.tabs, tab_is(other)) == first(ui.tabs, tab_is(other)));
        the_first_tab_is_there(ui, other);
        the_first_tab_is_there(next, other);
    }
    assert(first(next.tabs, tab_is(id)) == first(ui.tabs, tab_is(id)));
    the_first_tab_is_there(next, id);
    if let Some(active) = ui.active_tab {
        if active == id {
        } else {
            assert(next.tab(active) == ui.tab(active));
        }
    }
}

proof fn all_but_one_are_kept(tabs: Seq<TabView>, id: TabId, at: int, n: int)
    requires
        0 <= n <= tabs.len(),
        0 <= at < tabs.len(),
        forall|i: int| 0 <= i < tabs.len() ==> ((#[trigger] tabs[i]).id == id <==> i == at),
    ensures
        tabs.take(n).filter(tab_is_not(id)) == if n <= at {
            tabs.take(n)
        } else {
            tabs.take(n).remove(at)
        },
    decreases n,
{
    if n == 0 {
        reveal(Seq::filter);
        assert(tabs.take(0).filter(tab_is_not(id)) =~= tabs.take(0));
    } else {
        all_but_one_are_kept(tabs, id, at, n - 1);
        filter_of_one_more(tabs, tab_is_not(id), n - 1);
        assert(tabs[n - 1].id == id <==> n - 1 == at);
        if n - 1 < at {
            assert(tabs.take(n - 1).push(tabs[n - 1]) =~= tabs.take(n));
        } else if n - 1 == at {
            assert(tabs.take(n).remove(at) =~= tabs.take(n - 1));
        } else {
            assert(tabs.take(n - 1).remove(at).push(tabs[n - 1]) =~= tabs.take(n).remove(at));
        }
    }
}

proof fn all_are_kept(tabs: Seq<TabView>, id: TabId, n: int)
    requires
        0 <= n <= tabs.len(),
        forall|i: int| 0 <= i < tabs.len() ==> (#[trigger] tabs[i]).id != id,
    ensures
        tabs.take(n).filter(tab_is_not(id)) == tabs.take(n),
    decreases n,
{
    if n == 0 {
        reveal(Seq::filter);
        assert(tabs.take(0).filter(tab_is_not(id)) =~= tabs.take(0));
    } else {
        all_are_kept(tabs, id, n - 1);
        filter_of_one_more(tabs, tab_is_not(id), n - 1);
        assert(tabs.take(n - 1).push(tabs[n - 1]) =~= tabs.take(n));
    }
}

/// Closing a tab takes that one out of the bar and leaves the others in their
/// order; what the screen kept for it goes with it, and what it kept for the
/// others stays. When it was in front, the tab that stood behind it is in front
/// now, or the one before it when it was the last.
pub proof fn closing_a_tab_leaves_the_others(ui: UiView, id: TabId)
    requires
        sound(ui),
    ensures
        sound(ui.closed(id)),
        !ui.closed(id).grids.contains_key(id.0),
        !ui.closed(id).laid.contains_key(id.0),
        forall|other: TabId|
            other != id ==> #[trigger] ui.closed(id).grid(other) == ui.grid(other),
        first(ui.tabs, tab_is(id)) matches Some(at) ==> {
            &&& ui.closed(id).tabs == ui.tabs.remove(at)
            &&& ui.active_tab == Some(id) ==> ui.closed(id).active_tab == if ui.tabs.len() == 1 {
                None
            } else if at + 1 < ui.tabs.len() {
                Some(ui.tabs[at + 1].id)
            } else {
                Some(ui.tabs[at - 1].id)
            }
        },
        first(ui.tabs, tab_is(id)) is None ==> ui.closed(id).tabs == ui.tabs,
        ui.active_tab != Some(id) ==> ui.closed(id).active_tab == ui.active_tab,
{
    let next = ui.closed(id);
    the_first_tab_is_there(ui, id);
    assert(ui.tabs.take(ui.tabs.len() as int) =~= ui.tabs);
    match first(ui.tabs, tab_is(id)) {
        None => {
            all_are_kept(ui.tabs, id, ui.tabs.len() as int);
            assert(next.tabs == ui.tabs);
        },
        Some(at) => {
            assert forall|i: int| 0 <= i < ui.tabs.len() implies ((#[trigger] ui.tabs[i]).id == id
                <==> i == at) by {
                if i < at {
                    assert(ui.tabs[i].id != ui.tabs[at].id);
                } else if at < i {
                    assert(ui.tabs[at].id != ui.tabs[i].id);
                }
            }
            all_but_one_are_kept(ui.tabs, id, at, ui.tabs.len() as int);
            assert(next.tabs == ui.tabs.remove(at));
            assert forall|i: int| 0 <= i < next.tabs.len() implies #[trigger] next.tabs[i]
                == ui.tabs[if i < at { i } else { i + 1 }] by {}
            assert forall|i: int, j: int| 0 <= i < j < next.tabs.len() implies (
            #[trigger] next.tabs[i]).id != (#[trigger] next.tabs[j]).id && !same_thing(
                next.tabs[i],
                next.tabs[j],
            ) by {
                let a = if i < at { i } else { i + 1 };
                let b = if j < at { j } else { j + 1 };
                assert(ui.tabs[a].id != ui.tabs[b].id);
                assert(!same_thing(ui.tabs[a], ui.tabs[b]));
            }
            assert forall|i: int| 0 <= i < next.tabs.len() implies (#[trigger] next.tabs[i]).id.0
                <= next.next_tab by {
                assert(ui.tabs[if i < at { i } else { i + 1 }].id.0 <= ui.next_tab);
            }
            if let Some(active) = next.active_tab {
                first_is_the_first(next.tabs, tab_is(active));
                if ui.active_tab == Some(id) {
                    let k = least(at, next.tabs.len() - 1);
                    assert(tab_is(active)(next.tabs[k]));
                } else {
                    the_first_tab_is_there(ui, active);
                    let k = first(ui.tabs, tab_is(active))->0;
                    assert(k != at);
                    let m = if k < at { k } else { k - 1 };
                    assert(next.tabs[m] == ui.tabs[k]);
                    assert(tab_is(active)(next.tabs[m]));
                }
            }
        },
    }
}

proof fn buffering_keeps_sound(ui: UiView, id: TabId, text: Seq<char>)
    requires
        sound(ui),
    ensures
        sound(ui.buffered(id, text)),
{
    match ui.tab(id) {
        Some(tab) => {
            changing_content_keeps_sound(ui, id, with_text(tab.content, text));
        },
        None => {},
    }
}

/// Putting a statement where it can be run keeps a screen sound, and never
/// replaces anything that is written: every tab that held more than white space
/// still holds it.
pub proof fn nothing_written_is_replaced(
    ui: UiView,
    text: Seq<char>,
    snapshot: Snapshot,
    id: TabId,
)
    requires
        sound(ui),
        ui.room(),
    ensures
        sound(ui.inserted(text, snapshot)),
        ui.tab(id) matches Some(tab) && tab.sql() matches Some(held) && !blank(held)
            ==> ui.inserted(text, snapshot).tab(id) == ui.tab(id),
{
    let empty = ui.current() matches Some(tab) && tab.sql() matches Some(held) && blank(held);
    the_first_tab_is_there(ui, id);
    if empty {
        let active = ui.active_tab->0;
        let tab = ui.current()->0;
        buffering_keeps_sound(ui, active, text);
        changing_content_keeps_sound(ui, active, with_text(tab.content, text));
    } else {
        match ui.connection_for_a_new_tab(snapshot) {
            None => {
                assert(ui.inserted(text, snapshot).tabs == ui.tabs);
            },
            Some(conn) => {
                let number = (ui.next_sql + 1) as u32;
                let counted = UiView { next_sql: number, ..ui };
                let content = ContentView::Sql { number, text: Seq::empty(), query: None };
                let open = ui.sql_opened(conn);
                assert(sound(counted)) by {
                    if let Some(active) = ui.active_tab {
                        assert(counted.tab(active) == ui.tab(active));
                    }
                }
                opening_keeps_sound(counted, conn, content);
                assert(open == counted.opened(conn, content));
                let new = open.active_tab->0;
                buffering_keeps_sound(open, new, text);
                changing_content_keeps_sound(
                    open,
                    new,
                    with_text(open.tab(new)->0.content, text),
                );
                if ui.tab(id) is Some {
                    let k = first(ui.tabs, tab_is(id))->0;
                    assert(open.tabs[k] == ui.tabs[k]);
                    a_tab_is_found_by_its_id(open, k);
                    assert(ui.tabs[k].id.0 <= ui.next_tab);
                    assert(id != new);
                }
            },
        }
    }
}

proof fn same_tabs_are_as_sound(before: UiView, after: UiView)
    requires
        sound(before),
        after.tabs == before.tabs,
        after.active_tab == before.active_tab,
        after.next_tab == before.next_tab,
    ensures
        sound(after),
{
    if let Some(id) = after.active_tab {
        assert(after.tab(id) == before.tab(id));
    }
}

/// Whether two screens have the same tabs, and the same one in front.
pub open spec fn same_tabs(before: UiView, after: UiView) -> bool {
    after.tabs == before.tabs && after.active_tab == before.active_tab && after.next_tab
        == before.next_tab
}

proof fn paging_opens_nothing(ui: UiView, pane: PaneId, snapshot: Snapshot)
    ensures
        same_tabs(ui, ui.paged(pane, snapshot).0),
{
    reveal(UiView::paged);
}

proof fn selecting_opens_nothing(ui: UiView, row: int, col: int, rows: Option<PagedResult>)
    ensures
        same_tabs(ui, ui.cell_selected(row, col, rows)),
{
    reveal(UiView::cell_selected);
}

proof fn moving_opens_nothing(
    ui: UiView,
    row: int,
    col: int,
    snapshot: Snapshot,
    rows: Option<PagedResult>,
)
    ensures
        same_tabs(ui, ui.cell_selected(row, col, rows).paged(PaneId::Grid, snapshot).0),
{
    selecting_opens_nothing(ui, row, col, rows);
    paging_opens_nothing(ui.cell_selected(row, col, rows), PaneId::Grid, snapshot);
}

/// Commands that move what a pane shows.
spec fn scrolls(cmd: ViewCmd) -> bool {
    cmd is ScrollBy || cmd is ScrollToRatio || cmd is ScrollToStart || cmd is ScrollToEnd || cmd
        is ScrollXBy
}

/// Commands that move the cursor of a grid.
spec fn moves_the_cursor(cmd: ViewCmd) -> bool {
    cmd is SelectCell || cmd is MoveCellSelection || cmd is ExtendCellSelection || cmd
        is ExtendCellSelectionTo
}

#[verifier::spinoff_prover]
proof fn scrolling_opens_nothing(
    ui: UiView,
    cmd: ViewCmd,
    snapshot: Snapshot,
    rows: Option<PagedResult>,
)
    requires
        scrolls(cmd),
    ensures
        same_tabs(ui, ui.applied(CmdView::Plain(cmd), snapshot, rows).0),
{
    match cmd {
        ViewCmd::ScrollBy { pane, delta } => {
            let to = stepped(ui.offset(pane), delta as int);
            paging_opens_nothing(ui.scrolled(pane, to, snapshot, rows), pane, snapshot);
        },
        ViewCmd::ScrollToRatio { pane, permille } => {
            let to = ui.scrollable(pane, snapshot, rows) * least(permille as int, 1000) / 1000;
            paging_opens_nothing(ui.scrolled(pane, to, snapshot, rows), pane, snapshot);
        },
        ViewCmd::ScrollToEnd(pane) => {
            let to = usize::MAX as int;
            paging_opens_nothing(ui.scrolled(pane, to, snapshot, rows), pane, snapshot);
        },
        _ => {},
    }
}

#[verifier::spinoff_prover]
proof fn moving_the_cursor_opens_nothing(
    ui: UiView,
    cmd: ViewCmd,
    snapshot: Snapshot,
    rows: Option<PagedResult>,
)
    requires
        moves_the_cursor(cmd),
    ensures
        same_tabs(ui, ui.applied(CmdView::Plain(cmd), snapshot, rows).0),
{
    match cmd {
        ViewCmd::SelectCell { row, col } => {
            moving_opens_nothing(ui.unanchored(), row as int, col as int, snapshot, rows);
        },
        ViewCmd::MoveCellSelection { drow, dcol } => {
            moving_opens_nothing(
                ui.unanchored(),
                stepped(ui.cursor().0, drow as int),
                stepped(ui.cursor().1, dcol as int),
                snapshot,
                rows,
            );
        },
        ViewCmd::ExtendCellSelection { drow, dcol } => {
            moving_opens_nothing(
                ui.anchored(snapshot),
                stepped(ui.cursor().0, drow as int),
                stepped(ui.cursor().1, dcol as int),
                snapshot,
                rows,
            );
        },
        ViewCmd::ExtendCellSelectionTo { row, col } => {
            moving_opens_nothing(ui.anchored(snapshot), row as int, col as int, snapshot, rows);
        },
        _ => {},
    }
}

/// A move within a pane opens nothing and closes nothing.
#[verifier::spinoff_prover]
pub proof fn a_move_opens_nothing(
    ui: UiView,
    cmd: CmdView,
    snapshot: Snapshot,
    rows: Option<PagedResult>,
)
    requires
        UiView::moves(cmd),
    ensures
        same_tabs(ui, ui.applied(cmd, snapshot, rows).0),
{
    if let CmdView::Plain(cmd) = cmd {
        if scrolls(cmd) {
            scrolling_opens_nothing(ui, cmd, snapshot, rows);
        } else if moves_the_cursor(cmd) {
            moving_the_cursor_opens_nothing(ui, cmd, snapshot, rows);
        }
    }
}

/// Commands that open a tab, or turn to it where it is open already.
spec fn opens(cmd: ViewCmd) -> bool {
    cmd is OpenTab || cmd is OpenDefinition || cmd is OpenSqlTab || cmd is OpenHistoryTab
}

#[verifier::spinoff_prover]
proof fn opening_a_tab_keeps_sound(
    ui: UiView,
    cmd: ViewCmd,
    snapshot: Snapshot,
    rows: Option<PagedResult>,
)
    requires
        sound(ui),
        ui.room(),
        opens(cmd),
    ensures
        sound(ui.applied(CmdView::Plain(cmd), snapshot, rows).0),
{
    match cmd {
        ViewCmd::OpenTab { conn, table } => {
            raising_keeps_sound(
                ui,
                tab_previews(conn, table@),
                conn,
                ContentView::Preview(table),
            );
        },
        ViewCmd::OpenDefinition { conn, table } => {
            raising_keeps_sound(
                ui,
                tab_defines(conn, table@),
                conn,
                ContentView::Definition { table, section: 0 },
            );
        },
        ViewCmd::OpenHistoryTab { conn } => {
            raising_keeps_sound(
                ui,
                tab_searches(conn),
                conn,
                ContentView::History { filter: FilterView::opening() },
            );
        },
        ViewCmd::OpenSqlTab { conn } => {
            let number = (ui.next_sql + 1) as u32;
            let counted = UiView { next_sql: number, ..ui };
            same_tabs_are_as_sound(ui, counted);
            opening_keeps_sound(
                counted,
                conn,
                ContentView::Sql { number, text: Seq::empty(), query: None },
            );
        },
        _ => {},
    }
}

#[verifier::spinoff_prover]
proof fn closing_or_filling_keeps_sound(
    ui: UiView,
    cmd: ViewCmd,
    snapshot: Snapshot,
    rows: Option<PagedResult>,
)
    requires
        sound(ui),
        ui.room(),
        opens_or_closes(cmd),
        !opens(cmd),
    ensures
        sound(ui.applied(CmdView::Plain(cmd), snapshot, rows).0),
{
    let next = ui.applied(CmdView::Plain(cmd), snapshot, rows).0;
    match cmd {
        ViewCmd::SelectSection(pick) => {
            if let Some(id) = ui.active_tab {
                if let Some(tab) = ui.tab(id) {
                    if let ContentView::Definition { table, section } = tab.content {
                        the_first_tab_is_there(next, id);
                        the_first_tab_is_there(ui, id);
                        let at = first(ui.tabs, tab_is(id))->0;
                        let content = next.tabs[at].content;
                        changing_content_keeps_sound(ui, id, content);
                        same_tabs_are_as_sound(ui.recontent(id, content), next);
                    }
                }
            }
        },
        ViewCmd::ReuseRun(run) => {
            if let Some(entry) = UiView::past_run(snapshot, run) {
                nothing_written_is_replaced(ui, entry.sql@, snapshot, TabId(0));
            }
        },
        ViewCmd::CloseTab(id) => {
            closing_a_tab_leaves_the_others(ui, id);
        },
        _ => {},
    }
}

#[verifier::spinoff_prover]
proof fn nothing_else_opens_or_closes(
    ui: UiView,
    cmd: ViewCmd,
    snapshot: Snapshot,
    rows: Option<PagedResult>,
)
    requires
        !UiView::moves(CmdView::Plain(cmd)),
        !opens_or_closes(cmd),
        !(cmd is SelectTab),
    ensures
        same_tabs(ui, ui.applied(CmdView::Plain(cmd), snapshot, rows).0),
{
}

/// Whatever is done to a screen, its tabs can still be told apart, nothing is
/// open twice, and the tab in front is there.
#[verifier::spinoff_prover]
pub proof fn every_command_keeps_a_screen_sound(
    ui: UiView,
    cmd: CmdView,
    snapshot: Snapshot,
    rows: Option<PagedResult>,
)
    requires
        sound(ui),
        ui.room(),
    ensures
        sound(ui.applied(cmd, snapshot, rows).0),
{
    let next = ui.applied(cmd, snapshot, rows).0;
    if UiView::moves(cmd) {
        a_move_opens_nothing(ui, cmd, snapshot, rows);
        same_tabs_are_as_sound(ui, next);
    } else {
        match cmd {
            CmdView::SetHistoryTerms(filter) => {
                if let Some(tab) = ui.current() {
                    if tab.content is History {
                        the_first_tab_is_there(ui, ui.active_tab->0);
                        let filter = match filter {
                            Some(filter) => filter,
                            None => FilterView { text: Seq::empty(), editing: false },
                        };
                        changing_content_keeps_sound(ui, tab.id, ContentView::History { filter });
                    }
                }
            },
            CmdView::SetFilter(_) | CmdView::Palette(_) => {
                same_tabs_are_as_sound(ui, next);
            },
            CmdView::Plain(cmd) => if opens(cmd) {
                opening_a_tab_keeps_sound(ui, cmd, snapshot, rows);
            } else if opens_or_closes(cmd) {
                closing_or_filling_keeps_sound(ui, cmd, snapshot, rows);
            } else if let ViewCmd::SelectTab(id) = cmd {
                if ui.tab(id) is Some {
                    assert(next.tab(id) == ui.tab(id));
                }
            } else {
                nothing_else_opens_or_closes(ui, cmd, snapshot, rows);
                same_tabs_are_as_sound(ui, next);
            },
        }
    }
}

/// Opening a relation puts its preview in front, whether it was open already or
/// not; and a relation that was open is not opened again.
pub proof fn opening_a_relation_puts_it_in_front(
    ui: UiView,
    conn: ConnId,
    table: TableRef,
    snapshot: Snapshot,
    rows: Option<PagedResult>,
)
    requires
        sound(ui),
        ui.room(),
    ensures
        ({
            let next = ui.applied(
                CmdView::Plain(ViewCmd::OpenTab { conn, table }),
                snapshot,
                rows,
            ).0;
            &&& next.current() matches Some(tab) && tab.conn == conn && (tab.table() matches Some(
                held,
            ) && held@ == table@)
            &&& first(ui.tabs, tab_previews(conn, table@)) is Some ==> next.tabs == ui.tabs
        }),
{
    let which = tab_previews(conn, table@);
    raising_keeps_sound(ui, which, conn, ContentView::Preview(table));
    first_is_the_first(ui.tabs, which);
    match first(ui.tabs, which) {
        Some(i) => {
            a_tab_is_found_by_its_id(ui, i);
        },
        None => {
            assert forall|i: int| 0 <= i < ui.tabs.len() implies !same_thing(
                #[trigger] ui.tabs[i],
                TabView { id: ui.tabs[i].id, conn, content: ContentView::Preview(table) },
            ) by {
                assert(!which(ui.tabs[i]));
            }
            opening_keeps_sound(ui, conn, ContentView::Preview(table));
        },
    }
}

// ── scrolling and selecting ────────────────────────────────────────────────

/// A scroll stops at the end of the content, wherever it was aimed.
pub proof fn a_scroll_stays_in_the_content(
    ui: UiView,
    pane: PaneId,
    to: int,
    snapshot: Snapshot,
    rows: Option<PagedResult>,
)
    requires
        0 <= to,
        ui.visible(snapshot).len() <= usize::MAX,
        row_total(rows) <= usize::MAX,
    ensures
        ui.scrolled(pane, to, snapshot, rows).offset(pane) <= ui.scrollable(pane, snapshot, rows),
{
}

/// What is scrolled to is in view, and the view moves no further than that
/// takes.
pub proof fn what_is_scrolled_to_is_in_view(offset: int, index: int, page: int)
    requires
        0 <= offset,
        0 <= index,
        0 < page,
    ensures
        0 <= into_view(offset, index, page) <= index < into_view(offset, index, page) + page,
        offset <= index < offset + page ==> into_view(offset, index, page) == offset,
{
}

/// The selected row of the explorer is one that is shown, and it is in view
/// once anything has been drawn. Only a tree with nothing in it has no
/// selection.
pub proof fn the_selected_row_is_shown(ui: UiView, index: int, snapshot: Snapshot)
    requires
        0 <= index,
        snapshot.explorer@.len() <= usize::MAX,
    ensures
        ({
            let next = ui.tree_row_selected(index, snapshot);
            match next.tree.selected {
                None => ui.visible(snapshot).len() == 0,
                Some(row) => {
                    &&& row < next.visible(snapshot).len()
                    &&& ui.page(PaneId::Explorer) > 0 ==> next.tree.offset <= row
                        < next.tree.offset + ui.page(PaneId::Explorer)
                },
            }
        }),
{
    if ui.visible(snapshot).len() > 0 {
        a_shown_row_is_there(snapshot.explorer@, ui.filter_text(), 0);
    }
}

/// A search keeps the node that was selected, as long as the search shows it in
/// some row.
pub proof fn a_search_keeps_the_node_that_was_selected(
    ui: UiView,
    filter: Option<FilterView>,
    snapshot: Snapshot,
    node: VisibleNode,
    row: int,
)
    requires
        snapshot.explorer@.len() <= usize::MAX,
        ui.selected_node(snapshot) == Some(node),
        ui.filtered(filter, snapshot).node_at(snapshot, row) matches Some(there) && there.conn
            == node.conn && there.node_ref.is(node.node_ref),
    ensures
        ui.filtered(filter, snapshot).selected_node(snapshot) matches Some(now) && now.conn
            == node.conn && now.node_ref.is(node.node_ref),
{
    let opened = UiView { filter, ..ui };
    let next = ui.filtered(filter, snapshot);
    let visible = opened.visible(snapshot);
    assert(next.visible(snapshot) == visible);
    a_shown_row_is_there(snapshot.explorer@, opened.filter_text(), 0);
    let p = UiView::same_node(snapshot, node);
    first_is_the_first(visible, p);
    assert(p(visible[row]));
    let at = first(visible, p)->0;
    assert(p(visible[at]));
    assert(next.tree.selected == Some(at as usize));
}

proof fn leftmost_is_in_range(grid: GridView, c: int, col: int, used: int, available: int)
    requires
        -1 <= c <= col,
        0 <= col,
    ensures
        0 <= leftmost(grid, c, col, used, available) <= most(c + 1, 0),
        c == col ==> leftmost(grid, c, col, used, available) <= col,
    decreases c + 1,
{
    if c >= 0 {
        leftmost_is_in_range(
            grid,
            c - 1,
            col,
            used + crate::state::drawn_width(grid, c),
            available,
        );
    }
}

/// The cursor is always on a cell that is there, in view once anything has been
/// drawn, and the grid is not scrolled past it sideways.
pub proof fn the_cursor_is_on_a_cell(ui: UiView, row: int, col: int, rows: Option<PagedResult>)
    requires
        0 <= row,
        0 <= col,
        ui.active_tab is Some,
        0 < row_total(rows) <= usize::MAX,
        0 < column_total(rows) <= usize::MAX,
    ensures
        ({
            let next = ui.cell_selected(row, col, rows);
            let grid = next.own_grid();
            &&& grid.row < row_total(rows)
            &&& grid.col < column_total(rows)
            &&& grid.col_offset <= grid.col
            &&& ui.page(PaneId::Grid) > 0 ==> grid.row_offset <= grid.row < grid.row_offset
                + ui.page(PaneId::Grid)
        }),
{
    reveal(UiView::cell_selected);
    let at = least(col, column_total(rows) - 1);
    let available = ui.viewports.grid.width as int;
    let laid = if available == 0 {
        ui
    } else {
        ui.laid_grid(rows)
    };
    leftmost_is_in_range(laid.own_grid(), at, at, 0, available);
}

/// A selection is a rectangle with the cursor at one of its corners, and it is
/// the same one from whichever corner it was drawn.
pub proof fn a_selection_has_no_direction(grid: GridView, at: (usize, usize), sort: Option<Sort>)
    ensures
        ({
            let there = GridView { anchor: Some((at, sort)), ..grid };
            let back = GridView {
                row: at.0,
                col: at.1,
                anchor: Some(((grid.row, grid.col), sort)),
                ..grid
            };
            let (top, left, bottom, right) = there.selection(sort);
            &&& there.selection(sort) == back.selection(sort)
            &&& top <= bottom && left <= right
            &&& (grid.row == top || grid.row == bottom) && (grid.col == left || grid.col == right)
        }),
{
}

/// A selection made under another order names other rows, and is dropped: what
/// is left is the cursor.
pub proof fn a_sort_drops_the_selection(grid: GridView, sort: Option<Sort>)
    requires
        grid.anchor matches Some((_, made_under)) ==> made_under != sort,
    ensures
        grid.selection(sort) == (grid.row, grid.col, grid.row, grid.col),
        grid.selected_cells(sort) is None,
{
}

/// Moving the cursor ends a selection, and extending it keeps where it began:
/// at the anchor, while the order it was put down under is the one on screen,
/// and otherwise at the cursor.
pub proof fn only_extending_keeps_a_selection(
    ui: UiView,
    row: int,
    col: int,
    snapshot: Snapshot,
    rows: Option<PagedResult>,
)
    requires
        ui.active_tab is Some,
    ensures
        ui.unanchored().cell_selected(row, col, rows).own_grid().anchor is None,
        ui.anchored(snapshot).cell_selected(row, col, rows).own_grid().anchor == match ui.own_grid().anchor {
            Some((at, made_under)) if made_under == ui.active_sort(snapshot) => Some(
                (at, made_under),
            ),
            _ => Some(((ui.own_grid().row, ui.own_grid().col), ui.active_sort(snapshot))),
        },
{
    reveal(UiView::cell_selected);
}

/// With no selection under the order on screen, extending to a cell selects
/// from the cursor to that cell, whatever was selected under another order.
pub proof fn extending_selects_from_the_cursor(
    ui: UiView,
    row: int,
    col: int,
    snapshot: Snapshot,
    rows: Option<PagedResult>,
)
    requires
        ui.active_tab is Some,
        0 <= row < row_total(rows) <= usize::MAX,
        0 <= col < column_total(rows) <= usize::MAX,
        ui.own_grid().anchor matches Some((_, made_under)) ==> made_under != ui.active_sort(
            snapshot,
        ),
    ensures
        ({
            let from = ui.own_grid();
            ui.anchored(snapshot).cell_selected(row, col, rows).own_grid().selection(
                ui.active_sort(snapshot),
            ) == (
                least(from.row as int, row) as usize,
                least(from.col as int, col) as usize,
                most(from.row as int, row) as usize,
                most(from.col as int, col) as usize,
            )
        }),
{
    reveal(UiView::cell_selected);
}

/// No column can be made so narrow that it is gone.
pub proof fn no_column_is_resized_away(grid: GridView, col: usize, delta: int, natural: u16)
    ensures
        grid.resized(col, delta, natural).width(col, natural) >= 1,
        forall|other: usize, n: u16|
            other != col ==> #[trigger] grid.resized(col, delta, natural).width(other, n)
                == grid.width(other, n),
{
}

/// The splitter never takes the other pane's last columns, and leaves the
/// explorer its own while there is room for both.
pub proof fn both_panes_keep_their_room(ui: UiView, total: u16)
    ensures
        ui.explorer_share(total) + MIN_PANE_WIDTH + 1 <= most(total as int, MIN_PANE_WIDTH + 1),
        total >= 2 * MIN_PANE_WIDTH + 1 ==> ui.explorer_share(total) >= MIN_PANE_WIDTH,
        0 <= ui.explorer_share(total) <= total,
{
}

/// The splitter ends up where it was dragged, as far as both panes keep their
/// room: a cell to the right is a cell to the right.
pub proof fn the_splitter_ends_up_where_it_was_dragged(
    ui: UiView,
    split: SplitId,
    delta: i16,
    snapshot: Snapshot,
    rows: Option<PagedResult>,
)
    requires
        ui.screen.width >= 2 * MIN_PANE_WIDTH + 1,
    ensures
        ({
            let width = ui.screen.width;
            let moved = ui.applied(
                CmdView::Plain(ViewCmd::MoveSplit { split, delta }),
                snapshot,
                rows,
            ).0;
            moved.explorer_share(width) == most(
                least(ui.explorer_share(width) + delta, width - MIN_PANE_WIDTH - 1),
                MIN_PANE_WIDTH as int,
            )
        }),
{
}

/// Evening the split forgets every drag: the explorer has the share of the
/// screen it started with, whatever the width.
pub proof fn evening_the_split_forgets_every_drag(
    ui: UiView,
    split: SplitId,
    snapshot: Snapshot,
    rows: Option<PagedResult>,
    total: u16,
)
    ensures
        ui.applied(
            CmdView::Plain(ViewCmd::EvenSplit(split)),
            snapshot,
            rows,
        ).0.explorer_share(total) == UiView::initial().explorer_share(total),
{
}

#[verifier::spinoff_prover]
proof fn focus_goes_to_the_other_pane(
    ui: UiView,
    cmd: ViewCmd,
    snapshot: Snapshot,
    rows: Option<PagedResult>,
)
    requires
        cmd is FocusNextPane || cmd is FocusPrevPane,
    ensures
        ui.applied(CmdView::Plain(cmd), snapshot, rows).0 == (UiView {
            focus: if ui.focus == PaneId::Explorer {
                PaneId::Grid
            } else {
                PaneId::Explorer
            },
            ..ui
        }),
{
}

/// Focus goes back and forth between the two panes: the other way undoes a
/// step, and so does another step.
#[verifier::spinoff_prover]
pub proof fn focus_cycles_between_the_two_panes(
    ui: UiView,
    snapshot: Snapshot,
    rows: Option<PagedResult>,
)
    requires
        ui.focus == PaneId::Explorer || ui.focus == PaneId::Grid,
    ensures
        ({
            let on = CmdView::Plain(ViewCmd::FocusNextPane);
            let back = CmdView::Plain(ViewCmd::FocusPrevPane);
            let next = ui.applied(on, snapshot, rows).0;
            &&& next.focus != ui.focus
            &&& next.applied(on, snapshot, rows).0 == ui
            &&& next.applied(back, snapshot, rows).0 == ui
        }),
{
    let next = ui.applied(CmdView::Plain(ViewCmd::FocusNextPane), snapshot, rows).0;
    focus_goes_to_the_other_pane(ui, ViewCmd::FocusNextPane, snapshot, rows);
    focus_goes_to_the_other_pane(next, ViewCmd::FocusNextPane, snapshot, rows);
    focus_goes_to_the_other_pane(next, ViewCmd::FocusPrevPane, snapshot, rows);
}

/// The grid keeps its rows whatever the pane under it asks for.
pub proof fn the_grid_keeps_its_rows(ui: UiView, total: u16)
    ensures
        0 <= ui.detail_share(total) <= total,
        ui.detail_share(total) > 0 ==> total - ui.detail_share(total) >= MIN_GRID_HEIGHT,
{
}

// ── what is raised, and how often ──────────────────────────────────────────

/// The next page is asked for once for every page that comes back: a move that
/// asked for one leaves a screen on which the same move asks for none.
pub proof fn a_page_is_asked_for_once(ui: UiView, pane: PaneId, snapshot: Snapshot)
    ensures
        ui.paged(pane, snapshot).0.paged(pane, snapshot).1 is None,
        ui.paged(pane, snapshot).1 matches Some(action) ==> action matches ActionView::Plain(
            Action::LoadMore { conn, table },
        ) && (ui.current() matches Some(tab) && tab.conn == conn && tab.table() == Some(table)),
{
    reveal(UiView::paged);
    let next = ui.paged(pane, snapshot).0;
    if let Some(id) = ui.active_tab {
        assert(next.tab(id) == ui.tab(id));
        assert(next.current() == ui.current());
        assert(next.active_preview(snapshot) == ui.active_preview(snapshot));
    } else {
        assert(next.current() is None);
    }
}

/// Nobody is asked twice about the cost of one query, however often the
/// snapshot is published.
pub proof fn a_question_is_put_once(ui: UiView, snapshot: Snapshot, again: Snapshot, id: QueryId)
    requires
        first_item(snapshot.queries@, ui.unasked()) matches Some(query) && query.id == id,
    ensures
        ({
            let asked = ui.approvals_raised(snapshot);
            &&& asked.modal is Some
            &&& first_item(again.queries@, asked.unasked()) matches Some(query) ==> query.id != id
        }),
{
    let asked = ui.approvals_raised(snapshot);
    first_is_the_first(again.queries@, asked.unasked());
}

/// The dialog follows the store: a question about a query's cost goes when the
/// store no longer asks it and stays for as long as the store does, one about a
/// saved statement goes once what it asks for has happened, and a dialog that
/// asks nothing stays whatever the store says.
pub proof fn the_dialog_goes_when_the_store_stops_asking(ui: UiView, snapshot: Snapshot)
    requires
        first_item(snapshot.queries@, ui.unasked()) is None,
        ui.modal is Some,
    ensures
        ({
            let modal = ui.modal->0;
            let after = ui.approvals_raised(snapshot);
            &&& after.modal == if modal.answered_by(snapshot) {
                None
            } else {
                ui.modal
            }
            &&& modal.approves() matches Some(id) ==> (after.modal is None <==> match first_item(
                snapshot.queries@,
                query_is(id),
            ) {
                Some(query) => query.needs_approval is None,
                None => true,
            })
            &&& modal.choices.len() == 0 ==> after.modal == ui.modal
            &&& modal.approves() is None && snapshot.held() is None ==> after.modal == ui.modal
            &&& after.asked_approval == ui.asked_approval
        }),
{
}

/// A snapshot that asks nothing new and still asks what the dialog does leaves
/// the screen as it is, however often it is published.
pub proof fn a_question_stays_while_the_store_asks_it(ui: UiView, snapshot: Snapshot)
    requires
        first_item(snapshot.queries@, ui.unasked()) is None,
        ui.modal matches Some(modal) && modal.approves() matches Some(id) && first_item(
            snapshot.queries@,
            query_is(id),
        ) matches Some(query) && query.needs_approval is Some,
    ensures
        ui.approvals_raised(snapshot) == ui,
{
}

/// A question names the query it is about, so the dialog that asks it is known
/// again.
pub proof fn a_question_remembers_its_query(ui: UiView, snapshot: Snapshot)
    requires
        first_item(snapshot.queries@, ui.unasked()) is Some,
    ensures
        ui.approvals_raised(snapshot).modal matches Some(modal) && modal.approves() == Some(
            first_item(snapshot.queries@, ui.unasked())->0.id,
        ),
{
}

/// A query that another screen is showing is no question of this one's.
pub proof fn a_question_is_about_a_tab_of_this_screen(ui: UiView, snapshot: Snapshot)
    ensures
        first_item(snapshot.queries@, ui.unasked()) matches Some(query) ==> ui.is_mine(query.id),
{
    first_is_the_first(snapshot.queries@, ui.unasked());
}

proof fn reports_of_others_stay(
    reports: Seq<ReportView>,
    conn: ConnId,
    table: Seq<Seq<char>>,
    other: ConnId,
    others: Seq<Seq<char>>,
    n: int,
)
    requires
        0 <= n <= reports.len(),
    ensures
        first_item(
            reports.take(n).filter(report_not_of(conn, table)),
            report_of(other, others),
        ) == if other == conn && others == table {
            None
        } else {
            first_item(reports.take(n), report_of(other, others))
        },
    decreases n,
{
    let p = report_of(other, others);
    let q = report_not_of(conn, table);
    if n == 0 {
        reveal(Seq::filter);
        assert(reports.take(0).filter(q) =~= reports.take(0));
        first_is_the_first(reports.take(0), p);
    } else {
        reports_of_others_stay(reports, conn, table, other, others, n - 1);
        filter_of_one_more(reports, q, n - 1);
        let kept = reports.take(n - 1).filter(q);
        assert(reports.take(n) =~= reports.take(n - 1).push(reports[n - 1]));
        first_of_one_more(reports.take(n - 1), reports[n - 1], p);
        first_of_one_more(kept, reports[n - 1], p);
    }
}

proof fn first_of_one_more<T>(items: Seq<T>, item: T, p: spec_fn(T) -> bool)
    ensures
        first_item(items.push(item), p) == match first_item(items, p) {
            Some(found) => Some(found),
            None => if p(item) {
                Some(item)
            } else {
                None
            },
        },
{
    let more = items.push(item);
    first_is_the_first(items, p);
    first_is_the_first(more, p);
    if let Some(i) = first(items, p) {
        assert(p(more[i]));
        let j = first(more, p)->0;
        if j < i {
            assert(p(items[j]));
        }
    } else {
        if let Some(j) = first(more, p) {
            if j < items.len() {
                assert(p(items[j]));
            }
        } else {
            assert(!p(more[items.len() as int]));
        }
        if p(item) {
            assert(p(more[items.len() as int]));
        }
    }
}

/// What is remembered of one preview's errors once it has been reported, and
/// that nothing else is forgotten.
proof fn reporting_a_preview_remembers_it(
    ui: UiView,
    tab: TabView,
    snapshot: Snapshot,
    other: ConnId,
    others: Seq<Seq<char>>,
)
    ensures
        ({
            let next = ui.preview_reported(tab, snapshot);
            let mine = tab.table() matches Some(table) && table@ == others && tab.conn == other;
            &&& same_tabs(ui, next)
            &&& !mine ==> next.told(other, others) == ui.told(other, others)
            &&& mine ==> (first_item(snapshot.previews@, preview_of(other, others)) matches Some(
                preview,
            ) ==> next.told(other, others) == match preview.last_error {
                Some(text) => Some(text@),
                None => None,
            })
        }),
{
    if let Some(table) = tab.table() {
        let reports = ui.reported_preview_errors;
        assert(reports.take(reports.len() as int) =~= reports);
        reports_of_others_stay(reports, tab.conn, table@, other, others, reports.len() as int);
        let kept = reports.filter(report_not_of(tab.conn, table@));
        if let Some(preview) = first_item(snapshot.previews@, preview_of(tab.conn, table@)) {
            if let Some(text) = preview.last_error {
                first_of_one_more(
                    kept,
                    ReportView { conn: tab.conn, table: table@, text: text@ },
                    report_of(other, others),
                );
            }
        }
    }
}

proof fn reported_tabs_are_told(ui: UiView, snapshot: Snapshot, n: int, k: int)
    requires
        sound(ui),
        0 <= k < n <= ui.tabs.len(),
        ui.tabs[k].table() is Some,
        first_item(
            snapshot.previews@,
            preview_of(ui.tabs[k].conn, ui.tabs[k].table()->0@),
        ) is Some,
    ensures
        same_tabs(ui, ui.previews_reported(snapshot, n)),
        ui.previews_reported(snapshot, n).told(ui.tabs[k].conn, ui.tabs[k].table()->0@)
            == match first_item(
            snapshot.previews@,
            preview_of(ui.tabs[k].conn, ui.tabs[k].table()->0@),
        )->0.last_error {
            Some(text) => Some(text@),
            None => None,
        },
    decreases n,
{
    let conn = ui.tabs[k].conn;
    let table = ui.tabs[k].table()->0@;
    let before = ui.previews_reported(snapshot, n - 1);
    reporting_a_preview_remembers_it(before, ui.tabs[n - 1], snapshot, conn, table);
    reporting_touches_no_tabs(ui, snapshot, n - 1);
    if k < n - 1 {
        reported_tabs_are_told(ui, snapshot, n - 1, k);
        assert(!same_thing(ui.tabs[k], ui.tabs[n - 1]));
    }
}

proof fn reporting_touches_no_tabs(ui: UiView, snapshot: Snapshot, n: int)
    requires
        0 <= n <= ui.tabs.len(),
    ensures
        same_tabs(ui, ui.previews_reported(snapshot, n)),
    decreases n,
{
    if n > 0 {
        reporting_touches_no_tabs(ui, snapshot, n - 1);
    }
}

proof fn nothing_is_left_to_report(ui: UiView, snapshot: Snapshot, n: int)
    requires
        sound(ui),
        0 <= n <= ui.tabs.len(),
    ensures
        ({
            let told = ui.previews_reported(snapshot, ui.tabs.len() as int);
            told.previews_reported(snapshot, n).toasts == told.toasts
                && forall|conn: ConnId, table: Seq<Seq<char>>| #[trigger]
                told.previews_reported(snapshot, n).told(conn, table) == told.told(conn, table)
        }),
    decreases n,
{
    let told = ui.previews_reported(snapshot, ui.tabs.len() as int);
    reporting_touches_no_tabs(ui, snapshot, ui.tabs.len() as int);
    if n > 0 {
        nothing_is_left_to_report(ui, snapshot, n - 1);
        let so_far = told.previews_reported(snapshot, n - 1);
        let tab = ui.tabs[n - 1];
        let next = told.previews_reported(snapshot, n);
        assert(next == so_far.preview_reported(tab, snapshot));
        if let Some(table) = tab.table() {
            if let Some(preview) = first_item(
                snapshot.previews@,
                preview_of(tab.conn, table@),
            ) {
                reported_tabs_are_told(ui, snapshot, ui.tabs.len() as int, n - 1);
                assert(so_far.told(tab.conn, table@) == told.told(tab.conn, table@));
            }
        }
        assert forall|conn: ConnId, table: Seq<Seq<char>>| #[trigger]
            next.told(conn, table) == told.told(conn, table) by {
            reporting_a_preview_remembers_it(so_far, tab, snapshot, conn, table);
            assert(so_far.told(conn, table) == told.told(conn, table));
            if tab.table() matches Some(held) && held@ == table && tab.conn == conn {
                if first_item(snapshot.previews@, preview_of(conn, table)) is Some {
                    reported_tabs_are_told(ui, snapshot, ui.tabs.len() as int, n - 1);
                } else {
                    assert(next == so_far);
                }
            }
        }
    }
}

/// A preview's error is said once: the same snapshot published again raises no
/// notice that it raised already.
pub proof fn an_error_is_said_once(ui: UiView, snapshot: Snapshot)
    requires
        sound(ui),
    ensures
        ({
            let n = ui.tabs.len() as int;
            let told = ui.previews_reported(snapshot, n);
            told.previews_reported(snapshot, n).toasts == told.toasts
        }),
{
    nothing_is_left_to_report(ui, snapshot, ui.tabs.len() as int);
}

proof fn what_is_told_is_remembered(
    ui: UiView,
    failures: Seq<(QueryId, Seq<char>)>,
    n: int,
    id: u64,
)
    requires
        0 <= n <= failures.len(),
    ensures
        same_tabs(ui, ui.failures_told(failures, n)),
        ui.failures_told(failures, n).reported_query_errors.contains(id)
            <==> ui.reported_query_errors.contains(id) || exists|i: int|
            0 <= i < n && (#[trigger] failures[i]).0.0 == id,
    decreases n,
{
    if n > 0 {
        what_is_told_is_remembered(ui, failures, n - 1, id);
        let before = ui.failures_told(failures, n - 1);
        if failures[n - 1].0.0 == id {
            assert(ui.failures_told(failures, n).reported_query_errors.contains(id));
        }
        if exists|i: int| 0 <= i < n && (#[trigger] failures[i]).0.0 == id {
            let i = choose|i: int| 0 <= i < n && (#[trigger] failures[i]).0.0 == id;
            if i < n - 1 {
                assert(failures[i].0.0 == id);
            }
        }
    }
}

proof fn a_failure_is_listed(ui: UiView, snapshot: Snapshot, n: int, k: int)
    requires
        0 <= k < n <= ui.tabs.len(),
        ui.failure_of(ui.tabs[k], snapshot) is Some,
    ensures
        exists|i: int|
            0 <= i < ui.failures(snapshot, n).len() && #[trigger] ui.failures(snapshot, n)[i]
                == ui.failure_of(ui.tabs[k], snapshot)->0,
    decreases n,
{
    let now = ui.failures(snapshot, n);
    if k == n - 1 {
        assert(now[now.len() - 1] == ui.failure_of(ui.tabs[k], snapshot)->0);
    } else {
        a_failure_is_listed(ui, snapshot, n - 1, k);
        let before = ui.failures(snapshot, n - 1);
        let i = choose|i: int|
            0 <= i < before.len() && #[trigger] before[i] == ui.failure_of(
                ui.tabs[k],
                snapshot,
            )->0;
        assert(now[i] == before[i]);
    }
}

proof fn nothing_is_left_to_tell(ui: UiView, snapshot: Snapshot, n: int)
    requires
        0 <= n <= ui.tabs.len(),
    ensures
        ui.queries_reported(snapshot).failures(snapshot, n).len() == 0,
    decreases n,
{
    let told = ui.queries_reported(snapshot);
    let failures = ui.failures(snapshot, ui.tabs.len() as int);
    what_is_told_is_remembered(ui, failures, failures.len() as int, 0);
    if n > 0 {
        nothing_is_left_to_tell(ui, snapshot, n - 1);
        let tab = ui.tabs[n - 1];
        assert(told.query_of(tab.id) == ui.query_of(tab.id));
        if let Some(id) = ui.query_of(tab.id) {
            what_is_told_is_remembered(ui, failures, failures.len() as int, id.0);
            if ui.failure_of(tab, snapshot) is Some {
                a_failure_is_listed(ui, snapshot, ui.tabs.len() as int, n - 1);
            }
        }
    }
}

/// A run that failed is said once, however often the snapshot is published.
pub proof fn a_failed_run_is_said_once(ui: UiView, snapshot: Snapshot)
    ensures
        ui.queries_reported(snapshot).queries_reported(snapshot) == ui.queries_reported(snapshot),
{
    let told = ui.queries_reported(snapshot);
    let failures = ui.failures(snapshot, ui.tabs.len() as int);
    what_is_told_is_remembered(ui, failures, failures.len() as int, 0);
    nothing_is_left_to_tell(ui, snapshot, ui.tabs.len() as int);
}

/// A connection that is closed takes its previews with it and nothing else:
/// what somebody wrote stays.
pub proof fn closing_a_connection_keeps_what_was_written(
    ui: UiView,
    snapshot: Snapshot,
    n: int,
    k: int,
)
    requires
        sound(ui),
        0 <= n <= ui.tabs.len(),
        0 <= k < ui.tabs.len(),
    ensures
        ({
            let next = ui.disconnected_closed(ui.tabs, snapshot, n);
            &&& sound(next)
            &&& !UiView::disconnected(ui.tabs[k], snapshot) ==> next.tab(ui.tabs[k].id) == Some(
                ui.tabs[k],
            )
            &&& k < n && UiView::disconnected(ui.tabs[k], snapshot) ==> next.tab(
                ui.tabs[k].id,
            ) is None
        }),
    decreases n,
{
    a_tab_is_found_by_its_id(ui, k);
    if n > 0 {
        closing_a_connection_keeps_what_was_written(ui, snapshot, n - 1, k);
        let before = ui.disconnected_closed(ui.tabs, snapshot, n - 1);
        let gone = ui.tabs[n - 1].id;
        let next = ui.disconnected_closed(ui.tabs, snapshot, n);
        if UiView::disconnected(ui.tabs[n - 1], snapshot) {
            closing_a_tab_leaves_the_others(before, gone);
            a_closed_tab_is_gone(before, gone, ui.tabs[k].id);
            if k != n - 1 {
                if k < n - 1 {
                    assert(ui.tabs[k].id != ui.tabs[n - 1].id);
                } else {
                    assert(ui.tabs[n - 1].id != ui.tabs[k].id);
                }
            }
        }
    }
}

/// Closing one tab is closing no other.
pub proof fn a_closed_tab_is_gone(ui: UiView, id: TabId, other: TabId)
    requires
        sound(ui),
    ensures
        ui.closed(id).tab(id) is None,
        other != id ==> ui.closed(id).tab(other) == ui.tab(other),
{
    let next = ui.closed(id);
    closing_a_tab_leaves_the_others(ui, id);
    the_first_tab_is_there(ui, id);
    the_first_tab_is_there(ui, other);
    the_first_tab_is_there(next, id);
    the_first_tab_is_there(next, other);
    if let Some(at) = first(ui.tabs, tab_is(id)) {
        if let Some(i) = first(next.tabs, tab_is(id)) {
            let j = if i < at { i } else { i + 1 };
            assert(next.tabs[i] == ui.tabs[j]);
            if j < at {
                assert(ui.tabs[j].id != ui.tabs[at].id);
            } else {
                assert(ui.tabs[at].id != ui.tabs[j].id);
            }
        }
        if other != id {
            if let Some(k) = first(ui.tabs, tab_is(other)) {
                let m = if k < at { k } else { k - 1 };
                assert(next.tabs[m] == ui.tabs[k]);
                a_tab_is_found_by_its_id(next, m);
            } else if let Some(m) = first(next.tabs, tab_is(other)) {
                let k = if m < at { m } else { m + 1 };
                assert(next.tabs[m] == ui.tabs[k]);
            }
        }
    }
}

// ── what a command leaves alone ────────────────────────────────────────────

proof fn moving_touches_one_grid(
    ui: UiView,
    row: int,
    col: int,
    snapshot: Snapshot,
    rows: Option<PagedResult>,
    id: TabId,
)
    requires
        ui.active_tab != Some(id),
    ensures
        ui.cell_selected(row, col, rows).paged(PaneId::Grid, snapshot).0.grid(id) == ui.grid(id),
{
    reveal(UiView::cell_selected);
    selecting_opens_nothing(ui, row, col, rows);
    paging_touches_one_grid(ui.cell_selected(row, col, rows), PaneId::Grid, snapshot, id);
}

proof fn paging_touches_one_grid(ui: UiView, pane: PaneId, snapshot: Snapshot, id: TabId)
    requires
        ui.active_tab != Some(id),
    ensures
        ui.paged(pane, snapshot).0.grid(id) == ui.grid(id),
{
    reveal(UiView::paged);
}

/// A screen after a command.
#[verifier::opaque]
spec fn after(
    ui: UiView,
    cmd: CmdView,
    snapshot: Snapshot,
    rows: Option<PagedResult>,
) -> UiView {
    ui.applied(cmd, snapshot, rows).0
}

/// Commands that scroll or move the cursor.
spec fn moves_about(cmd: ViewCmd) -> bool {
    scrolls(cmd) || moves_the_cursor(cmd) || cmd is ResizeColumn
}

/// Commands that open a tab, close one or put something in one.
spec fn opens_or_closes(cmd: ViewCmd) -> bool {
    opens(cmd) || cmd is SelectSection || cmd is ReuseRun || cmd is CloseTab
}

#[verifier::spinoff_prover]
proof fn scrolling_touches_one_grid(
    ui: UiView,
    cmd: ViewCmd,
    snapshot: Snapshot,
    rows: Option<PagedResult>,
    id: TabId,
)
    requires
        ui.active_tab != Some(id),
        scrolls(cmd),
    ensures
        after(ui, CmdView::Plain(cmd), snapshot, rows).grid(id) == ui.grid(id),
{
    reveal(after);
    match cmd {
        ViewCmd::ScrollBy { pane, delta } => {
            let to = stepped(ui.offset(pane), delta as int);
            paging_touches_one_grid(ui.scrolled(pane, to, snapshot, rows), pane, snapshot, id);
        },
        ViewCmd::ScrollToRatio { pane, permille } => {
            let to = ui.scrollable(pane, snapshot, rows) * least(permille as int, 1000) / 1000;
            paging_touches_one_grid(ui.scrolled(pane, to, snapshot, rows), pane, snapshot, id);
        },
        ViewCmd::ScrollToEnd(pane) => {
            let to = usize::MAX as int;
            paging_touches_one_grid(ui.scrolled(pane, to, snapshot, rows), pane, snapshot, id);
        },
        _ => {},
    }
}

#[verifier::spinoff_prover]
proof fn moving_the_cursor_touches_one_grid(
    ui: UiView,
    cmd: ViewCmd,
    snapshot: Snapshot,
    rows: Option<PagedResult>,
    id: TabId,
)
    requires
        ui.active_tab != Some(id),
        cmd is SelectCell || cmd is MoveCellSelection,
    ensures
        after(ui, CmdView::Plain(cmd), snapshot, rows).grid(id) == ui.grid(id),
{
    reveal(after);
    match cmd {
        ViewCmd::SelectCell { row, col } => {
            moving_touches_one_grid(
                ui.unanchored(),
                row as int,
                col as int,
                snapshot,
                rows,
                id,
            );
        },
        ViewCmd::MoveCellSelection { drow, dcol } => {
            moving_touches_one_grid(
                ui.unanchored(),
                stepped(ui.cursor().0, drow as int),
                stepped(ui.cursor().1, dcol as int),
                snapshot,
                rows,
                id,
            );
        },
        _ => {},
    }
}

#[verifier::spinoff_prover]
proof fn extending_touches_one_grid(
    ui: UiView,
    cmd: ViewCmd,
    snapshot: Snapshot,
    rows: Option<PagedResult>,
    id: TabId,
)
    requires
        ui.active_tab != Some(id),
        cmd is ExtendCellSelection || cmd is ExtendCellSelectionTo,
    ensures
        after(ui, CmdView::Plain(cmd), snapshot, rows).grid(id) == ui.grid(id),
{
    reveal(after);
    match cmd {
        ViewCmd::ExtendCellSelection { drow, dcol } => {
            moving_touches_one_grid(
                ui.anchored(snapshot),
                stepped(ui.cursor().0, drow as int),
                stepped(ui.cursor().1, dcol as int),
                snapshot,
                rows,
                id,
            );
        },
        ViewCmd::ExtendCellSelectionTo { row, col } => {
            moving_touches_one_grid(
                ui.anchored(snapshot),
                row as int,
                col as int,
                snapshot,
                rows,
                id,
            );
        },
        _ => {},
    }
}

#[verifier::spinoff_prover]
proof fn moving_about_touches_one_grid(
    ui: UiView,
    cmd: ViewCmd,
    snapshot: Snapshot,
    rows: Option<PagedResult>,
    id: TabId,
)
    requires
        ui.active_tab != Some(id),
        moves_about(cmd),
    ensures
        after(ui, CmdView::Plain(cmd), snapshot, rows).grid(id) == ui.grid(id),
{
    if scrolls(cmd) {
        scrolling_touches_one_grid(ui, cmd, snapshot, rows, id);
    } else if cmd is SelectCell || cmd is MoveCellSelection {
        moving_the_cursor_touches_one_grid(ui, cmd, snapshot, rows, id);
    } else if moves_the_cursor(cmd) {
        extending_touches_one_grid(ui, cmd, snapshot, rows, id);
    } else {
        reveal(after);
    }
}

#[verifier::spinoff_prover]
proof fn opening_a_tab_touches_one_grid(
    ui: UiView,
    cmd: ViewCmd,
    snapshot: Snapshot,
    rows: Option<PagedResult>,
    id: TabId,
)
    requires
        ui.active_tab != Some(id),
        opens(cmd),
    ensures
        after(ui, CmdView::Plain(cmd), snapshot, rows).grid(id) == ui.grid(id),
{
    reveal(after);
}

#[verifier::spinoff_prover]
proof fn turning_to_a_section_touches_one_grid(
    ui: UiView,
    cmd: ViewCmd,
    snapshot: Snapshot,
    rows: Option<PagedResult>,
    id: TabId,
)
    requires
        ui.active_tab != Some(id),
        cmd is SelectSection,
    ensures
        after(ui, CmdView::Plain(cmd), snapshot, rows).grid(id) == ui.grid(id),
{
    reveal(after);
}

#[verifier::spinoff_prover]
proof fn using_a_run_again_touches_one_grid(
    ui: UiView,
    cmd: ViewCmd,
    snapshot: Snapshot,
    rows: Option<PagedResult>,
    id: TabId,
)
    requires
        ui.active_tab != Some(id),
        cmd is ReuseRun,
    ensures
        after(ui, CmdView::Plain(cmd), snapshot, rows).grid(id) == ui.grid(id),
{
    reveal(after);
}

#[verifier::spinoff_prover]
proof fn closing_a_tab_touches_one_grid(
    ui: UiView,
    cmd: ViewCmd,
    snapshot: Snapshot,
    rows: Option<PagedResult>,
    id: TabId,
)
    requires
        ui.active_tab != Some(id),
        cmd is CloseTab,
        cmd != ViewCmd::CloseTab(id),
    ensures
        after(ui, CmdView::Plain(cmd), snapshot, rows).grid(id) == ui.grid(id),
{
    reveal(after);
}

proof fn opening_touches_one_grid(
    ui: UiView,
    cmd: ViewCmd,
    snapshot: Snapshot,
    rows: Option<PagedResult>,
    id: TabId,
)
    requires
        ui.active_tab != Some(id),
        opens_or_closes(cmd),
        cmd != ViewCmd::CloseTab(id),
    ensures
        after(ui, CmdView::Plain(cmd), snapshot, rows).grid(id) == ui.grid(id),
{
    if opens(cmd) {
        opening_a_tab_touches_one_grid(ui, cmd, snapshot, rows, id);
    } else if cmd is SelectSection {
        turning_to_a_section_touches_one_grid(ui, cmd, snapshot, rows, id);
    } else if cmd is ReuseRun {
        using_a_run_again_touches_one_grid(ui, cmd, snapshot, rows, id);
    } else {
        closing_a_tab_touches_one_grid(ui, cmd, snapshot, rows, id);
    }
}

#[verifier::spinoff_prover]
proof fn anything_else_touches_no_grid(
    ui: UiView,
    cmd: CmdView,
    snapshot: Snapshot,
    rows: Option<PagedResult>,
    id: TabId,
)
    requires
        ui.active_tab != Some(id),
        cmd matches CmdView::Plain(cmd) ==> !moves_about(cmd) && !opens_or_closes(cmd),
    ensures
        after(ui, cmd, snapshot, rows).grid(id) == ui.grid(id),
{
    reveal(after);
}

/// Two tabs have nothing to say to each other about their grids: nothing but
/// closing a tab that is not in front touches what is kept of it.
pub proof fn a_command_touches_one_grid(
    ui: UiView,
    cmd: CmdView,
    snapshot: Snapshot,
    rows: Option<PagedResult>,
    id: TabId,
)
    requires
        ui.active_tab != Some(id),
        cmd != CmdView::Plain(ViewCmd::CloseTab(id)),
    ensures
        ui.applied(cmd, snapshot, rows).0.grid(id) == ui.grid(id),
{
    assert(after(ui, cmd, snapshot, rows).grid(id) == ui.grid(id)) by {
        match cmd {
            CmdView::Plain(plain) => {
                if moves_about(plain) {
                    moving_about_touches_one_grid(ui, plain, snapshot, rows, id);
                } else if opens_or_closes(plain) {
                    opening_touches_one_grid(ui, plain, snapshot, rows, id);
                } else {
                    anything_else_touches_no_grid(ui, cmd, snapshot, rows, id);
                }
            },
            _ => anything_else_touches_no_grid(ui, cmd, snapshot, rows, id),
        }
    }
    reveal(after);
}

/// A copy is always answered: with the cells on their way, or with the reason
/// that they are not.
pub proof fn every_copy_is_answered(
    ui: UiView,
    format: Format,
    all: bool,
    snapshot: Snapshot,
    rows: PagedResult,
)
    requires
        all || ui.active_grid() is Some,
    ensures
        ({
            let next = ui.copied(format, all, snapshot, Some(rows));
            &&& next.toasts.len() == ui.toasts.len() + 1
            &&& next.pending_copy != ui.pending_copy ==> next.toasts.last().severity
                == Severity::Info
        }),
{
}

/// Closing a tab asks nothing of the store.
pub proof fn closing_a_tab_fetches_nothing(
    ui: UiView,
    id: TabId,
    snapshot: Snapshot,
    rows: Option<PagedResult>,
)
    ensures
        ui.applied(CmdView::Plain(ViewCmd::CloseTab(id)), snapshot, rows) == (
            ui.closed(id),
            None::<ActionView>,
        ),
{
}

} // verus!
