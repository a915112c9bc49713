//! What somebody is told of, and what the store is sent.

use crate::definition::{detail_titles, lays_out, section_titles, Laid};
use crate::editor::Edited;
use crate::events::Event;
use crate::geometry::Rect;
use crate::history::{runs_words, search_spans};
use crate::hit::{grabbed, Hit};
use crate::ids::{ConnId, QueryId, TabId};
use crate::input::{key_means, InputView};
use crate::intent::{Action, ActionView};
use crate::model::{
    conn_is, preview_of, query_is, ConnStatus, LoadState, PreviewView, ProfileColor, QueryView,
    Snapshot, TableDetail,
};
use crate::mouse::MouseState;
use crate::paint::Color;
use crate::reading::{a_count_says_itself, count_in, unit_in};
use crate::run::{edited, event_taken, failure_raised, known, sending, sent, untold_failure};
use crate::screen::counted;
use crate::search::{first, first_is_the_first, first_item};
use crate::shown::{a_cell_shows_its_text, shows};
use crate::state::{tab_is, ContentView, TabView, UiView};
use crate::text::decimal;
use crate::tree::profile_color;
use crate::ui::{FilterView, Severity};
use vstd::prelude::*;

verus! {

// ── what went wrong ────────────────────────────────────────────────────────

/// A connection that could not be opened is told of in a dialog that names it
/// and says why: the first that nobody was told of, and no other at the same
/// time.
pub proof fn a_failed_connection_is_told_of(ui: UiView, snapshot: Snapshot, k: int)
    requires
        0 <= k < snapshot.connections@.len(),
        snapshot.connections@[k].status is Failed,
        !ui.reported_failures.contains(snapshot.connections@[k].id.0),
        forall|j: int|
            0 <= j < k ==> !((#[trigger] snapshot.connections@[j]).status is Failed)
                || ui.reported_failures.contains(snapshot.connections@[j].id.0),
    ensures
        ({
            let conn = snapshot.connections@[k];
            let next = failure_raised(ui, snapshot);
            &&& next.modal matches Some(dialog) && {
                &&& dialog.title.take(conn.name@.len() as int) == conn.name@
                &&& dialog.title.skip(conn.name@.len() as int) == " could not be opened"@
                &&& conn.status matches ConnStatus::Failed(why) && dialog.body == why@
                &&& dialog.grave
                &&& dialog.choices.len() == 0
            }
            &&& next.reported_failures == ui.reported_failures.insert(conn.id.0)
            &&& next.tabs == ui.tabs && next.toasts == ui.toasts
        }),
{
    let wanted = untold_failure(ui.reported_failures);
    let all = snapshot.connections@;
    first_is_the_first(all, wanted);
    assert(wanted(all[k]));
    let found = first(all, wanted)->0;
    assert(wanted(all[found]));
    assert(found == k) by {
        if found < k {
            assert(!wanted(all[found]));
        }
    }
    let conn = all[k];
    let dialog = failure_raised(ui, snapshot).modal->0;
    assert(dialog.title.take(conn.name@.len() as int) =~= conn.name@);
    assert(dialog.title.skip(conn.name@.len() as int) =~= " could not be opened"@);
}

/// An error of a preview is told of once, as it stands, beside what is told of
/// already; and once the error is gone, the same one would be told of again.
pub proof fn a_failed_preview_is_told_of(
    ui: UiView,
    tab: TabView,
    snapshot: Snapshot,
    preview: PreviewView,
)
    requires
        tab.content is Preview,
        first_item(
            snapshot.previews@,
            preview_of(tab.conn, tab.content->Preview_0@),
        ) == Some(preview),
    ensures
        ({
            let table = tab.content->Preview_0@;
            let next = ui.preview_reported(tab, snapshot);
            match preview.last_error {
                Some(why) => if ui.told(tab.conn, table) == Some(why@) {
                    next == ui
                } else {
                    &&& next.toasts.len() == ui.toasts.len() + 1
                    &&& next.toasts.drop_last() == ui.toasts
                    &&& next.toasts.last().text == why@
                    &&& next.toasts.last().severity == Severity::Error
                    &&& next.modal == ui.modal
                },
                None => next.toasts == ui.toasts && next.modal == ui.modal,
            }
        }),
{
    let next = ui.preview_reported(tab, snapshot);
    if let Some(why) = preview.last_error {
        if ui.told(tab.conn, tab.content->Preview_0@) != Some(why@) {
            assert(next.toasts.drop_last() =~= ui.toasts);
        }
    }
}

proof fn every_failure_is_told(
    ui: UiView,
    failures: Seq<(QueryId, Seq<char>)>,
    n: int,
    i: int,
)
    requires
        0 <= n <= failures.len(),
    ensures
        ui.failures_told(failures, n).toasts.len() == ui.toasts.len() + n,
        0 <= i < n ==> ui.failures_told(failures, n).toasts[ui.toasts.len() + i].text
            == failures[i].1 && ui.failures_told(failures, n).toasts[ui.toasts.len() + i].severity
            == Severity::Error,
        0 <= i < ui.toasts.len() ==> ui.failures_told(failures, n).toasts[i] == ui.toasts[i],
    decreases n,
{
    if n > 0 {
        every_failure_is_told(ui, failures, n - 1, i);
    }
}

proof fn a_failure_is_among_them(ui: UiView, snapshot: Snapshot, n: int, k: int)
    requires
        0 <= k < n <= ui.tabs.len(),
        ui.failure_of(ui.tabs[k], snapshot) is Some,
    ensures
        exists|i: int|
            0 <= i < ui.failures(snapshot, n).len() && #[trigger] ui.failures(snapshot, n)[i]
                == ui.failure_of(ui.tabs[k], snapshot)->0,
    decreases n,
{
    let all = ui.failures(snapshot, n);
    if k == n - 1 {
        assert(all[all.len() - 1] == ui.failure_of(ui.tabs[k], snapshot)->0);
    } else {
        a_failure_is_among_them(ui, snapshot, n - 1, k);
        let before = ui.failures(snapshot, n - 1);
        let i = choose|i: int|
            0 <= i < before.len() && #[trigger] before[i] == ui.failure_of(
                ui.tabs[k],
                snapshot,
            )->0;
        assert(all[i] == before[i]);
    }
}

/// A run that failed and that nobody was told of is told of as an error, in the
/// words it failed with, after what is told of already.
pub proof fn a_failed_run_is_told_of(
    ui: UiView,
    snapshot: Snapshot,
    k: int,
    id: QueryId,
    query: QueryView,
    why: Seq<char>,
)
    requires
        0 <= k < ui.tabs.len(),
        ui.query_of(ui.tabs[k].id) == Some(id),
        !ui.reported_query_errors.contains(id.0),
        first_item(snapshot.queries@, query_is(id)) == Some(query),
        query.data matches LoadState::Failed(said) && said@ == why,
    ensures
        ({
            let next = ui.queries_reported(snapshot);
            exists|i: int|
                ui.toasts.len() <= i < next.toasts.len() && (#[trigger] next.toasts[i]).text == why
                    && next.toasts[i].severity == Severity::Error
        }),
{
    let n = ui.tabs.len() as int;
    let failures = ui.failures(snapshot, n);
    assert(ui.failure_of(ui.tabs[k], snapshot) == Some((id, why)));
    a_failure_is_among_them(ui, snapshot, n, k);
    let i = choose|i: int| 0 <= i < failures.len() && #[trigger] failures[i] == (id, why);
    every_failure_is_told(ui, failures, failures.len() as int, i);
    let next = ui.queries_reported(snapshot);
    assert(next.toasts[ui.toasts.len() + i].text == why);
}

/// A tab goes with its connection where it shows rows of it and the connection is
/// closed or gone; what somebody wrote, a definition and the history stay.
pub proof fn only_previews_go_with_their_connection(tab: TabView, snapshot: Snapshot)
    ensures
        !(tab.content is Preview) ==> !UiView::disconnected(tab, snapshot),
        tab.content is Preview && (forall|i: int|
            0 <= i < snapshot.connections@.len() ==> (#[trigger] snapshot.connections@[i]).id
                != tab.conn) ==> UiView::disconnected(tab, snapshot),
        forall|k: int|
            0 <= k < snapshot.connections@.len() && snapshot.connections@[k].id == tab.conn && (
            forall|j: int|
                0 <= j < k ==> (#[trigger] snapshot.connections@[j]).id != tab.conn)
                && tab.content is Preview ==> (UiView::disconnected(tab, snapshot) <==> (
            #[trigger] snapshot.connections@[k]).status is Closed),
{
    let all = snapshot.connections@;
    let wanted = conn_is(tab.conn);
    first_is_the_first(all, wanted);
    if let Some(found) = first(all, wanted) {
        assert(wanted(all[found]));
        assert forall|k: int|
            0 <= k < all.len() && all[k].id == tab.conn && (forall|j: int|
                0 <= j < k ==> (#[trigger] all[j]).id != tab.conn)
                && tab.content is Preview implies (UiView::disconnected(tab, snapshot) <==> (
        #[trigger] all[k]).status is Closed) by {
            assert(wanted(all[k]));
            if found < k {
                assert(all[found].id != tab.conn);
            } else if k < found {
                assert(!wanted(all[k]));
            }
        }
    } else {
        assert forall|k: int| 0 <= k < all.len() implies (#[trigger] all[k]).id != tab.conn by {
            assert(!wanted(all[k]));
        }
    }
}

// ── what the store is sent ─────────────────────────────────────────────────

/// An action goes to the store as it is, and last. Before a run, the run that the
/// tab in front showed until now is let go of.
pub proof fn an_action_is_sent_as_it_is(ui: UiView, action: ActionView)
    ensures
        ({
            let all = sent(ui, action);
            let shown = match ui.active_tab {
                Some(tab) => ui.query_of(tab),
                None => None,
            };
            &&& all.last() == action
            &&& all.len() == (if action is RunQuery && shown is Some {
                2int
            } else {
                1
            })
            &&& action is RunQuery ==> (shown matches Some(query) ==> all[0] == ActionView::Plain(
                Action::ForgetQuery(query),
            ))
            &&& !(action is RunQuery) ==> sending(ui, action) == ui
        }),
{
}

/// What came back from an editor replaces the buffer it was about and no other,
/// where it is different; an editor that came straight back is warned of, and
/// one that failed is told of in a dialog.
pub proof fn an_edit_is_taken_back(
    ui: UiView,
    tab: TabId,
    at: int,
    outcome: Edited,
    hurried: Seq<char>,
)
    requires
        first(ui.tabs, tab_is(tab)) == Some(at),
        ui.tabs[at].content is Sql,
    ensures
        ({
            let next = edited(ui, tab, outcome, hurried);
            match outcome {
                Edited::Changed(back) => {
                    &&& next.tabs.len() == ui.tabs.len()
                    &&& next.tabs[at].content matches ContentView::Sql { text, .. } && text
                        == back@
                    &&& forall|i: int|
                        0 <= i < ui.tabs.len() && i != at ==> #[trigger] next.tabs[i] == ui.tabs[i]
                    &&& next == (UiView { tabs: next.tabs, ..ui })
                },
                Edited::Unchanged => next == ui,
                Edited::Returned => next.tabs == ui.tabs && next.toasts.last().text == hurried
                    && next.toasts.last().severity == Severity::Warning,
                Edited::Failed(why) => next.tabs == ui.tabs && (next.modal matches Some(dialog)
                    && dialog.body == why@),
            }
        }),
{
    first_is_the_first(ui.tabs, tab_is(tab));
}

// ── events ─────────────────────────────────────────────────────────────────

/// A key is read for what it means on this screen, whatever the pointer does;
/// with the mouse off, the mouse means nothing; and a change of size only has
/// the screen drawn again.
pub proof fn an_event_is_taken_for_what_it_is(
    event: Event,
    hits: Seq<Hit>,
    mouse: MouseState,
    ctx: InputView,
    on: bool,
    now: u64,
)
    ensures
        ({
            let (after, meant, again) = event_taken(event, hits, mouse, ctx, on, now);
            &&& (event matches Event::Key(key) ==> meant == key_means(key, ctx) && after == mouse
                && again == (meant.len() > 0))
            &&& event is Mouse && !on ==> meant.len() == 0 && after == mouse && !again
            &&& event is Resize ==> meant.len() == 0 && again && after.pressed is None
            &&& event is Mouse && on && meant.len() > 0 ==> again
        }),
{
}

/// A key about a connection is about the one whose row is selected, and about
/// the first where none is.
pub proof fn the_selected_row_says_which_connection(
    ui: UiView,
    snapshot: Snapshot,
    new_conn: ConnId,
    new_query: QueryId,
)
    ensures
        ({
            let ctx = known(ui, snapshot, new_conn, new_query);
            &&& (ui.selected_node(snapshot) matches Some(node) ==> ctx.connection == Some(
                node.conn,
            ))
            &&& ui.selected_node(snapshot) is None ==> ctx.connection == (
            if snapshot.connections@.len() > 0 {
                Some(snapshot.connections@[0].id)
            } else {
                None
            })
            &&& ctx.modal_open <==> ui.modal is Some
            &&& ctx.focus == ui.focus
            &&& ctx.tree_selection == ui.tree.selected
            &&& (ui.active_grid() matches Some(grid) ==> ctx.grid_column == Some(grid.col))
        }),
{
}

// ── room ───────────────────────────────────────────────────────────────────

/// The explorer is as wide as it was dragged, wherever that leaves each pane its
/// least; and has twenty-eight hundredths of the screen before it ever was.
pub proof fn the_explorer_is_as_wide_as_it_was_dragged(ui: UiView, total: u16)
    requires
        total >= 25,
    ensures
        ({
            let share = ui.explorer_share(total);
            match ui.explorer_width {
                Some(wanted) => {
                    &&& 12 <= wanted <= total - 13 ==> share == wanted
                    &&& wanted < 12 ==> share == 12
                    &&& wanted > total - 13 ==> share == total - 13
                },
                None => 12 <= share && 100 * share <= 28 * total + 1200 && (total >= 43 ==> 100
                    * share <= 28 * total < 100 * (share + 1)),
            }
        }),
{
}

/// The pane under the grid has the rows it asks for, as far as the grid keeps six
/// of its own; and none while it is closed.
pub proof fn the_lower_pane_has_what_it_asks_for(ui: UiView, total: u16)
    ensures
        match ui.detail_height {
            Some(wanted) => {
                &&& wanted + 6 <= total ==> ui.detail_share(total) == wanted
                &&& wanted + 6 > total >= 6 ==> ui.detail_share(total) == total - 6
                &&& total < 6 ==> ui.detail_share(total) == 0
            },
            None => ui.detail_share(total) == 0,
        },
        ui.detail_toggled().detail_height is Some <==> ui.detail_height is None,
        ui.detail_toggled().detail_height matches Some(height) ==> height == 8,
{
}

/// A boundary can be grabbed by the cell it is on and by the one on either side.
pub proof fn a_boundary_can_be_grabbed_beside_it(boundary: Rect, x: int)
    requires
        boundary.width == 1,
        boundary.x > 0,
    ensures
        boundary.x - 1 <= x <= boundary.x + 1 <==> grabbed(boundary).x <= x < grabbed(boundary).x
            + grabbed(boundary).width,
        grabbed(boundary).y == boundary.y,
        grabbed(boundary).height == boundary.height,
{
}

/// Counting the lines of a text leaves a screen where it is scrolled to, unless
/// that is behind the last line.
pub proof fn counting_lines_keeps_the_place(ui: UiView, lines: int)
    requires
        0 <= lines <= usize::MAX,
        ui.active_tab is Some,
    ensures
        ({
            let next = counted(ui, lines);
            let before = ui.own_grid().row_offset;
            &&& next.sql_lines == lines
            &&& before < lines ==> next.own_grid() == ui.own_grid()
            &&& before >= lines > 0 ==> next.own_grid().row_offset == lines - 1
            &&& lines == 0 ==> next.own_grid().row_offset == 0
        }),
{
}

// ── words and colours ──────────────────────────────────────────────────────

/// The search box of the history shows what is typed into it, with a mark while
/// it is being typed; and where there is room, how many runs were found.
pub proof fn a_search_shows_what_is_typed(width: u16, filter: FilterView, count: usize)
    ensures
        ({
            let spans = search_spans(width, filter, count);
            &&& shows(spans[1].text, filter.text)
            &&& filter.editing ==> spans.len() > 2 && spans[2].text == "▏"@
            &&& !filter.editing && spans.len() > 2 ==> spans[2].text == runs_words(count)
            &&& count_in(runs_words(count).skip(2)) == count
            &&& unit_in(runs_words(count).skip(2)) == " runs"@
        }),
{
    reveal_strlit("  ");
    reveal_strlit(" runs");
    a_cell_shows_its_text(filter.text);
    let rest = decimal(count as nat) + " runs"@;
    assert(runs_words(count).skip(2) =~= rest);
    a_count_says_itself(count as nat, " runs"@);
}

/// The colour a profile asks for is the one of that name, so that two that ask
/// for different ones can be told apart.
pub proof fn profiles_are_told_apart(a: ProfileColor, b: ProfileColor)
    ensures
        a != b ==> profile_color(a) != profile_color(b),
        profile_color(ProfileColor::Red) == Color::Red,
        profile_color(ProfileColor::Yellow) == Color::Yellow,
        profile_color(ProfileColor::Green) == Color::Green,
        profile_color(ProfileColor::Blue) == Color::Blue,
        profile_color(ProfileColor::Magenta) == Color::Magenta,
        profile_color(ProfileColor::Cyan) == Color::Cyan,
{
}

/// A definition is laid out as it is: its sections under their titles in their
/// order, and its statement and its comment word for word.
pub proof fn a_definition_is_laid_out_as_it_is(laid: Laid, detail: TableDetail, k: int)
    requires
        lays_out(laid, detail),
        0 <= k < detail.sections@.len(),
    ensures
        laid.title_list()[k + 1] == detail.sections@[k].title@,
        laid.rows_at(k + 1) == Some(*detail.sections@[k].table),
        laid.ddl is Some <==> detail.ddl is Some,
        detail.ddl matches Some(statement) ==> laid.ddl->0@ == statement@ && laid.title_list().last()
            == "DDL"@,
        laid.columns.rows@.len() == detail.columns@.len(),
{
    assert(section_titles(laid.sections@)[k] == detail_titles(detail.sections@)[k]);
    crate::pictures::a_title_stands_for_its_section(laid, k + 1);
    if detail.ddl is Some {
        let last = laid.title_list().len() - 1;
        crate::pictures::a_title_stands_for_its_section(laid, last);
    }
}

} // verus!
