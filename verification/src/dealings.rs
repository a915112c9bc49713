//! What becomes of tabs, notices, copies and saved statements.

use crate::conduct::{asks, ran};
use crate::copy::{
    a_payload_holds_what_was_copied, base64_bytes, base64_of, decoded_byte, osc52, part_there,
    rendered, Format,
};
use crate::hit::{PaneId, ToastId};
use crate::ids::{ConnId, TabId, TemplateId};
use crate::intent::{Action, ActionView, CmdView, IntentView, SectionPick, ViewCmd};
use crate::invariants::{a_tab_is_found_by_its_id, sound};
use crate::model::{
    live_conn, template_is, template_named, HistoryEntry, LoadState, PagedResult, Snapshot,
    TableRef, Template,
};
use crate::palette::{Kind, PaletteView, Placeholder};
use crate::reading::{a_count_says_itself, count_in, unit_in};
use crate::search::{filter_of_one_more, first, first_is_the_first};
use crate::state::{
    form_fields, run_is, tab_defines, tab_is, tab_previews, tab_searches, toast_is_not, ContentView,
    TabView, ToastView, UiView,
};
use crate::text::{blank, decimal, trimmed};
use crate::ui::{FilterView, Severity};
use vstd::prelude::*;
use vstd::utf8::encode_utf8;

verus! {

// ── tabs ───────────────────────────────────────────────────────────────────

/// Whether a screen has one tab more than another, at the end and in front,
/// with this in it, and is otherwise the same.
pub open spec fn opened_one(before: UiView, after: UiView, conn: ConnId, content: ContentView) -> bool {
    &&& after.tabs.len() == before.tabs.len() + 1
    &&& after.tabs.drop_last() == before.tabs
    &&& after.tabs.last().conn == conn
    &&& after.tabs.last().content == content
    &&& after.active_tab == Some(after.tabs.last().id)
    &&& forall|i: int|
        0 <= i < before.tabs.len() ==> (#[trigger] before.tabs[i]).id != after.tabs.last().id
    &&& after == (UiView {
        tabs: after.tabs,
        active_tab: after.active_tab,
        next_tab: after.next_tab,
        next_sql: after.next_sql,
        ..before
    })
}

proof fn opening_adds_a_tab(ui: UiView, conn: ConnId, content: ContentView)
    requires
        sound(ui),
        ui.room(),
    ensures
        opened_one(ui, ui.opened(conn, content), conn, content),
{
    let next = ui.opened(conn, content);
    assert(next.tabs.drop_last() =~= ui.tabs);
}

/// A new SQL tab is empty, is on the connection it was asked for, has run
/// nothing, and counts one more than the last.
pub proof fn a_new_sql_tab_is_empty(
    ui: UiView,
    conn: ConnId,
    snapshot: Snapshot,
    rows: Option<PagedResult>,
)
    requires
        sound(ui),
        ui.room(),
    ensures
        opened_one(
            ui,
            ran(ui, ViewCmd::OpenSqlTab { conn }, snapshot, rows),
            conn,
            ContentView::Sql {
                number: (ui.next_sql + 1) as u32,
                text: Seq::empty(),
                query: None,
            },
        ),
        ran(ui, ViewCmd::OpenSqlTab { conn }, snapshot, rows).next_sql == ui.next_sql + 1,
        asks(ui, ViewCmd::OpenSqlTab { conn }, snapshot, rows) is None,
{
    let content = ContentView::Sql {
        number: (ui.next_sql + 1) as u32,
        text: Seq::empty(),
        query: None,
    };
    let next = ran(ui, ViewCmd::OpenSqlTab { conn }, snapshot, rows);
    assert(next.tabs.drop_last() =~= ui.tabs);
}

/// Whether a tab shows the definition of a relation.
pub open spec fn shows_definition(tab: TabView, conn: ConnId, table: TableRef) -> bool {
    tab.conn == conn && (tab.content matches ContentView::Definition { table: held, .. } && held@
        == table@)
}

/// Whether a tab shows the rows of a relation.
pub open spec fn shows_rows(tab: TabView, conn: ConnId, table: TableRef) -> bool {
    tab.conn == conn && (tab.content matches ContentView::Preview(held) && held@ == table@)
}

/// Opening a relation, or its definition, raises the tab that shows it already,
/// and opens one for it where there is none; a definition opens on its first
/// section.
pub proof fn opening_raises_what_is_open(
    ui: UiView,
    conn: ConnId,
    table: TableRef,
    snapshot: Snapshot,
    rows: Option<PagedResult>,
)
    requires
        sound(ui),
        ui.room(),
    ensures
        ({
            let defined = ran(ui, ViewCmd::OpenDefinition { conn, table }, snapshot, rows);
            let shown = ran(ui, ViewCmd::OpenTab { conn, table }, snapshot, rows);
            &&& forall|i: int|
                0 <= i < ui.tabs.len() && shows_definition(#[trigger] ui.tabs[i], conn, table)
                    ==> defined == (UiView { active_tab: Some(ui.tabs[i].id), ..ui })
            &&& forall|i: int|
                0 <= i < ui.tabs.len() && shows_rows(#[trigger] ui.tabs[i], conn, table) ==> shown
                    == (UiView { active_tab: Some(ui.tabs[i].id), ..ui })
            &&& (forall|i: int|
                0 <= i < ui.tabs.len() ==> !shows_definition(#[trigger] ui.tabs[i], conn, table))
                ==> opened_one(ui, defined, conn, ContentView::Definition { table, section: 0 })
            &&& (forall|i: int|
                0 <= i < ui.tabs.len() ==> !shows_rows(#[trigger] ui.tabs[i], conn, table))
                ==> opened_one(ui, shown, conn, ContentView::Preview(table))
        }),
{
    let by_definition = tab_defines(conn, table@);
    let by_rows = tab_previews(conn, table@);
    first_is_the_first(ui.tabs, by_definition);
    first_is_the_first(ui.tabs, by_rows);
    opening_adds_a_tab(ui, conn, ContentView::Definition { table, section: 0 });
    opening_adds_a_tab(ui, conn, ContentView::Preview(table));
    assert forall|i: int| 0 <= i < ui.tabs.len() implies (by_definition(#[trigger] ui.tabs[i])
        <==> shows_definition(ui.tabs[i], conn, table)) by {}
    assert forall|i: int| 0 <= i < ui.tabs.len() implies (by_rows(#[trigger] ui.tabs[i])
        <==> shows_rows(ui.tabs[i], conn, table)) by {}
    let defined = ran(ui, ViewCmd::OpenDefinition { conn, table }, snapshot, rows);
    let shown = ran(ui, ViewCmd::OpenTab { conn, table }, snapshot, rows);
    assert forall|i: int|
        0 <= i < ui.tabs.len() && shows_definition(
            #[trigger] ui.tabs[i],
            conn,
            table,
        ) implies defined == (UiView { active_tab: Some(ui.tabs[i].id), ..ui }) by {
        assert(by_definition(ui.tabs[i]));
        let at = first(ui.tabs, by_definition)->0;
        assert(by_definition(ui.tabs[at]));
        if at < i {
            assert(!crate::invariants::same_thing(ui.tabs[at], ui.tabs[i]));
        }
    }
    assert forall|i: int|
        0 <= i < ui.tabs.len() && shows_rows(#[trigger] ui.tabs[i], conn, table) implies shown == (
    UiView { active_tab: Some(ui.tabs[i].id), ..ui }) by {
        assert(by_rows(ui.tabs[i]));
        let at = first(ui.tabs, by_rows)->0;
        assert(by_rows(ui.tabs[at]));
        if at < i {
            assert(!crate::invariants::same_thing(ui.tabs[at], ui.tabs[i]));
        }
    }
    if forall|i: int| 0 <= i < ui.tabs.len() ==> !shows_definition(#[trigger] ui.tabs[i], conn, table) {
        assert(first(ui.tabs, by_definition) is None);
    }
    if forall|i: int| 0 <= i < ui.tabs.len() ==> !shows_rows(#[trigger] ui.tabs[i], conn, table) {
        assert(first(ui.tabs, by_rows) is None);
    }
}

/// Opening the history raises the one that is open on that connection and asks
/// for what it searches for; where there is none it opens one that searches for
/// nothing, and asks for all of it.
pub proof fn opening_the_history_asks_for_it(
    ui: UiView,
    conn: ConnId,
    snapshot: Snapshot,
    rows: Option<PagedResult>,
    i: int,
)
    requires
        sound(ui),
        ui.room(),
    ensures
        ({
            let cmd = ViewCmd::OpenHistoryTab { conn };
            let next = ran(ui, cmd, snapshot, rows);
            &&& 0 <= i < ui.tabs.len() && ui.tabs[i].conn == conn ==> (
            ui.tabs[i].content matches ContentView::History { filter } ==> next == (UiView {
                active_tab: Some(ui.tabs[i].id),
                ..ui
            }) && asks(ui, cmd, snapshot, rows) == Some(
                ActionView::LoadHistory { terms: filter.text },
            ))
            &&& (forall|j: int|
                0 <= j < ui.tabs.len() ==> !((#[trigger] ui.tabs[j]).conn == conn
                    && ui.tabs[j].content is History)) ==> {
                &&& next.tabs.last().content matches ContentView::History { filter }
                    && filter.text.len() == 0
                &&& opened_one(ui, next, conn, next.tabs.last().content)
                &&& asks(ui, cmd, snapshot, rows) matches Some(
                    ActionView::LoadHistory { terms },
                ) && terms.len() == 0
            }
        }),
{
    let which = tab_searches(conn);
    first_is_the_first(ui.tabs, which);
    opening_adds_a_tab(ui, conn, ContentView::History { filter: FilterView::opening() });
    assert forall|j: int| 0 <= j < ui.tabs.len() implies (which(#[trigger] ui.tabs[j]) <==> (
    ui.tabs[j].conn == conn && ui.tabs[j].content is History)) by {}
    if 0 <= i < ui.tabs.len() && ui.tabs[i].conn == conn && ui.tabs[i].content is History {
        assert(which(ui.tabs[i]));
        let at = first(ui.tabs, which)->0;
        assert(which(ui.tabs[at]));
        if at < i {
            assert(!crate::invariants::same_thing(ui.tabs[at], ui.tabs[i]));
        }
    }
    if forall|j: int|
        0 <= j < ui.tabs.len() ==> !((#[trigger] ui.tabs[j]).conn == conn
            && ui.tabs[j].content is History) {
        assert(first(ui.tabs, which) is None);
    }
}

/// Whether two screens have the same tabs but for what one of them shows.
pub open spec fn changed_one(before: UiView, after: UiView, at: int, content: ContentView) -> bool {
    &&& after.tabs.len() == before.tabs.len()
    &&& forall|i: int|
        0 <= i < before.tabs.len() && i != at ==> #[trigger] after.tabs[i] == before.tabs[i]
    &&& after.tabs[at] == (TabView { content, ..before.tabs[at] })
    &&& after.active_tab == before.active_tab
}

/// A search of the history that is in front is what was typed, or nothing where
/// the box was closed, and the store is asked for just that.
pub proof fn a_history_is_searched_for_what_was_typed(
    ui: UiView,
    filter: Option<FilterView>,
    snapshot: Snapshot,
    rows: Option<PagedResult>,
    at: int,
)
    requires
        sound(ui),
        0 <= at < ui.tabs.len(),
        ui.active_tab == Some(ui.tabs[at].id),
        ui.tabs[at].content is History,
    ensures
        ({
            let (next, asked) = ui.applied(CmdView::SetHistoryTerms(filter), snapshot, rows);
            let terms = match filter {
                Some(filter) => filter.text,
                None => Seq::empty(),
            };
            &&& next.tabs[at].content matches ContentView::History { filter: now } && now.text
                == terms && now.editing == (filter matches Some(f) && f.editing)
            &&& changed_one(ui, next, at, next.tabs[at].content)
            &&& asked == Some(ActionView::LoadHistory { terms })
        }),
{
    a_tab_is_found_by_its_id(ui, at);
    first_is_the_first(ui.tabs, tab_is(ui.tabs[at].id));
    let i = first(ui.tabs, tab_is(ui.tabs[at].id))->0;
    if i < at {
        assert(ui.tabs[i].id != ui.tabs[at].id);
    }
}

/// Turning to a tab that is there puts it in front, and to one that is not does
/// nothing; neither changes anything else.
pub proof fn a_tab_is_turned_to(
    ui: UiView,
    id: TabId,
    snapshot: Snapshot,
    rows: Option<PagedResult>,
)
    ensures
        ({
            let next = ran(ui, ViewCmd::SelectTab(id), snapshot, rows);
            if exists|i: int| 0 <= i < ui.tabs.len() && (#[trigger] ui.tabs[i]).id == id {
                next == (UiView { active_tab: Some(id), ..ui })
            } else {
                next == ui
            }
        }),
{
    first_is_the_first(ui.tabs, tab_is(id));
    if first(ui.tabs, tab_is(id)) is None {
        assert forall|i: int| 0 <= i < ui.tabs.len() implies (#[trigger] ui.tabs[i]).id != id by {
            assert(!tab_is(id)(ui.tabs[i]));
        }
    } else {
        let i = first(ui.tabs, tab_is(id))->0;
        assert(ui.tabs[i].id == id);
    }
}

/// A section of the definition in front is turned to by its place or by a step,
/// and never past the first or the last there is; its grid starts afresh.
pub proof fn a_section_is_turned_to(
    ui: UiView,
    pick: SectionPick,
    snapshot: Snapshot,
    rows: Option<PagedResult>,
    at: int,
)
    requires
        sound(ui),
        0 <= at < ui.tabs.len(),
        ui.active_tab == Some(ui.tabs[at].id),
        ui.tabs[at].content is Definition,
        ui.definition(snapshot) matches Some(detail) && detail.sections@.len() + 2 <= usize::MAX,
    ensures
        ({
            let next = ran(ui, ViewCmd::SelectSection(pick), snapshot, rows);
            let detail = ui.definition(snapshot)->0;
            let last = detail.sections@.len() + if detail.ddl is Some {
                1int
            } else {
                0
            };
            let was = ui.tabs[at].section()->0;
            let wanted = match pick {
                SectionPick::At(place) => place as int,
                SectionPick::By(delta) => was + delta,
            };
            &&& next.tabs[at].content matches ContentView::Definition { table, section }
                && ui.tabs[at].defines() == Some(table) && if wanted < 0 {
                section == 0
            } else if wanted <= last {
                section == wanted
            } else {
                section == last
            }
            &&& changed_one(ui, next, at, next.tabs[at].content)
            &&& !next.grids.contains_key(ui.tabs[at].id.0)
        }),
{
    a_tab_is_found_by_its_id(ui, at);
    first_is_the_first(ui.tabs, tab_is(ui.tabs[at].id));
    let i = first(ui.tabs, tab_is(ui.tabs[at].id))->0;
    if i < at {
        assert(ui.tabs[i].id != ui.tabs[at].id);
    }
}

// ── a statement put where it can be run ────────────────────────────────────

/// Whether a connection is open.
pub open spec fn is_open(snapshot: Snapshot, conn: ConnId) -> bool {
    snapshot.has_live(conn)
}

/// A statement is put into the buffer in front where that has nothing in it, and
/// otherwise into a new one, which opens on the connection of the tab in front
/// while that is open: either way what is in front is the statement, as it was.
pub proof fn a_statement_is_put_where_it_can_be_run(ui: UiView, text: Seq<char>, snapshot: Snapshot)
    requires
        sound(ui),
        ui.room(),
    ensures
        ({
            let next = ui.inserted(text, snapshot);
            let empty = ui.current() matches Some(tab) && tab.sql() matches Some(held) && blank(
                held,
            );
            &&& empty ==> {
                &&& next.current() matches Some(tab) && tab.sql() == Some(text) && tab.query()
                    == ui.current()->0.query() && tab.conn == ui.current()->0.conn
                &&& next.active_tab == ui.active_tab
                &&& next.tabs.len() == ui.tabs.len()
            }
            &&& !empty && ui.connection_for_a_new_tab(snapshot) is Some ==> {
                &&& next.tabs.len() == ui.tabs.len() + 1
                &&& next.current() matches Some(tab) && tab.sql() == Some(text)
                    && tab.query() is None && Some(tab.conn) == ui.connection_for_a_new_tab(snapshot)
                &&& (ui.current() matches Some(was) && is_open(snapshot, was.conn))
                    ==> next.current()->0.conn == ui.current()->0.conn
            }
            &&& !empty && ui.connection_for_a_new_tab(snapshot) is None ==> {
                &&& next.tabs == ui.tabs && next.active_tab == ui.active_tab
                &&& next.toasts.len() == ui.toasts.len() + 1 && next.toasts.last().severity
                    == Severity::Warning
            }
        }),
{
    let next = ui.inserted(text, snapshot);
    let empty = ui.current() matches Some(tab) && tab.sql() matches Some(held) && blank(held);
    if empty {
        let id = ui.active_tab->0;
        first_is_the_first(ui.tabs, tab_is(id));
        let at = first(ui.tabs, tab_is(id))->0;
        first_is_the_first(next.tabs, tab_is(id));
        assert(tab_is(id)(next.tabs[at]));
        let now = first(next.tabs, tab_is(id))->0;
        if now < at {
            assert(next.tabs[now] == ui.tabs[now]);
            assert(!tab_is(id)(ui.tabs[now]));
        }
    } else if let Some(conn) = ui.connection_for_a_new_tab(snapshot) {
        let open = ui.sql_opened(conn);
        let id = open.active_tab->0;
        let last = ui.tabs.len() as int;
        first_is_the_first(open.tabs, tab_is(id));
        assert(tab_is(id)(open.tabs[last]));
        let at = first(open.tabs, tab_is(id))->0;
        if at < last {
            assert(open.tabs[at] == ui.tabs[at]);
            assert(ui.tabs[at].id.0 <= ui.next_tab);
        }
        first_is_the_first(next.tabs, tab_is(id));
        assert(tab_is(id)(next.tabs[last]));
        let now = first(next.tabs, tab_is(id))->0;
        if now < last {
            assert(next.tabs[now] == ui.tabs[now]);
            assert(ui.tabs[now].id.0 <= ui.next_tab);
        }
    }
}

/// A new tab opens on the connection of the tab in front while that is open, on
/// the first that is open otherwise, and nowhere exactly when none is.
pub proof fn a_new_tab_opens_on_what_is_open(ui: UiView, snapshot: Snapshot)
    ensures
        ui.current() matches Some(tab) && is_open(snapshot, tab.conn)
            ==> ui.connection_for_a_new_tab(snapshot) == Some(ui.current()->0.conn),
        !(ui.current() matches Some(tab) && is_open(snapshot, tab.conn))
            ==> match ui.connection_for_a_new_tab(snapshot) {
            Some(conn) => exists|i: int|
                {
                    &&& 0 <= i < snapshot.connections@.len()
                    &&& (#[trigger] snapshot.connections@[i]).id == conn
                    &&& snapshot.connections@[i].live()
                    &&& forall|j: int|
                        0 <= j < i ==> !(#[trigger] snapshot.connections@[j]).live()
                },
            None => forall|i: int|
                0 <= i < snapshot.connections@.len() ==> !(#[trigger] snapshot.connections@[i]).live(),
        },
{
    let open = live_conn();
    first_is_the_first(snapshot.connections@, open);
    assert forall|i: int| 0 <= i < snapshot.connections@.len() implies (open(
        #[trigger] snapshot.connections@[i],
    ) <==> snapshot.connections@[i].live()) by {}
    if let Some(i) = first(snapshot.connections@, open) {
        assert(snapshot.connections@[i].live());
        assert forall|j: int| 0 <= j < i implies !(#[trigger] snapshot.connections@[j]).live() by {
            assert(!open(snapshot.connections@[j]));
        }
    } else {
        assert forall|j: int| 0 <= j < snapshot.connections@.len() implies !(
        #[trigger] snapshot.connections@[j]).live() by {
            assert(!open(snapshot.connections@[j]));
        }
    }
}

/// A past run that is used again puts its own statement where it can be run.
pub proof fn a_past_run_is_used_again(
    ui: UiView,
    snapshot: Snapshot,
    rows: Option<PagedResult>,
    entries: Seq<HistoryEntry>,
    i: int,
)
    requires
        snapshot.history.data matches LoadState::Ready(held) && held@ == entries,
        0 <= i < entries.len(),
        forall|j: int| 0 <= j < i ==> (#[trigger] entries[j]).id != entries[i].id,
    ensures
        ran(ui, ViewCmd::ReuseRun(entries[i].id), snapshot, rows) == ui.inserted(
            entries[i].sql@,
            snapshot,
        ),
{
    let which = run_is(entries[i].id);
    first_is_the_first(entries, which);
    assert(which(entries[i]));
    let at = first(entries, which)->0;
    if at < i {
        assert(entries[at].id != entries[i].id);
    }
}

// ── notices ────────────────────────────────────────────────────────────────

/// Whether a screen has one notice more than another, the last, which says this.
pub open spec fn notified(before: UiView, after: UiView, severity: Severity, text: Seq<char>) -> bool {
    &&& after.toasts.len() == before.toasts.len() + 1
    &&& after.toasts.drop_last() == before.toasts
    &&& after.toasts.last().text == text
    &&& after.toasts.last().severity == severity
    &&& after.toasts.last().created_at == before.clock
}

/// A notice says what it was raised with, when it was raised, and behind the
/// others; and it can be told from every one that came before it.
pub proof fn a_notice_says_what_was_to_be_said(ui: UiView, severity: Severity, text: Seq<char>)
    requires
        ui.room(),
    ensures
        notified(ui, ui.toasted(severity, text), severity, text),
        ui.toasted(severity, text).toasts.last().id.0 > ui.next_toast,
        ui.toasted(severity, text).next_toast == ui.toasted(severity, text).toasts.last().id.0,
        ui.toasted(severity, text) == (UiView {
            toasts: ui.toasted(severity, text).toasts,
            next_toast: ui.toasted(severity, text).next_toast,
            ..ui
        }),
{
    assert(ui.toasted(severity, text).toasts.drop_last() =~= ui.toasts);
}

proof fn the_others_stay(toasts: Seq<ToastView>, id: ToastId, n: int)
    requires
        0 <= n <= toasts.len(),
    ensures
        ({
            let left = toasts.take(n).filter(toast_is_not(id));
            &&& forall|i: int| 0 <= i < left.len() ==> (#[trigger] left[i]).id != id
            &&& forall|i: int|
                0 <= i < n && (#[trigger] toasts[i]).id != id ==> left.contains(toasts[i])
            &&& forall|i: int| 0 <= i < left.len() ==> toasts.contains(#[trigger] left[i])
        }),
    decreases n,
{
    if n > 0 {
        the_others_stay(toasts, id, n - 1);
        let before = toasts.take(n - 1).filter(toast_is_not(id));
        let after = toasts.take(n).filter(toast_is_not(id));
        filter_of_one_more(toasts, toast_is_not(id), n - 1);
        assert(toasts[n - 1] == toasts.take(n)[n - 1]);
        assert forall|i: int| 0 <= i < n && (#[trigger] toasts[i]).id != id implies after.contains(
            toasts[i],
        ) by {
            if i < n - 1 {
                assert(before.contains(toasts[i]));
                let k = choose|k: int| 0 <= k < before.len() && before[k] == toasts[i];
                assert(after[k] == toasts[i]);
            } else {
                assert(after.last() == toasts[i]);
                assert(after[after.len() - 1] == toasts[i]);
            }
        }
    } else {
        assert(toasts.take(0).filter(toast_is_not(id)).len() == 0) by {
            reveal(Seq::filter);
        }
    }
}

/// A notice that is dismissed goes, and the others stay.
pub proof fn a_dismissed_notice_goes(
    ui: UiView,
    id: ToastId,
    snapshot: Snapshot,
    rows: Option<PagedResult>,
)
    ensures
        ({
            let next = ran(ui, ViewCmd::DismissToast(id), snapshot, rows);
            &&& forall|i: int| 0 <= i < next.toasts.len() ==> (#[trigger] next.toasts[i]).id != id
            &&& forall|i: int|
                0 <= i < ui.toasts.len() && (#[trigger] ui.toasts[i]).id != id
                    ==> next.toasts.contains(ui.toasts[i])
            &&& forall|i: int|
                0 <= i < next.toasts.len() ==> ui.toasts.contains(#[trigger] next.toasts[i])
            &&& next == (UiView { toasts: next.toasts, ..ui })
        }),
{
    the_others_stay(ui.toasts, id, ui.toasts.len() as int);
    assert(ui.toasts.take(ui.toasts.len() as int) =~= ui.toasts);
}

// ── the frame ──────────────────────────────────────────────────────────────

/// What a few commands do is all in their names: the pane that is named has the
/// keyboard, a menu or a dialog that is closed is gone, and the detail pane is
/// there after it was not and gone after it was. Nothing else changes.
pub proof fn small_commands_do_what_they_say(
    ui: UiView,
    pane: PaneId,
    snapshot: Snapshot,
    rows: Option<PagedResult>,
)
    ensures
        ran(ui, ViewCmd::FocusPane(pane), snapshot, rows) == (UiView { focus: pane, ..ui }),
        ran(ui, ViewCmd::CloseMenu, snapshot, rows) == (UiView { menu: None, ..ui }),
        ran(ui, ViewCmd::DismissModal, snapshot, rows) == (UiView { modal: None, ..ui }),
        ({
            let next = ran(ui, ViewCmd::ToggleDetail, snapshot, rows);
            &&& next.detail_height is Some <==> ui.detail_height is None
            &&& next == (UiView { detail_height: next.detail_height, ..ui })
            &&& next.detail_height matches Some(height) ==> height == 8
        }),
{
}

/// A menu opens where it was asked for, and where it was asked for by a key, at
/// the top left of the rows; and opening the list of saved statements asks for
/// what is saved, which closing it does not.
pub proof fn what_is_opened_is_where_it_was_asked_for(
    ui: UiView,
    at: (u16, u16),
    ranged: bool,
    palette: PaletteView,
    snapshot: Snapshot,
    rows: Option<PagedResult>,
)
    ensures
        ({
            let pointed = ran(ui, ViewCmd::OpenMenu { at: Some(at), ranged }, snapshot, rows);
            let keyed = ran(ui, ViewCmd::OpenMenu { at: None, ranged }, snapshot, rows);
            let corner = (ui.viewports.grid.x, ui.viewports.grid.y);
            &&& (pointed.menu matches Some(menu) && menu.at == at)
            &&& (keyed.menu matches Some(menu) && menu.at == corner)
            &&& pointed == (UiView { menu: pointed.menu, ..ui })
            &&& keyed == (UiView { menu: keyed.menu, ..ui })
        }),
        ({
            let (open, asked) = ui.applied(CmdView::Palette(Some(palette)), snapshot, rows);
            let (closed, none) = ui.applied(CmdView::Palette(None), snapshot, rows);
            &&& open == (UiView { palette: Some(palette), ..ui })
            &&& asked == Some(ActionView::Plain(Action::LoadTemplates))
            &&& closed == (UiView { palette: None, ..ui })
            &&& none is None
        }),
{
}

// ── copying ────────────────────────────────────────────────────────────────

/// What a terminal is sent to put some bytes on the clipboard: the sequence that
/// says so, the bytes in base64, and the end of it.
pub open spec fn sends(sequence: Seq<char>, bytes: Seq<u8>) -> bool {
    let n = sequence.len() as int;
    let payload = sequence.subrange(7, n - 1);
    &&& n >= 8
    &&& sequence.take(7) == seq!['\u{1b}', ']', '5', '2', ';', 'c', ';']
    &&& sequence[n - 1] == '\u{7}'
    &&& payload.len() == 4 * ((bytes.len() + 2) / 3)
    &&& forall|i: int| 0 <= i < bytes.len() ==> decoded_byte(payload, i) == #[trigger] bytes[i]
}

/// What goes to the terminal is the text that was to be copied, byte for byte.
pub proof fn a_sequence_sends_its_text(text: Seq<char>)
    ensures
        sends(osc52(base64_of(text)), encode_utf8(text)),
{
    reveal_strlit("\u{1b}]52;c;");
    reveal_strlit("\u{7}");
    let bytes = encode_utf8(text);
    let sequence = osc52(base64_of(text));
    let n = sequence.len() as int;
    assert(sequence.subrange(7, n - 1) =~= base64_bytes(bytes));
    assert(sequence.take(7) =~= seq!['\u{1b}', ']', '5', '2', ';', 'c', ';']);
    assert forall|i: int| 0 <= i < bytes.len() implies decoded_byte(base64_bytes(bytes), i)
        == #[trigger] bytes[i] by {
        a_payload_holds_what_was_copied(bytes, i);
    }
}

proof fn a_count_of_cells_says_itself(cells: nat, kb: nat)
    ensures
        ({
            let sent = "sent "@ + decimal(cells) + " cells to the clipboard"@;
            let held = decimal(cells) + " cells is "@ + decimal(kb)
                + "KB, past what a terminal takes in one go — select fewer"@;
            &&& sent.take(5) == "sent "@
            &&& count_in(sent.skip(5)) == cells
            &&& unit_in(sent.skip(5)) == " cells to the clipboard"@
            &&& count_in(held) == cells
            &&& count_in(unit_in(held).skip(10)) == kb
        }),
{
    reveal_strlit("sent ");
    reveal_strlit(" cells to the clipboard");
    reveal_strlit(" cells is ");
    reveal_strlit("KB, past what a terminal takes in one go — select fewer");
    let sent = "sent "@ + decimal(cells) + " cells to the clipboard"@;
    a_count_says_itself(cells, " cells to the clipboard"@);
    assert(sent.skip(5) =~= decimal(cells) + " cells to the clipboard"@);
    assert(sent.take(5) =~= "sent "@);
    let rest = decimal(kb) + "KB, past what a terminal takes in one go — select fewer"@;
    let tail = " cells is "@ + rest;
    let held = decimal(cells) + " cells is "@ + decimal(kb)
        + "KB, past what a terminal takes in one go — select fewer"@;
    assert(held =~= decimal(cells) + tail);
    a_count_says_itself(cells, tail);
    assert(tail.skip(10) =~= rest);
    a_count_says_itself(kb, "KB, past what a terminal takes in one go — select fewer"@);
}

/// The part of a rectangle that is there is all there, and is copied alike.
proof fn a_part_is_copied_alike(rows: PagedResult, format: Format, area: (usize, usize, usize, usize))
    requires
        part_there(rows, area) is Some,
    ensures
        part_there(rows, part_there(rows, area)->0) == part_there(rows, area),
        rendered(rows, format, part_there(rows, area)->0) == rendered(rows, format, area),
        ({
            let (top, left, bottom, right) = part_there(rows, area)->0;
            (bottom - top + 1) * (right - left + 1) >= 1
        }),
{
    let (top, left, bottom, right) = part_there(rows, area)->0;
    let (high, wide) = (bottom - top + 1, right - left + 1);
    assert(high * wide >= 1) by (nonlinear_arith)
        requires
            high >= 1,
            wide >= 1,
    ;
}

/// What a copy is asked for: every cell there is, or what is selected.
pub open spec fn wanted(ui: UiView, all: bool, snapshot: Snapshot, rows: PagedResult) -> (
    usize,
    usize,
    usize,
    usize,
) {
    if all {
        (0, 0, (rows.rows@.len() - 1) as usize, (rows.columns@.len() - 1) as usize)
    } else {
        ui.active_grid()->0.selection(ui.active_sort(snapshot))
    }
}

/// Whether there is something to copy from.
pub open spec fn can_copy(ui: UiView, all: bool, rows: PagedResult) -> bool {
    &&& 0 < rows.rows@.len() <= usize::MAX
    &&& 0 < rows.columns@.len() <= usize::MAX
    &&& all || ui.active_grid() is Some
    &&& ui.room()
}

/// A copy that fits in one sequence sends the cells it was asked for, those that
/// are there, and says how many they are.
pub proof fn a_copy_sends_the_cells_it_was_asked_for(
    ui: UiView,
    format: Format,
    all: bool,
    snapshot: Snapshot,
    rows: PagedResult,
)
    requires
        can_copy(ui, all, rows),
        part_there(rows, wanted(ui, all, snapshot, rows)) is Some,
        ({
            let text = rendered(rows, format, wanted(ui, all, snapshot, rows));
            text.len() > 0 && 4 * ((encode_utf8(text).len() + 2) / 3) <= 524_288
        }),
    ensures
        ({
            let next = ran(ui, ViewCmd::Copy { format, all }, snapshot, Some(rows));
            let area = wanted(ui, all, snapshot, rows);
            let (top, left, bottom, right) = part_there(rows, area)->0;
            let said = next.toasts.last();
            &&& next.pending_copy matches Some(sequence) && sends(
                sequence,
                encode_utf8(rendered(rows, format, area)),
            )
            &&& notified(ui, next, Severity::Info, said.text)
            &&& said.text.take(5) == "sent "@
            &&& count_in(said.text.skip(5)) == (bottom - top + 1) * (right - left + 1)
            &&& unit_in(said.text.skip(5)) == " cells to the clipboard"@
        }),
{
    let asked = ui.asked_to_copy(all, snapshot, rows)->0;
    assert(asked == wanted(ui, all, snapshot, rows));
    let text = rendered(rows, format, asked);
    a_part_is_copied_alike(rows, format, asked);
    a_sequence_sends_its_text(text);
    let (top, left, bottom, right) = part_there(rows, asked)->0;
    let cells = ((bottom - top + 1) * (right - left + 1)) as nat;
    a_count_of_cells_says_itself(cells, 0);
    let next = ui.copied(format, all, snapshot, Some(rows));
    assert(ran(ui, ViewCmd::Copy { format, all }, snapshot, Some(rows)) == next);
    assert(next.toasts.drop_last() =~= ui.toasts);
}

/// A copy that does not fit in one sequence is not sent, and it is said how many
/// cells and how many kilobytes it would have been.
pub proof fn a_copy_that_does_not_fit_is_not_sent(
    ui: UiView,
    format: Format,
    all: bool,
    snapshot: Snapshot,
    rows: PagedResult,
)
    requires
        can_copy(ui, all, rows),
        part_there(rows, wanted(ui, all, snapshot, rows)) is Some,
        ({
            let text = rendered(rows, format, wanted(ui, all, snapshot, rows));
            text.len() > 0 && 4 * ((encode_utf8(text).len() + 2) / 3) > 524_288
        }),
    ensures
        ({
            let next = ran(ui, ViewCmd::Copy { format, all }, snapshot, Some(rows));
            let area = wanted(ui, all, snapshot, rows);
            let (top, left, bottom, right) = part_there(rows, area)->0;
            let said = next.toasts.last();
            let bytes = encode_utf8(rendered(rows, format, area)).len();
            &&& next.pending_copy == ui.pending_copy
            &&& notified(ui, next, Severity::Warning, said.text)
            &&& count_in(said.text) == (bottom - top + 1) * (right - left + 1)
            &&& 1024 * count_in(unit_in(said.text).skip(10)) <= bytes < 1024 * (count_in(
                unit_in(said.text).skip(10),
            ) + 1)
        }),
{
    let asked = ui.asked_to_copy(all, snapshot, rows)->0;
    assert(asked == wanted(ui, all, snapshot, rows));
    a_part_is_copied_alike(rows, format, asked);
    let (top, left, bottom, right) = part_there(rows, asked)->0;
    let cells = ((bottom - top + 1) * (right - left + 1)) as nat;
    let bytes = encode_utf8(rendered(rows, format, asked)).len();
    a_count_of_cells_says_itself(cells, bytes / 1024);
    let next = ui.copied(format, all, snapshot, Some(rows));
    assert(ran(ui, ViewCmd::Copy { format, all }, snapshot, Some(rows)) == next);
    assert(next.toasts.drop_last() =~= ui.toasts);
}

/// Where there is nothing to copy nothing is sent, and it is said that there is
/// nothing.
pub proof fn nothing_is_copied_where_there_is_nothing(
    ui: UiView,
    format: Format,
    all: bool,
    snapshot: Snapshot,
    rows: PagedResult,
)
    requires
        can_copy(ui, all, rows),
        rendered(rows, format, wanted(ui, all, snapshot, rows)).len() == 0,
    ensures
        ({
            let next = ran(ui, ViewCmd::Copy { format, all }, snapshot, Some(rows));
            &&& next.pending_copy == ui.pending_copy
            &&& notified(ui, next, Severity::Info, "nothing to copy"@)
        }),
{
    let asked = ui.asked_to_copy(all, snapshot, rows)->0;
    assert(asked == wanted(ui, all, snapshot, rows));
    if part_there(rows, asked) is Some {
        a_part_is_copied_alike(rows, format, asked);
    }
    let next = ui.copied(format, all, snapshot, Some(rows));
    assert(ran(ui, ViewCmd::Copy { format, all }, snapshot, Some(rows)) == next);
    assert(next.toasts.drop_last() =~= ui.toasts);
}

// ── saved statements ───────────────────────────────────────────────────────

/// A field of a form starts with the relation that is selected where it asks for
/// the name of a table, and with nothing otherwise; and a form asks for every
/// placeholder, in order.
pub proof fn a_form_asks_for_every_placeholder(
    placeholders: Seq<Placeholder>,
    selected: Option<Seq<char>>,
    i: int,
)
    requires
        0 <= i < placeholders.len(),
    ensures
        form_fields(placeholders, selected).len() == placeholders.len(),
        ({
            let field = form_fields(placeholders, selected)[i];
            &&& field.name == placeholders[i].name@
            &&& field.kind == placeholders[i].kind
            &&& match selected {
                Some(table) => if placeholders[i].kind == Kind::Ident && placeholders[i].name@
                    == seq!['t', 'a', 'b', 'l', 'e'] {
                    field.value == table
                } else {
                    field.value.len() == 0
                },
                None => field.value.len() == 0,
            }
        }),
{
    reveal_strlit("table");
    assert("table"@ =~= seq!['t', 'a', 'b', 'l', 'e']);
}

/// A saved statement without placeholders is put where it can be run; one with
/// some is asked about, by a form of its name; and one that cannot be read says
/// why.
pub proof fn a_saved_statement_is_used(
    ui: UiView,
    id: TemplateId,
    outcome: Result<Seq<Placeholder>, Seq<char>>,
    snapshot: Snapshot,
    held: Seq<Template>,
    i: int,
)
    requires
        snapshot.templates.data matches LoadState::Ready(there) && there@ == held,
        0 <= i < held.len(),
        held[i].id == id,
        forall|j: int| 0 <= j < i ==> (#[trigger] held[j]).id != id,
        ui.palette is Some,
    ensures
        ({
            let next = ui.read(id, outcome, snapshot);
            match outcome {
                Ok(placeholders) => if placeholders.len() == 0 {
                    next == (UiView { palette: None, ..ui }).inserted(held[i].body@, snapshot)
                } else {
                    &&& next == (UiView { palette: next.palette, ..ui })
                    &&& next.palette matches Some(palette) && (palette.asking matches Some(form)
                        && form.template == id && form.name == held[i].name@ && form.fields.len()
                        == placeholders.len() && form.at == 0 && form.failed is None)
                },
                Err(why) => {
                    &&& next == (UiView { palette: next.palette, ..ui })
                    &&& next.palette matches Some(palette) && (palette.asking matches Some(form)
                        && form.template == id && form.fields.len() == 0 && form.failed == Some(why))
                },
            }
        }),
{
    the_template_is_found(snapshot, held, i);
}

proof fn the_template_is_found(snapshot: Snapshot, held: Seq<Template>, i: int)
    requires
        snapshot.templates.data matches LoadState::Ready(there) && there@ == held,
        0 <= i < held.len(),
        forall|j: int| 0 <= j < i ==> (#[trigger] held[j]).id != held[i].id,
    ensures
        snapshot.template_by_id(held[i].id) == Some(held[i]),
{
    let which = template_is(held[i].id);
    first_is_the_first(held, which);
    assert(which(held[i]));
    let at = first(held, which)->0;
    if at < i {
        assert(held[at].id != held[i].id);
    }
}

/// Using a saved statement asks for its own body to be read, and submitting a
/// form asks for the body of the statement it is about to be filled in with its
/// answers.
pub proof fn a_saved_statement_is_asked_for(
    ui: UiView,
    snapshot: Snapshot,
    rows: Option<PagedResult>,
    held: Seq<Template>,
    i: int,
)
    requires
        snapshot.templates.data matches LoadState::Ready(there) && there@ == held,
        0 <= i < held.len(),
        forall|j: int| 0 <= j < i ==> (#[trigger] held[j]).id != held[i].id,
    ensures
        asks(ui, ViewCmd::UseTemplate(held[i].id), snapshot, rows) matches Some(
            ActionView::Plain(Action::ReadTemplate { id, body, .. }),
        ) && id == held[i].id && body@ == held[i].body@,
        ran(ui, ViewCmd::UseTemplate(held[i].id), snapshot, rows) == ui,
        ui.palette matches Some(palette) && palette.asking matches Some(form) && form.template
            == held[i].id ==> (asks(ui, ViewCmd::SubmitTemplate, snapshot, rows) matches Some(
            ActionView::BindTemplate { body, values, .. },
        ) && body == held[i].body@ && values == ui.palette->0.asking->0.answers()),
        ran(ui, ViewCmd::SubmitTemplate, snapshot, rows) == ui,
{
    the_template_is_found(snapshot, held, i);
}

/// A form that was filled in puts the statement where it can be run and goes;
/// one that could not be keeps its answers and says why.
pub proof fn a_filled_in_form_goes(
    ui: UiView,
    outcome: Result<Seq<char>, Seq<char>>,
    snapshot: Snapshot,
)
    requires
        ui.palette matches Some(palette) && palette.asking is Some,
    ensures
        match outcome {
            Ok(text) => ui.bound(outcome, snapshot) == (UiView { palette: None, ..ui }).inserted(
                text,
                snapshot,
            ),
            Err(why) => {
                let next = ui.bound(outcome, snapshot);
                let form = ui.palette->0.asking->0;
                &&& next == (UiView { palette: next.palette, ..ui })
                &&& next.palette matches Some(palette) && (palette.asking matches Some(now)
                    && now.fields == form.fields && now.at == form.at && now.template
                    == form.template && now.failed == Some(why))
            },
        },
{
}

/// A statement is saved under the name that was typed, without the white space
/// around it: one of a new name at once, one of a name that is taken only after
/// it was asked whether to replace that one, and one without a name not at all.
/// The palette goes in every case.
pub proof fn a_statement_is_saved_under_its_name(
    ui: UiView,
    snapshot: Snapshot,
    rows: Option<PagedResult>,
    held: Seq<Template>,
)
    requires
        snapshot.templates.data matches LoadState::Ready(there) && there@ == held,
        ui.palette matches Some(palette) && palette.saving is Some,
    ensures
        ({
            let next = ran(ui, ViewCmd::CommitTemplate, snapshot, rows);
            let asked = asks(ui, ViewCmd::CommitTemplate, snapshot, rows);
            let name = trimmed(ui.palette->0.filter);
            let body = ui.palette->0.saving->0;
            &&& next.palette is None
            &&& name.len() == 0 ==> asked is None && next.modal == ui.modal
            &&& name.len() > 0 && (forall|i: int|
                0 <= i < held.len() ==> (#[trigger] held[i]).name@ != name) ==> {
                &&& asked matches Some(ActionView::SaveTemplate(with)) && with.name == name
                    && with.body == body
                &&& next.modal == ui.modal
            }
            &&& forall|i: int|
                #![trigger held[i]]
                name.len() > 0 && 0 <= i < held.len() && held[i].name@ == name && (forall|j: int|
                    0 <= j < i ==> (#[trigger] held[j]).name@ != name) ==> {
                    &&& asked is None
                    &&& next.modal matches Some(modal) && modal.choices.len() == 1 && (
                    modal.choices[0].intent matches IntentView::App(
                        ActionView::ReplaceTemplate { id, with },
                    ) && id == held[i].id && with.name == name && with.body == body)
                }
        }),
{
    let name = trimmed(ui.palette->0.filter);
    let which = template_named(name);
    first_is_the_first(held, which);
    assert forall|i: int| 0 <= i < held.len() implies (which(#[trigger] held[i]) <==> held[i].name@
        == name) by {}
    if name.len() > 0 {
        match first(held, which) {
            None => {
                assert forall|i: int| 0 <= i < held.len() implies (#[trigger] held[i]).name@
                    != name by {
                    assert(!which(held[i]));
                }
            },
            Some(at) => {
                assert(held[at].name@ == name);
                assert forall|j: int| 0 <= j < at implies (#[trigger] held[j]).name@ != name by {
                    assert(!which(held[j]));
                }
            },
        }
    }
}

/// A statement is deleted only after it was asked about by its name, and only
/// that one.
pub proof fn a_statement_is_asked_about_before_it_goes(
    ui: UiView,
    id: TemplateId,
    name: String,
    snapshot: Snapshot,
    rows: Option<PagedResult>,
)
    ensures
        ({
            let cmd = ViewCmd::ConfirmDeleteTemplate { id, name };
            let next = ran(ui, cmd, snapshot, rows);
            &&& asks(ui, cmd, snapshot, rows) is None
            &&& next == (UiView { palette: None, modal: next.modal, ..ui })
            &&& next.modal matches Some(modal) && modal.choices.len() == 1
                && modal.choices[0].intent == IntentView::App(
                ActionView::Plain(Action::DeleteTemplate(id)),
            ) && modal.title.subrange(8, modal.title.len() - 2) == name@
        }),
{
    reveal_strlit("Delete `");
    reveal_strlit("`?");
    let next = ran(ui, ViewCmd::ConfirmDeleteTemplate { id, name }, snapshot, rows);
    let title = next.modal->0.title;
    assert(title.subrange(8, title.len() - 2) =~= name@);
}

} // verus!
