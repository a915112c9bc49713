//! The context menu, which is data.
//!
//! An entry is a label and the intent it produces. Built that way the menu
//! cannot offer an action the keyboard has no route to — that is not a
//! convention to remember but the thing that is proved of it, and the reason
//! the kind of an entry is derived from the intent rather than written beside
//! it.
//!
//! Some terminals and tmux configurations cannot deliver a right-click at all,
//! which is why the rule matters here more than anywhere else: for those the
//! menu does not exist, and everything in it has to be reachable without it.

use crate::copy::Format;
use crate::geometry::{least, max_u16, min_u16, most, Position, Rect};
use crate::hit::{extends, nothing_underneath_is_found, target_at, Hit, Target, Z_MENU};
use crate::intent::{kind_of, view_of, Intent, IntentKind, IntentView, ViewCmd};
use crate::paint::{styled, BorderKind, Canvas, CanvasView, Color, Span, Style};
use crate::search::views;
use crate::text::{copy_of, display_columns, display_width};
use vstd::prelude::*;

verus! {

/// One line of the menu.
#[derive(Debug, PartialEq, Eq)]
pub struct Entry {
    pub label: &'static str,
    /// What choosing it does. The concrete intent rather than a kind, because a
    /// menu entry has no direction to derive one from the way a key press does
    /// — and the kind comes back out of it.
    pub intent: Intent,
    /// Whether it can be chosen now. A greyed entry is still drawn: a menu
    /// whose contents move depending on what is selected is one nobody can
    /// learn.
    pub enabled: bool,
}

pub struct EntryView {
    pub label: Seq<char>,
    pub intent: IntentView,
    pub enabled: bool,
}

impl View for Entry {
    type V = EntryView;

    open spec fn view(&self) -> EntryView {
        EntryView { label: self.label@, intent: self.intent@, enabled: self.enabled }
    }
}

impl Entry {
    pub fn kind(&self) -> (r: IntentKind)
        ensures
            r == kind_of(self.intent@),
    {
        IntentKind::of(&self.intent)
    }
}

pub open spec fn entry_views(entries: Seq<Entry>) -> Seq<EntryView> {
    entries.map_values(|e: Entry| e@)
}

/// An open menu, and where it was opened.
#[derive(Debug, PartialEq, Eq)]
pub struct Menu {
    pub at: (u16, u16),
    pub entries: Vec<Entry>,
}

#[verifier::ext_equal]
pub struct MenuView {
    pub at: (u16, u16),
    pub entries: Seq<EntryView>,
}

impl View for Menu {
    type V = MenuView;

    open spec fn view(&self) -> MenuView {
        MenuView { at: self.at, entries: entry_views(self.entries@) }
    }
}

pub open spec fn some_menu(menu: Option<Menu>) -> Option<MenuView> {
    match menu {
        Some(menu) => Some(menu@),
        None => None,
    }
}

pub open spec fn copy_entry(label: Seq<char>, format: Format, all: bool) -> EntryView {
    EntryView { label, intent: view_of(ViewCmd::Copy { format, all }), enabled: true }
}

/// The menu for a cell in the grid. Whether more than one is selected decides
/// only what the copy entries are called.
pub open spec fn grid_menu(at: (u16, u16), ranged: bool) -> MenuView {
    MenuView {
        at,
        entries: seq![
            EntryView {
                label: "Show in full"@,
                intent: view_of(ViewCmd::ToggleDetail),
                enabled: true,
            },
            copy_entry(
                if ranged {
                    "Copy selection as CSV"@
                } else {
                    "Copy cell as CSV"@
                },
                Format::Csv,
                false,
            ),
            copy_entry(
                if ranged {
                    "Copy selection as JSON"@
                } else {
                    "Copy cell as JSON"@
                },
                Format::Json,
                false,
            ),
            copy_entry("Copy everything as CSV"@, Format::Csv, true),
            copy_entry("Copy everything as JSON"@, Format::Json, true),
        ],
    }
}

/// The widest of the first `n` labels.
pub open spec fn widest_label(entries: Seq<EntryView>, n: int) -> int
    decreases n,
{
    if n <= 0 {
        0
    } else {
        most(widest_label(entries, n - 1), display_columns(entries[n - 1].label) as int)
    }
}

impl MenuView {
    /// How wide the menu wants to be, border and all.
    pub open spec fn wide(self) -> int {
        least(widest_label(self.entries, self.entries.len() as int) + 2, u16::MAX as int)
    }

    /// How high the menu wants to be, border and all.
    pub open spec fn high(self) -> int {
        least(self.entries.len() as int + 2, u16::MAX as int)
    }

    /// Where the menu fits on a screen.
    pub open spec fn fitted(self, screen: Rect) -> Rect {
        let width = least(self.wide(), screen.width as int);
        let height = least(self.high(), screen.height as int);
        Rect {
            x: most(least(self.at.0 as int, screen.right_edge() - width), screen.x as int) as u16,
            y: most(least(self.at.1 as int, screen.bottom_edge() - height), screen.y as int) as u16,
            width: width as u16,
            height: height as u16,
        }
    }
}

impl Menu {
    /// The menu for a cell in the grid.
    ///
    /// `ranged` says whether more than one cell is selected, which decides only
    /// what the copy entries are *called*: they act on the selection either
    /// way, and one cell is a rectangle of one.
    pub fn for_grid(at: (u16, u16), ranged: bool) -> (r: Self)
        ensures
            r@ == grid_menu(at, ranged),
    {
        let mut entries: Vec<Entry> = Vec::new();
        entries.push(
            Entry {
                label: "Show in full",
                intent: Intent::View(ViewCmd::ToggleDetail),
                enabled: true,
            },
        );
        entries.push(
            Entry {
                label: if ranged {
                    "Copy selection as CSV"
                } else {
                    "Copy cell as CSV"
                },
                intent: Intent::View(ViewCmd::Copy { format: Format::Csv, all: false }),
                enabled: true,
            },
        );
        entries.push(
            Entry {
                label: if ranged {
                    "Copy selection as JSON"
                } else {
                    "Copy cell as JSON"
                },
                intent: Intent::View(ViewCmd::Copy { format: Format::Json, all: false }),
                enabled: true,
            },
        );
        entries.push(
            Entry {
                label: "Copy everything as CSV",
                intent: Intent::View(ViewCmd::Copy { format: Format::Csv, all: true }),
                enabled: true,
            },
        );
        entries.push(
            Entry {
                label: "Copy everything as JSON",
                intent: Intent::View(ViewCmd::Copy { format: Format::Json, all: true }),
                enabled: true,
            },
        );
        let menu: Menu = Menu { at, entries };
        proof {
            assert(menu@.entries =~= grid_menu(at, ranged).entries);
        }
        menu
    }

    pub fn width(&self) -> (r: u16)
        ensures
            r == self@.wide(),
    {
        let mut widest: u16 = 0;
        let mut i: usize = 0;
        while i < self.entries.len()
            invariant
                i <= self.entries@.len(),
                widest == widest_label(self@.entries, i as int),
            decreases self.entries@.len() - i,
        {
            proof {
                assert(self@.entries[i as int] == self.entries@[i as int]@);
            }
            widest = max_u16(widest, display_width(self.entries[i].label));
            i += 1;
        }
        widest.saturating_add(2)
    }

    pub fn height(&self) -> (r: u16)
        ensures
            r == self@.high(),
    {
        let n: usize = self.entries.len();
        if n > 65533 {
            u16::MAX
        } else {
            n as u16 + 2
        }
    }
}

/// Where the menu fits, which is not always where it was asked for.
///
/// A menu opened near the right edge or the bottom would otherwise be drawn
/// half off the screen, and the half that is missing is the half nobody can
/// click.
pub fn placed(screen: Rect, menu: &Menu) -> (r: Rect)
    requires
        screen.fits(),
    ensures
        r == menu@.fitted(screen),
        r.within(screen),
        r.fits(),
{
    let width: u16 = min_u16(menu.width(), screen.width);
    let height: u16 = min_u16(menu.height(), screen.height);
    let x: u16 = min_u16(menu.at.0, screen.right().saturating_sub(width));
    let y: u16 = min_u16(menu.at.1, screen.bottom().saturating_sub(height));
    Rect::new(max_u16(x, screen.x), max_u16(y, screen.y), width, height)
}

/// Whatever it is opened at, and however big it is, a menu is inside the
/// screen.
pub proof fn a_menu_is_inside_the_screen(menu: MenuView, screen: Rect)
    requires
        screen.fits(),
    ensures
        menu.fitted(screen).within(screen),
{
    widths_are_not_negative(menu.entries, menu.entries.len() as int);
}

proof fn widths_are_not_negative(entries: Seq<EntryView>, n: int)
    ensures
        0 <= widest_label(entries, n),
    decreases n,
{
    if n > 0 {
        widths_are_not_negative(entries, n - 1);
    }
}

/// The menu says what is selected, and says as many things either way.
pub proof fn the_entries_stay_where_they_are(at: (u16, u16), i: int)
    requires
        0 <= i < grid_menu(at, false).entries.len(),
    ensures
        grid_menu(at, true).entries.len() == grid_menu(at, false).entries.len(),
        grid_menu(at, true).entries[i].intent == grid_menu(at, false).entries[i].intent,
{
}

// ── drawing ────────────────────────────────────────────────────────────────

/// A frame with the lines of a menu from one of them on, as far as there are
/// rows for them. Only a line that can be chosen can be clicked.
pub open spec fn entries_drawn(
    c: CanvasView,
    inside: Rect,
    entries: Seq<EntryView>,
    from: int,
) -> CanvasView
    decreases entries.len() - from,
{
    if from < 0 || from >= entries.len() || from >= inside.height {
        c
    } else {
        let row = Rect::cut(inside.x, (inside.y + from) as u16, inside.width as int, 1);
        let clickable = if entries[from].enabled {
            c.hit(row, Z_MENU, Target::MenuItem { index: from as usize })
        } else {
            c
        };
        let style = if entries[from].enabled {
            Style::colored(Color::White)
        } else {
            Style::colored(Color::DarkGray).dimmed()
        };
        entries_drawn(
            clickable.lined(row, seq![styled(entries[from].label, style)], Style::plain()),
            inside,
            entries,
            from + 1,
        )
    }
}

/// A frame with a menu on it.
pub open spec fn menu_drawn(c: CanvasView, screen: Rect, menu: MenuView) -> CanvasView {
    let area = menu.fitted(screen);
    entries_drawn(
        c.cleared(area).hit(area, Z_MENU, Target::Menu).boxed(
            area,
            BorderKind::Plain,
            Style::colored(Color::Cyan),
            None,
        ),
        area.bordered(),
        menu.entries,
        0,
    )
}

/// Draw the menu, recorded above everything so a click on it is not a click on
/// what it covers.
pub fn render(canvas: &mut Canvas, screen: Rect, menu: &Menu)
    requires
        screen.fits(),
    ensures
        final(canvas)@ == menu_drawn(old(canvas)@, screen, menu@),
{
    let area: Rect = placed(screen, menu);
    canvas.clear(area);
    // The whole area first, so the lines recorded below win by being later at
    // the same height. Without it the border — and any entry that cannot be
    // chosen — is a hole through to the grid, and pressing on the frame selects
    // the cell the menu is covering.
    canvas.hit(area, Z_MENU, Target::Menu);
    canvas.border(area, BorderKind::Plain, Style::of(Color::Cyan), None);
    let inside: Rect = area.inner();
    let ghost start = canvas@;
    let mut index: usize = 0;
    while index < menu.entries.len() && index < inside.height as usize
        invariant
            inside.fits(),
            entries_drawn(start, inside, menu@.entries, 0) == entries_drawn(
                canvas@,
                inside,
                menu@.entries,
                index as int,
            ),
        decreases menu.entries@.len() - index,
    {
        proof {
            assert(menu@.entries[index as int] == menu.entries@[index as int]@);
        }
        let entry: &Entry = &menu.entries[index];
        let row: Rect = Rect::new(inside.x, inside.y + index as u16, inside.width, 1);
        if entry.enabled {
            canvas.hit(row, Z_MENU, Target::MenuItem { index });
        }
        let style: Style = if entry.enabled {
            Style::of(Color::White)
        } else {
            Style::of(Color::DarkGray).dim()
        };
        let span: Span = Span::styled(copy_of(entry.label), style);
        let ghost said = span@;
        let spans: Vec<Span> = vec![span];
        proof {
            assert(views(spans@) =~= seq![said]);
        }
        canvas.line(row, spans, Style::new());
        index += 1;
    }
}

/// The targets a menu has.
pub open spec fn of_a_menu() -> spec_fn(Target) -> bool {
    |t: Target| t is Menu || t is MenuItem
}

proof fn entries_record_entries(
    base: Seq<Hit>,
    c: CanvasView,
    inside: Rect,
    entries: Seq<EntryView>,
    from: int,
)
    requires
        extends(base, c.hits, of_a_menu()),
    ensures
        extends(base, entries_drawn(c, inside, entries, from).hits, of_a_menu()),
        extends(c.hits, entries_drawn(c, inside, entries, from).hits, of_a_menu()),
    decreases entries.len() - from,
{
    if !(from < 0 || from >= entries.len() || from >= inside.height) {
        let row = Rect::cut(inside.x, (inside.y + from) as u16, inside.width as int, 1);
        let next = (if entries[from].enabled {
            c.hit(row, Z_MENU, Target::MenuItem { index: from as usize })
        } else {
            c
        });
        let style = if entries[from].enabled {
            Style::colored(Color::White)
        } else {
            Style::colored(Color::DarkGray).dimmed()
        };
        let drawn = next.lined(row, seq![styled(entries[from].label, style)], Style::plain());
        entries_record_entries(base, drawn, inside, entries, from + 1);
        let all = entries_drawn(c, inside, entries, from).hits;
        assert(forall|j: int|
            0 <= j < c.hits.len() ==> #[trigger] all[j] == drawn.hits[j] && drawn.hits[j]
                == c.hits[j]);
        assert forall|j: int| c.hits.len() <= j < all.len() implies of_a_menu()(
            (#[trigger] all[j]).target,
        ) by {
            if j < drawn.hits.len() {
                assert(all[j] == drawn.hits[j]);
            }
        }
    }
}

/// A click on a menu is never a click on what it covers, as long as nothing on
/// screen stands higher than a menu.
pub proof fn a_click_on_a_menu_stays_on_it(
    c: CanvasView,
    screen: Rect,
    menu: MenuView,
    at: Position,
)
    requires
        screen.fits(),
        forall|j: int| 0 <= j < c.hits.len() ==> (#[trigger] c.hits[j]).z < Z_MENU,
        menu.fitted(screen).covers(at),
    ensures
        target_at(menu_drawn(c, screen, menu).hits, at) matches Some(found) && (found is Menu
            || found is MenuItem),
{
    let area = menu.fitted(screen);
    let start = c.cleared(area).hit(area, Z_MENU, Target::Menu).boxed(
        area,
        BorderKind::Plain,
        Style::colored(Color::Cyan),
        None,
    );
    entries_record_entries(c.hits, start, area.bordered(), menu.entries, 0);
    let all = menu_drawn(c, screen, menu).hits;
    assert(all[c.hits.len() as int] == start.hits[c.hits.len() as int]);
    nothing_underneath_is_found(c.hits, all, of_a_menu(), Z_MENU, c.hits.len() as int, at);
}

} // verus!
