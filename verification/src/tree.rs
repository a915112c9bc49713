//! The object explorer.
//!
//! The store publishes the tree already flattened, so drawing it is a slice and
//! an index rather than a recursive walk — and a row's position in that slice
//! is the only identity the mouse needs.
//!
//! The toggle is a separate hit target from the row. Clicking a schema's name
//! and clicking its `▸` are different requests, and merging them makes one of
//! the two impossible to express.

use crate::chrome::{fit, fitted, scrollbar, scrollbar_drawn};
use crate::geometry::{least, less, min_usize, Position, Rect};
use crate::grid::{sanitise, sanitised};
use crate::hit::{
    nothing_above, target_at, what_is_elsewhere_changes_nothing, what_is_recorded_on_top_is_found,
    ButtonId, PaneId, Target, Z_CONTENT,
};
use crate::model::{
    conn_is, ConnStatus, NodeState, ProfileColor, RelationKind, Snapshot, VisibleNode,
};
use crate::paint::{
    raw, styled, Canvas, CanvasView, Color, Line, Overflow, Paint, PaintView, Span, SpanView, Style,
};
use crate::search::{first_item, views};
use crate::text::{
    contains, copy_of, display_columns, display_width, holds, lowercase, push_all, push_run, run_of,
};
use crate::ui::TreeUi;
use vstd::prelude::*;

verus! {

/// Cells of indent per level.
pub const INDENT: u16 = 2;

/// The toggle column, wide enough to hit and to hold the widest glyph.
pub const TOGGLE_WIDTH: u16 = 2;

// ── which rows a search leaves ─────────────────────────────────────────────

/// Whether a node's own label answers a search. The match is case-insensitive
/// and on the label alone. Matching the whole path instead would make one
/// dataset's name select every table under it, which is what expanding the
/// dataset already does.
pub open spec fn answers(node: VisibleNode, wanted: Seq<char>) -> bool {
    holds(lowercase(node.label@), lowercase(wanted))
}

/// Whether row `j` stands somewhere under row `i`: it comes after it, and
/// everything from there to it is deeper.
pub open spec fn under(nodes: Seq<VisibleNode>, i: int, j: int) -> bool {
    i < j < nodes.len() && forall|k: int| i < k <= j ==> (#[trigger] nodes[k]).depth > nodes[i].depth
}

/// Whether a row stays: it answers, or something under it does.
pub open spec fn stays(nodes: Seq<VisibleNode>, wanted: Seq<char>, i: int) -> bool {
    answers(nodes[i], wanted) || exists|j: int| #[trigger]
        under(nodes, i, j) && answers(nodes[j], wanted)
}

/// The rows before `n` that stay, in order.
pub open spec fn staying(nodes: Seq<VisibleNode>, wanted: Seq<char>, n: int) -> Seq<usize>
    decreases n,
{
    if n <= 0 {
        Seq::empty()
    } else if stays(nodes, wanted, n - 1) {
        staying(nodes, wanted, n - 1).push((n - 1) as usize)
    } else {
        staying(nodes, wanted, n - 1)
    }
}

/// The rows on screen, as positions in the flattened tree.
pub open spec fn shown(nodes: Seq<VisibleNode>, filter: Option<Seq<char>>) -> Seq<usize> {
    match filter {
        Some(wanted) if wanted.len() > 0 => staying(nodes, wanted, nodes.len() as int),
        _ => Seq::new(nodes.len(), |i: int| i as usize),
    }
}

/// Which rows the filter leaves on screen, as indices into the flattened tree.
///
/// A node stays if it matches, and also if anything under it does: a table
/// called `users` with its dataset hidden would be a row with no path to it,
/// and the level names are half of what a path means. Nothing is fetched to
/// find out — the tree is lazy, and reaching into unloaded nodes would put a
/// network round trip behind every keystroke.
pub fn visible(nodes: &Vec<VisibleNode>, filter: Option<&str>) -> (r: Vec<usize>)
    ensures
        r@ == shown(
            nodes@,
            match filter {
                Some(text) => Some(text@),
                None => None,
            },
        ),
{
    match filter {
        Some(text) => {
            // An empty box is the state right after `/`, and a shortcut rather
            // than a rule: every label holds an empty search.
            if text.is_empty() {
                everything(nodes)
            } else {
                search(nodes, text)
            }
        },
        None => everything(nodes),
    }
}

fn everything(nodes: &Vec<VisibleNode>) -> (r: Vec<usize>)
    ensures
        r@ == Seq::new(nodes@.len(), |i: int| i as usize),
{
    let mut out: Vec<usize> = Vec::new();
    let mut i: usize = 0;
    while i < nodes.len()
        invariant
            i <= nodes@.len(),
            out@ == Seq::new(i as nat, |i: int| i as usize),
        decreases nodes@.len() - i,
    {
        out.push(i);
        proof {
            assert(out@ =~= Seq::new((i + 1) as nat, |i: int| i as usize));
        }
        i += 1;
    }
    out
}

fn search(nodes: &Vec<VisibleNode>, text: &str) -> (r: Vec<usize>)
    ensures
        r@ == staying(nodes@, text@, nodes@.len() as int),
{
    let wanted: String = text.to_lowercase();
    let n: usize = nodes.len();
    let mut answering: Vec<bool> = Vec::new();
    let mut i: usize = 0;
    while i < n
        invariant
            n == nodes@.len(),
            wanted@ == lowercase(text@),
            i <= n,
            answering@.len() == i,
            forall|j: int| 0 <= j < i ==> #[trigger] answering@[j] == answers(nodes@[j], text@),
        decreases n - i,
    {
        let label: String = nodes[i].label.as_str().to_lowercase();
        answering.push(contains(label.as_str(), wanted.as_str()));
        i += 1;
    }
    let mut out: Vec<usize> = Vec::new();
    let mut row: usize = 0;
    while row < n
        invariant
            n == nodes@.len(),
            answering@.len() == n,
            forall|j: int| 0 <= j < n ==> #[trigger] answering@[j] == answers(nodes@[j], text@),
            row <= n,
            out@ == staying(nodes@, text@, row as int),
        decreases n - row,
    {
        let stays: bool = answering[row] || holds_an_answer(nodes, &answering, row, Ghost(text@));
        if stays {
            out.push(row);
        }
        row += 1;
    }
    out
}

/// Whether something under a row answers.
fn holds_an_answer(
    nodes: &Vec<VisibleNode>,
    answering: &Vec<bool>,
    row: usize,
    Ghost(wanted): Ghost<Seq<char>>,
) -> (b: bool)
    requires
        row < nodes@.len(),
        answering@.len() == nodes@.len(),
        forall|j: int|
            0 <= j < nodes@.len() ==> #[trigger] answering@[j] == answers(nodes@[j], wanted),
    ensures
        b == exists|j: int| #[trigger]
            under(nodes@, row as int, j) && answers(nodes@[j], wanted),
{
    let n: usize = nodes.len();
    let mut j: usize = row + 1;
    while j < n
        invariant
            n == nodes@.len(),
            row < j <= n,
            answering@.len() == n,
            forall|j: int|
                0 <= j < n ==> #[trigger] answering@[j] == answers(nodes@[j], wanted),
            forall|k: int| row < k < j ==> (#[trigger] nodes@[k]).depth > nodes@[row as int].depth,
            forall|k: int| row < k < j ==> !(#[trigger] answering@[k]),
        decreases n - j,
    {
        if nodes[j].depth <= nodes[row].depth {
            proof {
                assert forall|k: int| #[trigger]
                    under(nodes@, row as int, k) implies !answers(nodes@[k], wanted) by {
                    if k >= j {
                        assert(nodes@[j as int].depth > nodes@[row as int].depth);
                    }
                    assert(!answering@[k]);
                }
            }
            return false;
        }
        if answering[j] {
            proof {
                assert(under(nodes@, row as int, j as int));
            }
            return true;
        }
        j += 1;
    }
    proof {
        assert forall|k: int| #[trigger]
            under(nodes@, row as int, k) implies !answers(nodes@[k], wanted) by {
            assert(!answering@[k]);
        }
    }
    false
}

// ── what every search keeps to ─────────────────────────────────────────────

/// The rows a search leaves are rows of the tree, in the tree's own order, and
/// a row is among them exactly when it answers or something under it does.
pub proof fn a_search_leaves_exactly_what_stays(
    nodes: Seq<VisibleNode>,
    wanted: Seq<char>,
    n: int,
)
    requires
        0 <= n <= nodes.len() <= usize::MAX,
    ensures
        forall|a: int, b: int|
            0 <= a < b < staying(nodes, wanted, n).len() ==> #[trigger] staying(
                nodes,
                wanted,
                n,
            )[a] < #[trigger] staying(nodes, wanted, n)[b],
        forall|a: int|
            0 <= a < staying(nodes, wanted, n).len() ==> (#[trigger] staying(nodes, wanted, n)[a])
                < n && stays(nodes, wanted, staying(nodes, wanted, n)[a] as int),
        forall|i: int|
            0 <= i < n && #[trigger] stays(nodes, wanted, i) ==> staying(
                nodes,
                wanted,
                n,
            ).contains(i as usize),
    decreases n,
{
    if n > 0 {
        a_search_leaves_exactly_what_stays(nodes, wanted, n - 1);
        let before = staying(nodes, wanted, n - 1);
        let after = staying(nodes, wanted, n);
        assert forall|i: int| 0 <= i < n && #[trigger] stays(nodes, wanted, i) implies
            after.contains(i as usize) by {
            if i == n - 1 {
                assert(after.last() == (n - 1) as usize);
            } else {
                assert(before.contains(i as usize));
                let at = choose|at: int| 0 <= at < before.len() && before[at] == i as usize;
                assert(after[at] == i as usize);
            }
        }
    }
}

/// A row that stays brings everything it stands under with it: there is always
/// a path on screen to what was searched for.
pub proof fn what_stays_brings_its_ancestors(
    nodes: Seq<VisibleNode>,
    wanted: Seq<char>,
    i: int,
    j: int,
)
    requires
        0 <= i,
        under(nodes, i, j),
        stays(nodes, wanted, j),
    ensures
        stays(nodes, wanted, i),
{
    if !answers(nodes[j], wanted) {
        let k = choose|k: int| #[trigger] under(nodes, j, k) && answers(nodes[k], wanted);
        assert(under(nodes, i, k)) by {
            assert forall|m: int| i < m <= k implies (#[trigger] nodes[m]).depth
                > nodes[i].depth by {
                if m > j {
                    assert(nodes[m].depth > nodes[j].depth);
                    assert(nodes[j].depth > nodes[i].depth);
                }
            }
        }
    }
}

/// Without a search every row is on screen, where it stands.
pub proof fn without_a_search_everything_is_shown(nodes: Seq<VisibleNode>)
    ensures
        shown(nodes, None).len() == nodes.len(),
        shown(nodes, Some(Seq::empty())) == shown(nodes, None),
{
}

/// A row on screen is always a row of the tree.
pub proof fn a_shown_row_is_there(nodes: Seq<VisibleNode>, filter: Option<Seq<char>>, row: int)
    requires
        0 <= row < shown(nodes, filter).len(),
        nodes.len() <= usize::MAX,
    ensures
        shown(nodes, filter)[row] < nodes.len(),
        shown(nodes, filter).len() <= nodes.len(),
{
    if let Some(wanted) = filter {
        if wanted.len() > 0 {
            a_search_leaves_exactly_what_stays(nodes, wanted, nodes.len() as int);
            no_more_stay_than_there_are(nodes, wanted, nodes.len() as int);
        }
    }
}

pub proof fn no_more_stay_than_there_are(nodes: Seq<VisibleNode>, wanted: Seq<char>, n: int)
    requires
        0 <= n,
    ensures
        staying(nodes, wanted, n).len() <= n,
    decreases n,
{
    if n > 0 {
        no_more_stay_than_there_are(nodes, wanted, n - 1);
    }
}

// ── a row ──────────────────────────────────────────────────────────────────

/// What stands where a node is opened and closed.
pub open spec fn toggle_mark(state: NodeState) -> (Seq<char>, Style) {
    match state {
        NodeState::Leaf => ("  "@, Style::plain()),
        NodeState::Collapsed => ("▸ "@, Style::colored(Color::Gray)),
        NodeState::Expanded => ("▾ "@, Style::colored(Color::Gray)),
        NodeState::Loading => ("⋯ "@, Style::colored(Color::Yellow)),
        NodeState::Failed(_) => ("! "@, Style::colored(Color::Red)),
    }
}

fn toggle(state: &NodeState) -> (r: (String, Style))
    ensures
        (r.0@, r.1) == toggle_mark(*state),
{
    match state {
        NodeState::Leaf => (copy_of("  "), Style::new()),
        NodeState::Collapsed => (copy_of("▸ "), Style::of(Color::Gray)),
        NodeState::Expanded => (copy_of("▾ "), Style::of(Color::Gray)),
        // A node that is fetching says so where the toggle was, so the answer
        // to "did my click do anything" is in the place that was clicked.
        NodeState::Loading => (copy_of("⋯ "), Style::of(Color::Yellow)),
        NodeState::Failed(_) => (copy_of("! "), Style::of(Color::Red)),
    }
}

/// What stands for a kind of relation.
pub open spec fn icon_of(kind: Option<RelationKind>) -> Seq<char> {
    match kind {
        None => ""@,
        Some(RelationKind::Table) => "▦ "@,
        Some(RelationKind::View) => "◫ "@,
        Some(RelationKind::MaterializedView) => "▩ "@,
        Some(RelationKind::Routine) => "ƒ "@,
        Some(RelationKind::External) => "↗ "@,
    }
}

fn icon(kind: Option<RelationKind>) -> (r: String)
    ensures
        r@ == icon_of(kind),
{
    match kind {
        None => copy_of(""),
        Some(RelationKind::Table) => copy_of("▦ "),
        Some(RelationKind::View) => copy_of("◫ "),
        Some(RelationKind::MaterializedView) => copy_of("▩ "),
        Some(RelationKind::Routine) => copy_of("ƒ "),
        Some(RelationKind::External) => copy_of("↗ "),
    }
}

/// The colour a profile asks for.
pub open spec fn profile_color(color: ProfileColor) -> Color {
    match color {
        ProfileColor::Red => Color::Red,
        ProfileColor::Yellow => Color::Yellow,
        ProfileColor::Green => Color::Green,
        ProfileColor::Blue => Color::Blue,
        ProfileColor::Magenta => Color::Magenta,
        ProfileColor::Cyan => Color::Cyan,
    }
}

fn colour_of(colour: ProfileColor) -> (r: Color)
    ensures
        r == profile_color(colour),
{
    match colour {
        ProfileColor::Red => Color::Red,
        ProfileColor::Yellow => Color::Yellow,
        ProfileColor::Green => Color::Green,
        ProfileColor::Blue => Color::Blue,
        ProfileColor::Magenta => Color::Magenta,
        ProfileColor::Cyan => Color::Cyan,
    }
}

/// The colour of a label nobody asked a colour for.
pub open spec fn state_color(state: NodeState) -> Color {
    match state {
        NodeState::Failed(_) => Color::Red,
        NodeState::Loading => Color::Gray,
        _ => Color::Reset,
    }
}

fn label_colour(state: &NodeState) -> (r: Color)
    ensures
        r == state_color(*state),
{
    match state {
        NodeState::Failed(_) => Color::Red,
        NodeState::Loading => Color::Gray,
        _ => Color::Reset,
    }
}

/// How far in a row starts.
pub open spec fn indent_of(depth: u16, width: u16) -> int {
    least(depth * INDENT, width as int)
}

fn indent(depth: u16, width: u16) -> (r: u16)
    ensures
        r == indent_of(depth, width),
{
    let wanted: u32 = depth as u32 * INDENT as u32;
    if wanted <= width as u32 {
        wanted as u16
    } else {
        width
    }
}

/// The style of a row as a whole.
pub open spec fn row_style(selected: bool) -> Style {
    if selected {
        Style::plain().on(Color::DarkGray).in_bold()
    } else {
        Style::plain()
    }
}

/// What a row says, from left to right.
pub open spec fn row_spans(
    width: u16,
    node: VisibleNode,
    selected: bool,
    color: Option<Color>,
) -> Seq<SpanView> {
    let base = row_style(selected);
    let dim = if selected {
        Color::Gray
    } else {
        Color::DarkGray
    };
    let indent = indent_of(node.depth, width);
    let icon = icon_of(node.relation_kind);
    let label = sanitised(node.label@);
    let used = indent + TOGGLE_WIDTH + display_columns(icon);
    let name = match color {
        Some(color) => color,
        None => state_color(node.state),
    };
    let said = seq![
        styled(run_of(' ', indent as nat), base),
        styled(toggle_mark(node.state).0, toggle_mark(node.state).1.under(base)),
        styled(icon, Style { fg: Some(dim), ..base }),
        styled(fitted(label, less(width as int, used) as u16), Style { fg: Some(name), ..base }),
    ];
    match node.state {
        NodeState::Failed(message) => {
            let left = less(width as int, used + display_columns(label));
            if left > 3 {
                said.push(
                    styled(
                        fitted("  "@ + sanitised(message@), left as u16),
                        Style::colored(Color::Red),
                    ),
                )
            } else {
                said
            }
        },
        _ => said,
    }
}

/// A frame with a row of the tree on it.
pub open spec fn row_drawn(
    c: CanvasView,
    row: Rect,
    node: VisibleNode,
    index: usize,
    selected: bool,
    color: Option<Color>,
) -> CanvasView {
    let indent = indent_of(node.depth, row.width);
    let clickable = c.hit(row, Z_CONTENT, Target::TreeRow { index });
    let toggled = if !(node.state is Leaf) && row.x + indent + TOGGLE_WIDTH <= row.right_edge() {
        clickable.hit(
            Rect::cut((row.x + indent) as u16, row.y, TOGGLE_WIDTH as int, 1),
            Z_CONTENT,
            Target::TreeToggle { index },
        )
    } else {
        clickable
    };
    toggled.lined(row, row_spans(row.width, node, selected, color), row_style(selected))
}

fn render_row(
    canvas: &mut Canvas,
    row: Rect,
    node: &VisibleNode,
    index: usize,
    selected: bool,
    colour: Option<Color>,
)
    requires
        row.fits(),
    ensures
        final(canvas)@ == row_drawn(old(canvas)@, row, *node, index, selected, colour),
{
    canvas.hit(row, Z_CONTENT, Target::TreeRow { index });

    let inset: u16 = indent(node.depth, row.width);
    let toggle_x: u16 = row.x + inset;

    // Only a node that can be expanded gets a toggle target. A relation has no
    // children, and offering a control that does nothing is worse than offering
    // none: the user learns the tree is unreliable rather than that the node is
    // a leaf.
    if node.state.is_toggleable() && toggle_x as u32 + TOGGLE_WIDTH as u32 <= row.right() as u32 {
        canvas.hit(
            Rect::new(toggle_x, row.y, TOGGLE_WIDTH, 1),
            Z_CONTENT,
            Target::TreeToggle { index },
        );
    }
    let spans: Vec<Span> = spans_of(row.width, node, selected, colour);
    let base: Style = if selected {
        Style::new().bg(Color::DarkGray).bold()
    } else {
        Style::new()
    };
    canvas.line(row, spans, base);
}

/// What a row says.
fn spans_of(width: u16, node: &VisibleNode, selected: bool, colour: Option<Color>) -> (r: Vec<Span>)
    ensures
        views(r@) == row_spans(width, *node, selected, colour),
{
    let inset: u16 = indent(node.depth, width);
    let (glyph, glyph_style) = toggle(&node.state);
    let base: Style = if selected {
        Style::new().bg(Color::DarkGray).bold()
    } else {
        Style::new()
    };
    // The icon is dimmer than the label, but dark grey on the selection's dark
    // grey background is the same colour: the kind of a row would disappear the
    // moment it was picked.
    let dim: Color = if selected {
        Color::Gray
    } else {
        Color::DarkGray
    };
    let mark: String = icon(node.relation_kind);
    let label: String = sanitise(node.label.as_str());
    let mut margin: String = String::new();
    push_run(&mut margin, ' ', inset as usize);

    let used: u32 = inset as u32 + TOGGLE_WIDTH as u32 + display_width(mark.as_str()) as u32;
    let room: u16 = (width as u32).saturating_sub(used) as u16;
    let name: Color = match colour {
        Some(colour) => colour,
        None => label_colour(&node.state),
    };
    let so_far: u32 = used + display_width(label.as_str()) as u32;
    let first: Span = Span::styled(margin, base);
    let second: Span = Span::styled(glyph, glyph_style.patch(base));
    let third: Span = Span::styled(mark, base.fg(dim));
    let fourth: Span = Span::styled(fit(label.as_str(), room), base.fg(name));
    let ghost said = seq![first@, second@, third@, fourth@];
    let mut spans: Vec<Span> = vec![first, second, third, fourth];
    proof {
        assert(views(spans@) =~= said);
    }
    match &node.state {
        NodeState::Failed(message) => {
            // The reason belongs on the row that failed. A toast would be gone
            // by the time the user looks, and the node would just sit there.
            let left: u16 = (width as u32).saturating_sub(so_far) as u16;
            if left > 3 {
                let mut why: String = copy_of("  ");
                push_all(&mut why, sanitise(message.as_str()).as_str());
                let fifth: Span = Span::styled(fit(why.as_str(), left), Style::of(Color::Red));
                let ghost fifth_view = fifth@;
                spans.push(fifth);
                proof {
                    assert(views(spans@) =~= said.push(fifth_view));
                }
            }
        },
        _ => {},
    }
    spans
}

// ── the pane ───────────────────────────────────────────────────────────────

/// What the explorer says when it has nothing to draw.
pub open spec fn waiting_words(snapshot: Snapshot) -> Seq<char> {
    if snapshot.connections@.len() > 0 && snapshot.connections@[0].status is Connecting {
        " connecting… "@
    } else if snapshot.profiles@.len() == 0 {
        " no connections configured — write connections.toml "@
    } else {
        " nothing connected — press c "@
    }
}

/// What the explorer says when it has nothing to draw.
///
/// "Nothing connected" is only true when there is something to connect to, and
/// a fresh install has no config file at all: one of those is fixed by pressing
/// a key and the other is not.
fn waiting_for(snapshot: &Snapshot) -> (r: String)
    ensures
        r@ == waiting_words(*snapshot),
{
    // A handshake can take the whole of a driver's deadline, and `c` during
    // one opens a *second* connection rather than hurrying the first along.
    let connecting: bool = if snapshot.connections.len() > 0 {
        match snapshot.connections[0].status {
            ConnStatus::Connecting => true,
            _ => false,
        }
    } else {
        false
    };
    if connecting {
        copy_of(" connecting… ")
    } else if snapshot.profiles.len() == 0 {
        copy_of(" no connections configured — write connections.toml ")
    } else {
        copy_of(" nothing connected — press c ")
    }
}

/// The part of the explorer's pane that its rows have: the search box takes
/// the top line of it.
pub open spec fn row_place(area: Rect, searching: bool) -> Rect {
    if searching && area.height > 0 {
        Rect { y: (area.y + 1) as u16, height: (area.height - 1) as u16, ..area }
    } else {
        area
    }
}

/// Where the rows are, inside the explorer's pane.
pub fn rows_area(area: Rect, filter: Option<&str>) -> (r: Rect)
    requires
        area.fits(),
    ensures
        r == row_place(area, filter is Some),
        r.fits(),
{
    match filter {
        Some(_) => if area.height > 0 {
            Rect { x: area.x, y: area.y + 1, width: area.width, height: area.height - 1 }
        } else {
            area
        },
        None => area,
    }
}

/// A frame with the search box on it.
pub open spec fn filter_drawn(c: CanvasView, row: Rect, text: Seq<char>) -> CanvasView {
    c.hit(row, Z_CONTENT, Target::Button(ButtonId::Filter)).lined(
        row,
        seq![
            styled("/"@, Style::colored(Color::DarkGray)),
            styled(
                fitted(sanitised(text), less(row.width as int, 2) as u16),
                Style::colored(Color::White),
            ),
            styled("▏"@, Style::colored(Color::Cyan)),
        ],
        Style::plain().on(Color::Black),
    )
}

/// The search box, drawn whether or not it has anything in it yet.
fn render_filter(canvas: &mut Canvas, row: Rect, text: &str)
    ensures
        final(canvas)@ == filter_drawn(old(canvas)@, row, text@),
{
    canvas.hit(row, Z_CONTENT, Target::Button(ButtonId::Filter));
    let shown: String = fit(sanitise(text).as_str(), row.width.saturating_sub(2));
    let slash: Span = Span::styled(copy_of("/"), Style::of(Color::DarkGray));
    let typed: Span = Span::styled(shown, Style::of(Color::White));
    // A block where the next character goes. The terminal's own cursor is
    // parked off-screen while the screen is up, so without this there is
    // nothing to say the box is taking input.
    let cursor: Span = Span::styled(copy_of("▏"), Style::of(Color::Cyan));
    let ghost said = seq![slash@, typed@, cursor@];
    let spans: Vec<Span> = vec![slash, typed, cursor];
    proof {
        assert(views(spans@) =~= said);
    }
    canvas.line(row, spans, Style::new().bg(Color::Black));
}

/// The colour a node's row is drawn in, where its profile asks for one. A
/// connection's own row is the one the profile colours, and the only one whose
/// label is not an object's name.
pub open spec fn asked_color(snapshot: Snapshot, node: VisibleNode) -> Option<Color> {
    if node.node_ref.path@.len() == 0 {
        match first_item(snapshot.connections@, conn_is(node.conn)) {
            Some(conn) => match conn.color {
                Some(color) => Some(profile_color(color)),
                None => None,
            },
            None => None,
        }
    } else {
        None
    }
}

fn colour_asked(snapshot: &Snapshot, node: &VisibleNode) -> (r: Option<Color>)
    ensures
        r == asked_color(*snapshot, *node),
{
    if node.node_ref.path.len() > 0 {
        return None;
    }
    match snapshot.connection(node.conn) {
        Some(conn) => match conn.color {
            Some(color) => Some(colour_of(color)),
            None => None,
        },
        None => None,
    }
}

/// A frame with the rows from one of them on, up to another.
///
/// A row's place on screen is what it is hit by, because that is what a later
/// click will arrive as.
pub open spec fn rows_drawn(
    c: CanvasView,
    area: Rect,
    snapshot: Snapshot,
    rows: Seq<usize>,
    ui: TreeUi,
    from: int,
    to: int,
) -> CanvasView
    decreases to - from,
{
    if from >= to {
        c
    } else {
        let node = snapshot.explorer@[rows[from] as int];
        rows_drawn(
            row_drawn(
                c,
                Rect::cut(area.x, (area.y + (from - ui.offset)) as u16, area.width as int, 1),
                node,
                from as usize,
                ui.selected == Some(from as usize),
                asked_color(snapshot, node),
            ),
            area,
            snapshot,
            rows,
            ui,
            from + 1,
            to,
        )
    }
}

/// A frame with the tree on it, in a place that is not empty.
pub open spec fn tree_drawn(
    c: CanvasView,
    area: Rect,
    snapshot: Snapshot,
    ui: TreeUi,
    filter: Option<Seq<char>>,
) -> CanvasView {
    if snapshot.explorer@.len() == 0 {
        c.painted(
            PaintView::Text {
                area,
                lines: seq![seq![raw(waiting_words(snapshot))]],
                style: Style::colored(Color::DarkGray),
                overflow: Overflow::WrapTrimmed,
                scroll: 0,
            },
        )
    } else {
        let bar = area.width > 1;
        let place = if bar {
            Rect { width: (area.width - 1) as u16, ..area }
        } else {
            area
        };
        let rows = shown(snapshot.explorer@, filter);
        if rows.len() == 0 {
            c.said(place, " no match "@, Style::colored(Color::DarkGray))
        } else {
            let drawn = rows_drawn(
                c,
                place,
                snapshot,
                rows,
                ui,
                ui.offset as int,
                least(rows.len() as int, ui.offset + place.height),
            );
            if bar {
                scrollbar_drawn(
                    drawn,
                    area,
                    PaneId::Explorer,
                    ui.offset as int,
                    rows.len() as int,
                )
            } else {
                drawn
            }
        }
    }
}

/// A frame with the explorer's contents on it.
pub open spec fn explorer_drawn(
    c: CanvasView,
    area: Rect,
    snapshot: Snapshot,
    ui: TreeUi,
    filter: Option<Seq<char>>,
) -> CanvasView {
    if area.empty() {
        c
    } else {
        match filter {
            Some(text) => {
                let searched = filter_drawn(c, Rect { height: 1, ..area }, text);
                if area.height == 1 {
                    searched
                } else {
                    tree_drawn(searched, row_place(area, true), snapshot, ui, filter)
                }
            },
            None => tree_drawn(c, area, snapshot, ui, filter),
        }
    }
}

/// Draw the explorer's contents into `area`, which is the inside of its pane.
pub fn render(
    canvas: &mut Canvas,
    area: Rect,
    snapshot: &Snapshot,
    ui: &TreeUi,
    filter: Option<&str>,
)
    requires
        area.fits(),
    ensures
        final(canvas)@ == explorer_drawn(
            old(canvas)@,
            area,
            *snapshot,
            *ui,
            match filter {
                Some(text) => Some(text@),
                None => None,
            },
        ),
{
    if area.height == 0 || area.width == 0 {
        return ;
    }
    // The box takes the top line whether or not anything matches: a search
    // that hid its own text as soon as it stopped matching would look like the
    // client had lost the keystroke.
    match filter {
        Some(text) => {
            render_filter(
                canvas,
                Rect { x: area.x, y: area.y, width: area.width, height: 1 },
                text,
            );
            if area.height == 1 {
                return ;
            }
        },
        None => {},
    }
    render_tree(canvas, rows_area(area, filter), snapshot, ui, filter);
}

fn render_tree(
    canvas: &mut Canvas,
    area: Rect,
    snapshot: &Snapshot,
    ui: &TreeUi,
    filter: Option<&str>,
)
    requires
        area.fits(),
    ensures
        final(canvas)@ == tree_drawn(
            old(canvas)@,
            area,
            *snapshot,
            *ui,
            match filter {
                Some(text) => Some(text@),
                None => None,
            },
        ),
{
    let ghost wanted = match filter {
        Some(text) => Some(text@),
        None => None,
    };
    if snapshot.explorer.len() == 0 {
        // Wrapped, because the explorer is twelve columns wide at the smallest
        // size this client draws at, and a sentence that says why the pane is
        // empty is longer than that. Truncated, it would be one more thing
        // that says nothing.
        let words: Span = Span::raw(waiting_for(snapshot));
        let ghost said = words@;
        let line: Line = Line::of(vec![words]);
        proof {
            assert(line@ =~= seq![said]);
        }
        let lines: Vec<Line> = vec![line];
        proof {
            assert(views(lines@) =~= seq![seq![said]]);
        }
        canvas.paint(
            Paint::Text {
                area,
                lines,
                style: Style::of(Color::DarkGray),
                overflow: Overflow::WrapTrimmed,
                scroll: 0,
            },
        );
        return ;
    }
    // The scrollbar takes a column from the rows rather than covering them, so
    // a long label is truncated instead of being hidden behind the thumb.
    let bar: bool = area.width > 1;
    let place: Rect = if bar {
        Rect { x: area.x, y: area.y, width: area.width - 1, height: area.height }
    } else {
        area
    };
    let rows: Vec<usize> = visible(&snapshot.explorer, filter);
    if rows.len() == 0 {
        canvas.say(place, " no match ", Style::of(Color::DarkGray));
        return ;
    }
    let last: usize = min_usize(rows.len(), ui.offset.saturating_add(place.height as usize));
    let mut index: usize = ui.offset;
    let ghost start = canvas@;
    let nodes: usize = snapshot.explorer.len();
    while index < last
        invariant
            place.fits(),
            nodes == snapshot.explorer@.len(),
            ui.offset <= index,
            last <= rows@.len(),
            last <= ui.offset + place.height,
            rows@ == shown(snapshot.explorer@, wanted),
            rows_drawn(start, place, *snapshot, rows@, *ui, ui.offset as int, last as int)
                == rows_drawn(canvas@, place, *snapshot, rows@, *ui, index as int, last as int),
        decreases last - index,
    {
        proof {
            a_shown_row_is_there(snapshot.explorer@, wanted, index as int);
        }
        let node: &VisibleNode = &snapshot.explorer[rows[index]];
        let y: u16 = place.y + (index - ui.offset) as u16;
        let selected: bool = match ui.selected {
            Some(row) => row == index,
            None => false,
        };
        render_row(
            canvas,
            Rect::new(place.x, y, place.width, 1),
            node,
            index,
            selected,
            colour_asked(snapshot, node),
        );
        index += 1;
    }
    if bar {
        scrollbar(canvas, area, PaneId::Explorer, ui.offset, rows.len());
    }
}

// ── what a click on a row finds ────────────────────────────────────────────

/// Where a row is.
pub open spec fn row_rect(area: Rect, offset: usize, index: int) -> Rect {
    Rect::cut(area.x, (area.y + (index - offset)) as u16, area.width as int, 1)
}

proof fn a_row_elsewhere_changes_nothing(
    c: CanvasView,
    row: Rect,
    node: VisibleNode,
    index: usize,
    selected: bool,
    color: Option<Color>,
    at: Position,
)
    requires
        row.fits(),
        row.height == 1,
        at.y != row.y,
    ensures
        target_at(row_drawn(c, row, node, index, selected, color).hits, at) == target_at(
            c.hits,
            at,
        ),
        nothing_above(c.hits, at, Z_CONTENT) ==> nothing_above(
            row_drawn(c, row, node, index, selected, color).hits,
            at,
            Z_CONTENT,
        ),
{
    let clickable = c.hit(row, Z_CONTENT, Target::TreeRow { index });
    what_is_elsewhere_changes_nothing(c.hits, row, Z_CONTENT, Target::TreeRow { index }, at);
    what_is_elsewhere_changes_nothing(
        clickable.hits,
        Rect::cut(
            (row.x + indent_of(node.depth, row.width)) as u16,
            row.y,
            TOGGLE_WIDTH as int,
            1,
        ),
        Z_CONTENT,
        Target::TreeToggle { index },
        at,
    );
}

proof fn rows_elsewhere_change_nothing(
    c: CanvasView,
    area: Rect,
    snapshot: Snapshot,
    rows: Seq<usize>,
    ui: TreeUi,
    from: int,
    to: int,
    at: Position,
)
    requires
        area.fits(),
        ui.offset <= from,
        to <= ui.offset + area.height,
        at.y < area.y + (from - ui.offset),
    ensures
        target_at(rows_drawn(c, area, snapshot, rows, ui, from, to).hits, at) == target_at(
            c.hits,
            at,
        ),
    decreases to - from,
{
    if from < to {
        let node = snapshot.explorer@[rows[from] as int];
        let selected = ui.selected == Some(from as usize);
        let color = asked_color(snapshot, node);
        let row = row_rect(area, ui.offset, from);
        a_row_elsewhere_changes_nothing(c, row, node, from as usize, selected, color, at);
        rows_elsewhere_change_nothing(
            row_drawn(c, row, node, from as usize, selected, color),
            area,
            snapshot,
            rows,
            ui,
            from + 1,
            to,
            at,
        );
    }
}

proof fn a_click_finds_its_own_row(
    c: CanvasView,
    row: Rect,
    node: VisibleNode,
    index: usize,
    selected: bool,
    color: Option<Color>,
    at: Position,
)
    requires
        row.fits(),
        row.covers(at),
        nothing_above(c.hits, at, Z_CONTENT),
    ensures
        ({
            let found = target_at(row_drawn(c, row, node, index, selected, color).hits, at);
            found == Some(Target::TreeRow { index }) || found == Some(Target::TreeToggle { index })
        }),
{
    let clickable = c.hit(row, Z_CONTENT, Target::TreeRow { index });
    what_is_recorded_on_top_is_found(c.hits, row, Z_CONTENT, Target::TreeRow { index }, at);
    let toggle = Rect::cut(
        (row.x + indent_of(node.depth, row.width)) as u16,
        row.y,
        TOGGLE_WIDTH as int,
        1,
    );
    if toggle.covers(at) {
        what_is_recorded_on_top_is_found(
            clickable.hits,
            toggle,
            Z_CONTENT,
            Target::TreeToggle { index },
            at,
        );
    } else {
        what_is_elsewhere_changes_nothing(
            clickable.hits,
            toggle,
            Z_CONTENT,
            Target::TreeToggle { index },
            at,
        );
    }
}

/// Every row on screen can be clicked, and a click finds the row by where it is
/// on screen rather than by where its node stands in the whole tree.
pub proof fn a_row_is_hit_by_where_it_is_on_screen(
    c: CanvasView,
    area: Rect,
    snapshot: Snapshot,
    rows: Seq<usize>,
    ui: TreeUi,
    from: int,
    to: int,
    index: int,
    at: Position,
)
    requires
        area.fits(),
        ui.offset <= from <= index < to <= ui.offset + area.height,
        to <= usize::MAX,
        row_rect(area, ui.offset, index).covers(at),
        nothing_above(c.hits, at, Z_CONTENT),
    ensures
        ({
            let found = target_at(rows_drawn(c, area, snapshot, rows, ui, from, to).hits, at);
            let index = index as usize;
            found == Some(Target::TreeRow { index }) || found == Some(Target::TreeToggle { index })
        }),
    decreases to - from,
{
    let node = snapshot.explorer@[rows[from] as int];
    let selected = ui.selected == Some(from as usize);
    let color = asked_color(snapshot, node);
    let row = row_rect(area, ui.offset, from);
    let next = row_drawn(c, row, node, from as usize, selected, color);
    if from == index {
        a_click_finds_its_own_row(c, row, node, from as usize, selected, color, at);
        rows_elsewhere_change_nothing(next, area, snapshot, rows, ui, from + 1, to, at);
    } else {
        a_row_elsewhere_changes_nothing(c, row, node, from as usize, selected, color, at);
        a_row_is_hit_by_where_it_is_on_screen(
            next,
            area,
            snapshot,
            rows,
            ui,
            from + 1,
            to,
            index,
            at,
        );
    }
}

} // verus!
