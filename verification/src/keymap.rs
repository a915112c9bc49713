//! The key map: every binding, in one place, because a key map is data.
//!
//! That makes it enumerable — for the proof below that every capability has a
//! key, and for a help dialog and user-defined bindings later.

use crate::events::{KeyCode, KeyEvent, KeyModifiers};
use crate::intent::{Context, IntentKind};
use crate::search::{first_is_the_first, first_item, position_by_view, views};
use vstd::prelude::*;

verus! {

/// A key, and what is held down with it.
#[derive(Debug, Clone, Copy, PartialEq, Eq, Structural)]
pub struct KeyCombo {
    pub code: KeyCode,
    pub modifiers: KeyModifiers,
}

/// A key on its own.
pub open spec fn plain(code: KeyCode) -> KeyCombo {
    KeyCombo { code, modifiers: KeyModifiers { shift: false, control: false, alt: false } }
}

pub open spec fn with_ctrl(code: KeyCode) -> KeyCombo {
    KeyCombo { code, modifiers: KeyModifiers { shift: false, control: true, alt: false } }
}

pub open spec fn with_shift(code: KeyCode) -> KeyCombo {
    KeyCombo { code, modifiers: KeyModifiers { shift: true, control: false, alt: false } }
}

impl KeyCombo {
    pub fn new(code: KeyCode) -> (r: Self)
        ensures
            r == plain(code),
    {
        KeyCombo { code, modifiers: KeyModifiers { shift: false, control: false, alt: false } }
    }

    pub fn ctrl(code: KeyCode) -> (r: Self)
        ensures
            r == with_ctrl(code),
    {
        KeyCombo { code, modifiers: KeyModifiers { shift: false, control: true, alt: false } }
    }

    pub fn shift(code: KeyCode) -> (r: Self)
        ensures
            r == with_shift(code),
    {
        KeyCombo { code, modifiers: KeyModifiers { shift: true, control: false, alt: false } }
    }

    /// Whether a key has a shifted form of its own, which it arrives as.
    pub open spec fn shifts_itself(code: KeyCode) -> bool {
        code is Char || code is BackTab
    }

    /// Whether a keystroke is this.
    pub open spec fn is(self, event: KeyEvent) -> bool {
        &&& self.code == event.code
        &&& self.modifiers.control == event.modifiers.control
        &&& self.modifiers.alt == event.modifiers.alt
        &&& Self::shifts_itself(self.code) || self.modifiers.shift == event.modifiers.shift
    }

    /// Shift counts on a key that has no shifted form of its own, and not on
    /// one that has.
    ///
    /// A terminal reports shift inconsistently for a key that already arrives
    /// shifted — `G` arrives as `Char('G')` with or without the modifier
    /// depending on the terminal, and `BackTab` *is* `Shift-Tab`, which is
    /// handed over carrying shift on every platform. Both are matched by their
    /// code alone; reading the modifier on them would leave `Shift-Tab` bound
    /// to nothing. An arrow has no shifted form to arrive as instead, so shift
    /// on one is reported and is the only way to say `Shift-Down`.
    pub fn matches(self, event: KeyEvent) -> (b: bool)
        ensures
            b == self.is(event),
    {
        let shifts_itself: bool = match self.code {
            KeyCode::Char(_) | KeyCode::BackTab => true,
            _ => false,
        };
        self.code == event.code && self.modifiers.control == event.modifiers.control
            && self.modifiers.alt == event.modifiers.alt && (shifts_itself || self.modifiers.shift
            == event.modifiers.shift)
    }
}

/// The keys that reach a capability in a context.
#[derive(Debug, PartialEq, Eq)]
pub struct KeyBinding {
    pub keys: Vec<KeyCombo>,
    pub context: Context,
    pub kind: IntentKind,
}

#[verifier::ext_equal]
pub struct BindingView {
    pub keys: Seq<KeyCombo>,
    pub context: Context,
    pub kind: IntentKind,
}

impl View for KeyBinding {
    type V = BindingView;

    open spec fn view(&self) -> BindingView {
        BindingView { keys: self.keys@, context: self.context, kind: self.kind }
    }
}

pub open spec fn bound_to(keys: Seq<KeyCombo>, context: Context, kind: IntentKind) -> BindingView {
    BindingView { keys, context, kind }
}

fn bind(keys: Vec<KeyCombo>, context: Context, kind: IntentKind) -> (r: KeyBinding)
    ensures
        r@ == bound_to(keys@, context, kind),
{
    KeyBinding { keys, context, kind }
}

impl BindingView {
    /// Whether a keystroke is one of the keys.
    pub open spec fn answers(self, event: KeyEvent) -> bool {
        exists|i: int| 0 <= i < self.keys.len() && (#[trigger] self.keys[i]).is(event)
    }
}

impl KeyBinding {
    pub fn answers(&self, event: KeyEvent) -> (b: bool)
        ensures
            b == self@.answers(event),
    {
        let mut i: usize = 0;
        while i < self.keys.len()
            invariant
                i <= self.keys@.len(),
                forall|j: int| 0 <= j < i ==> !(#[trigger] self.keys@[j]).is(event),
            decreases self.keys@.len() - i,
        {
            if self.keys[i].matches(event) {
                proof {
                    assert(self@.keys[i as int].is(event));
                }
                return true;
            }
            i += 1;
        }
        false
    }
}

/// Every binding.
pub open spec fn key_table() -> Seq<BindingView> {
    seq![
        bound_to(
            seq![
                with_ctrl(KeyCode::Char('h')),
                plain(KeyCode::BackTab),
            ],
            Context::Global,
            IntentKind::Focus,
        ),
        bound_to(seq![plain(KeyCode::Tab)], Context::Global, IntentKind::Focus),
        bound_to(seq![plain(KeyCode::Char('/'))], Context::Global, IntentKind::Filter),
        bound_to(
            seq![
                plain(KeyCode::Backspace),
                plain(KeyCode::Esc),
                plain(KeyCode::Enter),
            ],
            Context::Filter,
            IntentKind::Filter,
        ),
        bound_to(seq![with_ctrl(KeyCode::Char('r'))], Context::Global, IntentKind::History),
        bound_to(seq![with_ctrl(KeyCode::Char('p'))], Context::Global, IntentKind::Palette),
        bound_to(
            seq![
                plain(KeyCode::Backspace),
                plain(KeyCode::Esc),
                plain(KeyCode::Up),
                plain(KeyCode::Down),
                plain(KeyCode::Tab),
                plain(KeyCode::BackTab),
            ],
            Context::Palette,
            IntentKind::Palette,
        ),
        bound_to(seq![plain(KeyCode::Enter)], Context::Palette, IntentKind::UseTemplate),
        bound_to(seq![with_ctrl(KeyCode::Char('s'))], Context::Global, IntentKind::SaveTemplate),
        bound_to(seq![with_ctrl(KeyCode::Char('s'))], Context::Palette, IntentKind::SaveTemplate),
        bound_to(seq![with_ctrl(KeyCode::Char('d'))], Context::Palette, IntentKind::DeleteTemplate),
        bound_to(
            seq![
                plain(KeyCode::Char('j')),
                plain(KeyCode::Char('k')),
                plain(KeyCode::Down),
                plain(KeyCode::Up),
                plain(KeyCode::PageDown),
                plain(KeyCode::PageUp),
            ],
            Context::Global,
            IntentKind::Scroll,
        ),
        bound_to(
            seq![
                plain(KeyCode::Char('g')),
                plain(KeyCode::Char('G')),
                plain(KeyCode::Home),
                plain(KeyCode::End),
            ],
            Context::Global,
            IntentKind::ScrollEdge,
        ),
        bound_to(
            seq![
                plain(KeyCode::Left),
                plain(KeyCode::Right),
            ],
            Context::Grid,
            IntentKind::ScrollHorizontally,
        ),
        bound_to(
            seq![
                plain(KeyCode::Down),
                plain(KeyCode::Up),
            ],
            Context::Explorer,
            IntentKind::TreeSelection,
        ),
        bound_to(
            seq![
                plain(KeyCode::Char('J')),
                plain(KeyCode::Char('K')),
            ],
            Context::Grid,
            IntentKind::GridSelection,
        ),
        bound_to(
            seq![
                with_shift(KeyCode::Up),
                with_shift(KeyCode::Down),
                with_shift(KeyCode::Left),
                with_shift(KeyCode::Right),
            ],
            Context::Grid,
            IntentKind::ExtendSelection,
        ),
        bound_to(
            seq![
                plain(KeyCode::Char('H')),
                plain(KeyCode::Char('L')),
            ],
            Context::Grid,
            IntentKind::GridSelection,
        ),
        bound_to(
            seq![
                plain(KeyCode::Char('<')),
                plain(KeyCode::Char('>')),
            ],
            Context::Grid,
            IntentKind::ResizeColumn,
        ),
        bound_to(
            seq![
                with_ctrl(KeyCode::Left),
                with_ctrl(KeyCode::Right),
            ],
            Context::Global,
            IntentKind::MoveSplit,
        ),
        bound_to(seq![plain(KeyCode::Char('='))], Context::Global, IntentKind::EvenSplit),
        bound_to(seq![plain(KeyCode::Enter)], Context::Grid, IntentKind::ToggleDetail),
        bound_to(seq![plain(KeyCode::Char('.'))], Context::Grid, IntentKind::Menu),
        bound_to(
            seq![
                plain(KeyCode::Char('y')),
                plain(KeyCode::Char('Y')),
                plain(KeyCode::Char('a')),
                plain(KeyCode::Char('A')),
            ],
            Context::Grid,
            IntentKind::Copy,
        ),
        bound_to(seq![plain(KeyCode::Esc)], Context::Modal, IntentKind::DismissModal),
        bound_to(seq![plain(KeyCode::Char('c'))], Context::Global, IntentKind::Connect),
        bound_to(seq![plain(KeyCode::Char('D'))], Context::Global, IntentKind::Disconnect),
        bound_to(
            seq![
                plain(KeyCode::Char(' ')),
                plain(KeyCode::Right),
                plain(KeyCode::Left),
            ],
            Context::Explorer,
            IntentKind::ToggleNode,
        ),
        bound_to(seq![plain(KeyCode::Enter)], Context::Explorer, IntentKind::PreviewTable),
        bound_to(seq![plain(KeyCode::Char('u'))], Context::Grid, IntentKind::ReuseRun),
        bound_to(seq![plain(KeyCode::Char('s'))], Context::Grid, IntentKind::SortPreview),
        bound_to(seq![plain(KeyCode::Char('m'))], Context::Grid, IntentKind::LoadMore),
        bound_to(
            seq![
                plain(KeyCode::Char('r')),
                with_ctrl(KeyCode::Enter),
            ],
            Context::Global,
            IntentKind::RunQuery,
        ),
        bound_to(seq![plain(KeyCode::Enter)], Context::Modal, IntentKind::ApproveQuery),
        bound_to(seq![plain(KeyCode::Char('e'))], Context::Global, IntentKind::EditExternally),
        bound_to(seq![plain(KeyCode::Char('d'))], Context::Explorer, IntentKind::DescribeTable),
        bound_to(
            seq![
                plain(KeyCode::Char('{')),
                plain(KeyCode::Char('}')),
            ],
            Context::Grid,
            IntentKind::SelectSection,
        ),
        bound_to(seq![plain(KeyCode::Char('n'))], Context::Global, IntentKind::OpenSqlTab),
        bound_to(
            seq![
                with_ctrl(KeyCode::Tab),
                plain(KeyCode::Char(']')),
                plain(KeyCode::Char('[')),
            ],
            Context::Global,
            IntentKind::SelectTab,
        ),
        bound_to(seq![with_ctrl(KeyCode::Char('w'))], Context::Global, IntentKind::CloseTab),
        bound_to(seq![with_ctrl(KeyCode::Char('g'))], Context::Global, IntentKind::Cancel),
        bound_to(seq![plain(KeyCode::Esc)], Context::Global, IntentKind::DismissToast),
        bound_to(
            seq![
                plain(KeyCode::Char('q')),
                with_ctrl(KeyCode::Char('c')),
            ],
            Context::Global,
            IntentKind::Quit,
        ),
    ]
}

/// Every binding.
///
/// A pane binding beats a global one for the same key, which is how `Down`
/// scrolls everywhere and moves the selection in the tree, and how `Esc`
/// cancels a filter rather than dismissing a toast while one is being typed.
/// It is also the hazard when adding a binding: taking a letter a global
/// binding uses stops that capability working while the pane has focus, and
/// nothing here catches it — `no_key_is_bound_twice_in_the_same_context` sees
/// one context at a time, and whether the shadowed meaning still matters in
/// that pane is a judgement rather than a rule. Both cases above are
/// deliberate; `c` for a JSON copy in the grid was not, and would have stopped
/// `c` opening a connection.
pub fn keymap() -> (r: Vec<KeyBinding>)
    ensures
        views(r@) == key_table(),
{
    let bindings: Vec<KeyBinding> = vec![
        bind(
            vec![
                KeyCombo::ctrl(KeyCode::Char('h')),
                KeyCombo::new(KeyCode::BackTab),
            ],
            Context::Global,
            IntentKind::Focus,
        ),
        bind(vec![KeyCombo::new(KeyCode::Tab)], Context::Global, IntentKind::Focus),
        // `/` opens the box, and inside it every character is the box's — the
        // chords stay global, so `Ctrl-C` still quits. `Filter` is the only kind
        // bound in two contexts, and it has to be: a keymap that let the global
        // bindings through would make a search for a table called `q` quit.
        bind(vec![KeyCombo::new(KeyCode::Char('/'))], Context::Global, IntentKind::Filter),
        bind(
            vec![
                KeyCombo::new(KeyCode::Backspace),
                KeyCombo::new(KeyCode::Esc),
                KeyCombo::new(KeyCode::Enter),
            ],
            Context::Filter,
            IntentKind::Filter,
        ),
        // `Ctrl-r` for the history, which is the key a shell searches its own with
        // — and a chord rather than a letter because the pane it opens is a search
        // box, so a letter would be the first thing typed into it as often as it
        // opened it. Not `Ctrl-h`: terminals send that for `Backspace`, which is
        // why it is already the backwards half of `Tab`.
        bind(vec![KeyCombo::ctrl(KeyCode::Char('r'))], Context::Global, IntentKind::History),
        // `Ctrl-p`, a chord rather than a letter because it has to work while
        // a SQL tab has the keyboard, which is where somebody wants a saved
        // statement.
        bind(vec![KeyCombo::ctrl(KeyCode::Char('p'))], Context::Global, IntentKind::Palette),
        // Inside it every character is the filter's or the field's, the way the
        // search box works — these are the keys that are not text.
        bind(
            vec![
                KeyCombo::new(KeyCode::Backspace),
                KeyCombo::new(KeyCode::Esc),
                KeyCombo::new(KeyCode::Up),
                KeyCombo::new(KeyCode::Down),
                KeyCombo::new(KeyCode::Tab),
                KeyCombo::new(KeyCode::BackTab),
            ],
            Context::Palette,
            IntentKind::Palette,
        ),
        bind(vec![KeyCombo::new(KeyCode::Enter)], Context::Palette, IntentKind::UseTemplate),
        // `Ctrl-s` names the statement in the buffer, and `Ctrl-s` again saves it.
        // The same key for both halves because it is one errand, and not `Enter`
        // for the second: `Enter` is the palette's own key and picks from the
        // list, which is what somebody typing a *name* over that list is not
        // doing.
        bind(vec![KeyCombo::ctrl(KeyCode::Char('s'))], Context::Global, IntentKind::SaveTemplate),
        bind(vec![KeyCombo::ctrl(KeyCode::Char('s'))], Context::Palette, IntentKind::SaveTemplate),
        bind(
            vec![
                KeyCombo::ctrl(KeyCode::Char('d')),
            ],
            Context::Palette,
            IntentKind::DeleteTemplate,
        ),
        bind(
            vec![
                KeyCombo::new(KeyCode::Char('j')),
                KeyCombo::new(KeyCode::Char('k')),
                KeyCombo::new(KeyCode::Down),
                KeyCombo::new(KeyCode::Up),
                KeyCombo::new(KeyCode::PageDown),
                KeyCombo::new(KeyCode::PageUp),
            ],
            Context::Global,
            IntentKind::Scroll,
        ),
        bind(
            vec![
                KeyCombo::new(KeyCode::Char('g')),
                KeyCombo::new(KeyCode::Char('G')),
                KeyCombo::new(KeyCode::Home),
                KeyCombo::new(KeyCode::End),
            ],
            Context::Global,
            IntentKind::ScrollEdge,
        ),
        bind(
            vec![
                KeyCombo::new(KeyCode::Left),
                KeyCombo::new(KeyCode::Right),
            ],
            Context::Grid,
            IntentKind::ScrollHorizontally,
        ),
        bind(
            vec![
                KeyCombo::new(KeyCode::Down),
                KeyCombo::new(KeyCode::Up),
            ],
            Context::Explorer,
            IntentKind::TreeSelection,
        ),
        // Upper case moves the selection, lower case and the arrows move the
        // view: `H`/`L` are to `J`/`K` what `Left`/`Right` are to `j`/`k`. Without
        // the horizontal pair the mouse can select any cell and the keyboard
        // cannot, which the coverage sweep does not catch because both are the
        // same capability.
        bind(
            vec![
                KeyCombo::new(KeyCode::Char('J')),
                KeyCombo::new(KeyCode::Char('K')),
            ],
            Context::Grid,
            IntentKind::GridSelection,
        ),
        // Shift with the arrows, which is what every grid does. All four,
        // because the pair above already learned that binding one axis leaves
        // the other reachable by mouse and not by keyboard — and the coverage
        // sweep cannot see that, both axes being one capability.
        bind(
            vec![
                KeyCombo::shift(KeyCode::Up),
                KeyCombo::shift(KeyCode::Down),
                KeyCombo::shift(KeyCode::Left),
                KeyCombo::shift(KeyCode::Right),
            ],
            Context::Grid,
            IntentKind::ExtendSelection,
        ),
        bind(
            vec![
                KeyCombo::new(KeyCode::Char('H')),
                KeyCombo::new(KeyCode::Char('L')),
            ],
            Context::Grid,
            IntentKind::GridSelection,
        ),
        bind(
            vec![
                KeyCombo::new(KeyCode::Char('<')),
                KeyCombo::new(KeyCode::Char('>')),
            ],
            Context::Grid,
            IntentKind::ResizeColumn,
        ),
        bind(
            vec![
                KeyCombo::ctrl(KeyCode::Left),
                KeyCombo::ctrl(KeyCode::Right),
            ],
            Context::Global,
            IntentKind::MoveSplit,
        ),
        bind(vec![KeyCombo::new(KeyCode::Char('='))], Context::Global, IntentKind::EvenSplit),
        // In the grid, where the cell it shows is chosen. `Enter` because it
        // reads as "look at this one", and it is not otherwise bound there.
        bind(vec![KeyCombo::new(KeyCode::Enter)], Context::Grid, IntentKind::ToggleDetail),
        // The menu itself needs a key, not only its entries: a terminal that
        // cannot deliver a right-click would otherwise have no way to see what
        // is on offer. `.` because it is free in every context and reads as
        // "and the rest" — `m` is `LoadMore` here, and taking it would have
        // been the `c` mistake again.
        bind(vec![KeyCombo::new(KeyCode::Char('.'))], Context::Grid, IntentKind::Menu),
        // The letter says how much and the case says which format: `y` yanks
        // what is selected, `a` takes it all, and shift on either asks for
        // JSON instead of CSV.
        //
        // Not `c` for JSON, which is what this first reached for: `c` already
        // opens a connection, and a pane binding beats a global one — so with
        // the grid focused a working gesture would quietly have started doing
        // something else. `Ctrl-c` is not available either; it is the
        // terminal's interrupt, and a grid nobody can get out of is worse than
        // a shortcut nobody has.
        bind(
            vec![
                KeyCombo::new(KeyCode::Char('y')),
                KeyCombo::new(KeyCode::Char('Y')),
                KeyCombo::new(KeyCode::Char('a')),
                KeyCombo::new(KeyCode::Char('A')),
            ],
            Context::Grid,
            IntentKind::Copy,
        ),
        bind(vec![KeyCombo::new(KeyCode::Esc)], Context::Modal, IntentKind::DismissModal),
        bind(vec![KeyCombo::new(KeyCode::Char('c'))], Context::Global, IntentKind::Connect),
        bind(vec![KeyCombo::new(KeyCode::Char('D'))], Context::Global, IntentKind::Disconnect),
        // `Space` toggles; the arrows are directional, so `Right` opens and `Left`
        // only ever closes. Leaving `Left` unbound made the tree the one place
        // where an arrow key did nothing at all.
        bind(
            vec![
                KeyCombo::new(KeyCode::Char(' ')),
                KeyCombo::new(KeyCode::Right),
                KeyCombo::new(KeyCode::Left),
            ],
            Context::Explorer,
            IntentKind::ToggleNode,
        ),
        bind(vec![KeyCombo::new(KeyCode::Enter)], Context::Explorer, IntentKind::PreviewTable),
        // `u` for use, in the grid — where it reaches anything only in the
        // history, the one grid whose rows are statements rather than somebody's
        // data. Not `Enter`, which is already "look at this one" in every grid and
        // is worth more here than anywhere: a statement too long for its column is
        // exactly what the detail pane is for.
        bind(vec![KeyCombo::new(KeyCode::Char('u'))], Context::Grid, IntentKind::ReuseRun),
        bind(vec![KeyCombo::new(KeyCode::Char('s'))], Context::Grid, IntentKind::SortPreview),
        bind(vec![KeyCombo::new(KeyCode::Char('m'))], Context::Grid, IntentKind::LoadMore),
        // `r` for run. `Ctrl-Enter` is bound too because it is what every
        // other client uses — but only as a second combo:
        // a terminal without the kitty keyboard protocol cannot send it at
        // all, so binding it alone would be a gesture half the terminals in
        // the world do not have.
        bind(
            vec![
                KeyCombo::new(KeyCode::Char('r')),
                KeyCombo::ctrl(KeyCode::Enter),
            ],
            Context::Global,
            IntentKind::RunQuery,
        ),
        // Only reaches anything while a dialog is asking, which is the whole
        // of when there is something to approve. `Enter` rather than a letter:
        // a dialog's default answer is the one under the finger already.
        bind(vec![KeyCombo::new(KeyCode::Enter)], Context::Modal, IntentKind::ApproveQuery),
        // Global rather than in the grid: the pane it acts on is the grid's,
        // but a query being written is what the whole client is doing at that
        // point, and needing focus in the pane first is a step with nothing
        // behind it.
        bind(vec![KeyCombo::new(KeyCode::Char('e'))], Context::Global, IntentKind::EditExternally),
        // `d` shows what the selected relation is. In the explorer, where the
        // relation is chosen — `D` is disconnect and global, and the pane
        // binding beating it is the hazard `KEYMAP` warns about, so the case
        // matters here.
        bind(vec![KeyCombo::new(KeyCode::Char('d'))], Context::Explorer, IntentKind::DescribeTable),
        // Through the definition's sections. `Tab` moves focus and `[`/`]`
        // move tabs, so neither is free; `{`/`}` are the shifted forms of the
        // brackets already used for the thing one level up, which is the
        // relationship they have.
        bind(
            vec![
                KeyCombo::new(KeyCode::Char('{')),
                KeyCombo::new(KeyCode::Char('}')),
            ],
            Context::Grid,
            IntentKind::SelectSection,
        ),
        // `n` for a new one. Global rather than in the grid: the gesture it
        // matches is the `+` on the tab bar, which no pane owns, and a tab
        // opened only while the grid has focus would be unreachable from the
        // explorer where the connection is chosen.
        bind(vec![KeyCombo::new(KeyCode::Char('n'))], Context::Global, IntentKind::OpenSqlTab),
        bind(
            vec![
                KeyCombo::ctrl(KeyCode::Tab),
                KeyCombo::new(KeyCode::Char(']')),
                KeyCombo::new(KeyCode::Char('[')),
            ],
            Context::Global,
            IntentKind::SelectTab,
        ),
        bind(vec![KeyCombo::ctrl(KeyCode::Char('w'))], Context::Global, IntentKind::CloseTab),
        bind(vec![KeyCombo::ctrl(KeyCode::Char('g'))], Context::Global, IntentKind::Cancel),
        bind(vec![KeyCombo::new(KeyCode::Esc)], Context::Global, IntentKind::DismissToast),
        bind(
            vec![
                KeyCombo::new(KeyCode::Char('q')),
                KeyCombo::ctrl(KeyCode::Char('c')),
            ],
            Context::Global,
            IntentKind::Quit,
        ),
    ];
    proof {
        assert(views(bindings@) =~~= key_table());
    }
    bindings
}

/// The bindings of a context that a keystroke answers to.
pub open spec fn bound_in(context: Context, event: KeyEvent) -> spec_fn(BindingView) -> bool {
    |b: BindingView| b.context == context && b.answers(event)
}

/// The capability a keystroke reaches in a context.
pub open spec fn bound_kind(context: Context, event: KeyEvent) -> Option<IntentKind> {
    match first_item(key_table(), bound_in(context, event)) {
        Some(binding) => Some(binding.kind),
        None => None,
    }
}

/// The capability a keystroke reaches in a context.
pub fn bound(context: Context, event: KeyEvent) -> (r: Option<IntentKind>)
    ensures
        r == bound_kind(context, event),
{
    let bindings: Vec<KeyBinding> = keymap();
    let wanted = |b: &KeyBinding| -> (there: bool)
        ensures there == bound_in(context, event)(b@)
    { b.context == context && b.answers(event) };
    match position_by_view(&bindings, wanted, Ghost(bound_in(context, event))) {
        Some(i) => Some(bindings[i].kind),
        None => None,
    }
}

// ── what the key map keeps to ──────────────────────────────────────────────

/// A binding of each capability, by where it stands.
pub open spec fn place_of_kind(kind: IntentKind) -> int {
    match kind {
        IntentKind::Focus => 0,
        IntentKind::Scroll => 11,
        IntentKind::ScrollEdge => 12,
        IntentKind::ScrollHorizontally => 13,
        IntentKind::TreeSelection => 14,
        IntentKind::GridSelection => 15,
        IntentKind::ExtendSelection => 16,
        IntentKind::ResizeColumn => 18,
        IntentKind::MoveSplit => 19,
        IntentKind::EvenSplit => 20,
        IntentKind::DismissModal => 24,
        IntentKind::Filter => 2,
        IntentKind::ToggleDetail => 21,
        IntentKind::Menu => 22,
        IntentKind::Copy => 23,
        IntentKind::Connect => 25,
        IntentKind::Disconnect => 26,
        IntentKind::ToggleNode => 27,
        IntentKind::PreviewTable => 28,
        IntentKind::SortPreview => 30,
        IntentKind::LoadMore => 31,
        IntentKind::DescribeTable => 35,
        IntentKind::SelectSection => 36,
        IntentKind::OpenSqlTab => 37,
        IntentKind::EditExternally => 34,
        IntentKind::RunQuery => 32,
        IntentKind::ApproveQuery => 33,
        IntentKind::History => 4,
        IntentKind::ReuseRun => 29,
        IntentKind::Palette => 5,
        IntentKind::UseTemplate => 7,
        IntentKind::SaveTemplate => 8,
        IntentKind::DeleteTemplate => 10,
        IntentKind::SelectTab => 38,
        IntentKind::CloseTab => 39,
        IntentKind::Cancel => 40,
        IntentKind::DismissToast => 41,
        IntentKind::Quit => 42,
    }
}

/// Nothing is reachable by mouse only: every capability has a binding, and the
/// binding has a key.
pub proof fn every_kind_has_a_binding(kind: IntentKind)
    ensures
        0 <= place_of_kind(kind) < key_table().len(),
        key_table()[place_of_kind(kind)].kind == kind,
        key_table()[place_of_kind(kind)].keys.len() > 0,
{
}

/// Which binding of a context a key belongs to, by where it stands.
spec fn owner(context: Context, key: KeyCombo) -> int {
    match context {
        Context::Global => {
            if key == with_ctrl(KeyCode::Char('h')) || key == plain(KeyCode::BackTab) {
                0
            } else if key == plain(KeyCode::Tab) {
                1
            } else if key == plain(KeyCode::Char('/')) {
                2
            } else if key == with_ctrl(KeyCode::Char('r')) {
                4
            } else if key == with_ctrl(KeyCode::Char('p')) {
                5
            } else if key == with_ctrl(KeyCode::Char('s')) {
                8
            } else if key == plain(KeyCode::Char('j'))
                || key == plain(KeyCode::Char('k'))
                || key == plain(KeyCode::Down)
                || key == plain(KeyCode::Up)
                || key == plain(KeyCode::PageDown)
                || key == plain(KeyCode::PageUp) {
                11
            } else if key == plain(KeyCode::Char('g'))
                || key == plain(KeyCode::Char('G'))
                || key == plain(KeyCode::Home)
                || key == plain(KeyCode::End) {
                12
            } else if key == with_ctrl(KeyCode::Left) || key == with_ctrl(KeyCode::Right) {
                19
            } else if key == plain(KeyCode::Char('=')) {
                20
            } else if key == plain(KeyCode::Char('c')) {
                25
            } else if key == plain(KeyCode::Char('D')) {
                26
            } else if key == plain(KeyCode::Char('r')) || key == with_ctrl(KeyCode::Enter) {
                32
            } else if key == plain(KeyCode::Char('e')) {
                34
            } else if key == plain(KeyCode::Char('n')) {
                37
            } else if key == with_ctrl(KeyCode::Tab)
                || key == plain(KeyCode::Char(']'))
                || key == plain(KeyCode::Char('[')) {
                38
            } else if key == with_ctrl(KeyCode::Char('w')) {
                39
            } else if key == with_ctrl(KeyCode::Char('g')) {
                40
            } else if key == plain(KeyCode::Esc) {
                41
            } else if key == plain(KeyCode::Char('q')) || key == with_ctrl(KeyCode::Char('c')) {
                42
            } else {
                -1
            }
        },
        Context::Explorer => {
            if key == plain(KeyCode::Down) || key == plain(KeyCode::Up) {
                14
            } else if key == plain(KeyCode::Char(' '))
                || key == plain(KeyCode::Right)
                || key == plain(KeyCode::Left) {
                27
            } else if key == plain(KeyCode::Enter) {
                28
            } else if key == plain(KeyCode::Char('d')) {
                35
            } else {
                -1
            }
        },
        Context::Grid => {
            if key == plain(KeyCode::Left) || key == plain(KeyCode::Right) {
                13
            } else if key == plain(KeyCode::Char('J')) || key == plain(KeyCode::Char('K')) {
                15
            } else if key == with_shift(KeyCode::Up)
                || key == with_shift(KeyCode::Down)
                || key == with_shift(KeyCode::Left)
                || key == with_shift(KeyCode::Right) {
                16
            } else if key == plain(KeyCode::Char('H')) || key == plain(KeyCode::Char('L')) {
                17
            } else if key == plain(KeyCode::Char('<')) || key == plain(KeyCode::Char('>')) {
                18
            } else if key == plain(KeyCode::Enter) {
                21
            } else if key == plain(KeyCode::Char('.')) {
                22
            } else if key == plain(KeyCode::Char('y'))
                || key == plain(KeyCode::Char('Y'))
                || key == plain(KeyCode::Char('a'))
                || key == plain(KeyCode::Char('A')) {
                23
            } else if key == plain(KeyCode::Char('u')) {
                29
            } else if key == plain(KeyCode::Char('s')) {
                30
            } else if key == plain(KeyCode::Char('m')) {
                31
            } else if key == plain(KeyCode::Char('{')) || key == plain(KeyCode::Char('}')) {
                36
            } else {
                -1
            }
        },
        Context::Modal => {
            if key == plain(KeyCode::Esc) {
                24
            } else if key == plain(KeyCode::Enter) {
                33
            } else {
                -1
            }
        },
        Context::Filter => {
            if key == plain(KeyCode::Backspace)
                || key == plain(KeyCode::Esc)
                || key == plain(KeyCode::Enter) {
                3
            } else {
                -1
            }
        },
        Context::Palette => {
            if key == plain(KeyCode::Backspace)
                || key == plain(KeyCode::Esc)
                || key == plain(KeyCode::Up)
                || key == plain(KeyCode::Down)
                || key == plain(KeyCode::Tab)
                || key == plain(KeyCode::BackTab) {
                6
            } else if key == plain(KeyCode::Enter) {
                7
            } else if key == with_ctrl(KeyCode::Char('s')) {
                9
            } else if key == with_ctrl(KeyCode::Char('d')) {
                10
            } else {
                -1
            }
        },
    }
}

proof fn a_key_belongs_to_its_binding(i: int, a: int)
    requires
        0 <= i < key_table().len(),
        0 <= a < key_table()[i].keys.len(),
    ensures
        owner(key_table()[i].context, key_table()[i].keys[a]) == i,
{
}

/// No key is bound twice in one context, so which binding is listed first
/// decides nothing.
pub proof fn no_key_is_bound_twice_in_the_same_context(
    context: Context,
    event: KeyEvent,
    i: int,
    j: int,
)
    requires
        0 <= i < key_table().len(),
        0 <= j < key_table().len(),
        bound_in(context, event)(key_table()[i]),
        bound_in(context, event)(key_table()[j]),
    ensures
        i == j,
{
    let a = choose|a: int|
        0 <= a < key_table()[i].keys.len() && (#[trigger] key_table()[i].keys[a]).is(event);
    let b = choose|b: int|
        0 <= b < key_table()[j].keys.len() && (#[trigger] key_table()[j].keys[b]).is(event);
    a_key_belongs_to_its_binding(i, a);
    a_key_belongs_to_its_binding(j, b);
    keys_are_written_one_way(i, a);
    keys_are_written_one_way(j, b);
}

/// A key that shifts itself is never written with shift.
proof fn keys_are_written_one_way(i: int, a: int)
    requires
        0 <= i < key_table().len(),
        0 <= a < key_table()[i].keys.len(),
    ensures
        ({
            let key = key_table()[i].keys[a];
            KeyCombo::shifts_itself(key.code) ==> !key.modifiers.shift
        }),
{
}

/// Every binding reaches its own capability: pressing one of its keys where it
/// applies is what the map says it is.
pub proof fn a_bound_key_reaches_its_kind(i: int, event: KeyEvent)
    requires
        0 <= i < key_table().len(),
        key_table()[i].answers(event),
    ensures
        bound_kind(key_table()[i].context, event) == Some(key_table()[i].kind),
{
    let context = key_table()[i].context;
    first_is_the_first(key_table(), bound_in(context, event));
    assert(bound_in(context, event)(key_table()[i]));
    let k = crate::search::first(key_table(), bound_in(context, event))->0;
    no_key_is_bound_twice_in_the_same_context(context, event, i, k);
}

} // verus!
