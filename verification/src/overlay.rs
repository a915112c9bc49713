//! What is drawn over everything else: dialogs and transient messages.
//!
//! A dialog goes down as two rectangles, not one. The backdrop covers the whole
//! screen so a click outside the dialog cannot reach what is behind it, and the
//! dialog itself covers its own area so a click inside it does not reach the
//! backdrop. Miss either and a confirmation dialog becomes a way to trigger the
//! thing it was confirming, or a way to dismiss itself by pressing on its own
//! question.

use crate::chrome::{fit, fitted, padded, spaced};
use crate::geometry::{least, less, min_u16, Position, Rect};
use crate::grid::{sanitise, sanitised};
use crate::hit::{
    all_below, extends, nothing_underneath_is_found, target_at, ButtonId, Hit, Target, Z_BACKDROP, Z_CHROME,
    Z_MODAL,
};
use crate::ids::QueryId;
use crate::intent::{Action, ActionView, Intent, IntentView};
use crate::model::{query_is, LoadState, Snapshot};
use crate::paint::{
    raw, styled, BorderKind, Canvas, CanvasView, Color, Line, Overflow, Paint, PaintView, Span,
    SpanView, Style,
};
use crate::search::{first_item, views};
use crate::state::ToastView;
use crate::text::{
    copy_of, display_columns, display_width, pieces, push_all, same_text, split, texts,
};
use crate::ui::{Severity, Toast};
use vstd::prelude::*;

verus! {

/// One of the answers a dialog offers.
#[derive(Debug, PartialEq, Eq)]
pub struct Choice {
    pub label: String,
    /// What choosing it does.
    pub intent: Intent,
}

pub struct ChoiceView {
    pub label: Seq<char>,
    pub intent: IntentView,
}

impl Clone for Choice {
    fn clone(&self) -> (r: Self)
        ensures
            r@ == self@,
    {
        Choice { label: self.label.clone(), intent: self.intent.clone() }
    }
}

impl View for Choice {
    type V = ChoiceView;

    open spec fn view(&self) -> ChoiceView {
        ChoiceView { label: self.label@, intent: self.intent@ }
    }
}

pub open spec fn choice_views(choices: Seq<Choice>) -> Seq<ChoiceView> {
    choices.map_values(|c: Choice| c@)
}

/// A dialog's contents. Held by `UiState`, because whether a dialog is open is
/// a fact about this screen and not about the data.
#[derive(Debug, PartialEq, Eq)]
pub struct Modal {
    pub title: String,
    pub body: String,
    /// What can be answered, besides going away. Nothing, when the dialog only
    /// has something to say.
    pub choices: Vec<Choice>,
    /// Whether it is about something that went wrong, which it is drawn like.
    pub grave: bool,
}

#[verifier::ext_equal]
pub struct ModalView {
    pub title: Seq<char>,
    pub body: Seq<char>,
    pub choices: Seq<ChoiceView>,
    pub grave: bool,
}

impl ModalView {
    /// A dialog that says something went wrong.
    pub open spec fn failure(title: Seq<char>, body: Seq<char>) -> ModalView {
        ModalView { title, body, choices: Seq::empty(), grave: true }
    }

    /// A dialog with one answer.
    pub open spec fn question(
        title: Seq<char>,
        body: Seq<char>,
        label: Seq<char>,
        intent: IntentView,
    ) -> ModalView {
        ModalView { title, body, choices: seq![ChoiceView { label, intent }], grave: false }
    }

    /// The query whose cost the dialog asks about, where that is its question.
    pub open spec fn approves(self) -> Option<QueryId> {
        if self.choices.len() > 0 {
            match self.choices[0].intent {
                IntentView::App(ActionView::Plain(Action::ApproveQuery(id))) => Some(id),
                _ => None,
            }
        } else {
            None
        }
    }

    /// Whether a snapshot says that the dialog's question has been answered: the
    /// query it asks about no longer waits, the statement it would delete is
    /// gone, or the one it would replace already says the other thing. A
    /// snapshot that does not say keeps the question open.
    pub open spec fn answered_by(self, snapshot: Snapshot) -> bool {
        self.choices.len() > 0 && match self.choices[0].intent {
            IntentView::App(ActionView::Plain(Action::ApproveQuery(id))) => match first_item(
                snapshot.queries@,
                query_is(id),
            ) {
                Some(query) => query.needs_approval is None,
                None => true,
            },
            IntentView::App(ActionView::Plain(Action::DeleteTemplate(id))) => snapshot.held() is Some
                && snapshot.template_by_id(id) is None,
            IntentView::App(ActionView::ReplaceTemplate { id, with }) => snapshot.held() is Some
                && match snapshot.template_by_id(id) {
                Some(template) => template.name@ == with.name && template.body@ == with.body,
                None => true,
            },
            _ => false,
        }
    }
}

impl Clone for Modal {
    fn clone(&self) -> (r: Self)
        ensures
            r@ == self@,
    {
        let mut choices: Vec<Choice> = Vec::new();
        let mut i: usize = 0;
        while i < self.choices.len()
            invariant
                i <= self.choices@.len(),
                choice_views(choices@) == choice_views(self.choices@).take(i as int),
            decreases self.choices@.len() - i,
        {
            let ghost before = choice_views(choices@);
            let choice: Choice = self.choices[i].clone();
            let ghost added = choice@;
            choices.push(choice);
            proof {
                assert(choice_views(choices@) =~= before.push(added));
                assert(choice_views(choices@) =~= choice_views(self.choices@).take(i + 1));
            }
            i += 1;
        }
        proof {
            assert(choice_views(self.choices@).take(i as int) =~= choice_views(self.choices@));
        }
        Modal { title: self.title.clone(), body: self.body.clone(), choices, grave: self.grave }
    }
}

impl View for Modal {
    type V = ModalView;

    open spec fn view(&self) -> ModalView {
        ModalView {
            title: self.title@,
            body: self.body@,
            choices: choice_views(self.choices@),
            grave: self.grave,
        }
    }
}

pub open spec fn some_modal(modal: Option<Modal>) -> Option<ModalView> {
    match modal {
        Some(modal) => Some(modal@),
        None => None,
    }
}

impl Modal {
    /// A dialog that says something went wrong.
    pub fn error(title: &str, body: &str) -> (r: Self)
        ensures
            r@ == ModalView::failure(title@, body@),
    {
        let modal: Modal = Modal {
            title: copy_of(title),
            body: copy_of(body),
            choices: Vec::new(),
            grave: true,
        };
        proof {
            assert(modal@.choices =~= Seq::empty());
        }
        modal
    }

    /// A dialog that asks something.
    pub fn asking(title: &str, body: &str, choices: Vec<Choice>) -> (r: Self)
        ensures
            r@ == (ModalView {
                title: title@,
                body: body@,
                choices: choice_views(choices@),
                grave: false,
            }),
            r.choices == choices,
    {
        Modal { title: copy_of(title), body: copy_of(body), choices, grave: false }
    }

    /// A dialog with one answer.
    pub fn asking_one(title: &str, body: &str, label: &str, intent: Intent) -> (r: Self)
        ensures
            r@ == ModalView::question(title@, body@, label@, intent@),
    {
        let mut choices: Vec<Choice> = Vec::new();
        choices.push(Choice { label: copy_of(label), intent });
        proof {
            assert(choice_views(choices@) =~= seq![
                ChoiceView { label: label@, intent: intent@ },
            ]);
        }
        Modal::asking(title, body, choices)
    }

    /// The query whose cost the dialog asks about, where that is its question.
    pub fn approves(&self) -> (r: Option<QueryId>)
        ensures
            r == self@.approves(),
    {
        if self.choices.len() > 0 {
            proof {
                assert(self@.choices[0] == self.choices@[0]@);
            }
            match &self.choices[0].intent {
                Intent::App(Action::ApproveQuery(id)) => Some(*id),
                _ => None,
            }
        } else {
            None
        }
    }

    /// Whether a snapshot says that the dialog's question has been answered.
    pub fn answered_by(&self, snapshot: &Snapshot) -> (b: bool)
        ensures
            b == self@.answered_by(*snapshot),
    {
        if self.choices.len() == 0 {
            return false;
        }
        proof {
            assert(self@.choices[0] == self.choices@[0]@);
        }
        let held: bool = match &snapshot.templates.data {
            LoadState::Ready(_) => true,
            _ => false,
        };
        match &self.choices[0].intent {
            Intent::App(Action::ApproveQuery(id)) => match snapshot.query(*id) {
                Some(query) => query.needs_approval.is_none(),
                None => true,
            },
            Intent::App(Action::DeleteTemplate(id)) => held && snapshot.template(*id).is_none(),
            Intent::App(Action::ReplaceTemplate { id, with }) => held && match snapshot.template(
                *id,
            ) {
                Some(template) => same_text(template.name.as_str(), with.name.as_str())
                    && same_text(template.body.as_str(), with.body.as_str()),
                None => true,
            },
            _ => false,
        }
    }
}

// ── how big a dialog is ────────────────────────────────────────────────────

/// Widest a dialog gets, so a long message wraps rather than spanning a
/// forty-inch terminal in one line.
pub const MODAL_WIDTH: u16 = 60;

/// A block in the middle of an area.
pub open spec fn centred(area: Rect, width: u16, height: u16) -> Rect {
    Rect::cut(
        (area.x + less(area.width as int, width as int) / 2) as u16,
        (area.y + less(area.height as int, height as int) / 2) as u16,
        least(width as int, area.width as int),
        least(height as int, area.height as int),
    )
}

fn centre(area: Rect, width: u16, height: u16) -> (r: Rect)
    requires
        area.fits(),
    ensures
        r == centred(area, width, height),
        r.fits(),
        r.within(area),
{
    Rect::new(
        area.x + area.width.saturating_sub(width) / 2,
        area.y + area.height.saturating_sub(height) / 2,
        min_u16(width, area.width),
        min_u16(height, area.height),
    )
}

/// How many more lines a word wider than a line takes, and how much of the
/// last of them.
pub open spec fn broken(rows: int, used: int, width: int) -> (int, int)
    decreases used,
{
    if width <= 0 || used <= width {
        (rows, used)
    } else {
        broken(least(rows + 1, u16::MAX as int), used - width, width)
    }
}

/// A word put after the `rows` that are begun and the `used` columns of the
/// last of them: on that row if it fits there, and else on one of its own. The
/// first word has its row to itself already.
pub open spec fn placed(first: bool, wide: int, width: int, rows: int, used: int) -> (int, int) {
    // Every word but the first carries the space before it.
    let together = least(used + 1 + wide, u16::MAX as int);
    if first {
        broken(rows, wide, width)
    } else if together <= width {
        (rows, together)
    } else {
        broken(least(rows + 1, u16::MAX as int), wide, width)
    }
}

/// Rows that words need from one of them on, with `rows` begun and `used`
/// columns of the last of them taken.
pub open spec fn rows_from(
    words: Seq<Seq<char>>,
    width: int,
    from: int,
    rows: int,
    used: int,
) -> int
    decreases words.len() - from,
{
    if from < 0 || from >= words.len() {
        rows
    } else {
        let wide = display_columns(words[from]) as int;
        let (rows, used) = placed(from == 0, wide, width, rows, used);
        rows_from(words, width, from + 1, rows, used)
    }
}

/// Rows that a text needs once wrapped to a width.
pub open spec fn text_rows(text: Seq<char>, width: u16) -> int {
    if width == 0 {
        1
    } else {
        rows_from(pieces(text, ' '), width as int, 0, 1, 0)
    }
}

/// Rows `text` needs once wrapped to `width`.
///
/// Lines break between words, so dividing the total width by `width`
/// under-counts: a message made of long words leaves the tail of each line
/// empty and takes more rows than its columns divided by the width. The dialog
/// is sized from this and does not scroll, so under-counting silently cuts the
/// end off the message. The text has already been sanitised, so there are no
/// newlines left to break on.
pub fn wrapped_rows(text: &str, width: u16) -> (r: u16)
    ensures
        r == text_rows(text@, width),
{
    if width == 0 {
        return 1;
    }
    let words: Vec<String> = split(text, ' ');
    let ghost all = pieces(text@, ' ');
    let mut rows: u16 = 1;
    let mut used: u16 = 0;
    let mut i: usize = 0;
    proof {
        assert(texts(words@).len() == words@.len());
    }
    while i < words.len()
        invariant
            i <= words@.len(),
            width > 0,
            texts(words@) == all,
            words@.len() == all.len(),
            rows_from(all, width as int, 0, 1, 0) == rows_from(
                all,
                width as int,
                i as int,
                rows as int,
                used as int,
            ),
        decreases words@.len() - i,
    {
        proof {
            assert(texts(words@)[i as int] == words@[i as int]@);
        }
        let word_width: u16 = display_width(words[i].as_str());
        let together: u16 = used.saturating_add(1).saturating_add(word_width);
        if i > 0 && together <= width {
            used = together;
        } else {
            // It starts a line of its own, and is broken across lines of its
            // own if it is wider than one. The first one is on such a line
            // already: counting another would leave an empty row above it.
            let begun: u16 = if i == 0 { rows } else { rows.saturating_add(1) };
            let (more, left) = break_word(begun, word_width, width);
            rows = more;
            used = left;
        }
        i += 1;
    }
    rows
}

fn break_word(rows: u16, used: u16, width: u16) -> (r: (u16, u16))
    requires
        width > 0,
    ensures
        (r.0 as int, r.1 as int) == broken(rows as int, used as int, width as int),
{
    let mut more: u16 = rows;
    let mut left: u16 = used;
    while left > width
        invariant
            width > 0,
            broken(rows as int, used as int, width as int) == broken(
                more as int,
                left as int,
                width as int,
            ),
        decreases left,
    {
        more = more.saturating_add(1);
        left = left - width;
    }
    (more, left)
}

/// Whether one way of setting the same words has come further down than
/// another: more rows, or as many with more of the last one taken. Rows are
/// counted no further than the count goes.
pub open spec fn further_down(rows: int, used: int, than_rows: int, than_used: int) -> bool {
    rows == u16::MAX || rows > than_rows || rows == than_rows && used >= than_used
}

proof fn breaking_takes_no_rows_back(rows: int, used: int, width: int)
    requires
        width > 0,
        0 <= used,
        0 <= rows <= u16::MAX,
    ensures
        rows <= broken(rows, used, width).0 <= u16::MAX,
        0 <= broken(rows, used, width).1,
        used > width ==> broken(rows, used, width).0 >= least(rows + 1, u16::MAX as int),
    decreases used,
{
    if used > width {
        breaking_takes_no_rows_back(least(rows + 1, u16::MAX as int), used - width, width);
    }
}

proof fn a_narrower_box_breaks_a_word_further_down(
    rows: int,
    used: int,
    narrow: int,
    other_rows: int,
    other_used: int,
    wide: int,
)
    requires
        0 < narrow <= wide,
        0 <= other_used <= used,
        0 <= other_rows <= rows <= u16::MAX,
    ensures
        further_down(
            broken(rows, used, narrow).0,
            broken(rows, used, narrow).1,
            broken(other_rows, other_used, wide).0,
            broken(other_rows, other_used, wide).1,
        ),
    decreases used,
{
    if other_used > wide {
        a_narrower_box_breaks_a_word_further_down(
            least(rows + 1, u16::MAX as int),
            used - narrow,
            narrow,
            least(other_rows + 1, u16::MAX as int),
            other_used - wide,
            wide,
        );
    } else {
        breaking_takes_no_rows_back(rows, used, narrow);
    }
}

proof fn a_narrower_box_sets_words_further_down(
    words: Seq<Seq<char>>,
    narrow: int,
    wide: int,
    from: int,
    rows: int,
    used: int,
    other_rows: int,
    other_used: int,
)
    requires
        0 < narrow <= wide <= u16::MAX,
        0 <= from,
        0 <= rows <= u16::MAX,
        0 <= other_rows <= u16::MAX,
        0 <= used,
        0 <= other_used,
        from == 0 ==> rows == other_rows && used == other_used,
        further_down(rows, used, other_rows, other_used),
    ensures
        rows_from(words, narrow, from, rows, used) >= rows_from(
            words,
            wide,
            from,
            other_rows,
            other_used,
        ),
        rows_from(words, wide, from, other_rows, other_used) <= u16::MAX,
    decreases words.len() - from,
{
    if from < words.len() {
        let word = display_columns(words[from]) as int;
        let next = least(rows + 1, u16::MAX as int);
        let other_next = least(other_rows + 1, u16::MAX as int);
        breaking_takes_no_rows_back(rows, word, narrow);
        breaking_takes_no_rows_back(next, word, narrow);
        breaking_takes_no_rows_back(other_rows, word, wide);
        breaking_takes_no_rows_back(other_next, word, wide);
        if from == 0 {
            a_narrower_box_breaks_a_word_further_down(rows, word, narrow, rows, word, wide);
        } else if rows >= other_rows {
            a_narrower_box_breaks_a_word_further_down(next, word, narrow, other_next, word, wide);
        }
        let (a, u) = placed(from == 0, word, narrow, rows, used);
        let (b, v) = placed(from == 0, word, wide, other_rows, other_used);
        a_narrower_box_sets_words_further_down(words, narrow, wide, from + 1, a, u, b, v);
    }
}

/// A narrower box never takes fewer rows for the same text.
pub proof fn a_narrower_box_takes_no_fewer_rows(text: Seq<char>, narrow: u16, wide: u16)
    requires
        0 < narrow <= wide,
    ensures
        text_rows(text, narrow) >= text_rows(text, wide),
{
    a_narrower_box_sets_words_further_down(
        pieces(text, ' '),
        narrow as int,
        wide as int,
        0,
        1,
        0,
        1,
        0,
    );
}

// ── a dialog ───────────────────────────────────────────────────────────────

/// What a dialog is drawn in.
pub open spec fn dialog_color(grave: bool) -> Color {
    if grave {
        Color::Red
    } else {
        Color::Cyan
    }
}

pub open spec fn button_style(grave: bool) -> Style {
    Style::colored(Color::Black).on(dialog_color(grave)).in_bold()
}

/// Where the way out of a dialog is.
pub open spec fn dismiss_place(inner: Rect) -> Rect {
    let width = display_columns(" Dismiss "@);
    Rect::cut(
        (inner.x + less(inner.width as int, width as int)) as u16,
        less(inner.bottom_edge(), 1) as u16,
        least(width as int, inner.width as int),
        1,
    )
}

/// A frame with the first `n` answers of a dialog on it, each to the left of
/// the one after it. One that there is no room for ends them.
pub open spec fn choices_drawn(
    c: CanvasView,
    inner: Rect,
    dialog: ModalView,
    x: int,
    n: int,
) -> CanvasView
    decreases n,
{
    if n <= 0 {
        c
    } else {
        let label = spaced(sanitised(dialog.choices[n - 1].label));
        let width = display_columns(label);
        let left = x - 1 - width;
        if left < inner.x {
            c
        } else {
            let button = Rect::cut(
                left as u16,
                less(inner.bottom_edge(), 1) as u16,
                width as int,
                1,
            );
            choices_drawn(
                c.hit(
                    button,
                    Z_MODAL,
                    Target::Button(ButtonId::ModalChoice { index: (n - 1) as usize }),
                ).said(button, label, button_style(dialog.grave)),
                inner,
                dialog,
                left,
                n - 1,
            )
        }
    }
}

/// Where a dialog is.
pub open spec fn dialog_place(area: Rect, dialog: ModalView) -> Rect {
    let width = least(MODAL_WIDTH as int, area.width as int);
    let rows = text_rows(sanitised(dialog.body), less(width, 2) as u16);
    let height = least(least(rows + 4, u16::MAX as int), area.height as int);
    centred(area, width as u16, height as u16)
}

/// A frame with what a dialog says inside its border.
pub open spec fn inside_drawn(c: CanvasView, inner: Rect, dialog: ModalView) -> CanvasView {
    let button = dismiss_place(inner);
    choices_drawn(
        c.painted(
            PaintView::Text {
                area: Rect { height: less(inner.height as int, 2) as u16, ..inner },
                lines: seq![seq![raw(sanitised(dialog.body))]],
                style: Style::plain(),
                overflow: Overflow::Wrap,
                scroll: 0,
            },
        ).hit(button, Z_MODAL, Target::Button(ButtonId::DismissModal)).said(
            button,
            " Dismiss "@,
            button_style(dialog.grave),
        ),
        inner,
        dialog,
        button.x as int,
        dialog.choices.len() as int,
    )
}

/// A frame with a dialog on it.
pub open spec fn modal_drawn(c: CanvasView, area: Rect, dialog: ModalView) -> CanvasView {
    let rect = dialog_place(area, dialog);
    let color = dialog_color(dialog.grave);
    let boxed = c.hit(area, Z_BACKDROP, Target::Backdrop).hit(
        rect,
        Z_MODAL,
        Target::Modal,
    ).cleared(rect).boxed(
        rect,
        BorderKind::Rounded,
        Style::colored(color),
        Some(styled(spaced(sanitised(dialog.title)), Style::colored(color).in_bold())),
    );
    let inner = rect.bordered();
    if inner.height == 0 {
        boxed
    } else {
        inside_drawn(boxed, inner, dialog)
    }
}

/// Draw a dialog over everything else.
pub fn modal(canvas: &mut Canvas, area: Rect, dialog: &Modal)
    requires
        area.fits(),
    ensures
        final(canvas)@ == modal_drawn(old(canvas)@, area, dialog@),
{
    // Everything, so nothing behind can be clicked.
    canvas.hit(area, Z_BACKDROP, Target::Backdrop);

    let width: u16 = min_u16(MODAL_WIDTH, area.width);
    let body: String = sanitise(dialog.body.as_str());
    // Two rows of border, one for the button, one to breathe.
    let text_rows: u16 = wrapped_rows(body.as_str(), width.saturating_sub(2));
    let height: u16 = min_u16(text_rows.saturating_add(4), area.height);
    let rect: Rect = centre(area, width, height);

    canvas.hit(rect, Z_MODAL, Target::Modal);
    canvas.clear(rect);
    let colour: Color = if dialog.grave {
        Color::Red
    } else {
        Color::Cyan
    };
    let title: String = padded(sanitise(dialog.title.as_str()).as_str());
    canvas.border(
        rect,
        BorderKind::Rounded,
        Style::of(colour),
        Some(Span::styled(title, Style::of(colour).bold())),
    );
    let inner: Rect = rect.inner();
    if inner.height == 0 {
        return ;
    }
    fill_modal(canvas, inner, body, dialog, colour);
}

fn fill_modal(canvas: &mut Canvas, inner: Rect, body: String, dialog: &Modal, colour: Color)
    requires
        inner.fits(),
        inner.height > 0,
        body@ == sanitised(dialog.body@),
        colour == dialog_color(dialog.grave),
    ensures
        final(canvas)@ == inside_drawn(old(canvas)@, inner, dialog@),
{
    let text_area: Rect = Rect {
        x: inner.x,
        y: inner.y,
        width: inner.width,
        height: inner.height.saturating_sub(2),
    };
    let words: Span = Span::raw(body);
    let ghost said = words@;
    let line: Line = Line::of(vec![words]);
    proof {
        assert(line@ =~= seq![said]);
    }
    let lines: Vec<Line> = vec![line];
    proof {
        assert(views(lines@) =~= seq![seq![said]]);
    }
    canvas.paint(
        Paint::Text {
            area: text_area,
            lines,
            style: Style::new(),
            overflow: Overflow::Wrap,
            scroll: 0,
        },
    );

    // A dialog reachable only by `Esc` is one a pointer cannot leave.
    let style: Style = Style::of(Color::Black).bg(colour).bold();
    let button_width: u16 = display_width(" Dismiss ");
    let y: u16 = inner.bottom().saturating_sub(1);
    let button: Rect = Rect::new(
        inner.x + inner.width.saturating_sub(button_width),
        y,
        min_u16(button_width, inner.width),
        1,
    );
    canvas.hit(button, Z_MODAL, Target::Button(ButtonId::DismissModal));
    canvas.say(button, " Dismiss ", style);

    let ghost start = canvas@;
    let mut x: u16 = button.x;
    let mut n: usize = dialog.choices.len();
    let mut room: bool = true;
    while n > 0 && room
        invariant
            n <= dialog.choices@.len(),
            inner.fits(),
            y == less(inner.bottom_edge(), 1),
            style == button_style(dialog.grave),
            choices_drawn(
                start,
                inner,
                dialog@,
                button.x as int,
                dialog.choices@.len() as int,
            ) == (if room {
                choices_drawn(canvas@, inner, dialog@, x as int, n as int)
            } else {
                canvas@
            }),
        decreases
                n,
                (if room {
                    1int
                } else {
                    0int
                }),
    {
        proof {
            assert(dialog@.choices[n - 1] == dialog.choices@[n - 1]@);
        }
        let label: String = padded(sanitise(dialog.choices[n - 1].label.as_str()).as_str());
        let width: u16 = display_width(label.as_str());
        if (x as u32) < inner.x as u32 + 1 + width as u32 {
            room = false;
        } else {
            x = x - 1 - width;
            let choice: Rect = Rect::new(x, y, width, 1);
            canvas.hit(
                choice,
                Z_MODAL,
                Target::Button(ButtonId::ModalChoice { index: n - 1 }),
            );
            canvas.say(choice, label.as_str(), style);
            n -= 1;
        }
    }
}

/// The targets a dialog has.
pub open spec fn of_a_dialog() -> spec_fn(Target) -> bool {
    |t: Target|
        t is Backdrop || t is Modal || t == Target::Button(ButtonId::DismissModal) || (t matches
            Target::Button(button) && button is ModalChoice)
}

proof fn choices_record_choices(
    base: Seq<Hit>,
    c: CanvasView,
    inner: Rect,
    dialog: ModalView,
    x: int,
    n: int,
)
    requires
        extends(base, c.hits, of_a_dialog()),
    ensures
        extends(base, choices_drawn(c, inner, dialog, x, n).hits, of_a_dialog()),
    decreases n,
{
    if n > 0 {
        let label = spaced(sanitised(dialog.choices[n - 1].label));
        let width = display_columns(label);
        let left = x - 1 - width;
        if left >= inner.x {
            let button = Rect::cut(
                left as u16,
                less(inner.bottom_edge(), 1) as u16,
                width as int,
                1,
            );
            let next = c.hit(
                button,
                Z_MODAL,
                Target::Button(ButtonId::ModalChoice { index: (n - 1) as usize }),
            ).said(button, label, button_style(dialog.grave));
            choices_record_choices(base, next, inner, dialog, left, n - 1);
        }
    }
}

/// While a dialog is up, nothing behind it can be reached: a click anywhere on
/// the screen is on the dialog, on one of its answers, or on the backdrop that
/// dismisses it.
pub proof fn nothing_behind_a_dialog_is_reached(
    c: CanvasView,
    area: Rect,
    dialog: ModalView,
    at: Position,
)
    requires
        all_below(c.hits, Z_BACKDROP),
        area.covers(at),
    ensures
        target_at(modal_drawn(c, area, dialog).hits, at) matches Some(found) && of_a_dialog()(
            found,
        ),
{
    let rect = dialog_place(area, dialog);
    let color = dialog_color(dialog.grave);
    let behind = c.hit(area, Z_BACKDROP, Target::Backdrop);
    let boxed = behind.hit(rect, Z_MODAL, Target::Modal).cleared(rect).boxed(
        rect,
        BorderKind::Rounded,
        Style::colored(color),
        Some(styled(spaced(sanitised(dialog.title)), Style::colored(color).in_bold())),
    );
    let inner = rect.bordered();
    let over = c.hits.len() as int;
    assert(behind.hits[over].rect == area);
    let all = modal_drawn(c, area, dialog).hits;
    assert(extends(behind.hits, boxed.hits, of_a_dialog()));
    if inner.height > 0 {
        let button = dismiss_place(inner);
        let filled = boxed.painted(
            PaintView::Text {
                area: Rect { height: less(inner.height as int, 2) as u16, ..inner },
                lines: seq![seq![raw(sanitised(dialog.body))]],
                style: Style::plain(),
                overflow: Overflow::Wrap,
                scroll: 0,
            },
        ).hit(button, Z_MODAL, Target::Button(ButtonId::DismissModal)).said(
            button,
            " Dismiss "@,
            button_style(dialog.grave),
        );
        assert(extends(behind.hits, filled.hits, of_a_dialog()));
        choices_record_choices(
            behind.hits,
            filled,
            inner,
            dialog,
            button.x as int,
            dialog.choices.len() as int,
        );
    }
    assert(extends(behind.hits, all, of_a_dialog()));
    assert(extends(c.hits, all, of_a_dialog())) by {
        assert forall|j: int| 0 <= j < c.hits.len() implies #[trigger] all[j] == c.hits[j] by {
            assert(all[j] == behind.hits[j]);
        }
        assert forall|j: int| c.hits.len() <= j < all.len() implies of_a_dialog()(
            (#[trigger] all[j]).target,
        ) by {
            if j < behind.hits.len() {
                assert(all[j] == behind.hits[j]);
            }
        }
    }
    assert(all[over] == behind.hits[over]);
    nothing_underneath_is_found(c.hits, all, of_a_dialog(), Z_BACKDROP, over, at);
}

// ── messages ───────────────────────────────────────────────────────────────

/// The colour of a message, and its badge.
pub open spec fn badge_of(severity: Severity) -> (Color, Seq<char>) {
    match severity {
        Severity::Info => (Color::Cyan, "i"@),
        Severity::Warning => (Color::Yellow, "!"@),
        Severity::Error => (Color::Red, "✕"@),
    }
}

fn badge(severity: Severity) -> (r: (Color, String))
    ensures
        (r.0, r.1@) == badge_of(severity),
{
    match severity {
        Severity::Info => (Color::Cyan, copy_of("i")),
        Severity::Warning => (Color::Yellow, copy_of("!")),
        Severity::Error => (Color::Red, copy_of("✕")),
    }
}

/// What a message says.
pub open spec fn toast_spans(width: int, toast: ToastView) -> Seq<SpanView> {
    let (color, mark) = badge_of(toast.severity);
    let room = less(width, display_columns(mark) + 3) as u16;
    seq![
        styled(spaced(mark), Style::colored(Color::Black).on(color).in_bold()),
        styled(" "@ + fitted(sanitised(toast.text), room), Style::colored(color)),
    ]
}

/// A frame with one message on it.
pub open spec fn toast_drawn(c: CanvasView, rect: Rect, width: int, toast: ToastView) -> CanvasView {
    c.hit(rect, Z_CHROME, Target::Toast(toast.id)).cleared(rect).lined(
        rect,
        toast_spans(width, toast),
        Style::plain(),
    )
}

/// A frame with the first `n` messages on it, the last of them above `y` and
/// each above the one after it.
pub open spec fn stack_drawn(
    c: CanvasView,
    area: Rect,
    toasts: Seq<ToastView>,
    y: int,
    n: int,
) -> CanvasView
    decreases n,
{
    if n <= 0 || y <= area.y {
        c
    } else {
        let width = least(MODAL_WIDTH as int, area.width as int);
        let rect = Rect::cut(
            less(area.right_edge(), width) as u16,
            (y - 1) as u16,
            width,
            1,
        );
        stack_drawn(
            toast_drawn(c, rect, width, toasts[n - 1]),
            area,
            toasts,
            y - 1,
            n - 1,
        )
    }
}

/// A frame with the messages on it.
pub open spec fn toasts_drawn(c: CanvasView, area: Rect, toasts: Seq<ToastView>) -> CanvasView {
    if area.height == 0 {
        c
    } else {
        stack_drawn(c, area, toasts, area.bottom_edge(), toasts.len() as int)
    }
}

/// Transient messages, newest at the bottom, stacked up from above the status
/// bar.
///
/// Above the content but below a dialog: a toast that covered a dialog would
/// hide the thing waiting for an answer.
pub fn toasts(canvas: &mut Canvas, area: Rect, toasts: &Vec<Toast>)
    ensures
        final(canvas)@ == toasts_drawn(old(canvas)@, area, views(toasts@)),
{
    if toasts.len() == 0 || area.height == 0 {
        return ;
    }
    let width: u16 = min_u16(MODAL_WIDTH, area.width);
    let x: u16 = area.right().saturating_sub(width);
    let mut y: u16 = area.bottom();
    let mut n: usize = toasts.len();
    let ghost all = views(toasts@);
    let ghost start = canvas@;
    // Newest last in the list, and newest nearest the bottom edge, so a new
    // message never shifts the ones already being read.
    while n > 0 && y > area.y
        invariant
            n <= toasts@.len(),
            all == views(toasts@),
            width == least(MODAL_WIDTH as int, area.width as int),
            x == less(area.right_edge(), width as int),
            stack_drawn(start, area, all, area.bottom_edge(), toasts@.len() as int) == stack_drawn(
                canvas@,
                area,
                all,
                y as int,
                n as int,
            ),
        decreases n,
    {
        proof {
            assert(all[n - 1] == toasts@[n - 1]@);
        }
        y -= 1;
        n -= 1;
        let toast: &Toast = &toasts[n];
        let rect: Rect = Rect::new(x, y, width, 1);
        canvas.hit(rect, Z_CHROME, Target::Toast(toast.id));
        canvas.clear(rect);

        let (colour, mark) = badge(toast.severity);
        let taken: u32 = display_width(mark.as_str()) as u32 + 3;
        let room: u16 = (width as u32).saturating_sub(taken) as u16;
        let mut text: String = copy_of(" ");
        push_all(&mut text, fit(sanitise(toast.text.as_str()).as_str(), room).as_str());
        let first: Span = Span::styled(
            padded(mark.as_str()),
            Style::of(Color::Black).bg(colour).bold(),
        );
        let second: Span = Span::styled(text, Style::of(colour));
        let ghost said = seq![first@, second@];
        let spans: Vec<Span> = vec![first, second];
        proof {
            assert(views(spans@) =~= said);
        }
        canvas.line(rect, spans, Style::new());
    }
}

} // verus!
