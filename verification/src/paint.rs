//! What a frame is made of.
//!
//! Drawing code has every rectangle in hand while it draws, so it says two
//! things in one call: what is painted there, and what a click there is about.
//! Both are kept as plain values, in the order they were said. Putting the
//! paint on a terminal is somebody else's.

use crate::geometry::Rect;
use crate::hit::{recorded, Hit, HitMap, Target};
use crate::search::views;
use crate::text::copy_of;
use vstd::prelude::*;

verus! {

#[derive(Debug, Clone, Copy, PartialEq, Eq, Structural)]
pub enum Color {
    /// The terminal's own.
    Reset,
    Black,
    Red,
    Green,
    Yellow,
    Blue,
    Magenta,
    Cyan,
    Gray,
    DarkGray,
    LightBlue,
    White,
}

/// How something is painted. What is not said is left as it was.
#[derive(Debug, Clone, Copy, PartialEq, Eq, Structural)]
pub struct Style {
    pub fg: Option<Color>,
    pub bg: Option<Color>,
    pub bold: bool,
    pub dim: bool,
}

impl Style {
    /// Nothing said.
    pub open spec fn plain() -> Style {
        Style { fg: None, bg: None, bold: false, dim: false }
    }

    /// In a colour.
    pub open spec fn colored(color: Color) -> Style {
        Style { fg: Some(color), ..Self::plain() }
    }

    pub open spec fn on(self, color: Color) -> Style {
        Style { bg: Some(color), ..self }
    }

    pub open spec fn in_bold(self) -> Style {
        Style { bold: true, ..self }
    }

    pub open spec fn dimmed(self) -> Style {
        Style { dim: true, ..self }
    }

    /// One style over another.
    pub open spec fn under(self, over: Style) -> Style {
        Style {
            fg: if over.fg is Some {
                over.fg
            } else {
                self.fg
            },
            bg: if over.bg is Some {
                over.bg
            } else {
                self.bg
            },
            bold: self.bold || over.bold,
            dim: self.dim || over.dim,
        }
    }

    pub fn new() -> (r: Self)
        ensures
            r == Self::plain(),
    {
        Style { fg: None, bg: None, bold: false, dim: false }
    }

    pub fn of(color: Color) -> (r: Self)
        ensures
            r == Self::colored(color),
    {
        Style { fg: Some(color), bg: None, bold: false, dim: false }
    }

    pub fn fg(self, color: Color) -> (r: Self)
        ensures
            r == (Style { fg: Some(color), ..self }),
    {
        Style { fg: Some(color), bg: self.bg, bold: self.bold, dim: self.dim }
    }

    pub fn bg(self, color: Color) -> (r: Self)
        ensures
            r == self.on(color),
    {
        Style { fg: self.fg, bg: Some(color), bold: self.bold, dim: self.dim }
    }

    pub fn bold(self) -> (r: Self)
        ensures
            r == self.in_bold(),
    {
        Style { fg: self.fg, bg: self.bg, bold: true, dim: self.dim }
    }

    pub fn dim(self) -> (r: Self)
        ensures
            r == self.dimmed(),
    {
        Style { fg: self.fg, bg: self.bg, bold: self.bold, dim: true }
    }

    pub fn patch(self, over: Style) -> (r: Self)
        ensures
            r == self.under(over),
    {
        Style {
            fg: match over.fg {
                Some(color) => Some(color),
                None => self.fg,
            },
            bg: match over.bg {
                Some(color) => Some(color),
                None => self.bg,
            },
            bold: self.bold || over.bold,
            dim: self.dim || over.dim,
        }
    }
}

/// Characters painted alike.
#[derive(Debug, PartialEq, Eq)]
pub struct Span {
    pub text: String,
    pub style: Style,
}

pub struct SpanView {
    pub text: Seq<char>,
    pub style: Style,
}

impl View for Span {
    type V = SpanView;

    open spec fn view(&self) -> SpanView {
        SpanView { text: self.text@, style: self.style }
    }
}

/// Characters in a style.
pub open spec fn styled(text: Seq<char>, style: Style) -> SpanView {
    SpanView { text, style }
}

/// Characters in whatever style is there.
pub open spec fn raw(text: Seq<char>) -> SpanView {
    SpanView { text, style: Style::plain() }
}

impl Span {
    pub fn styled(text: String, style: Style) -> (r: Self)
        ensures
            r@ == styled(text@, style),
    {
        Span { text, style }
    }

    pub fn raw(text: String) -> (r: Self)
        ensures
            r@ == raw(text@),
    {
        Span { text, style: Style::new() }
    }
}

/// A line of text, from left to right.
#[derive(Debug, PartialEq, Eq)]
pub struct Line {
    pub spans: Vec<Span>,
}

impl View for Line {
    type V = Seq<SpanView>;

    open spec fn view(&self) -> Seq<SpanView> {
        views(self.spans@)
    }
}

impl Line {
    pub fn of(spans: Vec<Span>) -> (r: Self)
        ensures
            r@ == views(spans@),
    {
        Line { spans }
    }
}

/// What becomes of a line that is wider than its place.
#[derive(Debug, Clone, Copy, PartialEq, Eq, Structural)]
pub enum Overflow {
    /// It is cut at the edge.
    Cut,
    /// It goes on on the next line.
    Wrap,
    /// The same, without the spaces it would begin with.
    WrapTrimmed,
}

#[derive(Debug, Clone, Copy, PartialEq, Eq, Structural)]
pub enum BorderKind {
    Plain,
    Thick,
    Rounded,
}

/// Something painted.
#[derive(Debug, PartialEq, Eq)]
pub enum Paint {
    /// Lines of text, over a style that fills their place.
    Text { area: Rect, lines: Vec<Line>, style: Style, overflow: Overflow, scroll: u16 },
    /// A box along the inside of its place.
    Border { area: Rect, kind: BorderKind, style: Style, title: Option<Span> },
    /// What was painted there before goes.
    Clear { area: Rect },
}

#[verifier::ext_equal]
pub enum PaintView {
    Text {
        area: Rect,
        lines: Seq<Seq<SpanView>>,
        style: Style,
        overflow: Overflow,
        scroll: u16,
    },
    Border { area: Rect, kind: BorderKind, style: Style, title: Option<SpanView> },
    Clear { area: Rect },
}

impl View for Paint {
    type V = PaintView;

    open spec fn view(&self) -> PaintView {
        match *self {
            Paint::Text { area, lines, style, overflow, scroll } => PaintView::Text {
                area,
                lines: views(lines@),
                style,
                overflow,
                scroll,
            },
            Paint::Border { area, kind, style, title } => PaintView::Border {
                area,
                kind,
                style,
                title: match title {
                    Some(title) => Some(title@),
                    None => None,
                },
            },
            Paint::Clear { area } => PaintView::Clear { area },
        }
    }
}

/// A frame while it is drawn.
#[derive(Debug)]
pub struct Canvas {
    pub paints: Vec<Paint>,
    pub hits: HitMap,
}

/// What has been drawn of a frame.
#[verifier::ext_equal]
pub struct CanvasView {
    pub paints: Seq<PaintView>,
    pub hits: Seq<Hit>,
}

impl View for Canvas {
    type V = CanvasView;

    open spec fn view(&self) -> CanvasView {
        CanvasView { paints: views(self.paints@), hits: self.hits@ }
    }
}

impl CanvasView {
    /// Nothing yet.
    pub open spec fn blank() -> CanvasView {
        CanvasView { paints: Seq::empty(), hits: Seq::empty() }
    }

    pub open spec fn painted(self, paint: PaintView) -> CanvasView {
        CanvasView { paints: self.paints.push(paint), ..self }
    }

    /// With a rectangle that a click can land on.
    pub open spec fn hit(self, rect: Rect, z: u8, target: Target) -> CanvasView {
        CanvasView { hits: recorded(self.hits, rect, z, target), ..self }
    }

    pub open spec fn cleared(self, area: Rect) -> CanvasView {
        self.painted(PaintView::Clear { area })
    }

    /// With one line in a place, cut at its edge.
    pub open spec fn lined(self, area: Rect, spans: Seq<SpanView>, style: Style) -> CanvasView {
        self.painted(
            PaintView::Text {
                area,
                lines: seq![spans],
                style,
                overflow: Overflow::Cut,
                scroll: 0,
            },
        )
    }

    /// With one line in a place, all in one style.
    pub open spec fn said(self, area: Rect, text: Seq<char>, style: Style) -> CanvasView {
        self.lined(area, seq![raw(text)], style)
    }

    pub open spec fn boxed(
        self,
        area: Rect,
        kind: BorderKind,
        style: Style,
        title: Option<SpanView>,
    ) -> CanvasView {
        self.painted(PaintView::Border { area, kind, style, title })
    }
}

impl Canvas {
    pub fn new() -> (r: Self)
        ensures
            r@ == CanvasView::blank(),
    {
        let r: Canvas = Canvas { paints: Vec::new(), hits: HitMap::new() };
        proof {
            assert(r@ =~= CanvasView::blank());
        }
        r
    }

    pub fn paint(&mut self, paint: Paint)
        ensures
            final(self)@ == old(self)@.painted(paint@),
    {
        let ghost before = *self;
        let ghost said = paint@;
        self.paints.push(paint);
        proof {
            assert(self@.paints =~= before@.paints.push(said));
        }
    }

    /// Record what a click in a rectangle is about.
    pub fn hit(&mut self, rect: Rect, z: u8, target: Target)
        ensures
            final(self)@ == old(self)@.hit(rect, z, target),
    {
        self.hits.push(rect, z, target);
    }

    pub fn clear(&mut self, area: Rect)
        ensures
            final(self)@ == old(self)@.cleared(area),
    {
        self.paint(Paint::Clear { area });
    }

    /// One line, cut at the edge of its place.
    pub fn line(&mut self, area: Rect, spans: Vec<Span>, style: Style)
        ensures
            final(self)@ == old(self)@.lined(area, views(spans@), style),
    {
        let ghost said = views(spans@);
        let line: Line = Line::of(spans);
        let lines: Vec<Line> = vec![line];
        proof {
            assert(views(lines@) =~= seq![said]);
        }
        self.paint(Paint::Text { area, lines, style, overflow: Overflow::Cut, scroll: 0 });
    }

    /// One line, all in one style.
    pub fn say(&mut self, area: Rect, text: &str, style: Style)
        ensures
            final(self)@ == old(self)@.said(area, text@, style),
    {
        let span: Span = Span::raw(copy_of(text));
        let ghost said = span@;
        let spans: Vec<Span> = vec![span];
        proof {
            assert(views(spans@) =~= seq![said]);
        }
        self.line(area, spans, style);
    }

    pub fn border(&mut self, area: Rect, kind: BorderKind, style: Style, title: Option<Span>)
        ensures
            final(self)@ == old(self)@.boxed(
                area,
                kind,
                style,
                match title {
                    Some(title) => Some(title@),
                    None => None,
                },
            ),
    {
        self.paint(Paint::Border { area, kind, style, title });
    }
}

} // verus!
