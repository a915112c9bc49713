//! The SQL tab's pane: the buffer, shown but not edited.
//!
//! Read-only on purpose. Editing happens in `$EDITOR` — the user's own
//! configuration, completion and key bindings — and this pane exists so that
//! what is about to run is visible without opening the editor to look at it.
//!
//! Nothing here is a text widget. Wrapping, a cursor and a selection are the
//! start of the editor this crate deliberately does not have, and a pane that
//! grew them would be a second, worse one.

use crate::geometry::{least, less, Rect};
use crate::grid::{sanitise, sanitised};
use crate::paint::{
    raw, styled, Canvas, CanvasView, Color, Line, Overflow, Paint, PaintView, Span, SpanView, Style,
};
use crate::search::views;
use crate::text::{blank, is_blank, lines, lines_of, texts};
use vstd::prelude::*;

verus! {

/// How many lines the buffer has, for the scrollbar and the clamp.
pub fn line_count(text: &str) -> (n: usize)
    ensures
        n == lines_of(text@).len(),
{
    let all: Vec<String> = lines(text);
    proof {
        assert(texts(all@).len() == all@.len());
    }
    all.len()
}

/// An empty buffer has no lines.
pub proof fn an_empty_buffer_has_no_lines()
    ensures
        lines_of(Seq::<char>::empty()).len() == 0,
{
}

// ── drawing ────────────────────────────────────────────────────────────────

/// How a line is drawn: in the colour of a mistake, where the server said that
/// the mistake is on it.
pub open spec fn line_drawn(line: Seq<char>, at: Option<usize>, number: int) -> Seq<SpanView> {
    if at matches Some(at) && at == number {
        seq![styled(sanitised(line), Style::colored(Color::Red).in_bold())]
    } else {
        seq![raw(sanitised(line))]
    }
}

/// The lines from one of them on, up to another. The first line of a statement
/// is its line one.
pub open spec fn buffer_drawn(
    lines: Seq<Seq<char>>,
    at: Option<usize>,
    from: int,
    to: int,
) -> Seq<Seq<SpanView>> {
    Seq::new(less(to, from) as nat, |i: int| line_drawn(lines[from + i], at, from + i + 1))
}

/// A frame with a buffer on it, or with the words for how to fill it.
pub open spec fn statement_drawn(
    c: CanvasView,
    area: Rect,
    text: Seq<char>,
    offset: usize,
    at: Option<usize>,
) -> CanvasView {
    if area.height == 0 {
        c
    } else if blank(text) {
        c.said(area, "Press e to write a query."@, Style::colored(Color::DarkGray).dimmed())
    } else {
        c.painted(
            PaintView::Text {
                area,
                lines: buffer_drawn(
                    lines_of(text),
                    at,
                    offset as int,
                    least(lines_of(text).len() as int, offset + area.height),
                ),
                style: Style::plain(),
                overflow: Overflow::Cut,
                scroll: 0,
            },
        )
    }
}

/// Draw the buffer into `area`.
///
/// `offset` is the first line drawn, so a buffer longer than the pane can be
/// scrolled through the same way everything else is. `at` is the line that the
/// server objected to.
pub fn render(canvas: &mut Canvas, area: Rect, text: &str, offset: usize, at: Option<usize>)
    ensures
        final(canvas)@ == statement_drawn(old(canvas)@, area, text@, offset, at),
{
    if area.height == 0 {
        return ;
    }
    if is_blank(text) {
        canvas.say(area, "Press e to write a query.", Style::of(Color::DarkGray).dim());
        return ;
    }
    // Cut to the pane rather than wrapped: a wrapped line makes "line 3" mean
    // two different things, and line 3 is what an error is about to point at.
    let all: Vec<String> = lines(text);
    let ghost held = lines_of(text@);
    let mut shown: Vec<Line> = Vec::new();
    let mut i: usize = offset;
    proof {
        assert(texts(all@).len() == all@.len());
        assert(views(shown@) =~= buffer_drawn(held, at, offset as int, offset as int));
    }
    while i < all.len() && i - offset < area.height as usize
        invariant
            offset <= i,
            i <= all@.len() || i == offset,
            i - offset <= area.height,
            texts(all@) == held,
            all@.len() == held.len(),
            views(shown@) == buffer_drawn(held, at, offset as int, i as int),
        decreases all@.len() - i,
    {
        proof {
            assert(texts(all@)[i as int] == all@[i as int]@);
        }
        let pointed: bool = match at {
            Some(at) => at == i + 1,
            None => false,
        };
        let line: String = sanitise(all[i].as_str());
        let span: Span = if pointed {
            Span::styled(line, Style::of(Color::Red).bold())
        } else {
            Span::raw(line)
        };
        let ghost said = span@;
        let spans: Vec<Span> = vec![span];
        proof {
            assert(views(spans@) =~= seq![said]);
        }
        let drawn: Line = Line::of(spans);
        let ghost was = views(shown@);
        let ghost added = drawn@;
        shown.push(drawn);
        proof {
            assert(views(shown@) =~= was.push(added));
            assert(added =~= line_drawn(held[i as int], at, i + 1));
            assert(was.push(added) =~= buffer_drawn(held, at, offset as int, i + 1));
        }
        i += 1;
    }
    proof {
        assert(buffer_drawn(held, at, offset as int, i as int) =~= buffer_drawn(
            held,
            at,
            offset as int,
            least(held.len() as int, offset + area.height),
        ));
    }
    canvas.paint(
        Paint::Text {
            area,
            lines: shown,
            style: Style::new(),
            overflow: Overflow::Cut,
            scroll: 0,
        },
    );
}

} // verus!
