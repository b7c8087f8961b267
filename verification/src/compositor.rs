//! The compositor: which outlines are painted, with which style, and in
//! which order.
//!
//! The rasterizer that turns an outline into pixel coverage is a capability
//! outside this crate. The compositor records what it is to be given as a
//! display list: a sequence of draw operations that a front end replays on
//! the pixel buffer from first to last, each painted over what came before
//! it. Geometry that covers nothing never reaches the list.

use vstd::prelude::*;
use crate::geometry::UNIT;
use crate::outline::{closed_form, has_extent, is_closed, Command, Outline};

verus! {

/// A colour with red, green, blue and alpha components, each in `0..=UNIT`.
#[derive(Copy, Clone, Debug, PartialEq, Eq)]
pub struct Color {
    red: u32,
    green: u32,
    blue: u32,
    alpha: u32,
}

impl Color {
    #[verifier::type_invariant]
    spec fn inv(self) -> bool {
        &&& self.red <= UNIT
        &&& self.green <= UNIT
        &&& self.blue <= UNIT
        &&& self.alpha <= UNIT
    }

    /// The colour with the given components, in millionths.
    pub closed spec fn rgba(red: u32, green: u32, blue: u32, alpha: u32) -> Color {
        Color { red, green, blue, alpha }
    }

    /// The red component, as contracts see it.
    pub closed spec fn spec_red(self) -> u32 {
        self.red
    }

    /// The green component, as contracts see it.
    pub closed spec fn spec_green(self) -> u32 {
        self.green
    }

    /// The blue component, as contracts see it.
    pub closed spec fn spec_blue(self) -> u32 {
        self.blue
    }

    /// The alpha component, as contracts see it.
    pub closed spec fn spec_alpha(self) -> u32 {
        self.alpha
    }

    /// Whether four numbers are the components of a colour.
    pub open spec fn in_range(red: u32, green: u32, blue: u32, alpha: u32) -> bool {
        red <= UNIT && green <= UNIT && blue <= UNIT && alpha <= UNIT
    }

    /// The colour with the given components, in millionths; `None` when one
    /// of them exceeds `UNIT`.
    pub fn from_rgba(red: u32, green: u32, blue: u32, alpha: u32) -> (color: Option<Color>)
        ensures
            color is Some <==> Self::in_range(red, green, blue, alpha),
            color matches Some(c) ==> c == Self::rgba(red, green, blue, alpha) && c.spec_red()
                == red && c.spec_green() == green && c.spec_blue() == blue && c.spec_alpha()
                == alpha,
    {
        let unit: u32 = 1_000_000;
        if red <= unit && green <= unit && blue <= unit && alpha <= unit {
            Some(Color { red, green, blue, alpha })
        } else {
            None
        }
    }

    /// The red component, in `0..=UNIT`.
    pub fn red(&self) -> (c: u32)
        ensures
            c == self.spec_red(),
            c <= UNIT,
    {
        proof {
            use_type_invariant(self);
        }
        self.red
    }

    /// The green component, in `0..=UNIT`.
    pub fn green(&self) -> (c: u32)
        ensures
            c == self.spec_green(),
            c <= UNIT,
    {
        proof {
            use_type_invariant(self);
        }
        self.green
    }

    /// The blue component, in `0..=UNIT`.
    pub fn blue(&self) -> (c: u32)
        ensures
            c == self.spec_blue(),
            c <= UNIT,
    {
        proof {
            use_type_invariant(self);
        }
        self.blue
    }

    /// The alpha component, in `0..=UNIT`.
    pub fn alpha(&self) -> (c: u32)
        ensures
            c == self.spec_alpha(),
            c <= UNIT,
    {
        proof {
            use_type_invariant(self);
        }
        self.alpha
    }
}

/// Which points count as inside an outline that is filled.
#[derive(Copy, Clone, Debug, PartialEq, Eq, Structural)]
pub enum FillRule {
    /// Inside is where the signed number of edge crossings is not zero.
    Winding,
    /// Inside is where the number of edge crossings is odd.
    EvenOdd,
}

/// How coverage is painted.
#[derive(Copy, Clone, Debug, PartialEq, Eq)]
pub struct PaintStyle {
    pub color: Color,
    /// Whether edges are anti-aliased.
    pub anti_alias: bool,
    /// Whether the rasterizer is asked for its high-precision pipeline.
    pub high_quality: bool,
    pub fill_rule: FillRule,
}

/// How an outline is expanded to the boundary of its stroke.
#[derive(Copy, Clone, Debug, PartialEq, Eq, Structural)]
pub struct StrokeStyle {
    /// The width of the stroke in millionths of a pixel. A stroke of width
    /// zero covers nothing.
    pub width: u32,
}

/// One operation of the display list.
#[derive(Debug, PartialEq, Eq)]
pub enum DrawOp {
    /// The interior of a closed outline is painted.
    Fill { outline: Outline, paint: PaintStyle },
    /// The outline is expanded to the boundary of its stroke, which is a
    /// closed shape, and the interior of that is painted.
    StrokeThenFill { outline: Outline, stroke: StrokeStyle, paint: PaintStyle },
}

/// A draw operation as contracts see it: the outline by its commands.
pub enum DrawOpView {
    Fill { outline: Seq<Command>, paint: PaintStyle },
    StrokeThenFill { outline: Seq<Command>, stroke: StrokeStyle, paint: PaintStyle },
}

impl View for DrawOp {
    type V = DrawOpView;

    open spec fn view(&self) -> DrawOpView {
        match *self {
            DrawOp::Fill { outline, paint } => DrawOpView::Fill { outline: outline@, paint },
            DrawOp::StrokeThenFill { outline, stroke, paint } => DrawOpView::StrokeThenFill {
                outline: outline@,
                stroke,
                paint,
            },
        }
    }
}

/// Whether a draw operation reached the display list.
#[derive(Copy, Clone, Debug, PartialEq, Eq, Structural)]
pub enum DrawOutcome {
    /// The operation was recorded.
    Drawn,
    /// The geometry covers nothing, so nothing was recorded: the outline
    /// never leaves its starting point, or the stroke has no width.
    DegenerateGeometry,
}

/// The display list after `outline` is filled with `paint` on top of `ops`.
///
/// An outline that is not closed is filled as if it were: neither fill rule
/// needs an explicit closing command, so the recorded outline is the closed
/// form of the given one. An outline without extent is not recorded.
pub open spec fn spec_fill(ops: Seq<DrawOpView>, outline: Seq<Command>, paint: PaintStyle) -> Seq<
    DrawOpView,
> {
    if has_extent(outline) {
        ops.push(DrawOpView::Fill { outline: closed_form(outline), paint })
    } else {
        ops
    }
}

/// Whether stroking `outline` with `stroke` covers anything.
pub open spec fn stroke_covers(outline: Seq<Command>, stroke: StrokeStyle) -> bool {
    stroke.width > 0 && has_extent(outline)
}

/// The display list after `outline` is stroked with `stroke` and the stroke
/// filled with `paint` on top of `ops`. A stroke without width, or along an
/// outline without extent, is not recorded.
pub open spec fn spec_stroke_then_fill(
    ops: Seq<DrawOpView>,
    outline: Seq<Command>,
    stroke: StrokeStyle,
    paint: PaintStyle,
) -> Seq<DrawOpView> {
    if stroke_covers(outline, stroke) {
        ops.push(DrawOpView::StrokeThenFill { outline, stroke, paint })
    } else {
        ops
    }
}

/// The display list of one render target.
#[derive(Debug, PartialEq, Eq)]
pub struct Compositor {
    ops: Vec<DrawOp>,
}

impl View for Compositor {
    type V = Seq<DrawOpView>;

    closed spec fn view(&self) -> Seq<DrawOpView> {
        self.ops@.map_values(|op: DrawOp| op@)
    }
}

impl Compositor {
    /// A compositor that has painted nothing yet.
    pub fn new() -> (compositor: Compositor)
        ensures
            compositor@ == Seq::<DrawOpView>::empty(),
    {
        let compositor = Compositor { ops: Vec::new() };
        assert(compositor@ == Seq::<DrawOpView>::empty());
        compositor
    }

    /// The operations recorded so far, in the order in which they are to be
    /// painted.
    pub fn ops(&self) -> (ops: &Vec<DrawOp>)
        ensures
            ops@.len() == self@.len(),
            forall|i: int| 0 <= i < ops@.len() ==> (#[trigger] ops@[i])@ == self@[i],
    {
        &self.ops
    }

    /// The number of operations recorded so far.
    pub fn len(&self) -> (n: usize)
        ensures
            n == self@.len(),
    {
        self.ops.len()
    }

    /// Paints the interior of `outline` with `paint`, over everything painted
    /// before.
    pub fn fill(&mut self, outline: &Outline, paint: PaintStyle) -> (outcome: DrawOutcome)
        ensures
            final(self)@ == spec_fill(old(self)@, outline@, paint),
            outcome == if has_extent(outline@) {
                DrawOutcome::Drawn
            } else {
                DrawOutcome::DegenerateGeometry
            },
    {
        if outline.has_extent() {
            let closed = outline.closed();
            let op = DrawOp::Fill { outline: closed, paint };
            let ghost before = self.ops@;
            self.ops.push(op);
            assert(self.ops@.map_values(|op: DrawOp| op@) == before.map_values(
                |op: DrawOp| op@,
            ).push(op@));
            DrawOutcome::Drawn
        } else {
            DrawOutcome::DegenerateGeometry
        }
    }

    /// Expands `outline` to the boundary of a stroke of the given style and
    /// paints the interior of that with `paint`, over everything painted
    /// before. This is the only way in which a stroke is drawn.
    pub fn stroke_then_fill(&mut self, outline: &Outline, stroke: StrokeStyle, paint: PaintStyle) -> (outcome:
        DrawOutcome)
        ensures
            final(self)@ == spec_stroke_then_fill(old(self)@, outline@, stroke, paint),
            outcome == if stroke_covers(outline@, stroke) {
                DrawOutcome::Drawn
            } else {
                DrawOutcome::DegenerateGeometry
            },
    {
        if stroke.width > 0 && outline.has_extent() {
            let op = DrawOp::StrokeThenFill { outline: outline.clone(), stroke, paint };
            let ghost before = self.ops@;
            self.ops.push(op);
            assert(self.ops@.map_values(|op: DrawOp| op@) == before.map_values(
                |op: DrawOp| op@,
            ).push(op@));
            DrawOutcome::Drawn
        } else {
            DrawOutcome::DegenerateGeometry
        }
    }
}

/// A stroke of width zero paints nothing: the display list after it is the
/// display list before it, whatever the outline and the paint.
pub proof fn lemma_zero_width_stroke_is_noop(
    ops: Seq<DrawOpView>,
    outline: Seq<Command>,
    paint: PaintStyle,
)
    ensures
        spec_stroke_then_fill(ops, outline, (StrokeStyle { width: 0 }), paint) == ops,
{
}

/// Painting is cumulative: a draw operation never removes or reorders what
/// was recorded before it, and adds at most one operation at the end.
pub proof fn lemma_painting_is_cumulative(
    ops: Seq<DrawOpView>,
    outline: Seq<Command>,
    stroke: StrokeStyle,
    paint: PaintStyle,
)
    ensures
        ops.is_prefix_of(spec_fill(ops, outline, paint)),
        ops.is_prefix_of(spec_stroke_then_fill(ops, outline, stroke, paint)),
        spec_fill(ops, outline, paint).len() <= ops.len() + 1,
        spec_stroke_then_fill(ops, outline, stroke, paint).len() <= ops.len() + 1,
{
}

/// What is filled is always closed.
pub proof fn lemma_fill_records_closed_outline(
    ops: Seq<DrawOpView>,
    outline: Seq<Command>,
    paint: PaintStyle,
)
    requires
        has_extent(outline),
    ensures
        (spec_fill(ops, outline, paint).last() matches DrawOpView::Fill { outline: recorded, .. }
            && is_closed(recorded)),
{
}

} // verus!
