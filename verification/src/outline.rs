//! The outline builder: from ordered points to a path of connected segment
//! commands that a rasterizer can fill or stroke.
//!
//! An outline visits its points in exactly the order in which they were
//! given. It is closed only where the shape is closed: a marker is, the body
//! of a curve never is.

use vstd::prelude::*;
use crate::error::RenderError;
use crate::geometry::PixelPoint;

verus! {

/// One segment command of an outline.
#[derive(Copy, Clone, Debug, PartialEq, Eq, Structural)]
pub enum Command {
    /// Starts the contour at a point.
    MoveTo(PixelPoint),
    /// A straight segment from the current point to a point.
    LineTo(PixelPoint),
    /// A cubic segment from the current point to the third point, leaving
    /// towards the first and arriving from the second.
    CubicTo(PixelPoint, PixelPoint, PixelPoint),
    /// A straight segment back to the start of the contour.
    Close,
}

/// A renderable path: segment commands in drawing order.
#[derive(Debug, PartialEq, Eq)]
pub struct Outline {
    commands: Vec<Command>,
}

impl View for Outline {
    type V = Seq<Command>;

    closed spec fn view(&self) -> Seq<Command> {
        self.commands@
    }
}

/// The control offset of a quarter circle of radius one, `4/3 (sqrt(2) - 1)`,
/// in millionths: a cubic segment between the two ends of a quarter circle
/// whose control points lie this far along the tangents meets the circle
/// again halfway.
pub const KAPPA: u64 = 552_285;

/// The distance of the control points of a quarter circle of radius `r`
/// from its ends, rounded down.
pub open spec fn control_offset(r: int) -> int {
    (r * KAPPA) / 1_000_000
}

/// The point `(x, y)` of pixel space.
pub open spec fn at(x: int, y: int) -> PixelPoint {
    PixelPoint { x: x as i64, y: y as i64 }
}

/// The outline of an open curve through `samples`: a move to the first
/// sample, then a line to each later sample, in order.
pub open spec fn polyline_commands(samples: Seq<PixelPoint>) -> Seq<Command> {
    Seq::new(
        samples.len(),
        |i: int|
            if i == 0 {
                Command::MoveTo(samples[i])
            } else {
                Command::LineTo(samples[i])
            },
    )
}

/// The outline of a marker of radius `r` around `(x, y)`: four cubic
/// segments, one quarter circle each, from the top of the circle through its
/// left, bottom and right back to the top, and a closing command. Each
/// segment leaves and arrives along the tangent of the circle.
pub open spec fn circle_commands(x: int, y: int, r: int) -> Seq<Command> {
    let k = control_offset(r);
    seq![
        Command::MoveTo(at(x, y - r)),
        Command::CubicTo(at(x - k, y - r), at(x - r, y - k), at(x - r, y)),
        Command::CubicTo(at(x - r, y + k), at(x - k, y + r), at(x, y + r)),
        Command::CubicTo(at(x + k, y + r), at(x + r, y + k), at(x + r, y)),
        Command::CubicTo(at(x + r, y - k), at(x + k, y - r), at(x, y - r)),
        Command::Close,
    ]
}

/// The outline of a diamond of half-diagonal `r` around `(x, y)`: from its
/// left corner through the top, right and bottom corners back to the left
/// one, and a closing command.
pub open spec fn diamond_commands(x: int, y: int, r: int) -> Seq<Command> {
    seq![
        Command::MoveTo(at(x - r, y)),
        Command::LineTo(at(x, y - r)),
        Command::LineTo(at(x + r, y)),
        Command::LineTo(at(x, y + r)),
        Command::LineTo(at(x - r, y)),
        Command::Close,
    ]
}

/// Whether a marker of radius `r` around `(x, y)` has all its coordinates
/// within 64 bits.
pub open spec fn marker_fits(x: i64, y: i64, r: u32) -> bool {
    &&& i64::MIN <= x - r
    &&& x + r <= i64::MAX
    &&& i64::MIN <= y - r
    &&& y + r <= i64::MAX
}

/// The number of `MoveTo` commands in `commands`.
pub open spec fn count_moves(commands: Seq<Command>) -> nat
    decreases commands.len(),
{
    if commands.len() == 0 {
        0
    } else {
        count_moves(commands.drop_last()) + if commands.last() is MoveTo {
            1nat
        } else {
            0nat
        }
    }
}

/// The number of `LineTo` commands in `commands`.
pub open spec fn count_lines(commands: Seq<Command>) -> nat
    decreases commands.len(),
{
    if commands.len() == 0 {
        0
    } else {
        count_lines(commands.drop_last()) + if commands.last() is LineTo {
            1nat
        } else {
            0nat
        }
    }
}

/// The number of `CubicTo` commands in `commands`.
pub open spec fn count_curves(commands: Seq<Command>) -> nat
    decreases commands.len(),
{
    if commands.len() == 0 {
        0
    } else {
        count_curves(commands.drop_last()) + if commands.last() is CubicTo {
            1nat
        } else {
            0nat
        }
    }
}

/// Whether `commands` end by closing the contour.
pub open spec fn is_closed(commands: Seq<Command>) -> bool {
    commands.len() > 0 && commands.last() is Close
}

/// Whether no command of `commands` closes the contour.
pub open spec fn never_closes(commands: Seq<Command>) -> bool {
    forall|i: int| 0 <= i < commands.len() ==> !(#[trigger] commands[i] is Close)
}

/// `commands`, closed: unchanged if they end by closing the contour, else
/// with a closing command at the end.
pub open spec fn closed_form(commands: Seq<Command>) -> Seq<Command> {
    if is_closed(commands) {
        commands
    } else {
        commands.push(Command::Close)
    }
}

/// Whether `command` leaves the pen at `p` without having left it.
pub open spec fn stays_at(command: Command, p: PixelPoint) -> bool {
    match command {
        Command::MoveTo(q) => q == p,
        Command::LineTo(q) => q == p,
        Command::CubicTo(a, b, q) => a == p && b == p && q == p,
        Command::Close => true,
    }
}

/// Whether a contour that starts with a move ever leaves its starting
/// point. One that does not covers nothing, filled or stroked.
pub open spec fn has_extent(commands: Seq<Command>) -> bool {
    &&& commands.len() > 0
    &&& commands[0] is MoveTo
    &&& exists|i: int|
        0 <= i < commands.len() && !stays_at(#[trigger] commands[i], commands[0]->MoveTo_0)
}

impl Outline {
    /// The commands of the outline, in drawing order.
    pub fn commands(&self) -> (commands: &Vec<Command>)
        ensures
            commands@ == self@,
    {
        &self.commands
    }

    /// Whether the outline ends by closing its contour.
    pub fn is_closed(&self) -> (closed: bool)
        ensures
            closed == is_closed(self@),
    {
        let n: usize = self.commands.len();
        if n == 0 {
            false
        } else {
            match self.commands[n - 1] {
                Command::Close => true,
                _ => false,
            }
        }
    }

    /// Whether the outline ever leaves its starting point.
    pub fn has_extent(&self) -> (extent: bool)
        ensures
            extent == has_extent(self@),
    {
        if self.commands.len() == 0 {
            return false;
        }
        let start: PixelPoint = match self.commands[0] {
            Command::MoveTo(p) => p,
            _ => {
                return false;
            },
        };
        let mut i: usize = 0;
        while i < self.commands.len()
            invariant
                i <= self.commands.len(),
                self.commands@.len() > 0,
                self.commands@[0] == Command::MoveTo(start),
                forall|k: int| 0 <= k < i ==> stays_at(#[trigger] self.commands@[k], start),
            decreases self.commands.len() - i,
        {
            let stays: bool = match self.commands[i] {
                Command::MoveTo(q) => q.x == start.x && q.y == start.y,
                Command::LineTo(q) => q.x == start.x && q.y == start.y,
                Command::CubicTo(a, b, q) => a.x == start.x && a.y == start.y && b.x == start.x
                    && b.y == start.y && q.x == start.x && q.y == start.y,
                Command::Close => true,
            };
            if !stays {
                assert(!stays_at(self.commands@[i as int], start));
                return true;
            }
            i += 1;
        }
        false
    }

    /// The outline, closed: a copy that ends with a closing command, which
    /// is added unless it is there already.
    pub fn closed(&self) -> (outline: Outline)
        ensures
            outline@ == closed_form(self@),
    {
        let mut outline = self.clone();
        if !self.is_closed() {
            outline.commands.push(Command::Close);
        }
        outline
    }
}

impl Clone for Outline {
    /// A copy of the outline, with the same commands.
    fn clone(&self) -> (outline: Outline)
        ensures
            outline@ == self@,
    {
        let commands = self.commands.clone();
        assert(commands@ == self.commands@);
        Outline { commands }
    }
}

/// Builds the outline of an open curve through `samples`: a move to the
/// first sample and a line to every later one, in order, never closed.
///
/// An empty sample sequence is a contract violation of the stage before and
/// gives `OutlineConstructionFailure`.
pub fn stroke_polyline(samples: &Vec<PixelPoint>) -> (outline: Result<Outline, RenderError>)
    ensures
        outline is Ok <==> samples@.len() >= 1,
        outline matches Ok(o) ==> o@ == polyline_commands(samples@),
        outline matches Err(e) ==> e == RenderError::OutlineConstructionFailure,
{
    if samples.len() == 0 {
        return Err(RenderError::OutlineConstructionFailure);
    }
    let mut commands: Vec<Command> = Vec::new();
    commands.push(Command::MoveTo(samples[0]));
    let mut i: usize = 1;
    while i < samples.len()
        invariant
            1 <= i <= samples.len(),
            commands@ == polyline_commands(samples@.take(i as int)),
        decreases samples.len() - i,
    {
        commands.push(Command::LineTo(samples[i]));
        i += 1;
        assert(commands@ == polyline_commands(samples@.take(i as int)));
    }
    assert(samples@.take(samples.len() as int) == samples@);
    Ok(Outline { commands })
}

/// Builds the closed outline of a circular marker of radius `r` around
/// `(x, y)`, out of four cubic segments.
///
/// All coordinates are millionths of a pixel; the marker must fit in 64
/// bits.
pub fn stroke_circle(x: i64, y: i64, r: u32) -> (outline: Outline)
    requires
        marker_fits(x, y, r),
    ensures
        outline@ == circle_commands(x as int, y as int, r as int),
{
    let k: i64 = ((r as u64 * KAPPA) / 1_000_000) as i64;
    let r: i64 = r as i64;
    let mut commands: Vec<Command> = Vec::new();
    commands.push(Command::MoveTo(PixelPoint { x, y: y - r }));
    commands.push(
        Command::CubicTo(
            PixelPoint { x: x - k, y: y - r },
            PixelPoint { x: x - r, y: y - k },
            PixelPoint { x: x - r, y },
        ),
    );
    commands.push(
        Command::CubicTo(
            PixelPoint { x: x - r, y: y + k },
            PixelPoint { x: x - k, y: y + r },
            PixelPoint { x, y: y + r },
        ),
    );
    commands.push(
        Command::CubicTo(
            PixelPoint { x: x + k, y: y + r },
            PixelPoint { x: x + r, y: y + k },
            PixelPoint { x: x + r, y },
        ),
    );
    commands.push(
        Command::CubicTo(
            PixelPoint { x: x + r, y: y - k },
            PixelPoint { x: x + k, y: y - r },
            PixelPoint { x, y: y - r },
        ),
    );
    commands.push(Command::Close);
    assert(commands@ == circle_commands(x as int, y as int, r as int));
    Outline { commands }
}

/// Builds the closed outline of a diamond-shaped marker of half-diagonal `r`
/// around `(x, y)`, out of four straight segments.
///
/// All coordinates are millionths of a pixel; the marker must fit in 64
/// bits.
pub fn stroke_diamond(x: i64, y: i64, r: u32) -> (outline: Outline)
    requires
        marker_fits(x, y, r),
    ensures
        outline@ == diamond_commands(x as int, y as int, r as int),
{
    let r: i64 = r as i64;
    let mut commands: Vec<Command> = Vec::new();
    commands.push(Command::MoveTo(PixelPoint { x: x - r, y }));
    commands.push(Command::LineTo(PixelPoint { x, y: y - r }));
    commands.push(Command::LineTo(PixelPoint { x: x + r, y }));
    commands.push(Command::LineTo(PixelPoint { x, y: y + r }));
    commands.push(Command::LineTo(PixelPoint { x: x - r, y }));
    commands.push(Command::Close);
    assert(commands@ == diamond_commands(x as int, y as int, r as int));
    Outline { commands }
}

/// The outline of an open curve keeps the order and the number of its
/// samples: `n >= 1` samples give exactly one move, to the first sample,
/// followed by `n - 1` lines, the `i`-th of them to sample `i`; there is no
/// other command, and the outline is never closed.
pub proof fn lemma_polyline_preserves_samples(samples: Seq<PixelPoint>)
    requires
        samples.len() >= 1,
    ensures
        polyline_commands(samples).len() == samples.len(),
        polyline_commands(samples)[0] == Command::MoveTo(samples[0]),
        forall|i: int|
            1 <= i < samples.len() ==> #[trigger] polyline_commands(samples)[i] == Command::LineTo(
                samples[i],
            ),
        count_moves(polyline_commands(samples)) == 1,
        count_lines(polyline_commands(samples)) == samples.len() - 1,
        count_curves(polyline_commands(samples)) == 0,
        never_closes(polyline_commands(samples)),
        !is_closed(polyline_commands(samples)),
    decreases samples.len(),
{
    let commands = polyline_commands(samples);
    if samples.len() == 1 {
        reveal_with_fuel(count_moves, 2);
        reveal_with_fuel(count_lines, 2);
        reveal_with_fuel(count_curves, 2);
        assert(commands.drop_last().len() == 0);
    } else {
        let shorter = samples.drop_last();
        lemma_polyline_preserves_samples(shorter);
        assert(commands.drop_last() == polyline_commands(shorter));
        assert(commands.last() == Command::LineTo(samples.last()));
    }
}

/// The outline of a circular marker is always closed: it is one move, four
/// curved segments and the closing command. Every segment ends on the
/// circle, at distance `r` from the centre along an axis, and the contour
/// returns to the point where it started.
pub proof fn lemma_circle_is_closed(x: int, y: int, r: int)
    ensures
        is_closed(circle_commands(x, y, r)),
        circle_commands(x, y, r).len() == 6,
        count_moves(circle_commands(x, y, r)) == 1,
        count_curves(circle_commands(x, y, r)) == 4,
        count_lines(circle_commands(x, y, r)) == 0,
        closed_form(circle_commands(x, y, r)) == circle_commands(x, y, r),
        circle_commands(x, y, r)[0] == Command::MoveTo(at(x, y - r)),
        circle_commands(x, y, r)[1]->CubicTo_2 == at(x - r, y),
        circle_commands(x, y, r)[2]->CubicTo_2 == at(x, y + r),
        circle_commands(x, y, r)[3]->CubicTo_2 == at(x + r, y),
        circle_commands(x, y, r)[4]->CubicTo_2 == at(x, y - r),
        r >= 0 ==> 0 <= control_offset(r) <= r,
{
    let c = circle_commands(x, y, r);
    lemma_counts_unfold(c);
    lemma_counts_unfold(c.drop_last());
    lemma_counts_unfold(c.drop_last().drop_last());
    lemma_counts_unfold(c.drop_last().drop_last().drop_last());
    lemma_counts_unfold(c.drop_last().drop_last().drop_last().drop_last());
    lemma_counts_unfold(c.drop_last().drop_last().drop_last().drop_last().drop_last());
    assert(c.drop_last().drop_last().drop_last().drop_last().drop_last().drop_last().len() == 0);
}

/// Eight times the point halfway along the cubic segment from `start` with
/// the control points `a` and `b` to `end`, relative to `(x, y)`.
pub open spec fn midpoint_times_eight(
    start: PixelPoint,
    a: PixelPoint,
    b: PixelPoint,
    end: PixelPoint,
    x: int,
    y: int,
) -> (int, int) {
    (start.x + 3 * a.x + 3 * b.x + end.x - 8 * x, start.y + 3 * a.y + 3 * b.y + end.y - 8 * y)
}

/// Whether a point, given as eight times its offset from the centre, lies
/// within one part in ten thousand of the circle of radius `r`, measured by
/// the square of its distance from the centre.
pub open spec fn near_circle(offset_times_eight: (int, int), r: int) -> bool {
    let d = offset_times_eight.0 * offset_times_eight.0 + offset_times_eight.1
        * offset_times_eight.1;
    9_999 * (64 * (r * r)) <= 10_000 * d <= 10_001 * (64 * (r * r))
}

/// A circular marker of five pixels' radius or more is round: besides the
/// four points where its segments meet, which lie on the circle exactly, the
/// point halfway along each segment lies within one part in ten thousand of
/// the circle.
pub proof fn lemma_circle_is_round(x: i64, y: i64, r: u32)
    requires
        marker_fits(x, y, r),
        r >= 5_000_000,
    ensures
        ({
            let c = circle_commands(x as int, y as int, r as int);
            let top = at(x as int, y - r);
            let left = at(x - r, y as int);
            let bottom = at(x as int, y + r);
            let right = at(x + r, y as int);
            &&& c[0] == Command::MoveTo(top)
            &&& c[1] matches Command::CubicTo(a, b, end) && end == left && near_circle(
                midpoint_times_eight(top, a, b, end, x as int, y as int),
                r as int,
            )
            &&& c[2] matches Command::CubicTo(a, b, end) && end == bottom && near_circle(
                midpoint_times_eight(left, a, b, end, x as int, y as int),
                r as int,
            )
            &&& c[3] matches Command::CubicTo(a, b, end) && end == right && near_circle(
                midpoint_times_eight(bottom, a, b, end, x as int, y as int),
                r as int,
            )
            &&& c[4] matches Command::CubicTo(a, b, end) && end == top && near_circle(
                midpoint_times_eight(right, a, b, end, x as int, y as int),
                r as int,
            )
        }),
{
    let r = r as int;
    let k = control_offset(r);
    let s = 4 * r + 3 * k;
    assert(5_656_854 * r <= 1_000_000 * s <= 5_656_855 * r);
    let lower = 5_656_854 * r;
    let upper = 5_656_855 * r;
    let scaled = 1_000_000 * s;
    assert(lower * lower <= scaled * scaled <= upper * upper) by (nonlinear_arith)
        requires
            0 <= lower <= scaled <= upper,
    ;
    assert(lower * lower == 31_999_997_177_316 * (r * r)) by (nonlinear_arith)
        requires
            lower == 5_656_854 * r,
    ;
    assert(upper * upper == 32_000_008_491_025 * (r * r)) by (nonlinear_arith)
        requires
            upper == 5_656_855 * r,
    ;
    assert(scaled * scaled == 1_000_000_000_000 * (s * s)) by (nonlinear_arith)
        requires
            scaled == 1_000_000 * s,
    ;
    assert((-s) * (-s) == s * s) by (nonlinear_arith);
    assert(near_circle((s, s), r));
    assert(near_circle((-s, s), r));
    assert(near_circle((s, -s), r));
    assert(near_circle((-s, -s), r));
}

/// One step of the three counts.
proof fn lemma_counts_unfold(commands: Seq<Command>)
    requires
        commands.len() > 0,
    ensures
        count_moves(commands) == count_moves(commands.drop_last()) + if commands.last() is MoveTo {
            1nat
        } else {
            0nat
        },
        count_lines(commands) == count_lines(commands.drop_last()) + if commands.last() is LineTo {
            1nat
        } else {
            0nat
        },
        count_curves(commands) == count_curves(commands.drop_last()) + if commands.last()
            is CubicTo {
            1nat
        } else {
            0nat
        },
{
}

/// A circular marker covers something exactly if its radius is not zero.
pub proof fn lemma_circle_extent(x: i64, y: i64, r: u32)
    requires
        marker_fits(x, y, r),
    ensures
        has_extent(circle_commands(x as int, y as int, r as int)) <==> r > 0,
{
    let c = circle_commands(x as int, y as int, r as int);
    let start = at(x as int, y - r);
    assert(c[0] == Command::MoveTo(start));
    if r > 0 {
        assert(!stays_at(c[1], start));
    } else {
        assert forall|i: int| 0 <= i < c.len() implies stays_at(#[trigger] c[i], start) by {
            if i == 0 {
            } else if i == 1 {
            } else if i == 2 {
            } else if i == 3 {
            } else if i == 4 {
            } else {
            }
        }
    }
}

/// The outline of an open curve covers something exactly if some sample
/// differs from the first.
pub proof fn lemma_polyline_extent(samples: Seq<PixelPoint>)
    ensures
        has_extent(polyline_commands(samples)) <==> exists|i: int|
            0 <= i < samples.len() && #[trigger] samples[i] != samples[0],
{
    let c = polyline_commands(samples);
    if has_extent(c) {
        let i = choose|i: int| 0 <= i < c.len() && !stays_at(#[trigger] c[i], c[0]->MoveTo_0);
        assert(samples[i] != samples[0]);
    }
    if exists|i: int| 0 <= i < samples.len() && #[trigger] samples[i] != samples[0] {
        let i = choose|i: int| 0 <= i < samples.len() && #[trigger] samples[i] != samples[0];
        assert(!stays_at(c[i], c[0]->MoveTo_0));
    }
}

} // verus!
