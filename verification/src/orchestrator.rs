//! The orchestrator: control points in, display list out.
//!
//! It maps curve space to pixel space, has the curve evaluated, builds the
//! outline of the curve body and of one marker per control point, and hands
//! them to the compositor in a fixed order: the curve first, then the
//! markers in the order of their control points, each marker's filling
//! before its ring.

use vstd::prelude::*;
use crate::compositor::{
    spec_fill,
    spec_stroke_then_fill,
    Color,
    Compositor,
    DrawOpView,
    FillRule,
    PaintStyle,
    StrokeStyle,
};
use crate::error::RenderError;
use crate::evaluator::{
    close_to,
    lemma_curve_ends_on_pinned_control_points,
    lemma_curve_is_nonempty,
    pins_end,
    pins_start,
    CurveEvaluator,
};
use crate::geometry::{Canvas, PixelPoint, Point, UNIT};
use crate::outline::{
    at,
    circle_commands,
    has_extent,
    lemma_circle_extent,
    lemma_circle_is_closed,
    marker_fits,
    polyline_commands,
    stroke_circle,
    stroke_polyline,
    Command,
};

verus! {

/// The paints and strokes of a scene.
#[derive(Copy, Clone, Debug, PartialEq, Eq)]
pub struct SceneStyle {
    /// The paint of the curve body.
    pub curve_paint: PaintStyle,
    /// The stroke of the curve body.
    pub curve_stroke: StrokeStyle,
    /// The paint that markers are filled with.
    pub marker_fill: PaintStyle,
    /// The paint of the ring around each marker.
    pub marker_paint: PaintStyle,
    /// The stroke of the ring around each marker.
    pub marker_stroke: StrokeStyle,
    /// The radius of a marker, in millionths of a pixel.
    pub marker_radius: u32,
}

impl SceneStyle {
    /// The style of a scene unless another is asked for: a white,
    /// anti-aliased curve four pixels wide; markers of radius five and a
    /// half, filled dark without anti-aliasing, each inside a light,
    /// anti-aliased ring two pixels wide.
    pub open spec fn spec_default() -> SceneStyle {
        SceneStyle {
            curve_paint: PaintStyle {
                color: Color::rgba(1_000_000, 1_000_000, 1_000_000, 1_000_000),
                anti_alias: true,
                high_quality: true,
                fill_rule: FillRule::Winding,
            },
            curve_stroke: StrokeStyle { width: 4_000_000 },
            marker_fill: PaintStyle {
                color: Color::rgba(200_000, 200_000, 200_000, 1_000_000),
                anti_alias: false,
                high_quality: false,
                fill_rule: FillRule::Winding,
            },
            marker_paint: PaintStyle {
                color: Color::rgba(800_000, 800_000, 800_000, 1_000_000),
                anti_alias: true,
                high_quality: true,
                fill_rule: FillRule::Winding,
            },
            marker_stroke: StrokeStyle { width: 2_000_000 },
            marker_radius: 5_500_000,
        }
    }
}

impl Default for SceneStyle {
    fn default() -> (style: SceneStyle)
        ensures
            style == SceneStyle::spec_default(),
    {
        let white = Color::from_rgba(1_000_000, 1_000_000, 1_000_000, 1_000_000).unwrap();
        let dark = Color::from_rgba(200_000, 200_000, 200_000, 1_000_000).unwrap();
        let light = Color::from_rgba(800_000, 800_000, 800_000, 1_000_000).unwrap();
        SceneStyle {
            curve_paint: PaintStyle {
                color: white,
                anti_alias: true,
                high_quality: true,
                fill_rule: FillRule::Winding,
            },
            curve_stroke: StrokeStyle { width: 4_000_000 },
            marker_fill: PaintStyle {
                color: dark,
                anti_alias: false,
                high_quality: false,
                fill_rule: FillRule::Winding,
            },
            marker_paint: PaintStyle {
                color: light,
                anti_alias: true,
                high_quality: true,
                fill_rule: FillRule::Winding,
            },
            marker_stroke: StrokeStyle { width: 2_000_000 },
            marker_radius: 5_500_000,
        }
    }
}

/// The pixel that a point of curve space falls on, in millionths of a
/// pixel: `x` scaled by the width, `y` flipped, because it grows upwards in
/// curve space and downwards in pixel space, and scaled by the height.
pub open spec fn spec_to_pixel(point: Point, canvas: Canvas) -> PixelPoint {
    at(point.x * canvas.spec_width(), (UNIT - point.y) * canvas.spec_height())
}

/// The pixels of a sequence of points, in the same order.
pub open spec fn pixels(points: Seq<Point>, canvas: Canvas) -> Seq<PixelPoint> {
    Seq::new(points.len(), |i: int| spec_to_pixel(points[i], canvas))
}

/// The outline of the marker of a control point.
pub open spec fn marker_commands(point: Point, canvas: Canvas, radius: u32) -> Seq<Command> {
    let center = spec_to_pixel(point, canvas);
    circle_commands(center.x as int, center.y as int, radius as int)
}

/// The display list after the body of the curve through `samples` is
/// painted on top of `ops`: its outline is stroked, and the stroke filled.
pub open spec fn curve_layer(
    ops: Seq<DrawOpView>,
    canvas: Canvas,
    samples: Seq<Point>,
    style: SceneStyle,
) -> Seq<DrawOpView> {
    spec_stroke_then_fill(
        ops,
        polyline_commands(pixels(samples, canvas)),
        style.curve_stroke,
        style.curve_paint,
    )
}

/// The display list after the marker of one control point is painted on top
/// of `ops`: the circle around the point is filled, then its ring is
/// stroked and filled.
pub open spec fn marker_layer(
    ops: Seq<DrawOpView>,
    canvas: Canvas,
    point: Point,
    style: SceneStyle,
) -> Seq<DrawOpView> {
    let outline = marker_commands(point, canvas, style.marker_radius);
    spec_stroke_then_fill(
        spec_fill(ops, outline, style.marker_fill),
        outline,
        style.marker_stroke,
        style.marker_paint,
    )
}

/// The display list after the markers of `points` are painted on top of
/// `ops`, in the order of the points.
pub open spec fn markers_layer(
    ops: Seq<DrawOpView>,
    canvas: Canvas,
    points: Seq<Point>,
    style: SceneStyle,
) -> Seq<DrawOpView>
    decreases points.len(),
{
    if points.len() == 0 {
        ops
    } else {
        marker_layer(
            markers_layer(ops, canvas, points.drop_last(), style),
            canvas,
            points.last(),
            style,
        )
    }
}

/// The display list after a whole scene is painted on top of `ops`: the
/// body of the curve through `samples`, then the markers of the control
/// points.
pub open spec fn scene(
    ops: Seq<DrawOpView>,
    canvas: Canvas,
    points: Seq<Point>,
    samples: Seq<Point>,
    style: SceneStyle,
) -> Seq<DrawOpView> {
    markers_layer(curve_layer(ops, canvas, samples, style), canvas, points, style)
}

/// What a render does: its result, and the display list that it leaves on
/// top of `ops`.
///
/// If the evaluator has a curve through `cvs`, the render succeeds and the
/// whole scene is painted. If it has none, the render fails with the error
/// of the evaluator and the display list stays as it was: there is no
/// partial output.
pub open spec fn spec_stroke_curve(
    ops: Seq<DrawOpView>,
    canvas: Canvas,
    evaluator: CurveEvaluator,
    cvs: Seq<Point>,
    evaluated: Seq<Point>,
    style: SceneStyle,
) -> (Result<(), RenderError>, Seq<DrawOpView>) {
    match evaluator.spec_curve(cvs, evaluated) {
        Ok(samples) => (Ok(()), scene(ops, canvas, cvs, samples, style)),
        Err(e) => (Err(e), ops),
    }
}

/// Maps a point of curve space to pixel space.
pub fn to_pixel(point: Point, canvas: &Canvas) -> (pixel: PixelPoint)
    ensures
        pixel == spec_to_pixel(point, *canvas),
        pixel.x == point.x * canvas.spec_width(),
        pixel.y == (UNIT - point.y) * canvas.spec_height(),
        canvas.is_target(),
{
    let width: i64 = canvas.width() as i64;
    let height: i64 = canvas.height() as i64;
    let x: i64 = point.x as i64;
    let flipped: i64 = 1_000_000 - point.y as i64;
    proof {
        lemma_pixel_in_range(point, *canvas);
    }
    PixelPoint { x: x * width, y: flipped * height }
}

/// Maps points of curve space to pixel space, keeping their order.
fn to_pixels(points: &Vec<Point>, canvas: &Canvas) -> (mapped: Vec<PixelPoint>)
    ensures
        mapped@ == pixels(points@, *canvas),
{
    let mut mapped: Vec<PixelPoint> = Vec::new();
    let mut i: usize = 0;
    while i < points.len()
        invariant
            i <= points.len(),
            mapped@ == pixels(points@.take(i as int), *canvas),
        decreases points.len() - i,
    {
        mapped.push(to_pixel(points[i], canvas));
        i += 1;
        assert(mapped@ == pixels(points@.take(i as int), *canvas));
    }
    assert(points@.take(points.len() as int) == points@);
    mapped
}

/// Paints the marker of one control point.
fn stroke_marker(compositor: &mut Compositor, canvas: &Canvas, point: Point, style: &SceneStyle)
    ensures
        final(compositor)@ == marker_layer(old(compositor)@, *canvas, point, *style),
{
    let center = to_pixel(point, canvas);
    proof {
        lemma_pixel_in_range(point, *canvas);
    }
    let outline = stroke_circle(center.x, center.y, style.marker_radius);
    let _ = compositor.fill(&outline, style.marker_fill);
    let _ = compositor.stroke_then_fill(&outline, style.marker_stroke, style.marker_paint);
}

/// Renders the curve through the control points `cvs` and a marker on each
/// of them.
///
/// `evaluated` is what the spline backend returned for the positions that
/// `evaluator` lists for `cvs`; under the linear basis it is not looked at.
///
/// Either the whole scene is painted, on top of what `compositor` holds, or
/// the render fails and nothing is painted:
///
/// - `InvalidControlPoints` for fewer than two control points, or fewer than
///   four under a cubic basis;
/// - `NonMonotonicKnots` for control points whose abscissae decrease, under a
///   cubic basis with inverse lookup;
/// - `OutlineConstructionFailure` for samples that are not those of the
///   curve that was asked for, or that do not start or end within one
///   millionth of a control point that pins that end of the curve.
pub fn stroke_curve(
    compositor: &mut Compositor,
    canvas: &Canvas,
    evaluator: &CurveEvaluator,
    cvs: &Vec<Point>,
    evaluated: &Vec<Point>,
    style: &SceneStyle,
) -> (rendered: Result<(), RenderError>)
    ensures
        (rendered, final(compositor)@) == spec_stroke_curve(
            old(compositor)@,
            *canvas,
            *evaluator,
            cvs@,
            evaluated@,
            *style,
        ),
{
    let samples = match evaluator.curve(cvs, evaluated) {
        Ok(samples) => samples,
        Err(e) => {
            return Err(e);
        },
    };
    proof {
        lemma_curve_is_nonempty(*evaluator, cvs@, evaluated@);
    }
    let path = match stroke_polyline(&to_pixels(&samples, canvas)) {
        Ok(path) => path,
        Err(e) => {
            return Err(e);
        },
    };
    let _ = compositor.stroke_then_fill(&path, style.curve_stroke, style.curve_paint);
    let ghost body = compositor@;
    let mut i: usize = 0;
    while i < cvs.len()
        invariant
            i <= cvs.len(),
            compositor@ == markers_layer(body, *canvas, cvs@.take(i as int), *style),
        decreases cvs.len() - i,
    {
        stroke_marker(compositor, canvas, cvs[i], style);
        i += 1;
        assert(cvs@.take(i as int).drop_last() == cvs@.take(i - 1));
    }
    assert(cvs@.take(cvs.len() as int) == cvs@);
    Ok(())
}

/// On a render target the pixel coordinates of every point are exactly the
/// scaled and flipped coordinates of the point, and a marker of any radius
/// around it fits in 64 bits.
pub proof fn lemma_pixel_in_range(point: Point, canvas: Canvas)
    requires
        canvas.is_target(),
    ensures
        spec_to_pixel(point, canvas).x == point.x * canvas.spec_width(),
        spec_to_pixel(point, canvas).y == (UNIT - point.y) * canvas.spec_height(),
        forall|r: u32|
            marker_fits(spec_to_pixel(point, canvas).x, spec_to_pixel(point, canvas).y, r),
{
    let x = point.x as int;
    let flipped = UNIT - point.y;
    let width = canvas.spec_width();
    let height = canvas.spec_height();
    assert(-0x8000_0000 * 0x100_0000 <= x * width <= 0x8000_0000 * 0x100_0000) by (nonlinear_arith)
        requires
            -0x8000_0000 <= x <= 0x8000_0000,
            1 <= width <= 0x100_0000,
    ;
    assert(-0x8010_0000 * 0x100_0000 <= flipped * height <= 0x8010_0000 * 0x100_0000)
        by (nonlinear_arith)
        requires
            -0x8010_0000 <= flipped <= 0x8010_0000,
            1 <= height <= 0x100_0000,
    ;
}

/// The markers of a scene whose markers cover something: every control
/// point adds exactly two operations, in the order of the control points,
/// first the filled circle around the point and then its ring; what was
/// painted before stays below them.
pub proof fn lemma_markers_in_order(
    ops: Seq<DrawOpView>,
    canvas: Canvas,
    points: Seq<Point>,
    style: SceneStyle,
)
    requires
        canvas.is_target(),
        style.marker_radius > 0,
        style.marker_stroke.width > 0,
    ensures
        ({
            let painted = markers_layer(ops, canvas, points, style);
            &&& painted.len() == ops.len() + 2 * points.len()
            &&& ops.is_prefix_of(painted)
            &&& forall|i: int|
                0 <= i < points.len() ==> {
                    let outline = marker_commands(#[trigger] points[i], canvas, style.marker_radius);
                    &&& painted[ops.len() + 2 * i] == (DrawOpView::Fill {
                        outline,
                        paint: style.marker_fill,
                    })
                    &&& painted[ops.len() + 2 * i + 1] == (DrawOpView::StrokeThenFill {
                        outline,
                        stroke: style.marker_stroke,
                        paint: style.marker_paint,
                    })
                }
        }),
    decreases points.len(),
{
    if points.len() > 0 {
        let before = markers_layer(ops, canvas, points.drop_last(), style);
        lemma_markers_in_order(ops, canvas, points.drop_last(), style);
        let center = spec_to_pixel(points.last(), canvas);
        lemma_pixel_in_range(points.last(), canvas);
        lemma_circle_extent(center.x, center.y, style.marker_radius);
        lemma_circle_is_closed(center.x as int, center.y as int, style.marker_radius as int);
        let painted = markers_layer(ops, canvas, points, style);
        assert(painted.len() == before.len() + 2);
        assert forall|i: int| 0 <= i < points.len() implies {
            let outline = marker_commands(#[trigger] points[i], canvas, style.marker_radius);
            &&& painted[ops.len() + 2 * i] == DrawOpView::Fill { outline, paint: style.marker_fill }
            &&& painted[ops.len() + 2 * i + 1] == DrawOpView::StrokeThenFill {
                outline,
                stroke: style.marker_stroke,
                paint: style.marker_paint,
            }
        } by {
            if i < points.len() - 1 {
                assert(points.drop_last()[i] == points[i]);
            }
        }
    }
}

/// The rendering order of a scene in which everything covers something:
/// on top of what was painted before comes the stroked body of the curve,
/// then for each control point, in order, its filled circle and then its
/// ring. Markers are therefore always painted over the curve, and each ring
/// over its own filling.
pub proof fn lemma_rendering_order(
    ops: Seq<DrawOpView>,
    canvas: Canvas,
    points: Seq<Point>,
    samples: Seq<Point>,
    style: SceneStyle,
)
    requires
        canvas.is_target(),
        style.curve_stroke.width > 0,
        style.marker_radius > 0,
        style.marker_stroke.width > 0,
        has_extent(polyline_commands(pixels(samples, canvas))),
    ensures
        ({
            let painted = scene(ops, canvas, points, samples, style);
            &&& painted.len() == ops.len() + 1 + 2 * points.len()
            &&& ops.is_prefix_of(painted)
            &&& painted[ops.len() as int] == (DrawOpView::StrokeThenFill {
                outline: polyline_commands(pixels(samples, canvas)),
                stroke: style.curve_stroke,
                paint: style.curve_paint,
            })
            &&& forall|i: int|
                0 <= i < points.len() ==> {
                    let outline = marker_commands(#[trigger] points[i], canvas, style.marker_radius);
                    &&& painted[ops.len() + 1 + 2 * i] == (DrawOpView::Fill {
                        outline,
                        paint: style.marker_fill,
                    })
                    &&& painted[ops.len() + 2 + 2 * i] == (DrawOpView::StrokeThenFill {
                        outline,
                        stroke: style.marker_stroke,
                        paint: style.marker_paint,
                    })
                }
        }),
{
    let body = curve_layer(ops, canvas, samples, style);
    lemma_markers_in_order(body, canvas, points, style);
    let painted = scene(ops, canvas, points, samples, style);
    assert(body.len() == ops.len() + 1);
    assert(painted[ops.len() as int] == body[ops.len() as int]);
    assert forall|i: int| 0 <= i < points.len() implies {
        let outline = marker_commands(#[trigger] points[i], canvas, style.marker_radius);
        &&& painted[ops.len() + 1 + 2 * i] == DrawOpView::Fill { outline, paint: style.marker_fill }
        &&& painted[ops.len() + 2 + 2 * i] == DrawOpView::StrokeThenFill {
            outline,
            stroke: style.marker_stroke,
            paint: style.marker_paint,
        }
    } by {
        assert(ops.len() + 1 + 2 * i == body.len() + 2 * i);
        assert(ops.len() + 2 + 2 * i == body.len() + 2 * i + 1);
    }
}

/// A scene only ever adds to what was painted before it.
pub proof fn lemma_scene_paints_on_top(
    ops: Seq<DrawOpView>,
    canvas: Canvas,
    points: Seq<Point>,
    samples: Seq<Point>,
    style: SceneStyle,
)
    ensures
        ops.is_prefix_of(curve_layer(ops, canvas, samples, style)),
        curve_layer(ops, canvas, samples, style).is_prefix_of(
            scene(ops, canvas, points, samples, style),
        ),
        ops.is_prefix_of(scene(ops, canvas, points, samples, style)),
{
    lemma_markers_paint_on_top(curve_layer(ops, canvas, samples, style), canvas, points, style);
}

/// Markers only ever add to what was painted before them.
pub proof fn lemma_markers_paint_on_top(
    ops: Seq<DrawOpView>,
    canvas: Canvas,
    points: Seq<Point>,
    style: SceneStyle,
)
    ensures
        ops.is_prefix_of(markers_layer(ops, canvas, points, style)),
    decreases points.len(),
{
    if points.len() > 0 {
        lemma_markers_paint_on_top(ops, canvas, points.drop_last(), style);
    }
}

/// Rendering is repeatable: two renders of the same scene, on display lists
/// that were equal before, end with the same result and leave equal display
/// lists.
pub proof fn lemma_rendering_is_repeatable(
    first: Seq<DrawOpView>,
    second: Seq<DrawOpView>,
    canvas: Canvas,
    evaluator: CurveEvaluator,
    cvs: Seq<Point>,
    evaluated: Seq<Point>,
    style: SceneStyle,
)
    requires
        first == second,
    ensures
        spec_stroke_curve(first, canvas, evaluator, cvs, evaluated, style) == spec_stroke_curve(
            second,
            canvas,
            evaluator,
            cvs,
            evaluated,
            style,
        ),
{
}

/// A render through control points that the evaluator rejects fails with
/// the reason of the rejection and paints nothing. In particular, fewer than
/// four control points under a cubic basis are `InvalidControlPoints`.
pub proof fn lemma_rejected_points_paint_nothing(
    ops: Seq<DrawOpView>,
    canvas: Canvas,
    evaluator: CurveEvaluator,
    cvs: Seq<Point>,
    evaluated: Seq<Point>,
    style: SceneStyle,
)
    ensures
        evaluator.rejection(cvs) matches Some(e) ==> spec_stroke_curve(
            ops,
            canvas,
            evaluator,
            cvs,
            evaluated,
            style,
        ) == (Err::<(), RenderError>(e), ops),
        evaluator.densifies() && cvs.len() < 4 ==> spec_stroke_curve(
            ops,
            canvas,
            evaluator,
            cvs,
            evaluated,
            style,
        ) == (Err::<(), RenderError>(RenderError::InvalidControlPoints), ops),
        spec_stroke_curve(ops, canvas, evaluator, cvs, evaluated, style).0 is Err
            ==> spec_stroke_curve(ops, canvas, evaluator, cvs, evaluated, style).1 == ops,
{
}

/// Degenerate geometry is a draw that does nothing, not a failure:
///
/// - a curve stroke of width zero leaves only the markers of the scene;
/// - markers of radius zero leave only the body of the curve;
/// - a marker ring of width zero leaves each marker as its filled circle.
pub proof fn lemma_degenerate_geometry_is_noop(
    ops: Seq<DrawOpView>,
    canvas: Canvas,
    points: Seq<Point>,
    samples: Seq<Point>,
    style: SceneStyle,
)
    requires
        canvas.is_target(),
    ensures
        style.curve_stroke.width == 0 ==> scene(ops, canvas, points, samples, style)
            == markers_layer(ops, canvas, points, style),
        style.marker_radius == 0 ==> scene(ops, canvas, points, samples, style) == curve_layer(
            ops,
            canvas,
            samples,
            style,
        ),
        style.marker_stroke.width == 0 ==> forall|point: Point|
            #[trigger] marker_layer(ops, canvas, point, style) == spec_fill(
                ops,
                marker_commands(point, canvas, style.marker_radius),
                style.marker_fill,
            ),
{
    if style.marker_radius == 0 {
        lemma_zero_radius_markers(curve_layer(ops, canvas, samples, style), canvas, points, style);
    }
}

/// Markers of radius zero paint nothing.
proof fn lemma_zero_radius_markers(
    ops: Seq<DrawOpView>,
    canvas: Canvas,
    points: Seq<Point>,
    style: SceneStyle,
)
    requires
        canvas.is_target(),
        style.marker_radius == 0,
    ensures
        markers_layer(ops, canvas, points, style) == ops,
    decreases points.len(),
{
    if points.len() > 0 {
        lemma_zero_radius_markers(ops, canvas, points.drop_last(), style);
        let center = spec_to_pixel(points.last(), canvas);
        lemma_pixel_in_range(points.last(), canvas);
        lemma_circle_extent(center.x, center.y, style.marker_radius);
    }
}

/// Whether two pixels differ by at most a millionth of the width of the
/// render target along `x`, and a millionth of its height along `y`.
pub open spec fn pixel_close_to(p: PixelPoint, q: PixelPoint, canvas: Canvas) -> bool {
    &&& -canvas.spec_width() <= p.x - q.x <= canvas.spec_width()
    &&& -canvas.spec_height() <= p.y - q.y <= canvas.spec_height()
}

/// Points that are within one millionth of each other in curve space fall
/// on pixels that are within a millionth of the width and of the height of
/// each other.
pub proof fn lemma_close_points_fall_on_close_pixels(a: Point, b: Point, canvas: Canvas)
    requires
        canvas.is_target(),
        close_to(a, b),
    ensures
        pixel_close_to(spec_to_pixel(a, canvas), spec_to_pixel(b, canvas), canvas),
{
    lemma_pixel_in_range(a, canvas);
    lemma_pixel_in_range(b, canvas);
    let width = canvas.spec_width() as int;
    let height = canvas.spec_height() as int;
    let dx = a.x - b.x;
    let dy = b.y - a.y;
    assert(a.x * width - b.x * width == dx * width) by (nonlinear_arith)
        requires
            dx == a.x - b.x,
    ;
    assert((UNIT - a.y) * height - (UNIT - b.y) * height == dy * height) by (nonlinear_arith)
        requires
            dy == b.y - a.y,
    ;
    assert(-width <= dx * width <= width) by (nonlinear_arith)
        requires
            -1 <= dx <= 1,
            width >= 1,
    ;
    assert(-height <= dy * height <= height) by (nonlinear_arith)
        requires
            -1 <= dy <= 1,
            height >= 1,
    ;
}

/// The body of a curve runs from marker to marker: its outline starts with
/// a move to the pixel of the first sample and, if there is more than one
/// sample, ends with a line to the pixel of the last. Where the first
/// control point is repeated, that first pixel lies on the centre of the
/// first marker, and where the last control point is repeated, that last
/// pixel lies on the centre of the last marker, each within a millionth of
/// the width and of the height of the render target.
pub proof fn lemma_curve_body_ends_on_pinned_markers(
    canvas: Canvas,
    evaluator: CurveEvaluator,
    cvs: Seq<Point>,
    evaluated: Seq<Point>,
)
    requires
        canvas.is_target(),
        evaluator.spec_curve(cvs, evaluated) is Ok,
    ensures
        ({
            let samples = evaluator.spec_curve(cvs, evaluated)->Ok_0;
            let body = polyline_commands(pixels(samples, canvas));
            let start = spec_to_pixel(samples.first(), canvas);
            let end = spec_to_pixel(samples.last(), canvas);
            &&& body.len() == samples.len()
            &&& body.first() == Command::MoveTo(start)
            &&& samples.len() >= 2 ==> body.last() == Command::LineTo(end)
            &&& pins_start(cvs) ==> pixel_close_to(start, spec_to_pixel(cvs.first(), canvas), canvas)
            &&& pins_end(cvs) ==> pixel_close_to(end, spec_to_pixel(cvs.last(), canvas), canvas)
        }),
{
    let samples = evaluator.spec_curve(cvs, evaluated)->Ok_0;
    lemma_curve_is_nonempty(evaluator, cvs, evaluated);
    lemma_curve_ends_on_pinned_control_points(evaluator, cvs, evaluated);
    if pins_start(cvs) {
        lemma_close_points_fall_on_close_pixels(samples.first(), cvs.first(), canvas);
    }
    if pins_end(cvs) {
        lemma_close_points_fall_on_close_pixels(samples.last(), cvs.last(), canvas);
    }
}

/// The corners of curve space fall on the corners of the render target:
/// the origin on the bottom left pixel corner, `(UNIT, UNIT)` on the top
/// right one. Going right in curve space is going right in pixel space, and
/// going up is going up the image, towards smaller `y`.
pub proof fn lemma_pixel_mapping_flips_y(canvas: Canvas, p: Point, q: Point)
    requires
        canvas.is_target(),
    ensures
        spec_to_pixel((Point { x: 0, y: 0 }), canvas) == at(0, UNIT * canvas.spec_height()),
        spec_to_pixel((Point { x: UNIT, y: UNIT }), canvas) == at(UNIT * canvas.spec_width(), 0),
        p.x <= q.x ==> spec_to_pixel(p, canvas).x <= spec_to_pixel(q, canvas).x,
        p.y <= q.y ==> spec_to_pixel(p, canvas).y >= spec_to_pixel(q, canvas).y,
{
    lemma_pixel_in_range(p, canvas);
    lemma_pixel_in_range(q, canvas);
    let width = canvas.spec_width() as int;
    let height = canvas.spec_height() as int;
    let (px, qx) = (p.x as int, q.x as int);
    let (py, qy) = (UNIT - p.y, UNIT - q.y);
    lemma_pixel_in_range(Point { x: 0, y: 0 }, canvas);
    lemma_pixel_in_range(Point { x: UNIT, y: UNIT }, canvas);
    assert(0 * width == 0 && 0 * height == 0);
    assert(px <= qx ==> px * width <= qx * width) by (nonlinear_arith)
        requires
            width >= 1,
    ;
    assert(qy <= py ==> qy * height <= py * height) by (nonlinear_arith)
        requires
            height >= 1,
    ;
}

} // verus!
