use curve_raster::basis::Basis;
use curve_raster::compositor::{
    Color, Compositor, DrawOp, FillRule, PaintStyle, StrokeStyle,
};
use curve_raster::error::RenderError;
use curve_raster::evaluator::{CurveEvaluator, Strategy};
use curve_raster::geometry::{Canvas, PixelPoint, Point, MAX_DIMENSION, UNIT};
use curve_raster::orchestrator::{stroke_curve, to_pixel, SceneStyle};
use curve_raster::outline::{stroke_circle, stroke_polyline};

fn grey(level: u32, anti_alias: bool) -> PaintStyle {
    PaintStyle {
        color: Color::from_rgba(level, level, level, 1_000_000).unwrap(),
        anti_alias,
        high_quality: anti_alias,
        fill_rule: FillRule::Winding,
    }
}

fn square() -> Canvas {
    Canvas::new(256, 256).unwrap()
}

fn scenario() -> Vec<Point> {
    [(0, 0), (0, 0), (300_000, 100_000), (500_000, 800_000), (UNIT, UNIT), (UNIT, UNIT)]
        .iter()
        .map(|&(x, y)| Point { x, y })
        .collect()
}

#[test]
fn canvas_needs_both_dimensions() {
    assert_eq!(Canvas::new(0, 0), None);
    assert_eq!(Canvas::new(0, 256), None);
    assert_eq!(Canvas::new(256, 0), None);
    assert_eq!(Canvas::new(MAX_DIMENSION + 1, 1), None);
    assert_eq!(Canvas::new(1, MAX_DIMENSION + 1), None);
    assert_eq!(Canvas::new(u32::MAX, u32::MAX), None);
    let smallest = Canvas::new(1, 1).unwrap();
    assert_eq!((smallest.width(), smallest.height()), (1, 1));
    let largest = Canvas::new(MAX_DIMENSION, MAX_DIMENSION).unwrap();
    assert_eq!((largest.width(), largest.height()), (16_777_216, 16_777_216));
    let canvas = Canvas::new(640, 480).unwrap();
    assert_eq!((canvas.width(), canvas.height()), (640, 480));
}

#[test]
fn pixel_mapping_scales_and_flips() {
    let canvas = square();
    assert_eq!(to_pixel(Point { x: 0, y: 0 }, &canvas), PixelPoint { x: 0, y: 256_000_000 });
    assert_eq!(to_pixel(Point { x: UNIT, y: UNIT }, &canvas), PixelPoint { x: 256_000_000, y: 0 });
    assert_eq!(
        to_pixel(Point { x: 500_000, y: 800_000 }, &canvas),
        PixelPoint { x: 128_000_000, y: 51_200_000 }
    );
    let wide = Canvas::new(640, 480).unwrap();
    assert_eq!(
        to_pixel(Point { x: 250_000, y: 250_000 }, &wide),
        PixelPoint { x: 160_000_000, y: 360_000_000 }
    );
    assert_eq!(to_pixel(Point { x: 1, y: 1 }, &wide), PixelPoint { x: 640, y: 479_999_520 });
}

#[test]
fn pixel_mapping_takes_overshoot() {
    let canvas = square();
    assert_eq!(
        to_pixel(Point { x: -100_000, y: 1_100_000 }, &canvas),
        PixelPoint { x: -25_600_000, y: -25_600_000 }
    );
    let largest = Canvas::new(MAX_DIMENSION, MAX_DIMENSION).unwrap();
    assert_eq!(
        to_pixel(Point { x: i32::MIN, y: i32::MIN }, &largest),
        PixelPoint {
            x: -2_147_483_648 * 16_777_216,
            y: (1_000_000 + 2_147_483_648) * 16_777_216,
        }
    );
    assert_eq!(
        to_pixel(Point { x: i32::MAX, y: i32::MAX }, &largest),
        PixelPoint {
            x: 2_147_483_647 * 16_777_216,
            y: (1_000_000 - 2_147_483_647) * 16_777_216,
        }
    );
}

#[test]
fn default_style_is_bright_curve_and_ringed_markers() {
    let style = SceneStyle::default();
    assert_eq!(style.curve_paint, grey(1_000_000, true));
    assert_eq!(style.curve_stroke, StrokeStyle { width: 4_000_000 });
    assert_eq!(style.marker_fill, grey(200_000, false));
    assert_eq!(style.marker_paint, grey(800_000, true));
    assert_eq!(style.marker_stroke, StrokeStyle { width: 2_000_000 });
    assert_eq!(style.marker_radius, 5_500_000);
}

#[test]
fn linear_scene_is_curve_then_markers() {
    let cvs = vec![Point { x: 0, y: 0 }, Point { x: 500_000, y: 800_000 }, Point { x: UNIT, y: UNIT }];
    let evaluator = CurveEvaluator::new(Basis::Linear, Strategy::InverseLookup, 32);
    let style = SceneStyle::default();
    let mut compositor = Compositor::new();
    assert_eq!(stroke_curve(&mut compositor, &square(), &evaluator, &cvs, &vec![], &style), Ok(()));
    let body = stroke_polyline(&vec![
        PixelPoint { x: 0, y: 256_000_000 },
        PixelPoint { x: 128_000_000, y: 51_200_000 },
        PixelPoint { x: 256_000_000, y: 0 },
    ])
    .unwrap();
    let marker = |x: i64, y: i64| stroke_circle(x, y, 5_500_000);
    let ring = StrokeStyle { width: 2_000_000 };
    assert_eq!(
        compositor.ops(),
        &vec![
            DrawOp::StrokeThenFill {
                outline: body,
                stroke: StrokeStyle { width: 4_000_000 },
                paint: grey(1_000_000, true),
            },
            DrawOp::Fill { outline: marker(0, 256_000_000), paint: grey(200_000, false) },
            DrawOp::StrokeThenFill {
                outline: marker(0, 256_000_000),
                stroke: ring,
                paint: grey(800_000, true),
            },
            DrawOp::Fill { outline: marker(128_000_000, 51_200_000), paint: grey(200_000, false) },
            DrawOp::StrokeThenFill {
                outline: marker(128_000_000, 51_200_000),
                stroke: ring,
                paint: grey(800_000, true),
            },
            DrawOp::Fill { outline: marker(256_000_000, 0), paint: grey(200_000, false) },
            DrawOp::StrokeThenFill {
                outline: marker(256_000_000, 0),
                stroke: ring,
                paint: grey(800_000, true),
            },
        ]
    );
}

#[test]
fn cubic_scene_draws_the_evaluated_samples() {
    let cvs = scenario();
    let evaluator = CurveEvaluator::new(Basis::CatmullRom, Strategy::InverseLookup, 4);
    let evaluated = vec![
        Point { x: 0, y: 0 },
        Point { x: 250_000, y: 60_000 },
        Point { x: 500_000, y: 800_000 },
        Point { x: 750_000, y: 1_020_000 },
        Point { x: UNIT, y: UNIT },
    ];
    let mut compositor = Compositor::new();
    let rendered =
        stroke_curve(&mut compositor, &square(), &evaluator, &cvs, &evaluated, &SceneStyle::default());
    assert_eq!(rendered, Ok(()));
    assert_eq!(compositor.len(), 1 + 2 * cvs.len());
    let body = stroke_polyline(&vec![
        PixelPoint { x: 0, y: 256_000_000 },
        PixelPoint { x: 64_000_000, y: 240_640_000 },
        PixelPoint { x: 128_000_000, y: 51_200_000 },
        PixelPoint { x: 192_000_000, y: -5_120_000 },
        PixelPoint { x: 256_000_000, y: 0 },
    ])
    .unwrap();
    assert_eq!(
        compositor.ops()[0],
        DrawOp::StrokeThenFill {
            outline: body,
            stroke: StrokeStyle { width: 4_000_000 },
            paint: grey(1_000_000, true),
        }
    );
    for (i, cv) in cvs.iter().enumerate() {
        let center = to_pixel(*cv, &square());
        let marker = stroke_circle(center.x, center.y, 5_500_000);
        assert_eq!(
            compositor.ops()[1 + 2 * i],
            DrawOp::Fill { outline: marker.clone(), paint: grey(200_000, false) }
        );
        assert_eq!(
            compositor.ops()[2 + 2 * i],
            DrawOp::StrokeThenFill {
                outline: marker,
                stroke: StrokeStyle { width: 2_000_000 },
                paint: grey(800_000, true),
            }
        );
    }
}

#[test]
fn two_points_under_a_cubic_basis_paint_nothing() {
    let cvs = vec![Point { x: 0, y: 0 }, Point { x: UNIT, y: UNIT }];
    for basis in [Basis::Hermite, Basis::CatmullRom] {
        for strategy in [Strategy::DirectParametric, Strategy::InverseLookup] {
            let evaluator = CurveEvaluator::new(basis, strategy, 32);
            let mut compositor = Compositor::new();
            let rendered = stroke_curve(
                &mut compositor,
                &square(),
                &evaluator,
                &cvs,
                &vec![],
                &SceneStyle::default(),
            );
            assert_eq!(rendered, Err(RenderError::InvalidControlPoints));
            assert_eq!(compositor.len(), 0);
        }
    }
}

#[test]
fn failed_render_leaves_earlier_paint_alone() {
    let style = SceneStyle::default();
    let mut compositor = Compositor::new();
    let earlier = stroke_circle(9_000_000, 9_000_000, 3_000_000);
    compositor.fill(&earlier, style.marker_fill);
    let evaluator = CurveEvaluator::new(Basis::CatmullRom, Strategy::InverseLookup, 4);

    let too_few = vec![Point { x: 0, y: 0 }];
    assert_eq!(
        stroke_curve(&mut compositor, &square(), &evaluator, &too_few, &vec![], &style),
        Err(RenderError::InvalidControlPoints)
    );
    let backwards = vec![
        Point { x: UNIT, y: 0 },
        Point { x: 600_000, y: 0 },
        Point { x: 300_000, y: 0 },
        Point { x: 0, y: 0 },
    ];
    assert_eq!(
        stroke_curve(&mut compositor, &square(), &evaluator, &backwards, &vec![], &style),
        Err(RenderError::NonMonotonicKnots)
    );
    assert_eq!(
        stroke_curve(&mut compositor, &square(), &evaluator, &scenario(), &vec![], &style),
        Err(RenderError::OutlineConstructionFailure)
    );
    assert_eq!(
        compositor.ops(),
        &vec![DrawOp::Fill { outline: earlier, paint: style.marker_fill }]
    );
}

#[test]
fn scene_is_painted_over_what_was_there() {
    let style = SceneStyle::default();
    let mut compositor = Compositor::new();
    let earlier = stroke_circle(9_000_000, 9_000_000, 3_000_000);
    compositor.fill(&earlier, style.marker_fill);
    let cvs = vec![Point { x: 0, y: 0 }, Point { x: UNIT, y: UNIT }];
    let evaluator = CurveEvaluator::new(Basis::Linear, Strategy::DirectParametric, 0);
    assert_eq!(stroke_curve(&mut compositor, &square(), &evaluator, &cvs, &vec![], &style), Ok(()));
    assert_eq!(compositor.len(), 1 + 1 + 2 * 2);
    assert_eq!(compositor.ops()[0], DrawOp::Fill { outline: earlier, paint: style.marker_fill });
}

#[test]
fn zero_width_curve_stroke_leaves_only_markers() {
    let mut style = SceneStyle::default();
    style.curve_stroke = StrokeStyle { width: 0 };
    let cvs = vec![Point { x: 0, y: 0 }, Point { x: UNIT, y: UNIT }];
    let evaluator = CurveEvaluator::new(Basis::Linear, Strategy::DirectParametric, 0);
    let mut compositor = Compositor::new();
    assert_eq!(stroke_curve(&mut compositor, &square(), &evaluator, &cvs, &vec![], &style), Ok(()));
    assert_eq!(compositor.len(), 4);
    assert!(matches!(compositor.ops()[0], DrawOp::Fill { .. }));
    assert!(matches!(compositor.ops()[1], DrawOp::StrokeThenFill { .. }));
    assert!(matches!(compositor.ops()[2], DrawOp::Fill { .. }));
    assert!(matches!(compositor.ops()[3], DrawOp::StrokeThenFill { .. }));
}

#[test]
fn zero_width_ring_leaves_the_filled_markers() {
    let mut style = SceneStyle::default();
    style.marker_stroke = StrokeStyle { width: 0 };
    let cvs = vec![Point { x: 0, y: 0 }, Point { x: UNIT, y: UNIT }];
    let evaluator = CurveEvaluator::new(Basis::Linear, Strategy::DirectParametric, 0);
    let mut compositor = Compositor::new();
    assert_eq!(stroke_curve(&mut compositor, &square(), &evaluator, &cvs, &vec![], &style), Ok(()));
    assert_eq!(compositor.len(), 3);
    assert!(matches!(compositor.ops()[0], DrawOp::StrokeThenFill { .. }));
    assert_eq!(
        compositor.ops()[1],
        DrawOp::Fill { outline: stroke_circle(0, 256_000_000, 5_500_000), paint: style.marker_fill }
    );
    assert_eq!(
        compositor.ops()[2],
        DrawOp::Fill { outline: stroke_circle(256_000_000, 0, 5_500_000), paint: style.marker_fill }
    );
}

#[test]
fn zero_radius_markers_leave_only_the_curve() {
    let mut style = SceneStyle::default();
    style.marker_radius = 0;
    let cvs = vec![Point { x: 0, y: 0 }, Point { x: UNIT, y: UNIT }];
    let evaluator = CurveEvaluator::new(Basis::Linear, Strategy::DirectParametric, 0);
    let mut compositor = Compositor::new();
    assert_eq!(stroke_curve(&mut compositor, &square(), &evaluator, &cvs, &vec![], &style), Ok(()));
    assert_eq!(compositor.len(), 1);
    assert!(matches!(compositor.ops()[0], DrawOp::StrokeThenFill { .. }));
}

#[test]
fn curve_that_never_moves_leaves_only_markers() {
    let cvs = vec![Point { x: 400_000, y: 400_000 }, Point { x: 400_000, y: 400_000 }];
    let evaluator = CurveEvaluator::new(Basis::Linear, Strategy::DirectParametric, 0);
    let mut compositor = Compositor::new();
    assert_eq!(
        stroke_curve(&mut compositor, &square(), &evaluator, &cvs, &vec![], &SceneStyle::default()),
        Ok(())
    );
    assert_eq!(compositor.len(), 4);
    assert!(matches!(compositor.ops()[0], DrawOp::Fill { .. }));
}

#[test]
fn same_inputs_give_the_same_display_list() {
    let cvs = scenario();
    let evaluator = CurveEvaluator::new(Basis::CatmullRom, Strategy::DirectParametric, 2);
    let evaluated = vec![
        Point { x: 0, y: 0 },
        Point { x: 410_000, y: 520_000 },
        Point { x: UNIT, y: UNIT },
    ];
    let style = SceneStyle::default();
    let mut first = Compositor::new();
    let mut second = Compositor::new();
    assert_eq!(stroke_curve(&mut first, &square(), &evaluator, &cvs, &evaluated, &style), Ok(()));
    assert_eq!(stroke_curve(&mut second, &square(), &evaluator, &cvs, &evaluated, &style), Ok(()));
    assert_eq!(first, second);
    assert_eq!(first.ops(), second.ops());
}
