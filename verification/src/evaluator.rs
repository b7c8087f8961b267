//! The curve evaluator: from control points and a basis to the ordered
//! samples of the curve.
//!
//! Under the linear basis the curve is the control polygon. Under a cubic
//! basis the curve is sampled at uniformly spaced positions, and the spline
//! itself is evaluated by a backend outside this crate. The evaluator does
//! everything around that: it rejects control points that no curve can be
//! drawn through, lists the positions at which the backend has to evaluate,
//! and accepts what the backend returns only if it is the sample sequence
//! that was asked for and ends on the control points that pin its ends.

use vstd::prelude::*;
use crate::basis::Basis;
use crate::error::RenderError;
use crate::geometry::{Point, UNIT};

verus! {

/// How a cubic curve is sampled.
#[derive(Copy, Clone, Debug, PartialEq, Eq, Structural)]
pub enum Strategy {
    /// The abscissae and the ordinates of the control points are two splines
    /// over one parameter `t`; both are evaluated at `segments + 1` values of
    /// `t`, from `0` to `UNIT` inclusive.
    DirectParametric,
    /// The abscissae of the control points are the knots and the ordinates
    /// the values of one spline; it is evaluated at `segments + 1` abscissae,
    /// from `0` to `UNIT` inclusive, so that the samples are evenly spaced
    /// along `x` and the curve spans the whole width of the render target.
    /// The knots must not decrease, and control points that pin an end of the
    /// curve must lie on that edge of the unit interval.
    InverseLookup,
}

/// A basis, a sampling strategy and the number of segments that a cubic
/// curve is divided into.
#[derive(Copy, Clone, Debug, PartialEq, Eq, Structural)]
pub struct CurveEvaluator {
    pub basis: Basis,
    pub strategy: Strategy,
    pub segments: u32,
}

/// The `i`-th of the positions that divide `0..=UNIT` into `segments` equal
/// parts, rounded down to a millionth. With no segments the only position
/// is `0`.
pub open spec fn uniform_position(i: int, segments: int) -> int {
    if segments > 0 {
        (i * UNIT) / segments
    } else {
        0
    }
}

/// Whether the abscissae of `points` never decrease from one point to a
/// later one.
pub open spec fn non_decreasing(points: Seq<Point>) -> bool {
    forall|i: int, j: int| 0 <= i <= j < points.len() ==> points[i].x <= points[j].x
}

/// The number of segments that the sample-count policy derives from the
/// width of the render target: an eighth of the width for direct parametric
/// sampling, and an eighth of the width for each of the `point_count - 3`
/// spans of the spline for inverse lookup.
pub open spec fn policy_segments(strategy: Strategy, width: u32, point_count: nat) -> int {
    let per_span = width as int / 8;
    let spans = if point_count >= 3 {
        point_count - 3
    } else {
        0
    };
    match strategy {
        Strategy::DirectParametric => per_span,
        Strategy::InverseLookup => per_span * spans,
    }
}

/// Facts about `uniform_position` that the loops below need: a position
/// with `0 <= i <= segments` lies in `0..=UNIT`.
proof fn lemma_position_in_range(i: int, segments: int)
    requires
        0 <= i <= segments,
    ensures
        0 <= uniform_position(i, segments) <= UNIT,
{
    if segments > 0 {
        assert(0 <= (i * UNIT) / segments <= UNIT) by (nonlinear_arith)
            requires
                0 <= i <= segments,
                segments > 0,
                UNIT == 1_000_000,
        ;
    }
}

/// The `i`-th uniform position of `segments` segments.
fn position_at(i: u64, segments: u32) -> (position: i32)
    requires
        i <= segments,
    ensures
        position == uniform_position(i as int, segments as int),
        0 <= position <= UNIT,
{
    proof {
        lemma_position_in_range(i as int, segments as int);
    }
    if segments == 0 {
        0
    } else {
        assert(i * 1_000_000 <= 0xffff_ffff * 1_000_000);
        let scaled: u64 = i * 1_000_000;
        let position: u64 = scaled / (segments as u64);
        position as i32
    }
}

/// Whether two points differ by at most one millionth in each coordinate.
pub open spec fn close_to(a: Point, b: Point) -> bool {
    &&& -1 <= a.x - b.x <= 1
    &&& -1 <= a.y - b.y <= 1
}

/// Whether the first control point is repeated, which pins the start of a
/// cubic curve to it.
pub open spec fn pins_start(points: Seq<Point>) -> bool {
    points.len() >= 2 && points[0] == points[1]
}

/// Whether the last control point is repeated, which pins the end of a cubic
/// curve to it.
pub open spec fn pins_end(points: Seq<Point>) -> bool {
    points.len() >= 2 && points[points.len() - 1] == points[points.len() - 2]
}

/// Whether two points differ by at most one millionth in each coordinate.
fn is_close_to(a: Point, b: Point) -> (close: bool)
    ensures
        close == close_to(a, b),
{
    let dx: i64 = a.x as i64 - b.x as i64;
    let dy: i64 = a.y as i64 - b.y as i64;
    -1 <= dx && dx <= 1 && -1 <= dy && dy <= 1
}

impl CurveEvaluator {
    /// Whether the curve is made of cubics, so that a backend has to evaluate
    /// it.
    pub open spec fn densifies(self) -> bool {
        self.basis != Basis::Linear
    }

    /// Why `points` cannot be the control points of a curve of this
    /// evaluator, if they cannot:
    ///
    /// - fewer than two points, or fewer than four under a cubic basis, are
    ///   `InvalidControlPoints`;
    /// - enough points whose abscissae decrease somewhere, under a cubic
    ///   basis with inverse lookup, are `NonMonotonicKnots`.
    pub open spec fn rejection(self, points: Seq<Point>) -> Option<RenderError> {
        if points.len() < 2 {
            Some(RenderError::InvalidControlPoints)
        } else if self.densifies() && points.len() < 4 {
            Some(RenderError::InvalidControlPoints)
        } else if self.densifies() && self.strategy == Strategy::InverseLookup && !non_decreasing(
            points,
        ) {
            Some(RenderError::NonMonotonicKnots)
        } else {
            None
        }
    }

    /// The number of samples of a cubic curve: one more than there are
    /// segments, because both ends are sampled.
    pub open spec fn sample_count(self) -> nat {
        self.segments as nat + 1
    }

    /// The positions at which the backend has to evaluate the spline, in
    /// order: none under the linear basis, else the first `sample_count()`
    /// uniform positions. For direct parametric sampling they are values of
    /// the parameter, for inverse lookup they are abscissae.
    pub open spec fn spec_parameters(self) -> Seq<i32> {
        if self.densifies() {
            Seq::new(self.sample_count(), |i: int| uniform_position(i, self.segments as int) as i32)
        } else {
            Seq::empty()
        }
    }

    /// Whether `evaluated` is the sample sequence of a cubic curve through
    /// `points`:
    ///
    /// - it has one sample for each position of `spec_parameters()`;
    /// - under inverse lookup each sample lies at the abscissa that was asked
    ///   for;
    /// - where the first control point is repeated, the first sample lies
    ///   within one millionth of it, and where the last control point is
    ///   repeated, the last sample lies within one millionth of it.
    pub open spec fn accepts(self, points: Seq<Point>, evaluated: Seq<Point>) -> bool {
        &&& evaluated.len() == self.sample_count()
        &&& self.strategy == Strategy::InverseLookup ==> forall|i: int|
            0 <= i < evaluated.len() ==> (#[trigger] evaluated[i]).x == uniform_position(
                i,
                self.segments as int,
            )
        &&& pins_start(points) ==> close_to(evaluated.first(), points.first())
        &&& pins_end(points) ==> close_to(evaluated.last(), points.last())
    }

    /// The curve through `points`, given what the backend returned:
    ///
    /// - rejected control points give their error, whatever was evaluated;
    /// - under the linear basis the curve is `points` itself;
    /// - under a cubic basis the curve is `evaluated` if it is acceptable,
    ///   and `OutlineConstructionFailure` otherwise.
    pub open spec fn spec_curve(self, points: Seq<Point>, evaluated: Seq<Point>) -> Result<
        Seq<Point>,
        RenderError,
    > {
        match self.rejection(points) {
            Some(e) => Err(e),
            None => if !self.densifies() {
                Ok(points)
            } else if self.accepts(points, evaluated) {
                Ok(evaluated)
            } else {
                Err(RenderError::OutlineConstructionFailure)
            },
        }
    }

    /// An evaluator with an explicit number of segments.
    pub fn new(basis: Basis, strategy: Strategy, segments: u32) -> (evaluator: CurveEvaluator)
        ensures
            evaluator == (CurveEvaluator { basis, strategy, segments }),
    {
        CurveEvaluator { basis, strategy, segments }
    }

    /// An evaluator whose number of segments follows the sample-count policy
    /// for a render target `width` pixels wide and a curve through
    /// `point_count` control points; `None` when that number does not fit in
    /// 32 bits.
    pub fn for_width(basis: Basis, strategy: Strategy, width: u32, point_count: usize) -> (evaluator:
        Option<CurveEvaluator>)
        ensures
            evaluator is Some <==> policy_segments(strategy, width, point_count as nat)
                <= u32::MAX,
            evaluator matches Some(e) ==> e.basis == basis && e.strategy == strategy && e.segments
                == policy_segments(strategy, width, point_count as nat),
    {
        let per_span: u32 = width >> 3;
        assert(width >> 3 == width / 8) by (bit_vector);
        match strategy {
            Strategy::DirectParametric => Some(CurveEvaluator { basis, strategy, segments: per_span }),
            Strategy::InverseLookup => {
                let spans: usize = if point_count >= 3 {
                    point_count - 3
                } else {
                    0
                };
                assert(per_span * spans <= 0xffff_ffff * 0xffff_ffff_ffff_ffff) by (nonlinear_arith)
                    requires
                        0 <= per_span <= 0xffff_ffff,
                        0 <= spans <= 0xffff_ffff_ffff_ffff,
                ;
                let total: u128 = (per_span as u128) * (spans as u128);
                if total <= 0xffff_ffff {
                    Some(CurveEvaluator { basis, strategy, segments: total as u32 })
                } else {
                    None
                }
            },
        }
    }

    /// Whether the abscissae of `points` never decrease.
    fn knots_non_decreasing(points: &Vec<Point>) -> (ordered: bool)
        ensures
            ordered == non_decreasing(points@),
    {
        if points.len() < 2 {
            return true;
        }
        let mut k: usize = 1;
        while k < points.len()
            invariant
                1 <= k <= points.len(),
                forall|i: int, j: int| 0 <= i <= j < k ==> points@[i].x <= points@[j].x,
            decreases points.len() - k,
        {
            if points[k - 1].x > points[k].x {
                assert(!(points@[k - 1].x <= points@[k as int].x));
                return false;
            }
            assert forall|i: int, j: int| 0 <= i <= j < k + 1 implies points@[i].x
                <= points@[j].x by {
                if j == k {
                    assert(points@[i].x <= points@[k - 1].x || i == k);
                }
            }
            k += 1;
        }
        true
    }

    /// Checks that a curve of this evaluator can be drawn through `points`.
    pub fn validate(&self, points: &Vec<Point>) -> (checked: Result<(), RenderError>)
        ensures
            checked is Ok <==> self.rejection(points@) is None,
            checked matches Err(e) ==> self.rejection(points@) == Some(e),
    {
        if points.len() < 2 {
            return Err(RenderError::InvalidControlPoints);
        }
        if self.basis.is_linear() {
            return Ok(());
        }
        if points.len() < 4 {
            return Err(RenderError::InvalidControlPoints);
        }
        match self.strategy {
            Strategy::DirectParametric => Ok(()),
            Strategy::InverseLookup => {
                if Self::knots_non_decreasing(points) {
                    Ok(())
                } else {
                    Err(RenderError::NonMonotonicKnots)
                }
            },
        }
    }

    /// The positions at which the backend has to evaluate the spline through
    /// `points`, or the reason why `points` are rejected.
    pub fn parameters(&self, points: &Vec<Point>) -> (positions: Result<Vec<i32>, RenderError>)
        ensures
            positions is Ok <==> self.rejection(points@) is None,
            positions matches Ok(p) ==> p@ == self.spec_parameters(),
            positions matches Err(e) ==> self.rejection(points@) == Some(e),
    {
        match self.validate(points) {
            Err(e) => {
                return Err(e);
            },
            Ok(()) => {},
        }
        let mut positions: Vec<i32> = Vec::new();
        if self.basis.is_linear() {
            assert(positions@ == self.spec_parameters());
            return Ok(positions);
        }
        let last: u64 = self.segments as u64 + 1;
        let mut i: u64 = 0;
        while i < last
            invariant
                i <= last,
                last == self.sample_count(),
                positions@.len() == i,
                forall|k: int|
                    0 <= k < i ==> positions@[k] == uniform_position(k, self.segments as int),
            decreases last - i,
        {
            let position: i32 = position_at(i, self.segments);
            positions.push(position);
            i += 1;
        }
        assert(positions@ == self.spec_parameters());
        Ok(positions)
    }

    /// Whether each sample of `evaluated` lies at the uniform position of its
    /// index.
    fn sits_on_targets(&self, evaluated: &Vec<Point>) -> (on_targets: bool)
        requires
            evaluated@.len() == self.segments + 1,
        ensures
            on_targets == forall|i: int|
                0 <= i < evaluated@.len() ==> (#[trigger] evaluated@[i]).x == uniform_position(
                    i,
                    self.segments as int,
                ),
    {
        let mut i: usize = 0;
        while i < evaluated.len()
            invariant
                i <= evaluated.len(),
                evaluated@.len() == self.segments + 1,
                forall|k: int|
                    0 <= k < i ==> (#[trigger] evaluated@[k]).x == uniform_position(
                        k,
                        self.segments as int,
                    ),
            decreases evaluated.len() - i,
        {
            let target: i32 = position_at(i as u64, self.segments);
            if evaluated[i].x != target {
                assert(evaluated@[i as int].x != uniform_position(i as int, self.segments as int));
                return false;
            }
            i += 1;
        }
        true
    }

    /// Whether `evaluated` is acceptable as the samples of a cubic curve
    /// through `points`.
    fn check_evaluated(&self, points: &Vec<Point>, evaluated: &Vec<Point>) -> (accepted: bool)
        requires
            points@.len() >= 2,
        ensures
            accepted == self.accepts(points@, evaluated@),
    {
        if evaluated.len() as u64 != self.segments as u64 + 1 {
            return false;
        }
        let on_targets: bool = match self.strategy {
            Strategy::DirectParametric => true,
            Strategy::InverseLookup => self.sits_on_targets(evaluated),
        };
        if !on_targets {
            return false;
        }
        let n: usize = points.len();
        let first: Point = points[0];
        let last: Point = points[n - 1];
        let pinned_start: bool = first.x == points[1].x && first.y == points[1].y;
        let pinned_end: bool = last.x == points[n - 2].x && last.y == points[n - 2].y;
        if pinned_start && !is_close_to(evaluated[0], first) {
            return false;
        }
        if pinned_end && !is_close_to(evaluated[evaluated.len() - 1], last) {
            return false;
        }
        true
    }

    /// The curve through `points`: the ordered samples that the outline of
    /// the curve is built from.
    ///
    /// `evaluated` is what the backend returned for the positions of
    /// [`CurveEvaluator::parameters`]; under the linear basis it is not
    /// looked at.
    pub fn curve(&self, points: &Vec<Point>, evaluated: &Vec<Point>) -> (samples: Result<
        Vec<Point>,
        RenderError,
    >)
        ensures
            match samples {
                Ok(s) => self.spec_curve(points@, evaluated@) == Ok::<Seq<Point>, RenderError>(s@),
                Err(e) => self.spec_curve(points@, evaluated@) == Err::<Seq<Point>, RenderError>(
                    e,
                ),
            },
    {
        match self.validate(points) {
            Err(e) => {
                return Err(e);
            },
            Ok(()) => {},
        }
        if self.basis.is_linear() {
            Ok(points.clone())
        } else if self.check_evaluated(points, evaluated) {
            Ok(evaluated.clone())
        } else {
            Err(RenderError::OutlineConstructionFailure)
        }
    }
}

/// Under the linear basis the curve through two or more control points is
/// the control points themselves, whatever strategy and segment count the
/// evaluator has and whatever was evaluated.
pub proof fn lemma_linear_curve_is_identity(
    evaluator: CurveEvaluator,
    points: Seq<Point>,
    evaluated: Seq<Point>,
)
    requires
        evaluator.basis == Basis::Linear,
        points.len() >= 2,
    ensures
        evaluator.spec_curve(points, evaluated) == Ok::<Seq<Point>, RenderError>(points),
{
}

/// A curve is never empty, and its control points were not rejected.
pub proof fn lemma_curve_is_nonempty(
    evaluator: CurveEvaluator,
    points: Seq<Point>,
    evaluated: Seq<Point>,
)
    requires
        evaluator.spec_curve(points, evaluated) is Ok,
    ensures
        evaluator.spec_curve(points, evaluated)->Ok_0.len() >= 1,
        evaluator.rejection(points) is None,
{
}

/// A curve ends on the control points that pin its ends: where the first
/// control point is repeated, the first sample lies within one millionth of
/// it, and where the last control point is repeated, the last sample lies
/// within one millionth of it. Under the linear basis both are exact.
pub proof fn lemma_curve_ends_on_pinned_control_points(
    evaluator: CurveEvaluator,
    points: Seq<Point>,
    evaluated: Seq<Point>,
)
    requires
        evaluator.spec_curve(points, evaluated) is Ok,
    ensures
        ({
            let samples = evaluator.spec_curve(points, evaluated)->Ok_0;
            &&& pins_start(points) ==> close_to(samples.first(), points.first())
            &&& pins_end(points) ==> close_to(samples.last(), points.last())
            &&& !evaluator.densifies() ==> samples.first() == points.first() && samples.last()
                == points.last()
        }),
{
}

/// The samples of a cubic curve under inverse lookup are evenly spaced along
/// `x`, from one side of the unit interval to the other: the abscissa of
/// each sample is exactly the uniform position that was asked for; the first
/// is `0` and, if there is a segment at all, the last is `UNIT`; they never
/// decrease; neighbours are an equal share of `UNIT` apart, up to the one
/// millionth that rounding takes; and up to a million segments they
/// strictly increase.
pub proof fn lemma_inverse_lookup_abscissae(
    evaluator: CurveEvaluator,
    points: Seq<Point>,
    evaluated: Seq<Point>,
)
    requires
        evaluator.densifies(),
        evaluator.strategy == Strategy::InverseLookup,
        evaluator.spec_curve(points, evaluated) is Ok,
    ensures
        ({
            let samples = evaluator.spec_curve(points, evaluated)->Ok_0;
            let n = evaluator.segments as int;
            &&& samples.len() == n + 1
            &&& samples.first().x == 0
            &&& n >= 1 ==> samples.last().x == UNIT
            &&& forall|i: int|
                0 <= i < samples.len() ==> (#[trigger] samples[i]).x == uniform_position(i, n)
            &&& forall|i: int| 0 <= i < samples.len() ==> 0 <= (#[trigger] samples[i]).x <= UNIT
            &&& non_decreasing(samples)
            &&& forall|i: int|
                0 <= i < n ==> (UNIT as int) / n <= samples[i + 1].x - (#[trigger] samples[i]).x <= (UNIT as int) / n
                    + 1
            &&& n <= UNIT ==> forall|i: int, j: int|
                0 <= i < j < samples.len() ==> samples[i].x < samples[j].x
        }),
{
    let samples = evaluator.spec_curve(points, evaluated)->Ok_0;
    let n = evaluator.segments as int;
    assert(samples == evaluated);
    if n >= 1 {
        assert((n * UNIT) / n == UNIT) by (nonlinear_arith)
            requires
                n >= 1,
                UNIT == 1_000_000,
        ;
    }
    assert forall|i: int| 0 <= i < samples.len() implies 0 <= (#[trigger] samples[i]).x
        <= UNIT by {
        lemma_position_in_range(i, n);
    }
    assert forall|i: int, j: int| 0 <= i <= j < samples.len() implies samples[i].x
        <= samples[j].x by {
        lemma_positions_ordered(i, j, n);
    }
    assert forall|i: int| 0 <= i < n implies (UNIT as int) / n <= samples[i + 1].x - (
    #[trigger] samples[i]).x <= (UNIT as int) / n + 1 by {
        lemma_positions_evenly_spaced(i, n);
    }
    if n <= UNIT {
        assert forall|i: int, j: int| 0 <= i < j < samples.len() implies samples[i].x
            < samples[j].x by {
            lemma_positions_evenly_spaced(i, n);
            lemma_positions_ordered(i + 1, j, n);
            assert((UNIT as int) / n >= 1) by (nonlinear_arith)
                requires
                    1 <= n <= UNIT,
                    UNIT == 1_000_000,
            ;
        }
    }
}

/// A curve by inverse lookup spans the unit interval, so the control points
/// that pin its ends lie on the edges of it: a repeated first control point
/// has its abscissa within one millionth of `0`, and, if the curve has a
/// segment at all, a repeated last control point has its abscissa within one
/// millionth of `UNIT`. No samples make a curve through control points that
/// pin an end elsewhere.
pub proof fn lemma_inverse_lookup_pins_ends_on_the_edges(
    evaluator: CurveEvaluator,
    points: Seq<Point>,
    evaluated: Seq<Point>,
)
    requires
        evaluator.densifies(),
        evaluator.strategy == Strategy::InverseLookup,
        evaluator.spec_curve(points, evaluated) is Ok,
    ensures
        pins_start(points) ==> -1 <= points.first().x <= 1,
        pins_end(points) && evaluator.segments >= 1 ==> UNIT - 1 <= points.last().x <= UNIT + 1,
{
    lemma_inverse_lookup_abscissae(evaluator, points, evaluated);
}

/// Neighbouring uniform positions are an equal share of `UNIT` apart, up to
/// the one millionth that rounding down takes.
pub proof fn lemma_positions_evenly_spaced(i: int, segments: int)
    requires
        0 <= i < segments,
    ensures
        (UNIT as int) / segments <= uniform_position(i + 1, segments) - uniform_position(i, segments)
            <= (UNIT as int) / segments + 1,
{
    let a = (i * UNIT) / segments;
    let b = ((i + 1) * UNIT) / segments;
    let q = (UNIT as int) / segments;
    assert(q <= b - a <= q + 1) by (nonlinear_arith)
        requires
            0 <= i < segments,
            UNIT == 1_000_000,
            a == (i * UNIT) / segments,
            b == ((i + 1) * UNIT) / segments,
            q == (UNIT as int) / segments,
    ;
}

/// The samples that the evaluator accepts for a cubic curve are answers to
/// the positions that it lists: as many samples as positions, at least one,
/// under inverse lookup the abscissa of each sample is the position that it
/// answers, and the ends lie on the control points that pin them.
pub proof fn lemma_accepted_samples_answer_the_parameters(
    evaluator: CurveEvaluator,
    points: Seq<Point>,
    evaluated: Seq<Point>,
)
    requires
        evaluator.densifies(),
    ensures
        evaluator.accepts(points, evaluated) <==> {
            let positions = evaluator.spec_parameters();
            &&& evaluated.len() == positions.len()
            &&& evaluated.len() >= 1
            &&& evaluator.strategy == Strategy::InverseLookup ==> forall|i: int|
                0 <= i < evaluated.len() ==> (#[trigger] evaluated[i]).x == positions[i]
            &&& pins_start(points) ==> close_to(evaluated.first(), points.first())
            &&& pins_end(points) ==> close_to(evaluated.last(), points.last())
        },
{
    let positions = evaluator.spec_parameters();
    let n = evaluator.segments as int;
    assert forall|i: int| 0 <= i < positions.len() implies #[trigger] positions[i]
        == uniform_position(i, n) by {
        lemma_position_in_range(i, n);
    }
}

/// Uniform positions grow with their index.
pub proof fn lemma_positions_ordered(i: int, j: int, segments: int)
    requires
        0 <= i <= j,
    ensures
        uniform_position(i, segments) <= uniform_position(j, segments),
{
    if segments > 0 {
        assert((i * UNIT) / segments <= (j * UNIT) / segments) by (nonlinear_arith)
            requires
                0 <= i <= j,
                segments > 0,
                UNIT == 1_000_000,
        ;
    }
}

/// The positions at which a cubic curve is sampled cover the whole unit
/// interval, under either strategy: they start at `0`, end at `UNIT`, never
/// decrease and never leave `0..=UNIT`. A spline is therefore evaluated at
/// both ends of its domain, and a curve by inverse lookup spans the whole
/// width of the render target.
pub proof fn lemma_parameters_span_unit_interval(evaluator: CurveEvaluator)
    requires
        evaluator.densifies(),
        evaluator.segments >= 1,
    ensures
        ({
            let positions = evaluator.spec_parameters();
            &&& positions.len() == evaluator.segments + 1
            &&& positions.first() == 0
            &&& positions.last() == UNIT
            &&& forall|i: int| 0 <= i < positions.len() ==> 0 <= #[trigger] positions[i] <= UNIT
            &&& forall|i: int, j: int|
                0 <= i <= j < positions.len() ==> positions[i] <= positions[j]
        }),
{
    let positions = evaluator.spec_parameters();
    let n = evaluator.segments as int;
    assert((n * UNIT) / n == UNIT) by (nonlinear_arith)
        requires
            n >= 1,
            UNIT == 1_000_000,
    ;
    assert forall|i: int| 0 <= i < positions.len() implies 0 <= #[trigger] positions[i]
        <= UNIT by {
        lemma_position_in_range(i, n);
    }
    assert forall|i: int, j: int| 0 <= i <= j < positions.len() implies positions[i]
        <= positions[j] by {
        lemma_position_in_range(i, n);
        lemma_position_in_range(j, n);
        lemma_positions_ordered(i, j, n);
    }
}

} // verus!
