//! Three-point piecewise-linear curves over the parameter range `[0, ONE]`.

use crate::fixed::{
    between, lemma_lerp_between, lemma_lerp_remainder, interpolated, Point, HALF, ONE,
};
use vstd::prelude::*;

verus! {

/// How a curve moves from one control point to the next.
#[derive(Clone, Copy, PartialEq, Eq, Structural, Debug)]
pub enum Interpolation {
    /// In a straight line, at constant speed.
    Linear,
}

/// A position that a curve passes through at parameter `t`.
#[derive(Clone, Copy, PartialEq, Eq, Structural, Debug)]
pub struct ControlPoint {
    pub t: i64,
    pub position: Point,
    pub interpolation: Interpolation,
}

/// Why a curve could not be built or sampled.
#[derive(Clone, Copy, PartialEq, Eq, Structural, Debug)]
pub enum CurveError {
    /// The control points are not three points at `0`, `HALF` and `ONE`.
    MalformedCurve,
    /// The parameter of a strict sample lies outside `[0, ONE]`.
    OutOfRange,
}

/// A curve through three control points, at the parameters `0`, `HALF` and `ONE`.
///
/// Its view is the sequence of its control points.
#[derive(Clone, Copy, PartialEq, Eq, Debug)]
pub struct Curve {
    first: ControlPoint,
    middle: ControlPoint,
    last: ControlPoint,
}

/// Whether `keys` are the control points of a curve: three of them, at the
/// parameters `0`, `HALF` and `ONE`.
pub open spec fn well_formed(keys: Seq<ControlPoint>) -> bool {
    &&& keys.len() == 3
    &&& keys[0].t == 0
    &&& keys[1].t == HALF
    &&& keys[2].t == ONE
}

/// The point at parameter `t` on the straight segment from `a` to `b`.
pub open spec fn segment_at(a: ControlPoint, b: ControlPoint, t: int) -> Point {
    Point::lerp(a.position, b.position, t - a.t, b.t - a.t)
}

/// The point at parameter `t` on the curve through `keys`, with `t` clamped
/// to the curve's range.
pub open spec fn sample_at(keys: Seq<ControlPoint>, t: int) -> Point {
    if t <= keys[0].t {
        keys[0].position
    } else if t >= keys[2].t {
        keys[2].position
    } else if t < keys[1].t {
        segment_at(keys[0], keys[1], t)
    } else {
        segment_at(keys[1], keys[2], t)
    }
}

/// Whether `p` lies, on both axes, between some two of three positions.
pub open spec fn spanned(p: Point, a: Point, b: Point, c: Point) -> bool {
    &&& between(p.x as int, a.x as int, b.x as int) || between(p.x as int, b.x as int, c.x as int)
    &&& between(p.y as int, a.y as int, b.y as int) || between(p.y as int, b.y as int, c.y as int)
}

/// A sampled point lies on one of the two segments: on each axis it is
/// between the ends of the first or of the second. At the parameters of the
/// control points the curve passes through their positions.
pub proof fn lemma_sample_spanned(keys: Seq<ControlPoint>, t: int)
    requires
        well_formed(keys),
    ensures
        spanned(sample_at(keys, t), keys[0].position, keys[1].position, keys[2].position),
        sample_at(keys, 0) == keys[0].position,
        sample_at(keys, HALF as int) == keys[1].position,
        sample_at(keys, ONE as int) == keys[2].position,
{
    let a = keys[0].position;
    let b = keys[1].position;
    let c = keys[2].position;
    lemma_lerp_between(b.x as int, c.x as int, 0, HALF as int);
    lemma_lerp_between(b.y as int, c.y as int, 0, HALF as int);
    if 0 < t < HALF {
        lemma_lerp_between(a.x as int, b.x as int, t, HALF as int);
        lemma_lerp_between(a.y as int, b.y as int, t, HALF as int);
    } else if HALF <= t < ONE {
        lemma_lerp_between(b.x as int, c.x as int, t - HALF, HALF as int);
        lemma_lerp_between(b.y as int, c.y as int, t - HALF, HALF as int);
    }
}

/// Near its end a curve is near its last control point: on the second
/// segment, what is left of the way to the end is the segment's extent times
/// the share of the parameter range that is left, up to one unit of rounding.
pub proof fn lemma_sample_nears_end(keys: Seq<ControlPoint>, t: int)
    requires
        well_formed(keys),
        HALF <= t <= ONE,
    ensures
        0 <= (keys[2].position.x - sample_at(keys, t).x) * HALF - (keys[2].position.x
            - keys[1].position.x) * (ONE - t) < HALF,
        0 <= (keys[2].position.y - sample_at(keys, t).y) * HALF - (keys[2].position.y
            - keys[1].position.y) * (ONE - t) < HALF,
{
    let b = keys[1].position;
    let c = keys[2].position;
    lemma_lerp_between(b.x as int, c.x as int, t - HALF, HALF as int);
    lemma_lerp_between(b.y as int, c.y as int, t - HALF, HALF as int);
    lemma_lerp_remainder(b.x as int, c.x as int, t - HALF, HALF as int);
    lemma_lerp_remainder(b.y as int, c.y as int, t - HALF, HALF as int);
}

impl ControlPoint {
    pub fn new(t: i64, position: Point, interpolation: Interpolation) -> (key: ControlPoint)
        ensures
            key == (ControlPoint { t, position, interpolation }),
    {
        ControlPoint { t, position, interpolation }
    }
}

impl View for Curve {
    type V = Seq<ControlPoint>;

    closed spec fn view(&self) -> Seq<ControlPoint> {
        seq![self.first, self.middle, self.last]
    }
}

impl Curve {
    #[verifier::type_invariant]
    spec fn inv(self) -> bool {
        well_formed(self@)
    }

    /// Builds the curve through `points`.
    ///
    /// Fails with `MalformedCurve` unless there are exactly three points, at
    /// the parameters `0`, `HALF` and `ONE` in this order.
    pub fn from_vec(points: Vec<ControlPoint>) -> (built: Result<Curve, CurveError>)
        ensures
            well_formed(points@) <==> built is Ok,
            built is Ok ==> built->Ok_0@ == points@,
            built is Err ==> built->Err_0 == CurveError::MalformedCurve,
    {
        if points.len() != 3 {
            return Err(CurveError::MalformedCurve);
        }
        let first = points[0];
        let middle = points[1];
        let last = points[2];
        if first.t != 0 || middle.t != HALF || last.t != ONE {
            return Err(CurveError::MalformedCurve);
        }
        let curve = Curve { first, middle, last };
        assert(curve@ =~= points@);
        Ok(curve)
    }

    /// The three control points, in the order of their parameters.
    pub fn keys(&self) -> (keys: Vec<ControlPoint>)
        ensures
            keys@ == self@,
            well_formed(keys@),
    {
        proof {
            use_type_invariant(self);
        }
        let mut keys: Vec<ControlPoint> = Vec::new();
        keys.push(self.first);
        keys.push(self.middle);
        keys.push(self.last);
        assert(keys@ =~= self@);
        keys
    }

    /// The control point at which the curve ends.
    pub fn last(&self) -> (key: ControlPoint)
        ensures
            key == self@[2],
            well_formed(self@),
    {
        proof {
            use_type_invariant(self);
        }
        self.last
    }

    /// The position at parameter `t`, with `t` clamped to `[0, ONE]`.
    ///
    /// At or below `0` this is the first control point's position, at or
    /// above `ONE` the last one's; in between, the point on the segment that
    /// `t` falls in.
    pub fn sample_clamped(&self, t: i64) -> (p: Point)
        ensures
            well_formed(self@),
            p == sample_at(self@, t as int),
            t <= 0 ==> p == self@[0].position,
            t >= ONE ==> p == self@[2].position,
            0 < t < HALF ==> p == Point::lerp(self@[0].position, self@[1].position, t as int, HALF as int),
            HALF <= t < ONE ==> p == Point::lerp(
                self@[1].position,
                self@[2].position,
                t - HALF,
                HALF as int,
            ),
            spanned(p, self@[0].position, self@[1].position, self@[2].position),
    {
        proof {
            use_type_invariant(self);
            lemma_sample_spanned(self@, t as int);
        }
        if t <= 0 {
            self.first.position
        } else if t >= ONE {
            self.last.position
        } else if t < HALF {
            let a = self.first.position;
            let b = self.middle.position;
            Point { x: interpolated(a.x, b.x, t, HALF), y: interpolated(a.y, b.y, t, HALF) }
        } else {
            let a = self.middle.position;
            let b = self.last.position;
            Point { x: interpolated(a.x, b.x, t - HALF, HALF), y: interpolated(a.y, b.y, t - HALF, HALF) }
        }
    }

    /// The position at parameter `t`, or `OutOfRange` where `t` lies outside
    /// `[0, ONE]`.
    pub fn sample(&self, t: i64) -> (sampled: Result<Point, CurveError>)
        ensures
            well_formed(self@),
            0 <= t <= ONE ==> sampled == Ok::<Point, CurveError>(sample_at(self@, t as int)),
            !(0 <= t <= ONE) ==> sampled == Err::<Point, CurveError>(CurveError::OutOfRange),
    {
        if t < 0 || t > ONE {
            proof {
                use_type_invariant(self);
            }
            Err(CurveError::OutOfRange)
        } else {
            Ok(self.sample_clamped(t))
        }
    }
}

} // verus!
