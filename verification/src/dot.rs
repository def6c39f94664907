//! A drifting dot and its cycle of curves.
//!
//! A dot travels along a curve of three control points around its anchor.
//! Each step moves its progress forward; when the progress reaches `ONE` the
//! curve is replaced by one that starts where the old one ended.

use crate::curve::{
    lemma_sample_nears_end, lemma_sample_spanned, sample_at, well_formed, ControlPoint, Curve,
    Interpolation,
};
use crate::fixed::{
    lemma_fraction_bounds, scale, scaled, unit_from_word, unit_of, Point, COORD_MAX, HALF, ONE,
};
use crate::random::next_word;
use rand::rngs::ThreadRng;
use vstd::prelude::*;

verus! {

/// The random words that a spawn consumes, in the order in which it draws
/// them: an `(x, y)` pair for each control point, then the starting progress.
#[derive(Clone, Copy, PartialEq, Eq, Debug)]
pub struct SpawnDraws {
    pub first: (u32, u32),
    pub middle: (u32, u32),
    pub last: (u32, u32),
    pub phase: u32,
}

/// The random words that a rotation consumes: an `(x, y)` pair for each of
/// the two fresh control points.
#[derive(Clone, Copy, PartialEq, Eq, Debug)]
pub struct RotationDraws {
    pub middle: (u32, u32),
    pub last: (u32, u32),
}

/// A dot: the curve it travels on, how far along it is, and where that is.
///
/// Anchor and radius never change; every control point and the position lie
/// in the square `[anchor, anchor + radius]`, and the progress in `[0, ONE)`.
#[derive(Clone, Copy, PartialEq, Eq, Debug)]
pub struct Dot {
    pos: Point,
    anchor: Point,
    radius: i64,
    spline: Curve,
    progress: i64,
}

/// What a dot is, as plain mathematical values.
pub ghost struct DotModel {
    pub anchor: Point,
    pub radius: int,
    pub curve: Seq<ControlPoint>,
    pub progress: int,
    pub position: Point,
}

/// The control point at parameter `t` and position `p`.
pub open spec fn key(t: int, p: Point) -> ControlPoint {
    ControlPoint { t: t as i64, position: p, interpolation: Interpolation::Linear }
}

/// The point `anchor + (U, V) * radius`, where `U` and `V` are the fractions
/// that the words `draw.0` and `draw.1` stand for.
pub open spec fn jitter(anchor: Point, radius: int, draw: (u32, u32)) -> Point {
    Point::offset(anchor, radius, unit_of(draw.0), unit_of(draw.1))
}

impl DotModel {
    /// Anchor and radius are in range, the curve has its three control
    /// points, the progress lies in `[0, ONE)`, and the control points and
    /// the position lie in the square `[anchor, anchor + radius]`.
    pub open spec fn wf(self) -> bool {
        &&& self.anchor.bounded()
        &&& 0 <= self.radius <= COORD_MAX
        &&& well_formed(self.curve)
        &&& self.curve[0].position.within(self.anchor, self.radius)
        &&& self.curve[1].position.within(self.anchor, self.radius)
        &&& self.curve[2].position.within(self.anchor, self.radius)
        &&& 0 <= self.progress < ONE
        &&& self.position.within(self.anchor, self.radius)
    }

    /// The dot that a spawn at `anchor` makes of the draws `d`, where `eased`
    /// is the eased value of its starting progress.
    pub open spec fn spawned(anchor: Point, radius: int, d: SpawnDraws, eased: int) -> DotModel {
        let curve = seq![
            key(0, jitter(anchor, radius, d.first)),
            key(HALF as int, jitter(anchor, radius, d.middle)),
            key(ONE as int, jitter(anchor, radius, d.last)),
        ];
        DotModel {
            anchor,
            radius,
            curve,
            progress: unit_of(d.phase),
            position: sample_at(curve, eased),
        }
    }

    /// The progress after a step of `increment`, before any rotation: the
    /// sum, held at `ONE`.
    pub open spec fn stepped(self, increment: int) -> int {
        if self.progress + increment >= ONE {
            ONE as int
        } else {
            self.progress + increment
        }
    }

    /// Whether a step of `increment` completes the cycle.
    pub open spec fn completes(self, increment: int) -> bool {
        self.progress + increment >= ONE
    }

    /// The dot after a step that does not complete its cycle, where `eased`
    /// is the eased value of the new progress.
    pub open spec fn traveled(self, increment: int, eased: int) -> DotModel {
        DotModel {
            progress: self.progress + increment,
            position: sample_at(self.curve, eased),
            ..self
        }
    }

    /// The dot after a rotation: the new curve starts at the old one's last
    /// control point, and the dot stands at that start.
    pub open spec fn rotated(self, d: RotationDraws) -> DotModel {
        let curve = seq![
            key(0, self.curve[2].position),
            key(HALF as int, jitter(self.anchor, self.radius, d.middle)),
            key(ONE as int, jitter(self.anchor, self.radius, d.last)),
        ];
        DotModel { curve, progress: 0, position: sample_at(curve, 0), ..self }
    }

    /// The dot after one step of `increment`.
    pub open spec fn advanced(self, increment: int, eased: int, d: RotationDraws) -> DotModel {
        if self.completes(increment) {
            self.rotated(d)
        } else {
            self.traveled(increment, eased)
        }
    }
}

/// Whether `ease` may be called on every progress: on every value of
/// `[0, ONE]`.
pub open spec fn takes_progress<F: Fn(i64) -> i64>(ease: &F) -> bool {
    forall|x: i64| 0 <= x <= ONE ==> call_requires(*ease, (x,))
}

/// Whether `ease` may return `eased` for the progress `progress`.
pub open spec fn eases<F: Fn(i64) -> i64>(ease: &F, progress: int, eased: int) -> bool {
    &&& i64::MIN <= eased <= i64::MAX
    &&& call_ensures(*ease, (progress as i64,), eased as i64)
}

/// Whether a spawn at `anchor` with the draws `d` and the easing `ease` may
/// give `dot`.
pub open spec fn spawns<F: Fn(i64) -> i64>(
    ease: &F,
    anchor: Point,
    radius: int,
    d: SpawnDraws,
    dot: DotModel,
) -> bool {
    exists|e: int| #[trigger]
        eases(ease, unit_of(d.phase), e) && dot == DotModel::spawned(anchor, radius, d, e)
}

/// Whether a step of `increment` with the draws `d` and the easing `ease` may
/// take the dot `before` to `after`.
pub open spec fn advances<F: Fn(i64) -> i64>(
    ease: &F,
    before: DotModel,
    increment: int,
    d: RotationDraws,
    after: DotModel,
) -> bool {
    exists|e: int| #[trigger]
        eases(ease, before.stepped(increment), e) && after == before.advanced(increment, e, d)
}

/// Control points drawn around an anchor lie in the anchor's square.
pub proof fn lemma_jitter_within(anchor: Point, radius: int, draw: (u32, u32))
    requires
        anchor.bounded(),
        0 <= radius <= COORD_MAX,
    ensures
        jitter(anchor, radius, draw).within(anchor, radius),
        jitter(anchor, radius, draw).x == anchor.x + scale(radius, unit_of(draw.0)),
        jitter(anchor, radius, draw).y == anchor.y + scale(radius, unit_of(draw.1)),
{
    lemma_fraction_bounds(radius, unit_of(draw.0), ONE as int);
    lemma_fraction_bounds(radius, unit_of(draw.1), ONE as int);
}

/// A point sampled from a curve whose control points lie in a square lies in
/// that square.
pub proof fn lemma_sample_within(keys: Seq<ControlPoint>, t: int, anchor: Point, radius: int)
    requires
        well_formed(keys),
        keys[0].position.within(anchor, radius),
        keys[1].position.within(anchor, radius),
        keys[2].position.within(anchor, radius),
    ensures
        sample_at(keys, t).within(anchor, radius),
{
    lemma_sample_spanned(keys, t);
}

/// A step keeps a dot well formed, whatever the eased value and the draws.
pub proof fn lemma_dot_stays_well_formed(
    m: DotModel,
    increment: int,
    eased: int,
    d: RotationDraws,
)
    requires
        m.wf(),
        0 <= increment,
    ensures
        m.advanced(increment, eased, d).wf(),
        m.advanced(increment, eased, d).anchor == m.anchor,
        m.advanced(increment, eased, d).radius == m.radius,
{
    lemma_jitter_within(m.anchor, m.radius, d.middle);
    lemma_jitter_within(m.anchor, m.radius, d.last);
    lemma_sample_within(m.curve, eased, m.anchor, m.radius);
    lemma_sample_spanned(m.rotated(d).curve, 0);
}

/// A spawned dot is well formed.
pub proof fn lemma_spawned_well_formed(anchor: Point, radius: int, d: SpawnDraws, eased: int)
    requires
        anchor.bounded(),
        0 <= radius <= COORD_MAX,
    ensures
        DotModel::spawned(anchor, radius, d, eased).wf(),
{
    let m = DotModel::spawned(anchor, radius, d, eased);
    lemma_jitter_within(anchor, radius, d.first);
    lemma_jitter_within(anchor, radius, d.middle);
    lemma_jitter_within(anchor, radius, d.last);
    lemma_sample_within(m.curve, eased, anchor, radius);
}

/// A rotation moves nothing: the dot stands where the old curve ended, which
/// is where the new curve starts.
pub proof fn lemma_rotation_is_continuous(m: DotModel, d: RotationDraws)
    requires
        m.wf(),
    ensures
        m.rotated(d).position == sample_at(m.curve, ONE as int),
        m.rotated(d).position == sample_at(m.rotated(d).curve, 0),
        m.rotated(d).curve[0].position == m.curve[2].position,
{
}

/// A rotation makes no jump. Where the dot stood at the parameter `t` of the
/// second segment before its cycle completed, the way from there to where it
/// stands after the rotation is the segment's extent times the share of the
/// parameter range that was left, up to one unit of rounding: nothing at
/// `t == ONE`, and ever less as `t` nears it.
pub proof fn lemma_no_jump_at_rotation(m: DotModel, d: RotationDraws, t: int)
    requires
        m.wf(),
        HALF <= t <= ONE,
    ensures
        0 <= (m.rotated(d).position.x - sample_at(m.curve, t).x) * HALF - (m.curve[2].position.x
            - m.curve[1].position.x) * (ONE - t) < HALF,
        0 <= (m.rotated(d).position.y - sample_at(m.curve, t).y) * HALF - (m.curve[2].position.y
            - m.curve[1].position.y) * (ONE - t) < HALF,
        t == ONE ==> m.rotated(d).position == sample_at(m.curve, t),
{
    lemma_rotation_is_continuous(m, d);
    lemma_sample_nears_end(m.curve, t);
}

/// A step never moves the progress backwards unless it wraps it to `0`, and
/// never takes it to `ONE` or beyond.
pub proof fn lemma_progress_monotone(m: DotModel, increment: int, eased: int, d: RotationDraws)
    requires
        m.wf(),
        0 <= increment,
    ensures
        0 <= m.advanced(increment, eased, d).progress < ONE,
        m.advanced(increment, eased, d).progress >= m.progress || m.advanced(
            increment,
            eased,
            d,
        ).progress == 0,
        m.advanced(increment, eased, d).progress == 0 <==> m.completes(increment) || (m.progress
            == 0 && increment == 0),
        m.stepped(increment) <= ONE,
{
}

/// A step keeps a dot well formed and leaves its anchor and radius alone.
pub proof fn lemma_advances_well_formed<F: Fn(i64) -> i64>(
    ease: &F,
    before: DotModel,
    increment: int,
    d: RotationDraws,
    after: DotModel,
)
    requires
        before.wf(),
        0 <= increment,
        advances(ease, before, increment, d, after),
    ensures
        after.wf(),
        after.anchor == before.anchor,
        after.radius == before.radius,
        after.progress == 0 || after.progress == before.progress + increment,
{
    let e = choose|e: int| #[trigger]
        eases(ease, before.stepped(increment), e) && after == before.advanced(increment, e, d);
    lemma_dot_stays_well_formed(before, increment, e, d);
}

/// Whether `ease` returns one value only for each progress.
pub open spec fn single_valued<F: Fn(i64) -> i64>(ease: &F) -> bool {
    forall|x: i64, y: i64, z: i64|
        #[trigger] call_ensures(*ease, (x,), y) && #[trigger] call_ensures(*ease, (x,), z) ==> y
            == z
}

/// The draws decide a spawn: whatever the easing, the same anchor, radius and
/// draws give the same curve and the same progress; with an easing that
/// returns one value only, they give the same dot.
pub proof fn lemma_spawn_is_determined<F: Fn(i64) -> i64, G: Fn(i64) -> i64>(
    ease: &F,
    other: &G,
    anchor: Point,
    radius: int,
    d: SpawnDraws,
    a: DotModel,
    b: DotModel,
    c: DotModel,
)
    requires
        spawns(ease, anchor, radius, d, a),
        spawns(other, anchor, radius, d, b),
        spawns(ease, anchor, radius, d, c),
    ensures
        a.curve == b.curve,
        a.progress == b.progress,
        a.anchor == b.anchor && a.radius == b.radius,
        single_valued(ease) ==> a == c,
{
}

/// The draws decide a step: with an easing that returns one value only, the
/// same dot, increment and draws give the same dot.
pub proof fn lemma_advance_is_determined<F: Fn(i64) -> i64>(
    ease: &F,
    before: DotModel,
    increment: int,
    d: RotationDraws,
    a: DotModel,
    b: DotModel,
)
    requires
        advances(ease, before, increment, d, a),
        advances(ease, before, increment, d, b),
    ensures
        a.curve == b.curve,
        a.progress == b.progress,
        single_valued(ease) ==> a == b,
{
}

/// The point `anchor + (U, V) * radius` for the words of `draw`.
pub fn jittered(anchor: Point, radius: i64, draw: (u32, u32)) -> (p: Point)
    requires
        anchor.bounded(),
        0 <= radius <= COORD_MAX,
    ensures
        p == jitter(anchor, radius as int, draw),
        p.within(anchor, radius as int),
{
    proof {
        lemma_jitter_within(anchor, radius as int, draw);
    }
    let dx = scaled(radius, unit_from_word(draw.0));
    let dy = scaled(radius, unit_from_word(draw.1));
    Point { x: anchor.x + dx, y: anchor.y + dy }
}

/// The curve through three positions, at the parameters `0`, `HALF` and `ONE`.
fn curve_through(a: Point, b: Point, c: Point) -> (curve: Curve)
    ensures
        curve@ == seq![key(0, a), key(HALF as int, b), key(ONE as int, c)],
{
    let mut points: Vec<ControlPoint> = Vec::new();
    points.push(ControlPoint::new(0, a, Interpolation::Linear));
    points.push(ControlPoint::new(HALF, b, Interpolation::Linear));
    points.push(ControlPoint::new(ONE, c, Interpolation::Linear));
    assert(points@ =~= seq![key(0, a), key(HALF as int, b), key(ONE as int, c)]);
    Curve::from_vec(points).unwrap()
}

impl View for Dot {
    type V = DotModel;

    closed spec fn view(&self) -> DotModel {
        DotModel {
            anchor: self.anchor,
            radius: self.radius as int,
            curve: self.spline@,
            progress: self.progress as int,
            position: self.pos,
        }
    }
}

impl Dot {
    #[verifier::type_invariant]
    spec fn inv(self) -> bool {
        self@.wf()
    }

    /// Spawns a dot at `anchor` from the draws `draws`.
    ///
    /// Each control point is `anchor + (U, V) * radius` for its pair of
    /// draws, the progress starts at the fraction of `draws.phase`, and the
    /// position is the curve's point at the eased progress.
    pub fn spawn_with<F: Fn(i64) -> i64>(
        anchor: Point,
        radius: i64,
        draws: SpawnDraws,
        ease: &F,
    ) -> (dot: Dot)
        requires
            anchor.bounded(),
            0 <= radius <= COORD_MAX,
            takes_progress(ease),
        ensures
            spawns(ease, anchor, radius as int, draws, dot@),
            dot@.wf(),
    {
        let first = jittered(anchor, radius, draws.first);
        let middle = jittered(anchor, radius, draws.middle);
        let last = jittered(anchor, radius, draws.last);
        let spline = curve_through(first, middle, last);
        let progress = unit_from_word(draws.phase);
        let eased = ease(progress);
        let pos = spline.sample_clamped(eased);
        proof {
            lemma_spawned_well_formed(anchor, radius as int, draws, eased as int);
            assert(unit_of(draws.phase) as i64 == progress);
            assert(eases(ease, unit_of(draws.phase), eased as int));
        }
        Dot { pos, anchor, radius, spline, progress }
    }

    /// Spawns a dot at `anchor` from seven words of `rng`.
    pub fn new<F: Fn(i64) -> i64>(anchor: Point, radius: i64, ease: &F, rng: &mut ThreadRng) -> (dot:
        Dot)
        requires
            anchor.bounded(),
            0 <= radius <= COORD_MAX,
            takes_progress(ease),
        ensures
            exists|d: SpawnDraws| #[trigger] spawns(ease, anchor, radius as int, d, dot@),
            dot@.wf(),
            dot@.anchor == anchor,
            dot@.radius == radius,
    {
        let first = (next_word(rng), next_word(rng));
        let middle = (next_word(rng), next_word(rng));
        let last = (next_word(rng), next_word(rng));
        let phase = next_word(rng);
        let draws = SpawnDraws { first, middle, last, phase };
        Dot::spawn_with(anchor, radius, draws, ease)
    }

    /// The point `anchor + (U, V) * radius` for the words of `draw`.
    pub fn point_with(&self, draw: (u32, u32)) -> (p: Point)
        ensures
            p == jitter(self@.anchor, self@.radius, draw),
            p.within(self@.anchor, self@.radius),
    {
        proof {
            use_type_invariant(self);
        }
        jittered(self.anchor, self.radius, draw)
    }

    /// A fresh random point of the dot's square, from two words of `rng`.
    pub fn point(&self, rng: &mut ThreadRng) -> (p: Point)
        ensures
            exists|draw: (u32, u32)| p == #[trigger] jitter(self@.anchor, self@.radius, draw),
            p.within(self@.anchor, self@.radius),
    {
        let draw = (next_word(rng), next_word(rng));
        self.point_with(draw)
    }

    /// Whether a step of `increment` would complete the dot's cycle.
    pub fn completes(&self, increment: u32) -> (done: bool)
        ensures
            done == self@.completes(increment as int),
    {
        proof {
            use_type_invariant(self);
        }
        self.progress + (increment as i64) >= ONE
    }

    /// Moves the dot one step of `increment` along its cycle.
    ///
    /// The progress grows by `increment`, held at `ONE`, and the position
    /// becomes the curve's point at the eased progress. Where the progress
    /// reaches `ONE`, the curve is replaced: the new one starts at the old
    /// one's last control point and runs through two fresh points made of
    /// `draws`; the progress returns to `0` and the dot stands at the new
    /// curve's start.
    pub fn advance_with<F: Fn(i64) -> i64>(&mut self, increment: u32, ease: &F, draws: RotationDraws)
        requires
            takes_progress(ease),
        ensures
            advances(ease, old(self)@, increment as int, draws, final(self)@),
            final(self)@.wf(),
            final(self)@.anchor == old(self)@.anchor,
            final(self)@.radius == old(self)@.radius,
            final(self)@.progress < ONE,
            final(self)@.progress == 0 || final(self)@.progress == old(self)@.progress + increment,
            old(self)@.completes(increment as int) ==> final(self)@.position == old(
                self,
            )@.curve[2].position,
    {
        proof {
            use_type_invariant(&*self);
        }
        let ghost before = self@;
        let sum: i64 = self.progress + (increment as i64);
        let progress: i64 = if sum >= ONE { ONE } else { sum };
        let eased = ease(progress);
        let pos = self.spline.sample_clamped(eased);
        proof {
            lemma_dot_stays_well_formed(before, increment as int, eased as int, draws);
            assert(eases(ease, before.stepped(increment as int), eased as int));
        }
        if progress >= ONE {
            let first = self.spline.last().position;
            let middle = self.point_with(draws.middle);
            let last = self.point_with(draws.last);
            let spline = curve_through(first, middle, last);
            let start = spline.sample(0).unwrap();
            *self = Dot { pos: start, anchor: self.anchor, radius: self.radius, spline, progress: 0 };
        } else {
            *self = Dot { pos, anchor: self.anchor, radius: self.radius, spline: self.spline, progress };
        }
    }

    /// Moves the dot one step of `increment`, drawing from `rng` the four
    /// words of a rotation where the step completes the cycle.
    pub fn advance<F: Fn(i64) -> i64>(&mut self, increment: u32, ease: &F, rng: &mut ThreadRng)
        requires
            takes_progress(ease),
        ensures
            exists|d: RotationDraws| #[trigger]
                advances(ease, old(self)@, increment as int, d, final(self)@),
            final(self)@.wf(),
            final(self)@.anchor == old(self)@.anchor,
            final(self)@.radius == old(self)@.radius,
            final(self)@.progress < ONE,
            final(self)@.progress == 0 || final(self)@.progress == old(self)@.progress + increment,
            old(self)@.completes(increment as int) ==> final(self)@.position == old(
                self,
            )@.curve[2].position,
    {
        let draws = if self.completes(increment) {
            RotationDraws {
                middle: (next_word(rng), next_word(rng)),
                last: (next_word(rng), next_word(rng)),
            }
        } else {
            RotationDraws { middle: (0, 0), last: (0, 0) }
        };
        self.advance_with(increment, ease, draws);
    }

    pub fn anchor(&self) -> (anchor: Point)
        ensures
            anchor == self@.anchor,
    {
        self.anchor
    }

    pub fn radius(&self) -> (radius: i64)
        ensures
            radius == self@.radius,
    {
        self.radius
    }

    pub fn progress(&self) -> (progress: i64)
        ensures
            progress == self@.progress,
            0 <= progress < ONE,
    {
        proof {
            use_type_invariant(self);
        }
        self.progress
    }

    pub fn position(&self) -> (position: Point)
        ensures
            position == self@.position,
    {
        self.pos
    }

    pub fn curve(&self) -> (curve: Curve)
        ensures
            curve@ == self@.curve,
    {
        self.spline
    }
}

} // verus!
