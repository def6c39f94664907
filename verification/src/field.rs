//! The field of dots: population upkeep and the step of every dot.

use crate::curve::well_formed;
use crate::dot::{
    advances, eases, lemma_advances_well_formed, lemma_spawned_well_formed, spawns,
    takes_progress, Dot, DotModel, RotationDraws, SpawnDraws,
};
use crate::fixed::{unit_from_word, unit_of, Point, COORD_MAX, ONE};
use crate::random::next_word;
use rand::rngs::ThreadRng;
use vstd::prelude::*;

verus! {

/// The size of the visible area, in whole pixels.
#[derive(Clone, Copy, PartialEq, Eq, Structural, Debug)]
pub struct Viewport {
    pub width: u32,
    pub height: u32,
}

/// The dots that are alive, in the order in which they were spawned.
///
/// Its view is the sequence of the dots' models.
#[derive(Debug)]
pub struct DotField {
    dots: Vec<Dot>,
}

/// The anchor at the fractions `(U, V)` of the viewport, where `U` and `V`
/// are the fractions that the words of `draw` stand for. A fraction
/// `u / ONE` of `w` whole pixels is `u * w` in fixed point.
pub open spec fn anchor_in(viewport: Viewport, draw: (u32, u32)) -> Point {
    Point {
        x: (unit_of(draw.0) * viewport.width) as i64,
        y: (unit_of(draw.1) * viewport.height) as i64,
    }
}

/// Whether a top-up in `viewport` may have spawned `dot`.
pub open spec fn spawns_in<F: Fn(i64) -> i64>(
    ease: &F,
    viewport: Viewport,
    radius: int,
    dot: DotModel,
) -> bool {
    exists|at: (u32, u32), d: SpawnDraws| #[trigger]
        spawns(ease, anchor_in(viewport, at), radius, d, dot)
}

/// Whether one step of `increment` may take the dot `before` to `after`.
pub open spec fn steps<F: Fn(i64) -> i64>(
    ease: &F,
    before: DotModel,
    increment: int,
    after: DotModel,
) -> bool {
    exists|d: RotationDraws| #[trigger] advances(ease, before, increment, d, after)
}

/// Whether a top-up to `target` dots may take the field `before` to `after`:
/// the dots that were there stay, and dots spawned in the viewport follow
/// them until there are `target`.
pub open spec fn topped_up<F: Fn(i64) -> i64>(
    ease: &F,
    viewport: Viewport,
    radius: int,
    target: nat,
    before: Seq<DotModel>,
    after: Seq<DotModel>,
) -> bool {
    &&& after.len() == if before.len() < target {
        target
    } else {
        before.len()
    }
    &&& forall|i: int| 0 <= i < before.len() ==> after[i] == before[i]
    &&& forall|i: int|
        before.len() <= i < after.len() ==> spawns_in(ease, viewport, radius, #[trigger] after[i])
}

/// Whether one step of `increment` of every dot may take the field `before`
/// to `after`.
pub open spec fn stepped_all<F: Fn(i64) -> i64>(
    ease: &F,
    increment: int,
    before: Seq<DotModel>,
    after: Seq<DotModel>,
) -> bool {
    &&& after.len() == before.len()
    &&& forall|i: int|
        0 <= i < after.len() ==> steps(ease, before[i], increment, #[trigger] after[i])
}

/// Whether every dot of `dots` is well formed.
pub open spec fn all_well_formed(dots: Seq<DotModel>) -> bool {
    forall|i: int| 0 <= i < dots.len() ==> (#[trigger] dots[i]).wf()
}

/// A top-up of well-formed dots gives well-formed dots.
pub proof fn lemma_topped_up_well_formed<F: Fn(i64) -> i64>(
    ease: &F,
    viewport: Viewport,
    radius: int,
    target: nat,
    before: Seq<DotModel>,
    after: Seq<DotModel>,
)
    requires
        0 <= radius <= COORD_MAX,
        all_well_formed(before),
        topped_up(ease, viewport, radius, target, before, after),
    ensures
        all_well_formed(after),
{
    assert forall|i: int| 0 <= i < after.len() implies (#[trigger] after[i]).wf() by {
        if i < before.len() {
            assert(after[i] == before[i]);
        } else {
            lemma_spawned_in_viewport(ease, viewport, radius, after[i]);
        }
    }
}

/// A step of well-formed dots gives well-formed dots: every progress stays
/// in `[0, ONE)`, every curve keeps its three control points, and no dot
/// leaves the square of its anchor.
pub proof fn lemma_stepped_all_well_formed<F: Fn(i64) -> i64>(
    ease: &F,
    increment: int,
    before: Seq<DotModel>,
    after: Seq<DotModel>,
)
    requires
        0 <= increment,
        all_well_formed(before),
        stepped_all(ease, increment, before, after),
    ensures
        all_well_formed(after),
        forall|i: int|
            0 <= i < after.len() ==> (#[trigger] after[i]).progress == 0 || after[i].progress
                == before[i].progress + increment,
{
    assert forall|i: int| 0 <= i < after.len() implies (#[trigger] after[i]).wf() && (
    after[i].progress == 0 || after[i].progress == before[i].progress + increment) by {
        assert(before[i].wf());
        let d = choose|d: RotationDraws| #[trigger]
            advances(ease, before[i], increment, d, after[i]);
        lemma_advances_well_formed(ease, before[i], increment, d, after[i]);
    }
}

/// A top-up of an empty field to `target` dots gives exactly `target` dots,
/// each of them well formed, with a curve of three control points, with the
/// given radius and with its anchor in the viewport.
pub proof fn lemma_top_up_from_empty<F: Fn(i64) -> i64>(
    ease: &F,
    viewport: Viewport,
    radius: int,
    target: nat,
    after: Seq<DotModel>,
)
    requires
        0 <= radius <= COORD_MAX,
        topped_up(ease, viewport, radius, target, Seq::<DotModel>::empty(), after),
    ensures
        after.len() == target,
        forall|i: int|
            0 <= i < target ==> {
                &&& (#[trigger] after[i]).wf()
                &&& well_formed(after[i].curve)
                &&& after[i].radius == radius
                &&& 0 <= after[i].anchor.x <= viewport.width * ONE
                &&& 0 <= after[i].anchor.y <= viewport.height * ONE
            },
{
    assert forall|i: int| 0 <= i < target implies {
        &&& (#[trigger] after[i]).wf()
        &&& well_formed(after[i].curve)
        &&& after[i].radius == radius
        &&& 0 <= after[i].anchor.x <= viewport.width * ONE
        &&& 0 <= after[i].anchor.y <= viewport.height * ONE
    } by {
        lemma_spawned_in_viewport(ease, viewport, radius, after[i]);
    }
}

/// A dot spawned in a viewport is well formed and has its anchor there.
pub proof fn lemma_spawned_in_viewport<F: Fn(i64) -> i64>(
    ease: &F,
    viewport: Viewport,
    radius: int,
    dot: DotModel,
)
    requires
        0 <= radius <= COORD_MAX,
        spawns_in(ease, viewport, radius, dot),
    ensures
        dot.wf(),
        dot.radius == radius,
        0 <= dot.anchor.x <= viewport.width * ONE,
        0 <= dot.anchor.y <= viewport.height * ONE,
{
    let (at, d) = choose|at: (u32, u32), d: SpawnDraws| #[trigger]
        spawns(ease, anchor_in(viewport, at), radius, d, dot);
    let e = choose|e: int| #[trigger]
        eases(ease, unit_of(d.phase), e) && dot == DotModel::spawned(
            anchor_in(viewport, at),
            radius,
            d,
            e,
        );
    lemma_anchor_in_viewport(viewport, at);
    lemma_spawned_well_formed(anchor_in(viewport, at), radius, d, e);
}

/// An anchor drawn in a viewport lies in it, and within the range of anchors.
pub proof fn lemma_anchor_in_viewport(viewport: Viewport, draw: (u32, u32))
    ensures
        0 <= anchor_in(viewport, draw).x <= viewport.width * ONE,
        0 <= anchor_in(viewport, draw).y <= viewport.height * ONE,
        anchor_in(viewport, draw).x == unit_of(draw.0) * viewport.width,
        anchor_in(viewport, draw).y == unit_of(draw.1) * viewport.height,
        anchor_in(viewport, draw).bounded(),
{
    lemma_unit_times_extent(unit_of(draw.0), viewport.width as int);
    lemma_unit_times_extent(unit_of(draw.1), viewport.height as int);
}

/// A fraction of an extent in whole pixels is at most the extent.
proof fn lemma_unit_times_extent(u: int, extent: int)
    by (nonlinear_arith)
    requires
        0 <= u < ONE,
        0 <= extent <= u32::MAX,
    ensures
        0 <= u * extent <= extent * ONE,
        u * extent <= 0xFF_FFFF * 0xFFFF_FFFF,
{
}

/// The anchor at the fractions of `draw` of the viewport.
pub fn spawn_anchor(viewport: Viewport, draw: (u32, u32)) -> (anchor: Point)
    ensures
        anchor == anchor_in(viewport, draw),
        anchor.bounded(),
        0 <= anchor.x <= viewport.width * ONE,
        0 <= anchor.y <= viewport.height * ONE,
{
    proof {
        lemma_anchor_in_viewport(viewport, draw);
        lemma_unit_times_extent(unit_of(draw.0), viewport.width as int);
        lemma_unit_times_extent(unit_of(draw.1), viewport.height as int);
    }
    let x: i64 = unit_from_word(draw.0) * (viewport.width as i64);
    let y: i64 = unit_from_word(draw.1) * (viewport.height as i64);
    Point { x, y }
}

/// The models of `dots`, in their order.
pub open spec fn models(dots: Seq<Dot>) -> Seq<DotModel> {
    dots.map_values(|d: Dot| d@)
}

impl View for DotField {
    type V = Seq<DotModel>;

    closed spec fn view(&self) -> Seq<DotModel> {
        models(self.dots@)
    }
}

impl DotField {
    /// Every dot of a field is well formed.
    #[verifier::type_invariant]
    pub open spec fn inv(self) -> bool {
        all_well_formed(self@)
    }

    /// A field without dots.
    pub fn new() -> (field: DotField)
        ensures
            field@.len() == 0,
    {
        DotField { dots: Vec::new() }
    }

    /// The number of dots.
    pub fn len(&self) -> (n: usize)
        ensures
            n == self@.len(),
            all_well_formed(self@),
    {
        proof {
            use_type_invariant(self);
        }
        self.dots.len()
    }

    /// The dot at index `i`.
    pub fn dot(&self, i: usize) -> (dot: Dot)
        requires
            i < self@.len(),
        ensures
            dot@ == self@[i as int],
            dot@.wf(),
    {
        proof {
            use_type_invariant(self);
            assert(self@[i as int].wf());
        }
        self.dots[i]
    }

    /// Spawns dots until there are `target` of them.
    ///
    /// Each new dot gets an anchor at random fractions of the viewport and
    /// the radius `radius`, and goes to the end of the field. The dots that
    /// were there stay as they are; where there are `target` or more already,
    /// nothing changes.
    pub fn top_up<F: Fn(i64) -> i64>(
        &mut self,
        target: usize,
        viewport: Viewport,
        radius: i64,
        ease: &F,
        rng: &mut ThreadRng,
    )
        requires
            0 <= radius <= COORD_MAX,
            takes_progress(ease),
        ensures
            topped_up(ease, viewport, radius as int, target as nat, old(self)@, final(self)@),
            all_well_formed(final(self)@),
    {
        proof {
            use_type_invariant(&*self);
        }
        let mut held = DotField::new();
        core::mem::swap(self, &mut held);
        let mut dots = held.dots;
        while dots.len() < target
            invariant
                0 <= radius <= COORD_MAX,
                takes_progress(ease),
                old(self)@.len() <= dots@.len(),
                dots@.len() <= target || dots@.len() == old(self)@.len(),
                forall|i: int| 0 <= i < old(self)@.len() ==> models(dots@)[i] == old(self)@[i],
                forall|i: int|
                    old(self)@.len() <= i < dots@.len() ==> spawns_in(
                        ease,
                        viewport,
                        radius as int,
                        #[trigger] models(dots@)[i],
                    ),
                all_well_formed(models(dots@)),
            decreases target - dots.len(),
        {
            let at = (next_word(rng), next_word(rng));
            let anchor = spawn_anchor(viewport, at);
            let dot = Dot::new(anchor, radius, ease, rng);
            let ghost before = models(dots@);
            dots.push(dot);
            proof {
                assert(models(dots@) =~= before.push(dot@));
            }
        }
        *self = DotField { dots };
    }

    /// Moves every dot one step of `increment`, in the order of the field.
    pub fn advance_all<F: Fn(i64) -> i64>(&mut self, increment: u32, ease: &F, rng: &mut ThreadRng)
        requires
            takes_progress(ease),
        ensures
            stepped_all(ease, increment as int, old(self)@, final(self)@),
            all_well_formed(final(self)@),
    {
        let mut held = DotField::new();
        core::mem::swap(self, &mut held);
        let mut dots = held.dots;
        let mut i: usize = 0;
        while i < dots.len()
            invariant
                i <= dots.len(),
                takes_progress(ease),
                dots@.len() == old(self)@.len(),
                forall|k: int|
                    0 <= k < i ==> steps(
                        ease,
                        old(self)@[k],
                        increment as int,
                        #[trigger] models(dots@)[k],
                    ),
                forall|k: int| i <= k < dots@.len() ==> models(dots@)[k] == old(self)@[k],
                forall|k: int| 0 <= k < i ==> (#[trigger] models(dots@)[k]).wf(),
            decreases dots.len() - i,
        {
            let ghost before = models(dots@);
            dots[i].advance(increment, ease, rng);
            proof {
                assert(models(dots@) =~= before.update(i as int, dots@[i as int]@));
            }
            i += 1;
        }
        *self = DotField { dots };
    }
}

} // verus!
