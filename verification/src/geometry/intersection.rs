//! The place where a ray meets a surface.

use vstd::prelude::*;
use crate::fixed::{lemma_sqrt_of_square, sqrt_floor};
use crate::geometry::ray::Ray;
use crate::geometry::vec3::Vec3;

verus! {

/// A hit: the point that was hit, the surface normal there, turned towards the
/// side from which the ray came, a tangent of the surface, and the square of
/// the distance from the ray's origin, which orders the hits along one ray.
#[derive(Clone, Copy, PartialEq, Eq, Debug, Structural)]
pub struct Intersection {
    pub position: Vec3,
    pub tangent: Vec3,
    pub normal: Vec3,
    pub distance_squared: u128,
}

impl Intersection {
    /// The distance of the hit from the ray's origin.
    pub open spec fn distance(self) -> int {
        sqrt_floor(self.distance_squared as int)
    }

    /// Whether the hit lies ahead on the ray: its distance is positive, and
    /// its position is the point of the ray at that distance.
    pub open spec fn lies_ahead_on(self, ray: Ray) -> bool {
        0 < self.distance() && self.position == ray.at(self.distance())
    }

    /// Whether the hit's normal is turned towards the side from which the ray
    /// came: it can be a direction, and it does not point the ray's way.
    pub open spec fn faces(self, ray: Ray) -> bool {
        self.normal.is_direction() && self.normal@.dot(ray.direction@) <= 0
    }

    /// A hit.
    pub fn new(position: Vec3, normal: Vec3, tangent: Vec3, distance_squared: u128) -> (hit:
        Intersection)
        ensures
            hit == (Intersection { position, tangent, normal, distance_squared }),
    {
        Intersection { position, tangent, normal, distance_squared }
    }
}

/// A hit placed at the distance `t` along a ray, with the square of `t` as its
/// squared distance, lies ahead on that ray.
pub proof fn lemma_hit_at_distance(ray: Ray, hit: Intersection, t: int)
    requires
        0 < t,
        hit.distance_squared == t * t,
        hit.position == ray.at(t),
    ensures
        hit.lies_ahead_on(ray),
        hit.distance() == t,
{
    lemma_sqrt_of_square(t);
}

/// Whether outcome `i` is the nearest hit among the outcomes of one ray on
/// several surfaces: it is a hit, no hit is nearer, and every earlier hit is
/// farther, so that of several equally near hits the first is the nearest.
pub open spec fn is_nearest(outcomes: Seq<Option<Intersection>>, i: int) -> bool {
    &&& 0 <= i < outcomes.len()
    &&& outcomes[i] is Some
    &&& forall|j: int|
        0 <= j < outcomes.len() && (#[trigger] outcomes[j]) is Some
            ==> outcomes[i].unwrap().distance_squared <= outcomes[j].unwrap().distance_squared
    &&& forall|j: int|
        0 <= j < i && (#[trigger] outcomes[j]) is Some ==> outcomes[i].unwrap().distance_squared
            < outcomes[j].unwrap().distance_squared
}

/// Whether the ray hit none of the surfaces.
pub open spec fn all_missed(outcomes: Seq<Option<Intersection>>) -> bool {
    forall|j: int| 0 <= j < outcomes.len() ==> (#[trigger] outcomes[j]) is None
}

/// Whether `nearest` names the nearest hit among the outcomes, or rightly
/// says that there is none.
pub open spec fn picks_nearest(outcomes: Seq<Option<Intersection>>, nearest: Option<int>) -> bool {
    match nearest {
        Some(i) => is_nearest(outcomes, i),
        None => all_missed(outcomes),
    }
}

/// Whether the first of two outcomes stays the nearest when the second is
/// found after it: it does unless the second is a hit and strictly nearer
/// than any hit before.
pub open spec fn keeps(best: Option<Intersection>, next: Option<Intersection>) -> bool {
    match next {
        Some(found) => match best {
            Some(held) => held.distance_squared <= found.distance_squared,
            None => false,
        },
        None => true,
    }
}

/// Tells whether the nearest hit so far stays the nearest when a later
/// outcome is held against it.
pub fn stays_nearest(best: &Option<Intersection>, next: &Option<Intersection>) -> (stays: bool)
    ensures
        stays == keeps(*best, *next),
{
    match next {
        Some(found) => match best {
            Some(held) => held.distance_squared <= found.distance_squared,
            None => false,
        },
        None => true,
    }
}

/// One more outcome extends a choice of the nearest hit: the choice stays
/// where the new outcome does not beat it, and moves to the new outcome
/// where it does.
pub proof fn lemma_nearest_extends(outcomes: Seq<Option<Intersection>>, chosen: Option<int>)
    requires
        outcomes.len() > 0,
        picks_nearest(outcomes.drop_last(), chosen),
    ensures
        ({
            let best = match chosen {
                Some(i) => outcomes[i],
                None => None,
            };
            picks_nearest(
                outcomes,
                if keeps(best, outcomes.last()) {
                    chosen
                } else {
                    Some(outcomes.len() - 1)
                },
            )
        }),
{
    let before = outcomes.drop_last();
    assert(forall|j: int| 0 <= j < before.len() ==> before[j] == outcomes[j]);
}

/// The nearest hit is unique: of two choices that both pick the nearest hit,
/// neither differs from the other.
pub proof fn lemma_nearest_is_unique(outcomes: Seq<Option<Intersection>>, i: int, j: int)
    requires
        is_nearest(outcomes, i),
        is_nearest(outcomes, j),
    ensures
        i == j,
{
}

/// Finds the nearest hit among the outcomes of one ray on several surfaces.
/// Returns the position of the nearest hit, the first of them where several
/// are equally near, and `None` exactly where every surface was missed.
pub fn nearest_hit(outcomes: &Vec<Option<Intersection>>) -> (nearest: Option<usize>)
    ensures
        match nearest {
            Some(i) => is_nearest(outcomes@, i as int),
            None => all_missed(outcomes@),
        },
{
    let mut chosen: Option<usize> = None;
    let mut best: Option<Intersection> = None;
    let mut at: usize = 0;
    while at < outcomes.len()
        invariant
            at <= outcomes.len(),
            match chosen {
                Some(i) => is_nearest(outcomes@.take(at as int), i as int) && best == outcomes@[i as int],
                None => all_missed(outcomes@.take(at as int)) && best is None,
            },
        decreases outcomes.len() - at,
    {
        proof {
            let grown = outcomes@.take(at + 1);
            assert(grown.drop_last() =~= outcomes@.take(at as int));
            lemma_nearest_extends(
                grown,
                match chosen {
                    Some(i) => Some(i as int),
                    None => None,
                },
            );
        }
        if !stays_nearest(&best, &outcomes[at]) {
            chosen = Some(at);
            best = outcomes[at];
        }
        at += 1;
    }
    assert(outcomes@.take(at as int) =~= outcomes@);
    chosen
}

/// The nearest hit among the outcomes of one ray on several surfaces, and
/// `None` where every surface was missed.
pub open spec fn nearest_outcome(outcomes: Seq<Option<Intersection>>) -> Option<Intersection> {
    if exists|i: int| is_nearest(outcomes, i) {
        outcomes[choose|i: int| is_nearest(outcomes, i)]
    } else {
        None
    }
}

/// A choice that picks the nearest hit names the nearest outcome.
pub proof fn lemma_choice_is_nearest_outcome(outcomes: Seq<Option<Intersection>>, chosen: Option<int>)
    requires
        picks_nearest(outcomes, chosen),
    ensures
        nearest_outcome(outcomes) == match chosen {
            Some(i) => outcomes[i],
            None => None,
        },
{
    match chosen {
        Some(i) => {
            let j = choose|j: int| is_nearest(outcomes, j);
            lemma_nearest_is_unique(outcomes, i, j);
        },
        None => {
            assert forall|i: int| !is_nearest(outcomes, i) by {
                if 0 <= i < outcomes.len() {
                    assert(outcomes[i] is None);
                }
            }
        },
    }
}

/// Among the first `n` outcomes, of which one is a hit, some hit is the
/// nearest.
proof fn lemma_nearest_among_first(outcomes: Seq<Option<Intersection>>, n: int) -> (i: int)
    requires
        0 <= n <= outcomes.len(),
        exists|j: int| 0 <= j < n && (#[trigger] outcomes[j]) is Some,
    ensures
        is_nearest(outcomes.take(n), i),
    decreases n,
{
    let first = outcomes.take(n);
    let before = outcomes.take(n - 1);
    assert(first.drop_last() =~= before);
    if exists|j: int| 0 <= j < n - 1 && (#[trigger] outcomes[j]) is Some {
        let held = lemma_nearest_among_first(outcomes, n - 1);
        lemma_nearest_extends(first, Some(held));
        if keeps(first[held], first.last()) {
            held
        } else {
            n - 1
        }
    } else {
        assert(all_missed(before));
        lemma_nearest_extends(first, None);
        n - 1
    }
}

/// Where the ray hit anything at all, one of the hits is the nearest.
pub proof fn lemma_some_hit_has_a_nearest(outcomes: Seq<Option<Intersection>>, j: int)
    requires
        0 <= j < outcomes.len(),
        outcomes[j] is Some,
    ensures
        exists|i: int| is_nearest(outcomes, i),
{
    let i = lemma_nearest_among_first(outcomes, outcomes.len() as int);
    assert(outcomes.take(outcomes.len() as int) =~= outcomes);
}

} // verus!
