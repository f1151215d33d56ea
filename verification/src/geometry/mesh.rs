//! Triangles, and meshes made of them.

use vstd::prelude::*;
use crate::fixed::{floor_div, quotient, ratio};
use crate::geometry::intersection::{
    is_nearest, lemma_choice_is_nearest_outcome, lemma_hit_at_distance, lemma_nearest_extends,
    lemma_nearest_is_unique, lemma_some_hit_has_a_nearest, nearest_outcome, picks_nearest,
    stays_nearest, Intersection,
};
use crate::geometry::quaternion::Quaternion;
use crate::geometry::plane::{facing, lemma_facing_normal_faces_ray};
use crate::geometry::ray::{Ray, REACH};
use crate::geometry::vec3::{fitted, narrowed, Vec3};
use crate::fixed::lemma_quotient_shift;
use crate::geometry::wide::{along_axis, lemma_axis_step_back, Triple, Wide};
use crate::fixed::clamp;

verus! {

/// A triangle with the corners `a`, `b` and `c`, and a unit normal.
#[derive(Clone, Copy, PartialEq, Eq, Debug, Structural)]
pub struct Triangle {
    pub a: Vec3,
    pub b: Vec3,
    pub c: Vec3,
    pub normal: Vec3,
}

/// The unit normal of the triangle with the given corners: at right angles to
/// the edges from `a` to `b` and from `a` to `c`, and zero where the corners
/// lie on one line.
pub open spec fn normal_of(a: Vec3, b: Vec3, c: Vec3) -> Vec3 {
    narrowed(b@.minus(a@).unit().cross(c@.minus(a@).unit()).unit())
}

impl Triangle {
    /// The edge from `a` to `b`.
    pub open spec fn edge1(self) -> Triple {
        self.b@.minus(self.a@)
    }

    /// The edge from `a` to `c`.
    pub open spec fn edge2(self) -> Triple {
        self.c@.minus(self.a@)
    }

    /// The vector from `a` to the ray's origin.
    pub open spec fn offset(self, ray: Ray) -> Triple {
        ray.position@.minus(self.a@)
    }

    /// The determinant of the system that places the ray in the triangle's
    /// plane. It is zero where the ray runs along the plane.
    pub open spec fn determinant(self, ray: Ray) -> int {
        self.edge1().dot(ray.direction@.cross(self.edge2()))
    }

    /// The determinant times the share of edge 1 in the point of crossing.
    pub open spec fn first(self, ray: Ray) -> int {
        self.offset(ray).dot(ray.direction@.cross(self.edge2()))
    }

    /// The determinant times the share of edge 2 in the point of crossing.
    pub open spec fn second(self, ray: Ray) -> int {
        ray.direction@.dot(self.offset(ray).cross(self.edge1()))
    }

    /// The determinant times the distance of the crossing along the ray.
    pub open spec fn along(self, ray: Ray) -> int {
        self.edge2().dot(self.offset(ray).cross(self.edge1()))
    }

    /// Whether the ray's line crosses the plane inside the triangle, its
    /// edges counted in: neither share is negative, and together they are at
    /// most one.
    pub open spec fn contains_crossing(self, ray: Ray) -> bool {
        let det = self.determinant(ray);
        let u = self.first(ray);
        let v = self.second(ray);
        if det > 0 {
            0 <= u <= det && 0 <= v && u + v <= det
        } else if det < 0 {
            det <= u <= 0 && v <= 0 && u + v >= det
        } else {
            false
        }
    }

    /// The distance along the ray at which it crosses the triangle's plane,
    /// in 65536ths of the direction's length and rounded down.
    pub open spec fn crossing(self, ray: Ray) -> int {
        quotient(self.along(ray) * 65_536, self.determinant(ray))
    }

    /// Whether the ray hits the triangle ahead of its origin and within
    /// reach.
    pub open spec fn hit_by(self, ray: Ray) -> bool {
        self.contains_crossing(ray) && 0 < self.crossing(ray) <= REACH
    }

    /// The hit of a ray that hits the triangle.
    pub open spec fn hit(self, ray: Ray) -> Intersection {
        let t = self.crossing(ray);
        Intersection {
            position: ray.at(t),
            tangent: Vec3 { x: 0, y: 0, z: 0 },
            normal: facing(self.normal, ray),
            distance_squared: (t * t) as u128,
        }
    }

    /// What a ray finds at the triangle: its hit, or nothing.
    pub open spec fn outcome(self, ray: Ray) -> Option<Intersection> {
        if self.hit_by(ray) {
            Some(self.hit(ray))
        } else {
            None
        }
    }

    /// The triangle with the given corners.
    pub fn new(a: Vec3, b: Vec3, c: Vec3) -> (triangle: Triangle)
        ensures
            triangle == (Triangle { a, b, c, normal: normal_of(a, b, c) }),
    {
        let e1 = Wide::between(&b, &a).unit();
        let e2 = Wide::between(&c, &a).unit();
        let normal = Wide::of(&e1).cross(&Wide::of(&e2), Ghost(65_536), Ghost(65_536)).unit();
        Triangle { a, b, c, normal }
    }

    /// The hit of a ray on the triangle, found by the method of Möller and
    /// Trumbore: where the ray crosses the triangle's plane inside the
    /// triangle and ahead of its origin, with the triangle's normal turned to
    /// face the ray. A ray that runs along the plane hits nothing.
    pub fn intersect(&self, ray: &Ray) -> (hit: Option<Intersection>)
        requires
            ray.direction.is_direction(),
        ensures
            hit == self.outcome(*ray),
            hit matches Some(found) ==> found.lies_ahead_on(*ray),
            hit matches Some(found) ==> (self.normal.is_direction() ==> found.faces(*ray)),
    {
        let d = Wide::of(&ray.direction);
        let e1 = Wide::between(&self.b, &self.a);
        let e2 = Wide::between(&self.c, &self.a);
        let p = d.cross(&e2, Ghost(65_536), Ghost(0xFFFF_FFFF));
        let det: i128 = e1.dot(&p, Ghost(0xFFFF_FFFF), Ghost(0x2_0000_0000_0000));
        if det == 0 {
            return None;
        }
        let tv = Wide::between(&ray.position, &self.a);
        let u: i128 = tv.dot(&p, Ghost(0xFFFF_FFFF), Ghost(0x2_0000_0000_0000));
        let q = tv.cross(&e1, Ghost(0xFFFF_FFFF), Ghost(0xFFFF_FFFF));
        let v: i128 = d.dot(&q, Ghost(65_536), Ghost(0x2_0000_0000_0000_0000));
        let inside: bool = if det > 0 {
            0 <= u && u <= det && 0 <= v && u + v <= det
        } else {
            det <= u && u <= 0 && v <= 0 && u + v >= det
        };
        if !inside {
            return None;
        }
        let along: i128 = e2.dot(&q, Ghost(0xFFFF_FFFF), Ghost(0x2_0000_0000_0000_0000));
        let t: i128 = ratio(along * 65_536, det);
        if t <= 0 || t > REACH as i128 {
            return None;
        }
        assert(0 < t * t <= 0x100_0000_0000 * 0x100_0000_0000) by (nonlinear_arith)
            requires
                0 < t <= 0x100_0000_0000,
        ;
        let approach: i128 = Wide::of(&self.normal).dot(&d, Ghost(0x8000_0000), Ghost(65_536));
        let turned = if approach > 0 {
            Vec3 {
                x: clamp(-(self.normal.x as i128)),
                y: clamp(-(self.normal.y as i128)),
                z: clamp(-(self.normal.z as i128)),
            }
        } else {
            self.normal
        };
        let hit = Intersection::new(ray.point_at(t as u64), turned, Vec3::new(0, 0, 0), (t * t) as u128);
        proof {
            lemma_hit_at_distance(*ray, hit, t as int);
            if self.normal.is_direction() {
                lemma_facing_normal_faces_ray(self.normal, *ray);
            }
        }
        Some(hit)
    }
}

/// The triangle with the given corners and the normal that belongs to them.
pub open spec fn made(a: Vec3, b: Vec3, c: Vec3) -> Triangle {
    Triangle { a, b, c, normal: normal_of(a, b, c) }
}

/// The triangle moved by a vector.
pub open spec fn moved(t: Triangle, by: Vec3) -> Triangle {
    made(fitted(t.a@.plus(by@)), fitted(t.b@.plus(by@)), fitted(t.c@.plus(by@)))
}

/// The triangle with every corner scaled by the factor `f`, which counts
/// 65536ths, away from or towards the origin.
pub open spec fn grown(t: Triangle, f: i32) -> Triangle {
    made(
        fitted(t.a@.times(f as int).over(65_536)),
        fitted(t.b@.times(f as int).over(65_536)),
        fitted(t.c@.times(f as int).over(65_536)),
    )
}

/// The triangle with every corner turned about the origin.
pub open spec fn turned(t: Triangle, q: Quaternion) -> Triangle {
    made(t.a.rotated(q), t.b.rotated(q), t.c.rotated(q))
}

/// Every triangle moved by a vector.
pub open spec fn translated(ts: Seq<Triangle>, by: Vec3) -> Seq<Triangle> {
    Seq::new(ts.len(), |i: int| moved(ts[i], by))
}

/// Every triangle scaled about the origin.
pub open spec fn scaled(ts: Seq<Triangle>, f: i32) -> Seq<Triangle> {
    Seq::new(ts.len(), |i: int| grown(ts[i], f))
}

/// Every triangle turned about the origin.
pub open spec fn rotated(ts: Seq<Triangle>, q: Quaternion) -> Seq<Triangle> {
    Seq::new(ts.len(), |i: int| turned(ts[i], q))
}

/// The smaller of two coordinates.
pub open spec fn least(a: i32, b: i32) -> i32 {
    if a <= b {
        a
    } else {
        b
    }
}

/// The larger of two coordinates.
pub open spec fn most(a: i32, b: i32) -> i32 {
    if a >= b {
        a
    } else {
        b
    }
}

/// The low corner of the smallest box, with its sides along the axes, that
/// holds all the triangles. For no triangles it is the highest point of space.
pub open spec fn box_low(ts: Seq<Triangle>) -> Vec3
    decreases ts.len(),
{
    if ts.len() == 0 {
        Vec3 { x: i32::MAX, y: i32::MAX, z: i32::MAX }
    } else {
        let rest = box_low(ts.drop_last());
        let t = ts.last();
        Vec3 {
            x: least(rest.x, least(t.a.x, least(t.b.x, t.c.x))),
            y: least(rest.y, least(t.a.y, least(t.b.y, t.c.y))),
            z: least(rest.z, least(t.a.z, least(t.b.z, t.c.z))),
        }
    }
}

/// The high corner of the smallest box, with its sides along the axes, that
/// holds all the triangles. For no triangles it is the lowest point of space.
pub open spec fn box_high(ts: Seq<Triangle>) -> Vec3
    decreases ts.len(),
{
    if ts.len() == 0 {
        Vec3 { x: i32::MIN, y: i32::MIN, z: i32::MIN }
    } else {
        let rest = box_high(ts.drop_last());
        let t = ts.last();
        Vec3 {
            x: most(rest.x, most(t.a.x, most(t.b.x, t.c.x))),
            y: most(rest.y, most(t.a.y, most(t.b.y, t.c.y))),
            z: most(rest.z, most(t.a.z, most(t.b.z, t.c.z))),
        }
    }
}

/// Whether a point lies in the box between two corners.
pub open spec fn boxed(low: Vec3, high: Vec3, point: Vec3) -> bool {
    &&& low.x <= point.x <= high.x
    &&& low.y <= point.y <= high.y
    &&& low.z <= point.z <= high.z
}

/// The bounding box holds every corner of every triangle.
pub proof fn lemma_box_holds_corners(ts: Seq<Triangle>, i: int)
    requires
        0 <= i < ts.len(),
    ensures
        boxed(box_low(ts), box_high(ts), ts[i].a),
        boxed(box_low(ts), box_high(ts), ts[i].b),
        boxed(box_low(ts), box_high(ts), ts[i].c),
    decreases ts.len(),
{
    if i < ts.len() - 1 {
        lemma_box_holds_corners(ts.drop_last(), i);
    }
}

/// The point halfway between two points, every coordinate rounded down.
pub open spec fn midpoint(low: Vec3, high: Vec3) -> Vec3 {
    Vec3 {
        x: ((low.x + high.x) / 2) as i32,
        y: ((low.y + high.y) / 2) as i32,
        z: ((low.z + high.z) / 2) as i32,
    }
}

fn lesser(a: i32, b: i32) -> (r: i32)
    ensures
        r == least(a, b),
{
    if a <= b {
        a
    } else {
        b
    }
}

fn greater(a: i32, b: i32) -> (r: i32)
    ensures
        r == most(a, b),
{
    if a >= b {
        a
    } else {
        b
    }
}

fn halfway(a: i32, b: i32) -> (r: i32)
    ensures
        r == (a + b) / 2,
{
    floor_div(a as i128 + b as i128, 2) as i32
}

/// Whether every triangle has a normal that can be a direction, as every
/// triangle made by `Triangle::new` has.
pub open spec fn unit_normals(ts: Seq<Triangle>) -> bool {
    forall|i: int| 0 <= i < ts.len() ==> (#[trigger] ts[i]).normal.is_direction()
}

/// A mesh: a list of triangles with their bounding box.
pub struct Mesh {
    triangles: Vec<Triangle>,
    low: Vec3,
    high: Vec3,
}

impl View for Mesh {
    type V = Seq<Triangle>;

    /// The triangles of the mesh, in their order.
    closed spec fn view(&self) -> Seq<Triangle> {
        self.triangles@
    }
}

impl Mesh {
    /// Whether the mesh holds the bounding box of its triangles. Every mesh
    /// that this module hands out does.
    pub closed spec fn wf(&self) -> bool {
        self.low == box_low(self.triangles@) && self.high == box_high(self.triangles@)
    }

    /// What a ray finds at each triangle, in the order of the triangles.
    pub open spec fn outcomes(&self, ray: Ray) -> Seq<Option<Intersection>> {
        Seq::new(self@.len(), |i: int| self@[i].outcome(ray))
    }

    /// What a ray finds at each of the listed triangles, in the order of the
    /// list. A number that names no triangle finds nothing.
    pub open spec fn outcomes_among(&self, ray: Ray, candidates: Seq<usize>) -> Seq<
        Option<Intersection>,
    > {
        Seq::new(
            candidates.len(),
            |k: int|
                if candidates[k] < self@.len() {
                    self@[candidates[k] as int].outcome(ray)
                } else {
                    None
                },
        )
    }

    /// The mesh of the given triangles.
    pub fn new(triangles: Vec<Triangle>) -> (mesh: Mesh)
        ensures
            mesh.wf(),
            mesh@ == triangles@,
    {
        let mut low = Vec3 { x: i32::MAX, y: i32::MAX, z: i32::MAX };
        let mut high = Vec3 { x: i32::MIN, y: i32::MIN, z: i32::MIN };
        let mut at: usize = 0;
        while at < triangles.len()
            invariant
                at <= triangles.len(),
                low == box_low(triangles@.take(at as int)),
                high == box_high(triangles@.take(at as int)),
            decreases triangles.len() - at,
        {
            let t = triangles[at];
            proof {
                let grown = triangles@.take(at + 1);
                assert(grown.drop_last() =~= triangles@.take(at as int));
                assert(grown.last() == t);
            }
            low = Vec3 {
                x: lesser(low.x, lesser(t.a.x, lesser(t.b.x, t.c.x))),
                y: lesser(low.y, lesser(t.a.y, lesser(t.b.y, t.c.y))),
                z: lesser(low.z, lesser(t.a.z, lesser(t.b.z, t.c.z))),
            };
            high = Vec3 {
                x: greater(high.x, greater(t.a.x, greater(t.b.x, t.c.x))),
                y: greater(high.y, greater(t.a.y, greater(t.b.y, t.c.y))),
                z: greater(high.z, greater(t.a.z, greater(t.b.z, t.c.z))),
            };
            at += 1;
        }
        assert(triangles@.take(at as int) =~= triangles@);
        Mesh { triangles, low, high }
    }

    /// The two corners of the bounding box: the low one and the high one.
    pub fn aabb(&self) -> (corners: (Vec3, Vec3))
        requires
            self.wf(),
        ensures
            corners == (box_low(self@), box_high(self@)),
    {
        (self.low, self.high)
    }

    /// The middle of the bounding box.
    pub fn get_center(&self) -> (center: Vec3)
        requires
            self.wf(),
        ensures
            center == midpoint(box_low(self@), box_high(self@)),
    {
        Vec3 {
            x: halfway(self.low.x, self.high.x),
            y: halfway(self.low.y, self.high.y),
            z: halfway(self.low.z, self.high.z),
        }
    }

    /// The number of triangles.
    pub fn len(&self) -> (count: usize)
        ensures
            count == self@.len(),
    {
        self.triangles.len()
    }

    /// Triangle `index`, or `None` where the mesh has no such triangle.
    pub fn triangle(&self, index: usize) -> (found: Option<Triangle>)
        ensures
            index < self@.len() ==> found == Some(self@[index as int]),
            index >= self@.len() ==> found is None,
    {
        if index < self.triangles.len() {
            Some(self.triangles[index])
        } else {
            None
        }
    }

    /// The mesh moved by a vector, built anew.
    pub fn translate(self, translation: Vec3) -> (mesh: Mesh)
        ensures
            mesh.wf(),
            mesh@ == translated(self@, translation),
    {
        let mut triangles: Vec<Triangle> = Vec::new();
        let mut at: usize = 0;
        while at < self.triangles.len()
            invariant
                at <= self.triangles.len(),
                triangles@ == translated(self.triangles@, translation).take(at as int),
            decreases self.triangles.len() - at,
        {
            let t = self.triangles[at];
            triangles.push(
                Triangle::new(t.a.add(&translation), t.b.add(&translation), t.c.add(&translation)),
            );
            at += 1;
            assert(triangles@ =~= translated(self.triangles@, translation).take(at as int));
        }
        assert(triangles@ =~= translated(self.triangles@, translation));
        Mesh::new(triangles)
    }

    /// The mesh scaled by the factor `factor`, which counts 65536ths, built
    /// anew. The mesh is first moved so that the middle of its bounding box
    /// lies in the origin, and is scaled there.
    pub fn scale(self, factor: i32) -> (mesh: Mesh)
        requires
            self.wf(),
        ensures
            mesh.wf(),
            mesh@ == scaled(
                translated(self@, midpoint(box_low(self@), box_high(self@)).scaled_by(-65_536)),
                factor,
            ),
    {
        let mid = self.get_center();
        let centred = self.translate(mid.scale(-65_536));
        let mut triangles: Vec<Triangle> = Vec::new();
        let mut at: usize = 0;
        while at < centred.triangles.len()
            invariant
                at <= centred.triangles.len(),
                triangles@ == scaled(centred.triangles@, factor).take(at as int),
            decreases centred.triangles.len() - at,
        {
            let t = centred.triangles[at];
            triangles.push(Triangle::new(t.a.scale(factor), t.b.scale(factor), t.c.scale(factor)));
            at += 1;
            assert(triangles@ =~= scaled(centred.triangles@, factor).take(at as int));
        }
        assert(triangles@ =~= scaled(centred.triangles@, factor));
        Mesh::new(triangles)
    }

    /// The mesh turned about the middle of its bounding box, built anew: it
    /// is moved so that the middle lies in the origin, turned there, and
    /// moved back.
    pub fn rotate(self, rotation: Quaternion) -> (mesh: Mesh)
        requires
            self.wf(),
        ensures
            mesh.wf(),
            mesh@ == translated(
                rotated(
                    translated(self@, midpoint(box_low(self@), box_high(self@)).scaled_by(-65_536)),
                    rotation,
                ),
                midpoint(box_low(self@), box_high(self@)),
            ),
    {
        let mid = self.get_center();
        let centred = self.translate(mid.scale(-65_536));
        let mut triangles: Vec<Triangle> = Vec::new();
        let mut at: usize = 0;
        while at < centred.triangles.len()
            invariant
                at <= centred.triangles.len(),
                triangles@ == rotated(centred.triangles@, rotation).take(at as int),
            decreases centred.triangles.len() - at,
        {
            let t = centred.triangles[at];
            triangles.push(
                Triangle::new(t.a.rotate(&rotation), t.b.rotate(&rotation), t.c.rotate(&rotation)),
            );
            at += 1;
            assert(triangles@ =~= rotated(centred.triangles@, rotation).take(at as int));
        }
        assert(triangles@ =~= rotated(centred.triangles@, rotation));
        Mesh::new(triangles).translate(mid)
    }

    /// The nearest hit of a ray on the mesh: every triangle is tried, and of
    /// the hits the nearest is kept, the first of them where several are
    /// equally near.
    pub fn intersect(&self, ray: &Ray) -> (hit: Option<Intersection>)
        requires
            ray.direction.is_direction(),
        ensures
            hit == nearest_outcome(self.outcomes(*ray)),
            hit matches Some(found) ==> found.lies_ahead_on(*ray),
            hit matches Some(found) ==> (unit_normals(self@) ==> found.faces(*ray)),
    {
        let ghost outcomes = self.outcomes(*ray);
        let ghost mut chosen: Option<int> = None;
        let mut best: Option<Intersection> = None;
        let mut at: usize = 0;
        while at < self.triangles.len()
            invariant
                at <= self.triangles.len(),
                ray.direction.is_direction(),
                outcomes == self.outcomes(*ray),
                picks_nearest(outcomes.take(at as int), chosen),
                best == match chosen {
                    Some(i) => outcomes[i],
                    None => None,
                },
                chosen matches Some(i) ==> 0 <= i < at,
                best matches Some(found) ==> found.lies_ahead_on(*ray),
                best matches Some(found) ==> (unit_normals(self.triangles@) ==> found.faces(*ray)),
            decreases self.triangles.len() - at,
        {
            let next = self.triangles[at].intersect(ray);
            proof {
                let grown = outcomes.take(at + 1);
                assert(grown.drop_last() =~= outcomes.take(at as int));
                assert(grown.last() == next);
                lemma_nearest_extends(grown, chosen);
            }
            if !stays_nearest(&best, &next) {
                best = next;
                proof {
                    chosen = Some(at as int);
                }
            }
            at += 1;
        }
        proof {
            assert(outcomes.take(at as int) =~= outcomes);
            lemma_choice_is_nearest_outcome(outcomes, chosen);
        }
        best
    }

    /// The nearest hit of a ray on the listed triangles of the mesh. This is
    /// the query for a caller that has culled the triangles beforehand.
    pub fn intersect_among(&self, ray: &Ray, candidates: &Vec<usize>) -> (hit: Option<Intersection>)
        requires
            ray.direction.is_direction(),
        ensures
            hit == nearest_outcome(self.outcomes_among(*ray, candidates@)),
            hit matches Some(found) ==> found.lies_ahead_on(*ray),
            hit matches Some(found) ==> (unit_normals(self@) ==> found.faces(*ray)),
    {
        let ghost outcomes = self.outcomes_among(*ray, candidates@);
        let ghost mut chosen: Option<int> = None;
        let mut best: Option<Intersection> = None;
        let mut at: usize = 0;
        while at < candidates.len()
            invariant
                at <= candidates.len(),
                ray.direction.is_direction(),
                outcomes == self.outcomes_among(*ray, candidates@),
                picks_nearest(outcomes.take(at as int), chosen),
                best == match chosen {
                    Some(i) => outcomes[i],
                    None => None,
                },
                chosen matches Some(i) ==> 0 <= i < at,
                best matches Some(found) ==> found.lies_ahead_on(*ray),
                best matches Some(found) ==> (unit_normals(self.triangles@) ==> found.faces(*ray)),
            decreases candidates.len() - at,
        {
            let index: usize = candidates[at];
            let next = if index < self.triangles.len() {
                self.triangles[index].intersect(ray)
            } else {
                None
            };
            proof {
                let grown = outcomes.take(at + 1);
                assert(grown.drop_last() =~= outcomes.take(at as int));
                assert(grown.last() == next);
                lemma_nearest_extends(grown, chosen);
            }
            if !stays_nearest(&best, &next) {
                best = next;
                proof {
                    chosen = Some(at as int);
                }
            }
            at += 1;
        }
        proof {
            assert(outcomes.take(at as int) =~= outcomes);
            lemma_choice_is_nearest_outcome(outcomes, chosen);
        }
        best
    }
}

/// Why a list of faces could not be turned into triangles.
#[derive(Clone, Copy, PartialEq, Eq, Debug, Structural)]
pub enum FaceError {
    /// The face at this place in the list does not have three corners.
    NotTriangular { face: usize },
    /// The face at this place in the list names a vertex that does not exist.
    NoSuchVertex { face: usize },
}

/// Whether a face has exactly three corners.
pub open spec fn triangular(face: Seq<i32>) -> bool {
    face.len() == 3
}

/// Whether every corner of a triangular face names one of `count` vertices.
pub open spec fn corners_exist(face: Seq<i32>, count: int) -> bool {
    0 <= face[0] < count && 0 <= face[1] < count && 0 <= face[2] < count
}

/// Whether a face can be turned into a triangle.
pub open spec fn sound(face: Seq<i32>, count: int) -> bool {
    triangular(face) && corners_exist(face, count)
}

/// The triangle between the three vertices that a sound face names.
pub open spec fn face_triangle(vertices: Seq<Vec3>, face: Seq<i32>) -> Triangle {
    made(vertices[face[0] as int], vertices[face[1] as int], vertices[face[2] as int])
}

/// Turns faces, each a list of vertex numbers, into triangles. Every face
/// must have three corners, and every corner must name a vertex of the list.
/// Where a face does not, the first such face is reported, and of its two
/// possible faults the wrong number of corners first.
pub fn assemble(vertices: &Vec<Vec3>, faces: &Vec<Vec<i32>>) -> (made: Result<
    Vec<Triangle>,
    FaceError,
>)
    ensures
        match made {
            Ok(triangles) => {
                &&& triangles@.len() == faces@.len()
                &&& forall|i: int|
                    0 <= i < faces@.len() ==> sound(#[trigger] faces@[i]@, vertices@.len() as int)
                &&& forall|i: int|
                    0 <= i < faces@.len() ==> #[trigger] triangles@[i] == face_triangle(
                        vertices@,
                        faces@[i]@,
                    )
            },
            Err(FaceError::NotTriangular { face }) => {
                &&& face < faces@.len()
                &&& !triangular(faces@[face as int]@)
                &&& forall|i: int| 0 <= i < face ==> sound(#[trigger] faces@[i]@, vertices@.len() as int)
            },
            Err(FaceError::NoSuchVertex { face }) => {
                &&& face < faces@.len()
                &&& triangular(faces@[face as int]@)
                &&& !corners_exist(faces@[face as int]@, vertices@.len() as int)
                &&& forall|i: int| 0 <= i < face ==> sound(#[trigger] faces@[i]@, vertices@.len() as int)
            },
        },
{
    let mut triangles: Vec<Triangle> = Vec::new();
    let mut at: usize = 0;
    while at < faces.len()
        invariant
            at <= faces.len(),
            triangles@.len() == at,
            forall|i: int| 0 <= i < at ==> sound(#[trigger] faces@[i]@, vertices@.len() as int),
            forall|i: int|
                0 <= i < at ==> #[trigger] triangles@[i] == face_triangle(vertices@, faces@[i]@),
        decreases faces.len() - at,
    {
        let face = &faces[at];
        if face.len() != 3 {
            return Err(FaceError::NotTriangular { face: at });
        }
        let a: i32 = face[0];
        let b: i32 = face[1];
        let c: i32 = face[2];
        if a < 0 || b < 0 || c < 0 {
            return Err(FaceError::NoSuchVertex { face: at });
        }
        if a as usize >= vertices.len() || b as usize >= vertices.len() || c as usize
            >= vertices.len() {
            return Err(FaceError::NoSuchVertex { face: at });
        }
        triangles.push(
            Triangle::new(vertices[a as usize], vertices[b as usize], vertices[c as usize]),
        );
        at += 1;
    }
    Ok(triangles)
}

/// Whether the list names every triangle that the ray hits, and names the
/// triangles in ascending order.
pub open spec fn covers_hits(outcomes: Seq<Option<Intersection>>, candidates: Seq<usize>) -> bool {
    &&& forall|i: int|
        0 <= i < outcomes.len() && (#[trigger] outcomes[i]) is Some ==> exists|k: int|
            0 <= k < candidates.len() && #[trigger] candidates[k] == i
    &&& forall|j: int, k: int|
        0 <= j < k < candidates.len() ==> (#[trigger] candidates[j]) < (#[trigger] candidates[k])
}

/// Culling is safe: the query among listed triangles finds the hit that the
/// query among all triangles finds, as long as the list names every triangle
/// that the ray hits, in ascending order. It may name any others as well.
pub proof fn lemma_culling_keeps_the_hit(mesh: Mesh, ray: Ray, candidates: Seq<usize>)
    requires
        covers_hits(mesh.outcomes(ray), candidates),
    ensures
        nearest_outcome(mesh.outcomes_among(ray, candidates)) == nearest_outcome(mesh.outcomes(ray)),
{
    let all = mesh.outcomes(ray);
    let some = mesh.outcomes_among(ray, candidates);
    if exists|k: int| is_nearest(some, k) {
        let k = choose|k: int| is_nearest(some, k);
        let c = candidates[k] as int;
        assert(some[k] == all[c]);
        assert forall|i: int| 0 <= i < all.len() && (#[trigger] all[i]) is Some implies all[c].unwrap().distance_squared
            <= all[i].unwrap().distance_squared && (i < c ==> all[c].unwrap().distance_squared
            < all[i].unwrap().distance_squared) by {
            let j = choose|j: int| 0 <= j < candidates.len() && #[trigger] candidates[j] == i;
            assert(some[j] == all[i]);
            if i < c {
                assert(j < k) by {
                    if j > k {
                        assert(candidates[k] < candidates[j]);
                    }
                }
            }
        }
        assert(is_nearest(all, c));
        let chosen = choose|i: int| is_nearest(all, i);
        lemma_nearest_is_unique(all, c, chosen);
    } else {
        assert forall|i: int| !is_nearest(all, i) by {
            if is_nearest(all, i) {
                let j = choose|j: int| 0 <= j < candidates.len() && #[trigger] candidates[j] == i;
                assert(some[j] == all[i]);
                lemma_some_hit_has_a_nearest(some, j);
            }
        }
    }
}

/// The cross product of a vector along one axis with any vector: nothing
/// along that axis, and the vector's other two components, swapped and
/// scaled, along the other two. The components are taken in the order of
/// the axis, the axis after it and the axis before it.
proof fn lemma_axis_cross(ua: int, un: int, uq: int, va: int, vn: int, vq: int)
    requires
        un == 0,
        uq == 0,
    ensures
        un * vq - uq * vn == 0,
        uq * va - ua * vq == -(ua * vq),
        ua * vn - un * va == ua * vn,
{
    assert(un * vq == 0 && uq * vn == 0 && uq * va == 0 && un * va == 0) by (nonlinear_arith)
        requires
            un == 0,
            uq == 0,
    ;
}

/// The dot product of a vector along one axis with a vector that has
/// nothing along that axis is nothing.
proof fn lemma_dot_with_axis(ua: int, un: int, uq: int, va: int, vn: int, vq: int)
    requires
        un == 0,
        uq == 0,
        va == 0,
    ensures
        ua * va + un * vn + uq * vq == 0,
        un * vn + uq * vq + ua * va == 0,
        uq * vq + ua * va + un * vn == 0,
{
    assert(ua * va == 0 && un * vn == 0 && uq * vq == 0) by (nonlinear_arith)
        requires
            un == 0,
            uq == 0,
            va == 0,
    ;
}

/// The dot product with a vector that has nothing along one axis takes the
/// other two components only.
proof fn lemma_dot_without_axis(ua: int, un: int, uq: int, va: int, vn: int, vq: int)
    requires
        va == 0,
    ensures
        ua * va + un * vn + uq * vq == un * vn + uq * vq,
        un * vn + uq * vq + ua * va == un * vn + uq * vq,
        uq * vq + ua * va + un * vn == un * vn + uq * vq,
{
    assert(ua * va == 0) by (nonlinear_arith)
        requires
            va == 0,
    ;
}

/// What the step `w` along an axis adds to the distance of a crossing, held
/// against the determinant that the direction `d` along the same axis gives
/// with the same two edges.
proof fn lemma_axis_dots(w: int, d: int, m: int, e1n: int, e1q: int, e2n: int, e2q: int)
    requires
        w * 65_536 == d * m,
    ensures
        (e2n * (-(w * e1q)) + e2q * (w * e1n)) * 65_536 == -(m * (e1n * (-(d * e2q)) + e1q * (d
            * e2n))),
{
    let tilt = e2q * e1n - e2n * e1q;
    assert(e2n * (-(w * e1q)) + e2q * (w * e1n) == w * tilt) by (nonlinear_arith)
        requires
            tilt == e2q * e1n - e2n * e1q,
    ;
    assert(e1n * (-(d * e2q)) + e1q * (d * e2n) == -(d * tilt)) by (nonlinear_arith)
        requires
            tilt == e2q * e1n - e2n * e1q,
    ;
    assert((w * tilt) * 65_536 == (w * 65_536) * tilt) by (nonlinear_arith);
    assert((d * m) * tilt == m * (d * tilt)) by (nonlinear_arith);
    let turn = d * tilt;
    assert(m * (-turn) == -(m * turn)) by (nonlinear_arith);
    assert((e2n * (-(w * e1q)) + e2q * (w * e1n)) * 65_536 == m * turn);
    assert(e1n * (-(d * e2q)) + e1q * (d * e2n) == -turn);
}

/// Moving the origin of a ray along an axis by `m` along the ray does not
/// change where the ray's line crosses a triangle's plane, and moves the
/// distance of the crossing by `m` the other way.
proof fn lemma_axis_ray_shift(triangle: Triangle, ray: Ray, moved: Ray, m: int)
    requires
        along_axis(ray.direction@),
        moved.direction == ray.direction,
        moved.position@ == ray.position@.plus(ray.direction@.times(m).over(65_536)),
    ensures
        triangle.determinant(moved) == triangle.determinant(ray),
        triangle.first(moved) == triangle.first(ray),
        triangle.second(moved) == triangle.second(ray),
        triangle.along(moved) * 65_536 == triangle.along(ray) * 65_536 - m * triangle.determinant(
            ray,
        ),
{
    let d = ray.direction@;
    let e1 = triangle.edge1();
    let e2 = triangle.edge2();
    let tv = triangle.offset(ray);
    let tv2 = triangle.offset(moved);
    let w = d.times(m).over(65_536);
    assert((65_536 * m) / 65_536 == m);
    assert((-65_536 * m) / 65_536 == -m);
    assert((0 * m) / 65_536 == 0);
    assert(tv2 == tv.plus(w));
    let p = d.cross(e2);
    let q = tv.cross(e1);
    let q2 = tv2.cross(e1);
    let wq = w.cross(e1);
    assert(q2 == q.plus(wq)) by (nonlinear_arith)
        requires
            tv2 == tv.plus(w),
            q == (Triple {
                x: tv.y * e1.z - tv.z * e1.y,
                y: tv.z * e1.x - tv.x * e1.z,
                z: tv.x * e1.y - tv.y * e1.x,
            }),
            q2 == (Triple {
                x: tv2.y * e1.z - tv2.z * e1.y,
                y: tv2.z * e1.x - tv2.x * e1.z,
                z: tv2.x * e1.y - tv2.y * e1.x,
            }),
            wq == (Triple {
                x: w.y * e1.z - w.z * e1.y,
                y: w.z * e1.x - w.x * e1.z,
                z: w.x * e1.y - w.y * e1.x,
            }),
    ;
    assert(w.x * 65_536 == d.x * m && w.y * 65_536 == d.y * m && w.z * 65_536 == d.z * m);
    if d.x != 0 {
        lemma_axis_cross(d.x, d.y, d.z, e2.x, e2.y, e2.z);
        lemma_axis_cross(w.x, w.y, w.z, e1.x, e1.y, e1.z);
        assert(p.x == 0 && p.y == -(d.x * e2.z) && p.z == d.x * e2.y);
        assert(wq.x == 0 && wq.y == -(w.x * e1.z) && wq.z == w.x * e1.y);
        lemma_axis_dots(w.x, d.x, m, e1.y, e1.z, e2.y, e2.z);
        lemma_dot_with_axis(w.x, w.y, w.z, p.x, p.y, p.z);
        lemma_dot_with_axis(d.x, d.y, d.z, wq.x, wq.y, wq.z);
        lemma_dot_without_axis(e2.x, e2.y, e2.z, wq.x, wq.y, wq.z);
        lemma_dot_without_axis(e1.x, e1.y, e1.z, p.x, p.y, p.z);
    } else if d.y != 0 {
        lemma_axis_cross(d.y, d.z, d.x, e2.y, e2.z, e2.x);
        lemma_axis_cross(w.y, w.z, w.x, e1.y, e1.z, e1.x);
        assert(p.y == 0 && p.z == -(d.y * e2.x) && p.x == d.y * e2.z);
        assert(wq.y == 0 && wq.z == -(w.y * e1.x) && wq.x == w.y * e1.z);
        lemma_axis_dots(w.y, d.y, m, e1.z, e1.x, e2.z, e2.x);
        lemma_dot_with_axis(w.y, w.z, w.x, p.y, p.z, p.x);
        lemma_dot_with_axis(d.y, d.z, d.x, wq.y, wq.z, wq.x);
        lemma_dot_without_axis(e2.y, e2.z, e2.x, wq.y, wq.z, wq.x);
        lemma_dot_without_axis(e1.y, e1.z, e1.x, p.y, p.z, p.x);
    } else {
        lemma_axis_cross(d.z, d.x, d.y, e2.z, e2.x, e2.y);
        lemma_axis_cross(w.z, w.x, w.y, e1.z, e1.x, e1.y);
        assert(p.z == 0 && p.x == -(d.z * e2.y) && p.y == d.z * e2.x);
        assert(wq.z == 0 && wq.x == -(w.z * e1.y) && wq.y == w.z * e1.x);
        lemma_axis_dots(w.z, d.z, m, e1.x, e1.y, e2.x, e2.y);
        lemma_dot_with_axis(w.z, w.x, w.y, p.z, p.x, p.y);
        lemma_dot_with_axis(d.z, d.x, d.y, wq.z, wq.x, wq.y);
        lemma_dot_without_axis(e2.z, e2.x, e2.y, wq.z, wq.x, wq.y);
        lemma_dot_without_axis(e1.z, e1.x, e1.y, p.z, p.x, p.y);
    }
    assert(w.dot(p) == 0 && d.dot(wq) == 0 && e2.dot(wq) * 65_536 == -(m * e1.dot(p)));
    assert(tv2.dot(p) == tv.dot(p) + w.dot(p)) by (nonlinear_arith)
        requires
            tv2 == tv.plus(w),
            tv2.dot(p) == tv2.x * p.x + tv2.y * p.y + tv2.z * p.z,
            tv.dot(p) == tv.x * p.x + tv.y * p.y + tv.z * p.z,
            w.dot(p) == w.x * p.x + w.y * p.y + w.z * p.z,
    ;
    assert(d.dot(q2) == d.dot(q) + d.dot(wq) && e2.dot(q2) == e2.dot(q) + e2.dot(wq))
        by (nonlinear_arith)
        requires
            q2 == q.plus(wq),
            d.dot(q2) == d.x * q2.x + d.y * q2.y + d.z * q2.z,
            d.dot(q) == d.x * q.x + d.y * q.y + d.z * q.z,
            d.dot(wq) == d.x * wq.x + d.y * wq.y + d.z * wq.z,
            e2.dot(q2) == e2.x * q2.x + e2.y * q2.y + e2.z * q2.z,
            e2.dot(q) == e2.x * q.x + e2.y * q.y + e2.z * q.z,
            e2.dot(wq) == e2.x * wq.x + e2.y * wq.y + e2.z * wq.z,
    ;
}

/// A hit on a triangle is found again from a step back along an axis: where
/// a ray along an axis hits the triangle at a point that lies in space, the
/// ray that starts `k` before that point and points the same way hits the
/// triangle at the same point, with the same normal, at the distance `k`.
pub proof fn lemma_axis_ray_finds_hit_again(triangle: Triangle, ray: Ray, back: Ray, k: int)
    requires
        along_axis(ray.direction@),
        triangle.hit_by(ray),
        triangle.hit(ray).position@ == ray.position@.plus(
            ray.direction@.times(triangle.crossing(ray)).over(65_536),
        ),
        0 < k <= REACH,
        back.direction == ray.direction,
        back.position@ == triangle.hit(ray).position@.minus(ray.direction@.times(k).over(65_536)),
    ensures
        triangle.hit_by(back),
        triangle.crossing(back) == k,
        triangle.hit(back) == (Intersection {
            distance_squared: (k * k) as u128,
            ..triangle.hit(ray)
        }),
{
    let t = triangle.crossing(ray);
    lemma_axis_step_back(ray.direction@, t, k);
    assert(back.position@ == ray.position@.plus(ray.direction@.times(t - k).over(65_536)));
    lemma_axis_ray_shift(triangle, ray, back, t - k);
    lemma_quotient_shift(triangle.along(ray) * 65_536, triangle.determinant(ray), t - k);
    assert(back.at(k) == triangle.hit(ray).position);
    assert(0 <= k * k <= 0x100_0000_0000 * 0x100_0000_0000) by (nonlinear_arith)
        requires
            0 < k <= 0x100_0000_0000,
    ;
}

} // verus!
