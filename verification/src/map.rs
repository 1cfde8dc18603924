//! The static map: walls between vertices, and landmarks at vertices.
//!
//! A map answers two questions: what a ray cast from a pose hits first, and
//! which landmarks a pose sees within a field of view. Both are worked out in
//! exact integer arithmetic. The one thing taken from outside is the
//! direction that belongs to an angle, which the map asks of the function
//! `heading` it was built with.

use crate::error::LocalizationError;
use crate::geometry::hit_point;
use crate::geometry::hits;
use crate::geometry::in_window;
use crate::geometry::is_in_window;
use crate::geometry::is_nearer;
use crate::geometry::lemma_no_farther_transitive;
use crate::geometry::meet;
use crate::geometry::no_farther;
use crate::geometry::spec_crossing;
use crate::geometry::spec_hit_point;
use crate::geometry::spec_to_frame;
use crate::geometry::to_frame;
use crate::geometry::within_ray_range;
use crate::geometry::Crossing;
use crate::utility::Point;
use crate::utility::Pose;
use crate::utility::FULL_TURN;
use crate::utility::UNIT;
use vstd::prelude::*;

verus! {

/// The largest magnitude of a vertex coordinate: a thousand map units.
pub const MAX_COORDINATE: i64 = 1_000_000_000;

/// The largest magnitude of a coordinate from which a ray is cast: a million
/// map units. A ray cast from farther out hits nothing.
pub const MAX_RAY_ORIGIN: i64 = 1_000_000_000_000;

/// Whether both coordinates of `p` are within `MAX_COORDINATE` of zero.
pub open spec fn within_map_range(p: Point) -> bool {
    &&& -MAX_COORDINATE <= p.x <= MAX_COORDINATE
    &&& -MAX_COORDINATE <= p.y <= MAX_COORDINATE
}

/// Whether every wall joins two different vertices out of `vertex_count`, and
/// every landmark is one of them.
pub open spec fn indices_valid(
    vertex_count: nat,
    lines: Seq<(usize, usize)>,
    points: Seq<usize>,
) -> bool {
    &&& forall|k: int|
        0 <= k < lines.len() ==> {
            &&& (#[trigger] lines[k]).0 < vertex_count
            &&& lines[k].1 < vertex_count
            &&& lines[k].0 != lines[k].1
        }
    &&& forall|k: int| 0 <= k < points.len() ==> #[trigger] points[k] < vertex_count
}

/// Whether two walls join the same two vertices.
pub open spec fn same_wall(a: (usize, usize), b: (usize, usize)) -> bool {
    a == b || (a.0 == b.1 && a.1 == b.0)
}

/// Whether `walls` holds a wall that joins the same two vertices as `wall`.
pub open spec fn has_wall(walls: Seq<(usize, usize)>, wall: (usize, usize)) -> bool {
    exists|k: int| 0 <= k < walls.len() && same_wall(#[trigger] walls[k], wall)
}

/// Whether no two walls of `walls` join the same two vertices.
pub open spec fn walls_distinct(walls: Seq<(usize, usize)>) -> bool {
    forall|i: int, j: int|
        0 <= i < j < walls.len() ==> !same_wall(#[trigger] walls[i], #[trigger] walls[j])
}

/// The walls of `lines`, each once: where two walls join the same two
/// vertices, the first stays.
pub open spec fn distinct_walls(lines: Seq<(usize, usize)>) -> Seq<(usize, usize)>
    decreases lines.len(),
{
    if lines.len() == 0 {
        Seq::empty()
    } else {
        let before = distinct_walls(lines.drop_last());
        if has_wall(before, lines.last()) {
            before
        } else {
            before.push(lines.last())
        }
    }
}

/// The landmarks of `points`, each once, in the order in which they first
/// occur.
pub open spec fn distinct_points(points: Seq<usize>) -> Seq<usize>
    decreases points.len(),
{
    if points.len() == 0 {
        Seq::empty()
    } else {
        let before = distinct_points(points.drop_last());
        if before.contains(points.last()) {
            before
        } else {
            before.push(points.last())
        }
    }
}

/// Taking each wall once leaves no wall twice, adds no wall, and loses none.
pub proof fn lemma_distinct_walls(lines: Seq<(usize, usize)>)
    ensures
        walls_distinct(distinct_walls(lines)),
        forall|k: int|
            0 <= k < distinct_walls(lines).len() ==> lines.contains(
                #[trigger] distinct_walls(lines)[k],
            ),
        forall|k: int| 0 <= k < lines.len() ==> has_wall(distinct_walls(lines), #[trigger] lines[k]),
    decreases lines.len(),
{
    if lines.len() > 0 {
        let shorter = lines.drop_last();
        let before = distinct_walls(shorter);
        let once = distinct_walls(lines);
        lemma_distinct_walls(shorter);
        assert forall|k: int| 0 <= k < once.len() implies lines.contains(#[trigger] once[k]) by {
            if k < before.len() {
                assert(shorter.contains(before[k]));
                let m = choose|m: int| 0 <= m < shorter.len() && shorter[m] == before[k];
                assert(lines[m] == before[k]);
            } else {
                assert(lines[lines.len() - 1] == once[k]);
            }
        }
        assert forall|k: int| 0 <= k < lines.len() implies has_wall(once, #[trigger] lines[k]) by {
            if k < lines.len() - 1 {
                assert(shorter[k] == lines[k]);
                assert(has_wall(before, shorter[k]));
                let m = choose|m: int| 0 <= m < before.len() && same_wall(#[trigger] before[m], lines[k]);
                assert(same_wall(once[m], lines[k]));
            } else if has_wall(before, lines.last()) {
            } else {
                assert(same_wall(once[once.len() - 1], lines[k]));
            }
        }
    }
}

/// Taking each landmark once leaves no landmark twice, adds no landmark, and
/// loses none.
pub proof fn lemma_distinct_points(points: Seq<usize>)
    ensures
        distinct_points(points).no_duplicates(),
        forall|k: int|
            0 <= k < distinct_points(points).len() ==> points.contains(
                #[trigger] distinct_points(points)[k],
            ),
        forall|k: int|
            0 <= k < points.len() ==> distinct_points(points).contains(#[trigger] points[k]),
    decreases points.len(),
{
    if points.len() > 0 {
        let shorter = points.drop_last();
        let before = distinct_points(shorter);
        let once = distinct_points(points);
        lemma_distinct_points(shorter);
        assert forall|k: int| 0 <= k < once.len() implies points.contains(#[trigger] once[k]) by {
            if k < before.len() {
                assert(shorter.contains(before[k]));
                let m = choose|m: int| 0 <= m < shorter.len() && shorter[m] == before[k];
                assert(points[m] == before[k]);
            } else {
                assert(points[points.len() - 1] == once[k]);
            }
        }
        assert forall|k: int| 0 <= k < points.len() implies once.contains(#[trigger] points[k]) by {
            if k < points.len() - 1 {
                assert(shorter[k] == points[k]);
                assert(before.contains(shorter[k]));
                let m = choose|m: int| 0 <= m < before.len() && before[m] == points[k];
                assert(once[m] == points[k]);
            } else if before.contains(points.last()) {
                let m = choose|m: int| 0 <= m < before.len() && before[m] == points.last();
                assert(once[m] == points[k]);
            } else {
                assert(once[once.len() - 1] == points[k]);
            }
        }
    }
}

/// The walls of `lines`, each once.
pub fn without_repeated_walls(lines: &Vec<(usize, usize)>) -> (once: Vec<(usize, usize)>)
    ensures
        once@ == distinct_walls(lines@),
{
    let mut once: Vec<(usize, usize)> = Vec::new();
    let mut i: usize = 0;
    proof {
        assert(lines@.take(0) == Seq::<(usize, usize)>::empty());
    }
    while i < lines.len()
        invariant
            i <= lines.len(),
            once@ == distinct_walls(lines@.take(i as int)),
        decreases lines.len() - i,
    {
        let wall = lines[i];
        let mut found = false;
        let mut k: usize = 0;
        while k < once.len() && !found
            invariant
                k <= once.len(),
                found ==> has_wall(once@, wall),
                !found ==> forall|m: int| 0 <= m < k ==> !same_wall(#[trigger] once[m], wall),
            decreases once.len() - k + (if found { 0int } else { 1int }),
        {
            let held = once[k];
            if (held.0 == wall.0 && held.1 == wall.1) || (held.0 == wall.1 && held.1 == wall.0) {
                found = true;
            } else {
                k = k + 1;
            }
        }
        proof {
            assert(lines@.take(i + 1).drop_last() == lines@.take(i as int));
            assert(lines@.take(i + 1).last() == wall);
        }
        if !found {
            once.push(wall);
        }
        i = i + 1;
    }
    proof {
        assert(lines@.take(lines.len() as int) == lines@);
    }
    once
}

/// The landmarks of `points`, each once.
pub fn without_repeated_points(points: &Vec<usize>) -> (once: Vec<usize>)
    ensures
        once@ == distinct_points(points@),
{
    let mut once: Vec<usize> = Vec::new();
    let mut i: usize = 0;
    proof {
        assert(points@.take(0) == Seq::<usize>::empty());
    }
    while i < points.len()
        invariant
            i <= points.len(),
            once@ == distinct_points(points@.take(i as int)),
        decreases points.len() - i,
    {
        let point = points[i];
        let mut found = false;
        let mut k: usize = 0;
        while k < once.len() && !found
            invariant
                k <= once.len(),
                found ==> once@.contains(point),
                !found ==> forall|m: int| 0 <= m < k ==> once[m] != point,
            decreases once.len() - k + (if found { 0int } else { 1int }),
        {
            if once[k] == point {
                found = true;
            } else {
                k = k + 1;
            }
        }
        proof {
            assert(points@.take(i + 1).drop_last() == points@.take(i as int));
            assert(points@.take(i + 1).last() == point);
        }
        if !found {
            once.push(point);
        }
        i = i + 1;
    }
    proof {
        assert(points@.take(points.len() as int) == points@);
    }
    once
}

/// Whether every vertex lies within the range of map geometry.
pub open spec fn coordinates_valid(vertices: Seq<Point>) -> bool {
    forall|k: int| 0 <= k < vertices.len() ==> within_map_range(#[trigger] vertices[k])
}

/// Why no map can be built from these parts, if none can.
pub open spec fn construction_failure(
    vertices: Seq<Point>,
    lines: Seq<(usize, usize)>,
    points: Seq<usize>,
) -> Option<LocalizationError> {
    if !indices_valid(vertices.len(), lines, points) {
        Some(LocalizationError::MapIndexOutOfRange)
    } else if !coordinates_valid(vertices) {
        Some(LocalizationError::CoordinateOutOfRange)
    } else {
        None
    }
}

/// The direction that `raw` stands for: `raw` itself where both components
/// are within one unit of zero, and otherwise `raw` with each component cut
/// back to that.
pub open spec fn as_direction(raw: Point) -> Point {
    raw.spec_clamp(
        Point { x: (-UNIT) as i64, y: (-UNIT) as i64 },
        Point { x: UNIT, y: UNIT },
    )
}

/// The crossing of the ray from `origin` along `d` with wall `k`.
pub open spec fn wall_crossing(
    vertices: Seq<Point>,
    lines: Seq<(usize, usize)>,
    origin: Point,
    d: Point,
    k: int,
) -> Crossing {
    spec_crossing(origin, d, vertices[lines[k].0 as int], vertices[lines[k].1 as int])
}

/// Whether `r` is what a ray from `origin` along `d` hits first: nothing, if
/// the origin is out of range or the ray hits no wall; otherwise the point at
/// which it hits a wall that no other hit comes before.
pub open spec fn is_first_hit(
    vertices: Seq<Point>,
    lines: Seq<(usize, usize)>,
    origin: Point,
    d: Point,
    r: Option<Point>,
) -> bool {
    match r {
        None => !within_ray_range(origin) || forall|k: int|
            0 <= k < lines.len() ==> !hits(#[trigger] wall_crossing(vertices, lines, origin, d, k)),
        Some(p) => within_ray_range(origin) && exists|k: int|
            {
                &&& 0 <= k < lines.len()
                &&& hits(#[trigger] wall_crossing(vertices, lines, origin, d, k))
                &&& p == spec_hit_point(
                    vertices[lines[k].0 as int],
                    vertices[lines[k].1 as int],
                    wall_crossing(vertices, lines, origin, d, k),
                )
                &&& forall|j: int|
                    0 <= j < lines.len() && hits(
                        #[trigger] wall_crossing(vertices, lines, origin, d, j),
                    ) ==> no_farther(
                        wall_crossing(vertices, lines, origin, d, k),
                        wall_crossing(vertices, lines, origin, d, j),
                    )
            },
    }
}

/// The landmarks that a viewer at `origin`, looking along `d`, sees within a
/// field of view of width `fov`, in the order of the map and in the viewer's
/// frame. `half` is the direction of the angle `fov / 2`.
pub open spec fn spec_seen(
    vertices: Seq<Point>,
    points: Seq<usize>,
    origin: Point,
    d: Point,
    fov: i64,
    half: Point,
) -> Seq<Point>
    decreases points.len(),
{
    if points.len() == 0 {
        Seq::empty()
    } else {
        let before = spec_seen(vertices, points.drop_last(), origin, d, fov, half);
        let r = spec_to_frame(vertices[points.last() as int], origin, d);
        if in_window(r, fov, half) {
            before.push(r)
        } else {
            before
        }
    }
}

/// With a field of view of a full turn or more, every landmark is seen, and
/// each exactly once: the landmarks seen are the landmarks of the map, one for
/// one and in their order.
pub proof fn lemma_full_turn_sees_every_landmark(
    vertices: Seq<Point>,
    points: Seq<usize>,
    origin: Point,
    d: Point,
    fov: i64,
    half: Point,
)
    requires
        fov >= FULL_TURN,
    ensures
        spec_seen(vertices, points, origin, d, fov, half).len() == points.len(),
        forall|k: int|
            0 <= k < points.len() ==> #[trigger] spec_seen(vertices, points, origin, d, fov, half)[k]
                == spec_to_frame(vertices[points[k] as int], origin, d),
    decreases points.len(),
{
    if points.len() > 0 {
        lemma_full_turn_sees_every_landmark(vertices, points.drop_last(), origin, d, fov, half);
    }
}

/// A map of walls and landmarks. It does not change once it is built.
pub struct Map2D<H: Fn(i64) -> Point> {
    width: i64,
    height: i64,
    vertices: Vec<Point>,
    lines: Vec<(usize, usize)>,
    points: Vec<usize>,
    heading: H,
}

impl<H: Fn(i64) -> Point> Map2D<H> {
    #[verifier::type_invariant]
    spec fn well_formed(&self) -> bool {
        &&& indices_valid(self.vertices@.len(), self.lines@, self.points@)
        &&& walls_distinct(self.lines@)
        &&& self.points@.no_duplicates()
        &&& coordinates_valid(self.vertices@)
        &&& forall|angle: i64| self.heading.requires((angle,))
    }

    /// The extent of the map along x.
    pub closed spec fn spec_width(&self) -> i64 {
        self.width
    }

    /// The extent of the map along y.
    pub closed spec fn spec_height(&self) -> i64 {
        self.height
    }

    /// The vertices, by index.
    pub closed spec fn spec_vertices(&self) -> Seq<Point> {
        self.vertices@
    }

    /// The walls, each a pair of vertex indices.
    pub closed spec fn spec_lines(&self) -> Seq<(usize, usize)> {
        self.lines@
    }

    /// The landmarks, each a vertex index.
    pub closed spec fn spec_points(&self) -> Seq<usize> {
        self.points@
    }

    /// The function that gives the direction of an angle.
    pub closed spec fn spec_heading(&self) -> H {
        self.heading
    }

    /// Builds a map with the origin at one corner and `(width, height)` at the
    /// other. `heading` gives, for an angle, the unit vector along it, scaled
    /// by `UNIT`. Walls and landmarks are sets: what is given more than once
    /// is taken once.
    pub fn new(
        width: i64,
        height: i64,
        vertices: Vec<Point>,
        lines: Vec<(usize, usize)>,
        points: Vec<usize>,
        heading: H,
    ) -> (r: Result<Self, LocalizationError>)
        requires
            forall|angle: i64| heading.requires((angle,)),
        ensures
            r matches Err(e) ==> construction_failure(vertices@, lines@, points@) == Some(e),
            r matches Ok(map) ==> {
                &&& construction_failure(vertices@, lines@, points@) is None
                &&& map.spec_width() == width
                &&& map.spec_height() == height
                &&& map.spec_vertices() == vertices@
                &&& map.spec_lines() == distinct_walls(lines@)
                &&& map.spec_points() == distinct_points(points@)
                &&& map.spec_heading() == heading
            },
    {
        let count = vertices.len();
        let mut i: usize = 0;
        while i < lines.len()
            invariant
                i <= lines.len(),
                count == vertices.len(),
                forall|k: int|
                    0 <= k < i ==> {
                        &&& (#[trigger] lines[k]).0 < count
                        &&& lines[k].1 < count
                        &&& lines[k].0 != lines[k].1
                    },
            decreases lines.len() - i,
        {
            let line = lines[i];
            if line.0 >= count || line.1 >= count || line.0 == line.1 {
                return Err(LocalizationError::MapIndexOutOfRange);
            }
            i = i + 1;
        }
        let mut j: usize = 0;
        while j < points.len()
            invariant
                j <= points.len(),
                count == vertices.len(),
                forall|k: int|
                    0 <= k < lines.len() ==> {
                        &&& (#[trigger] lines[k]).0 < count
                        &&& lines[k].1 < count
                        &&& lines[k].0 != lines[k].1
                    },
                forall|k: int| 0 <= k < j ==> #[trigger] points[k] < count,
            decreases points.len() - j,
        {
            if points[j] >= count {
                return Err(LocalizationError::MapIndexOutOfRange);
            }
            j = j + 1;
        }
        let mut v: usize = 0;
        while v < vertices.len()
            invariant
                v <= vertices.len(),
                indices_valid(vertices@.len(), lines@, points@),
                forall|k: int| 0 <= k < v ==> within_map_range(#[trigger] vertices[k]),
            decreases vertices.len() - v,
        {
            let p = vertices[v];
            if p.x < -MAX_COORDINATE || p.x > MAX_COORDINATE || p.y < -MAX_COORDINATE || p.y
                > MAX_COORDINATE {
                return Err(LocalizationError::CoordinateOutOfRange);
            }
            v = v + 1;
        }
        let lines_once = without_repeated_walls(&lines);
        let points_once = without_repeated_points(&points);
        proof {
            lemma_distinct_walls(lines@);
            lemma_distinct_points(points@);
            assert forall|k: int| 0 <= k < lines_once.len() implies {
                &&& (#[trigger] lines_once[k]).0 < vertices.len()
                &&& lines_once[k].1 < vertices.len()
                &&& lines_once[k].0 != lines_once[k].1
            } by {
                let m = choose|m: int| 0 <= m < lines.len() && lines[m] == lines_once[k];
                assert(lines[m] == lines_once[k]);
            }
            assert forall|k: int| 0 <= k < points_once.len() implies #[trigger] points_once[k]
                < vertices.len() by {
                let m = choose|m: int| 0 <= m < points.len() && points[m] == points_once[k];
                assert(points[m] == points_once[k]);
            }
        }
        Ok(Map2D { width, height, vertices, lines: lines_once, points: points_once, heading })
    }

    /// The extent of the map along x.
    pub fn width(&self) -> (r: i64)
        ensures
            r == self.spec_width(),
    {
        self.width
    }

    /// The extent of the map along y.
    pub fn height(&self) -> (r: i64)
        ensures
            r == self.spec_height(),
    {
        self.height
    }

    /// The vertices, by index.
    pub fn vertices(&self) -> (r: &Vec<Point>)
        ensures
            r@ == self.spec_vertices(),
            coordinates_valid(r@),
    {
        proof {
            use_type_invariant(self);
        }
        &self.vertices
    }

    /// The walls, each a pair of indices into the vertices.
    pub fn lines(&self) -> (r: &Vec<(usize, usize)>)
        ensures
            r@ == self.spec_lines(),
            indices_valid(self.spec_vertices().len(), r@, self.spec_points()),
            walls_distinct(r@),
    {
        proof {
            use_type_invariant(self);
        }
        &self.lines
    }

    /// The landmarks, each an index into the vertices.
    pub fn points(&self) -> (r: &Vec<usize>)
        ensures
            r@ == self.spec_points(),
            indices_valid(self.spec_vertices().len(), self.spec_lines(), r@),
            r@.no_duplicates(),
    {
        proof {
            use_type_invariant(self);
        }
        &self.points
    }

    /// The direction of `angle`: what `heading` makes of it, cut back to a
    /// vector whose components are within one unit of zero.
    pub fn direction(&self, angle: i64) -> (d: Point)
        ensures
            exists|raw: Point|
                self.spec_heading().ensures((angle,), raw) && d == #[trigger] as_direction(raw),
            -UNIT <= d.x <= UNIT,
            -UNIT <= d.y <= UNIT,
    {
        proof {
            use_type_invariant(self);
        }
        let raw = (self.heading)(angle);
        let d = raw.clamp(Point { x: -UNIT, y: -UNIT }, Point { x: UNIT, y: UNIT });
        assert(d == as_direction(raw));
        d
    }

    /// What a ray from `origin` along `direction` hits first, if anything.
    /// `direction` is read as `as_direction` makes it. Among walls hit at the
    /// same distance, any one may give the point.
    pub fn raycast_from(&self, origin: Point, direction: Point) -> (r: Option<Point>)
        ensures
            is_first_hit(
                self.spec_vertices(),
                self.spec_lines(),
                origin,
                as_direction(direction),
                r,
            ),
            r matches Some(p) ==> within_map_range(p),
    {
        proof {
            use_type_invariant(self);
        }
        if origin.x < -MAX_RAY_ORIGIN || origin.x > MAX_RAY_ORIGIN || origin.y < -MAX_RAY_ORIGIN
            || origin.y > MAX_RAY_ORIGIN {
            return None;
        }
        let d = direction.clamp(Point { x: -UNIT, y: -UNIT }, Point { x: UNIT, y: UNIT });
        let mut best: Option<(Crossing, usize)> = None;
        let mut k: usize = 0;
        while k < self.lines.len()
            invariant
                k <= self.lines.len(),
                within_ray_range(origin),
                d == as_direction(direction),
                indices_valid(self.vertices@.len(), self.lines@, self.points@),
                coordinates_valid(self.vertices@),
                match best {
                    None => forall|j: int|
                        0 <= j < k ==> !hits(
                            #[trigger] wall_crossing(self.vertices@, self.lines@, origin, d, j),
                        ),
                    Some((c, i)) => {
                        &&& i < k
                        &&& c == wall_crossing(self.vertices@, self.lines@, origin, d, i as int)
                        &&& hits(c)
                        &&& crate::geometry::crossing_bounded(c)
                        &&& forall|j: int|
                            0 <= j < k && hits(
                                #[trigger] wall_crossing(self.vertices@, self.lines@, origin, d, j),
                            ) ==> no_farther(
                                c,
                                wall_crossing(self.vertices@, self.lines@, origin, d, j),
                            )
                    },
                },
            decreases self.lines.len() - k,
        {
            let line = self.lines[k];
            let a = self.vertices[line.0];
            let b = self.vertices[line.1];
            let c = meet(origin, d, a, b);
            assert(c == wall_crossing(self.vertices@, self.lines@, origin, d, k as int));
            if c.scale > 0 && c.along >= 0 && c.across >= 0 && c.across <= c.scale {
                match best {
                    None => {
                        best = Some((c, k));
                    },
                    Some((held, _)) => {
                        if is_nearer(c, held) {
                            proof {
                                assert forall|j: int|
                                    0 <= j < k && hits(
                                        #[trigger] wall_crossing(
                                            self.vertices@,
                                            self.lines@,
                                            origin,
                                            d,
                                            j,
                                        ),
                                    ) implies no_farther(
                                    c,
                                    wall_crossing(self.vertices@, self.lines@, origin, d, j),
                                ) by {
                                    lemma_no_farther_transitive(
                                        c,
                                        held,
                                        wall_crossing(self.vertices@, self.lines@, origin, d, j),
                                    );
                                }
                            }
                            best = Some((c, k));
                        }
                    },
                }
            }
            k = k + 1;
        }
        match best {
            None => None,
            Some((c, i)) => {
                let line = self.lines[i];
                let p = hit_point(self.vertices[line.0], self.vertices[line.1], c);
                Some(p)
            },
        }
    }

    /// What a ray cast from the position of `from` along its heading hits
    /// first, if anything.
    pub fn raycast(&self, from: Pose) -> (r: Option<Point>)
        ensures
            exists|raw: Point|
                self.spec_heading().ensures((from.angle,), raw) && #[trigger] is_first_hit(
                    self.spec_vertices(),
                    self.spec_lines(),
                    from.position,
                    as_direction(raw),
                    r,
                ),
            r matches Some(p) ==> within_map_range(p),
    {
        proof {
            use_type_invariant(self);
        }
        let d = self.direction(from.angle);
        let r = self.raycast_from(from.position, d);
        proof {
            let raw = choose|raw: Point|
                self.spec_heading().ensures((from.angle,), raw) && d == #[trigger] as_direction(raw);
            assert(as_direction(d) == as_direction(raw));
            assert(is_first_hit(
                self.spec_vertices(),
                self.spec_lines(),
                from.position,
                as_direction(raw),
                r,
            ));
        }
        r
    }

    /// The landmarks that a viewer at `origin`, looking along `direction`,
    /// sees within a field of view of width `fov`, each in the viewer's frame.
    /// `half` is the direction of the angle `fov / 2`; both directions are
    /// read as `as_direction` makes them.
    pub fn cull_points_toward(&self, origin: Point, direction: Point, fov: i64, half: Point) -> (r:
        Vec<Point>)
        ensures
            r@ == spec_seen(
                self.spec_vertices(),
                self.spec_points(),
                origin,
                as_direction(direction),
                fov,
                as_direction(half),
            ),
            fov >= FULL_TURN ==> r.len() == self.spec_points().len(),
    {
        proof {
            use_type_invariant(self);
        }
        let low = Point { x: -UNIT, y: -UNIT };
        let high = Point { x: UNIT, y: UNIT };
        let d = direction.clamp(low, high);
        let h = half.clamp(low, high);
        let mut seen: Vec<Point> = Vec::new();
        let mut k: usize = 0;
        while k < self.points.len()
            invariant
                k <= self.points.len(),
                d == as_direction(direction),
                h == as_direction(half),
                indices_valid(self.vertices@.len(), self.lines@, self.points@),
                seen@ == spec_seen(self.vertices@, self.points@.take(k as int), origin, d, fov, h),
            decreases self.points.len() - k,
        {
            proof {
                assert(self.points@.take(k + 1).drop_last() == self.points@.take(k as int));
            }
            let r = to_frame(self.vertices[self.points[k]], origin, d);
            if is_in_window(r, fov, h) {
                seen.push(r);
            }
            k = k + 1;
        }
        proof {
            assert(self.points@.take(self.points.len() as int) == self.points@);
            if fov >= FULL_TURN {
                lemma_full_turn_sees_every_landmark(self.vertices@, self.points@, origin, d, fov, h);
            }
        }
        seen
    }

    /// Every landmark within the field of view of width `fov` that is centred
    /// on the heading of `from`, each as its offset from `from` turned into
    /// the frame of `from`.
    pub fn cull_points(&self, from: Pose, fov: i64) -> (r: Vec<Point>)
        ensures
            exists|raw: Point, raw_half: Point|
                {
                    &&& self.spec_heading().ensures((from.angle,), raw)
                    &&& 0 <= fov < FULL_TURN ==> self.spec_heading().ensures(
                        ((fov / 2) as i64,),
                        raw_half,
                    )
                    &&& r@ == #[trigger] spec_seen(
                        self.spec_vertices(),
                        self.spec_points(),
                        from.position,
                        as_direction(raw),
                        fov,
                        as_direction(raw_half),
                    )
                },
            fov >= FULL_TURN ==> r.len() == self.spec_points().len(),
    {
        proof {
            use_type_invariant(self);
        }
        let d = self.direction(from.angle);
        let half = if 0 <= fov && fov < FULL_TURN {
            self.direction(fov / 2)
        } else {
            Point { x: 0, y: 0 }
        };
        let r = self.cull_points_toward(from.position, d, fov, half);
        proof {
            let raw = choose|raw: Point|
                self.spec_heading().ensures((from.angle,), raw) && d == #[trigger] as_direction(raw);
            let raw_half = if 0 <= fov < FULL_TURN {
                choose|raw_half: Point|
                    self.spec_heading().ensures(((fov / 2) as i64,), raw_half) && half
                        == #[trigger] as_direction(raw_half)
            } else {
                half
            };
            assert(as_direction(d) == as_direction(raw));
            assert(as_direction(half) == as_direction(raw_half));
            assert(r@ == spec_seen(
                self.spec_vertices(),
                self.spec_points(),
                from.position,
                as_direction(raw),
                fov,
                as_direction(raw_half),
            ));
        }
        r
    }
}

} // verus!
