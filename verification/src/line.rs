//! Straight lines on the pixel grid.
//!
//! A line is walked along its major axis (the one on which its ends lie
//! further apart), one pixel per step, starting at the end with the lower
//! major coordinate. On the minor axis each pixel is the one nearest to the
//! ideal line; where the ideal line passes exactly between two pixels, the one
//! nearer to the start of the walk is taken.
use crate::canvas::{lemma_painted_nothing, lemma_painted_twice, lemma_painted_with, ColorBuffer, Picture};
use crate::mesh::Mesh;
use crate::structs::Point2;
use vstd::arithmetic::div_mod::lemma_fundamental_div_mod_converse;
use vstd::prelude::*;

verus! {

/// The distance of `a` from zero.
pub open spec fn magnitude(a: int) -> int {
    if a < 0 {
        -a
    } else {
        a
    }
}

/// How a line is walked.
pub struct Walk {
    /// Whether the major axis is the vertical one.
    pub steep: bool,
    /// The major coordinate of the first pixel.
    pub major: int,
    /// The minor coordinate of the first pixel.
    pub minor: int,
    /// The number of steps along the major axis.
    pub run: int,
    /// The distance covered along the minor axis; never more than `run`.
    pub rise: int,
    /// The direction along the minor axis: `1` or `-1`.
    pub dir: int,
}

/// The walk of the line between `(x0, y0)` and `(x1, y1)`.
pub open spec fn walk_of(x0: int, y0: int, x1: int, y1: int) -> Walk {
    let steep = magnitude(x1 - x0) < magnitude(y1 - y0);
    let (a0, b0, a1, b1) = if steep {
        (y0, x0, y1, x1)
    } else {
        (x0, y0, x1, y1)
    };
    if a1 < a0 {
        Walk {
            steep,
            major: a1,
            minor: b1,
            run: a0 - a1,
            rise: magnitude(b0 - b1),
            dir: if b0 < b1 {
                -1
            } else {
                1
            },
        }
    } else {
        Walk {
            steep,
            major: a0,
            minor: b0,
            run: a1 - a0,
            rise: magnitude(b1 - b0),
            dir: if b1 < b0 {
                -1
            } else {
                1
            },
        }
    }
}

/// How far a walk has moved along the minor axis after `k` steps along the
/// major one: `k * rise / run`, rounded to the nearest integer, a half
/// rounded down.
pub open spec fn minor_offset(run: int, rise: int, k: int) -> int {
    if run == 0 {
        0
    } else {
        (2 * rise * k + run - 1) / (2 * run)
    }
}

impl Walk {
    /// The number of pixels of the walk.
    pub open spec fn len(self) -> int {
        self.run + 1
    }

    /// The pixel reached after `k` steps, as column and row.
    pub open spec fn pixel(self, k: int) -> (int, int) {
        let a = self.major + k;
        let b = self.minor + self.dir * minor_offset(self.run, self.rise, k);
        if self.steep {
            (b, a)
        } else {
            (a, b)
        }
    }
}

/// The walk of the line between two points.
pub open spec fn line_walk(start: Point2<i32>, end: Point2<i32>) -> Walk {
    walk_of(start.x as int, start.y as int, end.x as int, end.y as int)
}

/// The pixels of the line between two points, in the order of the walk.
pub open spec fn line_pixels(start: Point2<i32>, end: Point2<i32>) -> Seq<(int, int)> {
    Seq::new(line_walk(start, end).len() as nat, |k: int| line_walk(start, end).pixel(k))
}

/// A point as column and row.
pub open spec fn pixel_of(p: Point2<i32>) -> (int, int) {
    (p.x as int, p.y as int)
}

/// The pixels that a sequence of points names.
pub open spec fn pixels_of(pts: Seq<Point2<i32>>) -> Seq<(int, int)> {
    pts.map_values(|p: Point2<i32>| pixel_of(p))
}

/// After `k` steps the walk is within half a pixel of the ideal line, and
/// `minor_offset` is the only integer that is: `j` is the offset if and only
/// if `-run < 2 * rise * k - 2 * run * j <= run`.
pub proof fn lemma_minor_offset_nearest(run: int, rise: int, k: int, j: int)
    requires
        run > 0,
    ensures
        j == minor_offset(run, rise, k) <==> -run < 2 * rise * k - 2 * run * j <= run,
{
    let x = 2 * rise * k + run - 1;
    let d = 2 * run;
    let q = x / d;
    assert(x == d * q + x % d && 0 <= x % d < d) by {
        vstd::arithmetic::div_mod::lemma_fundamental_div_mod(x, d);
        vstd::arithmetic::div_mod::lemma_mod_bound(x, d);
    }
    if -run < 2 * rise * k - 2 * run * j <= run {
        let r = x - 2 * run * j;
        assert(x == j * d + r) by (nonlinear_arith)
            requires
                r == x - 2 * run * j,
                d == 2 * run,
        ;
        lemma_fundamental_div_mod_converse(x, d, j, r);
    }
    if j == q {
        assert(d * q == 2 * run * j) by (nonlinear_arith)
            requires
                d == 2 * run,
                j == q,
        ;
    }
}

/// The minor offset never leaves the span between the ends: it is `0` at the
/// start, `rise` at the end, and in between for every step of the walk.
pub proof fn lemma_minor_offset_bounds(run: int, rise: int, k: int)
    requires
        0 <= rise <= run,
        0 <= k <= run,
    ensures
        0 <= minor_offset(run, rise, k) <= rise,
        minor_offset(run, rise, 0) == 0,
        minor_offset(run, rise, run) == rise,
{
    if run > 0 {
        let j = minor_offset(run, rise, k);
        lemma_minor_offset_nearest(run, rise, k, j);
        assert(0 <= j <= rise) by (nonlinear_arith)
            requires
                -run < 2 * rise * k - 2 * run * j <= run,
                0 <= rise <= run,
                0 <= k <= run,
                run > 0,
        ;
        lemma_minor_offset_nearest(run, rise, 0, 0);
        assert(2 * rise * run - 2 * run * rise == 0) by (nonlinear_arith);
        lemma_minor_offset_nearest(run, rise, run, rise);
    }
}

fn distance(a: i64, b: i64) -> (d: i64)
    requires
        i32::MIN <= a <= i32::MAX,
        i32::MIN <= b <= i32::MAX,
    ensures
        d == magnitude(b - a),
{
    if b < a {
        a - b
    } else {
        b - a
    }
}

/// The pixels of the line between `start` and `end`, one for each step along
/// the major axis, from the end with the lower major coordinate to the other.
pub fn line(start: &Point2<i32>, end: &Point2<i32>) -> (pts: Vec<Point2<i32>>)
    ensures
        pixels_of(pts@) == line_pixels(*start, *end),
{
    let ghost walk = line_walk(*start, *end);
    let (sx, sy): (i64, i64) = (start.x as i64, start.y as i64);
    let (ex, ey): (i64, i64) = (end.x as i64, end.y as i64);

    let mut result = Vec::<Point2<i32>>::new();

    // Walk along the axis on which the ends lie further apart.
    let steep = distance(sx, ex) < distance(sy, ey);
    let (a0, b0, a1, b1): (i64, i64, i64, i64) = if steep {
        (sy, sx, ey, ex)
    } else {
        (sx, sy, ex, ey)
    };
    // Always walk from the lower major coordinate to the higher.
    let (x0, y0, x1, y1): (i64, i64, i64, i64) = if a1 < a0 {
        (a1, b1, a0, b0)
    } else {
        (a0, b0, a1, b1)
    };
    let dx: i64 = x1 - x0;
    // The minor coordinate may fall as the major one rises.
    let (yi, dy): (i64, i64) = if y1 - y0 < 0 {
        (-1, y0 - y1)
    } else {
        (1, y1 - y0)
    };
    assert(walk == Walk {
        steep,
        major: x0 as int,
        minor: y0 as int,
        run: dx as int,
        rise: dy as int,
        dir: yi as int,
    });

    let mut d: i64 = 2 * dy - dx;
    let mut y: i64 = y0;
    let mut x: i64 = x0;
    let ghost mut j: int = 0;
    assert(y0 + yi * dy == y1) by (nonlinear_arith)
        requires
            (yi == 1 && dy == y1 - y0) || (yi == -1 && dy == y0 - y1),
    ;
    assert(d == 2 * dy * (x - x0 + 1) - dx - 2 * dx * j) by (nonlinear_arith)
        requires
            d == 2 * dy - dx,
            x == x0,
            j == 0,
    ;
    while x <= x1
        invariant
            walk == line_walk(*start, *end),
            walk == (Walk {
                steep,
                major: x0 as int,
                minor: y0 as int,
                run: dx as int,
                rise: dy as int,
                dir: yi as int,
            }),
            i32::MIN <= x0 <= x1 <= i32::MAX,
            i32::MIN <= y0 <= i32::MAX,
            i32::MIN <= y0 + yi * dy <= i32::MAX,
            dx == x1 - x0,
            0 <= dy <= dx,
            yi == 1 || yi == -1,
            x0 <= x <= x1 + 1,
            0 <= j <= dy + 1,
            x <= x1 ==> j <= dy,
            y == y0 + yi * j,
            d == 2 * dy * (x - x0 + 1) - dx - 2 * dx * j,
            x <= x1 ==> 2 * dy - 2 * dx < d <= 2 * dy || dx == 0,
            result@.len() == x - x0,
            forall|k: int| 0 <= k < x - x0 ==> pixel_of(#[trigger] result@[k]) == walk.pixel(k),
        decreases x1 + 1 - x,
    {
        let ghost k: int = x - x0;
        proof {
            if dx > 0 {
                assert(2 * dy * k - 2 * dx * j == d - 2 * dy + dx) by (nonlinear_arith)
                    requires
                        d == 2 * dy * (k + 1) - dx - 2 * dx * j,
                ;
                lemma_minor_offset_nearest(dx as int, dy as int, k, j);
            }
            assert(i32::MIN <= y <= i32::MAX) by (nonlinear_arith)
                requires
                    y == y0 + yi * j,
                    0 <= j <= dy,
                    yi == 1 || yi == -1,
                    i32::MIN <= y0 <= i32::MAX,
                    i32::MIN <= y0 + yi * dy <= i32::MAX,
            ;
        }
        if steep {
            result.push(Point2::<i32> { x: y as i32, y: x as i32 });
        } else {
            result.push(Point2::<i32> { x: x as i32, y: y as i32 });
        }
        if d > 0 {
            proof {
                assert(k < dx ==> j + 1 <= dy) by (nonlinear_arith)
                    requires
                        d == 2 * dy * (k + 1) - dx - 2 * dx * j,
                        d > 0,
                        0 <= k <= dx,
                        0 <= j <= dy <= dx,
                ;
                assert(yi * (j + 1) == yi * j + yi) by (nonlinear_arith);
                assert(2 * dx * (j + 1) == 2 * dx * j + 2 * dx) by (nonlinear_arith);
                j = j + 1;
            }
            y += yi;
            d -= 2 * dx;
        }
        proof {
            assert(2 * dy * (k + 2) == 2 * dy * (k + 1) + 2 * dy) by (nonlinear_arith);
        }
        d += 2 * dy;
        x += 1;
    }
    proof {
        assert(pixels_of(result@) =~= line_pixels(*start, *end));
    }
    result
}

/// Every pixel of a line lies in the rectangle that its two ends span.
pub proof fn lemma_line_in_box(start: Point2<i32>, end: Point2<i32>, k: int)
    requires
        0 <= k < line_walk(start, end).len(),
    ensures
        ({
            let (x, y) = line_walk(start, end).pixel(k);
            &&& start.x <= x <= end.x || end.x <= x <= start.x
            &&& start.y <= y <= end.y || end.y <= y <= start.y
        }),
{
    let walk = line_walk(start, end);
    let off = minor_offset(walk.run, walk.rise, k);
    lemma_minor_offset_bounds(walk.run, walk.rise, k);
    assert(0 <= walk.dir * off <= walk.rise || -walk.rise <= walk.dir * off <= 0)
        by (nonlinear_arith)
        requires
            0 <= off <= walk.rise,
            walk.dir == 1 || walk.dir == -1,
    ;
    assert(walk.dir * off == off || walk.dir * off == -off) by (nonlinear_arith)
        requires
            walk.dir == 1 || walk.dir == -1,
    ;
}

/// A line starts at one of its ends and stops at the other: at the end with
/// the lower major coordinate first.
pub proof fn lemma_line_ends(start: Point2<i32>, end: Point2<i32>)
    ensures
        ({
            let pixels = line_pixels(start, end);
            &&& pixels.len() >= 1
            &&& pixels.first() == pixel_of(start) && pixels.last() == pixel_of(end)
                || pixels.first() == pixel_of(end) && pixels.last() == pixel_of(start)
        }),
{
    let walk = line_walk(start, end);
    lemma_minor_offset_bounds(walk.run, walk.rise, 0);
    lemma_minor_offset_bounds(walk.run, walk.rise, walk.run);
    assert(walk.dir * 0 == 0) by (nonlinear_arith);
    assert(walk.dir * walk.rise == walk.rise || walk.dir * walk.rise == -walk.rise)
        by (nonlinear_arith)
        requires
            walk.dir == 1 || walk.dir == -1,
    ;
}

/// A line does not depend on the order in which its ends are given.
pub proof fn lemma_line_symmetric(start: Point2<i32>, end: Point2<i32>)
    ensures
        line_pixels(start, end) == line_pixels(end, start),
{
    let forth = line_walk(start, end);
    let back = line_walk(end, start);
    if forth.run == 0 {
        assert(forth.rise == 0 && back.rise == 0);
        assert(forth.dir * 0 == 0 && back.dir * 0 == 0) by (nonlinear_arith);
    }
    assert(line_pixels(start, end) =~= line_pixels(end, start));
}

/// Paints every pixel of the line between `start` and `end` with `color`.
/// Both ends must lie inside the buffer; the line then does too.
pub fn draw_line(start: &Point2<i32>, end: &Point2<i32>, color: [u8; 4], img: &mut ColorBuffer)
    requires
        old(img)@.contains(start.x as int, start.y as int),
        old(img)@.contains(end.x as int, end.y as int),
    ensures
        final(img)@ == old(img)@.painted(line_pixels(*start, *end).to_set(), color@),
{
    let line = line(start, end);
    let ghost pixels = line_pixels(*start, *end);
    let mut i: usize = 0;
    proof {
        assert(pixels.take(0).to_set() =~= Set::empty());
        lemma_painted_nothing(img@, color@);
    }
    while i < line.len()
        invariant
            pixels == line_pixels(*start, *end),
            pixels == pixels_of(line@),
            i <= line.len(),
            old(img)@.contains(start.x as int, start.y as int),
            old(img)@.contains(end.x as int, end.y as int),
            img@ == old(img)@.painted(pixels.take(i as int).to_set(), color@),
        decreases line.len() - i,
    {
        let point = &line[i];
        proof {
            assert(pixels.len() == line@.len());
            assert(line_pixels(*start, *end).len() == line_walk(*start, *end).len());
            assert(pixel_of(*point) == pixels[i as int]);
            lemma_line_in_box(*start, *end, i as int);
            lemma_painted_with(
                old(img)@,
                pixels.take(i as int).to_set(),
                point.x as int,
                point.y as int,
                color@,
            );
            lemma_take_next(pixels, i as int);
        }
        img.put_pixel(point.x as u32, point.y as u32, color);
        i += 1;
    }
    assert(pixels.take(i as int) =~= pixels);
}

/// The first `i + 1` items of a sequence are its first `i` items and item `i`.
proof fn lemma_take_next<A>(s: Seq<A>, i: int)
    requires
        0 <= i < s.len(),
    ensures
        s.take(i + 1).to_set() == s.take(i).to_set().insert(s[i]),
{
    assert forall|a: A| s.take(i + 1).to_set().contains(a) == s.take(i).to_set().insert(
        s[i],
    ).contains(a) by {
        if s.take(i + 1).contains(a) {
            let k = s.take(i + 1).index_of(a);
            if k < i {
                assert(s.take(i)[k] == a);
            }
        }
        if s.take(i).contains(a) {
            let k = s.take(i).index_of(a);
            assert(s.take(i + 1)[k] == a);
        }
        if s[i] == a {
            assert(s.take(i + 1)[i] == a);
        }
    }
    assert(s.take(i + 1).to_set() =~= s.take(i).to_set().insert(s[i]));
}

/// The pixels of edge `c` of triangle `t`: of the line that leads from corner
/// `c` of the triangle to its next corner.
pub open spec fn edge_pixels(mesh: Mesh<Point2<i32>>, t: int, c: int) -> Set<(int, int)> {
    line_pixels(mesh.corner(t, c), mesh.corner(t, (c + 1) % 3)).to_set()
}

/// The pixels of the edges of the first `n` triangles of the mesh.
pub open spec fn edges_pixels(mesh: Mesh<Point2<i32>>, n: int) -> Set<(int, int)> {
    Set::new(
        |pixel: (int, int)|
            exists|t: int, c: int|
                0 <= t < n && 0 <= c < 3 && #[trigger] edge_pixels(mesh, t, c).contains(pixel),
    )
}

/// The pixels of the wireframe of the mesh: those of the three edges of each
/// of its triangles.
pub open spec fn wireframe_pixels(mesh: Mesh<Point2<i32>>) -> Set<(int, int)> {
    edges_pixels(mesh, mesh.triangles())
}

/// Whether every corner of every triangle lies inside the picture.
pub open spec fn corners_inside(mesh: Mesh<Point2<i32>>, picture: Picture) -> bool {
    forall|t: int, c: int|
        0 <= t < mesh.triangles() && 0 <= c < 3 ==> picture.contains(
            (#[trigger] mesh.corner(t, c)).x as int,
            mesh.corner(t, c).y as int,
        )
}

/// Paints the three edges of every triangle of the mesh with `color`. The
/// vertices are points on the screen; those that a triangle names must lie
/// inside the buffer.
pub fn draw_wireframe(mesh: &Mesh<Point2<i32>>, color: [u8; 4], img: &mut ColorBuffer)
    requires
        corners_inside(*mesh, old(img)@),
    ensures
        final(img)@ == old(img)@.painted(wireframe_pixels(*mesh), color@),
{
    let count = mesh.triangle_count();
    let mut t: usize = 0;
    proof {
        assert(edges_pixels(*mesh, 0) =~= Set::empty());
        lemma_painted_nothing(img@, color@);
    }
    while t < count
        invariant
            count == mesh.triangles(),
            t <= count,
            corners_inside(*mesh, old(img)@),
            img@ == old(img)@.painted(edges_pixels(*mesh, t as int), color@),
        decreases count - t,
    {
        let corners = mesh.triangle(t);
        let point1 = mesh.vertex(corners[0]);
        let point2 = mesh.vertex(corners[1]);
        let point3 = mesh.vertex(corners[2]);
        proof {
            assert(*point1 == mesh.corner(t as int, 0));
            assert(*point2 == mesh.corner(t as int, 1));
            assert(*point3 == mesh.corner(t as int, 2));
        }
        draw_line(point1, point2, color, img);
        draw_line(point2, point3, color, img);
        draw_line(point3, point1, color, img);
        proof {
            let done = edges_pixels(*mesh, t as int);
            let edge0 = edge_pixels(*mesh, t as int, 0);
            let edge1 = edge_pixels(*mesh, t as int, 1);
            let edge2 = edge_pixels(*mesh, t as int, 2);
            lemma_painted_twice(old(img)@, done, edge0, color@);
            lemma_painted_twice(old(img)@, done.union(edge0), edge1, color@);
            lemma_painted_twice(old(img)@, done.union(edge0).union(edge1), edge2, color@);
            assert forall|pixel: (int, int)|
                edges_pixels(*mesh, t + 1).contains(pixel) == done.union(edge0).union(edge1).union(
                    edge2,
                ).contains(pixel) by {
                if edges_pixels(*mesh, t + 1).contains(pixel) {
                    let (u, c) = choose|u: int, c: int|
                        0 <= u < t + 1 && 0 <= c < 3 && #[trigger] edge_pixels(*mesh, u, c).contains(
                            pixel,
                        );
                    if u < t {
                        assert(done.contains(pixel));
                    }
                }
                if done.contains(pixel) {
                    let (u, c) = choose|u: int, c: int|
                        0 <= u < t && 0 <= c < 3 && #[trigger] edge_pixels(*mesh, u, c).contains(
                            pixel,
                        );
                    assert(edge_pixels(*mesh, u, c).contains(pixel));
                }
            }
            assert(edges_pixels(*mesh, t + 1) =~= done.union(edge0).union(edge1).union(edge2));
        }
        t += 1;
    }
}

} // verus!
