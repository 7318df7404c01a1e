//! Drawing primitives: lines, filled circles, filled rectangles and square
//! brush stamps. Each one paints a region of the grid in one color; what falls
//! outside the canvas is dropped.

use crate::canvas::{Canvas, Color, Grid};
use crate::line::{Cursor, Segment};
use vstd::prelude::*;

verus! {

/// The segment between two points given in machine integers.
pub open spec fn segment(x0: i32, y0: i32, x1: i32, y1: i32) -> Segment {
    Segment { x0: x0 as int, y0: y0 as int, x1: x1 as int, y1: y1 as int }
}

/// The cells of the line from `(x0, y0)` to `(x1, y1)`.
pub open spec fn line_region(x0: i32, y0: i32, x1: i32, y1: i32) -> Set<(int, int)> {
    segment(x0, y0, x1, y1).points().to_set()
}

/// The square of side `thickness` stamped at `(x, y)`. Its top-left corner
/// lies `thickness / 2` (rounded down) to the left of and above the center, so
/// a square of even side reaches one cell further up and left than down and
/// right.
pub open spec fn stamp_region(x: int, y: int, thickness: int) -> Set<(int, int)> {
    Set::new(
        |p: (int, int)|
            {
                &&& x - thickness / 2 <= p.0 < x - thickness / 2 + thickness
                &&& y - thickness / 2 <= p.1 < y - thickness / 2 + thickness
            },
    )
}

/// The filled disk of the given radius around `(cx, cy)`: every point whose
/// squared distance from the center is at most the squared radius. A negative
/// radius gives the empty region.
pub open spec fn disk_region(cx: int, cy: int, radius: int) -> Set<(int, int)> {
    Set::new(
        |p: (int, int)|
            radius >= 0 && (p.0 - cx) * (p.0 - cx) + (p.1 - cy) * (p.1 - cy) <= radius * radius,
    )
}

/// The filled box that reaches `hx` columns left and right and `hy` rows up
/// and down from `(cx, cy)`, borders included. A negative extent gives the
/// empty region.
pub open spec fn box_region(cx: int, cy: int, hx: int, hy: int) -> Set<(int, int)> {
    Set::new(|p: (int, int)| cx - hx <= p.0 <= cx + hx && cy - hy <= p.1 <= cy + hy)
}

/// The cells covered by stamping a square of side `thickness` at every point
/// of `centers`, whether the point lies on the canvas or not.
pub open spec fn stamps_region(centers: Seq<(int, int)>, thickness: int) -> Set<(int, int)> {
    Set::new(
        |p: (int, int)|
            exists|i: int|
                {
                    &&& 0 <= i < centers.len()
                    &&& #[trigger] stamp_region(centers[i].0, centers[i].1, thickness).contains(p)
                },
    )
}

/// The cells covered by a brush stroke from `(x0, y0)` to `(x1, y1)`: a stamp
/// at every point of the line.
pub open spec fn stroke_region(x0: i32, y0: i32, x1: i32, y1: i32, thickness: int) -> Set<
    (int, int),
> {
    stamps_region(segment(x0, y0, x1, y1).points(), thickness)
}

/// A line from a point to itself is that one cell, and drawing it sets that
/// cell and no other.
pub proof fn lemma_line_to_itself(grid: Grid, x: i32, y: i32, color: Color)
    requires
        grid.wf(),
    ensures
        line_region(x, y, x, y) == set![(x as int, y as int)],
        grid.paint(line_region(x, y, x, y), color) == grid.set(x as int, y as int, color),
{
    let only = (x as int, y as int);
    segment(x, y, x, y).lemma_single_point();
    assert(segment(x, y, x, y).points()[0] == only);
    assert(line_region(x, y, x, y) =~= set![only]);
    grid.lemma_set_is_paint(x as int, y as int, color);
}

/// A brush stroke from a point to itself is the stamp at that point, on the
/// canvas or off it.
pub proof fn lemma_stroke_to_itself(x: i32, y: i32, thickness: int)
    ensures
        stroke_region(x, y, x, y, thickness) == stamp_region(x as int, y as int, thickness),
{
    let only = (x as int, y as int);
    let points = segment(x, y, x, y).points();
    segment(x, y, x, y).lemma_single_point();
    assert(points[0] == only);
    assert forall|p: (int, int)| stamp_region(only.0, only.1, thickness).contains(p) implies stroke_region(
        x,
        y,
        x,
        y,
        thickness,
    ).contains(p) by {
        assert(stamp_region(points[0].0, points[0].1, thickness).contains(p));
    }
    assert(stroke_region(x, y, x, y, thickness) =~= stamp_region(only.0, only.1, thickness));
}

/// A brush stroke of thickness 1 is the line.
pub proof fn lemma_stroke_of_one(x0: i32, y0: i32, x1: i32, y1: i32)
    ensures
        stroke_region(x0, y0, x1, y1, 1) == line_region(x0, y0, x1, y1),
{
    let points = segment(x0, y0, x1, y1).points();
    assert forall|p: (int, int)| stroke_region(x0, y0, x1, y1, 1).contains(p) implies line_region(
        x0,
        y0,
        x1,
        y1,
    ).contains(p) by {
        let i = choose|i: int|
            {
                &&& 0 <= i < points.len()
                &&& #[trigger] stamp_region(points[i].0, points[i].1, 1).contains(p)
            };
        assert(points[i] == p);
    }
    assert forall|p: (int, int)| line_region(x0, y0, x1, y1).contains(p) implies stroke_region(
        x0,
        y0,
        x1,
        y1,
        1,
    ).contains(p) by {
        let i = choose|i: int| 0 <= i < points.len() && points[i] == p;
        assert(stamp_region(points[i].0, points[i].1, 1).contains(p));
    }
    assert(stroke_region(x0, y0, x1, y1, 1) =~= line_region(x0, y0, x1, y1));
}

/// A stamp of thickness 1 is the one cell at its center, and drawing it sets
/// that cell and no other.
pub proof fn lemma_stamp_of_one(grid: Grid, x: int, y: int, color: Color)
    requires
        grid.wf(),
    ensures
        stamp_region(x, y, 1) == set![(x, y)],
        grid.paint(stamp_region(x, y, 1), color) == grid.set(x, y, color),
{
    assert(stamp_region(x, y, 1) =~= set![(x, y)]);
    grid.lemma_set_is_paint(x, y, color);
}

/// After a circle is drawn, a cell of the canvas inside the circle has the
/// new color and a cell outside it has the color it had. So a cell that did
/// not have the new color before has it afterwards exactly when its squared
/// distance from the center is at most the squared radius.
pub proof fn lemma_circle_cells(
    grid: Grid,
    cx: int,
    cy: int,
    radius: int,
    color: Color,
    x: int,
    y: int,
)
    requires
        grid.wf(),
        grid.contains(x, y),
    ensures
        ({
            let after = grid.paint(disk_region(cx, cy, radius), color);
            let inside = radius >= 0 && (x - cx) * (x - cx) + (y - cy) * (y - cy) <= radius
                * radius;
            &&& inside ==> after.at(x, y) == color
            &&& !inside ==> after.at(x, y) == grid.at(x, y)
            &&& grid.at(x, y) != color ==> (after.at(x, y) == color <==> inside)
        }),
{
    grid.lemma_paint_at(disk_region(cx, cy, radius), color, x, y);
}

/// After a rectangle is drawn, a cell of the canvas within the box has the
/// new color and a cell outside it has the color it had: the box is painted
/// up to its borders and up to the canvas edges, and nothing else is.
pub proof fn lemma_rectangle_cells(
    grid: Grid,
    cx: int,
    cy: int,
    hx: int,
    hy: int,
    color: Color,
    x: int,
    y: int,
)
    requires
        grid.wf(),
        grid.contains(x, y),
    ensures
        ({
            let after = grid.paint(box_region(cx, cy, hx, hy), color);
            let inside = cx - hx <= x <= cx + hx && cy - hy <= y <= cy + hy;
            &&& inside ==> after.at(x, y) == color
            &&& !inside ==> after.at(x, y) == grid.at(x, y)
        }),
{
    grid.lemma_paint_at(box_region(cx, cy, hx, hy), color, x, y);
}

/// The part of `region` reached by a scan that goes row by row, left to
/// right, and now stands at column `col` of row `row`.
spec fn scanned(region: Set<(int, int)>, row: int, col: int) -> Set<(int, int)> {
    Set::new(|p: (int, int)| region.contains(p) && (p.1 < row || (p.1 == row && p.0 < col)))
}

/// What the canvas looks like while a region is being painted cell by cell:
/// the cells of `done` carry the new color and all others are untouched.
spec fn painted_so_far(before: Grid, now: Grid, done: Set<(int, int)>, color: Color) -> bool {
    &&& before.wf()
    &&& now.wf()
    &&& now.width == before.width
    &&& now.height == before.height
    &&& forall|x: int, y: int|
        before.contains(x, y) ==> #[trigger] now.at(x, y) == if done.contains((x, y)) {
            color
        } else {
            before.at(x, y)
        }
}

/// Setting one more cell extends the painted region by that cell.
proof fn lemma_paint_one_more(
    before: Grid,
    now: Grid,
    done: Set<(int, int)>,
    color: Color,
    x: int,
    y: int,
)
    requires
        painted_so_far(before, now, done, color),
    ensures
        painted_so_far(before, now.set(x, y, color), done.insert((x, y)), color),
{
    let next = now.set(x, y, color);
    now.lemma_set_at(x, y, color, 0, 0);
    assert forall|px: int, py: int| before.contains(px, py) implies #[trigger] next.at(px, py)
        == if done.insert((x, y)).contains((px, py)) {
        color
    } else {
        before.at(px, py)
    } by {
        now.lemma_set_at(x, y, color, px, py);
    }
}

/// Painting a further region extends the painted region by it.
proof fn lemma_paint_more(
    before: Grid,
    now: Grid,
    done: Set<(int, int)>,
    more: Set<(int, int)>,
    color: Color,
)
    requires
        painted_so_far(before, now, done, color),
    ensures
        painted_so_far(before, now.paint(more, color), done.union(more), color),
{
    let next = now.paint(more, color);
    now.lemma_paint_at(more, color, 0, 0);
    assert forall|px: int, py: int| before.contains(px, py) implies #[trigger] next.at(px, py)
        == if done.union(more).contains((px, py)) {
        color
    } else {
        before.at(px, py)
    } by {
        now.lemma_paint_at(more, color, px, py);
    }
}

/// Two regions with the same cells on the grid paint the same picture.
proof fn lemma_paint_same_cells(
    before: Grid,
    now: Grid,
    done: Set<(int, int)>,
    region: Set<(int, int)>,
    color: Color,
)
    requires
        painted_so_far(before, now, done, color),
        forall|x: int, y: int|
            before.contains(x, y) ==> (done.contains((x, y)) <==> region.contains((x, y))),
    ensures
        now == before.paint(region, color),
{
    assert forall|x: int, y: int| before.contains(x, y) implies #[trigger] now.at(x, y)
        == if region.contains((x, y)) {
        color
    } else {
        before.at(x, y)
    } by {}
    before.lemma_paint_by_cells(now, region, color);
}

/// The elements of a sequence with one more pushed are the elements of the
/// sequence and that one.
proof fn lemma_push_to_set(s: Seq<(int, int)>, p: (int, int))
    ensures
        s.push(p).to_set() =~= s.to_set().insert(p),
{
    assert forall|q: (int, int)| s.push(p).to_set().contains(q) <==> s.to_set().insert(
        p,
    ).contains(q) by {
        if s.push(p).contains(q) {
            let i = choose|i: int| 0 <= i < s.push(p).len() && s.push(p)[i] == q;
            if i < s.len() {
                assert(s[i] == q);
            }
        }
        if s.contains(q) {
            let i = choose|i: int| 0 <= i < s.len() && s[i] == q;
            assert(s.push(p)[i] == q);
        }
        if q == p {
            assert(s.push(p)[s.len() as int] == p);
        }
    }
}

/// The stamps at the points of a sequence with one more point pushed are the
/// stamps so far and the stamp at the new point.
proof fn lemma_push_stamp(centers: Seq<(int, int)>, c: (int, int), thickness: int)
    ensures
        stamps_region(centers.push(c), thickness) =~= stamps_region(centers, thickness).union(
            stamp_region(c.0, c.1, thickness),
        ),
{
    let longer = centers.push(c);
    let after = stamps_region(longer, thickness);
    let so_far = stamps_region(centers, thickness);
    let last = stamp_region(c.0, c.1, thickness);
    assert forall|p: (int, int)| after.contains(p) implies so_far.contains(p) || last.contains(
        p,
    ) by {
        let i = choose|i: int|
            {
                &&& 0 <= i < longer.len()
                &&& #[trigger] stamp_region(longer[i].0, longer[i].1, thickness).contains(p)
            };
        if i < centers.len() {
            assert(centers[i] == longer[i]);
            assert(stamp_region(centers[i].0, centers[i].1, thickness).contains(p));
        }
    }
    assert forall|p: (int, int)| so_far.contains(p) implies after.contains(p) by {
        let i = choose|i: int|
            {
                &&& 0 <= i < centers.len()
                &&& #[trigger] stamp_region(centers[i].0, centers[i].1, thickness).contains(p)
            };
        assert(longer[i] == centers[i]);
        assert(stamp_region(longer[i].0, longer[i].1, thickness).contains(p));
    }
    assert forall|p: (int, int)| last.contains(p) implies after.contains(p) by {
        let i = centers.len() as int;
        assert(longer[i] == c);
        assert(stamp_region(longer[i].0, longer[i].1, thickness).contains(p));
    }
}

/// Every point of a disk lies within the radius of the center in each axis.
proof fn lemma_disk_bounds(cx: int, cy: int, radius: int, p: (int, int))
    requires
        disk_region(cx, cy, radius).contains(p),
    ensures
        cx - radius <= p.0 <= cx + radius,
        cy - radius <= p.1 <= cy + radius,
{
    let a = p.0 - cx;
    let b = p.1 - cy;
    assert(-radius <= a <= radius && -radius <= b <= radius) by (nonlinear_arith)
        requires
            radius >= 0,
            a * a + b * b <= radius * radius,
    ;
}

/// Sets the pixel at `(x, y)` if that point lies on the canvas.
fn plot(canvas: &mut Canvas, x: i128, y: i128, color: Color)
    ensures
        final(canvas)@ == old(canvas)@.set(x as int, y as int, color),
        final(canvas)@.wf(),
{
    proof {
        use_type_invariant(&*canvas);
    }
    let w = canvas.width();
    let h = canvas.height();
    if x >= 0 && x < w as i128 && y >= 0 && y < h as i128 {
        canvas.set_pixel(x as usize, y as usize, color);
    }
}

/// A walk along a line in machine integers: the end points, the step in each
/// axis and the cursor.
struct Walk {
    x0: i32,
    y0: i32,
    x1: i32,
    y1: i32,
    dx: i64,
    dy: i64,
    sx: i64,
    sy: i64,
    x: i64,
    y: i64,
    err: i64,
}

impl Walk {
    /// The segment walked along.
    spec fn segment(self) -> Segment {
        segment(self.x0, self.y0, self.x1, self.y1)
    }

    /// Where the walk stands.
    spec fn cursor(self) -> Cursor {
        Cursor { x: self.x as int, y: self.y as int, err: self.err as int }
    }

    /// The steps are those of the segment and the cursor is on track.
    spec fn on_track(self) -> bool {
        &&& self.dx == self.segment().dx()
        &&& self.dy == self.segment().dy()
        &&& self.sx == self.segment().sx()
        &&& self.sy == self.segment().sy()
        &&& self.segment().on_track(self.cursor())
    }

    /// A walk at the first end point of the line.
    fn start(x0: i32, y0: i32, x1: i32, y1: i32) -> (walk: Walk)
        ensures
            walk.segment() == segment(x0, y0, x1, y1),
            walk.cursor() == walk.segment().start(),
            walk.on_track(),
    {
        let dx: i64 = if x0 < x1 {
            x1 as i64 - x0 as i64
        } else {
            x0 as i64 - x1 as i64
        };
        let dy: i64 = if y0 < y1 {
            y1 as i64 - y0 as i64
        } else {
            y0 as i64 - y1 as i64
        };
        let sx: i64 = if x0 < x1 {
            1
        } else {
            -1
        };
        let sy: i64 = if y0 < y1 {
            1
        } else {
            -1
        };
        proof {
            segment(x0, y0, x1, y1).lemma_start();
        }
        Walk { x0, y0, x1, y1, dx, dy, sx, sy, x: x0 as i64, y: y0 as i64, err: dx - dy }
    }

    /// Whether the walk stands on the second end point.
    fn at_end(&self) -> (ended: bool)
        ensures
            ended == self.segment().at_end(self.cursor()),
    {
        self.x == self.x1 as i64 && self.y == self.y1 as i64
    }

    /// Takes one step: a column move if twice the error term is above `-dy`,
    /// a row move if it is below `dx`, or both.
    fn advance(&mut self)
        requires
            old(self).on_track(),
            !old(self).segment().at_end(old(self).cursor()),
        ensures
            final(self).segment() == old(self).segment(),
            final(self).cursor() == old(self).segment().advance(old(self).cursor()),
            final(self).on_track(),
    {
        proof {
            self.segment().lemma_advance(self.cursor());
        }
        let e2 = 2 * self.err;
        if e2 > -self.dy {
            self.err -= self.dy;
            self.x += self.sx;
        }
        if e2 < self.dx {
            self.err += self.dx;
            self.y += self.sy;
        }
    }
}

/// Draws the line from `(x0, y0)` to `(x1, y1)`, both end points included.
/// A line from a point to itself is that single pixel.
pub fn draw_line(canvas: &mut Canvas, x0: i32, y0: i32, x1: i32, y1: i32, color: Color)
    ensures
        final(canvas)@ == old(canvas)@.paint(line_region(x0, y0, x1, y1), color),
        final(canvas)@.wf(),
{
    let ghost before = canvas@;
    let ghost seg = segment(x0, y0, x1, y1);
    let ghost mut visited: Seq<(int, int)> = Seq::empty();
    let mut walk = Walk::start(x0, y0, x1, y1);
    proof {
        use_type_invariant(&*canvas);
        assert(visited + seg.walk_from(walk.cursor()) =~= seg.points());
    }

    loop
        invariant_except_break
            walk.on_track(),
            seg.points() == visited + seg.walk_from(walk.cursor()),
            painted_so_far(before, canvas@, visited.to_set(), color),
        invariant
            walk.segment() == seg,
        ensures
            painted_so_far(before, canvas@, seg.points().to_set(), color),
        decreases seg.remaining(walk.cursor()),
    {
        let ghost here = (walk.x as int, walk.y as int);
        let ghost earlier = canvas@;
        plot(canvas, walk.x as i128, walk.y as i128, color);
        proof {
            lemma_paint_one_more(before, earlier, visited.to_set(), color, here.0, here.1);
            lemma_push_to_set(visited, here);
            visited = visited.push(here);
        }

        if walk.at_end() {
            proof {
                assert(seg.points() =~= visited);
            }
            break ;
        }
        proof {
            seg.lemma_advance(walk.cursor());
            assert(seg.points() =~= visited + seg.walk_from(seg.advance(walk.cursor())));
        }
        walk.advance();
    }
    proof {
        before.lemma_paint_by_cells(canvas@, line_region(x0, y0, x1, y1), color);
    }
}

/// Draws a brush stroke from `(x0, y0)` to `(x1, y1)`: the line's walk, with a
/// square of side `thickness` stamped at every point of the line. Each stamp is
/// clipped pixel by pixel, so a point off the canvas still paints the part of
/// its square that reaches onto the canvas.
pub fn draw_line_with_brush(
    canvas: &mut Canvas,
    x0: i32,
    y0: i32,
    x1: i32,
    y1: i32,
    thickness: usize,
    color: Color,
)
    ensures
        final(canvas)@ == old(canvas)@.paint(
            stroke_region(x0, y0, x1, y1, thickness as int),
            color,
        ),
        final(canvas)@.wf(),
{
    let ghost before = canvas@;
    let ghost seg = segment(x0, y0, x1, y1);
    let ghost mut visited: Seq<(int, int)> = Seq::empty();
    let mut walk = Walk::start(x0, y0, x1, y1);
    proof {
        use_type_invariant(&*canvas);
        assert(visited + seg.walk_from(walk.cursor()) =~= seg.points());
        assert(stamps_region(visited, thickness as int) =~= Set::empty());
    }

    loop
        invariant_except_break
            walk.on_track(),
            seg.points() == visited + seg.walk_from(walk.cursor()),
            painted_so_far(before, canvas@, stamps_region(visited, thickness as int), color),
        invariant
            walk.segment() == seg,
            seg == segment(x0, y0, x1, y1),
        ensures
            painted_so_far(before, canvas@, stamps_region(seg.points(), thickness as int), color),
        decreases seg.remaining(walk.cursor()),
    {
        let ghost here = (walk.x as int, walk.y as int);
        let ghost earlier = canvas@;
        draw_brush_stroke(canvas, walk.x as i32, walk.y as i32, thickness, color);
        proof {
            lemma_paint_more(
                before,
                earlier,
                stamps_region(visited, thickness as int),
                stamp_region(here.0, here.1, thickness as int),
                color,
            );
            lemma_push_stamp(visited, here, thickness as int);
            visited = visited.push(here);
        }

        if walk.at_end() {
            proof {
                assert(seg.points() =~= visited);
            }
            break ;
        }
        proof {
            seg.lemma_advance(walk.cursor());
            assert(seg.points() =~= visited + seg.walk_from(seg.advance(walk.cursor())));
        }
        walk.advance();
    }
    proof {
        before.lemma_paint_by_cells(
            canvas@,
            stroke_region(x0, y0, x1, y1, thickness as int),
            color,
        );
    }
}

/// Stamps a filled square of side `thickness` at `(x, y)`. The square's
/// top-left corner lies `thickness / 2` (rounded down) to the left of and above
/// `(x, y)`. A stamp of thickness 1 is the single pixel at `(x, y)`.
pub fn draw_brush_stroke(canvas: &mut Canvas, x: i32, y: i32, thickness: usize, color: Color)
    ensures
        final(canvas)@ == old(canvas)@.paint(
            stamp_region(x as int, y as int, thickness as int),
            color,
        ),
        final(canvas)@.wf(),
{
    let ghost before = canvas@;
    let ghost stamp = stamp_region(x as int, y as int, thickness as int);
    let t = thickness as i128;
    let left = x as i128 - t / 2;
    let top = y as i128 - t / 2;
    proof {
        use_type_invariant(&*canvas);
        assert(scanned(stamp, top as int, left as int) =~= Set::empty());
    }

    let mut dy: usize = 0;
    while dy < thickness
        invariant
            dy <= thickness,
            t == thickness,
            left == x - t / 2,
            top == y - t / 2,
            stamp == stamp_region(x as int, y as int, thickness as int),
            painted_so_far(before, canvas@, scanned(stamp, top + dy, left as int), color),
        decreases thickness - dy,
    {
        let mut dx: usize = 0;
        while dx < thickness
            invariant
                dx <= thickness,
                dy < thickness,
                t == thickness,
                left == x - t / 2,
                top == y - t / 2,
                stamp == stamp_region(x as int, y as int, thickness as int),
                painted_so_far(before, canvas@, scanned(stamp, top + dy, left + dx), color),
            decreases thickness - dx,
        {
            let px = left + dx as i128;
            let py = top + dy as i128;
            let ghost earlier = canvas@;
            plot(canvas, px, py, color);
            proof {
                lemma_paint_one_more(
                    before,
                    earlier,
                    scanned(stamp, top + dy, left + dx),
                    color,
                    px as int,
                    py as int,
                );
                assert(scanned(stamp, top + dy, left + dx + 1) =~= scanned(
                    stamp,
                    top + dy,
                    left + dx,
                ).insert((px as int, py as int)));
            }
            dx += 1;
        }
        proof {
            assert(scanned(stamp, top + dy + 1, left as int) =~= scanned(
                stamp,
                top + dy,
                left + dx,
            ));
        }
        dy += 1;
    }
    proof {
        assert(scanned(stamp, top + dy, left as int) =~= stamp);
        before.lemma_paint_by_cells(canvas@, stamp, color);
    }
}

/// Draws the filled disk of the given radius around `(cx, cy)`. A pixel of
/// the canvas is painted exactly when its squared distance from the center is
/// at most the squared radius. A negative radius draws nothing.
pub fn draw_circle(canvas: &mut Canvas, cx: i32, cy: i32, radius: i32, color: Color)
    ensures
        final(canvas)@ == old(canvas)@.paint(
            disk_region(cx as int, cy as int, radius as int),
            color,
        ),
        final(canvas)@.wf(),
{
    let ghost before = canvas@;
    let ghost disk = disk_region(cx as int, cy as int, radius as int);
    let r = radius as i64;
    assert(0 <= r * r <= 0x4000_0000_0000_0000) by (nonlinear_arith)
        requires
            -0x8000_0000 <= r <= 0x8000_0000,
    ;
    let r2 = r * r;
    proof {
        use_type_invariant(&*canvas);
        let none = scanned(disk, cy - r, cx - r);
        assert forall|p: (int, int)| !none.contains(p) by {
            if disk.contains(p) {
                lemma_disk_bounds(cx as int, cy as int, radius as int, p);
            }
        }
        assert(none =~= Set::empty());
    }

    let mut y: i64 = -r;
    while y <= r
        invariant
            r == radius,
            r2 == r * r,
            disk == disk_region(cx as int, cy as int, radius as int),
            -r <= y,
            r >= 0 ==> y <= r + 1,
            painted_so_far(before, canvas@, scanned(disk, cy + y, cx - r), color),
        decreases r + 1 - y,
    {
        let mut x: i64 = -r;
        while x <= r
            invariant
                r == radius,
                r2 == r * r,
                disk == disk_region(cx as int, cy as int, radius as int),
                -r <= y <= r,
                -r <= x <= r + 1,
                painted_so_far(before, canvas@, scanned(disk, cy + y, cx + x), color),
            decreases r + 1 - x,
        {
            assert(0 <= x * x <= 0x3fff_ffff_0000_0001 && 0 <= y * y <= 0x3fff_ffff_0000_0001)
                by (nonlinear_arith)
                requires
                    -0x7fff_ffff <= x <= 0x7fff_ffff,
                    -0x7fff_ffff <= y <= 0x7fff_ffff,
            ;
            let px = cx as i64 + x;
            let py = cy as i64 + y;
            if x * x + y * y <= r2 {
                let ghost earlier = canvas@;
                plot(canvas, px as i128, py as i128, color);
                proof {
                    lemma_paint_one_more(
                        before,
                        earlier,
                        scanned(disk, cy + y, cx + x),
                        color,
                        px as int,
                        py as int,
                    );
                    assert(disk.contains((px as int, py as int)));
                    assert(scanned(disk, cy + y, cx + x + 1) =~= scanned(
                        disk,
                        cy + y,
                        cx + x,
                    ).insert((px as int, py as int)));
                }
            } else {
                proof {
                    assert(!disk.contains((px as int, py as int)));
                    assert(scanned(disk, cy + y, cx + x + 1) =~= scanned(disk, cy + y, cx + x));
                }
            }
            x += 1;
        }
        proof {
            let next_row = scanned(disk, cy + y + 1, cx - r);
            let this_row = scanned(disk, cy + y, cx + x);
            assert forall|p: (int, int)| next_row.contains(p) <==> this_row.contains(p) by {
                if disk.contains(p) {
                    lemma_disk_bounds(cx as int, cy as int, radius as int, p);
                }
            }
            assert(next_row =~= this_row);
        }
        y += 1;
    }
    proof {
        let all_rows = scanned(disk, cy + y, cx - r);
        assert forall|p: (int, int)| all_rows.contains(p) <==> disk.contains(p) by {
            if disk.contains(p) {
                lemma_disk_bounds(cx as int, cy as int, radius as int, p);
            }
        }
        assert(all_rows =~= disk);
        before.lemma_paint_by_cells(canvas@, disk, color);
    }
}

/// Draws the filled square that reaches `half_size` cells in every direction
/// from `(cx, cy)`: side `2 * half_size + 1`, clipped at the canvas edges.
pub fn draw_rectangle(canvas: &mut Canvas, cx: i32, cy: i32, half_size: i32, color: Color)
    ensures
        final(canvas)@ == old(canvas)@.paint(
            box_region(cx as int, cy as int, half_size as int, half_size as int),
            color,
        ),
        final(canvas)@.wf(),
{
    draw_rect_preview(canvas, cx, cy, half_size, half_size, color);
}

/// The first index of a run of cells that starts at `low`, clipped to a
/// canvas axis.
fn clip_low(low: i64) -> (r: usize)
    requires
        -0x1_0000_0000 <= low <= 0xffff_ffff,
    ensures
        r == if low < 0 {
            0
        } else {
            low
        },
{
    if low < 0 {
        0
    } else {
        low as usize
    }
}

/// One past the last index of a run of cells that ends at `high`, clipped to
/// a canvas axis of the given length.
fn clip_high(high: i64, length: usize) -> (r: usize)
    requires
        -0x1_0000_0000 <= high <= 0x1_0000_0000,
    ensures
        r == if high < 0 {
            0
        } else if high < length {
            high + 1
        } else {
            length as int
        },
{
    if high < 0 {
        0
    } else if (high as u64) < (length as u64) {
        high as usize + 1
    } else {
        length
    }
}

/// Draws the filled box that reaches `hx` columns left and right and `hy`
/// rows up and down from `(cx, cy)`, borders included. The box is clipped to
/// the canvas before any pixel is written; a box that misses the canvas, or
/// has a negative extent, draws nothing.
pub fn draw_rect_preview(canvas: &mut Canvas, cx: i32, cy: i32, hx: i32, hy: i32, color: Color)
    ensures
        final(canvas)@ == old(canvas)@.paint(
            box_region(cx as int, cy as int, hx as int, hy as int),
            color,
        ),
        final(canvas)@.wf(),
{
    let ghost before = canvas@;
    let ghost whole = box_region(cx as int, cy as int, hx as int, hy as int);
    let ghost clipped = Set::new(|p: (int, int)| whole.contains(p) && before.contains(p.0, p.1));
    let w = canvas.width();
    let h = canvas.height();
    let x_min = clip_low(cx as i64 - hx as i64);
    let x_max = clip_high(cx as i64 + hx as i64, w);
    let y_min = clip_low(cy as i64 - hy as i64);
    let y_max = clip_high(cy as i64 + hy as i64, h);
    proof {
        use_type_invariant(&*canvas);
        assert(scanned(clipped, y_min as int, x_min as int) =~= Set::empty());
    }

    let mut y = y_min;
    while y < y_max
        invariant
            y_min <= y,
            y_max <= h,
            x_max <= w,
            w == before.width,
            h == before.height,
            forall|p: (int, int)|
                clipped.contains(p) <==> x_min <= p.0 < x_max && y_min <= p.1 < y_max,
            painted_so_far(before, canvas@, scanned(clipped, y as int, x_min as int), color),
        decreases y_max - y,
    {
        let mut x = x_min;
        while x < x_max
            invariant
                x_min <= x,
                y_min <= y < y_max,
                y_max <= h,
                x_max <= w,
                w == before.width,
                h == before.height,
                forall|p: (int, int)|
                    clipped.contains(p) <==> x_min <= p.0 < x_max && y_min <= p.1 < y_max,
                painted_so_far(before, canvas@, scanned(clipped, y as int, x as int), color),
            decreases x_max - x,
        {
            let ghost earlier = canvas@;
            canvas.set_pixel(x, y, color);
            proof {
                lemma_paint_one_more(
                    before,
                    earlier,
                    scanned(clipped, y as int, x as int),
                    color,
                    x as int,
                    y as int,
                );
                assert(scanned(clipped, y as int, x + 1) =~= scanned(
                    clipped,
                    y as int,
                    x as int,
                ).insert((x as int, y as int)));
            }
            x += 1;
        }
        proof {
            assert(scanned(clipped, y + 1, x_min as int) =~= scanned(clipped, y as int, x as int));
        }
        y += 1;
    }
    proof {
        assert(scanned(clipped, y as int, x_min as int) =~= clipped);
        lemma_paint_same_cells(before, canvas@, clipped, whole, color);
    }
}

} // verus!
