//! The integer line walk: which cells a line between two grid points visits,
//! and in which order.
//!
//! The walk keeps an error term that starts at `dx - dy`. At each cell it
//! doubles the error term; if the doubled value is above `-dy` it moves one
//! column toward the end point, and if it is below `dx` it moves one row toward
//! the end point. Both moves may happen at the same cell, which gives a
//! diagonal step.
//!
//! The same cells have a closed form, proved here: every step moves one cell
//! along the longer axis, and the position along the shorter axis is the
//! proportional one, rounded to the nearest cell with a half rounded down.

use vstd::arithmetic::div_mod::lemma_fundamental_div_mod_converse;
use vstd::prelude::*;

verus! {

/// The coordinate `steps` cells away from `from` in the direction of `to`.
pub open spec fn toward(from: int, to: int, steps: int) -> int {
    if from < to {
        from + steps
    } else {
        from - steps
    }
}

/// How far a line has moved along its shorter axis after `i` moves along its
/// longer one: `i * minor / major` rounded to the nearest integer, a half
/// rounded down.
pub open spec fn minor_offset(i: int, major: int, minor: int) -> int {
    if major == 0 {
        0
    } else {
        (2 * (i * minor) + major - 1) / (2 * major)
    }
}

/// A line segment between two grid points, end points included.
pub struct Segment {
    pub x0: int,
    pub y0: int,
    pub x1: int,
    pub y1: int,
}

/// A position on a walk along a segment, with the walk's error term there.
pub struct Cursor {
    pub x: int,
    pub y: int,
    pub err: int,
}

impl Segment {
    /// The number of columns between the end points.
    pub open spec fn dx(self) -> int {
        if self.x0 < self.x1 {
            self.x1 - self.x0
        } else {
            self.x0 - self.x1
        }
    }

    /// The number of rows between the end points.
    pub open spec fn dy(self) -> int {
        if self.y0 < self.y1 {
            self.y1 - self.y0
        } else {
            self.y0 - self.y1
        }
    }

    /// The direction of a column move: 1 or -1.
    pub open spec fn sx(self) -> int {
        if self.x0 < self.x1 {
            1
        } else {
            -1
        }
    }

    /// The direction of a row move: 1 or -1.
    pub open spec fn sy(self) -> int {
        if self.y0 < self.y1 {
            1
        } else {
            -1
        }
    }

    /// Where the walk begins.
    pub open spec fn start(self) -> Cursor {
        Cursor { x: self.x0, y: self.y0, err: self.dx() - self.dy() }
    }

    /// Whether the cursor stands on the end point.
    pub open spec fn at_end(self, c: Cursor) -> bool {
        c.x == self.x1 && c.y == self.y1
    }

    /// The cursor after one step of the walk.
    pub open spec fn advance(self, c: Cursor) -> Cursor {
        let e2 = 2 * c.err;
        let across = e2 > -self.dy();
        let along = e2 < self.dx();
        Cursor {
            x: if across {
                c.x + self.sx()
            } else {
                c.x
            },
            y: if along {
                c.y + self.sy()
            } else {
                c.y
            },
            err: c.err - (if across {
                self.dy()
            } else {
                0
            }) + (if along {
                self.dx()
            } else {
                0
            }),
        }
    }

    /// Column moves made so far.
    pub open spec fn moved_x(self, c: Cursor) -> int {
        if self.x0 < self.x1 {
            c.x - self.x0
        } else {
            self.x0 - c.x
        }
    }

    /// Row moves made so far.
    pub open spec fn moved_y(self, c: Cursor) -> int {
        if self.y0 < self.y1 {
            c.y - self.y0
        } else {
            self.y0 - c.y
        }
    }

    /// The cursor lies between the end points, its error term matches the
    /// moves made so far and stays within twice the segment's extent. Every
    /// cursor of the walk is on track.
    pub open spec fn on_track(self, c: Cursor) -> bool {
        &&& 0 <= self.moved_x(c) <= self.dx()
        &&& 0 <= self.moved_y(c) <= self.dy()
        &&& c.err == self.dx() - self.dy() - self.moved_x(c) * self.dy() + self.moved_y(c)
            * self.dx()
        &&& -2 * self.dy() <= c.err <= 2 * self.dx()
    }

    /// Moves still to be made before the end point is reached.
    pub open spec fn remaining(self, c: Cursor) -> int {
        (self.dx() - self.moved_x(c)) + (self.dy() - self.moved_y(c))
    }

    /// The cells visited from the cursor to the end point, both included.
    pub open spec fn walk_from(self, c: Cursor) -> Seq<(int, int)>
        decreases self.remaining(c),
        when self.on_track(c)
    {
        if self.at_end(c) {
            seq![(c.x, c.y)]
        } else {
            proof {
                self.lemma_advance(c);
            }
            seq![(c.x, c.y)] + self.walk_from(self.advance(c))
        }
    }

    /// The cells of the line, from `(x0, y0)` to `(x1, y1)`.
    pub open spec fn points(self) -> Seq<(int, int)> {
        self.walk_from(self.start())
    }

    /// The walk begins on track.
    pub proof fn lemma_start(self)
        ensures
            self.on_track(self.start()),
            self.remaining(self.start()) == self.dx() + self.dy(),
            0 <= self.dx(),
            0 <= self.dy(),
    {
        assert(0 * self.dy() == 0) by (nonlinear_arith);
        assert(0 * self.dx() == 0) by (nonlinear_arith);
    }

    /// A step short of the end point stays on track and comes closer to the
    /// end point: the walk never overshoots and never stalls.
    pub proof fn lemma_advance(self, c: Cursor)
        requires
            self.on_track(c),
            !self.at_end(c),
        ensures
            self.on_track(self.advance(c)),
            0 <= self.remaining(self.advance(c)) < self.remaining(c),
    {
        let dx = self.dx();
        let dy = self.dy();
        let a = self.moved_x(c);
        let b = self.moved_y(c);
        let ady = a * dy;
        let bdx = b * dx;
        assert(dx * dy == dy * dx) by (nonlinear_arith);
        assert((a + 1) * dy == ady + dy) by (nonlinear_arith)
            requires
                ady == a * dy,
        ;
        assert((b + 1) * dx == bdx + dx) by (nonlinear_arith)
            requires
                bdx == b * dx,
        ;
        assert(0 <= ady <= dx * dy) by (nonlinear_arith)
            requires
                ady == a * dy,
                0 <= a <= dx,
                0 <= dy,
        ;
        assert(0 <= bdx <= dy * dx) by (nonlinear_arith)
            requires
                bdx == b * dx,
                0 <= b <= dy,
                0 <= dx,
        ;
        if a == dx {
            assert(ady == dx * dy);
            assert(bdx <= dy * dx - dx) by (nonlinear_arith)
                requires
                    bdx == b * dx,
                    0 <= b <= dy - 1,
                    0 <= dx,
            ;
        }
        if b == dy {
            assert(bdx == dy * dx);
            assert(ady <= dx * dy - dy) by (nonlinear_arith)
                requires
                    ady == a * dy,
                    0 <= a <= dx - 1,
                    0 <= dy,
            ;
        }
        if a < dx && b < dy {
            assert(ady <= dx * dy - dy) by (nonlinear_arith)
                requires
                    ady == a * dy,
                    0 <= a <= dx - 1,
                    0 <= dy,
            ;
            assert(bdx <= dy * dx - dx) by (nonlinear_arith)
                requires
                    bdx == b * dx,
                    0 <= b <= dy - 1,
                    0 <= dx,
            ;
        }
    }

    /// Whether `p` lies in the smallest box that holds both end points.
    pub open spec fn spans(self, p: (int, int)) -> bool {
        &&& self.x0 <= p.0 <= self.x1 || self.x1 <= p.0 <= self.x0
        &&& self.y0 <= p.1 <= self.y1 || self.y1 <= p.1 <= self.y0
    }

    /// Whether `q` is one of the eight neighbors of `p`.
    pub open spec fn adjacent(p: (int, int), q: (int, int)) -> bool {
        &&& -1 <= q.0 - p.0 <= 1
        &&& -1 <= q.1 - p.1 <= 1
        &&& p != q
    }

    /// The rest of a walk begins at its cursor, ends at the end point, stays
    /// between the end points and moves from each cell to a neighbor.
    proof fn lemma_walk_shape(self, c: Cursor)
        requires
            self.on_track(c),
        ensures
            self.walk_from(c).len() >= 1,
            self.walk_from(c).first() == (c.x, c.y),
            self.walk_from(c).last() == (self.x1, self.y1),
            forall|i: int|
                0 <= i < self.walk_from(c).len() ==> self.spans(#[trigger] self.walk_from(c)[i]),
            forall|i: int|
                0 <= i < self.walk_from(c).len() - 1 ==> Self::adjacent(
                    #[trigger] self.walk_from(c)[i],
                    self.walk_from(c)[i + 1],
                ),
        decreases self.remaining(c),
    {
        if !self.at_end(c) {
            let next = self.advance(c);
            let rest = self.walk_from(next);
            let walk = self.walk_from(c);
            self.lemma_advance(c);
            self.lemma_walk_shape(next);
            assert(walk == seq![(c.x, c.y)] + rest);
            assert forall|i: int| 0 <= i < walk.len() implies self.spans(#[trigger] walk[i]) by {
                if i > 0 {
                    assert(walk[i] == rest[i - 1]);
                }
            }
            assert forall|i: int| 0 <= i < walk.len() - 1 implies Self::adjacent(
                #[trigger] walk[i],
                walk[i + 1],
            ) by {
                assert(walk[i + 1] == rest[i]);
                if i > 0 {
                    assert(walk[i] == rest[i - 1]);
                }
            }
            assert(walk.last() == rest.last());
        }
    }

    /// A line begins at its first end point and ends at its second, stays in
    /// the box between the two, and moves from each cell to one of its eight
    /// neighbors: it has no gaps and visits no cell twice in a row.
    pub proof fn lemma_points_shape(self)
        ensures
            self.points().len() >= 1,
            self.points().first() == (self.x0, self.y0),
            self.points().last() == (self.x1, self.y1),
            forall|i: int| 0 <= i < self.points().len() ==> self.spans(#[trigger] self.points()[i]),
            forall|i: int|
                0 <= i < self.points().len() - 1 ==> Self::adjacent(
                    #[trigger] self.points()[i],
                    self.points()[i + 1],
                ),
    {
        self.lemma_start();
        self.lemma_walk_shape(self.start());
    }

    /// The number of steps of the walk: the extent along the longer axis.
    pub open spec fn steps(self) -> int {
        if self.dx() >= self.dy() {
            self.dx()
        } else {
            self.dy()
        }
    }

    /// The cell that the line reaches after `i` steps, in closed form: `i`
    /// cells from the first end point along the longer axis, and
    /// `minor_offset` cells along the shorter one.
    pub open spec fn cell(self, i: int) -> (int, int) {
        if self.dx() >= self.dy() {
            (
                toward(self.x0, self.x1, i),
                toward(self.y0, self.y1, minor_offset(i, self.dx(), self.dy())),
            )
        } else {
            (
                toward(self.x0, self.x1, minor_offset(i, self.dy(), self.dx())),
                toward(self.y0, self.y1, i),
            )
        }
    }

    /// Steps made so far along the longer axis.
    spec fn stepped(self, c: Cursor) -> int {
        if self.dx() >= self.dy() {
            self.moved_x(c)
        } else {
            self.moved_y(c)
        }
    }

    /// The error term lies in the window that makes every step a move along
    /// the longer axis.
    spec fn balanced(self, c: Cursor) -> bool {
        if self.dx() >= self.dy() {
            &&& self.dx() - 2 * self.dy() <= 2 * c.err < 3 * self.dx() - 2 * self.dy()
            &&& self.dx() == self.dy() ==> c.err == 0
        } else {
            self.dy() - 2 * self.dx() <= -2 * c.err < 3 * self.dy() - 2 * self.dx()
        }
    }

    /// A balanced cursor stands on the cell that the closed form gives for the
    /// steps it has made.
    proof fn lemma_balanced_cell(self, c: Cursor)
        requires
            self.on_track(c),
            self.balanced(c),
            self.steps() > 0,
        ensures
            (c.x, c.y) == self.cell(self.stepped(c)),
    {
        let dx = self.dx();
        let dy = self.dy();
        let a = self.moved_x(c);
        let b = self.moved_y(c);
        let ady = a * dy;
        let bdx = b * dx;
        if dx >= dy {
            let n = 2 * ady + dx - 1;
            assert(b * (2 * dx) == 2 * bdx) by (nonlinear_arith)
                requires
                    bdx == b * dx,
            ;
            lemma_fundamental_div_mod_converse(n, 2 * dx, b, n - 2 * bdx);
        } else {
            let n = 2 * bdx + dy - 1;
            assert(a * (2 * dy) == 2 * ady) by (nonlinear_arith)
                requires
                    ady == a * dy,
            ;
            lemma_fundamental_div_mod_converse(n, 2 * dy, a, n - 2 * ady);
        }
    }

    /// A step from a balanced cursor moves along the longer axis and leaves
    /// the cursor balanced.
    proof fn lemma_balanced_advance(self, c: Cursor)
        requires
            self.on_track(c),
            self.balanced(c),
            !self.at_end(c),
        ensures
            self.balanced(self.advance(c)),
            self.stepped(self.advance(c)) == self.stepped(c) + 1,
    {
        self.lemma_advance(c);
    }

    /// The rest of a walk from a balanced cursor is the closed form from the
    /// steps made so far to the last step.
    proof fn lemma_walk_cells(self, c: Cursor)
        requires
            self.on_track(c),
            self.balanced(c),
            self.steps() > 0,
        ensures
            self.walk_from(c).len() == self.steps() - self.stepped(c) + 1,
            forall|j: int|
                0 <= j < self.walk_from(c).len() ==> #[trigger] self.walk_from(c)[j] == self.cell(
                    self.stepped(c) + j,
                ),
        decreases self.remaining(c),
    {
        let walk = self.walk_from(c);
        self.lemma_balanced_cell(c);
        if !self.at_end(c) {
            let next = self.advance(c);
            let rest = self.walk_from(next);
            self.lemma_advance(c);
            self.lemma_balanced_advance(c);
            self.lemma_walk_cells(next);
            assert(walk == seq![(c.x, c.y)] + rest);
            assert forall|j: int| 0 <= j < walk.len() implies #[trigger] walk[j] == self.cell(
                self.stepped(c) + j,
            ) by {
                if j > 0 {
                    assert(walk[j] == rest[j - 1]);
                }
            }
        }
    }

    /// The line in closed form. It has one cell for each step along its longer
    /// axis and one for its first end point, and its `i`-th cell lies `i` cells
    /// from the first end point along the longer axis and `i * minor / major`
    /// cells, rounded to the nearest integer with a half rounded down, along
    /// the shorter one.
    pub proof fn lemma_closed_form(self)
        ensures
            self.points().len() == self.steps() + 1,
            forall|i: int| 0 <= i <= self.steps() ==> #[trigger] self.points()[i] == self.cell(i),
    {
        self.lemma_start();
        if self.steps() > 0 {
            self.lemma_walk_cells(self.start());
        }
    }

    /// A line from a point to itself is that one point.
    pub proof fn lemma_single_point(self)
        requires
            self.x0 == self.x1,
            self.y0 == self.y1,
        ensures
            self.points() == seq![(self.x0, self.y0)],
    {
        self.lemma_start();
    }
}

} // verus!
