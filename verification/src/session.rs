//! Tool sessions: the state of a drawing tool between its activation and the
//! moment it commits or is cancelled, driven by pointer events.
//!
//! A session never waits or reads input. The caller hands it one event at a
//! time, and the session answers whether it is still active. A commit draws
//! on the live canvas and records one snapshot in the history; a preview is
//! drawn on a copy and changes neither.

use crate::brush::{Brush, BrushView};
use crate::canvas::{Canvas, Color, Grid, WHITE};
use crate::history::{History, Timeline};
use crate::raster::{
    box_region, disk_region, draw_brush_stroke, draw_circle, draw_line, draw_line_with_brush,
    draw_rect_preview, line_region, stamp_region, stroke_region,
};
use vstd::prelude::*;

verus! {

/// A point in canvas coordinates. It need not lie on the canvas.
#[derive(Clone, Copy, Debug, PartialEq, Eq)]
pub struct Point {
    pub x: i32,
    pub y: i32,
}

/// What the pointer did.
#[derive(Clone, Copy, Debug, PartialEq, Eq)]
pub enum PointerEvent {
    /// A button went down at the point.
    Down(Point),
    /// The pointer moved to the point with a button held.
    Drag(Point),
    /// The pointer moved to the point with no button held.
    Move(Point),
    /// The button was released.
    Up,
    /// The user ended the tool.
    Cancel,
}

/// The shapes of the shape tool.
#[derive(Clone, Copy, Debug, PartialEq, Eq)]
pub enum Shape {
    Circle,
    Rectangle,
}

/// What became of a session after an event.
#[derive(Clone, Copy, Debug, PartialEq, Eq)]
pub enum Status {
    /// The session goes on.
    Active,
    /// The session ended and recorded a snapshot.
    Committed,
    /// The session ended and changed nothing.
    Cancelled,
}

/// The state of a drawing tool.
#[derive(Clone, Copy, Debug, PartialEq, Eq)]
pub enum Session {
    /// The shape tool: the first press sets `start`, pointer motion after it
    /// sets `end` for the preview, and the second press commits.
    Shape { shape: Shape, start: Option<Point>, end: Option<Point> },
    /// The line tool: the first press sets `start`, the second commits.
    Line { start: Option<Point> },
    /// The freehand tools, paint and erase: `last` is the latest point of the
    /// stroke in progress.
    Freehand { erase: bool, last: Option<Point> },
}

/// What a session may change: the live canvas and the history.
pub struct World {
    pub canvas: Grid,
    pub history: Timeline,
}

impl World {
    /// The world after a commit: the live canvas recorded as a new snapshot.
    pub open spec fn committed(self) -> World {
        World { history: self.history.push(self.canvas), ..self }
    }

    /// The world after `region` of the live canvas was painted.
    pub open spec fn painted(self, region: Set<(int, int)>, color: Color) -> World {
        World { canvas: self.canvas.paint(region, color), ..self }
    }
}

/// A session after an event, the world it left and its status.
pub struct Outcome {
    pub session: Session,
    pub world: World,
    pub status: Status,
}

/// The distance between two coordinates.
pub open spec fn span(a: int, b: int) -> int {
    if a < b {
        b - a
    } else {
        a - b
    }
}

/// The coordinate halfway between two coordinates, rounded toward zero.
pub open spec fn midpoint(a: int, b: int) -> int {
    if a + b >= 0 {
        (a + b) / 2
    } else {
        -((-(a + b)) / 2)
    }
}

/// Half of a distance, rounded down, but at least 1: a shape is visible even
/// when its two points coincide.
pub open spec fn half_extent(distance: int) -> int {
    if distance / 2 < 1 {
        1
    } else {
        distance / 2
    }
}

/// The radius of the circle spanned by two points: half of the larger of the
/// two axis distances, at least 1.
pub open spec fn circle_radius(start: Point, end: Point) -> int {
    let dx = span(start.x as int, end.x as int);
    let dy = span(start.y as int, end.y as int);
    half_extent(
        if dx < dy {
            dy
        } else {
            dx
        },
    )
}

/// The cells of the shape spanned by two points. Its center is the midpoint
/// of the two; a circle has the radius `circle_radius`, a rectangle reaches
/// half of each axis distance, at least 1, from the center.
pub open spec fn shape_region(shape: Shape, start: Point, end: Point) -> Set<(int, int)> {
    let cx = midpoint(start.x as int, end.x as int);
    let cy = midpoint(start.y as int, end.y as int);
    match shape {
        Shape::Circle => disk_region(cx, cy, circle_radius(start, end)),
        Shape::Rectangle => box_region(
            cx,
            cy,
            half_extent(span(start.x as int, end.x as int)),
            half_extent(span(start.y as int, end.y as int)),
        ),
    }
}

/// The cells that one sample of a freehand stroke covers: a brush stroke from
/// the latest point to the new one, or a single stamp when the stroke begins.
pub open spec fn sample_region(last: Option<Point>, to: Point, thickness: int) -> Set<(int, int)> {
    match last {
        Some(from) => stroke_region(from.x, from.y, to.x, to.y, thickness),
        None => stamp_region(to.x as int, to.y as int, thickness),
    }
}

/// The color a freehand tool draws with: white when it erases.
pub open spec fn freehand_color(erase: bool, brush: BrushView) -> Color {
    if erase {
        WHITE
    } else {
        brush.color
    }
}

impl Session {
    /// A shape session that awaits its first point.
    pub fn shape(shape: Shape) -> (session: Session)
        ensures
            session == (Session::Shape { shape, start: None, end: None }),
    {
        Session::Shape { shape, start: None, end: None }
    }

    /// A line session that awaits its first point.
    pub fn line() -> (session: Session)
        ensures
            session == (Session::Line { start: None }),
    {
        Session::Line { start: None }
    }

    /// A freehand session, painting or erasing, with no stroke in progress.
    pub fn freehand(erase: bool) -> (session: Session)
        ensures
            session == (Session::Freehand { erase, last: None }),
    {
        Session::Freehand { erase, last: None }
    }

    /// The same tool with no point recorded.
    pub open spec fn idle(self) -> Session {
        match self {
            Session::Shape { shape, .. } => Session::Shape { shape, start: None, end: None },
            Session::Line { .. } => Session::Line { start: None },
            Session::Freehand { erase, .. } => Session::Freehand { erase, last: None },
        }
    }

    /// The session after the pointer moved to `to`, pressed or not. Only a
    /// shape session with a first point takes note, for its preview.
    pub open spec fn hovered(self, to: Point) -> Session {
        match self {
            Session::Shape { shape, start: Some(from), .. } => Session::Shape {
                shape,
                start: Some(from),
                end: Some(to),
            },
            _ => self,
        }
    }

    /// The session goes on and the world is untouched.
    pub open spec fn goes_on(session: Session, world: World) -> Outcome {
        Outcome { session, world, status: Status::Active }
    }

    /// What a press at `at` does. The first press of a shape or line session
    /// records the point. The second draws the shape or line in the brush's
    /// color, commits and ends the session. A freehand session ignores
    /// presses.
    pub open spec fn pressed(self, brush: BrushView, world: World, at: Point) -> Outcome {
        match self {
            Session::Shape { shape, start: None, .. } => Self::goes_on(
                Session::Shape { shape, start: Some(at), end: None },
                world,
            ),
            Session::Shape { shape, start: Some(from), .. } => Outcome {
                session: self.idle(),
                world: world.painted(shape_region(shape, from, at), brush.color).committed(),
                status: Status::Committed,
            },
            Session::Line { start: None } => Self::goes_on(
                Session::Line { start: Some(at) },
                world,
            ),
            Session::Line { start: Some(from) } => Outcome {
                session: self.idle(),
                world: world.painted(
                    line_region(from.x, from.y, at.x, at.y),
                    brush.color,
                ).committed(),
                status: Status::Committed,
            },
            Session::Freehand { .. } => Self::goes_on(self, world),
        }
    }

    /// What a drag to `to` does. A freehand session draws one sample of its
    /// stroke on the live canvas and remembers the point. Other sessions treat
    /// the drag as pointer motion.
    pub open spec fn dragged(self, brush: BrushView, world: World, to: Point) -> Outcome {
        match self {
            Session::Freehand { erase, last } => Self::goes_on(
                Session::Freehand { erase, last: Some(to) },
                world.painted(
                    sample_region(last, to, brush.thickness as int),
                    freehand_color(erase, brush),
                ),
            ),
            _ => Self::goes_on(self.hovered(to), world),
        }
    }

    /// What the end of the tool does. A freehand session commits what it drew:
    /// one snapshot for the whole session, however many strokes it made. A
    /// shape or line session is cancelled and leaves no trace.
    pub open spec fn ended(self, world: World) -> Outcome {
        match self {
            Session::Freehand { .. } => Outcome {
                session: self.idle(),
                world: world.committed(),
                status: Status::Committed,
            },
            _ => Outcome { session: self.idle(), world, status: Status::Cancelled },
        }
    }

    /// The session, the world and the status after one event.
    pub open spec fn step(self, brush: BrushView, world: World, event: PointerEvent) -> Outcome {
        match event {
            PointerEvent::Down(at) => self.pressed(brush, world, at),
            PointerEvent::Drag(to) => self.dragged(brush, world, to),
            PointerEvent::Move(to) => Self::goes_on(self.hovered(to), world),
            PointerEvent::Up => match self {
                Session::Freehand { erase, .. } => Self::goes_on(
                    Session::Freehand { erase, last: None },
                    world,
                ),
                _ => Self::goes_on(self, world),
            },
            PointerEvent::Cancel => self.ended(world),
        }
    }

    /// What the screen shows while the session is active: the live canvas,
    /// and over it the shape between the first point and the pointer once a
    /// shape session has both.
    pub open spec fn shown(self, brush: BrushView, canvas: Grid) -> Grid {
        match self {
            Session::Shape { shape, start: Some(from), end: Some(to) } => canvas.paint(
                shape_region(shape, from, to),
                brush.color,
            ),
            _ => canvas,
        }
    }

    /// Only a commit changes the history, and it adds exactly one snapshot:
    /// the live canvas as the event left it. Only a commit or a freehand drag
    /// changes the live canvas. Whatever ends a session leaves the tool with
    /// no point recorded.
    pub proof fn lemma_step_effects(self, brush: BrushView, world: World, event: PointerEvent)
        ensures
            ({
                let after = self.step(brush, world, event);
                &&& after.status is Committed ==> after.world.history == world.history.push(
                    after.world.canvas,
                )
                &&& !(after.status is Committed) ==> after.world.history == world.history
                &&& after.status is Cancelled ==> after.world == world
                &&& after.status is Active && !(self is Freehand && event is Drag)
                    ==> after.world == world
                &&& !(after.status is Active) ==> after.session == self.idle()
            }),
    {
    }

    /// Handles one pointer event: updates the session, draws on the live
    /// canvas and records a snapshot in the history as `step` says, and
    /// returns whether the session goes on.
    pub fn handle(
        &mut self,
        brush: &Brush,
        canvas: &mut Canvas,
        history: &mut History,
        event: PointerEvent,
    ) -> (status: Status)
        ensures
            (Outcome {
                session: *final(self),
                world: World { canvas: final(canvas)@, history: final(history)@ },
                status,
            }) == old(self).step(
                brush@,
                World { canvas: old(canvas)@, history: old(history)@ },
                event,
            ),
    {
        let thickness = brush.thickness();
        match event {
            PointerEvent::Down(at) => match *self {
                Session::Shape { shape, start: None, .. } => {
                    *self = Session::Shape { shape, start: Some(at), end: None };
                    Status::Active
                },
                Session::Shape { shape, start: Some(from), .. } => {
                    draw_shape(canvas, shape, from, at, brush.color());
                    history.push(canvas.clone_for_preview());
                    *self = Session::Shape { shape, start: None, end: None };
                    Status::Committed
                },
                Session::Line { start: None } => {
                    *self = Session::Line { start: Some(at) };
                    Status::Active
                },
                Session::Line { start: Some(from) } => {
                    draw_line(canvas, from.x, from.y, at.x, at.y, brush.color());
                    history.push(canvas.clone_for_preview());
                    *self = Session::Line { start: None };
                    Status::Committed
                },
                Session::Freehand { .. } => Status::Active,
            },
            PointerEvent::Drag(to) => match *self {
                Session::Freehand { erase, last } => {
                    let color = if erase {
                        WHITE
                    } else {
                        brush.color()
                    };
                    match last {
                        Some(from) => draw_line_with_brush(
                            canvas,
                            from.x,
                            from.y,
                            to.x,
                            to.y,
                            thickness,
                            color,
                        ),
                        None => draw_brush_stroke(canvas, to.x, to.y, thickness, color),
                    }
                    *self = Session::Freehand { erase, last: Some(to) };
                    Status::Active
                },
                _ => {
                    self.hover(to);
                    Status::Active
                },
            },
            PointerEvent::Move(to) => {
                self.hover(to);
                Status::Active
            },
            PointerEvent::Up => {
                match *self {
                    Session::Freehand { erase, .. } => {
                        *self = Session::Freehand { erase, last: None };
                    },
                    _ => {},
                }
                Status::Active
            },
            PointerEvent::Cancel => match *self {
                Session::Freehand { erase, .. } => {
                    history.push(canvas.clone_for_preview());
                    *self = Session::Freehand { erase, last: None };
                    Status::Committed
                },
                Session::Shape { shape, .. } => {
                    *self = Session::Shape { shape, start: None, end: None };
                    Status::Cancelled
                },
                Session::Line { .. } => {
                    *self = Session::Line { start: None };
                    Status::Cancelled
                },
            },
        }
    }

    /// Takes note of pointer motion.
    fn hover(&mut self, to: Point)
        ensures
            *final(self) == old(self).hovered(to),
    {
        match *self {
            Session::Shape { shape, start: Some(from), .. } => {
                *self = Session::Shape { shape, start: Some(from), end: Some(to) };
            },
            _ => {},
        }
    }

    /// The picture to show while the session is active, on a copy of the
    /// canvas. The canvas itself is not touched.
    pub fn preview(&self, brush: &Brush, canvas: &Canvas) -> (shown: Canvas)
        ensures
            shown@ == self.shown(brush@, canvas@),
            shown@.wf(),
    {
        let mut shown = canvas.clone_for_preview();
        match *self {
            Session::Shape { shape, start: Some(from), end: Some(to) } => {
                draw_shape(&mut shown, shape, from, to, brush.color());
            },
            _ => {},
        }
        shown
    }
}

/// The distance between two coordinates.
fn distance(a: i32, b: i32) -> (d: i64)
    ensures
        d == span(a as int, b as int),
        0 <= d <= 0xffff_ffff,
{
    if a < b {
        b as i64 - a as i64
    } else {
        a as i64 - b as i64
    }
}

/// The coordinate halfway between two coordinates, rounded toward zero.
fn middle(a: i32, b: i32) -> (m: i32)
    ensures
        m == midpoint(a as int, b as int),
{
    ((a as i64 + b as i64) / 2) as i32
}

/// Half of a distance, at least 1.
fn half(distance: i64) -> (h: i32)
    requires
        0 <= distance <= 0xffff_ffff,
    ensures
        h == half_extent(distance as int),
{
    let h = distance / 2;
    if h < 1 {
        1
    } else {
        h as i32
    }
}

/// Draws the shape spanned by two points: its center is their midpoint, and
/// it reaches half of their distance, at least 1.
pub fn draw_shape(canvas: &mut Canvas, shape: Shape, start: Point, end: Point, color: Color)
    ensures
        final(canvas)@ == old(canvas)@.paint(shape_region(shape, start, end), color),
        final(canvas)@.wf(),
{
    let dx = distance(start.x, end.x);
    let dy = distance(start.y, end.y);
    let cx = middle(start.x, end.x);
    let cy = middle(start.y, end.y);
    match shape {
        Shape::Circle => {
            let larger = if dx < dy {
                dy
            } else {
                dx
            };
            draw_circle(canvas, cx, cy, half(larger), color);
        },
        Shape::Rectangle => {
            draw_rect_preview(canvas, cx, cy, half(dx), half(dy), color);
        },
    }
}

} // verus!
