use raint::brush::Brush;
use raint::canvas::{Canvas, Color, WHITE};
use raint::history::History;
use raint::raster::{draw_brush_stroke, draw_circle, draw_line, draw_line_with_brush};
use raint::session::{draw_shape, Point, PointerEvent, Session, Shape, Status};

const INK: Color = [10, 20, 30];

/// A blank canvas, a history seeded with it, and a brush with `INK`.
fn fresh(width: usize, height: usize, thickness: usize) -> (Canvas, History, Brush) {
    let canvas = Canvas::new(width, height);
    let history = History::new(canvas.clone_for_preview());
    let mut brush = Brush::new();
    brush.set_color(INK);
    brush.set_thickness(thickness);
    (canvas, history, brush)
}

fn at(x: i32, y: i32) -> Point {
    Point { x, y }
}

/// The cells that carry `color`, row by row.
fn colored(canvas: &Canvas, color: Color) -> Vec<(usize, usize)> {
    let mut cells = Vec::new();
    for y in 0..canvas.height() {
        for x in 0..canvas.width() {
            if canvas.get_pixel(x, y) == color {
                cells.push((x, y));
            }
        }
    }
    cells
}

#[test]
fn sessions_begin_without_points() {
    assert_eq!(
        Session::shape(Shape::Circle),
        Session::Shape { shape: Shape::Circle, start: None, end: None }
    );
    assert_eq!(
        Session::shape(Shape::Rectangle),
        Session::Shape { shape: Shape::Rectangle, start: None, end: None }
    );
    assert_eq!(Session::line(), Session::Line { start: None });
    assert_eq!(Session::freehand(false), Session::Freehand { erase: false, last: None });
    assert_eq!(Session::freehand(true), Session::Freehand { erase: true, last: None });
}

#[test]
fn circle_session_commits_on_the_second_press() {
    let (mut canvas, mut history, brush) = fresh(9, 9, 1);
    let mut session = Session::shape(Shape::Circle);

    let status = session.handle(&brush, &mut canvas, &mut history, PointerEvent::Down(at(1, 2)));
    assert_eq!(status, Status::Active);
    assert_eq!(
        session,
        Session::Shape { shape: Shape::Circle, start: Some(at(1, 2)), end: None }
    );
    assert_eq!(colored(&canvas, INK), vec![]);
    assert_eq!(history.cursor(), 0);

    let status = session.handle(&brush, &mut canvas, &mut history, PointerEvent::Down(at(6, 4)));
    assert_eq!(status, Status::Committed);
    assert_eq!(session, Session::shape(Shape::Circle));
    assert_eq!(
        colored(&canvas, INK),
        vec![
            (3, 1),
            (2, 2),
            (3, 2),
            (4, 2),
            (1, 3),
            (2, 3),
            (3, 3),
            (4, 3),
            (5, 3),
            (2, 4),
            (3, 4),
            (4, 4),
            (3, 5)
        ]
    );
    assert_eq!(history.cursor(), 1);
    assert!(!history.can_redo());
    assert_eq!(history.current().pixels(), canvas.pixels());
}

#[test]
fn rectangle_session_commits_on_the_second_press() {
    let (mut canvas, mut history, brush) = fresh(9, 9, 1);
    let mut session = Session::shape(Shape::Rectangle);
    session.handle(&brush, &mut canvas, &mut history, PointerEvent::Down(at(1, 2)));
    let status = session.handle(&brush, &mut canvas, &mut history, PointerEvent::Down(at(6, 4)));
    assert_eq!(status, Status::Committed);
    assert_eq!(
        colored(&canvas, INK),
        vec![
            (1, 2),
            (2, 2),
            (3, 2),
            (4, 2),
            (5, 2),
            (1, 3),
            (2, 3),
            (3, 3),
            (4, 3),
            (5, 3),
            (1, 4),
            (2, 4),
            (3, 4),
            (4, 4),
            (5, 4)
        ]
    );
    assert_eq!(history.cursor(), 1);
}

#[test]
fn shape_of_two_equal_points_is_still_visible() {
    let (mut canvas, mut history, brush) = fresh(9, 9, 1);
    let mut session = Session::shape(Shape::Rectangle);
    session.handle(&brush, &mut canvas, &mut history, PointerEvent::Down(at(3, 3)));
    session.handle(&brush, &mut canvas, &mut history, PointerEvent::Down(at(3, 3)));
    assert_eq!(
        colored(&canvas, INK),
        vec![(2, 2), (3, 2), (4, 2), (2, 3), (3, 3), (4, 3), (2, 4), (3, 4), (4, 4)]
    );

    let (mut canvas, mut history, brush) = fresh(9, 9, 1);
    let mut session = Session::shape(Shape::Circle);
    session.handle(&brush, &mut canvas, &mut history, PointerEvent::Down(at(3, 3)));
    session.handle(&brush, &mut canvas, &mut history, PointerEvent::Down(at(3, 3)));
    assert_eq!(colored(&canvas, INK), vec![(3, 2), (2, 3), (3, 3), (4, 3), (3, 4)]);
}

#[test]
fn shape_session_follows_the_pointer_for_its_preview() {
    let (mut canvas, mut history, brush) = fresh(9, 9, 1);
    let mut session = Session::shape(Shape::Rectangle);

    let status = session.handle(&brush, &mut canvas, &mut history, PointerEvent::Move(at(5, 5)));
    assert_eq!(status, Status::Active);
    assert_eq!(session, Session::shape(Shape::Rectangle));
    assert_eq!(session.preview(&brush, &canvas).pixels(), canvas.pixels());

    session.handle(&brush, &mut canvas, &mut history, PointerEvent::Down(at(1, 2)));
    assert_eq!(session.preview(&brush, &canvas).pixels(), canvas.pixels());

    let status = session.handle(&brush, &mut canvas, &mut history, PointerEvent::Drag(at(4, 4)));
    assert_eq!(status, Status::Active);
    assert_eq!(
        session,
        Session::Shape { shape: Shape::Rectangle, start: Some(at(1, 2)), end: Some(at(4, 4)) }
    );
    let status = session.handle(&brush, &mut canvas, &mut history, PointerEvent::Move(at(6, 4)));
    assert_eq!(status, Status::Active);
    assert_eq!(
        session,
        Session::Shape { shape: Shape::Rectangle, start: Some(at(1, 2)), end: Some(at(6, 4)) }
    );
    let status = session.handle(&brush, &mut canvas, &mut history, PointerEvent::Up);
    assert_eq!(status, Status::Active);
    assert_eq!(
        session,
        Session::Shape { shape: Shape::Rectangle, start: Some(at(1, 2)), end: Some(at(6, 4)) }
    );

    let shown = session.preview(&brush, &canvas);
    assert_eq!(colored(&shown, INK).len(), 15);
    assert_eq!(shown.get_pixel(1, 2), INK);
    assert_eq!(shown.get_pixel(5, 4), INK);
    assert_eq!(shown.get_pixel(6, 4), WHITE);
    assert_eq!(colored(&canvas, INK), vec![]);
    assert_eq!(history.cursor(), 0);
    assert!(!history.can_redo());
}

#[test]
fn cancelled_shape_session_leaves_no_trace() {
    let (mut canvas, mut history, brush) = fresh(9, 9, 1);
    canvas.set_pixel(0, 0, [1, 1, 1]);
    history.push(canvas.clone_for_preview());
    history.push(canvas.clone_for_preview());
    history.undo();
    let before = canvas.pixels().clone();

    let mut session = Session::shape(Shape::Circle);
    session.handle(&brush, &mut canvas, &mut history, PointerEvent::Down(at(2, 2)));
    session.handle(&brush, &mut canvas, &mut history, PointerEvent::Drag(at(6, 6)));
    let status = session.handle(&brush, &mut canvas, &mut history, PointerEvent::Cancel);
    assert_eq!(status, Status::Cancelled);
    assert_eq!(session, Session::shape(Shape::Circle));
    assert_eq!(canvas.pixels(), &before);
    assert_eq!(history.cursor(), 1);
    assert!(history.can_redo());
}

#[test]
fn line_session_draws_between_two_presses() {
    let (mut canvas, mut history, brush) = fresh(8, 8, 3);
    let mut session = Session::line();

    let status = session.handle(&brush, &mut canvas, &mut history, PointerEvent::Down(at(0, 0)));
    assert_eq!(status, Status::Active);
    assert_eq!(session, Session::Line { start: Some(at(0, 0)) });
    let status = session.handle(&brush, &mut canvas, &mut history, PointerEvent::Drag(at(3, 3)));
    assert_eq!(status, Status::Active);
    let status = session.handle(&brush, &mut canvas, &mut history, PointerEvent::Move(at(3, 3)));
    assert_eq!(status, Status::Active);
    let status = session.handle(&brush, &mut canvas, &mut history, PointerEvent::Up);
    assert_eq!(status, Status::Active);
    assert_eq!(session, Session::Line { start: Some(at(0, 0)) });
    assert_eq!(colored(&canvas, INK), vec![]);
    assert_eq!(session.preview(&brush, &canvas).pixels(), canvas.pixels());

    let status = session.handle(&brush, &mut canvas, &mut history, PointerEvent::Down(at(7, 3)));
    assert_eq!(status, Status::Committed);
    assert_eq!(session, Session::line());
    assert_eq!(
        colored(&canvas, INK),
        vec![(0, 0), (1, 0), (2, 1), (3, 1), (4, 2), (5, 2), (6, 3), (7, 3)]
    );
    assert_eq!(history.cursor(), 1);
    assert_eq!(history.current().pixels(), canvas.pixels());
}

#[test]
fn cancelled_line_session_leaves_no_trace() {
    let (mut canvas, mut history, brush) = fresh(8, 8, 1);
    let mut session = Session::line();
    session.handle(&brush, &mut canvas, &mut history, PointerEvent::Down(at(0, 0)));
    let status = session.handle(&brush, &mut canvas, &mut history, PointerEvent::Cancel);
    assert_eq!(status, Status::Cancelled);
    assert_eq!(session, Session::line());
    assert_eq!(colored(&canvas, INK), vec![]);
    assert_eq!(history.cursor(), 0);

    let status = session.handle(&brush, &mut canvas, &mut history, PointerEvent::Cancel);
    assert_eq!(status, Status::Cancelled);
    assert_eq!(history.cursor(), 0);
}

#[test]
fn paint_session_stamps_then_strokes() {
    let (mut canvas, mut history, brush) = fresh(6, 6, 2);
    let mut session = Session::freehand(false);

    let status = session.handle(&brush, &mut canvas, &mut history, PointerEvent::Drag(at(1, 1)));
    assert_eq!(status, Status::Active);
    assert_eq!(session, Session::Freehand { erase: false, last: Some(at(1, 1)) });
    assert_eq!(colored(&canvas, INK), vec![(0, 0), (1, 0), (0, 1), (1, 1)]);

    let status = session.handle(&brush, &mut canvas, &mut history, PointerEvent::Drag(at(4, 2)));
    assert_eq!(status, Status::Active);
    assert_eq!(session, Session::Freehand { erase: false, last: Some(at(4, 2)) });
    assert_eq!(
        colored(&canvas, INK),
        vec![
            (0, 0),
            (1, 0),
            (2, 0),
            (0, 1),
            (1, 1),
            (2, 1),
            (3, 1),
            (4, 1),
            (2, 2),
            (3, 2),
            (4, 2)
        ]
    );
    assert_eq!(history.cursor(), 0);
}

#[test]
fn paint_session_commits_once_when_it_ends() {
    let (mut canvas, mut history, brush) = fresh(8, 8, 1);
    let mut session = Session::freehand(false);
    session.handle(&brush, &mut canvas, &mut history, PointerEvent::Drag(at(0, 0)));
    session.handle(&brush, &mut canvas, &mut history, PointerEvent::Drag(at(2, 0)));
    let status = session.handle(&brush, &mut canvas, &mut history, PointerEvent::Up);
    assert_eq!(status, Status::Active);
    assert_eq!(session, Session::freehand(false));
    session.handle(&brush, &mut canvas, &mut history, PointerEvent::Drag(at(5, 5)));
    session.handle(&brush, &mut canvas, &mut history, PointerEvent::Drag(at(5, 7)));
    session.handle(&brush, &mut canvas, &mut history, PointerEvent::Up);
    assert_eq!(history.cursor(), 0);
    assert_eq!(
        colored(&canvas, INK),
        vec![(0, 0), (1, 0), (2, 0), (5, 5), (5, 6), (5, 7)]
    );

    let status = session.handle(&brush, &mut canvas, &mut history, PointerEvent::Cancel);
    assert_eq!(status, Status::Committed);
    assert_eq!(session, Session::freehand(false));
    assert_eq!(history.cursor(), 1);
    assert!(!history.can_redo());
    assert_eq!(history.current().pixels(), canvas.pixels());
    assert_eq!(
        colored(&history.undo().unwrap(), INK),
        vec![]
    );
}

#[test]
fn paint_session_without_strokes_still_commits() {
    let (mut canvas, mut history, brush) = fresh(4, 4, 1);
    let mut session = Session::freehand(false);
    let status = session.handle(&brush, &mut canvas, &mut history, PointerEvent::Cancel);
    assert_eq!(status, Status::Committed);
    assert_eq!(history.cursor(), 1);
    assert_eq!(colored(&canvas, WHITE).len(), 16);
}

#[test]
fn paint_session_ignores_presses_and_motion() {
    let (mut canvas, mut history, brush) = fresh(4, 4, 1);
    let mut session = Session::freehand(false);
    let status = session.handle(&brush, &mut canvas, &mut history, PointerEvent::Down(at(1, 1)));
    assert_eq!(status, Status::Active);
    let status = session.handle(&brush, &mut canvas, &mut history, PointerEvent::Move(at(2, 2)));
    assert_eq!(status, Status::Active);
    assert_eq!(session, Session::freehand(false));
    assert_eq!(colored(&canvas, INK), vec![]);
    assert_eq!(history.cursor(), 0);
}

#[test]
fn erase_session_paints_white() {
    let (mut canvas, mut history, brush) = fresh(5, 5, 3);
    for y in 0..5 {
        for x in 0..5 {
            canvas.set_pixel(x, y, INK);
        }
    }
    let mut session = Session::freehand(true);
    session.handle(&brush, &mut canvas, &mut history, PointerEvent::Drag(at(2, 2)));
    assert_eq!(
        colored(&canvas, WHITE),
        vec![(1, 1), (2, 1), (3, 1), (1, 2), (2, 2), (3, 2), (1, 3), (2, 3), (3, 3)]
    );
    assert_eq!(colored(&canvas, INK).len(), 16);
    let status = session.handle(&brush, &mut canvas, &mut history, PointerEvent::Cancel);
    assert_eq!(status, Status::Committed);
    assert_eq!(history.cursor(), 1);
}

#[test]
fn freehand_samples_off_the_canvas_are_clipped_pixel_by_pixel() {
    let (mut canvas, mut history, brush) = fresh(5, 5, 3);
    let mut session = Session::freehand(false);
    session.handle(&brush, &mut canvas, &mut history, PointerEvent::Drag(at(-1, 2)));
    assert_eq!(colored(&canvas, INK), vec![(0, 1), (0, 2), (0, 3)]);

    let (mut canvas, mut history, brush) = fresh(5, 5, 3);
    let mut session = Session::Freehand { erase: false, last: Some(at(-1, 2)) };
    session.handle(&brush, &mut canvas, &mut history, PointerEvent::Drag(at(-1, 2)));
    assert_eq!(colored(&canvas, INK), vec![(0, 1), (0, 2), (0, 3)]);

    let (mut canvas, mut history, brush) = fresh(5, 5, 3);
    let mut session = Session::freehand(false);
    session.handle(&brush, &mut canvas, &mut history, PointerEvent::Drag(at(5, 0)));
    session.handle(&brush, &mut canvas, &mut history, PointerEvent::Drag(at(5, 4)));
    assert_eq!(colored(&canvas, INK), vec![(4, 0), (4, 1), (4, 2), (4, 3), (4, 4)]);
}

#[test]
fn session_steps_agree_with_the_drawing_primitives() {
    let (mut canvas, mut history, brush) = fresh(12, 12, 4);

    let mut expected = Canvas::new(12, 12);
    draw_brush_stroke(&mut expected, 3, 3, 4, INK);
    draw_line_with_brush(&mut expected, 3, 3, 9, 5, 4, INK);
    let mut paint = Session::freehand(false);
    paint.handle(&brush, &mut canvas, &mut history, PointerEvent::Drag(at(3, 3)));
    paint.handle(&brush, &mut canvas, &mut history, PointerEvent::Drag(at(9, 5)));
    paint.handle(&brush, &mut canvas, &mut history, PointerEvent::Cancel);
    assert_eq!(canvas.pixels(), expected.pixels());

    draw_line(&mut expected, 11, 0, 0, 11, INK);
    let mut line = Session::line();
    line.handle(&brush, &mut canvas, &mut history, PointerEvent::Down(at(11, 0)));
    line.handle(&brush, &mut canvas, &mut history, PointerEvent::Down(at(0, 11)));
    assert_eq!(canvas.pixels(), expected.pixels());

    draw_circle(&mut expected, 5, 6, 4, INK);
    let mut circle = Session::shape(Shape::Circle);
    circle.handle(&brush, &mut canvas, &mut history, PointerEvent::Down(at(1, 4)));
    circle.handle(&brush, &mut canvas, &mut history, PointerEvent::Down(at(10, 8)));
    assert_eq!(canvas.pixels(), expected.pixels());

    assert_eq!(history.cursor(), 3);
}

#[test]
fn draw_shape_rounds_the_center_toward_zero() {
    let mut canvas = Canvas::new(6, 6);
    draw_shape(&mut canvas, Shape::Rectangle, at(0, 0), at(3, 5), INK);
    assert_eq!(
        colored(&canvas, INK),
        vec![
            (0, 0),
            (1, 0),
            (2, 0),
            (0, 1),
            (1, 1),
            (2, 1),
            (0, 2),
            (1, 2),
            (2, 2),
            (0, 3),
            (1, 3),
            (2, 3),
            (0, 4),
            (1, 4),
            (2, 4)
        ]
    );

    let mut canvas = Canvas::new(4, 4);
    draw_shape(&mut canvas, Shape::Rectangle, at(-3, -3), at(0, 0), INK);
    assert_eq!(colored(&canvas, INK), vec![(0, 0)]);
}

#[test]
fn draw_shape_with_extreme_points_does_not_fail() {
    let mut canvas = Canvas::new(3, 3);
    draw_shape(&mut canvas, Shape::Rectangle, at(i32::MIN, i32::MIN), at(i32::MAX, i32::MAX), INK);
    assert_eq!(colored(&canvas, INK).len(), 9);
}
