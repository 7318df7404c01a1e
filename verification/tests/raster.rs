use raint::canvas::{Canvas, Color, WHITE};
use raint::raster::{
    draw_brush_stroke, draw_circle, draw_line, draw_line_with_brush, draw_rect_preview,
    draw_rectangle,
};

const INK: Color = [10, 20, 30];

/// The cells that carry `color`, row by row.
fn cells_of(canvas: &Canvas, color: Color) -> Vec<(usize, usize)> {
    let mut cells = Vec::new();
    for y in 0..canvas.height() {
        for x in 0..canvas.width() {
            if canvas.get_pixel(x, y) == color {
                cells.push((x, y));
            }
        }
    }
    cells
}

/// That `cells` carry `INK` and all others are white.
fn assert_inked(canvas: &Canvas, cells: Vec<(usize, usize)>) {
    assert_eq!(cells_of(canvas, INK), cells);
    assert_eq!(
        cells_of(canvas, WHITE).len(),
        canvas.width() * canvas.height() - cells.len()
    );
}

#[test]
fn line_from_a_point_to_itself_is_one_pixel() {
    let mut canvas = Canvas::new(10, 10);
    draw_line(&mut canvas, 5, 5, 5, 5, INK);
    assert_inked(&canvas, vec![(5, 5)]);
}

#[test]
fn shallow_line_steps_as_the_error_term_says() {
    let mut canvas = Canvas::new(8, 8);
    draw_line(&mut canvas, 0, 0, 7, 3, INK);
    assert_inked(
        &canvas,
        vec![(0, 0), (1, 0), (2, 1), (3, 1), (4, 2), (5, 2), (6, 3), (7, 3)],
    );
}

#[test]
fn steep_line_upward() {
    let mut canvas = Canvas::new(8, 8);
    draw_line(&mut canvas, 2, 7, 4, 0, INK);
    assert_inked(
        &canvas,
        vec![(4, 0), (4, 1), (3, 2), (3, 3), (3, 4), (3, 5), (2, 6), (2, 7)],
    );
}

#[test]
fn line_to_the_lower_left() {
    let mut canvas = Canvas::new(8, 8);
    draw_line(&mut canvas, 6, 1, 1, 4, INK);
    assert_inked(&canvas, vec![(6, 1), (4, 2), (5, 2), (2, 3), (3, 3), (1, 4)]);
}

#[test]
fn short_lines_in_both_directions() {
    let mut forward = Canvas::new(4, 4);
    draw_line(&mut forward, 0, 0, 3, 1, INK);
    assert_inked(&forward, vec![(0, 0), (1, 0), (2, 1), (3, 1)]);

    let mut backward = Canvas::new(4, 4);
    draw_line(&mut backward, 3, 1, 0, 0, INK);
    assert_inked(&backward, vec![(0, 0), (1, 0), (2, 1), (3, 1)]);

    let mut steep = Canvas::new(4, 4);
    draw_line(&mut steep, 0, 0, 1, 3, INK);
    assert_inked(&steep, vec![(0, 0), (0, 1), (1, 2), (1, 3)]);
}

#[test]
fn horizontal_vertical_and_diagonal_lines() {
    let mut canvas = Canvas::new(5, 5);
    draw_line(&mut canvas, 1, 2, 4, 2, INK);
    assert_inked(&canvas, vec![(1, 2), (2, 2), (3, 2), (4, 2)]);

    let mut canvas = Canvas::new(5, 5);
    draw_line(&mut canvas, 3, 4, 3, 1, INK);
    assert_inked(&canvas, vec![(3, 1), (3, 2), (3, 3), (3, 4)]);

    let mut canvas = Canvas::new(5, 5);
    draw_line(&mut canvas, 0, 4, 4, 0, INK);
    assert_inked(&canvas, vec![(4, 0), (3, 1), (2, 2), (1, 3), (0, 4)]);
}

#[test]
fn line_is_clipped_at_the_canvas() {
    let mut canvas = Canvas::new(8, 8);
    draw_line(&mut canvas, -3, 2, 10, 5, INK);
    assert_inked(
        &canvas,
        vec![(0, 3), (1, 3), (2, 3), (3, 3), (4, 4), (5, 4), (6, 4), (7, 4)],
    );
}

#[test]
fn line_off_the_canvas_draws_nothing() {
    let mut canvas = Canvas::new(4, 4);
    draw_line(&mut canvas, -5, -1, 8, -1, INK);
    draw_line(&mut canvas, 4, 0, 4, 9, INK);
    assert_inked(&canvas, vec![]);
}

#[test]
fn line_with_far_end_points_is_drawn() {
    let mut canvas = Canvas::new(3, 3);
    draw_line(&mut canvas, -40000, 1, 40000, 1, INK);
    assert_inked(&canvas, vec![(0, 1), (1, 1), (2, 1)]);
}

#[test]
fn circle_is_a_filled_disk() {
    let mut canvas = Canvas::new(9, 9);
    draw_circle(&mut canvas, 4, 4, 2, INK);
    assert_inked(
        &canvas,
        vec![
            (4, 2),
            (3, 3),
            (4, 3),
            (5, 3),
            (2, 4),
            (3, 4),
            (4, 4),
            (5, 4),
            (6, 4),
            (3, 5),
            (4, 5),
            (5, 5),
            (4, 6),
        ],
    );
}

#[test]
fn circle_paints_exactly_the_pixels_within_the_radius() {
    let mut canvas = Canvas::new(12, 11);
    let (cx, cy, r) = (5i32, 4i32, 3i32);
    draw_circle(&mut canvas, cx, cy, r, INK);
    let mut painted = 0;
    for y in 0..11i32 {
        for x in 0..12i32 {
            let inside = (x - cx) * (x - cx) + (y - cy) * (y - cy) <= r * r;
            let expected = if inside { INK } else { WHITE };
            assert_eq!(canvas.get_pixel(x as usize, y as usize), expected);
            if inside {
                painted += 1;
            }
        }
    }
    assert_eq!(painted, 29);
}

#[test]
fn circle_is_clipped_at_the_corner() {
    let mut canvas = Canvas::new(5, 5);
    draw_circle(&mut canvas, 0, 0, 2, INK);
    assert_inked(&canvas, vec![(0, 0), (1, 0), (2, 0), (0, 1), (1, 1), (0, 2)]);
}

#[test]
fn circle_of_radius_one_is_a_plus() {
    let mut canvas = Canvas::new(9, 9);
    draw_circle(&mut canvas, 4, 4, 1, INK);
    assert_inked(&canvas, vec![(4, 3), (3, 4), (4, 4), (5, 4), (4, 5)]);
}

#[test]
fn circle_of_radius_zero_is_its_center() {
    let mut canvas = Canvas::new(5, 5);
    draw_circle(&mut canvas, 2, 3, 0, INK);
    assert_inked(&canvas, vec![(2, 3)]);
}

#[test]
fn circle_of_negative_radius_draws_nothing() {
    let mut canvas = Canvas::new(5, 5);
    draw_circle(&mut canvas, 2, 2, -1, INK);
    draw_circle(&mut canvas, 2, 2, -3, INK);
    assert_inked(&canvas, vec![]);
}

#[test]
fn circle_keeps_pixels_outside_it() {
    let mut canvas = Canvas::new(9, 9);
    canvas.set_pixel(0, 0, [1, 1, 1]);
    canvas.set_pixel(4, 4, [1, 1, 1]);
    draw_circle(&mut canvas, 4, 4, 2, INK);
    assert_eq!(canvas.get_pixel(0, 0), [1, 1, 1]);
    assert_eq!(canvas.get_pixel(4, 4), INK);
}

#[test]
fn rectangle_of_half_size_three_is_seven_by_seven() {
    let mut canvas = Canvas::new(20, 20);
    draw_rectangle(&mut canvas, 10, 10, 3, INK);
    for y in 0..20 {
        for x in 0..20 {
            let inside = (7..=13).contains(&x) && (7..=13).contains(&y);
            let expected = if inside { INK } else { WHITE };
            assert_eq!(canvas.get_pixel(x, y), expected);
        }
    }
    assert_eq!(cells_of(&canvas, INK).len(), 49);
}

#[test]
fn rectangle_is_clipped_at_the_top_left() {
    let mut canvas = Canvas::new(8, 8);
    draw_rectangle(&mut canvas, 1, 1, 3, INK);
    let mut expected = Vec::new();
    for y in 0..=4 {
        for x in 0..=4 {
            expected.push((x, y));
        }
    }
    assert_inked(&canvas, expected);
}

#[test]
fn rectangle_is_clipped_at_the_bottom_right() {
    let mut canvas = Canvas::new(8, 8);
    draw_rectangle(&mut canvas, 6, 6, 3, INK);
    let mut expected = Vec::new();
    for y in 3..=7 {
        for x in 3..=7 {
            expected.push((x, y));
        }
    }
    assert_inked(&canvas, expected);
}

#[test]
fn rectangle_off_the_canvas_draws_nothing() {
    let mut canvas = Canvas::new(8, 8);
    draw_rectangle(&mut canvas, -10, 4, 3, INK);
    draw_rectangle(&mut canvas, 4, -10, 3, INK);
    draw_rectangle(&mut canvas, 30, 4, 3, INK);
    draw_rectangle(&mut canvas, 4, 30, 3, INK);
    draw_rectangle(&mut canvas, -4, -4, 3, INK);
    assert_inked(&canvas, vec![]);
}

#[test]
fn rectangle_touching_the_edge_from_outside() {
    let mut canvas = Canvas::new(8, 8);
    draw_rectangle(&mut canvas, -3, 2, 3, INK);
    assert_inked(
        &canvas,
        vec![(0, 0), (0, 1), (0, 2), (0, 3), (0, 4), (0, 5)],
    );
}

#[test]
fn rectangle_of_half_size_zero_is_its_center() {
    let mut canvas = Canvas::new(5, 5);
    draw_rectangle(&mut canvas, 2, 3, 0, INK);
    assert_inked(&canvas, vec![(2, 3)]);
}

#[test]
fn rectangle_of_negative_half_size_draws_nothing() {
    let mut canvas = Canvas::new(5, 5);
    draw_rectangle(&mut canvas, 2, 2, -1, INK);
    draw_rect_preview(&mut canvas, 2, 2, 2, -1, INK);
    draw_rect_preview(&mut canvas, 2, 2, -1, 2, INK);
    assert_inked(&canvas, vec![]);
}

#[test]
fn rectangle_with_extreme_arguments_fills_the_canvas() {
    let mut canvas = Canvas::new(3, 2);
    draw_rectangle(&mut canvas, i32::MIN, i32::MIN, i32::MAX, INK);
    assert_inked(&canvas, vec![]);
    draw_rectangle(&mut canvas, 0, 0, i32::MAX, INK);
    assert_inked(&canvas, vec![(0, 0), (1, 0), (2, 0), (0, 1), (1, 1), (2, 1)]);
}

#[test]
fn rect_preview_takes_two_half_extents() {
    let mut canvas = Canvas::new(8, 8);
    draw_rect_preview(&mut canvas, 4, 3, 2, 1, INK);
    assert_inked(
        &canvas,
        vec![
            (2, 2),
            (3, 2),
            (4, 2),
            (5, 2),
            (6, 2),
            (2, 3),
            (3, 3),
            (4, 3),
            (5, 3),
            (6, 3),
            (2, 4),
            (3, 4),
            (4, 4),
            (5, 4),
            (6, 4),
        ],
    );
}

#[test]
fn stamp_of_thickness_one_is_one_pixel() {
    let mut canvas = Canvas::new(6, 6);
    draw_brush_stroke(&mut canvas, 3, 2, 1, INK);
    assert_inked(&canvas, vec![(3, 2)]);
}

#[test]
fn stamp_of_even_thickness_leans_up_and_left() {
    let mut canvas = Canvas::new(8, 8);
    draw_brush_stroke(&mut canvas, 3, 3, 2, INK);
    assert_inked(&canvas, vec![(2, 2), (3, 2), (2, 3), (3, 3)]);

    let mut canvas = Canvas::new(8, 8);
    draw_brush_stroke(&mut canvas, 3, 3, 4, INK);
    let mut expected = Vec::new();
    for y in 1..=4 {
        for x in 1..=4 {
            expected.push((x, y));
        }
    }
    assert_inked(&canvas, expected);
}

#[test]
fn stamp_of_odd_thickness_is_centered() {
    let mut canvas = Canvas::new(8, 8);
    draw_brush_stroke(&mut canvas, 3, 3, 3, INK);
    let mut expected = Vec::new();
    for y in 2..=4 {
        for x in 2..=4 {
            expected.push((x, y));
        }
    }
    assert_inked(&canvas, expected);
}

#[test]
fn stamp_is_clipped_pixel_by_pixel() {
    let mut canvas = Canvas::new(8, 8);
    draw_brush_stroke(&mut canvas, 0, 0, 3, INK);
    assert_inked(&canvas, vec![(0, 0), (1, 0), (0, 1), (1, 1)]);

    let mut canvas = Canvas::new(5, 5);
    draw_brush_stroke(&mut canvas, -1, 2, 3, INK);
    assert_inked(&canvas, vec![(0, 1), (0, 2), (0, 3)]);
}

#[test]
fn stamp_of_thickness_zero_draws_nothing() {
    let mut canvas = Canvas::new(5, 5);
    draw_brush_stroke(&mut canvas, 2, 2, 0, INK);
    assert_inked(&canvas, vec![]);
}

#[test]
fn stamp_of_thickness_ten() {
    let mut canvas = Canvas::new(20, 20);
    draw_brush_stroke(&mut canvas, 10, 10, 10, INK);
    let mut expected = Vec::new();
    for y in 5..=14 {
        for x in 5..=14 {
            expected.push((x, y));
        }
    }
    assert_inked(&canvas, expected);
}

#[test]
fn brush_line_stamps_every_point_of_the_line() {
    let mut canvas = Canvas::new(6, 6);
    draw_line_with_brush(&mut canvas, 1, 1, 4, 2, 2, INK);
    assert_inked(
        &canvas,
        vec![
            (0, 0),
            (1, 0),
            (2, 0),
            (0, 1),
            (1, 1),
            (2, 1),
            (3, 1),
            (4, 1),
            (2, 2),
            (3, 2),
            (4, 2),
        ],
    );
}

#[test]
fn brush_line_of_thickness_one_is_the_line() {
    let mut thick = Canvas::new(8, 8);
    draw_line_with_brush(&mut thick, 0, 0, 7, 3, 1, INK);
    let mut thin = Canvas::new(8, 8);
    draw_line(&mut thin, 0, 0, 7, 3, INK);
    assert_eq!(thick.pixels(), thin.pixels());
    assert_eq!(cells_of(&thick, INK).len(), 8);
}

#[test]
fn brush_line_leaves_no_gaps() {
    let mut canvas = Canvas::new(6, 6);
    draw_line_with_brush(&mut canvas, 1, 1, 3, 1, 2, INK);
    assert_inked(
        &canvas,
        vec![(0, 0), (1, 0), (2, 0), (3, 0), (0, 1), (1, 1), (2, 1), (3, 1)],
    );
}

#[test]
fn brush_line_stamps_at_points_off_the_canvas_too() {
    let mut canvas = Canvas::new(5, 5);
    draw_line_with_brush(&mut canvas, -1, 2, -1, 2, 3, [0, 0, 0]);
    assert_eq!(cells_of(&canvas, [0, 0, 0]), vec![(0, 1), (0, 2), (0, 3)]);
    assert_eq!(cells_of(&canvas, WHITE).len(), 22);

    let mut canvas = Canvas::new(5, 5);
    draw_line_with_brush(&mut canvas, -2, 1, 1, 1, 3, INK);
    assert_inked(
        &canvas,
        vec![(0, 0), (1, 0), (2, 0), (0, 1), (1, 1), (2, 1), (0, 2), (1, 2), (2, 2)],
    );

    let mut canvas = Canvas::new(5, 5);
    draw_line_with_brush(&mut canvas, 0, -1, 4, -1, 2, INK);
    assert_inked(&canvas, vec![]);
    draw_line_with_brush(&mut canvas, 0, -1, 4, -1, 3, INK);
    assert_inked(&canvas, vec![(0, 0), (1, 0), (2, 0), (3, 0), (4, 0)]);
    draw_line_with_brush(&mut canvas, 5, 0, 5, 4, 4, INK);
    assert_eq!(cells_of(&canvas, INK).len(), 5 + 2 * 4);
    assert_eq!(canvas.get_pixel(3, 4), INK);
    assert_eq!(canvas.get_pixel(4, 4), INK);
    assert_eq!(canvas.get_pixel(2, 4), WHITE);
}

#[test]
fn brush_line_from_a_point_to_itself_is_a_stamp() {
    for (x, y) in [(-1, 2), (2, 2), (0, 0), (5, 5), (4, -1), (-3, -3), (9, 2)] {
        for thickness in 0..6 {
            let mut stroke = Canvas::new(5, 5);
            draw_line_with_brush(&mut stroke, x, y, x, y, thickness, INK);
            let mut stamp = Canvas::new(5, 5);
            draw_brush_stroke(&mut stamp, x, y, thickness, INK);
            assert_eq!(stroke.pixels(), stamp.pixels(), "{x},{y} thickness {thickness}");
        }
    }
}

#[test]
fn drawing_on_an_empty_canvas_does_nothing() {
    let mut canvas = Canvas::new(0, 0);
    draw_line(&mut canvas, 0, 0, 3, 3, INK);
    draw_circle(&mut canvas, 0, 0, 2, INK);
    draw_rectangle(&mut canvas, 0, 0, 2, INK);
    draw_brush_stroke(&mut canvas, 0, 0, 3, INK);
    draw_line_with_brush(&mut canvas, 0, 0, 2, 2, 2, INK);
    assert_eq!(canvas.pixels().len(), 0);
}

#[test]
fn line_cells_follow_the_rounding_rule() {
    for (x0, y0, x1, y1) in [
        (0, 0, 19, 7),
        (19, 7, 0, 0),
        (3, 18, 11, 1),
        (11, 1, 3, 18),
        (0, 19, 19, 0),
        (2, 2, 2, 17),
        (17, 5, 1, 5),
        (0, 0, 2, 1),
        (0, 0, 1, 2),
        (6, 6, 6, 6),
    ] {
        let mut canvas = Canvas::new(20, 20);
        draw_line(&mut canvas, x0, y0, x1, y1, INK);

        let (dx, dy) = ((x1 - x0).abs(), (y1 - y0).abs());
        let (sx, sy) = (if x0 < x1 { 1 } else { -1 }, if y0 < y1 { 1 } else { -1 });
        let mut expected = Canvas::new(20, 20);
        if dx >= dy {
            for i in 0..=dx {
                let minor = if dx == 0 { 0 } else { (2 * i * dy + dx - 1) / (2 * dx) };
                expected.set_pixel((x0 + sx * i) as usize, (y0 + sy * minor) as usize, INK);
            }
        } else {
            for i in 0..=dy {
                let minor = (2 * i * dx + dy - 1) / (2 * dy);
                expected.set_pixel((x0 + sx * minor) as usize, (y0 + sy * i) as usize, INK);
            }
        }
        assert_eq!(canvas.pixels(), expected.pixels());
        assert_eq!(cells_of(&canvas, INK).len() as i32, dx.max(dy) + 1);
    }
}
