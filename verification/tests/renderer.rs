use apparatus::color::css;
use apparatus::color::Color;
use apparatus::platform::framebuffer::FrameBuffer;
use apparatus::renderer::bresenham::BresenhamLine;
use apparatus::renderer::software_2d::Renderer;

fn renderer(width: usize, height: usize, pixel_width: usize, pixel_height: usize) -> Renderer {
    let buffer = FrameBuffer::new(width, height);
    let mut renderer = Renderer::new(width, height, pixel_width, pixel_height, buffer);
    renderer.clear(css::black());
    renderer
}

/// The cells that hold `color`, as (column, row) of the store, row by row.
fn cells_with(renderer: &Renderer, width: usize, color: Color) -> Vec<(usize, usize)> {
    let word: u32 = color.into();
    let data = renderer.buffer().data();
    let mut cells = Vec::new();
    for (i, w) in data.iter().enumerate() {
        if *w == word {
            cells.push((i % width, i / width));
        }
    }
    cells
}

fn walk(x0: u32, y0: u32, x1: u32, y1: u32) -> Vec<(u32, u32)> {
    let mut line = BresenhamLine::new(x0, y0, x1, y1);
    let mut points = Vec::new();
    while let Some(p) = line.next() {
        points.push(p);
    }
    points
}

#[test]
fn line_walker_emits_the_diagonal() {
    assert_eq!(walk(0, 0, 4, 4), vec![(0, 0), (1, 1), (2, 2), (3, 3), (4, 4)]);
}

#[test]
fn line_walker_of_one_point_emits_it_once() {
    assert_eq!(walk(3, 7, 3, 7), vec![(3, 7)]);
}

#[test]
fn line_walker_is_spent_after_the_end_point() {
    let mut line = BresenhamLine::new(2, 2, 0, 2);
    assert_eq!(line.next(), Some((2, 2)));
    assert_eq!(line.next(), Some((1, 2)));
    assert_eq!(line.next(), Some((0, 2)));
    assert_eq!(line.next(), None);
    assert_eq!(line.next(), None);
}

#[test]
fn line_walker_covers_shallow_and_steep_lines() {
    assert_eq!(walk(0, 0, 5, 2), vec![(0, 0), (1, 0), (2, 1), (3, 1), (4, 2), (5, 2)]);
    assert_eq!(walk(0, 0, 2, 5), vec![(0, 0), (0, 1), (1, 2), (1, 3), (2, 4), (2, 5)]);
    assert_eq!(walk(5, 2, 0, 0), vec![(5, 2), (4, 2), (3, 1), (2, 1), (1, 0), (0, 0)]);
}

#[test]
fn line_walker_starts_ends_and_leaves_no_gap() {
    let ends = [(0u32, 0u32, 9u32, 3u32), (9, 3, 0, 0), (4, 8, 4, 1), (7, 2, 1, 9), (0, 5, 6, 5)];
    for (x0, y0, x1, y1) in ends {
        let points = walk(x0, y0, x1, y1);
        assert_eq!(points.first(), Some(&(x0, y0)));
        assert_eq!(points.last(), Some(&(x1, y1)));
        for pair in points.windows(2) {
            assert!(pair[0].0.abs_diff(pair[1].0) <= 1);
            assert!(pair[0].1.abs_diff(pair[1].1) <= 1);
            assert_ne!(pair[0], pair[1]);
        }
    }
}

#[test]
fn line_walker_takes_the_largest_coordinates() {
    let mut line = BresenhamLine::new(u32::MAX, u32::MAX, u32::MAX - 1, u32::MAX);
    assert_eq!(line.next(), Some((u32::MAX, u32::MAX)));
    assert_eq!(line.next(), Some((u32::MAX - 1, u32::MAX)));
    assert_eq!(line.next(), None);
}

#[test]
fn clear_fills_every_cell() {
    let mut r = renderer(4, 3, 1, 1);
    r.clear(css::red());
    assert_eq!(r.buffer().data().len(), 12);
    assert!(r.buffer().data().iter().all(|w| *w == 0xFFFF0000));
}

#[test]
fn frame_buffer_starts_zeroed() {
    let buffer = FrameBuffer::new(3, 2);
    assert_eq!(buffer.data(), &vec![0u32; 6]);
}

#[test]
fn draw_counts_rows_from_the_bottom() {
    let mut r = renderer(4, 4, 1, 1);
    r.draw(1, 1, css::white());
    // y = 1 is the row height - 1 of the store.
    assert_eq!(cells_with(&r, 4, css::white()), vec![(1, 3)]);
    r.draw(2, 4, css::white());
    assert_eq!(cells_with(&r, 4, css::white()), vec![(2, 0), (1, 3)]);
}

#[test]
fn draw_drops_what_lies_outside() {
    let mut r = renderer(4, 4, 1, 1);
    r.draw(0, 0, css::white());
    r.draw(-1, 2, css::white());
    r.draw(4, 2, css::white());
    r.draw(2, 5, css::white());
    r.draw(i32::MAX, i32::MAX, css::white());
    r.draw(i32::MIN, i32::MIN, css::white());
    assert_eq!(cells_with(&r, 4, css::white()), vec![]);
}

#[test]
fn draw_blends_with_what_is_there() {
    let mut r = renderer(2, 2, 1, 1);
    r.clear(css::blue());
    r.draw(0, 1, Color::rgba(255, 0, 0, 128));
    // red: 0 * 127 / 255 + 255 * 128 / 255 = 128; blue: 255 * 127 / 255 = 127.
    assert_eq!(r.buffer().data()[2], 0xFF80007F);
    // A second time is not the same as once: the blend starts from the new value.
    r.draw(0, 1, Color::rgba(255, 0, 0, 128));
    assert_eq!(r.buffer().data()[2], 0xFFBF003F);
}

#[test]
fn draw_with_scale_four_sets_a_block_of_four_by_four() {
    let mut r = renderer(16, 16, 4, 4);
    r.draw(1, 1, css::white());
    let mut expected = Vec::new();
    // Columns 4..8; heights 4..8, which are the rows 16 - 7 .. 16 - 4 of the store.
    for row in 9..=12 {
        for column in 4..8 {
            expected.push((column, row));
        }
    }
    assert_eq!(cells_with(&r, 16, css::white()), expected);
    assert_eq!(cells_with(&r, 16, css::black()).len(), 16 * 16 - 16);
}

#[test]
fn draw_line_from_the_origin_loses_the_point_at_height_zero() {
    let mut r = renderer(8, 8, 1, 1);
    r.draw_line(0, 0, 4, 4, css::white());
    // The walk is (0,0), (1,1), (2,2), (3,3), (4,4); the height 0 lies below
    // the last row of the store, the other four points are the rows 7 to 4.
    assert_eq!(cells_with(&r, 8, css::white()), vec![(4, 4), (3, 5), (2, 6), (1, 7)]);
    assert_eq!(cells_with(&r, 8, css::black()).len(), 64 - 4);
}

#[test]
fn draw_line_one_row_up_sets_all_five_pixels() {
    let mut r = renderer(8, 8, 1, 1);
    r.draw_line(0, 1, 4, 5, css::white());
    assert_eq!(cells_with(&r, 8, css::white()), vec![(4, 3), (3, 4), (2, 5), (1, 6), (0, 7)]);
    assert_eq!(cells_with(&r, 8, css::black()).len(), 64 - 5);
}

#[test]
fn draw_line_moves_its_ends_into_the_buffer() {
    let mut r = renderer(4, 4, 1, 1);
    r.draw_line(-5, 2, 9, 2, css::white());
    assert_eq!(cells_with(&r, 4, css::white()), vec![(0, 2), (1, 2), (2, 2), (3, 2)]);
    let mut r = renderer(4, 4, 1, 1);
    r.draw_line(1, -3, 1, 100, css::white());
    // Heights 0 to 3; the height 0 is not in the store.
    assert_eq!(cells_with(&r, 4, css::white()), vec![(1, 1), (1, 2), (1, 3)]);
}

#[test]
fn draw_line_of_no_length_sets_one_pixel() {
    let mut r = renderer(4, 4, 1, 1);
    r.draw_line(2, 2, 2, 2, css::white());
    assert_eq!(cells_with(&r, 4, css::white()), vec![(2, 2)]);
}

#[test]
fn draw_filled_rectangle_includes_both_bounds() {
    let mut r = renderer(5, 5, 1, 1);
    r.draw_filled_rectangle(0, 1, 2, 2, css::white());
    let mut expected = Vec::new();
    for row in 2..=4 {
        for column in 0..=2 {
            expected.push((column, row));
        }
    }
    assert_eq!(cells_with(&r, 5, css::white()), expected);
    assert_eq!(cells_with(&r, 5, css::black()).len(), 25 - 9);
}

#[test]
fn draw_filled_rectangle_from_the_origin_loses_the_row_at_height_zero() {
    let mut r = renderer(3, 3, 1, 1);
    r.draw_filled_rectangle(0, 0, 2, 2, css::white());
    // Logical pixels with x, y in 0..=2; those of height 0 are not in the store.
    assert_eq!(
        cells_with(&r, 3, css::white()),
        vec![(0, 1), (1, 1), (2, 1), (0, 2), (1, 2), (2, 2)]
    );
}

#[test]
fn draw_filled_rectangle_blends_each_pixel_once() {
    let mut r = renderer(6, 6, 2, 2);
    r.clear(css::blue());
    r.draw_filled_rectangle(0, 1, 1, 1, Color::rgba(255, 0, 0, 128));
    let once: u32 = 0xFF80007F;
    let data = r.buffer().data();
    let mut blended = 0;
    for w in data.iter() {
        assert!(*w == once || *w == 0xFF0000FF);
        if *w == once {
            blended += 1;
        }
    }
    // Two by two logical pixels of two by two cells.
    assert_eq!(blended, 16);
}

#[test]
fn draw_filled_rectangle_takes_negative_sizes() {
    let mut a = renderer(6, 6, 1, 1);
    a.draw_filled_rectangle(4, 5, -2, -3, css::white());
    let mut b = renderer(6, 6, 1, 1);
    b.draw_filled_rectangle(2, 2, 2, 3, css::white());
    assert_eq!(a.buffer().data(), b.buffer().data());
}

#[test]
fn draw_filled_rectangle_unscaled_ignores_the_scale() {
    let mut r = renderer(8, 8, 4, 4);
    r.draw_filled_rectangle_unscaled(1, 1, 1, 1, css::white());
    assert_eq!(cells_with(&r, 8, css::white()), vec![(1, 6), (2, 6), (1, 7), (2, 7)]);
}

#[test]
fn draw_wireframe_rectangle_draws_four_sides() {
    let mut r = renderer(6, 6, 1, 1);
    r.draw_wireframe_rectangle(1, 1, 3, 3, css::white());
    let mut expected = Vec::new();
    for row in 2..=5 {
        for column in 1..=4 {
            if row == 2 || row == 5 || column == 1 || column == 4 {
                expected.push((column, row));
            }
        }
    }
    assert_eq!(cells_with(&r, 6, css::white()), expected);
}

#[test]
fn draw_wireframe_triangle_draws_three_sides() {
    let mut r = renderer(6, 6, 1, 1);
    r.draw_wireframe_triangle(1, 1, 4, 1, 1, 4, css::white());
    let mut expected = vec![(1, 2), (1, 3), (2, 3), (1, 4), (3, 4)];
    expected.extend([(1, 5), (2, 5), (3, 5), (4, 5)]);
    assert_eq!(cells_with(&r, 6, css::white()), expected);
}

#[test]
fn draw_filled_triangle_fills_rows_below_the_top_corner() {
    let mut r = renderer(8, 8, 1, 1);
    r.draw_filled_triangle(1, 1, 5, 1, 1, 5, css::white());
    // Heights 1 to 4 (rows 7 to 4); the height of the top corner is left out.
    let expected = vec![
        (1, 4), (2, 4),
        (1, 5), (2, 5), (3, 5),
        (1, 6), (2, 6), (3, 6), (4, 6),
        (1, 7), (2, 7), (3, 7), (4, 7), (5, 7),
    ];
    assert_eq!(cells_with(&r, 8, css::white()), expected);
}

#[test]
fn draw_filled_triangle_does_not_depend_on_the_order_of_corners() {
    let mut a = renderer(12, 12, 1, 1);
    a.draw_filled_triangle(2, 2, 9, 5, 4, 10, css::white());
    let mut b = renderer(12, 12, 1, 1);
    b.draw_filled_triangle(4, 10, 2, 2, 9, 5, css::white());
    let mut c = renderer(12, 12, 1, 1);
    c.draw_filled_triangle(9, 5, 4, 10, 2, 2, css::white());
    assert_eq!(a.buffer().data(), b.buffer().data());
    assert_eq!(a.buffer().data(), c.buffer().data());
    assert!(cells_with(&a, 12, css::white()).len() > 8);
}

#[test]
fn draw_filled_triangle_on_one_row_draws_nothing() {
    let mut r = renderer(8, 8, 1, 1);
    r.draw_filled_triangle(1, 3, 6, 3, 4, 3, css::white());
    assert_eq!(cells_with(&r, 8, css::white()), vec![]);
}

#[test]
fn draw_filled_triangle_with_collinear_corners_ends() {
    let mut r = renderer(8, 8, 1, 1);
    r.draw_filled_triangle(1, 1, 3, 3, 5, 5, css::white());
    // The rows below the top corner, one pixel each on the common line.
    assert_eq!(cells_with(&r, 8, css::white()), vec![(4, 4), (3, 5), (2, 6), (1, 7)]);
    let mut r = renderer(8, 8, 1, 1);
    r.draw_filled_triangle(2, 1, 2, 4, 2, 6, css::white());
    assert_eq!(
        cells_with(&r, 8, css::white()),
        vec![(2, 3), (2, 4), (2, 5), (2, 6), (2, 7)]
    );
    let mut r = renderer(8, 8, 1, 1);
    r.draw_filled_triangle(3, 3, 3, 3, 3, 3, css::white());
    assert_eq!(cells_with(&r, 8, css::white()), vec![]);
}

#[test]
fn draw_filled_triangle_splits_the_long_edge_rounding_down() {
    let mut r = renderer(12, 12, 1, 1);
    r.draw_filled_triangle(8, 2, 1, 5, 2, 10, css::white());
    // The long edge from (8, 2) to (2, 10) passes the height 5 at
    // 8 + 3 * -6 / 8 = 5.75, taken as 5: the row of the middle corner runs
    // from column 1 to column 5.
    let row: Vec<usize> = cells_with(&r, 12, css::white())
        .into_iter()
        .filter(|(_, row)| *row == 12 - 5)
        .map(|(column, _)| column)
        .collect();
    assert_eq!(row, vec![1, 2, 3, 4, 5]);
    // The rows from the lowest corner up to the one below the highest.
    let rows: Vec<usize> = cells_with(&r, 12, css::white())
        .into_iter()
        .map(|(_, row)| row)
        .collect();
    assert_eq!(rows.iter().min(), Some(&(12 - 9)));
    assert_eq!(rows.iter().max(), Some(&(12 - 2)));
}

#[test]
fn draw_filled_triangle_counts_negative_coordinates_as_zero() {
    let mut a = renderer(8, 8, 1, 1);
    a.draw_filled_triangle(-3, 1, 5, 1, 1, 5, css::white());
    assert!(cells_with(&a, 8, css::white()).contains(&(0, 7)));
    assert!(cells_with(&a, 8, css::white()).contains(&(5, 7)));
}

#[test]
fn draw_wireframe_circle_of_radius_three() {
    let mut r = renderer(9, 10, 1, 1);
    r.draw_wireframe_circle(4, 5, 3, css::white());
    // Centre (4, 5) is the cell (4, 5) of the store.
    let expected = vec![
        (3, 2), (4, 2), (5, 2),
        (2, 3), (6, 3),
        (1, 4), (7, 4),
        (1, 5), (7, 5),
        (1, 6), (7, 6),
        (2, 7), (6, 7),
        (3, 8), (4, 8), (5, 8),
    ];
    assert_eq!(cells_with(&r, 9, css::white()), expected);
}

#[test]
fn draw_wireframe_circle_is_the_same_after_a_quarter_turn() {
    for radius in 2..7 {
        let size = 2 * 7 + 1;
        let mut r = renderer(size, size + 1, 1, 1);
        r.draw_wireframe_circle(7, 8, radius, css::white());
        let cells = cells_with(&r, size, css::white());
        assert!(!cells.is_empty());
        for (column, row) in cells.iter() {
            // About the cell (7, 8) of the store.
            let dx = *column as i32 - 7;
            let dy = *row as i32 - 8;
            let turned = ((7 - dy) as usize, (8 + dx) as usize);
            assert!(cells.contains(&turned));
        }
    }
}

#[test]
fn draw_filled_circle_is_the_same_after_a_quarter_turn() {
    for radius in 2..7 {
        let size = 2 * 7 + 1;
        let mut r = renderer(size, size + 1, 1, 1);
        r.draw_filled_circle(7, 8, radius, css::white());
        let cells = cells_with(&r, size, css::white());
        assert!(cells.len() > 4 * radius as usize);
        for (column, row) in cells.iter() {
            let dx = *column as i32 - 7;
            let dy = *row as i32 - 8;
            let turned = ((7 - dy) as usize, (8 + dx) as usize);
            assert!(cells.contains(&turned));
        }
    }
}

#[test]
fn draw_filled_circle_of_radius_two() {
    let mut r = renderer(7, 8, 1, 1);
    r.draw_filled_circle(3, 4, 2, css::white());
    let expected = vec![
        (2, 2), (3, 2), (4, 2),
        (1, 3), (2, 3), (3, 3), (4, 3), (5, 3),
        (1, 4), (2, 4), (3, 4), (4, 4), (5, 4),
        (1, 5), (2, 5), (3, 5), (4, 5), (5, 5),
        (2, 6), (3, 6), (4, 6),
    ];
    assert_eq!(cells_with(&r, 7, css::white()), expected);
}

#[test]
fn circles_of_radius_zero_draw_the_centre() {
    let mut r = renderer(5, 5, 1, 1);
    r.draw_wireframe_circle(2, 2, 0, css::white());
    assert_eq!(cells_with(&r, 5, css::white()), vec![(2, 3)]);
    let mut r = renderer(5, 5, 1, 1);
    r.draw_filled_circle(2, 2, 0, css::white());
    assert_eq!(cells_with(&r, 5, css::white()), vec![(2, 3)]);
}

#[test]
fn circles_of_radius_one() {
    let mut r = renderer(5, 5, 1, 1);
    r.draw_wireframe_circle(2, 2, 1, css::white());
    assert_eq!(cells_with(&r, 5, css::white()), vec![(2, 2), (1, 3), (3, 3), (2, 4)]);
    let mut r = renderer(5, 5, 1, 1);
    r.draw_filled_circle(2, 2, 1, css::white());
    assert_eq!(
        cells_with(&r, 5, css::white()),
        vec![(2, 2), (1, 3), (2, 3), (3, 3), (2, 4)]
    );
}

#[test]
fn circles_of_radius_zero_blend_the_centre_more_than_once() {
    let mut r = renderer(5, 5, 1, 1);
    r.clear(css::blue());
    r.draw_wireframe_circle(2, 2, 0, Color::rgba(255, 0, 0, 128));
    // Eight blends of the one point.
    let mut expected = css::blue();
    for _ in 0..8 {
        expected = Color::linear_blend(Color::rgba(255, 0, 0, 128), expected);
    }
    let word: u32 = expected.into();
    assert_eq!(r.buffer().data()[3 * 5 + 2], word);
}

#[test]
fn circles_of_negative_radius_draw_nothing() {
    let mut r = renderer(5, 5, 1, 1);
    r.draw_wireframe_circle(2, 2, -1, css::white());
    r.draw_filled_circle(2, 2, -3, css::white());
    r.draw_filled_circle(2, 2, i32::MIN, css::white());
    assert_eq!(cells_with(&r, 5, css::white()), vec![]);
}

#[test]
fn draw_wireframe_model_closes_the_polygon() {
    let mut a = renderer(8, 8, 1, 1);
    a.draw_wireframe_model(&vec![(1, 1), (5, 1), (5, 5)], css::white());
    let mut b = renderer(8, 8, 1, 1);
    b.draw_wireframe_triangle(1, 1, 5, 1, 5, 5, css::white());
    assert_eq!(a.buffer().data(), b.buffer().data());
    let mut c = renderer(8, 8, 1, 1);
    c.draw_wireframe_model(&vec![], css::white());
    assert_eq!(cells_with(&c, 8, css::white()), vec![]);
}
