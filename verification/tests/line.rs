use tinyrenderer::canvas::ColorBuffer;
use tinyrenderer::line::{draw_line, draw_wireframe};
use tinyrenderer::mesh::Mesh;
use tinyrenderer::structs::Point2;

const BLACK: [u8; 4] = [0, 0, 0, 255];
const WHITE: [u8; 4] = [255, 255, 255, 255];
const GREEN: [u8; 4] = [0, 200, 0, 128];

fn pt(x: i32, y: i32) -> Point2<i32> {
    Point2 { x, y }
}

fn pixels(start: (i32, i32), end: (i32, i32)) -> Vec<(i32, i32)> {
    let points = tinyrenderer::line::line(&pt(start.0, start.1), &pt(end.0, end.1));
    points.iter().map(|p| (p.x, p.y)).collect()
}

fn painted(buf: &ColorBuffer, color: [u8; 4]) -> Vec<(u32, u32)> {
    let mut found = Vec::new();
    for y in 0..buf.height() {
        for x in 0..buf.width() {
            if buf.get_pixel(x, y) == Some(color) {
                found.push((x, y));
            }
        }
    }
    found
}

#[test]
fn a_shallow_line_has_one_pixel_per_column() {
    assert_eq!(pixels((0, 0), (3, 1)), vec![(0, 0), (1, 0), (2, 1), (3, 1)]);
    assert_eq!(
        pixels((0, 0), (8, 3)),
        vec![(0, 0), (1, 0), (2, 1), (3, 1), (4, 1), (5, 2), (6, 2), (7, 3), (8, 3)]
    );
}

#[test]
fn a_steep_line_has_one_pixel_per_row() {
    assert_eq!(
        pixels((0, 0), (2, 6)),
        vec![(0, 0), (0, 1), (1, 2), (1, 3), (1, 4), (2, 5), (2, 6)]
    );
}

#[test]
fn a_line_is_walked_from_its_lower_end() {
    let forth = pixels((0, 3), (5, 5));
    let back = pixels((5, 5), (0, 3));
    assert_eq!(forth, vec![(0, 3), (1, 3), (2, 4), (3, 4), (4, 5), (5, 5)]);
    assert_eq!(back, forth);
    assert_eq!(pixels((3, 0), (0, 0)), vec![(0, 0), (1, 0), (2, 0), (3, 0)]);
}

#[test]
fn a_falling_line_steps_down() {
    assert_eq!(pixels((0, 4), (4, 0)), vec![(0, 4), (1, 3), (2, 2), (3, 1), (4, 0)]);
    assert_eq!(pixels((0, 0), (4, -4)), vec![(0, 0), (1, -1), (2, -2), (3, -3), (4, -4)]);
}

#[test]
fn a_steep_falling_line_is_walked_from_its_lower_row() {
    assert_eq!(pixels((0, 0), (-1, -4)), vec![(-1, -4), (-1, -3), (-1, -2), (0, -1), (0, 0)]);
}

#[test]
fn a_line_through_negative_coordinates() {
    assert_eq!(pixels((1, 1), (-3, -2)), vec![(-3, -2), (-2, -1), (-1, -1), (0, 0), (1, 1)]);
}

#[test]
fn a_line_between_equal_points_is_one_pixel() {
    assert_eq!(pixels((2, 2), (2, 2)), vec![(2, 2)]);
    assert_eq!(pixels((-7, 9), (-7, 9)), vec![(-7, 9)]);
}

#[test]
fn axis_parallel_and_diagonal_lines() {
    assert_eq!(pixels((0, 0), (0, 4)), vec![(0, 0), (0, 1), (0, 2), (0, 3), (0, 4)]);
    assert_eq!(pixels((1, 7), (4, 7)), vec![(1, 7), (2, 7), (3, 7), (4, 7)]);
    assert_eq!(pixels((0, 0), (4, 4)), vec![(0, 0), (1, 1), (2, 2), (3, 3), (4, 4)]);
}

#[test]
fn a_line_halfway_between_two_rows_keeps_to_the_row_nearer_its_start() {
    // At column 1 the ideal line from (0, 0) to (2, 1) is at row one half.
    assert_eq!(pixels((0, 0), (2, 1)), vec![(0, 0), (1, 0), (2, 1)]);
    assert_eq!(pixels((0, 0), (2, -1)), vec![(0, 0), (1, 0), (2, -1)]);
    assert_eq!(pixels((2, -1), (0, 0)), vec![(0, 0), (1, 0), (2, -1)]);
    assert_eq!(pixels((0, 0), (6, 3)), vec![(0, 0), (1, 0), (2, 1), (3, 1), (4, 2), (5, 2), (6, 3)]);
}

#[test]
fn a_line_has_as_many_pixels_as_its_longer_extent_plus_one() {
    assert_eq!(pixels((3, 4), (103, 54)).len(), 101);
    assert_eq!(pixels((3, 4), (53, 104)).len(), 101);
    assert_eq!(pixels((-1000, 0), (1000, 1)).len(), 2001);
}

#[test]
fn a_line_at_the_edge_of_the_coordinate_range() {
    assert_eq!(
        pixels((i32::MAX - 2, i32::MIN), (i32::MAX, i32::MIN + 1)),
        vec![(i32::MAX - 2, i32::MIN), (i32::MAX - 1, i32::MIN), (i32::MAX, i32::MIN + 1)]
    );
}

#[test]
fn every_pixel_of_a_line_is_within_half_a_pixel_of_the_ideal_line() {
    for (start, end) in [((0, 0), (17, 5)), ((4, 30), (9, -2)), ((-8, -3), (12, 11)), ((6, 6), (-20, 7))] {
        let run = (end.0 - start.0) as i64;
        let rise = (end.1 - start.1) as i64;
        for (x, y) in pixels(start, end) {
            // Twice the distance from the ideal line, along the minor axis,
            // scaled by the length along the major axis.
            let off = 2 * ((x - start.0) as i64 * rise - (y - start.1) as i64 * run);
            assert!(off.abs() <= run.abs().max(rise.abs()), "{:?} {:?} {:?}", start, end, (x, y));
        }
    }
}

#[test]
fn consecutive_pixels_of_a_line_touch() {
    for (start, end) in [((0, 0), (17, 5)), ((4, 30), (9, -2)), ((-8, -3), (12, 11))] {
        let line = pixels(start, end);
        for pair in line.windows(2) {
            let (dx, dy) = (pair[1].0 - pair[0].0, pair[1].1 - pair[0].1);
            assert!(dx.abs() <= 1 && dy.abs() <= 1 && (dx, dy) != (0, 0));
        }
    }
}

#[test]
fn draw_line_paints_the_pixels_of_the_line_and_no_others() {
    let mut buf = ColorBuffer::new(8, 6, BLACK);
    draw_line(&pt(0, 0), &pt(5, 2), WHITE, &mut buf);
    assert_eq!(painted(&buf, WHITE), vec![(0, 0), (1, 0), (2, 1), (3, 1), (4, 2), (5, 2)]);
    assert_eq!(painted(&buf, BLACK).len(), 8 * 6 - 6);
    assert_eq!((buf.width(), buf.height()), (8, 6));
}

#[test]
fn draw_line_reaches_the_corners_of_the_buffer() {
    let mut buf = ColorBuffer::new(4, 4, BLACK);
    draw_line(&pt(3, 3), &pt(0, 0), GREEN, &mut buf);
    assert_eq!(painted(&buf, GREEN), vec![(0, 0), (1, 1), (2, 2), (3, 3)]);
}

#[test]
fn draw_line_paints_over_what_was_there() {
    let mut buf = ColorBuffer::new(5, 5, BLACK);
    draw_line(&pt(0, 2), &pt(4, 2), WHITE, &mut buf);
    draw_line(&pt(2, 0), &pt(2, 4), GREEN, &mut buf);
    assert_eq!(buf.get_pixel(2, 2), Some(GREEN));
    assert_eq!(painted(&buf, WHITE), vec![(0, 2), (1, 2), (3, 2), (4, 2)]);
    assert_eq!(painted(&buf, GREEN), vec![(2, 0), (2, 1), (2, 2), (2, 3), (2, 4)]);
}

#[test]
fn draw_line_of_one_point_paints_one_pixel() {
    let mut buf = ColorBuffer::new(3, 3, BLACK);
    draw_line(&pt(1, 1), &pt(1, 1), WHITE, &mut buf);
    assert_eq!(painted(&buf, WHITE), vec![(1, 1)]);
}

#[test]
fn draw_wireframe_paints_the_three_edges_of_a_triangle() {
    let mesh = Mesh::new(vec![pt(0, 0), pt(4, 0), pt(0, 4)], vec![0, 1, 2]).unwrap();
    let mut buf = ColorBuffer::new(5, 5, BLACK);
    draw_wireframe(&mesh, WHITE, &mut buf);
    let mut expected = vec![
        (0, 0), (1, 0), (2, 0), (3, 0), (4, 0),
        (0, 1), (3, 1),
        (0, 2), (2, 2),
        (0, 3), (1, 3),
        (0, 4),
    ];
    expected.sort_by_key(|&(x, y)| (y, x));
    assert_eq!(painted(&buf, WHITE), expected);
}

#[test]
fn draw_wireframe_paints_every_triangle() {
    let mesh = Mesh::new(
        vec![pt(0, 0), pt(2, 0), pt(0, 2), pt(5, 5), pt(7, 5), pt(7, 7)],
        vec![0, 1, 2, 3, 4, 5],
    )
    .unwrap();
    let mut buf = ColorBuffer::new(8, 8, BLACK);
    draw_wireframe(&mesh, GREEN, &mut buf);
    assert_eq!(
        painted(&buf, GREEN),
        vec![
            (0, 0), (1, 0), (2, 0), (0, 1), (1, 1), (0, 2),
            (5, 5), (6, 5), (7, 5), (6, 6), (7, 6), (7, 7),
        ]
    );
}

#[test]
fn draw_wireframe_ignores_vertices_that_no_triangle_names() {
    let mesh = Mesh::new(vec![pt(1, 1), pt(-50, 900), pt(1, 1)], vec![0, 2, 0]).unwrap();
    let mut buf = ColorBuffer::new(3, 3, BLACK);
    draw_wireframe(&mesh, WHITE, &mut buf);
    assert_eq!(painted(&buf, WHITE), vec![(1, 1)]);
}

#[test]
fn draw_wireframe_of_a_mesh_without_triangles_paints_nothing() {
    let mesh = Mesh::new(vec![pt(1, 1)], vec![]).unwrap();
    let mut buf = ColorBuffer::new(3, 3, BLACK);
    draw_wireframe(&mesh, WHITE, &mut buf);
    assert_eq!(painted(&buf, WHITE), vec![]);
    assert_eq!(painted(&buf, BLACK).len(), 9);
}
