use cubes::cube::{Corners, Cube};
use cubes::geometry::{Bounds, Coord, Point};
use cubes::grid::Grid;

#[test]
fn test_cube_overlap() {
    let a = Cube::new('A', 0, 0, 100);
    let b = Cube::new('B', 5, 7, 100);
    assert_eq!(a.overlap(&b), (95, 93));

    let a = Cube::new('A', 100, 0, 100);
    let b = Cube::new('B', 5, 5, 100);
    assert_eq!(a.overlap(&b), (5, 95));

    let a = Cube::new('A', 100, 100, 100);
    let b = Cube::new('B', 5, 5, 100);
    assert_eq!(a.overlap(&b), (5, 5));

    let a = Cube::new('A', 0, 100, 100);
    let b = Cube::new('B', 0, 5, 100);
    assert_eq!(a.overlap(&b), (100, 5));

    let a = Cube::new('A', 200, 200, 100);
    let b = Cube::new('B', 5, 5, 100);
    assert_eq!(a.overlap(&b), (0, 0));
}

#[test]
fn new_cube_has_its_footprint() {
    let c = Cube::new('Z', -5, 325, 100);
    assert_eq!(c.id, 0);
    assert_eq!(c.character, 'Z');
    assert_eq!(c.coord, Coord { x: -5, y: 325 });
    assert_eq!(c.size, 100);
    assert!(!c.is_active);
    assert_eq!(
        c.bounds,
        Bounds { min: Point { x: -5, y: 325 }, max: Point { x: 95, y: 425 } }
    );
}

#[test]
fn footprint_of_the_largest_block_does_not_wrap() {
    let c = Cube::new('M', i32::MAX, i32::MIN, u32::MAX);
    assert_eq!(c.bounds.max.x, 2147483647 + 4294967295);
    assert_eq!(c.bounds.max.y, -2147483648 + 4294967295);
}

#[test]
fn corners_run_clockwise_from_top_left() {
    let c = Cube::new('A', 10, 20, 30);
    assert_eq!(
        c.corners(),
        Corners {
            tl: Point { x: 10, y: 20 },
            tr: Point { x: 40, y: 20 },
            br: Point { x: 40, y: 50 },
            bl: Point { x: 10, y: 50 },
        }
    );
}

#[test]
fn translate_moves_position_and_footprint_together() {
    let mut c = Cube::new('A', 10, 20, 30);
    c.id = 4;
    c.is_active = true;
    c.translate(-15, 7);
    assert_eq!(c.coord, Coord { x: -5, y: 27 });
    assert_eq!(
        c.bounds,
        Bounds { min: Point { x: -5, y: 27 }, max: Point { x: 25, y: 57 } }
    );
    assert_eq!(c.id, 4);
    assert!(c.is_active);
    assert_eq!(c.size, 30);
    let d = c.translated(5, -27);
    assert_eq!(d.coord, Coord { x: 0, y: 0 });
    assert_eq!(c.coord, Coord { x: -5, y: 27 });
}

#[test]
fn can_translate_knows_the_coordinate_range() {
    let c = Cube::new('A', i32::MAX - 5, i32::MIN + 5, 10);
    assert!(c.can_translate(5, -5));
    assert!(!c.can_translate(6, 0));
    assert!(!c.can_translate(0, -6));
    assert!(c.can_translate(-4294967290, 4294967290));
    assert!(!c.can_translate(i64::MAX, 0));
    assert!(!c.can_translate(0, i64::MIN));
}

#[test]
fn overlap_is_symmetric_for_equal_sizes() {
    let positions = [(0, 0), (5, 7), (100, 0), (0, 100), (99, 99), (-50, 30), (200, 200)];
    for &(ax, ay) in positions.iter() {
        for &(bx, by) in positions.iter() {
            let a = Cube::new('A', ax, ay, 100);
            let b = Cube::new('B', bx, by, 100);
            assert_eq!(a.overlap(&b), b.overlap(&a));
        }
    }
}

#[test]
fn overlap_depends_on_the_order_where_sizes_differ_at_one_start() {
    let a = Cube::new('A', 0, 0, 100);
    let b = Cube::new('B', 0, 500, 60);
    assert_eq!(a.overlap(&b), (100, 0));
    assert_eq!(b.overlap(&a), (60, 0));
    // With different starts the order does not matter.
    let c = Cube::new('C', 10, 20, 60);
    assert_eq!(a.overlap(&c), (90, 80));
    assert_eq!(c.overlap(&a), (90, 80));
}

#[test]
fn coincident_edges_do_not_overlap() {
    let a = Cube::new('A', 0, 0, 100);
    let b = Cube::new('B', 100, 100, 100);
    assert_eq!(a.overlap(&b), (0, 0));
    let empty = Cube::new('E', 50, 50, 0);
    assert_eq!(empty.overlap(&a), (50, 50));
    assert_eq!(a.overlap(&empty), (50, 50));
}

fn viewport() -> Grid {
    let mut grid = Grid::default();
    grid.update_dimensions(800, 600, 1);
    grid
}

#[test]
fn outline_is_the_hexagon_around_the_projected_position() {
    let grid = viewport();
    let c = Cube::new('A', 0, 0, 100);
    assert_eq!(
        c.outline(&grid),
        vec![
            Point { x: 3200, y: -800 },
            Point { x: 4000, y: -400 },
            Point { x: 4000, y: 400 },
            Point { x: 3200, y: 800 },
            Point { x: 2400, y: 400 },
            Point { x: 2400, y: -400 },
        ]
    );
}

#[test]
fn hit_test_finds_points_inside_the_outline_only() {
    let grid = viewport();
    let c = Cube::new('A', 0, 0, 100);
    assert!(c.hit_test(&Coord { x: 3200, y: 0 }, &grid));
    assert!(c.hit_test(&Coord { x: 3200, y: 790 }, &grid));
    assert!(c.hit_test(&Coord { x: 3990, y: 0 }, &grid));
    assert!(c.hit_test(&Coord { x: 2410, y: 0 }, &grid));
    assert!(!c.hit_test(&Coord { x: 3200, y: 810 }, &grid));
    assert!(!c.hit_test(&Coord { x: 4010, y: 0 }, &grid));
    assert!(!c.hit_test(&Coord { x: 3900, y: 700 }, &grid));
    assert!(!c.hit_test(&Coord { x: 0, y: 0 }, &grid));
    assert!(!c.hit_test(&Coord { x: i32::MAX, y: i32::MIN }, &grid));
    // The outline itself is not inside.
    assert!(!c.hit_test(&Coord { x: 4000, y: 0 }, &grid));
}

#[test]
fn hit_test_scales_the_pointer_by_the_pixel_ratio() {
    let mut grid = Grid::default();
    grid.update_dimensions(400, 300, 2);
    let c = Cube::new('A', 0, 0, 100);
    // The viewport is 800 by 600 device pixels; the pointer is in CSS pixels.
    assert!(c.hit_test(&Coord { x: 1600, y: 0 }, &grid));
    assert!(c.hit_test(&Coord { x: 1600, y: 390 }, &grid));
    assert!(!c.hit_test(&Coord { x: 1600, y: 410 }, &grid));
    assert!(!c.hit_test(&Coord { x: 3200, y: 0 }, &grid));
}

#[test]
fn a_stale_footprint_is_found_out() {
    let mut c = Cube::new('A', 10, 20, 30);
    assert!(c.is_wf());
    c.coord.x = 11;
    assert!(!c.is_wf());
    c.translate(0, 0);
    assert!(c.is_wf());
    c.size = 31;
    assert!(!c.is_wf());
    let mut grid = Grid::default();
    assert!(grid.is_wf());
    grid.height = -1;
    assert!(!grid.is_wf());
    grid.height = 4294967295 * 255;
    assert!(grid.is_wf());
    grid.width = 4294967295 * 255 + 1;
    assert!(!grid.is_wf());
}
