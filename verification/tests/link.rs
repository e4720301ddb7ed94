use cubes::geometry::{Coord, Point};
use cubes::grid::Grid;
use cubes::link::Link;

fn viewport() -> Grid {
    let mut grid = Grid::default();
    grid.update_dimensions(800, 600, 1);
    grid
}

#[test]
fn a_new_link_is_inactive() {
    let link = Link::new(630, 600, "Projects", "./projects", 96);
    assert_eq!(link.coord, Coord { x: 630, y: 600 });
    assert_eq!(link.text, "Projects");
    assert_eq!(link.url, "./projects");
    assert_eq!(link.width, 96);
    assert!(!link.is_active);
}

#[test]
fn the_hit_area_reaches_three_quarters_of_the_width() {
    let link = Link::new(630, 600, "Projects", "./projects", 96);
    assert_eq!(
        link.outline(&viewport()),
        vec![
            Point { x: 3200, y: 4880 },
            Point { x: 3856, y: 4552 },
            Point { x: 4176, y: 4712 },
            Point { x: 3520, y: 5040 },
        ]
    );
    // A width that is no multiple of four is taken exactly.
    let odd = Link::new(0, 0, "x", "y", 1);
    assert_eq!(
        odd.outline(&viewport()),
        vec![
            Point { x: 2960, y: -40 },
            Point { x: 3046, y: -83 },
            Point { x: 3366, y: 77 },
            Point { x: 3280, y: 120 },
        ]
    );
}

#[test]
fn hit_test_finds_points_inside_the_hit_area_only() {
    let grid = viewport();
    let link = Link::new(630, 600, "Projects", "./projects", 96);
    assert!(link.hit_test(&Coord { x: 3688, y: 4796 }, &grid));
    assert!(link.hit_test(&Coord { x: 3210, y: 4880 }, &grid));
    assert!(link.hit_test(&Coord { x: 4160, y: 4712 }, &grid));
    assert!(!link.hit_test(&Coord { x: 3190, y: 4880 }, &grid));
    assert!(!link.hit_test(&Coord { x: 3688, y: 4500 }, &grid));
    assert!(!link.hit_test(&Coord { x: 3688, y: 5100 }, &grid));
    assert!(!link.hit_test(&Coord { x: 0, y: 0 }, &grid));
    // A corner of the hit area is not inside.
    assert!(!link.hit_test(&Coord { x: 3200, y: 4880 }, &grid));
}

#[test]
fn a_link_without_width_still_has_its_lead() {
    let grid = viewport();
    let link = Link::new(0, 0, "", "", 0);
    assert_eq!(
        link.outline(&grid),
        vec![
            Point { x: 2960, y: -40 },
            Point { x: 3040, y: -80 },
            Point { x: 3360, y: 80 },
            Point { x: 3280, y: 120 },
        ]
    );
    assert!(link.hit_test(&Coord { x: 3160, y: 20 }, &grid));
}
