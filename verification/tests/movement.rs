use cubes::cube::Cube;
use cubes::direction::Direction;
use cubes::geometry::Point;
use cubes::movement::Movement;

#[test]
fn test_cube_movement_impact() {
    // Basic movement example going down and to the right
    let start = Cube::new('A', 0, 0, 100);
    let end = Cube::new('A', 60, 60, 100);
    let movement = Movement::new(start, end);
    assert_eq!(movement.direction, Direction::DownRight);

    // Moving y
    let subject = Cube::new('B', 20, 120, 100);
    let impact = movement.impact(subject).unwrap();
    assert_eq!(impact.dx, 0);
    assert_eq!(impact.dy, 40);

    // Moving x
    let subject = Cube::new('B', 120, 20, 100);
    let impact = movement.impact(subject).unwrap();
    assert_eq!(impact.dx, 40);
    assert_eq!(impact.dy, 0);

    // Moving y when that's the largest overlap, because of a huge y delta
    let start = Cube::new('A', 0, 0, 100);
    let end = Cube::new('A', 10, 110, 100);
    let movement = Movement::new(start, end);
    let subject = Cube::new('B', 90, 120, 100);
    let impact = movement.impact(subject).unwrap();
    assert_eq!(impact.dx, 0);
    assert_eq!(impact.dy, 90);

    // Moving x when that's the largest overlap, because of a huge x delta
    let start = Cube::new('A', 0, 0, 100);
    let end = Cube::new('A', 140, 20, 100);
    let movement = Movement::new(start, end);
    let subject = Cube::new('B', 110, 10, 100);
    let impact = movement.impact(subject).unwrap();
    assert_eq!(impact.dx, 70);
    assert_eq!(impact.dy, 0);

    // Moving x and y when the movement and overlap are truly equal
    let start = Cube::new('A', 0, 0, 100);
    let end = Cube::new('A', 30, 30, 100);
    let movement = Movement::new(start, end);
    let subject = Cube::new('B', 110, 110, 100);
    let impact = movement.impact(subject).unwrap();
    assert_eq!(impact.dx, 20);
    assert_eq!(impact.dy, 20);

    // In reverse
    let start = Cube::new('A', 160, 160, 100);
    let end = Cube::new('A', 130, 140, 100);
    let movement = Movement::new(start, end);
    assert_eq!(movement.direction, Direction::UpLeft);
    assert_eq!(movement.dx, -30);
    assert_eq!(movement.dy, -20);
    let subject = Cube::new('B', 50, 50, 100);
    let impact = movement.impact(subject).unwrap();
    assert_eq!(impact.dx, -20);
    assert_eq!(impact.dy, -10);
}

#[test]
fn direction_table_covers_all_nine_sign_pairs() {
    assert_eq!(Direction::from_deltas(0, -3), Direction::Up);
    assert_eq!(Direction::from_deltas(2, -3), Direction::UpRight);
    assert_eq!(Direction::from_deltas(2, 0), Direction::Right);
    assert_eq!(Direction::from_deltas(2, 5), Direction::DownRight);
    assert_eq!(Direction::from_deltas(0, 5), Direction::Down);
    assert_eq!(Direction::from_deltas(-7, 5), Direction::DownLeft);
    assert_eq!(Direction::from_deltas(-7, 0), Direction::Left);
    assert_eq!(Direction::from_deltas(-7, -1), Direction::UpLeft);
    assert_eq!(Direction::from_deltas(0, 0), Direction::Still);
    assert_eq!(Direction::from_deltas(i64::MAX, i64::MIN), Direction::UpRight);
}

#[test]
fn movement_directions_down_left() {
    let start = Cube::new('A', 0, 0, 100);
    let end = Cube::new('A', -50, 50, 100);
    let movement = Movement::new(start, end);
    assert_eq!(movement.direction, Direction::DownLeft);
    assert_eq!(movement.dx, -50);
    assert_eq!(movement.dy, 50);
}

#[test]
fn movement_from_delta_keeps_the_block_and_moves_it() {
    let mut cube = Cube::new('Q', 7, -3, 40);
    cube.id = 9;
    let movement = Movement::new_from_delta(cube, -10, 25);
    assert_eq!(movement.start.coord.x, 7);
    assert_eq!(movement.start.coord.y, -3);
    assert_eq!(movement.end.coord.x, -3);
    assert_eq!(movement.end.coord.y, 22);
    assert_eq!(movement.end.id, 9);
    assert_eq!(movement.end.size, 40);
    assert_eq!(movement.end.bounds.max.x, 37);
    assert_eq!(movement.end.bounds.max.y, 62);
    assert_eq!(movement.dx, -10);
    assert_eq!(movement.dy, 25);
    assert_eq!(movement.direction, Direction::DownLeft);
}

#[test]
fn impact_is_none_without_overlap_on_both_axes() {
    let movement = Movement::new(Cube::new('A', 0, 0, 100), Cube::new('A', 60, 60, 100));
    // Overlap along x only.
    assert!(movement.impact(Cube::new('B', 100, 500, 100)).is_none());
    // Touching edges do not overlap.
    assert!(movement.impact(Cube::new('B', 160, 60, 100)).is_none());
    // Far away.
    assert!(movement.impact(Cube::new('B', 1000, 1000, 100)).is_none());
    assert_eq!(movement.push(&Cube::new('B', 1000, 1000, 100)), None);
}

#[test]
fn straight_movements_push_along_their_axis() {
    let subject = Cube::new('B', 100, 100, 50);
    let left = Movement::new(Cube::new('A', 200, 100, 50), Cube::new('A', 140, 100, 50));
    assert_eq!(left.direction, Direction::Left);
    assert_eq!(left.push(&subject), Some((-10, 0)));
    let right = Movement::new(Cube::new('A', 0, 100, 50), Cube::new('A', 70, 100, 50));
    assert_eq!(right.push(&subject), Some((20, 0)));
    let up = Movement::new(Cube::new('A', 100, 200, 50), Cube::new('A', 100, 130, 50));
    assert_eq!(up.push(&subject), Some((0, -20)));
    let down = Movement::new(Cube::new('A', 100, 0, 50), Cube::new('A', 100, 60, 50));
    assert_eq!(down.push(&subject), Some((0, 10)));
}

#[test]
fn diagonal_movements_push_with_their_signs() {
    // Up and to the right, centres further apart along y: push up.
    let m = Movement::new(Cube::new('A', 0, 200, 100), Cube::new('A', 30, 130, 100));
    assert_eq!(m.direction, Direction::UpRight);
    assert_eq!(m.push(&Cube::new('B', 40, 50, 100)), Some((0, -20)));
    // Down and to the left, centres further apart along x: push left.
    let m = Movement::new(Cube::new('A', 200, 0, 100), Cube::new('A', 130, 30, 100));
    assert_eq!(m.direction, Direction::DownLeft);
    assert_eq!(m.push(&Cube::new('B', 50, 40, 100)), Some((-20, 0)));
    // Down and to the left, tie: both.
    let m = Movement::new(Cube::new('A', 200, 0, 100), Cube::new('A', 170, 30, 100));
    assert_eq!(m.push(&Cube::new('B', 90, 110, 100)), Some((-20, 20)));
}

#[test]
fn a_movement_that_goes_nowhere_pushes_by_nothing() {
    let cube = Cube::new('A', 0, 0, 100);
    let m = Movement::new(cube, cube);
    assert_eq!(m.direction, Direction::Still);
    let caused = m.impact(Cube::new('B', 50, 50, 100)).unwrap();
    assert_eq!((caused.dx, caused.dy), (0, 0));
    assert_eq!(caused.direction, Direction::Still);
    assert!(m.sweep().is_empty());
}

#[test]
fn sweep_takes_the_leading_corners() {
    let right = Movement::new(Cube::new('A', 0, 0, 10), Cube::new('A', 100, 0, 10));
    assert_eq!(
        right.sweep(),
        vec![
            Point { x: 10, y: 0 },
            Point { x: 10, y: 10 },
            Point { x: 100, y: 10 },
            Point { x: 100, y: 0 }
        ]
    );
    let down_right = Movement::new(Cube::new('A', 0, 0, 10), Cube::new('A', 30, 40, 10));
    assert_eq!(
        down_right.sweep(),
        vec![
            Point { x: 10, y: 0 },
            Point { x: 0, y: 10 },
            Point { x: 30, y: 50 },
            Point { x: 40, y: 40 }
        ]
    );
    let up_right = Movement::new(Cube::new('A', 0, 0, 10), Cube::new('A', 30, -40, 10));
    assert_eq!(
        up_right.sweep(),
        vec![
            Point { x: 0, y: 0 },
            Point { x: 10, y: 10 },
            Point { x: 40, y: -30 },
            Point { x: 30, y: -40 }
        ]
    );
    let up = Movement::new(Cube::new('A', 0, 0, 10), Cube::new('A', 0, -40, 10));
    assert_eq!(
        up.sweep(),
        vec![
            Point { x: 0, y: 0 },
            Point { x: 10, y: 0 },
            Point { x: 10, y: -30 },
            Point { x: 0, y: -30 }
        ]
    );
    let down = Movement::new(Cube::new('A', 0, 0, 10), Cube::new('A', 0, 40, 10));
    assert_eq!(
        down.sweep(),
        vec![
            Point { x: 0, y: 10 },
            Point { x: 10, y: 10 },
            Point { x: 10, y: 40 },
            Point { x: 0, y: 40 }
        ]
    );
    let left = Movement::new(Cube::new('A', 0, 0, 10), Cube::new('A', -40, 0, 10));
    assert_eq!(
        left.sweep(),
        vec![
            Point { x: 0, y: 0 },
            Point { x: 0, y: 10 },
            Point { x: -30, y: 10 },
            Point { x: -30, y: 0 }
        ]
    );
}

#[test]
fn passing_over_a_block_is_seen_and_pushes_nothing() {
    let m = Movement::new(Cube::new('A', 0, 0, 10), Cube::new('A', 100, 0, 10));
    let on_the_way = Cube::new('B', 50, 0, 10);
    assert!(m.impact(on_the_way).is_none());
    assert!(m.sweeps_over(&on_the_way));
    let off_the_way = Cube::new('C', 50, 500, 10);
    assert!(m.impact(off_the_way).is_none());
    assert!(!m.sweeps_over(&off_the_way));
    // A block that the movement ends on is pushed, not passed over.
    let at_the_end = Cube::new('D', 105, 0, 10);
    assert!(m.impact(at_the_end).is_some());
    assert!(!m.sweeps_over(&at_the_end));
}

#[test]
fn a_movement_that_was_written_to_by_hand_is_found_out() {
    let m = Movement::new(Cube::new('A', 0, 0, 100), Cube::new('A', 60, -60, 100));
    assert!(m.is_wf());
    let mut broken = m;
    broken.dx = 61;
    assert!(!broken.is_wf());
    let mut broken = m;
    broken.direction = Direction::Up;
    assert!(!broken.is_wf());
    let mut broken = m;
    broken.end.size = 99;
    assert!(!broken.is_wf());
    let mut broken = m;
    broken.start.bounds.max.x = 0;
    assert!(!broken.is_wf());
}
