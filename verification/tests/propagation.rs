use cubes::cube::Cube;
use cubes::movement::Movement;
use cubes::propagation::{drag, find, propagate};

fn block(id: usize, x: i32, y: i32, size: u32, is_active: bool) -> Cube {
    let mut cube = Cube::new('X', x, y, size);
    cube.id = id;
    cube.is_active = is_active;
    cube
}

fn places(cubes: &Vec<Cube>) -> Vec<(usize, i32, i32)> {
    cubes.iter().map(|c| (c.id, c.coord.x, c.coord.y)).collect()
}

#[test]
fn find_gives_the_first_block_of_an_identifier() {
    let cubes = vec![block(3, 0, 0, 10, false), block(1, 0, 0, 10, false), block(3, 5, 5, 10, false)];
    assert_eq!(find(&cubes, 3), 0);
    assert_eq!(find(&cubes, 1), 1);
    assert_eq!(find(&cubes, 2), 3);
    assert_eq!(find(&Vec::new(), 2), 0);
}

#[test]
fn a_drag_pushes_a_chain_of_blocks() {
    let mut cubes = vec![
        block(1, 0, 0, 100, true),
        block(2, 150, 0, 100, false),
        block(3, 255, 0, 100, false),
        block(4, 1000, 1000, 100, false),
    ];
    assert!(drag(&mut cubes, 60, 0));
    assert_eq!(places(&cubes), vec![(1, 60, 0), (2, 160, 0), (3, 260, 0), (4, 1000, 1000)]);
    // The cached footprints have moved with the blocks.
    assert_eq!(cubes[1].bounds.min.x, 160);
    assert_eq!(cubes[1].bounds.max.x, 260);
    assert_eq!(cubes[2].bounds.max.x, 360);
    // Activity is untouched.
    assert!(cubes[0].is_active && !cubes[1].is_active && !cubes[2].is_active);
}

#[test]
fn a_drag_without_an_active_block_moves_nothing() {
    let mut cubes = vec![block(1, 0, 0, 100, false), block(2, 50, 50, 100, false)];
    assert!(drag(&mut cubes, 60, 0));
    assert_eq!(places(&cubes), vec![(1, 0, 0), (2, 50, 50)]);
}

#[test]
fn every_active_block_is_dragged() {
    let mut cubes = vec![
        block(1, 0, 0, 10, true),
        block(2, 500, 500, 10, true),
        block(3, 200, 200, 10, false),
    ];
    assert!(drag(&mut cubes, -7, 9));
    assert_eq!(places(&cubes), vec![(1, -7, 9), (2, 493, 509), (3, 200, 200)]);
}

#[test]
fn a_diagonal_drag_pushes_on_a_tie_along_both_axes() {
    let mut cubes = vec![block(1, 0, 0, 100, true), block(2, 110, 110, 100, false)];
    assert!(drag(&mut cubes, 30, 30));
    assert_eq!(places(&cubes), vec![(1, 30, 30), (2, 130, 130)]);
}

#[test]
fn a_block_with_two_pending_movements_is_moved_by_both() {
    // The dragged block ends on two blocks that overlap each other. The
    // second of them, moved first, pushes the other, which is then moved by
    // that push and by the push of the dragged block.
    let mut cubes = vec![
        block(1, 0, 0, 100, true),
        block(2, 100, 0, 60, false),
        block(3, 100, 50, 60, false),
    ];
    assert!(drag(&mut cubes, 10, 0));
    assert_eq!(places(&cubes), vec![(1, 10, 0), (2, 160, 0), (3, 110, 50)]);
}

#[test]
fn a_drag_out_of_the_coordinate_range_moves_nothing() {
    let mut cubes = vec![block(1, i32::MAX - 5, 0, 100, true), block(2, 0, 0, 100, false)];
    assert!(!drag(&mut cubes, 6, 0));
    assert_eq!(places(&cubes), vec![(1, i32::MAX - 5, 0), (2, 0, 0)]);
    assert!(drag(&mut cubes, 5, 0));
    assert_eq!(places(&cubes), vec![(1, i32::MAX, 0), (2, 0, 0)]);
}

#[test]
fn a_push_out_of_the_coordinate_range_undoes_the_whole_pass() {
    let mut cubes = vec![
        block(1, i32::MAX - 200, 0, 100, true),
        block(2, i32::MAX - 50, 0, 100, false),
        block(3, i32::MAX - 5, 0, 100, false),
    ];
    // The first block pushes the second by 10, which pushes the third by 65:
    // that is 60 too far.
    assert!(!drag(&mut cubes, 60, 0));
    assert_eq!(
        places(&cubes),
        vec![(1, i32::MAX - 200, 0), (2, i32::MAX - 50, 0), (3, i32::MAX - 5, 0)]
    );
    assert_eq!(cubes[0].bounds.min.x, (i32::MAX - 200) as i64);
    // A shorter drag that stops short of the second block goes through.
    assert!(drag(&mut cubes, 50, 0));
    assert_eq!(
        places(&cubes),
        vec![(1, i32::MAX - 150, 0), (2, i32::MAX - 50, 0), (3, i32::MAX - 5, 0)]
    );
}

#[test]
fn propagate_takes_the_last_seed_first() {
    let a = block(1, 0, 0, 100, false);
    let b = block(2, 150, 0, 100, false);
    let mut cubes = vec![a, b];
    // The movement of the second block is processed first: when the first
    // block arrives, the second has moved already and is not pushed.
    let seeds = vec![Movement::new_from_delta(a, 60, 0), Movement::new_from_delta(b, 0, 500)];
    assert!(propagate(&mut cubes, seeds));
    assert_eq!(places(&cubes), vec![(1, 60, 0), (2, 150, 500)]);

    // In the other order the second block is pushed before its own movement
    // is applied, and then moved by that too.
    let mut cubes = vec![a, b];
    let seeds = vec![Movement::new_from_delta(b, 0, 500), Movement::new_from_delta(a, 60, 0)];
    assert!(propagate(&mut cubes, seeds));
    assert_eq!(places(&cubes), vec![(1, 60, 0), (2, 160, 500)]);
}

#[test]
fn a_movement_of_a_block_that_is_not_there_is_dropped() {
    let mut cubes = vec![block(1, 0, 0, 100, false)];
    let ghost = block(9, 0, 0, 100, false);
    assert!(propagate(&mut cubes, vec![Movement::new_from_delta(ghost, 5, 5)]));
    assert_eq!(places(&cubes), vec![(1, 0, 0)]);
    assert!(propagate(&mut cubes, Vec::new()));
    assert_eq!(places(&cubes), vec![(1, 0, 0)]);
}

#[test]
fn a_movement_is_applied_to_the_live_block_not_to_its_snapshot() {
    let mut cubes = vec![block(1, 40, 40, 100, false)];
    let snapshot = block(1, 0, 0, 100, false);
    assert!(propagate(&mut cubes, vec![Movement::new_from_delta(snapshot, 5, -5)]));
    assert_eq!(places(&cubes), vec![(1, 45, 35)]);
}

#[test]
fn a_push_is_by_the_overlap_even_where_that_does_not_clear_the_block() {
    // The dragged block ends with its near edge beyond the near edge of the
    // other block: the overlap is counted from the other block's far edge.
    let mut cubes = vec![block(1, 0, 0, 100, true), block(2, 90, 0, 100, false)];
    assert!(drag(&mut cubes, 120, 0));
    assert_eq!(places(&cubes), vec![(1, 120, 0), (2, 160, 0)]);
}

#[test]
fn a_pass_over_many_blocks_ends() {
    let mut cubes: Vec<Cube> = Vec::new();
    for k in 0..40 {
        cubes.push(block(k + 1, (k as i32) * 100, 0, 100, k == 0));
    }
    assert!(drag(&mut cubes, 25, 0));
    // Each block is pushed on by the one before it.
    for k in 0..40 {
        assert_eq!(cubes[k].coord.x, (k as i32) * 100 + 25);
        assert_eq!(cubes[k].coord.y, 0);
    }
}
