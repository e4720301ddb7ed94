use cubes::cube::Cube;
use cubes::cube_grid::Drawable::{Block, Label, Shadow};
use cubes::cube_grid::{
    has_active, only_active, only_active_link, retarget_cubes, retarget_links, CubeGrid, Interaction,
    WindowDimensions,
};
use cubes::geometry::Coord;
use cubes::grid::Grid;
use cubes::input::{Cursor, MouseEvent, Touch, TouchEvent};
use cubes::link::Link;

fn at(x: i32, y: i32) -> Coord {
    Coord { x, y }
}

fn mouse(is_pressed: bool, x: i32, y: i32) -> MouseEvent {
    MouseEvent { is_pressed, position: at(x, y) }
}

/// Two blocks side by side and one label, in a window of 800 by 600.
fn scene() -> CubeGrid {
    let mut scene = CubeGrid::new();
    scene.insert_cubes(vec![Cube::new('A', 0, 0, 100), Cube::new('B', 150, 0, 100)]);
    scene.insert_link(630, 600, "Projects", "./projects", 96);
    scene.set_window_dimensions(800, 600, 1);
    scene
}

fn places(scene: &CubeGrid) -> Vec<(usize, i32, i32)> {
    scene.cubes.iter().map(|c| (c.id, c.coord.x, c.coord.y)).collect()
}

fn active(scene: &CubeGrid) -> Vec<usize> {
    scene.cubes.iter().filter(|c| c.is_active).map(|c| c.id).collect()
}

#[test]
fn a_new_scene_is_empty() {
    let scene = CubeGrid::new();
    assert!(scene.cubes.is_empty());
    assert!(scene.links.is_empty());
    assert_eq!(scene.next_id, 1);
    assert!(scene.mouse_events.is_empty());
    assert!(scene.touch_events.is_empty());
    assert_eq!(scene.grid.width, 0);
    assert_eq!(
        scene.window_dimensions,
        WindowDimensions { width: 0, height: 0, device_pixel_ratio: 0 }
    );
    assert_eq!(scene.cursor_string(), "default");
}

#[test]
fn blocks_get_increasing_identifiers_from_one() {
    let mut scene = CubeGrid::new();
    let mut lit = Cube::new('B', 5, 5, 10);
    lit.is_active = true;
    lit.id = 77;
    scene.insert_cubes(vec![Cube::new('A', 0, 0, 10), lit]);
    scene.insert_cubes(Vec::new());
    scene.insert_cubes(vec![Cube::new('C', 9, 9, 10)]);
    assert_eq!(places(&scene), vec![(1, 0, 0), (2, 5, 5), (3, 9, 9)]);
    assert_eq!(scene.next_id, 4);
    // A block is stored as it comes but for its identifier.
    assert_eq!(active(&scene), vec![2]);
    assert_eq!(scene.cubes[1].character, 'B');
    assert_eq!(scene.cubes[1].size, 10);
    assert_eq!(scene.cubes[1].bounds, lit.bounds);
    // An active block under the default cursor leaves the scene out of order;
    // the identifiers are in order all the same.
    assert!(!scene.is_wf());
    assert!(scene.ids_are_wf());
}

#[test]
fn inactive_blocks_leave_the_scene_in_order() {
    let mut scene = scene();
    scene.frame();
    scene.queue_mouse_event(mouse(false, 3200, 0));
    scene.frame();
    assert_eq!(active(&scene), vec![1]);
    scene.insert_cubes(vec![Cube::new('C', 300, 300, 50), Cube::new('D', 400, 400, 50)]);
    assert!(scene.is_wf());
    assert_eq!(active(&scene), vec![1]);
    assert_eq!(places(&scene), vec![(2, 150, 0), (1, 0, 0), (3, 300, 300), (4, 400, 400)]);
    assert_eq!(scene.next_id, 5);
}

#[test]
fn labels_are_kept_in_order() {
    let mut scene = CubeGrid::new();
    scene.insert_link(630, 600, "art@art.cx", "mailto:art@art.cx", 200);
    scene.insert_link(700, 600, "Projects", "./projects", 96);
    assert_eq!(scene.links.len(), 2);
    assert_eq!(scene.links[0].url, "mailto:art@art.cx");
    assert_eq!(scene.links[1].text, "Projects");
    assert_eq!(scene.links[1].coord, at(700, 600));
    assert_eq!(scene.links[1].width, 96);
    assert!(!scene.links[0].is_active && !scene.links[1].is_active);
}

#[test]
fn update_dimens_takes_the_window_and_reports_changes() {
    let mut scene = CubeGrid::new();
    assert!(!scene.update_dimens());
    scene.set_window_dimensions(800, 600, 2);
    assert!(scene.update_dimens());
    assert_eq!((scene.grid.width, scene.grid.height, scene.grid.device_pixel_ratio), (1600, 1200, 2));
    assert!(!scene.update_dimens());
    scene.set_window_dimensions(1600, 1200, 1);
    assert!(!scene.update_dimens());
    assert_eq!(scene.grid.device_pixel_ratio, 1);
    scene.set_window_dimensions(1600, 1201, 1);
    assert!(scene.update_dimens());
}

#[test]
fn handle_input_events_reads_one_queue_and_empties_it() {
    let mut scene = scene();
    assert!(!scene.handle_input_events());
    scene.queue_mouse_event(mouse(false, 10, 10));
    scene.queue_mouse_event(mouse(true, 20, 20));
    scene.queue_touch_event(TouchEvent { first: Some(Touch { id: 3, position: at(90, 90) }) });
    assert!(scene.handle_input_events());
    assert!(scene.mouse_events.is_empty());
    // The touch samples wait for a frame without pointer samples.
    assert_eq!(scene.touch_events.len(), 1);
    assert_eq!(scene.mouse_state.current_position, at(20, 20));
    assert_eq!(scene.mouse_state.last_down_position, at(20, 20));
    assert_eq!(scene.mouse_state.current_touch, None);
    assert!(scene.mouse_state.is_pressed);

    assert!(scene.handle_input_events());
    assert!(scene.touch_events.is_empty());
    assert_eq!(scene.mouse_state.current_touch, Some(3));
    assert_eq!(scene.mouse_state.current_position, at(90, 90));
    assert_eq!(scene.mouse_state.last_position, at(20, 20));
    assert!(!scene.handle_input_events());
}

#[test]
fn the_first_frame_draws_and_sorts() {
    let mut scene = scene();
    let frame = scene.frame();
    assert!(frame.redraw);
    assert_eq!(frame.open, None);
    assert_eq!((scene.grid.width, scene.grid.height), (800, 600));
    // The block further along x is nearer and comes first.
    assert_eq!(places(&scene), vec![(2, 150, 0), (1, 0, 0)]);
    assert_eq!(scene.cursor_string(), "default");
    // Nothing new: nothing to draw.
    let frame = scene.frame();
    assert!(!frame.redraw);
    assert_eq!(frame.open, None);
}

#[test]
fn hover_press_drag_and_release_a_block() {
    let mut scene = scene();
    scene.frame();

    // Over the first block.
    scene.queue_mouse_event(mouse(false, 3200, 0));
    let frame = scene.frame();
    assert!(frame.redraw);
    assert_eq!(active(&scene), vec![1]);
    assert_eq!(scene.mouse_state.cursor_style, Cursor::Grab);
    assert_eq!(scene.cursor_string(), "grab");
    assert!(!scene.mouse_state.is_dragging_cube);

    // Pressed on it.
    scene.queue_mouse_event(mouse(true, 3200, 0));
    scene.frame();
    assert_eq!(active(&scene), vec![1]);
    assert!(scene.mouse_state.is_dragging_cube);
    assert_eq!(scene.cursor_string(), "grabbing");
    assert_eq!(places(&scene), vec![(2, 150, 0), (1, 0, 0)]);

    // Dragged 60 units along x: the second block is pushed by 10.
    scene.queue_mouse_event(mouse(true, 3680, 240));
    let frame = scene.frame();
    assert!(frame.redraw);
    assert_eq!(frame.open, None);
    assert_eq!(places(&scene), vec![(2, 160, 0), (1, 60, 0)]);
    assert_eq!(active(&scene), vec![1]);
    assert!(scene.mouse_state.is_dragging_cube);

    // A frame with the pointer at rest moves nothing.
    scene.queue_mouse_event(mouse(true, 3680, 240));
    scene.frame();
    assert_eq!(places(&scene), vec![(2, 160, 0), (1, 60, 0)]);

    // Released: the drag is over, the block stays active for now.
    scene.queue_mouse_event(mouse(false, 3680, 240));
    let frame = scene.frame();
    assert_eq!(frame.open, None);
    assert!(!scene.mouse_state.is_dragging_cube);
    assert!(scene.mouse_state.just_released);
    assert_eq!(active(&scene), vec![1]);
    assert_eq!(scene.cursor_string(), "grab");

    // Away from everything.
    scene.queue_mouse_event(mouse(false, 0, 0));
    scene.frame();
    assert!(active(&scene).is_empty());
    assert_eq!(scene.mouse_state.cursor_style, Cursor::Default);
    assert_eq!(scene.cursor_string(), "default");
}

#[test]
fn dragging_reorders_the_blocks_by_depth() {
    let mut scene = scene();
    scene.frame();
    scene.queue_mouse_event(mouse(false, 3200, 0));
    scene.frame();
    scene.queue_mouse_event(mouse(true, 3200, 0));
    scene.frame();
    // 400 units along y: the dragged block is now the nearest.
    scene.queue_mouse_event(mouse(true, 3200 - 3200, 1600));
    scene.frame();
    assert_eq!(places(&scene), vec![(1, 0, 400), (2, 150, 0)]);
    assert_eq!(active(&scene), vec![1]);
}

#[test]
fn the_front_block_wins_where_two_are_under_the_pointer() {
    let mut scene = CubeGrid::new();
    scene.insert_cubes(vec![Cube::new('A', 0, 0, 100), Cube::new('B', 20, 20, 100)]);
    scene.set_window_dimensions(800, 600, 1);
    scene.frame();
    assert_eq!(places(&scene), vec![(2, 20, 20), (1, 0, 0)]);
    // Inside both outlines.
    scene.queue_mouse_event(mouse(false, 3200, 100));
    scene.frame();
    assert_eq!(active(&scene), vec![2]);
    // Inside the outline of the block behind only.
    scene.queue_mouse_event(mouse(false, 3200, -700));
    scene.frame();
    assert_eq!(active(&scene), vec![1]);
}

#[test]
fn a_click_on_a_label_opens_it_once() {
    let mut scene = scene();
    scene.frame();

    scene.queue_mouse_event(mouse(false, 3688, 4796));
    let frame = scene.frame();
    assert_eq!(frame.open, None);
    assert_eq!(scene.mouse_state.cursor_style, Cursor::Link);
    assert_eq!(scene.cursor_string(), "pointer");
    assert!(scene.links[0].is_active);
    assert!(active(&scene).is_empty());

    scene.queue_mouse_event(mouse(true, 3688, 4796));
    let frame = scene.frame();
    assert_eq!(frame.open, None);
    assert!(!scene.links[0].is_active);
    assert!(!scene.mouse_state.is_dragging_cube);
    assert_eq!(scene.cursor_string(), "pointer");

    scene.queue_mouse_event(mouse(false, 3688, 4796));
    let frame = scene.frame();
    assert_eq!(frame.open, Some(0));
    assert!(scene.links[0].is_active);

    // The next sample is no release.
    scene.queue_mouse_event(mouse(false, 3689, 4796));
    let frame = scene.frame();
    assert_eq!(frame.open, None);
    assert!(scene.links[0].is_active);

    scene.queue_mouse_event(mouse(false, 0, 0));
    scene.frame();
    assert!(!scene.links[0].is_active);
    assert_eq!(scene.cursor_string(), "default");
}

#[test]
fn a_block_hides_a_label_behind_it() {
    let mut scene = CubeGrid::new();
    scene.insert_cubes(vec![Cube::new('A', 0, 0, 100)]);
    scene.insert_link(0, 0, "under", "./under", 0);
    scene.set_window_dimensions(800, 600, 1);
    scene.frame();
    // Inside both the block's outline and the label's hit area.
    scene.queue_mouse_event(mouse(true, 3160, 20));
    scene.queue_mouse_event(mouse(false, 3160, 20));
    let frame = scene.frame();
    assert_eq!(frame.open, None);
    assert_eq!(active(&scene), vec![1]);
    assert!(!scene.links[0].is_active);
    assert_eq!(scene.mouse_state.cursor_style, Cursor::Grab);
}

#[test]
fn a_touch_drags_like_a_pressed_pointer() {
    let mut scene = scene();
    scene.frame();
    let finger = |x: i32, y: i32| TouchEvent { first: Some(Touch { id: 11, position: at(x, y) }) };
    scene.queue_touch_event(finger(3200, 0));
    scene.frame();
    assert_eq!(active(&scene), vec![1]);
    assert!(scene.mouse_state.is_dragging_cube);
    scene.queue_touch_event(finger(3680, 240));
    scene.frame();
    assert_eq!(places(&scene), vec![(2, 160, 0), (1, 60, 0)]);
    scene.queue_touch_event(TouchEvent { first: None });
    scene.frame();
    assert!(!scene.mouse_state.is_dragging_cube);
    assert_eq!(scene.mouse_state.current_touch, None);
}

#[test]
fn a_drag_that_would_leave_the_coordinate_range_moves_nothing() {
    let mut scene = CubeGrid::new();
    scene.insert_cubes(vec![Cube::new('A', i32::MAX - 10, 0, 100)]);
    scene.set_window_dimensions(800, 600, 1);
    scene.frame();
    // No pointer reaches a block this far out: it is taken hold of by hand.
    scene.cubes[0].is_active = true;
    scene.mouse_state.cursor_style = Cursor::Grab;
    scene.mouse_state.is_dragging_cube = true;
    scene.mouse_state.is_pressed = true;
    // 20 units along x.
    scene.queue_mouse_event(mouse(true, 160, 80));
    scene.frame();
    assert_eq!(places(&scene), vec![(1, i32::MAX - 10, 0)]);
    assert!(scene.mouse_state.is_dragging_cube);
    // 10 more units fit.
    scene.queue_mouse_event(mouse(true, 240, 120));
    scene.frame();
    assert_eq!(places(&scene), vec![(1, i32::MAX, 0)]);
}

#[test]
fn retargeting_marks_the_first_hit_only() {
    let mut grid = Grid::default();
    grid.update_dimensions(800, 600, 1);
    let mut a = Cube::new('A', 0, 0, 100);
    a.is_active = true;
    let mut cubes = vec![Cube::new('F', 5000, 5000, 10), a, Cube::new('B', 10, 10, 100)];
    assert!(has_active(&cubes));
    assert_eq!(retarget_cubes(&mut cubes, &at(3200, 100), &grid), 1);
    assert_eq!(cubes.iter().map(|c| c.is_active).collect::<Vec<bool>>(), vec![false, true, false]);
    assert_eq!(retarget_cubes(&mut cubes, &at(0, 0), &grid), 3);
    assert!(!has_active(&cubes));

    let mut links = vec![
        Link::new(0, 5000, "far", "./far", 10),
        Link::new(630, 600, "one", "./one", 96),
        Link::new(630, 600, "two", "./two", 96),
    ];
    links[2].is_active = true;
    assert_eq!(retarget_links(&mut links, &at(3688, 4796), &grid, true, true), 1);
    assert_eq!(links.iter().map(|l| l.is_active).collect::<Vec<bool>>(), vec![false, true, false]);
    assert_eq!(retarget_links(&mut links, &at(3688, 4796), &grid, true, false), 1);
    assert_eq!(links.iter().map(|l| l.is_active).collect::<Vec<bool>>(), vec![false, false, false]);
    links[0].is_active = true;
    assert_eq!(retarget_links(&mut links, &at(3688, 4796), &grid, false, true), 3);
    assert_eq!(links.iter().map(|l| l.is_active).collect::<Vec<bool>>(), vec![false, false, false]);
}

#[test]
fn a_scene_that_was_written_to_by_hand_is_found_out() {
    let mut scene = scene();
    assert!(scene.is_wf());
    scene.frame();
    scene.queue_mouse_event(mouse(false, 3200, 0));
    scene.frame();
    assert!(scene.is_wf());
    assert!(scene.ids_are_wf());

    // Two active blocks.
    let mut broken = scene_copy(&scene);
    broken.cubes[0].is_active = true;
    assert!(!broken.is_wf());
    // A cursor that does not fit what is active.
    let mut broken = scene_copy(&scene);
    broken.mouse_state.cursor_style = Cursor::Default;
    assert!(!broken.is_wf());
    let mut broken = scene_copy(&scene);
    broken.mouse_state.cursor_style = Cursor::Link;
    assert!(!broken.is_wf());
    // An active label beside an active block.
    let mut broken = scene_copy(&scene);
    broken.links[0].is_active = true;
    assert!(!broken.is_wf());
    // A stale footprint.
    let mut broken = scene_copy(&scene);
    broken.cubes[1].coord.x += 1;
    assert!(!broken.is_wf());
    // The same identifier twice, and identifiers out of range.
    let mut broken = scene_copy(&scene);
    broken.cubes[1].id = broken.cubes[0].id;
    assert!(!broken.ids_are_wf());
    assert!(!broken.is_wf());
    let mut broken = scene_copy(&scene);
    broken.cubes[0].id = 0;
    assert!(!broken.ids_are_wf());
    let mut broken = scene_copy(&scene);
    broken.next_id = 2;
    assert!(!broken.ids_are_wf());
    // A viewport of negative extent.
    let mut broken = scene_copy(&scene);
    broken.grid.width = -1;
    assert!(!broken.is_wf());
    // A drag without a block under the pointer.
    let mut broken = scene_copy(&scene);
    broken.cubes[1].is_active = false;
    broken.mouse_state.cursor_style = Cursor::Default;
    assert!(broken.is_wf());
    broken.mouse_state.is_dragging_cube = true;
    assert!(!broken.is_wf());
}

fn scene_copy(scene: &CubeGrid) -> CubeGrid {
    CubeGrid {
        cubes: scene.cubes.clone(),
        grid: scene.grid,
        links: scene.links.clone(),
        next_id: scene.next_id,
        window_dimensions: scene.window_dimensions,
        touch_events: scene.touch_events.clone(),
        mouse_events: scene.mouse_events.clone(),
        mouse_state: scene.mouse_state,
    }
}

#[test]
fn a_label_may_be_the_target_without_being_active() {
    let mut scene = scene();
    scene.frame();
    scene.queue_mouse_event(mouse(true, 3688, 4796));
    scene.frame();
    assert_eq!(scene.mouse_state.cursor_style, Cursor::Link);
    assert!(!scene.links[0].is_active);
    assert!(scene.is_wf());
}

#[test]
fn the_interaction_goes_through_its_four_states() {
    let mut scene = scene();
    assert_eq!(scene.interaction(), Interaction::Idle);
    scene.frame();
    assert_eq!(scene.interaction(), Interaction::Idle);

    scene.queue_mouse_event(mouse(false, 3200, 0));
    scene.frame();
    assert_eq!(scene.interaction(), Interaction::HoveringBlock(1));

    scene.queue_mouse_event(mouse(true, 3200, 0));
    scene.frame();
    assert_eq!(scene.interaction(), Interaction::Dragging(1));

    scene.queue_mouse_event(mouse(true, 3680, 240));
    scene.frame();
    assert_eq!(scene.interaction(), Interaction::Dragging(1));

    scene.queue_mouse_event(mouse(false, 3680, 240));
    scene.frame();
    assert_eq!(scene.interaction(), Interaction::HoveringBlock(1));

    scene.queue_mouse_event(mouse(false, 3688, 4796));
    scene.frame();
    assert_eq!(scene.interaction(), Interaction::HoveringHotspot);

    scene.queue_mouse_event(mouse(true, 3688, 4796));
    scene.frame();
    assert_eq!(scene.interaction(), Interaction::HoveringHotspot);

    scene.queue_mouse_event(mouse(false, 0, 0));
    scene.frame();
    assert_eq!(scene.interaction(), Interaction::Idle);

    // Over the second block, which stands at (160, 0) by now.
    scene.queue_mouse_event(mouse(false, 3200 + 8 * 160, 4 * 160));
    scene.frame();
    assert_eq!(scene.interaction(), Interaction::HoveringBlock(2));
}

#[test]
fn the_only_active_object_is_found() {
    let mut cubes = vec![Cube::new('A', 0, 0, 10), Cube::new('B', 0, 0, 10), Cube::new('C', 0, 0, 10)];
    assert_eq!(only_active(&cubes), Some(3));
    cubes[1].is_active = true;
    assert_eq!(only_active(&cubes), Some(1));
    cubes[2].is_active = true;
    assert_eq!(only_active(&cubes), None);
    assert_eq!(only_active(&Vec::new()), Some(0));

    let mut links = vec![Link::new(0, 0, "a", "./a", 1), Link::new(0, 0, "b", "./b", 1)];
    assert_eq!(only_active_link(&links), Some(2));
    links[0].is_active = true;
    assert_eq!(only_active_link(&links), Some(0));
    links[1].is_active = true;
    assert_eq!(only_active_link(&links), None);
}

#[test]
fn the_paint_list_runs_from_the_farthest_to_the_nearest() {
    let mut scene = scene();
    scene.insert_link(700, 600, "Blog", "./blog", 40);
    scene.insert_cubes(vec![Cube::new('C', 300, 0, 100)]);
    scene.frame();
    assert_eq!(places(&scene), vec![(3, 300, 0), (2, 150, 0), (1, 0, 0)]);
    assert_eq!(
        scene.paint_list(),
        vec![Shadow(2), Shadow(1), Shadow(0), Label(0), Label(1), Block(2), Block(1), Block(0)]
    );
    assert!(CubeGrid::new().paint_list().is_empty());
}

#[test]
fn a_release_over_a_label_opens_it_only_where_the_press_began_there() {
    let mut scene = scene();
    scene.frame();

    // Pressed over nothing, moved onto the label, released there.
    scene.queue_mouse_event(mouse(true, 0, 0));
    scene.frame();
    assert_eq!(scene.mouse_state.last_down_position, at(0, 0));
    scene.queue_mouse_event(mouse(true, 3688, 4796));
    scene.frame();
    assert_eq!(scene.mouse_state.cursor_style, Cursor::Link);
    scene.queue_mouse_event(mouse(false, 3688, 4796));
    let frame = scene.frame();
    assert!(scene.mouse_state.just_released);
    assert_eq!(frame.open, None);
    assert!(scene.links[0].is_active);

    // Pressed over the label, moved within it, released there.
    scene.queue_mouse_event(mouse(true, 3688, 4796));
    scene.frame();
    scene.queue_mouse_event(mouse(true, 3700, 4800));
    scene.frame();
    scene.queue_mouse_event(mouse(false, 3700, 4800));
    let frame = scene.frame();
    assert_eq!(frame.open, Some(0));

    // Pressed over the label, released over nothing.
    scene.queue_mouse_event(mouse(true, 3688, 4796));
    scene.frame();
    scene.queue_mouse_event(mouse(false, 0, 0));
    let frame = scene.frame();
    assert_eq!(frame.open, None);
}

#[test]
fn a_release_opens_the_label_under_it_not_the_one_that_was_pressed() {
    let mut scene = scene();
    // A second label, one hundred units further along x.
    scene.insert_link(730, 600, "Blog", "./blog", 96);
    scene.frame();
    // Pressed over the first label, released over the second.
    scene.queue_mouse_event(mouse(true, 3688, 4796));
    scene.frame();
    scene.queue_mouse_event(mouse(false, 3688 + 800, 4796 + 400));
    let frame = scene.frame();
    assert_eq!(scene.mouse_state.cursor_style, Cursor::Link);
    assert!(scene.links[1].is_active && !scene.links[0].is_active);
    assert_eq!(frame.open, None);
    // Pressed and released over the second.
    scene.queue_mouse_event(mouse(true, 3688 + 800, 4796 + 400));
    scene.frame();
    scene.queue_mouse_event(mouse(false, 3688 + 800, 4796 + 400));
    let frame = scene.frame();
    assert_eq!(frame.open, Some(1));
}

#[test]
fn a_tap_on_a_label_opens_it() {
    let mut scene = scene();
    scene.frame();
    scene.queue_touch_event(TouchEvent { first: Some(Touch { id: 5, position: at(3688, 4796) }) });
    let frame = scene.frame();
    assert_eq!(frame.open, None);
    assert_eq!(scene.mouse_state.last_down_position, at(3688, 4796));
    scene.queue_touch_event(TouchEvent { first: None });
    let frame = scene.frame();
    assert_eq!(frame.open, Some(0));
}

#[test]
fn a_frame_keeps_every_block() {
    let mut scene = scene();
    scene.insert_cubes(vec![Cube::new('C', 255, 0, 100)]);
    scene.frame();
    scene.queue_mouse_event(mouse(false, 3200, 0));
    scene.frame();
    scene.queue_mouse_event(mouse(true, 3200, 0));
    scene.frame();
    scene.queue_mouse_event(mouse(true, 3680, 240));
    scene.frame();
    let mut kept: Vec<(usize, char, u32)> =
        scene.cubes.iter().map(|c| (c.id, c.character, c.size)).collect();
    kept.sort();
    assert_eq!(kept, vec![(1, 'A', 100), (2, 'B', 100), (3, 'C', 100)]);
    assert_eq!(places(&scene), vec![(3, 260, 0), (2, 160, 0), (1, 60, 0)]);
}
