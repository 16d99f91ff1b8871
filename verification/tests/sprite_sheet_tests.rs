use battle_engine::sprite_sheet::{loop_frame, SpriteGrid};

#[test]
fn frames_divide_the_texture_evenly() {
    let grid = SpriteGrid::new(100, 60, 5, 3);
    assert_eq!(grid.get_frame_size(), (20, 20));
    assert_eq!(grid.current_frame(), 0);
    assert_eq!(grid.source_origin(), (0, 0));
    let uneven = SpriteGrid::new(103, 59, 5, 3);
    assert_eq!(uneven.get_frame_size(), (20, 19));
}

#[test]
fn frames_are_numbered_row_by_row() {
    let mut grid = SpriteGrid::new(100, 60, 5, 3);
    grid.set_frame(4);
    assert_eq!(grid.source_origin(), (80, 0));
    grid.set_frame(5);
    assert_eq!(grid.source_origin(), (0, 20));
    grid.set_frame(7);
    assert_eq!(grid.current_frame(), 7);
    assert_eq!(grid.source_origin(), (40, 20));
    assert_eq!(grid.get_frame_size(), (20, 20));
}

#[test]
fn the_origin_of_a_far_frame_does_not_wrap() {
    let mut grid = SpriteGrid::new(u32::MAX, u32::MAX, 1, 1);
    grid.set_frame(u32::MAX);
    assert_eq!(grid.source_origin(), (0, 4_294_967_295 * 4_294_967_295));
}

#[test]
fn a_loop_wraps_around_after_its_last_frame() {
    assert_eq!(loop_frame(1, 4, 0), 1);
    assert_eq!(loop_frame(1, 4, 3), 4);
    assert_eq!(loop_frame(1, 4, 4), 1);
    assert_eq!(loop_frame(1, 4, 6), 3);
    assert_eq!(loop_frame(0, 9, 25), 5);
    assert_eq!(loop_frame(7, 7, 1_000), 7);
    assert_eq!(loop_frame(0, u32::MAX, u32::MAX), u32::MAX);
}
