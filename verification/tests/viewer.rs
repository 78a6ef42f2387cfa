use turboplot::camera::Camera;
use turboplot::tiling::{Retention, TileProperties, TileSize, TileStatus, Tiling};
use turboplot::util::{Fixed, FixedVec2, FIXED_ONE};
use turboplot::viewer::{
    apply_input, center_out, compute_viewport_tiles, refresh_cache, render_mode, request_tiles, tile_span_x,
    viewport_columns, visible_samples, RenderMode, Tool, ToolState, ViewerInput,
    ViewerUpdateStatus,
    LINES_RENDERING_SCALE_LIMIT, MIN_SCALE_X, TILE_WIDTH,
};

fn camera(scale_x: i32, shift_x: i32) -> Camera {
    Camera {
        scale: FixedVec2 { x: Fixed::from_int(scale_x), y: Fixed::from_int(2) },
        shift: FixedVec2 { x: Fixed::from_int(shift_x), y: Fixed::from_int(3) },
    }
}

#[test]
fn viewer_constants() {
    assert_eq!(TILE_WIDTH, 64);
    assert_eq!(MIN_SCALE_X, (8 * 1024 * 1024 * 4 - 1) / 64);
    assert_eq!(LINES_RENDERING_SCALE_LIMIT, 5);
}

#[test]
fn tool_names() {
    assert_eq!(Tool::Move.name(), "Move");
    assert_eq!(Tool::Range.name(), "Range");
    assert_eq!(Tool::Count.name(), "Count");
}

#[test]
fn update_status_allows_tile_requests_at_rest() {
    let rest = ViewerUpdateStatus { zooming: false, dragging_x: false, dragging_y: false };
    assert!(!rest.changing());
    assert!(rest.allows_tile_requests());
    let drag_x = ViewerUpdateStatus { dragging_x: true, ..rest };
    assert!(drag_x.changing());
    assert!(drag_x.allows_tile_requests());
    let drag_y = ViewerUpdateStatus { dragging_y: true, ..rest };
    assert!(drag_y.changing());
    assert!(!drag_y.allows_tile_requests());
    let zoom = ViewerUpdateStatus { zooming: true, ..rest };
    assert!(zoom.changing());
    assert!(!zoom.allows_tile_requests());
}

#[test]
fn columns_from_the_middle_outwards() {
    assert_eq!(center_out(0, 5), vec![2, 1, 3, 0, 4]);
    assert_eq!(center_out(0, 4), vec![2, 1, 3, 0]);
    assert_eq!(center_out(-3, 2), vec![0, -1, 1, -2, -3]);
    assert_eq!(center_out(-3, -2), vec![-3]);
    assert_eq!(center_out(7, 8), vec![7]);
    assert_eq!(center_out(3, 3), Vec::<i32>::new());
    assert_eq!(center_out(5, 3), Vec::<i32>::new());
}

#[test]
fn columns_are_sorted_like_a_stable_sort_by_distance() {
    for start in -12..12 {
        for end in start - 2..start + 15 {
            let mut expected: Vec<i32> = (start..end).collect();
            expected.sort_by_key(|&a| (a - (start + end) / 2).abs());
            assert_eq!(center_out(start, end), expected, "{}..{}", start, end);
        }
    }
    let ends = center_out(i32::MAX - 3, i32::MAX);
    assert_eq!(ends, vec![i32::MAX - 2, i32::MAX - 3, i32::MAX - 1]);
    // The middle of negative columns is rounded towards zero.
    let starts = center_out(i32::MIN, i32::MIN + 3);
    assert_eq!(starts, vec![i32::MIN + 2, i32::MIN + 1, i32::MIN]);
}

#[test]
fn viewport_columns_cover_the_viewport() {
    // 10 samples per column, centred on sample 5000: the centre is pixel
    // 500 of the trace. A viewport of 1280 pixels shows pixels -140 to 1140,
    // which lie in the columns -3 to 17.
    let c = camera(10, 5000);
    assert_eq!(viewport_columns(&c, Fixed::from_int(640)), Some((-3, 18)));
    // Edges on a tile border.
    let d = camera(10, 6400);
    assert_eq!(viewport_columns(&d, Fixed::from_int(640)), Some((0, 20)));
    assert_eq!(viewport_columns(&d, Fixed::zero()), Some((10, 10)));
    // A 64th of a tile is the smallest part of a tile that counts.
    assert_eq!(viewport_columns(&d, Fixed::from_bits(64)), Some((9, 11)));
    assert_eq!(viewport_columns(&d, Fixed::from_bits(63)), Some((9, 10)));
}

#[test]
fn viewport_columns_report_what_cannot_be_computed() {
    let mut flat = camera(10, 0);
    flat.scale.x = Fixed::zero();
    assert_eq!(viewport_columns(&flat, Fixed::from_int(640)), None);
    let c = camera(10, 0);
    assert_eq!(viewport_columns(&c, Fixed::from_bits(i64::MAX)), None);
    let mut far = camera(1, 0);
    far.shift.x = Fixed::from_bits(i64::MAX);
    assert_eq!(viewport_columns(&far, Fixed::from_int(640)), None);
    assert_eq!(compute_viewport_tiles(&flat, 0, Fixed::from_int(640), 100), None);
}

#[test]
fn viewport_tiles_take_the_settings_of_the_camera() {
    let c = camera(10, 5000);
    let tiles = compute_viewport_tiles(&c, 7, Fixed::from_int(640), 512).unwrap();
    assert_eq!(tiles.len(), 21);
    let indexes: Vec<i32> = tiles.iter().map(|t| t.index).collect();
    assert_eq!(indexes, center_out(-3, 18));
    assert_eq!(indexes[0], 7);
    assert_eq!(indexes[1], 6);
    assert_eq!(indexes[2], 8);
    for t in &tiles {
        assert_eq!(t.owner_id, 7);
        assert_eq!(t.scale, c.scale);
        assert_eq!(t.offset, c.shift.y);
        assert_eq!(t.size, TileSize::new(64, 512));
    }
}

fn tile(index: i32, scale_x: i32) -> TileProperties {
    TileProperties {
        owner_id: 0,
        scale: FixedVec2 { x: Fixed::from_int(scale_x), y: Fixed::from_int(1) },
        offset: Fixed::zero(),
        index,
        size: TileSize::new(64, 4),
    }
}

#[test]
fn request_tiles_adds_the_missing_ones() {
    let mut tiling = Tiling::new();
    let required = vec![tile(1, 10), tile(0, 10), tile(2, 10)];
    assert!(!request_tiles(&mut tiling, &required));
    assert_eq!(tiling.len(), 3);
    assert_eq!(tiling.properties_at(0), tile(1, 10));
    assert_eq!(tiling.properties_at(1), tile(0, 10));
    assert_eq!(tiling.properties_at(2), tile(2, 10));
    assert!(!request_tiles(&mut tiling, &required));
    assert_eq!(tiling.len(), 3);
    for p in &required {
        tiling.take_job();
        tiling.store_result(*p, vec![0; 256]);
    }
    assert!(request_tiles(&mut tiling, &required));
    assert_eq!(tiling.len(), 3);
    // One tile more is asked for: the set is not complete.
    let more = vec![tile(1, 10), tile(3, 10)];
    assert!(!request_tiles(&mut tiling, &more));
    assert_eq!(tiling.len(), 4);
    assert!(request_tiles(&mut tiling, &Vec::new()));
    // A tile asked for twice is added once.
    let twice = vec![tile(9, 10), tile(9, 10)];
    assert!(!request_tiles(&mut tiling, &twice));
    assert_eq!(tiling.len(), 5);
}

#[test]
fn refresh_cache_evicts_once_the_view_is_complete() {
    let mut tiling = Tiling::new();
    let stale = vec![tile(0, 20), tile(1, 20)];
    request_tiles(&mut tiling, &stale);
    for p in &stale {
        tiling.take_job();
        tiling.store_result(*p, vec![0; 256]);
    }
    let required = vec![tile(0, 10), tile(1, 10)];
    let keep = Retention::new(
        0,
        FixedVec2 { x: Fixed::from_int(10), y: Fixed::from_int(1) },
        Fixed::zero(),
    );
    // The new tiles wait: the old ones stay as a preview, a worker is woken.
    assert!(refresh_cache(&mut tiling, &required, &keep));
    assert_eq!(tiling.len(), 4);
    assert!(refresh_cache(&mut tiling, &required, &keep));
    assert_eq!(tiling.len(), 4);
    tiling.take_job();
    tiling.store_result(required[0], vec![0; 256]);
    assert!(refresh_cache(&mut tiling, &required, &keep));
    assert_eq!(tiling.len(), 4);
    tiling.take_job();
    tiling.store_result(required[1], vec![0; 256]);
    // All are rendered: the old tiles are dropped.
    assert!(!refresh_cache(&mut tiling, &required, &keep));
    assert_eq!(tiling.len(), 2);
    assert_eq!(tiling.properties_at(0), required[0]);
    assert_eq!(tiling.properties_at(1), required[1]);
    assert_eq!(tiling.status_at(0), TileStatus::Rendered);
}

#[test]
fn range_tool_takes_two_clicks_and_a_third_to_clear() {
    let mut state = ToolState::new();
    assert_eq!(state.tool, Tool::Move);
    state.select(Tool::Range);
    assert_eq!((state.step, state.times.len()), (0, 0));
    let t = |n: i32| Fixed::from_int(n);
    state.update(t(5), false);
    assert_eq!((state.step, state.times.clone()), (0, vec![]));
    state.update(t(10), true);
    assert_eq!((state.step, state.times.clone()), (1, vec![t(10), t(10)]));
    state.update(t(12), false);
    assert_eq!((state.step, state.times.clone()), (1, vec![t(10), t(12)]));
    state.update(t(15), true);
    assert_eq!((state.step, state.times.clone()), (2, vec![t(10), t(15)]));
    state.update(t(99), false);
    assert_eq!((state.step, state.times.clone()), (2, vec![t(10), t(15)]));
    state.update(t(99), true);
    assert_eq!((state.step, state.times.clone()), (0, vec![]));
}

#[test]
fn count_tool_takes_three_clicks_and_a_fourth_to_clear() {
    let mut state = ToolState::new();
    state.select(Tool::Count);
    let t = |n: i32| Fixed::from_int(n);
    state.update(t(10), true);
    assert_eq!((state.step, state.times.clone()), (1, vec![t(10), t(10)]));
    state.update(t(20), true);
    assert_eq!((state.step, state.times.clone()), (2, vec![t(10), t(20), t(20)]));
    state.update(t(25), false);
    assert_eq!((state.step, state.times.clone()), (2, vec![t(10), t(20), t(25)]));
    state.update(t(30), true);
    assert_eq!((state.step, state.times.clone()), (3, vec![t(10), t(20), t(30)]));
    state.update(t(40), false);
    assert_eq!((state.step, state.times.clone()), (3, vec![t(10), t(20), t(30)]));
    state.update(t(40), true);
    assert_eq!((state.step, state.times.clone()), (0, vec![]));
}

#[test]
fn move_tool_marks_nothing_and_a_change_of_tool_clears() {
    let mut state = ToolState::new();
    state.update(Fixed::from_int(1), true);
    assert_eq!((state.step, state.times.len()), (0, 0));
    state.select(Tool::Range);
    state.update(Fixed::from_int(1), true);
    assert_eq!(state.step, 1);
    // The same tool again keeps the marks.
    state.select(Tool::Range);
    assert_eq!((state.step, state.times.len()), (1, 2));
    state.select(Tool::Count);
    assert_eq!((state.tool, state.step, state.times.len()), (Tool::Count, 0, 0));
    state.update(Fixed::from_int(1), true);
    state.select(Tool::Move);
    assert_eq!((state.tool, state.step, state.times.len()), (Tool::Move, 0, 0));
}

#[test]
fn visible_samples_of_a_viewport() {
    let c = camera(2, 100);
    let half = Fixed::from_int(20);
    // The viewport of 40 pixels shows the samples 60 to 140.
    assert_eq!(
        visible_samples(&c, half, Fixed::zero(), Fixed::from_int(40), 1000),
        Some((60, 141))
    );
    // The trace ends inside the viewport, and starts inside it.
    assert_eq!(
        visible_samples(&c, half, Fixed::zero(), Fixed::from_int(40), 100),
        Some((60, 100))
    );
    let d = camera(2, 10);
    assert_eq!(
        visible_samples(&d, half, Fixed::zero(), Fixed::from_int(40), 1000),
        Some((0, 51))
    );
    assert_eq!(
        visible_samples(&d, half, Fixed::zero(), Fixed::from_int(40), 0),
        Some((0, 0))
    );
    // Half samples round outwards.
    let e = Camera {
        scale: FixedVec2 { x: Fixed::from_bits(FIXED_ONE / 2), y: Fixed::from_int(1) },
        shift: FixedVec2::default(),
    };
    assert_eq!(
        visible_samples(&e, Fixed::zero(), Fixed::from_int(3), Fixed::from_int(5), 1000),
        Some((1, 4))
    );
    assert_eq!(
        visible_samples(&c, half, Fixed::from_bits(i64::MIN), Fixed::zero(), 10),
        None
    );
}

#[test]
fn tile_span_on_the_screen() {
    // A tile rendered at the scale of the camera is 64 pixels wide; tile 7
    // starts at pixel 448 of the trace. The centre, pixel 500 of the trace,
    // is at 640 on the screen.
    let c = camera(10, 5000);
    let same = tile(7, 10);
    assert_eq!(
        tile_span_x(&c, &same, Fixed::from_int(640)),
        Some((Fixed::from_int(588), Fixed::from_int(652)))
    );
    // A tile rendered at twice the scale is shown twice as wide.
    let coarse = tile(3, 20);
    assert_eq!(
        tile_span_x(&c, &coarse, Fixed::from_int(640)),
        Some((Fixed::from_int(524), Fixed::from_int(652)))
    );
    let mut flat = c;
    flat.scale.x = Fixed::zero();
    assert_eq!(tile_span_x(&flat, &same, Fixed::from_int(640)), None);
}

#[test]
fn few_samples_per_column_are_drawn_as_lines() {
    assert_eq!(render_mode(&camera(1, 0)), RenderMode::Lines);
    assert_eq!(render_mode(&camera(4, 0)), RenderMode::Lines);
    let mut almost = camera(5, 0);
    almost.scale.x = Fixed::from_bits(5 * FIXED_ONE - 1);
    assert_eq!(render_mode(&almost), RenderMode::Lines);
    assert_eq!(render_mode(&camera(5, 0)), RenderMode::Density);
    assert_eq!(render_mode(&camera(1000, 0)), RenderMode::Density);
}

#[test]
fn viewport_tiles_of_a_density_view_can_be_rendered() {
    for scale in [5, 10, 1000, 524287] {
        let tiles = compute_viewport_tiles(&camera(scale, 5000), 0, Fixed::from_int(640), 8192)
            .unwrap();
        assert!(!tiles.is_empty());
        for t in &tiles {
            assert!(t.is_valid(), "scale {}", scale);
        }
    }
    // A viewport that is too high for a renderer.
    let high = compute_viewport_tiles(&camera(10, 0), 0, Fixed::from_int(640), 8193).unwrap();
    assert!(high.iter().all(|t| !t.is_valid()));
}

fn quiet() -> ViewerInput {
    ViewerInput {
        hovered: true,
        scrolled: false,
        alt: false,
        pointer: Some(Fixed::from_int(100)),
        factor_x: Fixed::from_bits(FIXED_ONE / 2),
        factor_y: Fixed::from_int(3),
        key_left: false,
        key_right: false,
        key_step: Fixed::from_int(16),
        dragged_secondary: false,
        dragged_primary: false,
        moved_x: false,
        drag_x: Fixed::from_int(7),
        moved_y: false,
        drag_y: Fixed::from_int(8),
    }
}

const REST: ViewerUpdateStatus =
    ViewerUpdateStatus { zooming: false, dragging_x: false, dragging_y: false };

#[test]
fn input_without_action_leaves_the_camera() {
    let c = camera(10, 5000);
    assert_eq!(apply_input(c, Tool::Move, &quiet()), Some((c, REST)));
    // A drag that has not moved, and both arrow keys at once, do nothing.
    let still = ViewerInput {
        dragged_primary: true,
        dragged_secondary: true,
        key_left: true,
        key_right: true,
        ..quiet()
    };
    assert_eq!(apply_input(c, Tool::Move, &still), Some((c, REST)));
}

#[test]
fn the_wheel_zooms_around_the_pointer() {
    let c = camera(10, 5000);
    let wheel = ViewerInput { scrolled: true, ..quiet() };
    let zoomed = ViewerUpdateStatus { zooming: true, ..REST };
    assert_eq!(
        apply_input(c, Tool::Move, &wheel),
        Some((c.zoom_x(wheel.factor_x, Fixed::from_int(100)).unwrap(), zoomed))
    );
    // With the alt key the wheel zooms vertically.
    let alt = ViewerInput { alt: true, ..wheel };
    assert_eq!(
        apply_input(c, Tool::Move, &alt),
        Some((c.zoom_y(alt.factor_y).unwrap(), zoomed))
    );
    // Without a pointer the view is zooming, and stays.
    let blind = ViewerInput { pointer: None, ..wheel };
    assert_eq!(apply_input(c, Tool::Move, &blind), Some((c, zoomed)));
    // Over another widget the wheel does nothing.
    let away = ViewerInput { hovered: false, ..wheel };
    assert_eq!(apply_input(c, Tool::Move, &away), Some((c, REST)));
}

#[test]
fn arrow_keys_move_the_view() {
    let c = camera(10, 5000);
    let left = ViewerInput { key_left: true, ..quiet() };
    let right = ViewerInput { key_right: true, ..quiet() };
    assert_eq!(
        apply_input(c, Tool::Range, &left).unwrap().0.shift.x,
        Fixed::from_int(5000 - 160)
    );
    assert_eq!(
        apply_input(c, Tool::Range, &right).unwrap().0.shift.x,
        Fixed::from_int(5000 + 160)
    );
    assert_eq!(apply_input(c, Tool::Range, &left).unwrap().1, REST);
}

#[test]
fn drags_move_the_view() {
    let c = camera(10, 5000);
    let drag = ViewerInput { dragged_primary: true, moved_x: true, moved_y: true, ..quiet() };
    let x = ViewerUpdateStatus { dragging_x: true, ..REST };
    let y = ViewerUpdateStatus { dragging_y: true, ..REST };
    // The view follows the pointer: a drag to the right lowers the shift.
    assert_eq!(
        apply_input(c, Tool::Move, &drag),
        Some((c.pan_left(Fixed::from_int(7)).unwrap(), x))
    );
    assert_eq!(apply_input(c, Tool::Move, &drag).unwrap().0.shift.x, Fixed::from_int(4930));
    // With the alt key the drag is vertical: 8 pixels at a scale of 2.
    let alt = ViewerInput { alt: true, ..drag };
    assert_eq!(
        apply_input(c, Tool::Move, &alt),
        Some((c.pan_y(Fixed::from_int(8)).unwrap(), y))
    );
    assert_eq!(apply_input(c, Tool::Move, &alt).unwrap().0.shift.y, Fixed::from_int(-1));
    // The primary button drags only with the tool that pans.
    assert_eq!(apply_input(c, Tool::Range, &drag), Some((c, REST)));
    assert_eq!(apply_input(c, Tool::Count, &drag), Some((c, REST)));
    // The secondary button drags with every tool.
    let secondary = ViewerInput { dragged_primary: false, dragged_secondary: true, ..drag };
    assert_eq!(
        apply_input(c, Tool::Count, &secondary),
        Some((c.pan_left(Fixed::from_int(7)).unwrap(), x))
    );
    // A vertical move without the alt key is no vertical drag.
    let only_y = ViewerInput { moved_x: false, ..drag };
    assert_eq!(apply_input(c, Tool::Move, &only_y), Some((c, REST)));
}

#[test]
fn wheel_keys_and_drag_apply_in_this_order() {
    let c = camera(10, 5000);
    let all = ViewerInput {
        scrolled: true,
        key_right: true,
        dragged_secondary: true,
        moved_x: true,
        ..quiet()
    };
    let expected = c
        .zoom_x(all.factor_x, Fixed::from_int(100))
        .unwrap()
        .pan_right(all.key_step)
        .unwrap()
        .pan_left(all.drag_x)
        .unwrap();
    assert_eq!(
        apply_input(c, Tool::Move, &all),
        Some((expected, ViewerUpdateStatus { zooming: true, dragging_x: true, dragging_y: false }))
    );
}

#[test]
fn input_that_overflows_gives_nothing() {
    let mut far = camera(10, 0);
    far.shift.x = Fixed::from_bits(i64::MAX);
    let right = ViewerInput { key_right: true, ..quiet() };
    assert_eq!(apply_input(far, Tool::Move, &right), None);
    let huge = ViewerInput { scrolled: true, factor_x: Fixed::from_bits(i64::MAX), ..quiet() };
    assert_eq!(apply_input(camera(10, 0), Tool::Move, &huge), None);
}
