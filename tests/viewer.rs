use std::sync::Arc;

use img::media::{frame_delay_nanos, Animation, Frame, ImageData, ImageId, LoadGenerations};
use img::scale::{percent_scale, step_value, Scale, SCALE_ONE, STEP_COUNT};
use img::tiling::tile_grid;
use img::view_program::{
    tile_visible, Point2, ViewCommand, ViewInput, ViewKey, ViewProgram, ViewProgramState, SUBPIXEL,
};

const MS: u64 = 1_000_000;

fn pixel(id: u64) -> ImageData {
    ImageData::new(vec![id as u8, 0, 0, 255], 1, 1, ImageId::new(id))
}

fn frames(delays_ms: &[u64]) -> Vec<Frame> {
    delays_ms
        .iter()
        .enumerate()
        .map(|(i, d)| Frame { data: Arc::new(pixel(i as u64)), delay: d * MS })
        .collect()
}

#[test]
fn zoom_in_climbs_to_the_top_and_stays() {
    let mut s = Scale::new();
    s.custom(step_value(0));
    assert_eq!(s.value(), 10_000);
    let mut last = 0;
    for _ in 0..STEP_COUNT - 1 {
        let prev = s.up();
        assert!(prev > last);
        last = prev;
    }
    assert_eq!(s.value(), 35 * SCALE_ONE);
    assert_eq!(s.up(), 35 * SCALE_ONE);
    assert_eq!(s.value(), 35 * SCALE_ONE);
}

#[test]
fn zoom_out_descends_to_the_bottom_and_stays() {
    let mut s = Scale::new();
    s.custom(35 * SCALE_ONE);
    let mut last = u64::MAX;
    for _ in 0..STEP_COUNT - 1 {
        let prev = s.down();
        assert!(prev < last);
        last = prev;
    }
    assert_eq!(s.value(), 10_000);
    assert_eq!(s.down(), 10_000);
    assert_eq!(s.value(), 10_000);
}

#[test]
fn custom_scale_snaps_strictly() {
    let mut s = Scale::new();
    s.custom(1_100_000);
    assert_eq!(s.value(), 1_100_000);
    assert_eq!(s.up(), 1_100_000);
    assert_eq!(s.value(), 1_250_000);
    s.custom(1_100_000);
    s.down();
    assert_eq!(s.value(), SCALE_ONE);
    // A table value clears the custom scale.
    s.custom(2 * SCALE_ONE);
    s.up();
    assert_eq!(s.value(), 2_500_000);
    // Beyond the table the bounds hold.
    s.custom(50 * SCALE_ONE);
    s.up();
    assert_eq!(s.value(), 35 * SCALE_ONE);
    s.custom(1);
    s.down();
    assert_eq!(s.value(), 10_000);
}

#[test]
fn fit_takes_the_smaller_ratio() {
    let mut s = Scale::new();
    s.fit(2000, 1000, 800, 600);
    assert_eq!(s.value(), 400_000);
    s.fit(100, 100, 800, 600);
    assert_eq!(s.value(), 6 * SCALE_ONE);
}

fn viewer(img_w: u32, img_h: u32) -> ViewProgram {
    let mut v = ViewProgram::new();
    v.set_bounds(800 * SUBPIXEL, 600 * SUBPIXEL);
    v.set_image(ImageData::new(vec![0u8; (img_w * img_h * 4) as usize], img_w, img_h, ImageId::new(1)));
    v
}

#[test]
fn zoom_keeps_point_under_cursor() {
    let mut v = viewer(1000, 1000);
    let cursor = Point2 { x: 600 * SUBPIXEL, y: 300 * SUBPIXEL };
    v.scale_up(cursor);
    assert_eq!(v.scale(), 1_250_000);
    assert_eq!(v.offset(), Point2 { x: -5120, y: 0 });
    // Image coordinate under the cursor: (2c - w) / s - offset, equal before and after.
    let before = (2 * cursor.x - v.bounds().x) as i128;
    let after = (2 * cursor.x - v.bounds().x) as i128 * SCALE_ONE as i128 / 1_250_000 - v.offset().x as i128;
    assert_eq!(before, after);
    v.scale_down(cursor);
    assert_eq!(v.scale(), SCALE_ONE);
    assert_eq!(v.offset(), Point2 { x: 0, y: 0 });
}

#[test]
fn zoom_at_center_keeps_offset() {
    let mut v = viewer(1000, 1000);
    let center = v.viewport_center();
    assert_eq!(center, Point2 { x: 400 * SUBPIXEL, y: 300 * SUBPIXEL });
    v.set_scale(3 * SCALE_ONE, center);
    assert_eq!(v.scale(), 3 * SCALE_ONE);
    assert_eq!(v.offset(), Point2 { x: 0, y: 0 });
}

#[test]
fn zoom_anchor_in_y_points_up() {
    let mut v = viewer(1000, 1000);
    let cursor = Point2 { x: 400 * SUBPIXEL, y: 100 * SUBPIXEL };
    v.set_scale(2 * SCALE_ONE, cursor);
    // v * ndc.y = 600 - 200 = 400 px; times (1/2 - 1) gives -200 px.
    assert_eq!(v.offset(), Point2 { x: 0, y: -200 * SUBPIXEL });
}

#[test]
fn pan_moves_by_twice_delta_over_scale() {
    let mut v = viewer(1000, 1000);
    v.pan(Point2 { x: 10, y: -3 });
    assert_eq!(v.offset(), Point2 { x: 20, y: -6 });
    v.set_scale(2 * SCALE_ONE, v.viewport_center());
    v.pan(Point2 { x: 10, y: 5 });
    assert_eq!(v.offset(), Point2 { x: 30, y: -1 });
}

#[test]
fn pan_is_clamped_to_image_size() {
    let mut v = viewer(100, 50);
    for _ in 0..20 {
        v.pan(Point2 { x: 10_000, y: -10_000 });
    }
    assert_eq!(v.offset(), Point2 { x: 100 * SUBPIXEL, y: -50 * SUBPIXEL });
    v.pan(Point2 { x: -1_000_000, y: 1_000_000 });
    assert_eq!(v.offset(), Point2 { x: -100 * SUBPIXEL, y: 50 * SUBPIXEL });
}

#[test]
fn fit_is_anchored_at_center() {
    let mut v = viewer(1600, 600);
    v.pan(Point2 { x: 100, y: 100 });
    v.fit();
    // The viewport center is the anchor, so the offset is kept.
    assert_eq!(v.offset(), Point2 { x: 200, y: 200 });
    assert_eq!(v.scale(), 500_000);
    assert_eq!(v.image_size(), Some((1600, 600)));
}

#[test]
fn fit_with_odd_viewport_keeps_offset() {
    let mut v = ViewProgram::new();
    v.set_bounds(101, 100);
    v.set_image(ImageData::new(vec![0u8; 1000 * 1000 * 4], 1000, 1000, ImageId::new(1)));
    v.fit();
    assert_eq!(v.scale(), 1_562);
    assert_eq!(v.offset(), Point2 { x: 0, y: 0 });
}

#[test]
fn fit_clamps_offset_to_new_image() {
    let mut v = viewer(1000, 1000);
    v.pan(Point2 { x: 20_000, y: -20_000 });
    assert_eq!(v.offset(), Point2 { x: 40_000, y: -40_000 });
    v.set_image(ImageData::new(vec![0u8; 100 * 100 * 4], 100, 100, ImageId::new(2)));
    v.fit();
    assert_eq!(v.offset(), Point2 { x: 100 * SUBPIXEL, y: -100 * SUBPIXEL });
    assert_eq!(v.scale(), 6 * SCALE_ONE);
}

#[test]
fn empty_viewer_has_no_image() {
    let v = ViewProgram::new();
    assert_eq!(v.image_size(), None);
    assert_eq!(v.animation_info(), None);
    assert_eq!(v.time_until_next_frame(0), None);
    assert!(v.image().is_none());
}

#[test]
fn animation_catches_up_missed_frames() {
    let start = 1_000;
    let mut a = Animation::new(frames(&[100, 50, 200]), start);
    assert_eq!(a.current_index(), 0);
    assert_eq!(a.frame_count(), 3);
    assert!(a.tick(start + 99 * MS).is_none());
    let f = a.tick(start + 340 * MS).unwrap();
    assert_eq!(a.current_index(), 2);
    assert_eq!(f.id, ImageId::new(2));
    assert_eq!(a.time_until_next_frame(start + 340 * MS), 10 * MS);
    assert!(a.tick(start + 349 * MS).is_none());
    let f = a.tick(start + 350 * MS).unwrap();
    assert_eq!(f.id, ImageId::new(0));
    assert_eq!(a.current_index(), 0);
}

#[test]
fn animation_wraps_over_several_cycles() {
    let mut a = Animation::new(frames(&[100, 50, 200]), 0);
    // 350 ms per cycle: at 1000 ms, three cycles (1050 ms) end within frame 2's span.
    a.tick(1000 * MS);
    assert_eq!(a.current_index(), 2);
    assert_eq!(a.time_until_next_frame(1000 * MS), 50 * MS);
    assert_eq!(a.time_until_next_frame(2000 * MS), 0);
}

#[test]
fn viewer_follows_animation_frames() {
    let mut v = ViewProgram::new();
    let anim = Animation::new(frames(&[100, 100]), 0);
    v.set_animation(anim);
    assert_eq!(v.animation_info(), Some((0, 2)));
    assert_eq!(v.image().as_ref().unwrap().id, ImageId::new(0));
    v.tick_animation(150 * MS);
    assert_eq!(v.animation_info(), Some((1, 2)));
    assert_eq!(v.image().as_ref().unwrap().id, ImageId::new(1));
    assert_eq!(v.time_until_next_frame(150 * MS), Some(50 * MS));
    v.set_image(pixel(7));
    assert_eq!(v.animation_info(), None);
}

#[test]
fn malformed_delays_use_the_fallback() {
    assert_eq!(frame_delay_nanos(0), 100 * MS);
    assert_eq!(frame_delay_nanos(19), 100 * MS);
    assert_eq!(frame_delay_nanos(20), 20 * MS);
    assert_eq!(frame_delay_nanos(70), 70 * MS);
    assert_eq!(frame_delay_nanos(u64::MAX), u64::MAX);
}

#[test]
fn pointer_drag_pans_with_y_up() {
    let mut st = ViewProgramState::Idle;
    let (w, h) = (800 * SUBPIXEL, 600 * SUBPIXEL);
    assert_eq!(st.handle(ViewInput::CursorMoved { position: Point2 { x: 5, y: 5 } }, w, h), None);
    assert_eq!(st.handle(ViewInput::PrimaryPressed { over: None }, w, h), None);
    assert_eq!(
        st.handle(ViewInput::PrimaryPressed { over: Some(Point2 { x: 10, y: 20 }) }, w, h),
        Some(ViewCommand::Capture)
    );
    assert_eq!(st, ViewProgramState::Panning(Point2 { x: 10, y: 20 }));
    assert_eq!(
        st.handle(ViewInput::CursorMoved { position: Point2 { x: 15, y: 12 } }, w, h),
        Some(ViewCommand::Pan(Point2 { x: 5, y: 8 }))
    );
    assert_eq!(st.handle(ViewInput::PrimaryReleased, w, h), Some(ViewCommand::Capture));
    assert_eq!(st, ViewProgramState::Idle);
    assert_eq!(st.handle(ViewInput::PrimaryReleased, w, h), None);
}

#[test]
fn keys_and_wheel_zoom() {
    let mut st = ViewProgramState::Idle;
    let (w, h) = (800, 600);
    let center = Point2 { x: 400, y: 300 };
    let key = |k| ViewInput::KeyPressed { control: true, key: k };
    assert_eq!(st.handle(key(ViewKey::Equal), w, h), Some(ViewCommand::ScaleUp(center)));
    assert_eq!(st.handle(key(ViewKey::Minus), w, h), Some(ViewCommand::ScaleDown(center)));
    assert_eq!(st.handle(key(ViewKey::Digit(0)), w, h), Some(ViewCommand::Fit));
    assert_eq!(st.handle(key(ViewKey::Digit(4)), w, h), Some(ViewCommand::SetScale(4 * SCALE_ONE)));
    assert_eq!(st.handle(key(ViewKey::Other), w, h), None);
    assert_eq!(
        st.handle(ViewInput::KeyPressed { control: false, key: ViewKey::Equal }, w, h),
        None
    );
    let p = Point2 { x: 1, y: 2 };
    assert_eq!(
        st.handle(ViewInput::WheelScrolled { upward: true, at: Some(p) }, w, h),
        Some(ViewCommand::ScaleUp(p))
    );
    assert_eq!(
        st.handle(ViewInput::WheelScrolled { upward: false, at: Some(p) }, w, h),
        Some(ViewCommand::ScaleDown(p))
    );
    assert_eq!(st.handle(ViewInput::WheelScrolled { upward: true, at: None }, w, h), None);
}

#[test]
fn typed_percentages() {
    assert_eq!(percent_scale("150"), Some(1_500_000));
    assert_eq!(percent_scale("+25"), Some(250_000));
    assert_eq!(percent_scale("1"), Some(10_000));
    assert_eq!(percent_scale("0"), None);
    assert_eq!(percent_scale(""), None);
    assert_eq!(percent_scale("+"), None);
    assert_eq!(percent_scale("-5"), None);
    assert_eq!(percent_scale("12a"), None);
    assert_eq!(percent_scale("4294967295"), Some(4_294_967_295 * 10_000));
    assert_eq!(percent_scale("4294967296"), None);
    assert_eq!(percent_scale(" 5"), None);
}

#[test]
fn only_the_latest_load_is_taken() {
    let mut g = LoadGenerations::new();
    assert_eq!(g.latest(), 0);
    let first = g.begin();
    let second = g.begin();
    assert_eq!((first, second), (1, 2));
    assert!(!g.is_current(first));
    assert!(g.is_current(second));
}

#[test]
fn tiles_outside_the_viewport_are_culled() {
    let tiles = tile_grid(9000, 4000, 4096);
    let viewport = Point2 { x: 800 * SUBPIXEL, y: 600 * SUBPIXEL };
    let origin = Point2 { x: 0, y: 0 };
    let shown: Vec<bool> =
        tiles.iter().map(|t| tile_visible(SCALE_ONE, origin, viewport, 9000, 4000, *t)).collect();
    assert_eq!(shown, vec![false, true, false]);
    let zoomed_out = SCALE_ONE / 10;
    assert!(tiles.iter().all(|t| tile_visible(zoomed_out, origin, viewport, 9000, 4000, *t)));
    // Panning right by the whole image brings the first tile into view.
    let panned = Point2 { x: 4904 * SUBPIXEL, y: 0 };
    assert!(tile_visible(SCALE_ONE, panned, viewport, 9000, 4000, tiles[0]));
    assert!(!tile_visible(SCALE_ONE, panned, viewport, 9000, 4000, tiles[2]));
}
