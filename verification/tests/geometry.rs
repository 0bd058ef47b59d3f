use eluma::host::geometry::{monitors_bounding_box, service_frame, PhysicalRect};

/// The sidebar's logical width.
const SIDEBAR_WIDTH: f64 = 64.0;

/// A service frame for a main window at `position` of `size` on a display
/// with `scale_factor`: the sidebar's physical width is its logical width
/// times the scale, rounded.
fn frame(
    position: (i32, i32),
    size: (u32, u32),
    scale_factor: f64,
    monitors: &[PhysicalRect],
    active: bool,
) -> Option<PhysicalRect> {
    let sidebar = SIDEBAR_WIDTH * scale_factor;
    if !sidebar.is_finite() || sidebar < 0.0 {
        return None;
    }
    service_frame(position, size, sidebar.round() as u64, monitors, active)
}

fn monitor(x: i32, y: i32, width: u32, height: u32) -> PhysicalRect {
    PhysicalRect { x, y, width, height }
}

#[test]
fn active_frame_at_scale_1_0() {
    let f = frame((100, 50), (1000, 700), 1.0, &[], true);
    assert_eq!(f, Some(PhysicalRect { x: 164, y: 50, width: 936, height: 700 }));
}

#[test]
fn active_frame_at_scale_2_0() {
    let f = frame((200, 100), (2000, 1400), 2.0, &[], true);
    assert_eq!(f, Some(PhysicalRect { x: 328, y: 100, width: 1872, height: 1400 }));
}

#[test]
fn active_frame_with_negative_parent_position() {
    let f = frame((-500, -300), (1000, 700), 1.0, &[], true);
    assert_eq!(f, Some(PhysicalRect { x: -436, y: -300, width: 936, height: 700 }));
}

#[test]
fn zero_width_is_none() {
    assert_eq!(frame((0, 0), (0, 700), 1.0, &[], true), None);
}

#[test]
fn zero_height_is_none() {
    assert_eq!(frame((0, 0), (1000, 0), 1.0, &[], true), None);
}

#[test]
fn parent_no_wider_than_sidebar_is_none() {
    assert_eq!(frame((0, 0), (64, 700), 1.0, &[], true), None);
    assert_eq!(frame((0, 0), (10, 700), 1.0, &[], true), None);
}

#[test]
fn parent_no_wider_than_sidebar_is_none_when_inactive_too() {
    let monitors = [monitor(0, 0, 1920, 1080)];
    assert_eq!(frame((0, 0), (64, 700), 1.0, &monitors, false), None);
}

#[test]
fn offscreen_frame_sits_left_of_single_monitor() {
    let monitors = [monitor(0, 0, 1920, 1080)];
    let f = frame((0, 0), (1000, 700), 1.0, &monitors, false);
    assert_eq!(f, Some(PhysicalRect { x: -936, y: 0, width: 936, height: 700 }));
}

#[test]
fn offscreen_frame_sits_left_of_the_bounding_box_of_several_monitors() {
    let monitors = [monitor(0, 0, 1920, 1080), monitor(1920, -200, 1080, 1920)];
    let f = frame((0, 0), (1000, 700), 1.0, &monitors, false);
    assert_eq!(f, Some(PhysicalRect { x: -936, y: 0, width: 936, height: 700 }));
}

#[test]
fn offscreen_frame_accounts_for_a_monitor_left_of_the_origin() {
    let monitors = [monitor(0, 0, 1920, 1080), monitor(-1920, 0, 1920, 1080)];
    let f = frame((0, 0), (1000, 700), 1.0, &monitors, false);
    assert_eq!(f, Some(PhysicalRect { x: -1920 - 936, y: 0, width: 936, height: 700 }));
}

#[test]
fn offscreen_frame_never_overlaps_any_monitor() {
    let monitor_sets: [&[PhysicalRect]; 3] = [
        &[monitor(0, 0, 1920, 1080)],
        &[monitor(0, 0, 1920, 1080), monitor(1920, 0, 1080, 1920)],
        &[monitor(-1920, 0, 1920, 1080), monitor(0, 0, 2560, 1440)],
    ];
    for monitors in monitor_sets {
        let bbox = monitors_bounding_box(monitors).expect("non-empty monitor set");
        let f = frame((0, 0), (1000, 700), 1.0, monitors, false).expect("valid parent geometry");
        assert!(f.x + f.width as i32 <= bbox.x, "offscreen frame {f:?} overlaps monitor bounding box {bbox:?}");
    }
}

#[test]
fn empty_monitors_is_none_when_inactive() {
    assert_eq!(frame((0, 0), (1000, 700), 1.0, &[], false), None);
}

#[test]
fn active_frame_ignores_monitors() {
    assert_eq!(
        frame((0, 0), (1000, 700), 1.0, &[], true),
        frame((0, 0), (1000, 700), 1.0, &[monitor(0, 0, 1920, 1080)], true)
    );
}

#[test]
fn bounding_box_spans_every_monitor() {
    let monitors = [monitor(0, 0, 1920, 1080), monitor(1920, -200, 1080, 1920)];
    assert_eq!(monitors_bounding_box(&monitors), Some(PhysicalRect { x: 0, y: -200, width: 3000, height: 1920 }));
    assert_eq!(monitors_bounding_box(&[]), None);
}

#[test]
fn far_away_monitors_clamp_the_box_size() {
    let monitors = [monitor(i32::MIN, 0, 10, 10), monitor(i32::MAX, 0, u32::MAX, 10)];
    let bbox = monitors_bounding_box(&monitors).expect("non-empty");
    assert_eq!(bbox.x, i32::MIN);
    assert_eq!(bbox.width, u32::MAX);
}
