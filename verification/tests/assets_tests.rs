use bongo_display::assets::{emit_assets, poses_for, PoseConfig};
use bongo_display::canvas::Canvas;
use bongo_display::nice_view::{AnimationWidget, BongoCat, NiceViewDisplaySpec};
use bongo_display::pose::Pose;

fn solid_canvas(width: u32, height: u32, rgba: [u8; 4]) -> Canvas {
    let mut pixels = Vec::new();
    for _ in 0..(width as usize * height as usize) {
        pixels.extend_from_slice(&rgba);
    }
    Canvas { width, height, pixels }
}

#[test]
fn poses_for_default_only() {
    let cfg = PoseConfig { left: false, right: false, both: false };
    assert_eq!(poses_for(&cfg), vec![Pose::Default]);
}

#[test]
fn poses_for_both_config() {
    // The configuration the firmware ships: default plus both-up.
    let cfg = PoseConfig { left: false, right: false, both: true };
    assert_eq!(poses_for(&cfg), vec![Pose::Default, Pose::BothUp]);
}

#[test]
fn poses_for_all_poses() {
    let cfg = PoseConfig { left: true, right: true, both: true };
    assert_eq!(
        poses_for(&cfg),
        vec![Pose::Default, Pose::LeftUp, Pose::RightUp, Pose::BothUp]
    );
}

#[test]
fn emit_assets_binds_requested_poses() {
    let white = solid_canvas(10, 2, [255, 255, 255, 255]);
    let black = solid_canvas(10, 2, [0, 0, 0, 255]);
    let assets = emit_assets(&white, None, None, Some(&black));
    assert_eq!(assets.width, 10);
    assert_eq!(assets.height, 2);
    assert!(assets.left_up.is_none());
    assert!(assets.right_up.is_none());
    let both = assets.both_up.as_ref().unwrap();
    assert_eq!(both.bytes, vec![0xFF, 0xC0, 0xFF, 0xC0]);
    assert_eq!(assets.default_bitmap.bytes, vec![0x00, 0x00, 0x00, 0x00]);
}

#[test]
fn bitmap_selection_and_fallback() {
    let white = solid_canvas(8, 1, [255, 255, 255, 255]);
    let black = solid_canvas(8, 1, [0, 0, 0, 255]);
    let assets = emit_assets(&white, None, None, Some(&black));
    assert!(assets.bitmap_for(Pose::Default).is_some());
    assert!(assets.bitmap_for(Pose::LeftUp).is_none());
    assert!(assets.bitmap_for(Pose::BothUp).is_some());
    // A pose that was not compiled falls back to the default bitmap.
    assert_eq!(assets.frame_bitmap(Pose::LeftUp).bytes, vec![0x00]);
    assert_eq!(assets.frame_bitmap(Pose::BothUp).bytes, vec![0xFF]);
}

#[test]
fn widget_parity_selects_frame() {
    let widget = BongoCat::new();
    assert_eq!(widget.frame_pose(), Pose::Default);
    let widget = widget.set(1);
    assert_eq!(widget.frame_pose(), Pose::BothUp);
    let widget = widget.set(2);
    assert_eq!(widget.frame_pose(), Pose::Default);
    // Only the value's parity matters.
    let widget = widget.set(255);
    assert_eq!(widget.frame_pose(), Pose::BothUp);
}

#[test]
fn nice_view_geometry() {
    assert_eq!(NiceViewDisplaySpec::WIDTH, 160);
    assert_eq!(NiceViewDisplaySpec::HEIGHT, 68);
    assert_eq!(NiceViewDisplaySpec::SIZE, 5440);
}
