//! The camera: following, world-bounds clamping, and re-centering.

use platformrs::camera::{Camera, FOLLOW_MARGIN};
use platformrs::config::Config;
use platformrs::error::Error;
use platformrs::rect::Rect;

#[test]
fn camera_does_not_move_for_a_target_inside_the_margin_band() {
    let cam = Camera::new(Rect::new(0, 0, 4000, 3000));
    // Comfortably inside [margin, view - margin].
    let target = Rect::new(2000, 1500, 100, 100);
    assert_eq!(cam.get_offset(Some(&target)), (0, 0));
}

#[test]
fn camera_follows_a_target_leaving_the_band() {
    let cam = Camera::new(Rect::new(0, 0, 4000, 3000));
    // Past the left margin: the view is pulled left just far enough.
    let target = Rect::new(500, 1500, 100, 100);
    let (x, y) = cam.get_offset(Some(&target));
    assert_eq!(x, 500 - FOLLOW_MARGIN);
    assert_eq!(y, 0);
    // Past the right margin: pulled right just far enough.
    let target = Rect::new(3800, 1500, 100, 100);
    let (x, _) = cam.get_offset(Some(&target));
    assert_eq!(x, 3800 + 100 + FOLLOW_MARGIN - 4000);
}

#[test]
fn camera_without_target_keeps_its_offset() {
    let cam = Camera::new(Rect::new(70, 80, 4000, 3000));
    assert_eq!(cam.get_offset(None), (70, 80));
}

#[test]
fn camera_clamps_to_world_bounds() {
    // A world of 10000 x 8000 with the view in its top-left corner.
    let cam = Camera::new(Rect::new(0, 0, 4000, 3000)).with_bounds(Rect::new(0, 0, 10000, 8000));
    // Target near the world's left edge: following would push the view
    // to negative x; the bounds clamp holds it at zero.
    let target = Rect::new(100, 1500, 100, 100);
    assert_eq!(cam.get_offset(Some(&target)), (0, 0));

    // Target near the right edge: the view stops at world width.
    let cam = Camera::new(Rect::new(5000, 4000, 4000, 3000)).with_bounds(
        Rect::new(0, 0, 10000, 8000),
    );
    let target = Rect::new(9900, 7900, 100, 100);
    let (x, y) = cam.get_offset(Some(&target));
    assert_eq!(x + 4000, 10000);
    assert_eq!(y + 3000, 8000);
}

#[test]
fn camera_centers_when_the_viewport_exceeds_the_world() {
    // The world is narrower than the view: center on the target's x
    // midpoint; the y axis still clamps normally.
    let cam = Camera::new(Rect::new(0, 0, 4000, 3000)).with_bounds(Rect::new(0, 0, 3000, 8000));
    let target = Rect::new(1000, 4000, 200, 100);
    let (x, y) = cam.get_offset(Some(&target));
    assert_eq!(x, 1000 + 100 - 2000);
    assert_eq!(y, 4000 + 100 + FOLLOW_MARGIN - 3000);
}

#[test]
fn update_commits_the_offset_and_negates_the_translation() {
    let mut cam = Camera::new(Rect::new(0, 0, 4000, 3000));
    let target = Rect::new(500, 1500, 100, 100);
    let t = cam.update(Some(&target));
    assert_eq!(t.translate_x, -(500 - FOLLOW_MARGIN));
    assert_eq!(t.translate_y, 0);
    // Committed: the same target now keeps the view still.
    assert_eq!(cam.get_offset(Some(&target)), (500 - FOLLOW_MARGIN, 0));
}

#[test]
fn get_transform_does_not_commit() {
    let mut cam = Camera::new(Rect::new(0, 0, 4000, 3000));
    let target = Rect::new(500, 1500, 100, 100);
    let t = cam.get_transform(Some(&target));
    assert_eq!(t.translate_x, -(500 - FOLLOW_MARGIN));
    // Not committed: without a target the camera still reports its old
    // offset.
    assert_eq!(cam.get_offset(None), (0, 0));
    let t2 = cam.update(None);
    assert_eq!(t2.translate_x, 0);
}

#[test]
fn config_defaults_cover_the_demo_world_viewport() {
    let c = Config::new();
    assert_eq!(c.tilesize, 700);
    assert_eq!(c.screen_width, 700 * 18);
    assert_eq!(c.screen_height, 700 * 15);
}

#[test]
fn error_kinds_carry_their_message() {
    let io = Error::Io("file missing".to_owned());
    let decode = Error::Decode("bad document".to_owned());
    let backend = Error::Backend("device lost".to_owned());
    assert_eq!(io.message().as_str(), "file missing");
    assert_eq!(decode.message().as_str(), "bad document");
    assert_eq!(backend.message().as_str(), "device lost");
    assert!(io.same_kind(&Error::Io(String::new())));
    assert!(!io.same_kind(&decode));
    assert!(!decode.same_kind(&backend));
}
