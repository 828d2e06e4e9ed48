use scene_core::Camera;
use scene_core::UI;

#[test]
fn camera_new_records_parameters() {
    let camera: Camera<f32, u8> = Camera::new(1.5, 0.9, 1.0, 200.0, 42);
    assert_eq!(camera.proj.aspect, 1.5);
    assert_eq!(camera.proj.fovy, 0.9);
    assert_eq!(camera.proj.znear, 1.0);
    assert_eq!(camera.proj.zfar, 200.0);
    assert_eq!(camera.view, 42);
}

#[test]
fn recalculate_changes_only_aspect() {
    let mut camera: Camera<f32, u8> = Camera::new(1.5, 0.9, 1.0, 200.0, 42);
    camera.recalculate(2.0);
    assert_eq!(camera.proj.aspect, 2.0);
    assert_eq!(camera.proj.fovy, 0.9);
    assert_eq!(camera.proj.znear, 1.0);
    assert_eq!(camera.proj.zfar, 200.0);
    assert_eq!(camera.view, 42);
}

#[test]
fn set_view_replaces_only_view() {
    let mut camera: Camera<f32, u8> = Camera::new(1.5, 0.9, 1.0, 200.0, 42);
    camera.set_view(7);
    assert_eq!(camera.view, 7);
    assert_eq!(camera.proj.aspect, 1.5);
    assert_eq!(camera.proj.fovy, 0.9);
}

#[test]
fn ui_records_aspect() {
    let ui: UI<f32> = UI::new(1.25);
    assert_eq!(ui.proj.aspect, 1.25);
}
