use wgpu_pcd::camera::{Key, Position};
use wgpu_pcd::surface::PhysicalSize;
use wgpu_pcd::viewer::{EventResponse, RenderResponse, RenderStatus, ViewState, WindowEvent};

fn size(width: u32, height: u32) -> PhysicalSize {
    PhysicalSize { width, height }
}

#[test]
fn no_frame_before_the_first_resize() {
    let mut s = ViewState::new(size(800, 600));
    assert_eq!(s.handle_event(&WindowEvent::RedrawRequested), EventResponse::Redraw { render: false });
    assert_eq!(s.handle_event(&WindowEvent::Resized(size(1024, 768))), EventResponse::Reconfigure(size(1024, 768)));
    assert_eq!(s.size, size(1024, 768));
    assert_eq!(s.handle_event(&WindowEvent::RedrawRequested), EventResponse::Redraw { render: true });
}

#[test]
fn zero_sized_resize_configures_but_keeps_size() {
    let mut s = ViewState::new(size(800, 600));
    assert_eq!(s.handle_event(&WindowEvent::Resized(size(0, 600))), EventResponse::Ignored);
    assert!(s.surface_configured);
    assert_eq!(s.size, size(800, 600));
    assert_eq!(s.handle_event(&WindowEvent::RedrawRequested), EventResponse::Redraw { render: true });
}

#[test]
fn resize_takes_only_drawable_sizes() {
    let mut s = ViewState::new(size(800, 600));
    assert!(!s.resize(size(0, 0)));
    assert!(!s.resize(size(10, 0)));
    assert_eq!(s.size, size(800, 600));
    assert!(s.resize(size(10, 20)));
    assert!(s.resize(size(10, 20)));
    assert_eq!(s.size, size(10, 20));
}

#[test]
fn exit_on_close_and_escape() {
    let mut s = ViewState::new(size(800, 600));
    let before = s;
    assert_eq!(s.handle_event(&WindowEvent::CloseRequested), EventResponse::Exit);
    assert_eq!(s.handle_event(&WindowEvent::KeyPressed(Key::Escape)), EventResponse::Exit);
    assert_eq!(s, before);
}

#[test]
fn keys_move_the_camera() {
    let mut s = ViewState::new(size(800, 600));
    assert_eq!(s.handle_event(&WindowEvent::KeyPressed(Key::PageUp)), EventResponse::CameraMoved);
    assert_eq!(s.rig.camera, Position { x: 0, y: 0, z: 14 });
    assert_eq!(s.handle_event(&WindowEvent::KeyPressed(Key::Other)), EventResponse::Ignored);
    assert_eq!(s.handle_event(&WindowEvent::Other), EventResponse::Ignored);
    assert!(!s.input(&WindowEvent::RedrawRequested));
    assert!(s.input(&WindowEvent::KeyPressed(Key::PageDown)));
    assert_eq!(s.rig.camera, Position { x: 0, y: 0, z: 10 });
}

#[test]
fn render_failures() {
    let mut s = ViewState::new(size(800, 600));
    assert_eq!(s.handle_render_status(RenderStatus::Presented), RenderResponse::Continue);
    assert_eq!(s.handle_render_status(RenderStatus::Lost), RenderResponse::Reconfigure(size(800, 600)));
    assert_eq!(s.handle_render_status(RenderStatus::Outdated), RenderResponse::Reconfigure(size(800, 600)));
    assert_eq!(s.handle_render_status(RenderStatus::OutOfMemory), RenderResponse::Exit);
    assert_eq!(s.handle_render_status(RenderStatus::Other), RenderResponse::Exit);
    assert_eq!(s.handle_render_status(RenderStatus::Timeout), RenderResponse::Warn);
    let mut z = ViewState::new(size(0, 0));
    assert_eq!(z.handle_render_status(RenderStatus::Lost), RenderResponse::Continue);
}
