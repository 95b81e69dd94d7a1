use screenshare::capture::Frame;
use screenshare::renderer::{
    GpuState, Renderer, ResumeAction, SurfaceFormat, TextureUpdate, WindowAction, WindowEvent,
};

fn frame(width: u32, height: u32, mark: u8) -> Frame {
    Frame { data: vec![mark; (width * height * 4) as usize], width, height }
}

fn running() -> Renderer {
    let mut renderer = Renderer::new();
    assert_eq!(renderer.resumed(true), ResumeAction::AwaitFrame);
    let first = frame(2, 2, 1);
    let gpu = GpuState::new(1280, 720, &vec![SurfaceFormat::Other], 1, &first);
    assert_eq!(renderer.first_frame(first, Some(gpu)), ResumeAction::Run);
    renderer
}

#[test]
fn surface_prefers_the_format_of_frames() {
    let formats = vec![SurfaceFormat::Other, SurfaceFormat::Bgra8Unorm, SurfaceFormat::Bgra8Unorm];
    let gpu = GpuState::new(0, 7, &formats, 2, &frame(3, 4, 0));
    assert_eq!(gpu.config.format, 1);
    assert_eq!(gpu.config.alpha_mode, 0);
    assert_eq!((gpu.config.width, gpu.config.height), (1, 7));
    assert_eq!(gpu.config.frame_latency, 2);
    assert_eq!((gpu.tex_width, gpu.tex_height), (3, 4));
    let others = vec![SurfaceFormat::Other, SurfaceFormat::Other];
    assert_eq!(GpuState::new(1, 1, &others, 1, &frame(1, 1, 0)).config.format, 0);
}

#[test]
fn texture_is_made_anew_when_the_size_changes() {
    let mut gpu = GpuState::new(1, 1, &vec![SurfaceFormat::Other], 1, &frame(2, 2, 0));
    assert_eq!(
        gpu.update_frame(&frame(2, 2, 0)),
        TextureUpdate::Write { bytes_per_row: 8, width: 2, height: 2 }
    );
    assert_eq!(gpu.update_frame(&frame(2, 3, 0)), TextureUpdate::Recreate { width: 2, height: 3 });
    assert_eq!(
        gpu.update_frame(&frame(2, 3, 0)),
        TextureUpdate::Write { bytes_per_row: 8, width: 2, height: 3 }
    );
}

#[test]
fn window_without_area_changes_nothing() {
    let mut gpu = GpuState::new(5, 6, &vec![SurfaceFormat::Other], 1, &frame(1, 1, 0));
    let before = gpu;
    assert!(!gpu.resize(0, 9));
    assert!(!gpu.resize(9, 0));
    assert_eq!(gpu, before);
    assert!(gpu.resize(8, 9));
    assert_eq!((gpu.config.width, gpu.config.height), (8, 9));
}

#[test]
fn latest_frame_is_shown_once() {
    let mut renderer = running();
    assert!(renderer.about_to_wait(vec![frame(2, 2, 5), frame(2, 2, 6)]));
    assert!(renderer.about_to_wait(vec![]));
    match renderer.window_event(WindowEvent::RedrawRequested) {
        WindowAction::RedrawFrame(shown, update) => {
            assert_eq!(shown.data[0], 6);
            assert_eq!(update, TextureUpdate::Write { bytes_per_row: 8, width: 2, height: 2 });
        }
        _ => panic!("no frame"),
    }
    assert!(matches!(renderer.window_event(WindowEvent::RedrawRequested), WindowAction::Redraw));
    renderer.about_to_wait(vec![frame(4, 1, 7)]);
    match renderer.window_event(WindowEvent::RedrawRequested) {
        WindowAction::RedrawFrame(shown, update) => {
            assert_eq!(shown.data[0], 7);
            assert_eq!(update, TextureUpdate::Recreate { width: 4, height: 1 });
        }
        _ => panic!("no frame"),
    }
}

#[test]
fn frames_that_are_dropped_are_not_measured() {
    let mut renderer = running();
    let wide = Frame { data: vec![], width: u32::MAX, height: 0 };
    assert!(renderer.about_to_wait(vec![wide, frame(2, 2, 8)]));
    assert_eq!(renderer.pending.unwrap().data[0], 8);
}

#[test]
fn first_frame_is_shown_first() {
    match running().window_event(WindowEvent::RedrawRequested) {
        WindowAction::RedrawFrame(shown, _) => assert_eq!(shown.data[0], 1),
        _ => panic!("no frame"),
    }
}

#[test]
fn window_events_lead_to_actions() {
    let mut renderer = running();
    assert!(matches!(renderer.window_event(WindowEvent::CloseRequested), WindowAction::Exit));
    match renderer.window_event(WindowEvent::Resized { width: 10, height: 20 }) {
        WindowAction::Reconfigure(config) => assert_eq!((config.width, config.height), (10, 20)),
        _ => panic!("not reconfigured"),
    }
    assert!(matches!(
        renderer.window_event(WindowEvent::Resized { width: 10, height: 0 }),
        WindowAction::Nothing
    ));
    assert!(matches!(renderer.window_event(WindowEvent::Other), WindowAction::Nothing));
}

#[test]
fn nothing_is_drawn_before_the_graphics_are_set_up() {
    let mut renderer = Renderer::new();
    assert!(!renderer.about_to_wait(vec![frame(1, 1, 0)]));
    assert!(matches!(renderer.window_event(WindowEvent::RedrawRequested), WindowAction::Nothing));
    assert!(matches!(
        renderer.window_event(WindowEvent::Resized { width: 1, height: 1 }),
        WindowAction::Nothing
    ));
    assert!(renderer.pending.is_some());
}

#[test]
fn without_window_or_graphics_the_program_leaves() {
    let mut renderer = Renderer::new();
    assert_eq!(renderer.resumed(false), ResumeAction::Exit);
    assert!(!renderer.window);
    assert_eq!(renderer.resumed(true), ResumeAction::AwaitFrame);
    assert!(renderer.window);
    assert_eq!(renderer.first_frame(frame(1, 1, 0), None), ResumeAction::Exit);
    assert!(renderer.gpu.is_none());
}
