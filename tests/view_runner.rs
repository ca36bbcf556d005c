use raytracer::camera::{Point, PHI_LIMIT};
use raytracer::color::Color;
use raytracer::runner::{
    column_chunk_width, column_ranges, Action, CursorPosition, InputEvent, RaytracingRunner, MAX_SAMPLES,
    ROTATION_PER_PIXEL,
};
use raytracer::texture::ColorColumnRange;

fn runner() -> RaytracingRunner {
    RaytracingRunner::new(4, 3, Point { x: 0, y: 0, z: 0 })
}

#[test]
fn runner_starts_still() {
    let r = runner();
    assert_eq!(r.get_texture_size(), [4, 3]);
    let c = r.camera();
    assert_eq!((c.theta, c.phi, c.radius), (0, 0, 1_000_000));
    assert_eq!(MAX_SAMPLES, 100000);
}

#[test]
fn drag_rotates_camera() {
    let mut r = runner();
    assert_eq!(r.handle_event(InputEvent::CursorMoved { x: 10, y: 10 }), Action::Continue);
    assert_eq!(r.camera().theta, 0);
    r.handle_event(InputEvent::ButtonDown);
    r.handle_event(InputEvent::CursorMoved { x: 10, y: 10 });
    assert_eq!(r.camera().theta, 0);
    r.handle_event(InputEvent::CursorMoved { x: 13, y: 8 });
    assert_eq!(r.camera().theta, 3 * ROTATION_PER_PIXEL);
    assert_eq!(r.camera().phi, -2 * ROTATION_PER_PIXEL);
    r.handle_event(InputEvent::ButtonUp);
    r.handle_event(InputEvent::CursorMoved { x: 100, y: 100 });
    assert_eq!(r.camera().theta, 3 * ROTATION_PER_PIXEL);
    r.handle_event(InputEvent::ButtonDown);
    // the first move after a new press only records the position
    r.handle_event(InputEvent::CursorMoved { x: 50, y: 50 });
    assert_eq!(r.camera().theta, 3 * ROTATION_PER_PIXEL);
    r.handle_event(InputEvent::CursorMoved { x: 50, y: 1_000_000 });
    assert_eq!(r.camera().phi, PHI_LIMIT);
}

#[test]
fn scroll_zooms() {
    let mut r = runner();
    r.handle_event(InputEvent::ScrollDelta { amount: 1000 });
    assert_eq!(r.camera().radius, 900_000);
    r.handle_event(InputEvent::ScrollDelta { amount: -1 });
    assert_eq!(r.camera().radius, 990_000);
}

#[test]
fn close_request_stops() {
    let mut r = runner();
    assert_eq!(r.handle_event(InputEvent::CloseRequested), Action::Stop);
    assert_eq!(r.handle_event(InputEvent::Other), Action::Continue);
    let events = vec![InputEvent::ButtonDown, InputEvent::CloseRequested, InputEvent::ScrollDelta { amount: 1 }];
    assert_eq!(r.handle_events(&events), Action::Stop);
    assert_eq!(r.camera().radius, 900_000);
    let events = vec![InputEvent::ButtonUp, InputEvent::Other];
    assert_eq!(r.handle_events(&events), Action::Continue);
    assert_eq!(r.handle_events(&vec![]), Action::Continue);
}

#[test]
fn camera_move_clears_image_after_next_frame() {
    let mut r = runner();
    let _ = r.update_frame();
    let range = ColorColumnRange { starting_column: 0, color_columns: vec![vec![Color::new(8, 8, 8)]] };
    assert!(r.add_color_range(range));
    assert_eq!(r.update_frame()[0], Color::new(8, 8, 8));
    // a press and a first move do not move the camera
    r.handle_event(InputEvent::ButtonDown);
    r.handle_event(InputEvent::CursorMoved { x: 1, y: 1 });
    assert_eq!(r.update_frame()[0], Color::new(8, 8, 8));
    r.handle_event(InputEvent::CursorMoved { x: 2, y: 1 });
    assert_eq!(r.update_frame()[0], Color::new(8, 8, 8));
    assert_eq!(r.update_frame()[0], Color::zero());
}

#[test]
fn misfit_ranges_are_dropped() {
    let mut r = runner();
    let _ = r.update_frame();
    let too_wide = ColorColumnRange { starting_column: 3, color_columns: vec![vec![Color::white()], vec![Color::white()]] };
    assert!(!r.add_color_range(too_wide));
    let too_tall = ColorColumnRange { starting_column: 0, color_columns: vec![vec![Color::white(); 4]] };
    assert!(!r.add_color_range(too_tall));
    let past_end = ColorColumnRange { starting_column: 9, color_columns: vec![] };
    assert!(!r.add_color_range(past_end));
    assert!(r.update_frame().iter().all(|c| *c == Color::zero()));
    let last = ColorColumnRange { starting_column: 3, color_columns: vec![vec![Color::white(); 3]] };
    assert!(r.add_color_range(last));
    let frame = r.update_frame();
    assert_eq!(frame[3], Color::white());
    assert_eq!(frame[2 * 4 + 3], Color::white());
    assert_eq!(frame[2], Color::zero());
}

#[test]
fn column_ranges_split_evenly() {
    assert_eq!(column_ranges(10, 3), vec![(0, 3), (3, 6), (6, 9), (9, 10)]);
    assert_eq!(column_ranges(9, 3), vec![(0, 3), (3, 6), (6, 9)]);
    assert_eq!(column_ranges(0, 3), vec![]);
    assert_eq!(column_ranges(3, 1), vec![(0, 1), (1, 2), (2, 3)]);
    assert_eq!(column_ranges(2, 5), vec![(0, 2)]);
    assert_eq!(column_ranges(u32::MAX, u32::MAX - 1), vec![(0, u32::MAX - 1), (u32::MAX - 1, u32::MAX)]);
}

#[test]
fn chunk_width_is_at_least_one() {
    assert_eq!(column_chunk_width(600, 16), 37);
    assert_eq!(column_chunk_width(10, 16), 1);
    assert_eq!(column_chunk_width(10, 0), 1);
    assert_eq!(column_chunk_width(0, 4), 1);
}

#[test]
fn cursor_position_is_remembered_only_while_pressed() {
    let mut r = runner();
    r.handle_event(InputEvent::ButtonDown);
    r.handle_event(InputEvent::CursorMoved { x: 3, y: 4 });
    let _ = CursorPosition { x: 3, y: 4 };
    r.handle_event(InputEvent::ButtonUp);
    r.handle_event(InputEvent::ButtonDown);
    r.handle_event(InputEvent::CursorMoved { x: 30, y: 4 });
    assert_eq!(r.camera().theta, 0);
}
