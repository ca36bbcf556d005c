use raytracer::color::{Color, CHANNEL_MAX};
use raytracer::texture::{ColorColumnRange, IncrementalTextureHandle};

fn pixel(pixels: &[Color], width: u32, x: u32, y: u32) -> Color {
    pixels[(y * width + x) as usize]
}

#[test]
fn fresh_image_is_black() {
    let mut t = IncrementalTextureHandle::new(3, 2, 10);
    assert_eq!(t.get_width(), 3);
    assert_eq!(t.get_height(), 2);
    let pixels = t.get_texture();
    assert_eq!(pixels.len(), 6);
    assert!(pixels.iter().all(|c| *c == Color::zero()));
    assert_eq!(t.sample_count(2, 1), 0);
}

#[test]
fn same_color_converges_exactly() {
    let c = Color::new(12345, 1, CHANNEL_MAX);
    let mut t = IncrementalTextureHandle::new(4, 4, 100);
    let _ = t.get_texture();
    for n in 1..=7u32 {
        t.add_color(1, 2, &c);
        assert_eq!(t.sample_count(1, 2), n);
        let pixels = t.get_texture();
        assert_eq!(pixel(&pixels, 4, 1, 2), c);
        assert_eq!(pixel(&pixels, 4, 2, 1), Color::zero());
    }
}

#[test]
fn samples_past_max_count_change_nothing() {
    let c = Color::new(300, 400, 500);
    let mut t = IncrementalTextureHandle::new(2, 2, 3);
    let _ = t.get_texture();
    for _ in 0..3 {
        t.add_color(0, 0, &c);
    }
    assert_eq!(t.sample_count(0, 0), 3);
    let before = t.get_texture();
    t.add_color(0, 0, &Color::white());
    t.add_color(0, 0, &Color::zero());
    assert_eq!(t.sample_count(0, 0), 3);
    let after = t.get_texture();
    assert_eq!(before, after);
    assert_eq!(pixel(&after, 2, 0, 0), c);
}

#[test]
fn mean_rounds_down() {
    let mut t = IncrementalTextureHandle::new(1, 1, 10);
    let _ = t.get_texture();
    t.add_color(0, 0, &Color::new(1, 10, 65535));
    t.add_color(0, 0, &Color::new(2, 11, 0));
    let pixels = t.get_texture();
    assert_eq!(pixels[0], Color::new(1, 10, 32767));
}

#[test]
fn zero_max_count_takes_nothing() {
    let mut t = IncrementalTextureHandle::new(1, 1, 0);
    t.add_color(0, 0, &Color::white());
    assert_eq!(t.sample_count(0, 0), 0);
    assert_eq!(t.get_texture()[0], Color::zero());
}

#[test]
fn invalidated_image_shows_once_then_clears() {
    let mut t = IncrementalTextureHandle::new(2, 1, 10);
    let _ = t.get_texture();
    t.add_color(1, 0, &Color::new(7, 7, 7));
    t.invalidate();
    let stale = t.get_texture();
    assert_eq!(stale[1], Color::new(7, 7, 7));
    assert_eq!(t.sample_count(1, 0), 0);
    let cleared = t.get_texture();
    assert_eq!(cleared[1], Color::zero());
}

#[test]
fn new_image_starts_invalid_so_first_samples_are_dropped() {
    let mut t = IncrementalTextureHandle::new(1, 1, 10);
    t.add_color(0, 0, &Color::new(5, 5, 5));
    assert_eq!(t.get_texture()[0], Color::new(5, 5, 5));
    assert_eq!(t.get_texture()[0], Color::zero());
}

#[test]
fn color_range_lands_in_its_columns() {
    let mut t = IncrementalTextureHandle::new(4, 2, 10);
    let _ = t.get_texture();
    let a = Color::new(1, 2, 3);
    let b = Color::new(4, 5, 6);
    let c = Color::new(7, 8, 9);
    t.add_color_range(ColorColumnRange { starting_column: 2, color_columns: vec![vec![a, b], vec![c]] });
    let pixels = t.get_texture();
    assert_eq!(pixel(&pixels, 4, 2, 0), a);
    assert_eq!(pixel(&pixels, 4, 2, 1), b);
    assert_eq!(pixel(&pixels, 4, 3, 0), c);
    assert_eq!(pixel(&pixels, 4, 3, 1), Color::zero());
    assert_eq!(pixel(&pixels, 4, 0, 0), Color::zero());
    assert_eq!(t.sample_count(3, 1), 0);
}

#[test]
fn color_column_adds_each_row() {
    let mut t = IncrementalTextureHandle::new(2, 3, 10);
    let _ = t.get_texture();
    t.add_color_column(1, &vec![Color::new(10, 0, 0), Color::new(20, 0, 0), Color::new(30, 0, 0)]);
    t.add_color_column(1, &vec![Color::new(20, 0, 0)]);
    let pixels = t.get_texture();
    assert_eq!(pixel(&pixels, 2, 1, 0), Color::new(15, 0, 0));
    assert_eq!(pixel(&pixels, 2, 1, 1), Color::new(20, 0, 0));
    assert_eq!(pixel(&pixels, 2, 1, 2), Color::new(30, 0, 0));
    assert_eq!(pixel(&pixels, 2, 0, 2), Color::zero());
}
