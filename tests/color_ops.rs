use raytracer::color::{Color, CHANNEL_MAX};

#[test]
fn color_constructors() {
    let c = Color::new(1, 2, 3);
    assert_eq!((c.r, c.g, c.b), (1, 2, 3));
    assert_eq!(Color::zero(), Color::new(0, 0, 0));
    assert_eq!(Color::white(), Color::new(CHANNEL_MAX, CHANNEL_MAX, CHANNEL_MAX));
}

#[test]
fn times_scales_by_thousandths() {
    let c = Color::new(1000, 65535, 7);
    assert_eq!(c.times(300), Color::new(300, 19660, 2));
    assert_eq!(c.times(0), Color::zero());
    assert_eq!(c.times(1000), c);
    assert_eq!(c.times(5000), c);
}

#[test]
fn plus_saturates() {
    let a = Color::new(60000, 10, 0);
    let b = Color::new(10000, 20, 0);
    assert_eq!(a.plus(&b), Color::new(CHANNEL_MAX, 30, 0));
}

#[test]
fn filter_multiplies_fractions() {
    let a = Color::new(CHANNEL_MAX, 32768, 100);
    let b = Color::new(1234, CHANNEL_MAX, 0);
    assert_eq!(a.filter(&b), Color::new(1234, 32768, 0));
    assert_eq!(Color::new(32768, 0, 0).filter(&Color::new(32768, 0, 0)), Color::new(16384, 0, 0));
}
