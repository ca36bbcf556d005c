use raytracer::camera::{OrbitalCamera, Point, COORD_LIMIT, MAX_RADIUS, PHI_LIMIT};

fn camera() -> OrbitalCamera {
    OrbitalCamera::new(600, 500, Point { x: 0, y: 0, z: 0 }, 1_000_000, 0)
}

#[test]
fn new_camera_pose() {
    let c = camera();
    assert_eq!(c.theta, 0);
    assert_eq!(c.phi, 0);
    assert_eq!(c.radius, 1_000_000);
    assert_eq!((c.screen_width, c.screen_height), (600, 500));
    let c = OrbitalCamera::new(1, 1, Point { x: i64::MAX, y: 0, z: i64::MIN }, 0, 5);
    assert_eq!(c.radius, 1);
    assert_eq!(c.focus, Point { x: COORD_LIMIT, y: 0, z: -COORD_LIMIT });
    assert_eq!(c.aperture, 5);
}

#[test]
fn rotate_clamps_phi_at_the_limit() {
    let mut c = camera();
    c.rotate(0, 1_000_000_000);
    assert_eq!(c.phi, PHI_LIMIT);
    assert_eq!(PHI_LIMIT, 1_560_796);
    c.rotate(0, i64::MAX);
    assert_eq!(c.phi, PHI_LIMIT);
    c.rotate(0, -10);
    assert_eq!(c.phi, PHI_LIMIT - 10);
    c.rotate(0, 11);
    assert_eq!(c.phi, PHI_LIMIT);
    c.rotate(0, i64::MIN);
    assert_eq!(c.phi, -PHI_LIMIT);
    let mut d = camera();
    d.rotate(0, PHI_LIMIT + 1);
    assert_eq!(d.phi, PHI_LIMIT);
    let mut e = camera();
    e.rotate(0, 1_000);
    assert_eq!(e.phi, 1_000);
}

#[test]
fn rotate_accumulates_theta() {
    let mut c = camera();
    c.rotate(-1, 0);
    assert_eq!(c.theta, -1);
    c.rotate(2, 0);
    assert_eq!(c.theta, 1);
    c.rotate(3 * 6_283_185 + 5, 0);
    assert_eq!(c.theta, 3 * 6_283_185 + 6);
    c.rotate(i64::MAX, 0);
    assert_eq!(c.theta, i64::MAX);
    c.rotate(i64::MIN, 0);
    assert_eq!(c.theta, -1);
    c.rotate(i64::MIN, 0);
    assert_eq!(c.theta, i64::MIN);
}

#[test]
fn delta_zoom_changes_radius_by_a_tenth() {
    let mut c = camera();
    c.delta_zoom(-3);
    assert_eq!(c.radius, 1_100_000);
    c.delta_zoom(1);
    assert_eq!(c.radius, 990_000);
    c.delta_zoom(0);
    assert_eq!(c.radius, 990_000);
    let mut small = OrbitalCamera::new(1, 1, Point { x: 0, y: 0, z: 0 }, 1, 0);
    small.delta_zoom(5);
    assert_eq!(small.radius, 1);
    small.delta_zoom(-5);
    assert_eq!(small.radius, 2);
    let mut big = OrbitalCamera::new(1, 1, Point { x: 0, y: 0, z: 0 }, MAX_RADIUS, 0);
    big.delta_zoom(-1);
    assert_eq!(big.radius, MAX_RADIUS);
}

#[test]
fn translate_shifts_focus() {
    let mut c = camera();
    c.translate(5, -6, 7);
    assert_eq!(c.focus, Point { x: 5, y: -6, z: 7 });
    c.translate(i64::MAX, 0, i64::MIN);
    assert_eq!(c.focus, Point { x: COORD_LIMIT, y: -6, z: -COORD_LIMIT });
    assert_eq!(c.theta, 0);
    assert_eq!(c.radius, 1_000_000);
}
