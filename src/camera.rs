use vstd::prelude::*;

verus! {

/// The largest elevation, in millionths of a radian: a hundredth of a radian
/// short of straight up (rounded down), so the view direction never lines up
/// with the world's up axis.
pub const PHI_LIMIT: i64 = 1_560_796;

/// The largest orbit radius, in millionths of a unit.
pub const MAX_RADIUS: u64 = 1_000_000_000_000_000;

/// The largest distance of the focus from the origin along any axis, in
/// millionths of a unit.
pub const COORD_LIMIT: i64 = 1_000_000_000_000_000;

/// A point of the scene, in millionths of a unit on each axis.
#[derive(Clone, Copy, Debug, PartialEq, Eq, Structural)]
pub struct Point {
    pub x: i64,
    pub y: i64,
    pub z: i64,
}

/// An orbital camera: it looks at `focus` from `radius` away, at azimuth
/// `theta` and elevation `phi` (millionths of a radian), through a lens of
/// radius `aperture` (0 for a pinhole), onto a screen of the given size in
/// pixels. The eye position follows from these alone.
#[derive(Clone, Copy, Debug, PartialEq, Eq, Structural)]
pub struct OrbitalCamera {
    pub focus: Point,
    pub theta: i64,
    pub phi: i64,
    pub radius: u64,
    pub aperture: u64,
    pub screen_width: u32,
    pub screen_height: u32,
}

pub open spec fn clamp(v: int, lo: int, hi: int) -> int {
    if v < lo {
        lo
    } else if v > hi {
        hi
    } else {
        v
    }
}

/// An elevation kept strictly between straight down and straight up.
pub open spec fn clamped_phi(v: int) -> int {
    clamp(v, -PHI_LIMIT, PHI_LIMIT as int)
}

/// An azimuth accumulated: the sum itself, saturating only at the ends of the
/// `i64` range (about nine million radians either way).
pub open spec fn accumulated_theta(v: int) -> int {
    clamp(v, i64::MIN as int, i64::MAX as int)
}

pub open spec fn clamped_coord(v: int) -> int {
    clamp(v, -COORD_LIMIT, COORD_LIMIT as int)
}

pub open spec fn clamped_radius(r: int) -> int {
    clamp(r, 1, MAX_RADIUS as int)
}

/// The radius after zooming out: a tenth longer (the tenth rounded up), at
/// most `MAX_RADIUS`.
pub open spec fn zoomed_out(r: int) -> int {
    let longer = r + (r + 9) / 10;
    if longer > MAX_RADIUS {
        MAX_RADIUS as int
    } else {
        longer
    }
}

/// The radius after zooming in: a tenth shorter (the tenth rounded down).
pub open spec fn zoomed_in(r: int) -> int {
    r - r / 10
}

pub open spec fn translated(p: Point, dx: int, dy: int, dz: int) -> Point {
    Point {
        x: clamped_coord(p.x + dx) as i64,
        y: clamped_coord(p.y + dy) as i64,
        z: clamped_coord(p.z + dz) as i64,
    }
}

/// A camera looking at `focus` along the +z axis from `radius` away, with
/// radius and focus brought into range.
pub open spec fn initial_camera(
    screen_width: u32,
    screen_height: u32,
    focus: Point,
    radius: u64,
    aperture: u64,
) -> OrbitalCamera {
    OrbitalCamera {
        focus: translated(focus, 0, 0, 0),
        theta: 0,
        phi: 0,
        radius: clamped_radius(radius as int) as u64,
        aperture,
        screen_width,
        screen_height,
    }
}

/// The camera turned by `dtheta` in azimuth and `dphi` in elevation.
pub open spec fn rotated(c: OrbitalCamera, dtheta: int, dphi: int) -> OrbitalCamera {
    OrbitalCamera {
        theta: accumulated_theta(c.theta + dtheta) as i64,
        phi: clamped_phi(c.phi + dphi) as i64,
        ..c
    }
}

/// The camera zoomed out for a negative `delta`, in for a positive one.
pub open spec fn zoomed(c: OrbitalCamera, delta: int) -> OrbitalCamera {
    OrbitalCamera {
        radius: (if delta < 0 {
            zoomed_out(c.radius as int)
        } else if delta > 0 {
            zoomed_in(c.radius as int)
        } else {
            c.radius as int
        }) as u64,
        ..c
    }
}

fn clamp_coord(v: i64, d: i64) -> (r: i64)
    ensures
        r == clamped_coord(v + d),
{
    let s: i128 = v as i128 + d as i128;
    if s < -(COORD_LIMIT as i128) {
        -COORD_LIMIT
    } else if s > COORD_LIMIT as i128 {
        COORD_LIMIT
    } else {
        s as i64
    }
}

impl OrbitalCamera {
    /// The pose every method keeps: elevation within the limits, radius and
    /// focus within range.
    pub open spec fn wf(&self) -> bool {
        &&& -PHI_LIMIT <= self.phi <= PHI_LIMIT
        &&& 1 <= self.radius <= MAX_RADIUS
        &&& -COORD_LIMIT <= self.focus.x <= COORD_LIMIT
        &&& -COORD_LIMIT <= self.focus.y <= COORD_LIMIT
        &&& -COORD_LIMIT <= self.focus.z <= COORD_LIMIT
    }

    /// A camera looking at `focus` along the +z axis from `radius` away (radius
    /// and focus brought into range).
    pub fn new(
        screen_width: u32,
        screen_height: u32,
        focus: Point,
        radius: u64,
        aperture: u64,
    ) -> (c: Self)
        ensures
            c.wf(),
            c == initial_camera(screen_width, screen_height, focus, radius, aperture),
    {
        let radius = if radius < 1 {
            1
        } else if radius > MAX_RADIUS {
            MAX_RADIUS
        } else {
            radius
        };
        let focus = Point {
            x: clamp_coord(focus.x, 0),
            y: clamp_coord(focus.y, 0),
            z: clamp_coord(focus.z, 0),
        };
        OrbitalCamera { focus, theta: 0, phi: 0, radius, aperture, screen_width, screen_height }
    }

    /// Shifts the focus point (each coordinate kept within `COORD_LIMIT`).
    pub fn translate(&mut self, dx: i64, dy: i64, dz: i64)
        ensures
            *final(self) == (OrbitalCamera {
                focus: translated(old(self).focus, dx as int, dy as int, dz as int),
                ..*old(self)
            }),
            old(self).wf() ==> final(self).wf(),
    {
        self.focus = Point {
            x: clamp_coord(self.focus.x, dx),
            y: clamp_coord(self.focus.y, dy),
            z: clamp_coord(self.focus.z, dz),
        };
    }

    /// Zooms out for a negative `delta`, in for a positive one; zero leaves
    /// the radius as it is.
    pub fn delta_zoom(&mut self, delta: i64)
        ensures
            *final(self) == zoomed(*old(self), delta as int),
            old(self).wf() ==> final(self).wf(),
    {
        if delta < 0 {
            let r: u128 = self.radius as u128;
            let longer: u128 = r + (r + 9) / 10;
            self.radius = if longer > MAX_RADIUS as u128 {
                MAX_RADIUS
            } else {
                longer as u64
            };
        } else if delta > 0 {
            self.radius = self.radius - self.radius / 10;
        }
    }

    /// Turns the camera: the azimuth accumulates `dtheta`, and the elevation
    /// takes `dphi`, clamped to `[-PHI_LIMIT, PHI_LIMIT]`. However large `dphi`
    /// is, an elevation pushed past a limit stops exactly on it.
    pub fn rotate(&mut self, dtheta: i64, dphi: i64)
        ensures
            *final(self) == rotated(*old(self), dtheta as int, dphi as int),
            i64::MIN <= old(self).theta + dtheta <= i64::MAX ==> final(self).theta == old(self).theta
                + dtheta,
            old(self).phi + dphi >= PHI_LIMIT ==> final(self).phi == PHI_LIMIT,
            old(self).phi + dphi <= -PHI_LIMIT ==> final(self).phi == -PHI_LIMIT,
            -PHI_LIMIT <= final(self).phi <= PHI_LIMIT,
            old(self).wf() ==> final(self).wf(),
    {
        let theta: i128 = self.theta as i128 + dtheta as i128;
        self.theta = if theta > i64::MAX as i128 {
            i64::MAX
        } else if theta < i64::MIN as i128 {
            i64::MIN
        } else {
            theta as i64
        };
        let phi: i128 = self.phi as i128 + dphi as i128;
        self.phi = if phi > PHI_LIMIT as i128 {
            PHI_LIMIT
        } else if phi < -(PHI_LIMIT as i128) {
            -PHI_LIMIT
        } else {
            phi as i64
        };
    }
}

} // verus!
