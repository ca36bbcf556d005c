use vstd::prelude::*;
use crate::color::{Color, WEIGHT_ONE, weight_of};
use crate::texture::ColorColumnRange;
use crate::shape::{
    ShapeProperties,
    ShapeType,
    surface_color,
    refraction_indices,
    red_or_black,
    green_or_black,
    blue_or_black,
    shininess_weight,
    blend_channel,
};

verus! {

/// The usual bounce budget of a camera ray.
pub const DEFAULT_MAX_BOUNCE_COUNT: usize = 4;

/// The continuous side of rendering: camera rays and where they meet shapes.
///
/// Shape `i` of the geometry is the shape whose material is object `i` of a
/// `RaytracingScene`. The integrator decides which rays to trace and how to
/// combine what they bring back; the geometry computes the rays themselves.
///
/// This is where a scene's shapes plug in, as the shapes a user adds to a
/// scene. An implementation answers `contact`, `is_closer` and
/// `is_from_inside` from their arguments alone: `contact_of`, `closer` and
/// `inside` name those answers, and the integrator's contracts are stated over
/// them. Camera rays and further rays may be drawn at random, so they get no
/// such name.
pub trait Geometry {
    type Ray;
    type Contact;

    /// The ray through the pixel at the given offset from the image center.
    fn camera_ray(&self, offset_x: i64, offset_y: i64) -> Self::Ray;

    /// Where `ray` meets shape `shape`, if it does: a function of the shape
    /// and the ray alone.
    spec fn contact_of(&self, shape: usize, ray: Self::Ray) -> Option<Self::Contact>;

    /// Whether contact `a` lies strictly nearer the origin of `ray` than
    /// contact `b`: a function of the three alone.
    spec fn closer(&self, ray: Self::Ray, a: Self::Contact, b: Self::Contact) -> bool;

    /// Whether a contact was met from inside its shape: a function of the
    /// contact alone.
    spec fn inside(&self, contact: Self::Contact) -> bool;

    /// Where `ray` meets shape `shape`, if it does.
    fn contact(&self, shape: usize, ray: &Self::Ray) -> (r: Option<Self::Contact>)
        ensures
            r == self.contact_of(shape, *ray),
    ;

    /// Whether contact `a` lies strictly nearer the origin of `ray` than contact `b`.
    fn is_closer(&self, ray: &Self::Ray, a: &Self::Contact, b: &Self::Contact) -> (r: bool)
        ensures
            r == self.closer(*ray, *a, *b),
    ;

    /// Whether the ray met the surface from inside its shape.
    fn is_from_inside(&self, contact: &Self::Contact) -> (r: bool)
        ensures
            r == self.inside(*contact),
    ;

    /// The mirror reflection of `ray` at the contact, tilted at random by up to
    /// the angle whose sine is `roughness` thousandths; `None` where the tilted
    /// direction no longer leaves the surface.
    fn glossy_reflection(&self, ray: &Self::Ray, contact: &Self::Contact, roughness: u16) -> Option<
        Self::Ray,
    >;

    /// `ray` bent through the surface from a side of index `incident_index` into
    /// one of index `refracted_index` (thousandths), or mirrored where it cannot
    /// pass; with whether the new ray goes on inside the shape it met.
    fn refraction(
        &self,
        ray: &Self::Ray,
        contact: &Self::Contact,
        incident_index: u32,
        refracted_index: u32,
    ) -> (Self::Ray, bool);
}

/// What tracing one ray gave: the color, the shape it met (`None` on a miss or
/// when no bounce was left), the side it met it from, the colors brought back by
/// the reflected and refracted rays where they were traced, whether the
/// refracted ray went on inside the shape (and so was told to skip it), and
/// how deep the recursion went below this ray (0 when no further ray was
/// traced).
#[derive(Clone, Copy, Debug)]
pub struct Traced {
    pub color: Color,
    pub shape: Option<usize>,
    pub from_inside: bool,
    pub reflected: Option<Color>,
    pub refracted: Option<Color>,
    pub refracted_inside: bool,
    pub depth: usize,
}

impl Traced {
    pub open spec fn is_miss(self) -> bool {
        &&& self.shape is None
        &&& self.color == Color { r: 0, g: 0, b: 0 }
        &&& self.reflected is None
        &&& self.refracted is None
        &&& !self.refracted_inside
        &&& self.depth == 0
    }

    fn miss() -> (t: Traced)
        ensures
            t.is_miss(),
    {
        Traced {
            color: Color::zero(),
            shape: None,
            from_inside: false,
            reflected: None,
            refracted: None,
            refracted_inside: false,
            depth: 0,
        }
    }
}

/// The materials of a scene, in the order of its shapes, and how many bounces a
/// camera ray may take.
pub struct RaytracingScene {
    objects: Vec<ShapeProperties>,
    max_bounce_count: usize,
}

/// Whether shape `i` is the one a search was told to skip.
pub open spec fn is_ignored(ignore: Option<usize>, i: int) -> bool {
    match ignore {
        Some(j) => j == i,
        None => false,
    }
}

/// The scan over shapes `0..n` that finds the nearest contact of `ray`: every
/// shape but `ignore` is asked in order, and the contact kept so far is
/// replaced only by one strictly closer, so of equally near contacts the first
/// shape's stays.
pub open spec fn scan_closest<G: Geometry>(
    g: &G,
    ray: G::Ray,
    ignore: Option<usize>,
    n: nat,
) -> Option<(usize, G::Contact)>
    decreases n,
{
    if n == 0 {
        None
    } else {
        let best = scan_closest(g, ray, ignore, (n - 1) as nat);
        let k = (n - 1) as usize;
        if is_ignored(ignore, n - 1) {
            best
        } else {
            match g.contact_of(k, ray) {
                None => best,
                Some(c) => match best {
                    None => Some((k, c)),
                    Some((j, b)) => if g.closer(ray, c, b) {
                        Some((k, c))
                    } else {
                        best
                    },
                },
            }
        }
    }
}

/// Whether some shape of `0..n` but `ignore` is met by `ray`.
pub open spec fn meets_any<G: Geometry>(g: &G, ray: G::Ray, ignore: Option<usize>, n: nat) -> bool {
    exists|k: int| 0 <= k < n && !is_ignored(ignore, k) && (#[trigger] g.contact_of(k as usize, ray)) is Some
}

/// What the scan finds: nothing exactly when no shape is met; otherwise a
/// shape that is not skipped, with its own contact, and no later shape has a
/// strictly closer one.
proof fn lemma_scan_closest<G: Geometry>(g: &G, ray: G::Ray, ignore: Option<usize>, n: nat)
    requires
        n <= usize::MAX + 1,
    ensures
        scan_closest(g, ray, ignore, n) is None <==> !meets_any(g, ray, ignore, n),
        scan_closest(g, ray, ignore, n) matches Some((i, c)) ==> {
            &&& i < n
            &&& !is_ignored(ignore, i as int)
            &&& g.contact_of(i, ray) == Some(c)
            &&& forall|k: int|
                i < k < n && !is_ignored(ignore, k) ==> (#[trigger] g.contact_of(k as usize, ray) matches Some(
                    d,
                ) ==> !g.closer(ray, d, c))
        },
    decreases n,
{
    if n > 0 {
        lemma_scan_closest(g, ray, ignore, (n - 1) as nat);
        let k = (n - 1) as int;
        if meets_any(g, ray, ignore, (n - 1) as nat) {
            let w = choose|w: int|
                0 <= w < n - 1 && !is_ignored(ignore, w) && (#[trigger] g.contact_of(w as usize, ray)) is Some;
            assert(0 <= w < n && !is_ignored(ignore, w) && g.contact_of(w as usize, ray) is Some);
        }
        if !is_ignored(ignore, k) && g.contact_of(k as usize, ray) is Some {
            assert(0 <= k < n && !is_ignored(ignore, k) && g.contact_of(k as usize, ray) is Some);
        }
        if meets_any(g, ray, ignore, n) {
            let w = choose|w: int|
                0 <= w < n && !is_ignored(ignore, w) && (#[trigger] g.contact_of(w as usize, ray)) is Some;
            if w < n - 1 {
                assert(meets_any(g, ray, ignore, (n - 1) as nat));
            }
        }
    }
}

/// `closer` orders the contacts of `ray` the way `<` orders distances: no
/// contact is closer than itself, closer is transitive, and being equally near
/// is transitive too.
pub open spec fn orders_contacts<G: Geometry>(g: &G, ray: G::Ray) -> bool {
    &&& forall|a: G::Contact| !#[trigger] g.closer(ray, a, a)
    &&& forall|a: G::Contact, b: G::Contact, c: G::Contact|
        #[trigger] g.closer(ray, a, b) && #[trigger] g.closer(ray, b, c) ==> g.closer(ray, a, c)
    &&& forall|a: G::Contact, b: G::Contact, c: G::Contact|
        #![trigger g.closer(ray, a, b), g.closer(ray, b, c)]
        !g.closer(ray, a, b) && !g.closer(ray, b, a) && !g.closer(ray, b, c) && !g.closer(ray, c, b)
            ==> !g.closer(ray, a, c) && !g.closer(ray, c, a)
}

/// Where `closer` orders contacts as distances are ordered, the scan finds the
/// nearest contact: no shape but `ignore` has a strictly closer one, and every
/// shape before the one found has a strictly farther one, so of equally near
/// contacts the first shape's is found.
pub proof fn lemma_scan_finds_nearest<G: Geometry>(g: &G, ray: G::Ray, ignore: Option<usize>, n: nat)
    requires
        n <= usize::MAX + 1,
        orders_contacts(g, ray),
    ensures
        scan_closest(g, ray, ignore, n) matches Some((i, c)) ==> forall|k: int|
            0 <= k < n && !is_ignored(ignore, k) ==> (#[trigger] g.contact_of(k as usize, ray) matches Some(d) ==> {
                &&& !g.closer(ray, d, c)
                &&& k < i ==> g.closer(ray, c, d)
            }),
    decreases n,
{
    if n > 0 {
        let m = (n - 1) as nat;
        lemma_scan_finds_nearest(g, ray, ignore, m);
        lemma_scan_closest(g, ray, ignore, m);
        lemma_scan_closest(g, ray, ignore, n);
        let before = scan_closest(g, ray, ignore, m);
        if let Some((i, c)) = scan_closest(g, ray, ignore, n) {
            assert forall|k: int|
                0 <= k < n && !is_ignored(ignore, k) implies (#[trigger] g.contact_of(k as usize, ray) matches Some(d) ==> {
                &&& !g.closer(ray, d, c)
                &&& k < i ==> g.closer(ray, c, d)
            }) by {
                if let Some(d) = g.contact_of(k as usize, ray) {
                    if k == i {
                        assert(d == c);
                    } else if k < n - 1 {
                        if let Some((j, b)) = before {
                            if i == n - 1 {
                                // the new contact beat the one kept before
                                assert(g.closer(ray, c, b));
                                if k == j {
                                    assert(d == b);
                                } else if !g.closer(ray, b, d) {
                                    assert(!g.closer(ray, d, b));
                                    if !g.closer(ray, c, d) {
                                        if g.closer(ray, d, c) {
                                            assert(g.closer(ray, d, b));
                                        } else {
                                            assert(!g.closer(ray, c, b));
                                        }
                                    }
                                }
                            }
                        } else {
                            assert(meets_any(g, ray, ignore, m)) by {
                                assert(0 <= k < m && !is_ignored(ignore, k) && g.contact_of(k as usize, ray) is Some);
                            }
                        }
                    }
                }
            }
        }
    }
}

/// Whether `t` is a faithful shading of `ray` over these materials with
/// `bounces_left` bounces, skipping shape `ignore`. With a bounce left, the
/// ray's shape is the one the scan finds, met from the side the geometry
/// names; the color is the one that shape's material gives for what its
/// further rays brought back; and each of those is itself a faithful shading
/// of a further ray with one bounce fewer.
pub open spec fn shades<G: Geometry>(
    g: &G,
    objects: Seq<ShapeProperties>,
    ray: G::Ray,
    t: Traced,
    bounces_left: usize,
    ignore: Option<usize>,
) -> bool
    decreases bounces_left, 0nat,
{
    &&& t.depth <= bounces_left
    &&& bounces_left == 0 ==> t.is_miss()
    &&& bounces_left > 0 ==> (t.shape is None <==> scan_closest(g, ray, ignore, objects.len()) is None)
    &&& t.shape is None ==> t.is_miss()
    &&& t.shape matches Some(i) ==> {
        &&& i < objects.len()
        &&& !is_ignored(ignore, i as int)
        &&& scan_closest(g, ray, ignore, objects.len()) matches Some((j, c)) && j == i && t.from_inside
            == g.inside(c)
        &&& t.color == surface_color(objects[i as int], t.from_inside, t.reflected, t.refracted)
        &&& (t.reflected is None && t.refracted is None) <==> t.depth == 0
        &&& match objects[i as int].shape_type {
            ShapeType::Emitter => t.reflected is None && t.refracted is None,
            ShapeType::Reflector { shininess, transparency } => {
                &&& (t.reflected is Some ==> shininess is Some && !t.from_inside)
                &&& (t.refracted is Some <==> transparency is Some)
            },
        }
        &&& t.reflected matches Some(col) ==> bounces_left > 0 && shaded_ray_color(
            g,
            objects,
            (bounces_left - 1) as usize,
            t.shape,
            col,
        )
        &&& t.refracted is None ==> !t.refracted_inside
        &&& t.refracted matches Some(col) ==> bounces_left > 0 && shaded_ray_color(
            g,
            objects,
            (bounces_left - 1) as usize,
            if t.refracted_inside {
                t.shape
            } else {
                None
            },
            col,
        )
    }
}

/// Whether `c` is the color of a faithful shading of some ray with these
/// materials and `bounces` bounces, skipping shape `ignore`.
pub open spec fn shaded_ray_color<G: Geometry>(
    g: &G,
    objects: Seq<ShapeProperties>,
    bounces: usize,
    ignore: Option<usize>,
    c: Color,
) -> bool
    decreases bounces, 1nat,
{
    exists|r: G::Ray, u: Traced| #[trigger] traced_ray(r, u) && shades(g, objects, r, u, bounces, ignore) && u.color == c
}

/// A ray with what tracing it gave. It always holds: it only gives the prover a
/// term to find the ray and the shading of a further ray by.
pub open spec fn traced_ray<R>(r: R, t: Traced) -> bool {
    true
}

/// Whether `c` is the color of a faithful shading of some ray with these
/// materials and `bounces` bounces.
pub open spec fn is_shaded<G: Geometry>(g: &G, objects: Seq<ShapeProperties>, bounces: usize, c: Color) -> bool {
    exists|r: G::Ray, t: Traced| #[trigger] shades(g, objects, r, t, bounces, None) && t.color == c
}

/// A perfect opaque mirror: a reflector whose shininess weighs one and that
/// lets no light through, so its own color never shows from outside.
pub open spec fn is_perfect_mirror(p: ShapeProperties) -> bool {
    match p.shape_type {
        ShapeType::Reflector { shininess: Some(sh), transparency: None } => weight_of(sh.value) == WEIGHT_ONE,
        _ => false,
    }
}

/// A closed box of perfect mirrors with no light in it stays black: where
/// every material is a perfect mirror, every faithful shading, whatever the
/// bounce budget and however the rays go, is black, provided either that the
/// geometry meets every surface from outside (as a ray inside a box of
/// inward-facing walls does) or that every mirror's own color is black (so
/// that it adds nothing even where met from inside).
pub proof fn lemma_dark_mirrors_stay_black<G: Geometry>(
    g: &G,
    objects: Seq<ShapeProperties>,
    ray: G::Ray,
    t: Traced,
    bounces_left: usize,
    ignore: Option<usize>,
)
    requires
        shades(g, objects, ray, t, bounces_left, ignore),
        forall|k: int| 0 <= k < objects.len() ==> is_perfect_mirror(#[trigger] objects[k]),
        (forall|c: G::Contact| !#[trigger] g.inside(c)) || (forall|k: int|
            0 <= k < objects.len() ==> (#[trigger] objects[k]).color == (Color { r: 0, g: 0, b: 0 })),
    ensures
        t.color == (Color { r: 0, g: 0, b: 0 }),
    decreases bounces_left,
{
    if let Some(i) = t.shape {
        assert(is_perfect_mirror(objects[i as int]));
        if let Some(col) = t.reflected {
            let (r, u) = choose|r: G::Ray, u: Traced|
                #[trigger] traced_ray(r, u) && shades(g, objects, r, u, (bounces_left - 1) as usize, t.shape)
                    && u.color == col;
            lemma_dark_mirrors_stay_black(g, objects, r, u, (bounces_left - 1) as usize, t.shape);
        }
        let base = objects[i as int].color;
        if t.from_inside {
            // met from inside, the mirror shows its own color, which is black
            if let Some((j, c)) = scan_closest(g, ray, ignore, objects.len()) {
                assert(g.inside(c));
            }
            assert(base == (Color { r: 0, g: 0, b: 0 }));
        }
        assert(t.refracted is None);
        assert(red_or_black(t.reflected) == 0 && green_or_black(t.reflected) == 0 && blue_or_black(
            t.reflected,
        ) == 0);
        let s = shininess_weight(objects[i as int], t.from_inside);
        if t.from_inside {
            assert(s == 0);
        } else {
            assert(s == 1000);
            assert forall|c: int| blend_channel(1000, 0, 0, 0, c) == 0 by {
                assert((1000 - 1000) * (1000 - 0) * c == 0) by (nonlinear_arith);
            }
        }
    }
}

/// The offset of pixel coordinate `p` from the middle of a side `size` pixels long.
pub open spec fn pixel_offset(p: int, size: u32) -> int {
    p - size / 2
}

fn offset_from_middle(p: u32, size: u32) -> (r: i64)
    ensures
        r == pixel_offset(p as int, size),
{
    p as i64 - (size / 2) as i64
}

impl RaytracingScene {
    /// The materials, in the order of the shapes.
    pub closed spec fn objects(&self) -> Seq<ShapeProperties> {
        self.objects@
    }

    pub closed spec fn max_bounces(&self) -> usize {
        self.max_bounce_count
    }

    pub fn new(max_bounce_count: usize) -> (s: Self)
        ensures
            s.objects() == Seq::<ShapeProperties>::empty(),
            s.max_bounces() == max_bounce_count,
    {
        RaytracingScene { objects: Vec::new(), max_bounce_count }
    }

    /// Appends the material of the next shape.
    pub fn add_object(&mut self, properties: ShapeProperties)
        ensures
            final(self).objects() == old(self).objects().push(properties),
            final(self).max_bounces() == old(self).max_bounces(),
    {
        self.objects.push(properties);
    }

    pub fn object_count(&self) -> (n: usize)
        ensures
            n == self.objects().len(),
    {
        self.objects.len()
    }

    pub fn max_bounce_count(&self) -> (n: usize)
        ensures
            n == self.max_bounces(),
    {
        self.max_bounce_count
    }

    /// The nearest contact of `ray` over every shape but `ignore`, with the
    /// index of its shape; of contacts equally near, the first shape's (see
    /// `scan_closest` and `lemma_scan_finds_nearest`).
    pub fn find_closest_contact<G: Geometry>(
        &self,
        geometry: &G,
        ray: &G::Ray,
        ignore: Option<usize>,
    ) -> (r: Option<(usize, G::Contact)>)
        ensures
            r == scan_closest(geometry, *ray, ignore, self.objects().len()),
            r is None <==> !meets_any(geometry, *ray, ignore, self.objects().len()),
            r matches Some((i, c)) ==> {
                &&& i < self.objects().len()
                &&& !is_ignored(ignore, i as int)
                &&& geometry.contact_of(i, *ray) == Some(c)
                &&& forall|k: int|
                    i < k < self.objects().len() && !is_ignored(ignore, k) ==> (#[trigger] geometry.contact_of(
                        k as usize,
                        *ray,
                    ) matches Some(d) ==> !geometry.closer(*ray, d, c))
            },
    {
        let mut closest: Option<(usize, G::Contact)> = None;
        let n = self.objects.len();
        let mut i: usize = 0;
        while i < n
            invariant
                n == self.objects().len(),
                i <= n,
                closest == scan_closest(geometry, *ray, ignore, i as nat),
            decreases n - i,
        {
            let skip = match ignore {
                Some(j) => j == i,
                None => false,
            };
            if !skip {
                if let Some(contact) = geometry.contact(i, ray) {
                    let nearer = match &closest {
                        Some((_, best)) => geometry.is_closer(ray, &contact, best),
                        None => true,
                    };
                    if nearer {
                        closest = Some((i, contact));
                    }
                }
            }
            i = i + 1;
        }
        proof {
            lemma_scan_closest(geometry, *ray, ignore, n as nat);
        }
        closest
    }

    /// Traces `ray` with `bounces_left` bounces, skipping shape `ignore`.
    ///
    /// With no bounce left, or where the ray meets nothing, the ray is black.
    /// An emitter gives its color. A reflector met from outside with shininess
    /// traces a glossy reflection (skipping itself); one with transparency
    /// traces the refracted ray (skipping itself only where that ray goes on
    /// inside it); it then blends as `surface_color` says. Each further ray
    /// has one bounce fewer, so the recursion never goes deeper than
    /// `bounces_left`.
    pub fn project_ray<G: Geometry>(
        &self,
        geometry: &G,
        ray: &G::Ray,
        bounces_left: usize,
        ignore: Option<usize>,
    ) -> (t: Traced)
        ensures
            shades(geometry, self.objects(), *ray, t, bounces_left, ignore),
            bounces_left > 0 ==> (t.shape is None <==> !meets_any(geometry, *ray, ignore, self.objects().len())),
        decreases bounces_left,
    {
        if bounces_left == 0 {
            return Traced::miss();
        }
        let (id, contact) = match self.find_closest_contact(geometry, ray, ignore) {
            Some(found) => found,
            None => {
                return Traced::miss();
            },
        };
        let properties = self.objects[id];
        let from_inside = geometry.is_from_inside(&contact);
        match properties.shape_type {
            ShapeType::Emitter => Traced {
                color: properties.color,
                shape: Some(id),
                from_inside,
                reflected: None,
                refracted: None,
                refracted_inside: false,
                depth: 0,
            },
            ShapeType::Reflector { shininess, transparency } => {
                let mut depth: usize = 0;
                let mut reflected: Option<Color> = None;
                if !from_inside {
                    if let Some(sh) = shininess {
                        if let Some(new_ray) = geometry.glossy_reflection(ray, &contact, sh.roughness) {
                            let t = self.project_ray(geometry, &new_ray, bounces_left - 1, Some(id));
                            assert(traced_ray(new_ray, t));
                            assert(shaded_ray_color(geometry, self.objects(), (bounces_left - 1) as usize, Some(id), t.color));
                            reflected = Some(t.color);
                            depth = t.depth + 1;
                        }
                    }
                }
                let mut refracted: Option<Color> = None;
                let mut refracted_inside = false;
                if let Some(tr) = transparency {
                    let (incident, entered) = refraction_indices(from_inside, tr.density);
                    let (new_ray, inside) = geometry.refraction(ray, &contact, incident, entered);
                    let skip = if inside {
                        Some(id)
                    } else {
                        None
                    };
                    let t = self.project_ray(geometry, &new_ray, bounces_left - 1, skip);
                    assert(traced_ray(new_ray, t));
                    assert(shaded_ray_color(geometry, self.objects(), (bounces_left - 1) as usize, skip, t.color));
                    refracted = Some(t.color);
                    refracted_inside = inside;
                    if t.depth + 1 > depth {
                        depth = t.depth + 1;
                    }
                }
                let color = properties.surface_color(from_inside, reflected, refracted);
                let traced = Traced {
                    color,
                    shape: Some(id),
                    from_inside,
                    reflected,
                    refracted,
                    refracted_inside,
                    depth,
                };
                assert(shades(geometry, self.objects(), *ray, traced, bounces_left, ignore));
                traced
            },
        }
    }

    /// The color seen along a camera ray, with the scene's bounce budget.
    pub fn get_pixel_color<G: Geometry>(&self, geometry: &G, ray: &G::Ray) -> (c: Color)
        ensures
            exists|t: Traced| #[trigger]
                shades(geometry, self.objects(), *ray, t, self.max_bounces(), None) && t.color == c,
            is_shaded(geometry, self.objects(), self.max_bounces(), c),
    {
        let t = self.project_ray(geometry, ray, self.max_bounce_count, None);
        assert(shades(geometry, self.objects(), *ray, t, self.max_bounces(), None));
        t.color
    }
    /// Renders columns `start` up to `end` (excluded) of an image `width` by
    /// `height` pixels: one camera ray through each pixel, shaded with the
    /// scene's bounce budget.
    pub fn render_columns<G: Geometry>(
        &self,
        geometry: &G,
        start: u32,
        end: u32,
        width: u32,
        height: u32,
    ) -> (r: ColorColumnRange)
        requires
            start <= end,
        ensures
            r.starting_column == start,
            r.color_columns.len() == end - start,
            forall|k: int| 0 <= k < r.color_columns.len() ==> #[trigger] r.color_columns[k].len() == height,
            forall|k: int, j: int|
                0 <= k < r.color_columns.len() && 0 <= j < height ==> is_shaded(geometry, self.objects(), self.max_bounces(), #[trigger] r.color_columns[k]@[j]),
    {
        let mut columns: Vec<Vec<Color>> = Vec::new();
        let mut x: u32 = start;
        while x < end
            invariant
                start <= x <= end,
                columns.len() == x - start,
                forall|k: int| 0 <= k < columns.len() ==> #[trigger] columns[k].len() == height,
                forall|k: int, j: int|
                    0 <= k < columns.len() && 0 <= j < height ==> is_shaded(geometry, self.objects(), self.max_bounces(), #[trigger] columns[k]@[j]),
            decreases end - x,
        {
            let offset_x = offset_from_middle(x, width);
            let mut column: Vec<Color> = Vec::new();
            let mut y: u32 = 0;
            while y < height
                invariant
                    y <= height,
                    column.len() == y,
                    forall|j: int| 0 <= j < column.len() ==> is_shaded(geometry, self.objects(), self.max_bounces(), #[trigger] column[j]),
                decreases height - y,
            {
                let ray = geometry.camera_ray(offset_x, offset_from_middle(y, height));
                let c = self.get_pixel_color(geometry, &ray);
                column.push(c);
                y = y + 1;
            }
            let ghost before = columns@;
            columns.push(column);
            assert forall|k: int, j: int|
                0 <= k < columns.len() && 0 <= j < height implies is_shaded(
                geometry,
                self.objects(),
                self.max_bounces(),
                #[trigger] columns[k]@[j],
            ) by {
                if k < before.len() {
                    assert(columns[k] == before[k]);
                }
            }
            x = x + 1;
        }
        ColorColumnRange { starting_column: start, color_columns: columns }
    }
}

} // verus!
