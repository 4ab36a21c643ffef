use vstd::prelude::*;

verus! {

/// Width of the hero section's drawing surface, in logical pixels.
pub const SURFACE_WIDTH: u32 = 1920;

/// Height of the hero section's drawing surface, in logical pixels.
pub const SURFACE_HEIGHT: u32 = 1280;

/// Number of particles in the decorative field.
pub const PARTICLE_COUNT: u32 = 120;

/// Number of connective line segments.
pub const LINK_COUNT: u32 = 40;

/// Opacity of every connective line, in hundredths.
pub const LINK_ALPHA_PERCENT: u64 = 4;

/// Stroke width of every connective line, in tenths of a pixel.
pub const LINK_WIDTH_TENTHS: u64 = 5;

/// One filled circle of the field. Positions and radius are in tenths of a
/// pixel, opacity in hundredths, so every value is exact.
#[derive(Clone, Copy, Debug, PartialEq, Eq, Structural)]
pub struct Particle {
    pub x_tenths: u64,
    pub y_tenths: u64,
    pub radius_tenths: u64,
    pub alpha_percent: u64,
}

/// One connective line segment, endpoints in whole pixels.
#[derive(Clone, Copy, Debug, PartialEq, Eq, Structural)]
pub struct Link {
    pub x1: u64,
    pub y1: u64,
    pub x2: u64,
    pub y2: u64,
}

/// The `i`-th particle on a `width` by `height` surface:
/// x = (i * 17.3) mod width, y = (i * 13.7) mod height,
/// radius = (0.5 + i mod 3) * 1.2, alpha = 0.08 + (i mod 10) * 0.04.
pub open spec fn particle_at(i: nat, width: nat, height: nat) -> Particle {
    Particle {
        x_tenths: ((i * 173) % (width * 10)) as u64,
        y_tenths: ((i * 137) % (height * 10)) as u64,
        radius_tenths: (6 + 12 * (i % 3)) as u64,
        alpha_percent: (8 + 4 * (i % 10)) as u64,
    }
}

/// The `i`-th line segment on a `width` by `height` surface: from
/// ((i * 41) mod width, (i * 37) mod height) to
/// (((i + 10) * 31) mod width, ((i + 15) * 29) mod height).
pub open spec fn link_at(i: nat, width: nat, height: nat) -> Link {
    Link {
        x1: ((i * 41) % width) as u64,
        y1: ((i * 37) % height) as u64,
        x2: (((i + 10) * 31) % width) as u64,
        y2: (((i + 15) * 29) % height) as u64,
    }
}

/// `ps` is the whole particle field of a `width` by `height` surface.
pub open spec fn is_particle_field(ps: Seq<Particle>, width: nat, height: nat) -> bool {
    &&& ps.len() == PARTICLE_COUNT
    &&& forall|i: int| 0 <= i < ps.len() ==> #[trigger] ps[i] == particle_at(i as nat, width, height)
}

/// `ls` is the whole set of line segments of a `width` by `height` surface.
pub open spec fn is_link_field(ls: Seq<Link>, width: nat, height: nat) -> bool {
    &&& ls.len() == LINK_COUNT
    &&& forall|i: int| 0 <= i < ls.len() ==> #[trigger] ls[i] == link_at(i as nat, width, height)
}

/// Every particle lies on the surface, with one of three radii and an
/// opacity between 0.08 and 0.44.
pub proof fn lemma_particle_on_surface(i: nat, width: nat, height: nat)
    requires
        width > 0,
        height > 0,
    ensures
        particle_at(i, width, height).x_tenths < width * 10,
        particle_at(i, width, height).y_tenths < height * 10,
        particle_at(i, width, height).radius_tenths == 6 || particle_at(i, width, height).radius_tenths
            == 18 || particle_at(i, width, height).radius_tenths == 30,
        8 <= particle_at(i, width, height).alpha_percent <= 44,
{
}

/// The field is reproducible: any two derivations for one surface agree
/// particle by particle.
pub proof fn lemma_particle_field_reproducible(
    a: Seq<Particle>,
    b: Seq<Particle>,
    width: nat,
    height: nat,
)
    requires
        is_particle_field(a, width, height),
        is_particle_field(b, width, height),
    ensures
        a == b,
{
    assert(a =~= b);
}

/// The line segments are reproducible in the same way.
pub proof fn lemma_link_field_reproducible(a: Seq<Link>, b: Seq<Link>, width: nat, height: nat)
    requires
        is_link_field(a, width, height),
        is_link_field(b, width, height),
    ensures
        a == b,
{
    assert(a =~= b);
}

/// The `i`-th particle of a `width` by `height` surface.
pub fn particle(i: u32, width: u32, height: u32) -> (p: Particle)
    requires
        width > 0,
        height > 0,
    ensures
        p == particle_at(i as nat, width as nat, height as nat),
{
    let i = i as u64;
    Particle {
        x_tenths: i * 173 % (width as u64 * 10),
        y_tenths: i * 137 % (height as u64 * 10),
        radius_tenths: 6 + 12 * (i % 3),
        alpha_percent: 8 + 4 * (i % 10),
    }
}

/// The `i`-th connective line segment of a `width` by `height` surface.
pub fn link(i: u32, width: u32, height: u32) -> (l: Link)
    requires
        width > 0,
        height > 0,
    ensures
        l == link_at(i as nat, width as nat, height as nat),
{
    let i = i as u64;
    Link {
        x1: i * 41 % width as u64,
        y1: i * 37 % height as u64,
        x2: (i + 10) * 31 % width as u64,
        y2: (i + 15) * 29 % height as u64,
    }
}

/// All particles of a `width` by `height` surface, in index order.
pub fn particle_field(width: u32, height: u32) -> (r: Vec<Particle>)
    requires
        width > 0,
        height > 0,
    ensures
        is_particle_field(r@, width as nat, height as nat),
{
    let mut r: Vec<Particle> = Vec::new();
    let mut i: u32 = 0;
    while i < PARTICLE_COUNT
        invariant
            width > 0,
            height > 0,
            i <= PARTICLE_COUNT,
            r@.len() == i,
            forall|j: int| 0 <= j < i ==> #[trigger] r@[j] == particle_at(j as nat, width as nat, height as nat),
        decreases PARTICLE_COUNT - i,
    {
        r.push(particle(i, width, height));
        i = i + 1;
    }
    r
}

/// All connective line segments of a `width` by `height` surface, in index
/// order.
pub fn link_field(width: u32, height: u32) -> (r: Vec<Link>)
    requires
        width > 0,
        height > 0,
    ensures
        is_link_field(r@, width as nat, height as nat),
{
    let mut r: Vec<Link> = Vec::new();
    let mut i: u32 = 0;
    while i < LINK_COUNT
        invariant
            width > 0,
            height > 0,
            i <= LINK_COUNT,
            r@.len() == i,
            forall|j: int| 0 <= j < i ==> #[trigger] r@[j] == link_at(j as nat, width as nat, height as nat),
        decreases LINK_COUNT - i,
    {
        r.push(link(i, width, height));
        i = i + 1;
    }
    r
}

} // verus!
