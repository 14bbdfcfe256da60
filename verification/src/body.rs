//! Bodies: what describes one before it exists, and the record kept of one
//! while it lives.

use crate::scalar::{
    floor_sqrt, is_floor_sqrt, isqrt, lemma_floor_sqrt_exists, lemma_floor_sqrt_monotone, Scalar,
    SCALE,
};
use crate::vector::Vec2;
use vstd::prelude::*;

verus! {

/// Two pi, in millionths, rounded down.
pub const TWO_PI_RAW: i64 = 6_283_185;

/// Square of the factor between the root of the mass per angle and the radius.
pub const RADIUS_FACTOR_SQUARED: i64 = 25;

/// Why an operation declined to act.
#[derive(Clone, Copy, Debug, PartialEq, Eq, Structural)]
pub enum SimError {
    /// A mass was zero or negative.
    InvalidMass,
    /// A computed quantity has no representation.
    NonFiniteResult,
    /// The body has no dominant partner, or the partner is gone.
    MissingPartner,
    /// No live body has the given identity.
    UnknownBody,
    /// Every identity has been handed out.
    RegistryFull,
}

/// The stable identity of a body.
#[derive(Clone, Copy, Debug, PartialEq, Eq, Structural)]
pub struct BodyId {
    pub number: u64,
}

/// The strongest pairwise attraction on a body, and who exerts it.
#[derive(Clone, Copy, Debug, PartialEq, Eq, Structural)]
pub struct DominantPartner {
    pub id: BodyId,
    pub magnitude: Scalar,
}

/// A sum of pairwise forces, in millionths, wide enough that no number of
/// representable contributions can overflow it.
#[derive(Clone, Copy, Debug, PartialEq, Eq, Structural)]
pub struct Force {
    pub x: i128,
    pub y: i128,
}

/// The record of a live body.
#[derive(Clone, Copy, Debug, PartialEq, Eq)]
pub struct Body {
    pub id: BodyId,
    pub position: Vec2,
    pub velocity: Vec2,
    pub mass: Scalar,
    pub force: Force,
    pub partner: Option<DominantPartner>,
}

/// What is needed to bring a body into being.
#[derive(Clone, Copy, Debug, PartialEq, Eq, Structural)]
pub struct CelestialBody {
    pub position: Vec2,
    pub velocity: Vec2,
    pub mass: Scalar,
}

/// The picture that stands for a body.
#[derive(Clone, Copy, Debug, PartialEq, Eq, Structural)]
pub enum SpriteKind {
    /// For masses under one unit.
    Moon,
    /// For masses from one unit to under seven.
    Earth,
    /// For masses of seven units and more.
    Sun,
}

/// The picture of a body and the side of the square it is drawn in.
#[derive(Clone, Copy, Debug, PartialEq, Eq, Structural)]
pub struct Sprite {
    pub kind: SpriteKind,
    /// Twice the body's radius.
    pub size: Scalar,
}

/// The picture that stands for a body of mass `mass`.
pub open spec fn spec_sprite_kind(mass: Scalar) -> SpriteKind {
    if mass@ < SCALE {
        SpriteKind::Moon
    } else if mass@ < 7 * SCALE {
        SpriteKind::Earth
    } else {
        SpriteKind::Sun
    }
}

/// Raw radius of a body of raw mass `mass`: five times the square root of the
/// mass over two pi, with a single rounding down.
pub open spec fn spec_radius(mass: int) -> int {
    floor_sqrt((RADIUS_FACTOR_SQUARED * SCALE * SCALE * mass) / (TWO_PI_RAW as int))
}

impl Default for CelestialBody {
    /// A body of unit mass, at rest at the origin.
    fn default() -> (r: CelestialBody)
        ensures
            r.position.x@ == 0,
            r.position.y@ == 0,
            r.velocity.x@ == 0,
            r.velocity.y@ == 0,
            r.mass@ == SCALE,
    {
        CelestialBody {
            position: Vec2 { x: Scalar { raw: 0 }, y: Scalar { raw: 0 } },
            velocity: Vec2 { x: Scalar { raw: 0 }, y: Scalar { raw: 0 } },
            mass: Scalar { raw: 1_000_000 },
        }
    }
}

impl CelestialBody {
    /// The same body at another position.
    pub fn with_position(&self, position: Vec2) -> (r: CelestialBody)
        ensures
            r == (CelestialBody { position, ..*self }),
    {
        CelestialBody { position, velocity: self.velocity, mass: self.mass }
    }

    /// The same body with another velocity.
    pub fn with_velocity(&self, velocity: Vec2) -> (r: CelestialBody)
        ensures
            r == (CelestialBody { velocity, ..*self }),
    {
        CelestialBody { position: self.position, velocity, mass: self.mass }
    }

    /// The same body with another mass, which must be positive.
    pub fn with_mass(&self, mass: Scalar) -> (r: Result<CelestialBody, SimError>)
        ensures
            mass@ > 0 ==> r == Ok::<CelestialBody, SimError>(CelestialBody { mass, ..*self }),
            mass@ <= 0 ==> r == Err::<CelestialBody, SimError>(SimError::InvalidMass),
    {
        if mass.raw > 0 {
            Ok(CelestialBody { position: self.position, velocity: self.velocity, mass })
        } else {
            Err(SimError::InvalidMass)
        }
    }

    /// Radius of a body of the given mass, at constant areal density.
    pub fn radius_from_mass(mass: Scalar) -> (r: Result<Scalar, SimError>)
        ensures
            mass@ > 0 ==> r.is_ok() && r.unwrap()@ == spec_radius(mass@) && r.unwrap()@ > 0,
            mass@ <= 0 ==> r == Err::<Scalar, SimError>(SimError::InvalidMass),
    {
        if mass.raw <= 0 {
            return Err(SimError::InvalidMass);
        }
        let scaled: u128 = 25_000_000_000_000 * (mass.raw as u128);
        let n: u128 = scaled / 6_283_185;
        let root: u128 = isqrt(n);
        proof {
            lemma_radius_bounds(mass@, root as int);
        }
        Ok(Scalar { raw: root as i64 })
    }
}

/// The picture of a body of mass `mass`, sized to the body's diameter.
pub fn choose_sprite(mass: Scalar) -> (r: Result<Sprite, SimError>)
    ensures
        mass@ > 0 ==> r == Ok::<Sprite, SimError>(
            Sprite {
                kind: spec_sprite_kind(mass),
                size: Scalar { raw: (2 * spec_radius(mass@)) as i64 },
            },
        ),
        mass@ > 0 ==> 0 < 2 * spec_radius(mass@) <= i64::MAX,
        mass@ <= 0 ==> r == Err::<Sprite, SimError>(SimError::InvalidMass),
{
    let radius = match CelestialBody::radius_from_mass(mass) {
        Ok(radius) => radius,
        Err(e) => {
            return Err(e);
        },
    };
    proof {
        lemma_radius_small(mass@);
    }
    let kind = if mass.raw < 1_000_000 {
        SpriteKind::Moon
    } else if mass.raw < 7_000_000 {
        SpriteKind::Earth
    } else {
        SpriteKind::Sun
    };
    Ok(Sprite { kind, size: Scalar { raw: 2 * radius.raw } })
}

/// Twice the radius of a representable mass is representable.
proof fn lemma_radius_small(mass: int)
    requires
        0 < mass <= 0x7FFF_FFFF_FFFF_FFFF,
    ensures
        2 * spec_radius(mass) <= 0x7FFF_FFFF_FFFF_FFFF,
{
    let n = (RADIUS_FACTOR_SQUARED * SCALE * SCALE * mass) / (TWO_PI_RAW as int);
    assert(RADIUS_FACTOR_SQUARED * SCALE * SCALE * mass == 25_000_000_000_000 * mass);
    assert(0 <= n < 0x4000_0000_0000_0000_0000_0000);
    lemma_floor_sqrt_exists(n);
    let root = spec_radius(mass);
    if root >= 0x2000_0000_0000 {
        assert(root * root >= 0x2000_0000_0000 * 0x2000_0000_0000) by (nonlinear_arith)
            requires
                root >= 0x2000_0000_0000,
        ;
    }
}

/// The radius of a positive representable mass is positive and representable.
pub proof fn lemma_radius_bounds(mass: int, root: int)
    requires
        0 < mass <= 0x7FFF_FFFF_FFFF_FFFF,
        is_floor_sqrt((RADIUS_FACTOR_SQUARED * SCALE * SCALE * mass) / (TWO_PI_RAW as int), root),
    ensures
        0 < root < 0x7FFF_FFFF_FFFF_FFFF,
{
    let n = (25_000_000_000_000 * mass) / 6_283_185;
    assert(RADIUS_FACTOR_SQUARED * SCALE * SCALE * mass == 25_000_000_000_000 * mass);
    assert(1 <= n < 0x4000_0000_0000_0000_0000_0000);
    if root <= 0 {
        assert((root + 1) * (root + 1) <= 1) by (nonlinear_arith)
            requires
                root == 0,
        ;
    }
    if root >= 0x7FFF_FFFF_FFFF_FFFF {
        assert(root * root >= 0x7FFF_FFFF_FFFF_FFFF * 0x7FFF_FFFF_FFFF_FFFF) by (nonlinear_arith)
            requires
                root >= 0x7FFF_FFFF_FFFF_FFFF,
        ;
    }
}

/// A positive mass has a positive radius.
pub proof fn lemma_radius_positive(mass: int)
    requires
        0 < mass,
    ensures
        spec_radius(mass) > 0,
{
    let n = (RADIUS_FACTOR_SQUARED * SCALE * SCALE * mass) / (TWO_PI_RAW as int);
    assert(RADIUS_FACTOR_SQUARED * SCALE * SCALE * mass == 25_000_000_000_000 * mass);
    assert(n >= 1);
    lemma_floor_sqrt_exists(n);
    let root = spec_radius(mass);
    if root <= 0 {
        assert((root + 1) * (root + 1) <= 1) by (nonlinear_arith)
            requires
                root == 0,
        ;
    }
}

/// The radius never decreases as the mass grows, and two masses with different
/// radii have them in the order of the masses.
pub proof fn lemma_radius_monotone(m1: int, m2: int)
    requires
        0 < m1 < m2,
    ensures
        spec_radius(m1) <= spec_radius(m2),
        spec_radius(m1) != spec_radius(m2) ==> spec_radius(m1) < spec_radius(m2),
{
    let n1 = (RADIUS_FACTOR_SQUARED * SCALE * SCALE * m1) / (TWO_PI_RAW as int);
    let n2 = (RADIUS_FACTOR_SQUARED * SCALE * SCALE * m2) / (TWO_PI_RAW as int);
    assert(RADIUS_FACTOR_SQUARED * SCALE * SCALE * m1 == 25_000_000_000_000 * m1);
    assert(RADIUS_FACTOR_SQUARED * SCALE * SCALE * m2 == 25_000_000_000_000 * m2);
    assert(0 <= n1 <= n2);
    lemma_floor_sqrt_exists(n1);
    lemma_floor_sqrt_exists(n2);
    lemma_floor_sqrt_monotone(n1, n2, spec_radius(m1), spec_radius(m2));
}

/// While the radius is under 1.989435 units, it grows strictly with the mass.
pub proof fn lemma_radius_strict(m1: int, m2: int)
    requires
        0 < m1 < m2,
        spec_radius(m1) <= 1_989_435,
    ensures
        spec_radius(m1) < spec_radius(m2),
{
    let n1 = (RADIUS_FACTOR_SQUARED * SCALE * SCALE * m1) / (TWO_PI_RAW as int);
    let n2 = (RADIUS_FACTOR_SQUARED * SCALE * SCALE * m2) / (TWO_PI_RAW as int);
    assert(RADIUS_FACTOR_SQUARED * SCALE * SCALE * m1 == 25_000_000_000_000 * m1);
    assert(RADIUS_FACTOR_SQUARED * SCALE * SCALE * m2 == 25_000_000_000_000 * m2);
    lemma_floor_sqrt_exists(n1);
    lemma_floor_sqrt_exists(n2);
    let r1 = spec_radius(m1);
    let r2 = spec_radius(m2);
    assert(n2 >= n1 + 3_978_872);
    assert((r1 + 1) * (r1 + 1) == r1 * r1 + 2 * r1 + 1) by (nonlinear_arith);
    assert(n2 >= (r1 + 1) * (r1 + 1));
    if r2 <= r1 {
        assert((r2 + 1) * (r2 + 1) <= (r1 + 1) * (r1 + 1)) by (nonlinear_arith)
            requires
                0 <= r2 <= r1,
        ;
    }
}

} // verus!
