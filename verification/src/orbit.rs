//! The instantaneous Kepler orbit of a body about its dominant partner.
//!
//! From the position and velocity of a body relative to its partner come the
//! orbital elements, the kind of conic they describe, and the conic itself as
//! a finite sequence of sample angles, each of which yields one point.

use crate::body::{Body, BodyId, SimError};
use crate::registry::{has_id, lookup, BodyRegistry};
use crate::scalar::{lemma_floor_sqrt_exists, trunc_div, Scalar, SCALE};
use crate::vector::{both, Vec2};
use vstd::prelude::*;

verus! {

/// Pi, in millionths, rounded to nearest.
pub const PI_RAW: i64 = 3_141_593;

/// Three quarters of pi, in millionths, rounded down.
pub const THREE_QUARTER_PI_RAW: i64 = 2_356_194;

/// One half, in millionths.
pub const HALF_RAW: i64 = 500_000;

/// The elements of a Kepler orbit.
#[derive(Clone, Copy, Debug, PartialEq, Eq, Structural)]
pub struct OrbitalElements {
    /// Specific angular momentum `h`.
    pub angular_momentum: Scalar,
    /// Eccentricity vector.
    pub eccentricity_vector: Vec2,
    /// Eccentricity `e`, the length of the eccentricity vector.
    pub eccentricity: Scalar,
    /// Semi-latus rectum `p`.
    pub semi_latus_rectum: Scalar,
    /// Specific orbital energy.
    pub energy: Scalar,
}

/// The two kinds of conic.
#[derive(Clone, Copy, Debug, PartialEq, Eq, Structural)]
pub enum OrbitKind {
    /// A circle or an ellipse: eccentricity below one.
    Closed,
    /// A parabola or a hyperbola: eccentricity one or more.
    Open,
}

/// A predicted orbit: its elements, its kind, and where it is drawn.
#[derive(Clone, Copy, Debug, PartialEq, Eq, Structural)]
pub struct Prediction {
    pub elements: OrbitalElements,
    pub kind: OrbitKind,
    /// Position of the partner, about which the conic is drawn.
    pub centre: Vec2,
    /// World units per unit of length.
    pub length_scale: Scalar,
}

/// Predicts orbits under a given gravitational constant and length scale.
#[derive(Clone, Copy, Debug, PartialEq, Eq, Structural)]
pub struct TrajectoryPredictor {
    pub gravitational_constant: Scalar,
    pub length_scale: Scalar,
}

/// `a + b` for optional scalars.
pub open spec fn add_opt(a: Option<Scalar>, b: Option<Scalar>) -> Option<Scalar> {
    match (a, b) {
        (Some(a), Some(b)) => a.spec_add(b),
        _ => None,
    }
}

/// `a - b` for optional scalars.
pub open spec fn sub_opt(a: Option<Scalar>, b: Option<Scalar>) -> Option<Scalar> {
    match (a, b) {
        (Some(a), Some(b)) => a.spec_sub(b),
        _ => None,
    }
}

/// `a * b` for optional scalars.
pub open spec fn mul_opt(a: Option<Scalar>, b: Option<Scalar>) -> Option<Scalar> {
    match (a, b) {
        (Some(a), Some(b)) => a.spec_mul(b),
        _ => None,
    }
}

/// `a / b` for optional scalars.
pub open spec fn div_opt(a: Option<Scalar>, b: Option<Scalar>) -> Option<Scalar> {
    match (a, b) {
        (Some(a), Some(b)) => a.spec_div(b),
        _ => None,
    }
}

/// `-a` for an optional scalar.
pub open spec fn neg_opt(a: Option<Scalar>) -> Option<Scalar> {
    match a {
        Some(a) => a.spec_neg(),
        None => None,
    }
}

/// `(a - b) / length_scale`: a difference of world vectors in units of length.
pub open spec fn spec_relative(a: Vec2, b: Vec2, length_scale: Scalar) -> Option<Vec2> {
    match a.spec_sub(b) {
        Some(d) => d.spec_div(length_scale),
        None => None,
    }
}

/// Gravitational parameter `g * (m + mp)`.
pub open spec fn spec_mu(g: Scalar, m: Scalar, mp: Scalar) -> Option<Scalar> {
    mul_opt(Some(g), m.spec_add(mp))
}

/// Eccentricity vector `(v x h) / mu - r / |r|` for relative position `r`,
/// relative velocity `v` and angular momentum `h`.
pub open spec fn spec_eccentricity_vector(r: Vec2, v: Vec2, h: Scalar, mu: Scalar) -> Option<Vec2> {
    match r.spec_normalize() {
        Some(u) => both(
            sub_opt(div_opt(v.y.spec_mul(h), Some(mu)), Some(u.x)),
            sub_opt(div_opt(neg_opt(v.x.spec_mul(h)), Some(mu)), Some(u.y)),
        ),
        None => None,
    }
}

/// Specific orbital energy `|v|^2 / 2 - mu / |r|`.
pub open spec fn spec_energy(r: Vec2, v: Vec2, mu: Scalar) -> Option<Scalar> {
    sub_opt(
        mul_opt(Some(Scalar { raw: HALF_RAW }), v.spec_length_squared()),
        div_opt(Some(mu), r.spec_length()),
    )
}

/// The elements of the orbit with relative position `r`, relative velocity
/// `v` and gravitational parameter `mu`, where each has a representation.
pub open spec fn spec_elements(r: Vec2, v: Vec2, mu: Scalar) -> Option<OrbitalElements> {
    match r.spec_cross(v) {
        Some(h) => match spec_eccentricity_vector(r, v, h, mu) {
            Some(e_vec) => match (
                e_vec.spec_length(),
                div_opt(h.spec_mul(h), Some(mu)),
                spec_energy(r, v, mu),
            ) {
                (Some(e), Some(p), Some(energy)) => Some(
                    OrbitalElements {
                        angular_momentum: h,
                        eccentricity_vector: e_vec,
                        eccentricity: e,
                        semi_latus_rectum: p,
                        energy,
                    },
                ),
                _ => None,
            },
            None => None,
        },
        None => None,
    }
}

/// The elements of the orbit of `body` about `partner`.
pub open spec fn spec_orbital_elements(body: Body, partner: Body, g: Scalar, length_scale: Scalar)
    -> Option<OrbitalElements> {
    match (
        spec_relative(body.position, partner.position, length_scale),
        spec_relative(body.velocity, partner.velocity, length_scale),
        spec_mu(g, body.mass, partner.mass),
    ) {
        (Some(r), Some(v), Some(mu)) => spec_elements(r, v, mu),
        _ => None,
    }
}

/// Kind of the conic with eccentricity `e`: closed below one, open from one
/// on.
pub open spec fn spec_classify(e: Scalar) -> OrbitKind {
    if e@ < SCALE {
        OrbitKind::Closed
    } else {
        OrbitKind::Open
    }
}

/// The partner that the prediction for body `id` is made about, if the body
/// has one and it is live.
pub open spec fn spec_partner(s: Seq<Body>, id: BodyId) -> Option<Body> {
    match lookup(s, id) {
        Some(body) => match body.partner {
            Some(p) => lookup(s, p.id),
            None => None,
        },
        None => None,
    }
}

/// The elements of the orbit of body `id` about its dominant partner.
pub open spec fn spec_get_orbital_elements(
    s: Seq<Body>,
    id: BodyId,
    g: Scalar,
    length_scale: Scalar,
) -> Result<OrbitalElements, SimError> {
    if !has_id(s, id) {
        Err(SimError::UnknownBody)
    } else {
        match spec_partner(s, id) {
            None => Err(SimError::MissingPartner),
            Some(partner) => match spec_orbital_elements(
                lookup(s, id).unwrap(),
                partner,
                g,
                length_scale,
            ) {
                Some(elements) => Ok(elements),
                None => Err(SimError::NonFiniteResult),
            },
        }
    }
}

/// The prediction for body `id`.
pub open spec fn spec_predict(s: Seq<Body>, id: BodyId, g: Scalar, length_scale: Scalar) -> Result<
    Prediction,
    SimError,
> {
    match spec_get_orbital_elements(s, id, g, length_scale) {
        Ok(elements) => Ok(
            Prediction {
                elements,
                kind: spec_classify(elements.eccentricity),
                centre: spec_partner(s, id).unwrap().position,
                length_scale,
            },
        ),
        Err(e) => Err(e),
    }
}

/// Number of sample steps on either side of angle zero, at `resolution` steps
/// per half turn: a full half turn for a closed orbit, three quarters of one
/// for an open orbit.
pub open spec fn spec_half_span(kind: OrbitKind, resolution: int) -> int {
    match kind {
        OrbitKind::Closed => resolution,
        OrbitKind::Open => (resolution * 3) / 4,
    }
}

/// Number of samples: none at resolution zero, else one at angle zero and
/// one for each step on either side.
pub open spec fn spec_sample_count(kind: OrbitKind, resolution: int) -> int {
    if resolution <= 0 {
        0
    } else {
        2 * spec_half_span(kind, resolution) + 1
    }
}

/// Raw angle, in radians, of the sample `index`: the sample's distance in
/// steps from angle zero, times pi over the resolution.
pub open spec fn spec_sample_angle(kind: OrbitKind, resolution: int, index: int) -> int {
    trunc_div((index - spec_half_span(kind, resolution)) * PI_RAW, resolution)
}

/// Distance from the focus at the angle whose cosine is `cos`:
/// `p / (1 + e * cos)`.
pub open spec fn spec_conic_radius(p: Scalar, e: Scalar, cos: Scalar) -> Option<Scalar> {
    div_opt(Some(p), add_opt(Some(Scalar { raw: SCALE }), e.spec_mul(cos)))
}

/// The point of the conic in the direction `(cos, sin)`, in world units:
/// the point in units of length about the partner, brought back to world
/// units.
pub open spec fn spec_point(prediction: Prediction, direction: Vec2) -> Option<Vec2> {
    match (
        spec_conic_radius(
            prediction.elements.semi_latus_rectum,
            prediction.elements.eccentricity,
            direction.x,
        ),
        prediction.centre.spec_div(prediction.length_scale),
    ) {
        (Some(radius), Some(offset)) => match direction.spec_scale(radius) {
            Some(arm) => match arm.spec_add(offset) {
                Some(point) => point.spec_scale(prediction.length_scale),
                None => None,
            },
            None => None,
        },
        _ => None,
    }
}

/// `(a - b) / length_scale`.
fn relative(a: Vec2, b: Vec2, length_scale: Scalar) -> (r: Option<Vec2>)
    ensures
        r == spec_relative(a, b, length_scale),
{
    match a.sub(b) {
        Some(d) => d.div(length_scale),
        None => None,
    }
}

/// Eccentricity vector.
fn eccentricity_vector(r: Vec2, v: Vec2, h: Scalar, mu: Scalar) -> (e: Option<Vec2>)
    ensures
        e == spec_eccentricity_vector(r, v, h, mu),
{
    let u = match r.normalize() {
        Some(u) => u,
        None => {
            return None;
        },
    };
    let vyh = match v.y.mul(h) {
        Some(x) => x,
        None => {
            return None;
        },
    };
    let vxh = match v.x.mul(h) {
        Some(x) => x,
        None => {
            return None;
        },
    };
    let minus_vxh = match vxh.neg() {
        Some(x) => x,
        None => {
            return None;
        },
    };
    let first = match vyh.div(mu) {
        Some(q) => q.sub(u.x),
        None => None,
    };
    let second = match minus_vxh.div(mu) {
        Some(q) => q.sub(u.y),
        None => None,
    };
    match (first, second) {
        (Some(x), Some(y)) => Some(Vec2 { x, y }),
        _ => None,
    }
}

/// Specific orbital energy.
fn energy(r: Vec2, v: Vec2, mu: Scalar) -> (e: Option<Scalar>)
    ensures
        e == spec_energy(r, v, mu),
{
    let kinetic = match v.length_squared() {
        Some(v2) => Scalar { raw: 500_000 }.mul(v2),
        None => None,
    };
    let potential = match r.length() {
        Some(len) => mu.div(len),
        None => None,
    };
    match (kinetic, potential) {
        (Some(k), Some(p)) => k.sub(p),
        _ => None,
    }
}

/// The elements of the orbit with relative position `r`, relative velocity
/// `v` and gravitational parameter `mu`.
pub fn elements_from_state(r: Vec2, v: Vec2, mu: Scalar) -> (e: Option<OrbitalElements>)
    ensures
        e == spec_elements(r, v, mu),
{
    let h = match r.cross(v) {
        Some(h) => h,
        None => {
            return None;
        },
    };
    let e_vec = match eccentricity_vector(r, v, h, mu) {
        Some(e) => e,
        None => {
            return None;
        },
    };
    let e = e_vec.length();
    let p = match h.mul(h) {
        Some(h2) => h2.div(mu),
        None => None,
    };
    let en = energy(r, v, mu);
    match (e, p, en) {
        (Some(e), Some(p), Some(en)) => Some(
            OrbitalElements {
                angular_momentum: h,
                eccentricity_vector: e_vec,
                eccentricity: e,
                semi_latus_rectum: p,
                energy: en,
            },
        ),
        _ => None,
    }
}

/// The elements of the orbit of `body` about `partner`.
pub fn orbital_elements(body: &Body, partner: &Body, g: Scalar, length_scale: Scalar) -> (e: Option<
    OrbitalElements,
>)
    ensures
        e == spec_orbital_elements(*body, *partner, g, length_scale),
{
    let r = relative(body.position, partner.position, length_scale);
    let v = relative(body.velocity, partner.velocity, length_scale);
    let mu = match body.mass.add(partner.mass) {
        Some(m) => g.mul(m),
        None => None,
    };
    match (r, v, mu) {
        (Some(r), Some(v), Some(mu)) => elements_from_state(r, v, mu),
        _ => None,
    }
}

/// Kind of the conic with eccentricity `e`. Eccentricity exactly one is open.
pub fn classify(e: Scalar) -> (kind: OrbitKind)
    ensures
        kind == spec_classify(e),
        e@ >= SCALE ==> kind == OrbitKind::Open,
        e@ < SCALE ==> kind == OrbitKind::Closed,
{
    if e.raw < 1_000_000 {
        OrbitKind::Closed
    } else {
        OrbitKind::Open
    }
}

/// The body `id` and its dominant partner, where both are live.
fn body_and_partner(registry: &BodyRegistry, id: BodyId) -> (r: Result<(Body, Body), SimError>)
    requires
        registry.wf(),
    ensures
        !has_id(registry@, id) ==> r == Err::<(Body, Body), SimError>(SimError::UnknownBody),
        has_id(registry@, id) && spec_partner(registry@, id).is_none() ==> r == Err::<
            (Body, Body),
            SimError,
        >(SimError::MissingPartner),
        has_id(registry@, id) && spec_partner(registry@, id).is_some() ==> r == Ok::<
            (Body, Body),
            SimError,
        >((lookup(registry@, id).unwrap(), spec_partner(registry@, id).unwrap())),
{
    let body = match registry.get(id) {
        Some(b) => b,
        None => {
            return Err(SimError::UnknownBody);
        },
    };
    let partner_id = match body.partner {
        Some(p) => p.id,
        None => {
            return Err(SimError::MissingPartner);
        },
    };
    match registry.get(partner_id) {
        Some(partner) => Ok((body, partner)),
        None => Err(SimError::MissingPartner),
    }
}

/// The elements of the orbit of body `id` about its dominant partner.
///
/// There are none for a body that is not live, for one without a dominant
/// partner or whose partner is gone, and where an element has no
/// representation.
pub fn get_orbital_elements(registry: &BodyRegistry, id: BodyId, g: Scalar, length_scale: Scalar)
    -> (r: Result<OrbitalElements, SimError>)
    requires
        registry.wf(),
    ensures
        r == spec_get_orbital_elements(registry@, id, g, length_scale),
{
    match body_and_partner(registry, id) {
        Ok((body, partner)) => match orbital_elements(&body, &partner, g, length_scale) {
            Some(elements) => Ok(elements),
            None => Err(SimError::NonFiniteResult),
        },
        Err(e) => Err(e),
    }
}

impl TrajectoryPredictor {
    /// A predictor for the given gravitational constant and length scale.
    pub fn new(gravitational_constant: Scalar, length_scale: Scalar) -> (r: TrajectoryPredictor)
        ensures
            r == (TrajectoryPredictor { gravitational_constant, length_scale }),
    {
        TrajectoryPredictor { gravitational_constant, length_scale }
    }

    /// Predicts the orbit of body `id` about its dominant partner.
    pub fn predict(&self, registry: &BodyRegistry, id: BodyId) -> (r: Result<Prediction, SimError>)
        requires
            registry.wf(),
        ensures
            r == spec_predict(registry@, id, self.gravitational_constant, self.length_scale),
    {
        match body_and_partner(registry, id) {
            Ok((body, partner)) => match orbital_elements(
                &body,
                &partner,
                self.gravitational_constant,
                self.length_scale,
            ) {
                Some(elements) => Ok(
                    Prediction {
                        elements,
                        kind: classify(elements.eccentricity),
                        centre: partner.position,
                        length_scale: self.length_scale,
                    },
                ),
                None => Err(SimError::NonFiniteResult),
            },
            Err(e) => Err(e),
        }
    }
}

impl Prediction {
    /// Number of sample steps on either side of angle zero.
    pub fn half_span(&self, resolution: u32) -> (r: u32)
        ensures
            r == spec_half_span(self.kind, resolution as int),
            r <= resolution,
    {
        match self.kind {
            OrbitKind::Closed => resolution,
            OrbitKind::Open => (((resolution as u64) * 3) / 4) as u32,
        }
    }

    /// Number of samples at `resolution` steps per half turn.
    pub fn sample_count(&self, resolution: u32) -> (r: u64)
        ensures
            r == spec_sample_count(self.kind, resolution as int),
    {
        if resolution == 0 {
            0
        } else {
            2 * (self.half_span(resolution) as u64) + 1
        }
    }

    /// Angle, in radians, of the sample `index`, for `index` below the number
    /// of samples. The samples run from the most negative angle to the most
    /// positive one in equal steps.
    pub fn sample_angle(&self, resolution: u32, index: u64) -> (r: Option<Scalar>)
        ensures
            r.is_some() == (0 <= index < spec_sample_count(self.kind, resolution as int)),
            r.is_some() ==> r.unwrap()@ == spec_sample_angle(
                self.kind,
                resolution as int,
                index as int,
            ),
            r.is_some() ==> -PI_RAW <= r.unwrap()@ <= PI_RAW,
            r.is_some() && self.kind == OrbitKind::Open ==> -THREE_QUARTER_PI_RAW <= r.unwrap()@
                <= THREE_QUARTER_PI_RAW,
    {
        if index >= self.sample_count(resolution) {
            return None;
        }
        let half: i64 = self.half_span(resolution) as i64;
        let steps: i64 = (index as i64) - half;
        let turn: i64 = steps * 3_141_593;
        let q: i64 = if turn >= 0 {
            turn / (resolution as i64)
        } else {
            -((-turn) / (resolution as i64))
        };
        proof {
            if turn == 0 {
                assert(0int / (resolution as int) == 0) by (nonlinear_arith)
                    requires
                        resolution > 0,
                ;
            }
            let m = if turn >= 0 { turn as int } else { -(turn as int) };
            let d = resolution as int;
            assert(m <= d * PI_RAW);
            assert(m / d <= PI_RAW as int) by (nonlinear_arith)
                requires
                    0 <= m <= d * PI_RAW,
                    d > 0,
            ;
            if self.kind == OrbitKind::Open {
                assert(4 * half <= 3 * d);
                assert(4 * m <= 3 * PI_RAW * d);
                assert(m / d <= THREE_QUARTER_PI_RAW as int) by (nonlinear_arith)
                    requires
                        0 <= m,
                        4 * m <= 9_424_779 * d,
                        d > 0,
                        THREE_QUARTER_PI_RAW == 2_356_194,
                ;
            }
        }
        Some(Scalar { raw: q })
    }

    /// The point of the conic in the direction with cosine `direction.x` and
    /// sine `direction.y`, in world units.
    pub fn point(&self, direction: Vec2) -> (r: Option<Vec2>)
        ensures
            r == spec_point(*self, direction),
    {
        let e_cos = match self.elements.eccentricity.mul(direction.x) {
            Some(x) => x,
            None => {
                return None;
            },
        };
        let denominator = match (Scalar { raw: 1_000_000 }).add(e_cos) {
            Some(x) => x,
            None => {
                return None;
            },
        };
        let radius = match self.elements.semi_latus_rectum.div(denominator) {
            Some(x) => x,
            None => {
                return None;
            },
        };
        let offset = match self.centre.div(self.length_scale) {
            Some(x) => x,
            None => {
                return None;
            },
        };
        let arm = match direction.scale(radius) {
            Some(x) => x,
            None => {
                return None;
            },
        };
        match arm.add(offset) {
            Some(point) => point.scale(self.length_scale),
            None => None,
        }
    }
}

/// Where closed orbits end: an orbit is open exactly when its
/// eccentricity is one or more, so eccentricity exactly one is open, never
/// closed.
pub proof fn lemma_boundary_is_open(e: Scalar)
    ensures
        e@ == SCALE ==> spec_classify(e) == OrbitKind::Open,
        spec_classify(e) == OrbitKind::Open <==> e@ >= SCALE,
        spec_classify(e) == OrbitKind::Closed <==> e@ < SCALE,
{
}

/// A prediction is determined by the records of the body and of its partner:
/// two registries that agree on both give the same prediction, and so does
/// one registry asked twice.
pub proof fn lemma_prediction_is_determined(
    s1: Seq<Body>,
    s2: Seq<Body>,
    id: BodyId,
    g: Scalar,
    length_scale: Scalar,
)
    requires
        lookup(s1, id) == lookup(s2, id),
        spec_partner(s1, id) == spec_partner(s2, id),
    ensures
        spec_predict(s1, id, g, length_scale) == spec_predict(s2, id, g, length_scale),
        spec_get_orbital_elements(s1, id, g, length_scale) == spec_get_orbital_elements(
            s2,
            id,
            g,
            length_scale,
        ),
{
}

/// The eccentricity of an orbit is never negative.
pub proof fn lemma_eccentricity_not_negative(r: Vec2, v: Vec2, mu: Scalar)
    requires
        spec_elements(r, v, mu).is_some(),
    ensures
        spec_elements(r, v, mu).unwrap().eccentricity@ >= 0,
{
    let e_vec = spec_elements(r, v, mu).unwrap().eccentricity_vector;
    let n = e_vec.raw_norm_squared();
    assert(n >= 0) by (nonlinear_arith)
        requires
            n == e_vec.x@ * e_vec.x@ + e_vec.y@ * e_vec.y@,
    ;
    lemma_floor_sqrt_exists(n);
}

} // verus!
