//! The bodies a simulation starts with: three at known places, and a scatter
//! of small ones drawn from a seeded generator, in a fixed order.

use crate::body::{BodyId, CelestialBody, SimError};
use crate::registry::{fresh_body, BodyRegistry};
use crate::scalar::Scalar;
use crate::vector::Vec2;
use rand::rngs::StdRng;
use rand::Rng;
use rand::SeedableRng;
use vstd::prelude::*;

verus! {

/// Number of bodies at known places.
pub const KNOWN_BODIES: usize = 3;

/// Number of scattered bodies.
pub const SCATTERED_BODIES: usize = 10;

/// The standard generator of the `rand` crate, opaque to the verifier.
#[verifier::external_type_specification]
#[verifier::external_body]
pub struct ExStdRng(StdRng);

/// `SeedableRng::from_seed` for `StdRng`: a generator in the state that the
/// seed determines. Nothing is claimed of the numbers it will give.
#[verifier::external_body]
fn seeded_generator(seed: [u8; 32]) -> (rng: StdRng) {
    StdRng::from_seed(seed)
}

/// `Rng::gen_range` on a half-open range of integers: some value that is at
/// least `low` and less than `high`. An empty range is left out, for there
/// the generator panics.
#[verifier::external_body]
fn draw(rng: &mut StdRng, low: i64, high: i64) -> (r: i64)
    requires
        low < high,
    ensures
        low <= r < high,
{
    rng.gen_range(low..high)
}

/// Whether both components of `v` are at least `low` and less than `high`.
pub open spec fn within(v: Vec2, low: int, high: int) -> bool {
    low <= v.x@ < high && low <= v.y@ < high
}

/// What holds of every scattered body: a mass from a tenth of a unit to
/// under one unit, a position within 400 units of the origin along each axis,
/// and a velocity under 50 units along each axis.
pub open spec fn is_scattered(b: CelestialBody) -> bool {
    &&& 100_000 <= b.mass@ < 1_000_000
    &&& within(b.position, -400_000_000, 400_000_000)
    &&& within(b.velocity, -50_000_000, 50_000_000)
}

/// The three bodies at known places: a mass of ten units at rest at the
/// origin, and two of five units each, a hundred units to either side,
/// moving past it.
pub open spec fn spec_known_bodies() -> Seq<CelestialBody> {
    seq![
        CelestialBody {
            position: Vec2 { x: Scalar { raw: 0 }, y: Scalar { raw: 0 } },
            velocity: Vec2 { x: Scalar { raw: 0 }, y: Scalar { raw: 0 } },
            mass: Scalar { raw: 10_000_000 },
        },
        CelestialBody {
            position: Vec2 { x: Scalar { raw: (-100_000_000i64) }, y: Scalar { raw: 0 } },
            velocity: Vec2 { x: Scalar { raw: 60_000_000 }, y: Scalar { raw: 60_000_000 } },
            mass: Scalar { raw: 5_000_000 },
        },
        CelestialBody {
            position: Vec2 { x: Scalar { raw: 100_000_000 }, y: Scalar { raw: 0 } },
            velocity: Vec2 {
                x: Scalar { raw: (-100_000_000i64) },
                y: Scalar { raw: (-100_000_000i64) },
            },
            mass: Scalar { raw: 5_000_000 },
        },
    ]
}

/// What holds of the bodies a simulation starts with: the known ones come
/// first, the scattered ones after them.
pub open spec fn is_initial(bodies: Seq<CelestialBody>) -> bool {
    &&& bodies.len() == KNOWN_BODIES + SCATTERED_BODIES
    &&& bodies.subrange(0, KNOWN_BODIES as int) == spec_known_bodies()
    &&& forall|i: int| KNOWN_BODIES <= i < bodies.len() ==> is_scattered(#[trigger] bodies[i])
}

/// The bodies `bodies` as they stand in a registry once created one after
/// another, the first with identity `next`.
pub open spec fn spawned(bodies: Seq<CelestialBody>, next: int) -> Seq<crate::body::Body> {
    Seq::new(bodies.len(), |k: int| fresh_body(BodyId { number: (next + k) as u64 }, bodies[k]))
}

/// Whether every body of the sequence has a positive mass.
pub open spec fn all_massive(bodies: Seq<CelestialBody>) -> bool {
    forall|i: int| 0 <= i < bodies.len() ==> (#[trigger] bodies[i]).mass@ > 0
}

/// A vector with both components drawn from `low` up to, but not including,
/// `high`; none where that range is empty.
pub fn gen_from_range(rng: &mut StdRng, low: Scalar, high: Scalar) -> (r: Option<Vec2>)
    ensures
        r.is_some() == (low@ < high@),
        r.is_some() ==> within(r.unwrap(), low@, high@),
{
    if low.raw >= high.raw {
        return None;
    }
    let x: i64 = draw(rng, low.raw, high.raw);
    let y: i64 = draw(rng, low.raw, high.raw);
    Some(Vec2 { x: Scalar { raw: x }, y: Scalar { raw: y } })
}

/// One scattered body: its mass is drawn first, then its position, then its
/// velocity.
pub fn scattered_body(rng: &mut StdRng) -> (b: CelestialBody)
    ensures
        is_scattered(b),
{
    let mass: i64 = draw(rng, 100_000, 1_000_000);
    let px: i64 = draw(rng, -400_000_000, 400_000_000);
    let py: i64 = draw(rng, -400_000_000, 400_000_000);
    let vx: i64 = draw(rng, -50_000_000, 50_000_000);
    let vy: i64 = draw(rng, -50_000_000, 50_000_000);
    CelestialBody {
        position: Vec2 { x: Scalar { raw: px }, y: Scalar { raw: py } },
        velocity: Vec2 { x: Scalar { raw: vx }, y: Scalar { raw: vy } },
        mass: Scalar { raw: mass },
    }
}

/// The three bodies at known places.
pub fn known_bodies() -> (r: Vec<CelestialBody>)
    ensures
        r@ == spec_known_bodies(),
{
    let mut bodies: Vec<CelestialBody> = Vec::new();
    bodies.push(
        CelestialBody {
            position: Vec2 { x: Scalar { raw: 0 }, y: Scalar { raw: 0 } },
            velocity: Vec2 { x: Scalar { raw: 0 }, y: Scalar { raw: 0 } },
            mass: Scalar { raw: 10_000_000 },
        },
    );
    bodies.push(
        CelestialBody {
            position: Vec2 { x: Scalar { raw: -100_000_000 }, y: Scalar { raw: 0 } },
            velocity: Vec2 { x: Scalar { raw: 60_000_000 }, y: Scalar { raw: 60_000_000 } },
            mass: Scalar { raw: 5_000_000 },
        },
    );
    bodies.push(
        CelestialBody {
            position: Vec2 { x: Scalar { raw: 100_000_000 }, y: Scalar { raw: 0 } },
            velocity: Vec2 { x: Scalar { raw: -100_000_000 }, y: Scalar { raw: -100_000_000 } },
            mass: Scalar { raw: 5_000_000 },
        },
    );
    assert(bodies@ =~= spec_known_bodies());
    bodies
}

/// The bodies a simulation starts with, the scattered ones drawn from `rng`.
pub fn initial_bodies(rng: &mut StdRng) -> (r: Vec<CelestialBody>)
    ensures
        is_initial(r@),
        all_massive(r@),
{
    let mut bodies = known_bodies();
    let mut i: usize = 0;
    while i < SCATTERED_BODIES
        invariant
            i <= SCATTERED_BODIES,
            bodies@.len() == KNOWN_BODIES + i,
            bodies@.subrange(0, KNOWN_BODIES as int) == spec_known_bodies(),
            forall|k: int|
                KNOWN_BODIES <= k < bodies@.len() ==> is_scattered(#[trigger] bodies@[k]),
        decreases SCATTERED_BODIES - i,
    {
        let ghost before = bodies@;
        let body = scattered_body(rng);
        bodies.push(body);
        assert(bodies@.subrange(0, KNOWN_BODIES as int) =~= before.subrange(
            0,
            KNOWN_BODIES as int,
        ));
        i += 1;
    }
    proof {
        assert forall|k: int| 0 <= k < bodies@.len() implies (#[trigger] bodies@[k]).mass@ > 0 by {
            if k < KNOWN_BODIES {
                assert(bodies@[k] == bodies@.subrange(0, KNOWN_BODIES as int)[k]);
            }
        }
    }
    bodies
}

/// Creates `bodies` in `registry`, one after another, and returns their
/// identities. Where a mass is not positive, or the identities do not
/// suffice, nothing is created.
pub fn spawn_all(registry: &mut BodyRegistry, bodies: &Vec<CelestialBody>) -> (r: Result<
    Vec<BodyId>,
    SimError,
>)
    requires
        old(registry).wf(),
    ensures
        final(registry).wf(),
        !all_massive(bodies@) ==> r == Err::<Vec<BodyId>, SimError>(SimError::InvalidMass),
        all_massive(bodies@) && old(registry).spec_next_id() + bodies@.len() > u64::MAX ==> r
            == Err::<Vec<BodyId>, SimError>(SimError::RegistryFull),
        r.is_err() ==> final(registry)@ == old(registry)@ && final(registry).spec_next_id() == old(
            registry,
        ).spec_next_id(),
        all_massive(bodies@) && old(registry).spec_next_id() + bodies@.len() <= u64::MAX ==> {
            &&& r.is_ok()
            &&& r.unwrap()@.len() == bodies@.len()
            &&& forall|k: int|
                0 <= k < bodies@.len() ==> (#[trigger] r.unwrap()@[k]).number == old(
                    registry,
                ).spec_next_id() + k
            &&& final(registry)@ == old(registry)@ + spawned(
                bodies@,
                old(registry).spec_next_id(),
            )
            &&& final(registry).spec_next_id() == old(registry).spec_next_id() + bodies@.len()
        },
{
    let n: usize = bodies.len();
    let mut j: usize = 0;
    while j < n
        invariant
            j <= n,
            n == bodies@.len(),
            registry.wf(),
            *registry == *old(registry),
            forall|k: int| 0 <= k < j ==> (#[trigger] bodies@[k]).mass@ > 0,
        decreases n - j,
    {
        if bodies[j].mass.raw <= 0 {
            return Err(SimError::InvalidMass);
        }
        j += 1;
    }
    if (u64::MAX - registry.next_id) < (n as u64) {
        return Err(SimError::RegistryFull);
    }
    let ghost s0 = registry@;
    let ghost next0 = registry.spec_next_id();
    let mut ids: Vec<BodyId> = Vec::new();
    let mut i: usize = 0;
    while i < n
        invariant
            i <= n,
            n == bodies@.len(),
            all_massive(bodies@),
            next0 + n <= u64::MAX,
            registry.wf(),
            registry.spec_next_id() == next0 + i,
            ids@.len() == i,
            forall|k: int| 0 <= k < i ==> (#[trigger] ids@[k]).number == next0 + k,
            registry@ == s0 + spawned(bodies@.subrange(0, i as int), next0),
        decreases n - i,
    {
        let ghost before = registry@;
        let body = bodies[i];
        match registry.create(body.position, body.velocity, body.mass) {
            Ok(id) => {
                ids.push(id);
                proof {
                    assert(CelestialBody {
                        position: body.position,
                        velocity: body.velocity,
                        mass: body.mass,
                    } == body);
                    assert(registry@ =~= s0 + spawned(bodies@.subrange(0, i as int + 1), next0));
                }
            },
            Err(e) => {
                return Err(e);
            },
        }
        i += 1;
    }
    proof {
        assert(bodies@.subrange(0, n as int) =~= bodies@);
    }
    Ok(ids)
}

/// Creates in `registry` the bodies a simulation starts with, the scattered
/// ones drawn from a generator seeded with `seed`.
pub fn setup(registry: &mut BodyRegistry, seed: [u8; 32]) -> (r: Result<Vec<BodyId>, SimError>)
    requires
        old(registry).wf(),
    ensures
        final(registry).wf(),
        old(registry).spec_next_id() + KNOWN_BODIES + SCATTERED_BODIES > u64::MAX ==> r == Err::<
            Vec<BodyId>,
            SimError,
        >(SimError::RegistryFull) && final(registry)@ == old(registry)@,
        old(registry).spec_next_id() + KNOWN_BODIES + SCATTERED_BODIES <= u64::MAX ==> {
            &&& r.is_ok()
            &&& r.unwrap()@.len() == KNOWN_BODIES + SCATTERED_BODIES
            &&& final(registry)@.len() == old(registry)@.len() + KNOWN_BODIES + SCATTERED_BODIES
            &&& final(registry)@.subrange(0, old(registry)@.len() as int) == old(registry)@
            &&& final(registry)@.subrange(
                old(registry)@.len() as int,
                old(registry)@.len() + KNOWN_BODIES,
            ) == spawned(spec_known_bodies(), old(registry).spec_next_id())
        },
{
    let mut rng = seeded_generator(seed);
    let bodies = initial_bodies(&mut rng);
    let r = spawn_all(registry, &bodies);
    proof {
        if r.is_ok() {
            let s0 = old(registry)@;
            let next0 = old(registry).spec_next_id();
            let all = spawned(bodies@, next0);
            assert(registry@.subrange(0, s0.len() as int) =~= s0);
            assert(registry@.subrange(s0.len() as int, s0.len() + KNOWN_BODIES) =~= spawned(
                spec_known_bodies(),
                next0,
            )) by {
                assert forall|k: int| 0 <= k < KNOWN_BODIES implies registry@[s0.len() + k]
                    == spawned(spec_known_bodies(), next0)[k] by {
                    assert(registry@[s0.len() + k] == all[k]);
                    assert(bodies@[k] == bodies@.subrange(0, KNOWN_BODIES as int)[k]);
                }
            }
        }
    }
    r
}

} // verus!
