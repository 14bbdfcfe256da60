//! Pairwise Newtonian attraction.
//!
//! Each unordered pair of live bodies is visited once. A pair whose force has
//! no representation contributes nothing. Every body ends with the sum of the
//! forces on it and with its dominant partner: the body that pulls on it most
//! strongly, the earliest created among equals.

use crate::body::{Body, BodyId, DominantPartner, Force};
use crate::registry::{valid_bodies, BodyRegistry};
use crate::scalar::{
    lemma_div_odd, lemma_mul_commutes, lemma_mul_odd, magnitude, Scalar, MAX_RAW, SCALE,
};
use crate::vector::Vec2;
use vstd::prelude::*;

verus! {

/// The attraction between two bodies, as felt by the first.
#[derive(Clone, Copy, Debug, PartialEq, Eq, Structural)]
pub struct Interaction {
    /// Force on the first body, pointing at the second.
    pub force: Vec2,
    /// Length of that force.
    pub magnitude: Scalar,
}

/// Displacement from `from` to `to`, in units of `length_scale`.
pub open spec fn spec_separation(from: Vec2, to: Vec2, length_scale: Scalar) -> Option<Vec2> {
    match to.spec_sub(from) {
        Some(d) => d.spec_div(length_scale),
        None => None,
    }
}

/// Strength of the attraction between masses `ma` and `mb` at squared distance
/// `r2`: `g * (ma * mb) / r2`. There is none at distance zero.
pub open spec fn spec_strength(g: Scalar, ma: Scalar, mb: Scalar, r2: Scalar) -> Option<Scalar> {
    match ma.spec_mul(mb) {
        Some(mm) => match g.spec_mul(mm) {
            Some(gm) => gm.spec_div(r2),
            None => None,
        },
        None => None,
    }
}

/// The attraction on a body of mass `ma` from one of mass `mb` that stands at
/// displacement `r` from it: the strength along the unit vector of `r`.
pub open spec fn spec_pull(r: Vec2, ma: Scalar, mb: Scalar, g: Scalar) -> Option<Interaction> {
    match (r.spec_length_squared(), r.spec_normalize()) {
        (Some(r2), Some(u)) => match spec_strength(g, ma, mb, r2) {
            Some(s) => match u.spec_scale(s) {
                Some(force) => match force.spec_length() {
                    Some(magnitude) => Some(Interaction { force, magnitude }),
                    None => None,
                },
                None => None,
            },
            None => None,
        },
        _ => None,
    }
}

/// The attraction on the body at `pa` with mass `ma` from the body at `pb`
/// with mass `mb`, or `None` when any quantity on the way has no
/// representation.
pub open spec fn spec_interaction(
    pa: Vec2,
    ma: Scalar,
    pb: Vec2,
    mb: Scalar,
    g: Scalar,
    length_scale: Scalar,
) -> Option<Interaction> {
    match spec_separation(pa, pb, length_scale) {
        Some(r) => spec_pull(r, ma, mb, g),
        None => None,
    }
}

/// The attraction on body `i` of `s` from body `j`.
pub open spec fn interaction_between(s: Seq<Body>, i: int, j: int, g: Scalar, length_scale: Scalar)
    -> Option<Interaction> {
    if i == j {
        None
    } else {
        spec_interaction(s[i].position, s[i].mass, s[j].position, s[j].mass, g, length_scale)
    }
}

/// What body `j` adds to the force on body `i`: nothing when the two are the
/// same body or their attraction has no representation.
pub open spec fn contribution(s: Seq<Body>, i: int, j: int, g: Scalar, length_scale: Scalar) -> (
    int,
    int,
) {
    match interaction_between(s, i, j, g, length_scale) {
        Some(pull) => (pull.force.x@, pull.force.y@),
        None => (0, 0),
    }
}

/// Sum of what the first `k` bodies add to the force on body `i`.
pub open spec fn net_force_upto(s: Seq<Body>, i: int, k: int, g: Scalar, length_scale: Scalar) -> (
    int,
    int,
)
    decreases k,
{
    if k <= 0 {
        (0, 0)
    } else {
        let before = net_force_upto(s, i, k - 1, g, length_scale);
        let c = contribution(s, i, k - 1, g, length_scale);
        (before.0 + c.0, before.1 + c.1)
    }
}

/// Sum of the forces that all other bodies exert on body `i`.
pub open spec fn net_force(s: Seq<Body>, i: int, g: Scalar, length_scale: Scalar) -> (int, int) {
    net_force_upto(s, i, s.len() as int, g, length_scale)
}

/// The record after one more candidate has been looked at: the candidate
/// replaces the record when there is none yet or when it pulls strictly harder.
pub open spec fn stronger_of(
    record: Option<DominantPartner>,
    candidate: Option<DominantPartner>,
) -> Option<DominantPartner> {
    match (record, candidate) {
        (_, None) => record,
        (None, Some(_)) => candidate,
        (Some(r), Some(c)) => if r.magnitude@ < c.magnitude@ {
            candidate
        } else {
            record
        },
    }
}

/// Body `j` as a candidate for the dominant partner of body `i`.
pub open spec fn candidate(s: Seq<Body>, i: int, j: int, g: Scalar, length_scale: Scalar) -> Option<
    DominantPartner,
> {
    match interaction_between(s, i, j, g, length_scale) {
        Some(pull) => Some(DominantPartner { id: s[j].id, magnitude: pull.magnitude }),
        None => None,
    }
}

/// Dominant partner of body `i` among the first `k` bodies.
pub open spec fn strongest_upto(s: Seq<Body>, i: int, k: int, g: Scalar, length_scale: Scalar)
    -> Option<DominantPartner>
    decreases k,
{
    if k <= 0 {
        None
    } else {
        stronger_of(
            strongest_upto(s, i, k - 1, g, length_scale),
            candidate(s, i, k - 1, g, length_scale),
        )
    }
}

/// Dominant partner of body `i`.
pub open spec fn strongest(s: Seq<Body>, i: int, g: Scalar, length_scale: Scalar) -> Option<
    DominantPartner,
> {
    strongest_upto(s, i, s.len() as int, g, length_scale)
}

/// Body `i` of `s` with its force and partner cleared.
pub open spec fn cleared(b: Body) -> Body {
    Body { force: Force { x: 0, y: 0 }, partner: None, ..b }
}

/// Body `i` of `s` once the first `k` bodies have acted on it.
pub open spec fn attracted_upto(s: Seq<Body>, i: int, k: int, g: Scalar, length_scale: Scalar)
    -> Body {
    Body {
        force: Force {
            x: net_force_upto(s, i, k, g, length_scale).0 as i128,
            y: net_force_upto(s, i, k, g, length_scale).1 as i128,
        },
        partner: strongest_upto(s, i, k, g, length_scale),
        ..s[i]
    }
}

/// Body `i` of `s` once every other body has acted on it.
pub open spec fn attracted(s: Seq<Body>, i: int, g: Scalar, length_scale: Scalar) -> Body {
    attracted_upto(s, i, s.len() as int, g, length_scale)
}

/// The attraction between two bodies, as felt by the one at `pa`.
pub fn pair_force(
    pa: Vec2,
    ma: Scalar,
    pb: Vec2,
    mb: Scalar,
    g: Scalar,
    length_scale: Scalar,
) -> (r: Option<Interaction>)
    ensures
        r == spec_interaction(pa, ma, pb, mb, g, length_scale),
{
    let d = match pb.sub(pa) {
        Some(d) => d,
        None => {
            return None;
        },
    };
    let r = match d.div(length_scale) {
        Some(r) => r,
        None => {
            return None;
        },
    };
    let r2 = match r.length_squared() {
        Some(r2) => r2,
        None => {
            return None;
        },
    };
    let u = match r.normalize() {
        Some(u) => u,
        None => {
            return None;
        },
    };
    let mm = match ma.mul(mb) {
        Some(mm) => mm,
        None => {
            return None;
        },
    };
    let gm = match g.mul(mm) {
        Some(gm) => gm,
        None => {
            return None;
        },
    };
    let s = match gm.div(r2) {
        Some(s) => s,
        None => {
            return None;
        },
    };
    let force = match u.scale(s) {
        Some(f) => f,
        None => {
            return None;
        },
    };
    match force.length() {
        Some(magnitude) => Some(Interaction { force, magnitude }),
        None => None,
    }
}

/// The record after the candidate `(id, magnitude)` has been looked at.
pub fn update_partner(record: Option<DominantPartner>, id: BodyId, magnitude: Scalar) -> (r: Option<
    DominantPartner,
>)
    ensures
        r == stronger_of(record, Some(DominantPartner { id, magnitude })),
{
    match record {
        None => Some(DominantPartner { id, magnitude }),
        Some(p) => {
            if p.magnitude.raw < magnitude.raw {
                Some(DominantPartner { id, magnitude })
            } else {
                record
            }
        },
    }
}

/// Clears every body's accumulated force and dominant partner.
pub fn reset_forces(registry: &mut BodyRegistry)
    requires
        old(registry).wf(),
    ensures
        final(registry).wf(),
        final(registry).spec_next_id() == old(registry).spec_next_id(),
        final(registry)@.len() == old(registry)@.len(),
        forall|i: int|
            0 <= i < old(registry)@.len() ==> #[trigger] final(registry)@[i] == cleared(
                old(registry)@[i],
            ),
{
    let n: usize = registry.bodies.len();
    let mut i: usize = 0;
    while i < n
        invariant
            i <= n,
            n == registry.bodies@.len(),
            n == old(registry).bodies@.len(),
            registry.next_id == old(registry).next_id,
            forall|k: int|
                0 <= k < i ==> #[trigger] registry.bodies@[k] == cleared(
                    old(registry).bodies@[k],
                ),
            forall|k: int|
                i <= k < n ==> #[trigger] registry.bodies@[k] == old(registry).bodies@[k],
        decreases n - i,
    {
        let b = registry.bodies[i];
        registry.bodies.set(i, Body { force: Force { x: 0, y: 0 }, partner: None, ..b });
        i += 1;
    }
    proof {
        lemma_same_identity_valid(old(registry)@, registry@, registry.spec_next_id());
    }
}

/// A sequence that agrees with a valid one on identities and masses is valid.
pub proof fn lemma_same_identity_valid(s: Seq<Body>, t: Seq<Body>, next: int)
    requires
        valid_bodies(s, next),
        s.len() == t.len(),
        forall|i: int|
            0 <= i < s.len() ==> (#[trigger] t[i]).id == s[i].id && t[i].mass == s[i].mass,
    ensures
        valid_bodies(t, next),
{
    assert forall|i: int, j: int| 0 <= i < j < t.len() implies (#[trigger] t[i]).id.number < (
    #[trigger] t[j]).id.number by {
        assert(s[i].id.number < s[j].id.number);
    }
    assert forall|i: int| 0 <= i < t.len() implies (#[trigger] t[i]).id.number < next && t[i].mass@
        > 0 by {
        assert(s[i].id.number < next && s[i].mass@ > 0);
    }
}

/// Two optional attractions are equal and opposite: both absent, or both
/// present with opposite forces of one magnitude.
pub open spec fn equal_and_opposite(p: Option<Interaction>, q: Option<Interaction>) -> bool {
    match (p, q) {
        (Some(p), Some(q)) => {
            &&& q.force.x@ == -p.force.x@
            &&& q.force.y@ == -p.force.y@
            &&& q.magnitude == p.magnitude
        },
        (None, None) => true,
        _ => false,
    }
}

/// Reversing the displacement and exchanging the masses reverses the pull.
pub proof fn lemma_pull_odd(r: Vec2, nr: Vec2, ma: Scalar, mb: Scalar, g: Scalar)
    requires
        nr.x@ == -r.x@,
        nr.y@ == -r.y@,
    ensures
        equal_and_opposite(spec_pull(r, ma, mb, g), spec_pull(nr, mb, ma, g)),
{
    assert(nr.x@ * nr.x@ == r.x@ * r.x@) by (nonlinear_arith)
        requires
            nr.x@ == -r.x@,
    ;
    assert(nr.y@ * nr.y@ == r.y@ * r.y@) by (nonlinear_arith)
        requires
            nr.y@ == -r.y@,
    ;
    assert(nr.raw_norm_squared() == r.raw_norm_squared());
    assert(nr.spec_length_squared() == r.spec_length_squared());
    assert(nr.spec_length() == r.spec_length());
    lemma_mul_commutes(ma, mb);
    match (r.spec_length_squared(), r.spec_length()) {
        (Some(r2), Some(len)) => {
            lemma_div_odd(r.x, nr.x, len);
            lemma_div_odd(r.y, nr.y, len);
            assert(spec_strength(g, ma, mb, r2) == spec_strength(g, mb, ma, r2));
            match (r.spec_normalize(), spec_strength(g, ma, mb, r2)) {
                (Some(u), Some(s)) => {
                    let nu = nr.spec_normalize().unwrap();
                    lemma_mul_odd(u.x, nu.x, s);
                    lemma_mul_odd(u.y, nu.y, s);
                    match u.spec_scale(s) {
                        Some(f) => {
                            let nf = nu.spec_scale(s).unwrap();
                            assert(nf.x@ * nf.x@ == f.x@ * f.x@) by (nonlinear_arith)
                                requires
                                    nf.x@ == -f.x@,
                            ;
                            assert(nf.y@ * nf.y@ == f.y@ * f.y@) by (nonlinear_arith)
                                requires
                                    nf.y@ == -f.y@,
                            ;
                            assert(nf.raw_norm_squared() == f.raw_norm_squared());
                        },
                        None => {},
                    }
                },
                _ => {},
            }
        },
        _ => {},
    }
}

/// Action and reaction: what the second body does to the first is exactly the
/// opposite of what the first does to the second, and where one attraction
/// has no representation neither has the other.
pub proof fn lemma_force_symmetry(
    pa: Vec2,
    ma: Scalar,
    pb: Vec2,
    mb: Scalar,
    g: Scalar,
    length_scale: Scalar,
)
    ensures
        equal_and_opposite(
            spec_interaction(pa, ma, pb, mb, g, length_scale),
            spec_interaction(pb, mb, pa, ma, g, length_scale),
        ),
{
    match (pb.spec_sub(pa), pa.spec_sub(pb)) {
        (Some(d), Some(nd)) => {
            lemma_div_odd(d.x, nd.x, length_scale);
            lemma_div_odd(d.y, nd.y, length_scale);
            match (d.spec_div(length_scale), nd.spec_div(length_scale)) {
                (Some(r), Some(nr)) => {
                    lemma_pull_odd(r, nr, ma, mb, g);
                },
                _ => {},
            }
        },
        _ => {},
    }
}

/// Bodies at one position exert no force on each other.
pub proof fn lemma_coincident_bodies_do_not_interact(
    p: Vec2,
    ma: Scalar,
    mb: Scalar,
    g: Scalar,
    length_scale: Scalar,
)
    ensures
        spec_interaction(p, ma, p, mb, g, length_scale).is_none(),
{
    match spec_separation(p, p, length_scale) {
        Some(r) => {
            assert(p.spec_sub(p).unwrap().x@ == 0);
            assert(p.spec_sub(p).unwrap().y@ == 0);
            assert(length_scale@ != 0);
            assert(0int * (SCALE as int) == 0);
            assert(magnitude(0) / magnitude(length_scale@) == 0) by (nonlinear_arith)
                requires
                    magnitude(length_scale@) > 0,
                    magnitude(0) == 0,
            ;
            assert(r.x@ == 0 && r.y@ == 0);
            assert(r.raw_norm_squared() == 0) by (nonlinear_arith)
                requires
                    r.x@ == 0,
                    r.y@ == 0,
                    r.raw_norm_squared() == r.x@ * r.x@ + r.y@ * r.y@,
            ;
            assert(r.spec_length_squared().unwrap()@ == 0);
        },
        None => {},
    }
}

/// How many bodies have acted on body `i` when the pair `(a, b)` comes next,
/// in a visit of all pairs `(a, b)` with `a < b` in their natural order.
pub open spec fn progress(i: int, a: int, b: int, n: int) -> int {
    if i < a {
        n
    } else if i == a {
        b
    } else if i < b {
        a + 1
    } else {
        a
    }
}

/// Each component of a sum of `k` contributions is at most `k` times the
/// largest representable magnitude.
pub proof fn lemma_net_force_bound(s: Seq<Body>, i: int, k: int, g: Scalar, length_scale: Scalar)
    requires
        0 <= k,
    ensures
        -k * MAX_RAW <= net_force_upto(s, i, k, g, length_scale).0 <= k * MAX_RAW,
        -k * MAX_RAW <= net_force_upto(s, i, k, g, length_scale).1 <= k * MAX_RAW,
    decreases k,
{
    if k > 0 {
        lemma_net_force_bound(s, i, k - 1, g, length_scale);
        let c = contribution(s, i, k - 1, g, length_scale);
        assert(-MAX_RAW <= c.0 <= MAX_RAW && -MAX_RAW <= c.1 <= MAX_RAW) by {
            lemma_interaction_fits(s, i, k - 1, g, length_scale);
        }
    }
}

/// The force of a representable attraction has representable components.
pub proof fn lemma_interaction_fits(s: Seq<Body>, i: int, j: int, g: Scalar, length_scale: Scalar)
    ensures
        -MAX_RAW <= contribution(s, i, j, g, length_scale).0 <= MAX_RAW,
        -MAX_RAW <= contribution(s, i, j, g, length_scale).1 <= MAX_RAW,
{
}

/// A body does not act on itself.
pub proof fn lemma_self_adds_nothing(s: Seq<Body>, i: int, g: Scalar, length_scale: Scalar)
    requires
        0 <= i,
    ensures
        attracted_upto(s, i, i + 1, g, length_scale) == attracted_upto(s, i, i, g, length_scale),
{
    assert(interaction_between(s, i, i, g, length_scale).is_none());
    assert(contribution(s, i, i, g, length_scale) == (0int, 0int));
    assert(candidate(s, i, i, g, length_scale).is_none());
    assert(net_force_upto(s, i, i + 1, g, length_scale) == net_force_upto(
        s,
        i,
        i,
        g,
        length_scale,
    ));
    assert(strongest_upto(s, i, i + 1, g, length_scale) == strongest_upto(
        s,
        i,
        i,
        g,
        length_scale,
    ));
}

/// Body `i` after body `j` has acted on it as well, given how it stood after
/// the first `j` bodies.
pub proof fn lemma_one_more(
    s: Seq<Body>,
    i: int,
    j: int,
    g: Scalar,
    length_scale: Scalar,
    before: Body,
    after: Body,
)
    requires
        0 <= j < 0xFFFF_FFFF_FFFF_FFFF,
        before == attracted_upto(s, i, j, g, length_scale),
        after.id == before.id,
        after.position == before.position,
        after.velocity == before.velocity,
        after.mass == before.mass,
        after.force.x == before.force.x + contribution(s, i, j, g, length_scale).0,
        after.force.y == before.force.y + contribution(s, i, j, g, length_scale).1,
        after.partner == stronger_of(before.partner, candidate(s, i, j, g, length_scale)),
    ensures
        after == attracted_upto(s, i, j + 1, g, length_scale),
{
    lemma_net_force_bound(s, i, j, g, length_scale);
    lemma_net_force_bound(s, i, j + 1, g, length_scale);
    assert(j * MAX_RAW <= 0xFFFF_FFFF_FFFF_FFFF * MAX_RAW);
    assert((j + 1) * MAX_RAW <= 0xFFFF_FFFF_FFFF_FFFF * MAX_RAW);
}

/// Recomputes every body's net force and dominant partner from the positions
/// and masses alone: whatever force and partner a body had before is cleared
/// first. Positions, velocities, masses and identities are left as they are.
pub fn apply_gravity(registry: &mut BodyRegistry, g: Scalar, length_scale: Scalar)
    requires
        old(registry).wf(),
    ensures
        final(registry).wf(),
        final(registry).spec_next_id() == old(registry).spec_next_id(),
        final(registry)@.len() == old(registry)@.len(),
        forall|i: int|
            0 <= i < old(registry)@.len() ==> #[trigger] final(registry)@[i] == attracted(
                old(registry)@,
                i,
                g,
                length_scale,
            ),
        forall|i: int|
            0 <= i < old(registry)@.len() ==> {
                &&& (#[trigger] final(registry)@[i]).force.x == net_force(
                    old(registry)@,
                    i,
                    g,
                    length_scale,
                ).0
                &&& final(registry)@[i].force.y == net_force(old(registry)@, i, g, length_scale).1
                &&& final(registry)@[i].partner == strongest(old(registry)@, i, g, length_scale)
            },
{
    let ghost s0 = registry@;
    reset_forces(registry);
    let n: usize = registry.bodies.len();
    let mut a: usize = 0;
    while a < n
        invariant
            a <= n,
            n == s0.len(),
            n == registry.bodies@.len(),
            registry.next_id == old(registry).next_id,
            forall|i: int|
                0 <= i < n ==> #[trigger] registry.bodies@[i] == attracted_upto(
                    s0,
                    i,
                    progress(i, a as int, a as int, n as int),
                    g,
                    length_scale,
                ),
        decreases n - a,
    {
        proof {
            lemma_self_adds_nothing(s0, a as int, g, length_scale);
        }
        let mut b: usize = a + 1;
        while b < n
            invariant
                a < b <= n,
                n == s0.len(),
                n == registry.bodies@.len(),
                registry.next_id == old(registry).next_id,
                forall|i: int|
                    0 <= i < n ==> #[trigger] registry.bodies@[i] == attracted_upto(
                        s0,
                        i,
                        progress(i, a as int, b as int, n as int),
                        g,
                        length_scale,
                    ),
            decreases n - b,
        {
            let first = registry.bodies[a];
            let second = registry.bodies[b];
            let ghost before = registry.bodies@;
            proof {
                lemma_force_symmetry(
                    s0[a as int].position,
                    s0[a as int].mass,
                    s0[b as int].position,
                    s0[b as int].mass,
                    g,
                    length_scale,
                );
                lemma_net_force_bound(s0, a as int, b as int, g, length_scale);
                lemma_net_force_bound(s0, b as int, a as int, g, length_scale);
                assert(b * MAX_RAW <= 0xFFFF_FFFF_FFFF_FFFF * MAX_RAW);
                assert(a * MAX_RAW <= 0xFFFF_FFFF_FFFF_FFFF * MAX_RAW);
            }
            match pair_force(
                first.position,
                first.mass,
                second.position,
                second.mass,
                g,
                length_scale,
            ) {
                Some(pull) => {
                    let pulled_first = Body {
                        force: Force {
                            x: first.force.x + (pull.force.x.raw as i128),
                            y: first.force.y + (pull.force.y.raw as i128),
                        },
                        partner: update_partner(first.partner, second.id, pull.magnitude),
                        ..first
                    };
                    let pulled_second = Body {
                        force: Force {
                            x: second.force.x - (pull.force.x.raw as i128),
                            y: second.force.y - (pull.force.y.raw as i128),
                        },
                        partner: update_partner(second.partner, first.id, pull.magnitude),
                        ..second
                    };
                    proof {
                        lemma_one_more(
                            s0,
                            a as int,
                            b as int,
                            g,
                            length_scale,
                            first,
                            pulled_first,
                        );
                        lemma_one_more(
                            s0,
                            b as int,
                            a as int,
                            g,
                            length_scale,
                            second,
                            pulled_second,
                        );
                    }
                    registry.bodies.set(a, pulled_first);
                    registry.bodies.set(b, pulled_second);
                },
                None => {
                    proof {
                        lemma_one_more(s0, a as int, b as int, g, length_scale, first, first);
                        lemma_one_more(s0, b as int, a as int, g, length_scale, second, second);
                    }
                },
            }
            proof {
                assert forall|i: int| 0 <= i < n implies #[trigger] registry.bodies@[i]
                    == attracted_upto(
                    s0,
                    i,
                    progress(i, a as int, b as int + 1, n as int),
                    g,
                    length_scale,
                ) by {
                    if i != a && i != b {
                        assert(registry.bodies@[i] == before[i]);
                    }
                }
            }
            b += 1;
        }
        a += 1;
    }
    proof {
        assert forall|i: int| 0 <= i < n implies (#[trigger] registry@[i]).id == s0[i].id
            && registry@[i].mass == s0[i].mass by {
            assert(registry.bodies@[i] == attracted_upto(
                s0,
                i,
                progress(i, n as int, n as int, n as int),
                g,
                length_scale,
            ));
        }
        lemma_same_identity_valid(s0, registry@, registry.spec_next_id());
        assert forall|i: int| 0 <= i < n implies (#[trigger] registry@[i]).force.x == net_force(
            s0,
            i,
            g,
            length_scale,
        ).0 && registry@[i].force.y == net_force(s0, i, g, length_scale).1 by {
            lemma_net_force_bound(s0, i, n as int, g, length_scale);
            assert(n * MAX_RAW <= 0xFFFF_FFFF_FFFF_FFFF * MAX_RAW);
            assert(registry.bodies@[i] == attracted_upto(
                s0,
                i,
                progress(i, n as int, n as int, n as int),
                g,
                length_scale,
            ));
        }
    }
}

/// Two bodies of a sequence that stand at one place add nothing to the force
/// on each other, and neither is a candidate for the other's dominant
/// partner.
pub proof fn lemma_coincident_pair_is_skipped(
    s: Seq<Body>,
    i: int,
    j: int,
    g: Scalar,
    length_scale: Scalar,
)
    requires
        s[i].position == s[j].position,
    ensures
        contribution(s, i, j, g, length_scale) == (0int, 0int),
        candidate(s, i, j, g, length_scale).is_none(),
{
    lemma_coincident_bodies_do_not_interact(
        s[i].position,
        s[i].mass,
        s[j].mass,
        g,
        length_scale,
    );
}

/// Sum over the first `rows` bodies of what the first `k` bodies add to the
/// force on each.
pub open spec fn total_force_upto(
    s: Seq<Body>,
    rows: int,
    k: int,
    g: Scalar,
    length_scale: Scalar,
) -> (int, int)
    decreases rows,
{
    if rows <= 0 {
        (0, 0)
    } else {
        let before = total_force_upto(s, rows - 1, k, g, length_scale);
        let row = net_force_upto(s, rows - 1, k, g, length_scale);
        (before.0 + row.0, before.1 + row.1)
    }
}

/// Sum of the net forces on all bodies.
pub open spec fn total_force(s: Seq<Body>, g: Scalar, length_scale: Scalar) -> (int, int) {
    total_force_upto(s, s.len() as int, s.len() as int, g, length_scale)
}

/// Sum of what body `k` adds to the force on each of the first `rows` bodies.
pub open spec fn exerted_upto(s: Seq<Body>, rows: int, k: int, g: Scalar, length_scale: Scalar) -> (
    int,
    int,
)
    decreases rows,
{
    if rows <= 0 {
        (0, 0)
    } else {
        let before = exerted_upto(s, rows - 1, k, g, length_scale);
        let c = contribution(s, rows - 1, k, g, length_scale);
        (before.0 + c.0, before.1 + c.1)
    }
}

/// What two bodies add to the force on each other cancels.
pub proof fn lemma_contributions_cancel(
    s: Seq<Body>,
    i: int,
    j: int,
    g: Scalar,
    length_scale: Scalar,
)
    ensures
        contribution(s, i, j, g, length_scale).0 + contribution(s, j, i, g, length_scale).0 == 0,
        contribution(s, i, j, g, length_scale).1 + contribution(s, j, i, g, length_scale).1 == 0,
{
    if i != j {
        lemma_force_symmetry(
            s[i].position,
            s[i].mass,
            s[j].position,
            s[j].mass,
            g,
            length_scale,
        );
    }
}

/// What the first `r` bodies do to body `m` cancels what body `m` does to
/// them.
proof fn lemma_row_cancels_column(s: Seq<Body>, m: int, r: int, g: Scalar, length_scale: Scalar)
    requires
        0 <= r,
    ensures
        exerted_upto(s, r, m, g, length_scale).0 + net_force_upto(s, m, r, g, length_scale).0 == 0,
        exerted_upto(s, r, m, g, length_scale).1 + net_force_upto(s, m, r, g, length_scale).1 == 0,
    decreases r,
{
    if r > 0 {
        lemma_row_cancels_column(s, m, r - 1, g, length_scale);
        lemma_contributions_cancel(s, r - 1, m, g, length_scale);
    }
}

/// Letting one more body act adds what it exerts on each body.
proof fn lemma_total_one_more(s: Seq<Body>, rows: int, k: int, g: Scalar, length_scale: Scalar)
    requires
        0 <= rows,
        0 <= k,
    ensures
        total_force_upto(s, rows, k + 1, g, length_scale).0 == total_force_upto(
            s,
            rows,
            k,
            g,
            length_scale,
        ).0 + exerted_upto(s, rows, k, g, length_scale).0,
        total_force_upto(s, rows, k + 1, g, length_scale).1 == total_force_upto(
            s,
            rows,
            k,
            g,
            length_scale,
        ).1 + exerted_upto(s, rows, k, g, length_scale).1,
    decreases rows,
{
    if rows > 0 {
        lemma_total_one_more(s, rows - 1, k, g, length_scale);
    }
}

/// The forces among the first `m` bodies cancel.
proof fn lemma_block_cancels(s: Seq<Body>, m: int, g: Scalar, length_scale: Scalar)
    requires
        0 <= m,
    ensures
        total_force_upto(s, m, m, g, length_scale) == (0int, 0int),
    decreases m,
{
    if m > 0 {
        let k = m - 1;
        lemma_block_cancels(s, k, g, length_scale);
        lemma_total_one_more(s, k, k, g, length_scale);
        lemma_row_cancels_column(s, k, k, g, length_scale);
        assert(contribution(s, k, k, g, length_scale) == (0int, 0int));
    }
}

/// The net forces on all bodies add up to zero: gravity alone never changes
/// the total momentum.
pub proof fn lemma_forces_cancel(s: Seq<Body>, g: Scalar, length_scale: Scalar)
    ensures
        total_force(s, g, length_scale) == (0int, 0int),
{
    lemma_block_cancels(s, s.len() as int, g, length_scale);
}

/// The dominant partner is the earliest of the bodies that pull hardest:
/// there is none exactly when no body pulls; otherwise it is the body at the
/// returned index, no body pulls harder, and every earlier body pulls less.
pub proof fn lemma_strongest_is_first_maximum(
    s: Seq<Body>,
    i: int,
    k: int,
    g: Scalar,
    length_scale: Scalar,
) -> (j: int)
    requires
        0 <= k,
    ensures
        strongest_upto(s, i, k, g, length_scale).is_none() ==> forall|t: int|
            0 <= t < k ==> (#[trigger] candidate(s, i, t, g, length_scale)).is_none(),
        strongest_upto(s, i, k, g, length_scale).is_some() ==> {
            &&& 0 <= j < k
            &&& candidate(s, i, j, g, length_scale) == strongest_upto(s, i, k, g, length_scale)
            &&& forall|t: int|
                0 <= t < k && (#[trigger] candidate(s, i, t, g, length_scale)).is_some()
                    ==> candidate(s, i, t, g, length_scale).unwrap().magnitude@ <= strongest_upto(
                    s,
                    i,
                    k,
                    g,
                    length_scale,
                ).unwrap().magnitude@
            &&& forall|t: int|
                0 <= t < j && (#[trigger] candidate(s, i, t, g, length_scale)).is_some()
                    ==> candidate(s, i, t, g, length_scale).unwrap().magnitude@ < strongest_upto(
                    s,
                    i,
                    k,
                    g,
                    length_scale,
                ).unwrap().magnitude@
        },
    decreases k,
{
    if k == 0 {
        0
    } else {
        let before = lemma_strongest_is_first_maximum(s, i, k - 1, g, length_scale);
        let record = strongest_upto(s, i, k - 1, g, length_scale);
        let c = candidate(s, i, k - 1, g, length_scale);
        if stronger_of(record, c) == record && record.is_some() {
            before
        } else {
            k - 1
        }
    }
}

/// Two sequences hold the same bodies at the same places: they agree on
/// every identity, position, velocity and mass.
pub open spec fn same_configuration(s: Seq<Body>, t: Seq<Body>) -> bool {
    &&& s.len() == t.len()
    &&& forall|i: int|
        0 <= i < s.len() ==> {
            &&& (#[trigger] s[i]).id == t[i].id
            &&& s[i].position == t[i].position
            &&& s[i].velocity == t[i].velocity
            &&& s[i].mass == t[i].mass
        }
}

/// Gravity reads positions and masses only: whatever forces and partners the
/// bodies had before, the same configuration gives the same result. Nothing
/// is carried over from one evaluation to the next.
pub proof fn lemma_gravity_forgets(
    s: Seq<Body>,
    t: Seq<Body>,
    i: int,
    k: int,
    g: Scalar,
    length_scale: Scalar,
)
    requires
        same_configuration(s, t),
        0 <= i < s.len(),
        0 <= k <= s.len(),
    ensures
        net_force_upto(s, i, k, g, length_scale) == net_force_upto(t, i, k, g, length_scale),
        strongest_upto(s, i, k, g, length_scale) == strongest_upto(t, i, k, g, length_scale),
        attracted_upto(s, i, k, g, length_scale) == attracted_upto(t, i, k, g, length_scale),
    decreases k,
{
    if k > 0 {
        lemma_gravity_forgets(s, t, i, k - 1, g, length_scale);
        assert(s[k - 1].id == t[k - 1].id);
        assert(interaction_between(s, i, k - 1, g, length_scale) == interaction_between(
            t,
            i,
            k - 1,
            g,
            length_scale,
        ));
    }
    assert(s[i].id == t[i].id);
}

} // verus!
