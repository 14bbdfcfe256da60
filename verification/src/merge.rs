//! Inelastic merging of bodies that touch.
//!
//! Two bodies in contact become one that carries their combined mass, at their
//! centre of mass and with their combined momentum. Contacts are taken in the
//! order in which they are reported; one that names a body that is gone is
//! passed over.

use crate::body::{Body, BodyId, CelestialBody};
use crate::registry::{
    fresh_body, has_id, index_of, lemma_removed_is_gone, lookup, valid_bodies, BodyRegistry,
};
use crate::scalar::{checked, magnitude, trunc_div, Scalar, MAX_RAW};
use crate::vector::{both, lemma_raw_product_bound, Vec2};
use vstd::prelude::*;

verus! {

/// What the collision detector reports.
#[derive(Clone, Copy, Debug, PartialEq, Eq, Structural)]
pub enum CollisionEvent {
    /// Two bodies began to touch.
    Started(BodyId, BodyId),
    /// Two bodies ceased to touch.
    Stopped(BodyId, BodyId),
}

/// What became of one reported event.
#[derive(Clone, Copy, Debug, PartialEq, Eq, Structural)]
pub enum MergeOutcome {
    /// The two bodies were replaced by the body `id`. `heavier` is the one of
    /// the two that had strictly more mass, or the second where neither had.
    Merged { id: BodyId, heavier: BodyId },
    /// The event was the end of a contact, which calls for nothing.
    Ignored,
    /// One of the bodies is not live, or both are the same body.
    Skipped,
    /// The merged body has no representation; both bodies are untouched.
    Aborted,
}

/// Mean of `xa` and `xb` with weights `wa` and `wb`, rounded toward zero.
pub open spec fn weighted_mean(xa: int, wa: int, xb: int, wb: int) -> int {
    trunc_div(xa * wa + xb * wb, wa + wb)
}

/// Mass-weighted mean of two vectors.
pub open spec fn weighted_mean_vector(va: Vec2, wa: Scalar, vb: Vec2, wb: Scalar) -> Option<Vec2> {
    both(
        checked(weighted_mean(va.x@, wa@, vb.x@, wb@)),
        checked(weighted_mean(va.y@, wa@, vb.y@, wb@)),
    )
}

/// The body that two bodies of positive mass merge into: their masses added,
/// at their centre of mass, with their combined momentum. There is none where
/// a mass is not positive or a merged quantity has no representation.
pub open spec fn spec_merged(a: Body, b: Body) -> Option<CelestialBody> {
    if a.mass@ <= 0 || b.mass@ <= 0 {
        None
    } else {
        match (
            a.mass.spec_add(b.mass),
            weighted_mean_vector(a.velocity, a.mass, b.velocity, b.mass),
            weighted_mean_vector(a.position, a.mass, b.position, b.mass),
        ) {
            (Some(mass), Some(velocity), Some(position)) => Some(
                CelestialBody { position, velocity, mass },
            ),
            _ => None,
        }
    }
}

/// The sequence without the body `id`.
pub open spec fn without(s: Seq<Body>, id: BodyId) -> Seq<Body> {
    if has_id(s, id) {
        s.remove(index_of(s, id))
    } else {
        s
    }
}

/// Which of two merging bodies a trail is continued from.
pub open spec fn spec_heavier(a: Body, b: Body) -> BodyId {
    if a.mass@ > b.mass@ {
        a.id
    } else {
        b.id
    }
}

/// Whether the contact of `a` and `b` calls for a merge at all.
pub open spec fn can_meet(s: Seq<Body>, a: BodyId, b: BodyId) -> bool {
    a != b && has_id(s, a) && has_id(s, b)
}

/// Outcome of the beginning of a contact between `a` and `b`, in a registry
/// that holds `s` and would hand out `next` next.
pub open spec fn spec_contact_outcome(
    s: Seq<Body>,
    next: int,
    a: BodyId,
    b: BodyId,
) -> MergeOutcome {
    if !can_meet(s, a, b) {
        MergeOutcome::Skipped
    } else if next >= u64::MAX || spec_merged(
        lookup(s, a).unwrap(),
        lookup(s, b).unwrap(),
    ).is_none() {
        MergeOutcome::Aborted
    } else {
        MergeOutcome::Merged {
            id: BodyId { number: next as u64 },
            heavier: spec_heavier(lookup(s, a).unwrap(), lookup(s, b).unwrap()),
        }
    }
}

/// The bodies after the beginning of a contact between `a` and `b`.
pub open spec fn spec_contact_bodies(s: Seq<Body>, next: int, a: BodyId, b: BodyId) -> Seq<Body> {
    match spec_contact_outcome(s, next, a, b) {
        MergeOutcome::Merged { id, heavier } => without(without(s, a), b).push(
            fresh_body(id, spec_merged(lookup(s, a).unwrap(), lookup(s, b).unwrap()).unwrap()),
        ),
        _ => s,
    }
}

/// The identity handed out next after the beginning of a contact.
pub open spec fn spec_contact_next(s: Seq<Body>, next: int, a: BodyId, b: BodyId) -> int {
    match spec_contact_outcome(s, next, a, b) {
        MergeOutcome::Merged { id, heavier } => next + 1,
        _ => next,
    }
}

/// Outcome of one reported event.
pub open spec fn spec_event_outcome(s: Seq<Body>, next: int, e: CollisionEvent) -> MergeOutcome {
    match e {
        CollisionEvent::Started(a, b) => spec_contact_outcome(s, next, a, b),
        CollisionEvent::Stopped(_, _) => MergeOutcome::Ignored,
    }
}

/// The bodies after one reported event.
pub open spec fn spec_event_bodies(s: Seq<Body>, next: int, e: CollisionEvent) -> Seq<Body> {
    match e {
        CollisionEvent::Started(a, b) => spec_contact_bodies(s, next, a, b),
        CollisionEvent::Stopped(_, _) => s,
    }
}

/// The identity handed out next after one reported event.
pub open spec fn spec_event_next(s: Seq<Body>, next: int, e: CollisionEvent) -> int {
    match e {
        CollisionEvent::Started(a, b) => spec_contact_next(s, next, a, b),
        CollisionEvent::Stopped(_, _) => next,
    }
}

/// The bodies, and the identity handed out next, after the first `k` events.
pub open spec fn spec_after_events(
    s: Seq<Body>,
    next: int,
    events: Seq<CollisionEvent>,
    k: int,
) -> (Seq<Body>, int)
    decreases k,
{
    if k <= 0 {
        (s, next)
    } else {
        let before = spec_after_events(s, next, events, k - 1);
        (
            spec_event_bodies(before.0, before.1, events[k - 1]),
            spec_event_next(before.0, before.1, events[k - 1]),
        )
    }
}

/// Mean of two raw values with positive weights, rounded toward zero.
fn mean_component(xa: Scalar, wa: Scalar, xb: Scalar, wb: Scalar) -> (r: Option<Scalar>)
    requires
        wa@ > 0,
        wb@ > 0,
    ensures
        r == checked(weighted_mean(xa@, wa@, xb@, wb@)),
{
    proof {
        lemma_raw_product_bound(xa@, wa@);
        lemma_raw_product_bound(xb@, wb@);
        assert(-0x3FFF_FFFF_FFFF_FFFF_8000_0000_0000_0000 <= xa@ * wa@
            <= 0x3FFF_FFFF_FFFF_FFFF_8000_0000_0000_0000) by (nonlinear_arith)
            requires
                -0x8000_0000_0000_0000 <= xa@ < 0x8000_0000_0000_0000,
                0 < wa@ < 0x8000_0000_0000_0000,
        ;
        assert(-0x3FFF_FFFF_FFFF_FFFF_8000_0000_0000_0000 <= xb@ * wb@
            <= 0x3FFF_FFFF_FFFF_FFFF_8000_0000_0000_0000) by (nonlinear_arith)
            requires
                -0x8000_0000_0000_0000 <= xb@ < 0x8000_0000_0000_0000,
                0 < wb@ < 0x8000_0000_0000_0000,
        ;
    }
    let numerator: i128 = (xa.raw as i128) * (wa.raw as i128) + (xb.raw as i128) * (wb.raw as i128);
    let weight: i128 = (wa.raw as i128) + (wb.raw as i128);
    let quotient: i128 = if numerator >= 0 {
        numerator / weight
    } else {
        -((-numerator) / weight)
    };
    proof {
        if numerator == 0 {
            assert(0int / (weight as int) == 0) by (nonlinear_arith)
                requires
                    weight > 0,
            ;
        }
    }
    if -9_223_372_036_854_775_807 <= quotient && quotient <= 9_223_372_036_854_775_807 {
        Some(Scalar { raw: quotient as i64 })
    } else {
        None
    }
}

/// Mass-weighted mean of two vectors, for positive masses.
fn mean_vector(va: Vec2, wa: Scalar, vb: Vec2, wb: Scalar) -> (r: Option<Vec2>)
    requires
        wa@ > 0,
        wb@ > 0,
    ensures
        r == weighted_mean_vector(va, wa, vb, wb),
{
    match (mean_component(va.x, wa, vb.x, wb), mean_component(va.y, wa, vb.y, wb)) {
        (Some(x), Some(y)) => Some(Vec2 { x, y }),
        _ => None,
    }
}

/// The body that `a` and `b` merge into, if it has a representation.
pub fn merge_bodies(a: &Body, b: &Body) -> (r: Option<CelestialBody>)
    ensures
        r == spec_merged(*a, *b),
        r.is_some() ==> r.unwrap().mass@ == a.mass@ + b.mass@ && r.unwrap().mass@ > 0,
{
    if a.mass.raw <= 0 || b.mass.raw <= 0 {
        return None;
    }
    let mass = match a.mass.add(b.mass) {
        Some(m) => m,
        None => {
            return None;
        },
    };
    let velocity = match mean_vector(a.velocity, a.mass, b.velocity, b.mass) {
        Some(v) => v,
        None => {
            return None;
        },
    };
    match mean_vector(a.position, a.mass, b.position, b.mass) {
        Some(position) => Some(CelestialBody { position, velocity, mass }),
        None => None,
    }
}

/// Handles the beginning of a contact between the bodies `a` and `b`.
///
/// Where both are live and distinct and their merged body has a
/// representation, the two are removed and the merged body is created.
/// Otherwise nothing changes.
pub fn on_contact_begin(registry: &mut BodyRegistry, a: BodyId, b: BodyId) -> (r: MergeOutcome)
    requires
        old(registry).wf(),
    ensures
        final(registry).wf(),
        r == spec_contact_outcome(old(registry)@, old(registry).spec_next_id(), a, b),
        final(registry)@ == spec_contact_bodies(old(registry)@, old(registry).spec_next_id(), a, b),
        final(registry).spec_next_id() == spec_contact_next(
            old(registry)@,
            old(registry).spec_next_id(),
            a,
            b,
        ),
{
    if a.number == b.number {
        return MergeOutcome::Skipped;
    }
    let first = match registry.get(a) {
        Some(body) => body,
        None => {
            return MergeOutcome::Skipped;
        },
    };
    let second = match registry.get(b) {
        Some(body) => body,
        None => {
            return MergeOutcome::Skipped;
        },
    };
    if registry.next_id == u64::MAX {
        return MergeOutcome::Aborted;
    }
    let merged = match merge_bodies(&first, &second) {
        Some(m) => m,
        None => {
            return MergeOutcome::Aborted;
        },
    };
    let heavier = if first.mass.raw > second.mass.raw {
        first.id
    } else {
        second.id
    };
    let removed_first = registry.remove(a);
    let removed_second = registry.remove(b);
    match registry.create(merged.position, merged.velocity, merged.mass) {
        Ok(id) => MergeOutcome::Merged { id, heavier },
        Err(_) => MergeOutcome::Aborted,
    }
}

/// Handles a batch of reported events in their order of arrival and says what
/// became of each. The end of a contact changes nothing.
pub fn combine_bodies(registry: &mut BodyRegistry, events: &Vec<CollisionEvent>) -> (r: Vec<
    MergeOutcome,
>)
    requires
        old(registry).wf(),
    ensures
        final(registry).wf(),
        r@.len() == events@.len(),
        final(registry)@ == spec_after_events(
            old(registry)@,
            old(registry).spec_next_id(),
            events@,
            events@.len() as int,
        ).0,
        final(registry).spec_next_id() == spec_after_events(
            old(registry)@,
            old(registry).spec_next_id(),
            events@,
            events@.len() as int,
        ).1,
        forall|k: int|
            0 <= k < events@.len() ==> #[trigger] r@[k] == spec_event_outcome(
                spec_after_events(old(registry)@, old(registry).spec_next_id(), events@, k).0,
                spec_after_events(old(registry)@, old(registry).spec_next_id(), events@, k).1,
                events@[k],
            ),
{
    let ghost s0 = registry@;
    let ghost next0 = registry.spec_next_id();
    let mut outcomes: Vec<MergeOutcome> = Vec::new();
    let mut i: usize = 0;
    while i < events.len()
        invariant
            i <= events@.len(),
            registry.wf(),
            outcomes@.len() == i,
            registry@ == spec_after_events(s0, next0, events@, i as int).0,
            registry.spec_next_id() == spec_after_events(s0, next0, events@, i as int).1,
            forall|k: int|
                0 <= k < i ==> #[trigger] outcomes@[k] == spec_event_outcome(
                    spec_after_events(s0, next0, events@, k).0,
                    spec_after_events(s0, next0, events@, k).1,
                    events@[k],
                ),
        decreases events@.len() - i,
    {
        let outcome = match events[i] {
            CollisionEvent::Started(a, b) => on_contact_begin(registry, a, b),
            CollisionEvent::Stopped(_, _) => MergeOutcome::Ignored,
        };
        outcomes.push(outcome);
        i += 1;
    }
    outcomes
}

/// A quotient rounded toward zero, multiplied back, misses the dividend by
/// less than the divisor, and lies between any bounds whose multiples enclose
/// the dividend.
pub proof fn lemma_trunc_div_error(n: int, d: int, lo: int, hi: int)
    requires
        d > 0,
        lo * d <= n <= hi * d,
    ensures
        magnitude(d * trunc_div(n, d) - n) < d,
        lo <= trunc_div(n, d) <= hi,
{
    let m = magnitude(n);
    let q = m / d;
    assert(m == d * q + m % d && 0 <= m % d < d) by (nonlinear_arith)
        requires
            d > 0,
            m >= 0,
            q == m / d,
    ;
    assert(d * (-q) == -(d * q)) by (nonlinear_arith);
    if n >= 0 {
        assert(q <= hi) by (nonlinear_arith)
            requires
                d * q <= n,
                n <= hi * d,
                d > 0,
        ;
        assert(lo <= q) by (nonlinear_arith)
            requires
                lo * d <= n,
                n < d * q + d,
                d > 0,
        ;
    } else {
        assert(-q <= hi) by (nonlinear_arith)
            requires
                -n < d * q + d,
                n <= hi * d,
                d > 0,
        ;
        assert(lo <= -q) by (nonlinear_arith)
            requires
                lo * d <= n,
                d * q <= -n,
                d > 0,
        ;
    }
}

/// The smaller of two integers.
pub open spec fn lesser(a: int, b: int) -> int {
    if a <= b {
        a
    } else {
        b
    }
}

/// The larger of two integers.
pub open spec fn greater(a: int, b: int) -> int {
    if a <= b {
        b
    } else {
        a
    }
}

/// The weighted mean of two values with positive weights lies between them,
/// and the total weight times the mean misses the weighted sum by less than
/// the total weight.
pub proof fn lemma_weighted_mean(xa: int, wa: int, xb: int, wb: int)
    requires
        wa > 0,
        wb > 0,
    ensures
        lesser(xa, xb) <= weighted_mean(xa, wa, xb, wb) <= greater(xa, xb),
        magnitude((wa + wb) * weighted_mean(xa, wa, xb, wb) - (xa * wa + xb * wb)) < wa + wb,
{
    let lo = lesser(xa, xb);
    let hi = greater(xa, xb);
    assert(lo * (wa + wb) <= xa * wa + xb * wb <= hi * (wa + wb)) by (nonlinear_arith)
        requires
            wa > 0,
            wb > 0,
            lo <= xa <= hi,
            lo <= xb <= hi,
    ;
    lemma_trunc_div_error(xa * wa + xb * wb, wa + wb, lo, hi);
}

/// Whether both components of a vector are representable.
pub open spec fn vector_fits(v: Vec2) -> bool {
    -MAX_RAW <= v.x@ <= MAX_RAW && -MAX_RAW <= v.y@ <= MAX_RAW
}

/// Two bodies of positive mass with representable positions and velocities
/// merge exactly when their masses add up to a representable mass.
pub proof fn lemma_merge_defined(a: Body, b: Body)
    requires
        a.mass@ > 0,
        b.mass@ > 0,
        vector_fits(a.position),
        vector_fits(b.position),
        vector_fits(a.velocity),
        vector_fits(b.velocity),
    ensures
        spec_merged(a, b).is_some() <==> a.mass@ + b.mass@ <= MAX_RAW,
{
    lemma_weighted_mean(a.velocity.x@, a.mass@, b.velocity.x@, b.mass@);
    lemma_weighted_mean(a.velocity.y@, a.mass@, b.velocity.y@, b.mass@);
    lemma_weighted_mean(a.position.x@, a.mass@, b.position.x@, b.mass@);
    lemma_weighted_mean(a.position.y@, a.mass@, b.position.y@, b.mass@);
}

/// A merge keeps mass and momentum: the merged mass is the sum of the
/// two masses, and the merged momentum misses the sum of the two momenta by
/// less than one raw unit of velocity times the merged mass, which is what
/// the single rounding of the velocity can lose.
pub proof fn lemma_merge_conserves_momentum(a: Body, b: Body)
    requires
        spec_merged(a, b).is_some(),
    ensures
        spec_merged(a, b).unwrap().mass@ == a.mass@ + b.mass@,
        spec_merged(a, b).unwrap().velocity.x@ == weighted_mean(
            a.velocity.x@,
            a.mass@,
            b.velocity.x@,
            b.mass@,
        ),
        spec_merged(a, b).unwrap().velocity.y@ == weighted_mean(
            a.velocity.y@,
            a.mass@,
            b.velocity.y@,
            b.mass@,
        ),
        magnitude(
            spec_merged(a, b).unwrap().mass@ * spec_merged(a, b).unwrap().velocity.x@ - (a.mass@
                * a.velocity.x@ + b.mass@ * b.velocity.x@),
        ) < spec_merged(a, b).unwrap().mass@,
        magnitude(
            spec_merged(a, b).unwrap().mass@ * spec_merged(a, b).unwrap().velocity.y@ - (a.mass@
                * a.velocity.y@ + b.mass@ * b.velocity.y@),
        ) < spec_merged(a, b).unwrap().mass@,
{
    lemma_weighted_mean(a.velocity.x@, a.mass@, b.velocity.x@, b.mass@);
    lemma_weighted_mean(a.velocity.y@, a.mass@, b.velocity.y@, b.mass@);
    assert(a.velocity.x@ * a.mass@ == a.mass@ * a.velocity.x@) by (nonlinear_arith);
    assert(b.velocity.x@ * b.mass@ == b.mass@ * b.velocity.x@) by (nonlinear_arith);
    assert(a.velocity.y@ * a.mass@ == a.mass@ * a.velocity.y@) by (nonlinear_arith);
    assert(b.velocity.y@ * b.mass@ == b.mass@ * b.velocity.y@) by (nonlinear_arith);
}

/// A merge keeps the centre of mass: the merged body stands at the
/// mass-weighted mean of the two positions, between them, and its mass times
/// its position misses the sum of the two mass-weighted positions by less
/// than one raw unit of length times the merged mass.
pub proof fn lemma_merge_conserves_centroid(a: Body, b: Body)
    requires
        spec_merged(a, b).is_some(),
    ensures
        spec_merged(a, b).unwrap().position.x@ == trunc_div(
            a.position.x@ * a.mass@ + b.position.x@ * b.mass@,
            a.mass@ + b.mass@,
        ),
        spec_merged(a, b).unwrap().position.y@ == trunc_div(
            a.position.y@ * a.mass@ + b.position.y@ * b.mass@,
            a.mass@ + b.mass@,
        ),
        lesser(a.position.x@, b.position.x@) <= spec_merged(a, b).unwrap().position.x@ <= greater(
            a.position.x@,
            b.position.x@,
        ),
        lesser(a.position.y@, b.position.y@) <= spec_merged(a, b).unwrap().position.y@ <= greater(
            a.position.y@,
            b.position.y@,
        ),
        magnitude(
            spec_merged(a, b).unwrap().mass@ * spec_merged(a, b).unwrap().position.x@ - (a.mass@
                * a.position.x@ + b.mass@ * b.position.x@),
        ) < spec_merged(a, b).unwrap().mass@,
        magnitude(
            spec_merged(a, b).unwrap().mass@ * spec_merged(a, b).unwrap().position.y@ - (a.mass@
                * a.position.y@ + b.mass@ * b.position.y@),
        ) < spec_merged(a, b).unwrap().mass@,
{
    lemma_weighted_mean(a.position.x@, a.mass@, b.position.x@, b.mass@);
    lemma_weighted_mean(a.position.y@, a.mass@, b.position.y@, b.mass@);
    assert(a.position.x@ * a.mass@ == a.mass@ * a.position.x@) by (nonlinear_arith);
    assert(b.position.x@ * b.mass@ == b.mass@ * b.position.x@) by (nonlinear_arith);
    assert(a.position.y@ * a.mass@ == a.mass@ * a.position.y@) by (nonlinear_arith);
    assert(b.position.y@ * b.mass@ == b.mass@ * b.position.y@) by (nonlinear_arith);
}

/// A merge replaces two live bodies by one: the number of bodies drops by
/// one, and neither of the two is live afterwards.
pub proof fn lemma_merge_consumes_both(s: Seq<Body>, next: int, a: BodyId, b: BodyId)
    requires
        valid_bodies(s, next),
        spec_contact_outcome(s, next, a, b) is Merged,
    ensures
        spec_contact_bodies(s, next, a, b).len() == s.len() - 1,
        !has_id(spec_contact_bodies(s, next, a, b), a),
        !has_id(spec_contact_bodies(s, next, a, b), b),
        valid_bodies(spec_contact_bodies(s, next, a, b), next + 1),
{
    let ia = index_of(s, a);
    let s1 = s.remove(ia);
    lemma_removed_is_gone(s, next, ia);
    let ib = index_of(s, b);
    assert(s[ib].id == b);
    let ib1 = if ib < ia { ib } else { ib - 1 };
    assert(s1[ib1] == s[ib]);
    assert(has_id(s1, b));
    let jb = index_of(s1, b);
    let s2 = s1.remove(jb);
    lemma_removed_is_gone(s1, next, jb);
    assert(s2 == without(without(s, a), b));
    let merged = spec_merged(lookup(s, a).unwrap(), lookup(s, b).unwrap()).unwrap();
    let id = BodyId { number: next as u64 };
    let t = s2.push(fresh_body(id, merged));
    assert(t == spec_contact_bodies(s, next, a, b));
    assert forall|k: int| 0 <= k < s2.len() implies (#[trigger] s2[k]).id != a && s2[k].id != b by {
        assert(!has_id(s2, b));
        if s2[k].id == a {
            let k1 = if k < jb { k } else { k + 1 };
            assert(s1[k1] == s2[k]);
            assert(!has_id(s1, a));
        }
    }
    assert(s[ia].id.number < next);
    assert(s[ib].id.number < next);
    assert(s[ia].mass@ > 0 && s[ib].mass@ > 0);
    assert forall|k: int| 0 <= k < t.len() implies (#[trigger] t[k]).id != a && t[k].id != b by {
        if k < s2.len() {
            assert(t[k] == s2[k]);
        }
    }
    assert forall|x: int, y: int| 0 <= x < y < t.len() implies (#[trigger] t[x]).id.number < (
    #[trigger] t[y]).id.number by {
        assert(t[x] == s2[x]);
        if y < s2.len() {
            assert(t[y] == s2[y]);
        }
    }
    assert forall|k: int| 0 <= k < t.len() implies (#[trigger] t[k]).id.number < next + 1
        && t[k].mass@ > 0 by {
        if k < s2.len() {
            assert(t[k] == s2[k]);
        }
    }
}

} // verus!
