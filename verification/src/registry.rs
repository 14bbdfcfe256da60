//! The store of live bodies.
//!
//! Bodies are kept in the order in which they were created. Identities are
//! handed out in increasing order and never reused, so no two live bodies
//! share one.

use crate::body::{spec_radius, Body, BodyId, CelestialBody, Force, SimError};
use crate::scalar::Scalar;
use crate::vector::Vec2;
use vstd::prelude::*;

verus! {

/// The store of live bodies.
#[derive(Debug)]
pub struct BodyRegistry {
    pub(crate) bodies: Vec<Body>,
    pub(crate) next_id: u64,
}

/// Identities strictly increase along the sequence and lie below `next`, and
/// every mass is positive.
pub open spec fn valid_bodies(s: Seq<Body>, next: int) -> bool {
    &&& forall|i: int, j: int|
        0 <= i < j < s.len() ==> (#[trigger] s[i]).id.number < (#[trigger] s[j]).id.number
    &&& forall|i: int| 0 <= i < s.len() ==> (#[trigger] s[i]).id.number < next
    &&& forall|i: int| 0 <= i < s.len() ==> (#[trigger] s[i]).mass@ > 0
}

/// Whether some body of the sequence has the identity `id`.
pub open spec fn has_id(s: Seq<Body>, id: BodyId) -> bool {
    exists|i: int| 0 <= i < s.len() && (#[trigger] s[i]).id == id
}

/// Where the body with identity `id` stands in the sequence.
pub open spec fn index_of(s: Seq<Body>, id: BodyId) -> int {
    choose|i: int| 0 <= i < s.len() && (#[trigger] s[i]).id == id
}

/// The body with identity `id`, if it is live.
pub open spec fn lookup(s: Seq<Body>, id: BodyId) -> Option<Body> {
    if has_id(s, id) {
        Some(s[index_of(s, id)])
    } else {
        None
    }
}

/// A freshly created body: no force on it yet, and no partner.
pub open spec fn fresh_body(id: BodyId, body: CelestialBody) -> Body {
    Body {
        id,
        position: body.position,
        velocity: body.velocity,
        mass: body.mass,
        force: Force { x: 0, y: 0 },
        partner: None,
    }
}

/// In a valid sequence an identity determines its index.
pub proof fn lemma_index_unique(s: Seq<Body>, next: int, i: int)
    requires
        valid_bodies(s, next),
        0 <= i < s.len(),
    ensures
        has_id(s, s[i].id),
        index_of(s, s[i].id) == i,
        lookup(s, s[i].id) == Some(s[i]),
{
    let k = index_of(s, s[i].id);
    assert(0 <= k < s.len() && s[k].id == s[i].id);
    if k < i {
        assert(s[k].id.number < s[i].id.number);
    } else if i < k {
        assert(s[i].id.number < s[k].id.number);
    }
}

impl View for BodyRegistry {
    type V = Seq<Body>;

    open(crate) spec fn view(&self) -> Seq<Body> {
        self.bodies@
    }
}

impl Default for BodyRegistry {
    /// An empty registry.
    fn default() -> (r: BodyRegistry)
        ensures
            r.wf(),
            r@ == Seq::<Body>::empty(),
            r.spec_next_id() == 0,
    {
        BodyRegistry::new()
    }
}

impl BodyRegistry {
    /// The identity that the next created body will get.
    pub open(crate) spec fn spec_next_id(self) -> int {
        self.next_id as int
    }

    /// What every registry satisfies: no two live bodies share an identity,
    /// and every mass is positive.
    pub open spec fn wf(self) -> bool {
        valid_bodies(self@, self.spec_next_id())
    }

    /// An empty registry.
    pub fn new() -> (r: BodyRegistry)
        ensures
            r.wf(),
            r@ == Seq::<Body>::empty(),
            r.spec_next_id() == 0,
    {
        BodyRegistry { bodies: Vec::new(), next_id: 0 }
    }

    /// An empty registry whose first body will get the identity `first`.
    pub fn starting_at(first: u64) -> (r: BodyRegistry)
        ensures
            r.wf(),
            r@ == Seq::<Body>::empty(),
            r.spec_next_id() == first,
    {
        BodyRegistry { bodies: Vec::new(), next_id: first }
    }

    /// Number of live bodies.
    pub fn len(&self) -> (n: usize)
        ensures
            n == self@.len(),
    {
        self.bodies.len()
    }

    /// The body at `index`, in order of creation.
    pub fn body_at(&self, index: usize) -> (r: Option<Body>)
        ensures
            index < self@.len() ==> r == Some(self@[index as int]),
            index >= self@.len() ==> r.is_none(),
    {
        if index < self.bodies.len() {
            Some(self.bodies[index])
        } else {
            None
        }
    }

    /// Index of the body with identity `id`, if it is live.
    pub fn find(&self, id: BodyId) -> (r: Option<usize>)
        requires
            self.wf(),
        ensures
            r.is_some() == has_id(self@, id),
            r.is_some() ==> r.unwrap() == index_of(self@, id) && r.unwrap() < self@.len(),
    {
        let mut i: usize = 0;
        while i < self.bodies.len()
            invariant
                i <= self.bodies.len(),
                forall|k: int| 0 <= k < i ==> (#[trigger] self.bodies@[k]).id != id,
                valid_bodies(self.bodies@, self.next_id as int),
            decreases self.bodies.len() - i,
        {
            if self.bodies[i].id.number == id.number {
                proof {
                    lemma_index_unique(self.bodies@, self.next_id as int, i as int);
                }
                return Some(i);
            }
            i += 1;
        }
        None
    }

    /// Whether a body with identity `id` is live.
    pub fn contains(&self, id: BodyId) -> (r: bool)
        requires
            self.wf(),
        ensures
            r == has_id(self@, id),
    {
        self.find(id).is_some()
    }

    /// The body with identity `id`, if it is live.
    pub fn get(&self, id: BodyId) -> (r: Option<Body>)
        requires
            self.wf(),
        ensures
            r == lookup(self@, id),
    {
        match self.find(id) {
            Some(i) => Some(self.bodies[i]),
            None => None,
        }
    }

    /// Radius of the body with identity `id`, if it is live. The radius is
    /// derived from the mass and cannot be set.
    pub fn radius_of(&self, id: BodyId) -> (r: Option<Scalar>)
        requires
            self.wf(),
        ensures
            r.is_some() == has_id(self@, id),
            r.is_some() ==> r.unwrap()@ == spec_radius(lookup(self@, id).unwrap().mass@)
                && r.unwrap()@ > 0,
    {
        match self.find(id) {
            Some(i) => match CelestialBody::radius_from_mass(self.bodies[i].mass) {
                Ok(radius) => Some(radius),
                Err(_) => None,
            },
            None => None,
        }
    }

    /// Creates a body and returns its identity. A mass that is not positive is
    /// rejected, and nothing changes.
    pub fn create(&mut self, position: Vec2, velocity: Vec2, mass: Scalar) -> (r: Result<
        BodyId,
        SimError,
    >)
        requires
            old(self).wf(),
        ensures
            final(self).wf(),
            mass@ <= 0 ==> r == Err::<BodyId, SimError>(SimError::InvalidMass),
            mass@ > 0 && old(self).spec_next_id() == u64::MAX ==> r == Err::<BodyId, SimError>(
                SimError::RegistryFull,
            ),
            mass@ > 0 && old(self).spec_next_id() < u64::MAX ==> r == Ok::<BodyId, SimError>(
                BodyId { number: old(self).spec_next_id() as u64 },
            ),
            r.is_err() ==> final(self)@ == old(self)@,
            r.is_err() ==> final(self).spec_next_id() == old(self).spec_next_id(),
            r.is_ok() ==> final(self)@ == old(self)@.push(
                fresh_body(r.unwrap(), CelestialBody { position, velocity, mass }),
            ) && final(self).spec_next_id() == old(self).spec_next_id() + 1,
    {
        if mass.raw <= 0 {
            return Err(SimError::InvalidMass);
        }
        if self.next_id == u64::MAX {
            return Err(SimError::RegistryFull);
        }
        let id = BodyId { number: self.next_id };
        let body = Body {
            id,
            position,
            velocity,
            mass,
            force: Force { x: 0, y: 0 },
            partner: None,
        };
        self.next_id = self.next_id + 1;
        self.bodies.push(body);
        Ok(id)
    }

    /// Removes the body with identity `id` and returns it, if it is live.
    pub fn remove(&mut self, id: BodyId) -> (r: Option<Body>)
        requires
            old(self).wf(),
        ensures
            final(self).wf(),
            r == lookup(old(self)@, id),
            final(self).spec_next_id() == old(self).spec_next_id(),
            r.is_none() ==> final(self)@ == old(self)@,
            r.is_some() ==> final(self)@ == old(self)@.remove(index_of(old(self)@, id)),
            !has_id(final(self)@, id),
    {
        match self.find(id) {
            Some(i) => {
                let body = self.bodies.remove(i);
                proof {
                    lemma_removed_is_gone(old(self)@, self.next_id as int, i as int);
                }
                Some(body)
            },
            None => None,
        }
    }

    /// Moves the body with identity `id` to `position`.
    pub fn set_position(&mut self, id: BodyId, position: Vec2) -> (r: Result<(), SimError>)
        requires
            old(self).wf(),
        ensures
            final(self).wf(),
            final(self).spec_next_id() == old(self).spec_next_id(),
            !has_id(old(self)@, id) ==> r == Err::<(), SimError>(SimError::UnknownBody),
            !has_id(old(self)@, id) ==> final(self)@ == old(self)@,
            has_id(old(self)@, id) ==> r.is_ok() && final(self)@ == old(self)@.update(
                index_of(old(self)@, id),
                Body { position, ..old(self)@[index_of(old(self)@, id)] },
            ),
    {
        match self.find(id) {
            Some(i) => {
                let body = self.bodies[i];
                self.bodies.set(i, Body { position, ..body });
                Ok(())
            },
            None => Err(SimError::UnknownBody),
        }
    }

    /// Gives the body with identity `id` the velocity `velocity`.
    pub fn set_velocity(&mut self, id: BodyId, velocity: Vec2) -> (r: Result<(), SimError>)
        requires
            old(self).wf(),
        ensures
            final(self).wf(),
            final(self).spec_next_id() == old(self).spec_next_id(),
            !has_id(old(self)@, id) ==> r == Err::<(), SimError>(SimError::UnknownBody),
            !has_id(old(self)@, id) ==> final(self)@ == old(self)@,
            has_id(old(self)@, id) ==> r.is_ok() && final(self)@ == old(self)@.update(
                index_of(old(self)@, id),
                Body { velocity, ..old(self)@[index_of(old(self)@, id)] },
            ),
    {
        match self.find(id) {
            Some(i) => {
                let body = self.bodies[i];
                self.bodies.set(i, Body { velocity, ..body });
                Ok(())
            },
            None => Err(SimError::UnknownBody),
        }
    }

    /// Gives the body with identity `id` the mass `mass`, which must be
    /// positive.
    pub fn set_mass(&mut self, id: BodyId, mass: Scalar) -> (r: Result<(), SimError>)
        requires
            old(self).wf(),
        ensures
            final(self).wf(),
            final(self).spec_next_id() == old(self).spec_next_id(),
            mass@ <= 0 ==> r == Err::<(), SimError>(SimError::InvalidMass),
            mass@ > 0 && !has_id(old(self)@, id) ==> r == Err::<(), SimError>(
                SimError::UnknownBody,
            ),
            r.is_err() ==> final(self)@ == old(self)@,
            mass@ > 0 && has_id(old(self)@, id) ==> r.is_ok() && final(self)@ == old(self)@.update(
                index_of(old(self)@, id),
                Body { mass, ..old(self)@[index_of(old(self)@, id)] },
            ),
    {
        if mass.raw <= 0 {
            return Err(SimError::InvalidMass);
        }
        match self.find(id) {
            Some(i) => {
                let body = self.bodies[i];
                self.bodies.set(i, Body { mass, ..body });
                Ok(())
            },
            None => Err(SimError::UnknownBody),
        }
    }
}

/// Brings `body` into being in `registry` and returns its identity.
pub fn add_celestial_body(registry: &mut BodyRegistry, body: CelestialBody) -> (r: Result<
    BodyId,
    SimError,
>)
    requires
        old(registry).wf(),
    ensures
        final(registry).wf(),
        body.mass@ <= 0 ==> r == Err::<BodyId, SimError>(SimError::InvalidMass),
        body.mass@ > 0 && old(registry).spec_next_id() == u64::MAX ==> r == Err::<
            BodyId,
            SimError,
        >(SimError::RegistryFull),
        body.mass@ > 0 && old(registry).spec_next_id() < u64::MAX ==> r == Ok::<BodyId, SimError>(
            BodyId { number: old(registry).spec_next_id() as u64 },
        ),
        r.is_err() ==> final(registry)@ == old(registry)@,
        r.is_err() ==> final(registry).spec_next_id() == old(registry).spec_next_id(),
        r.is_ok() ==> final(registry)@ == old(registry)@.push(fresh_body(r.unwrap(), body))
            && final(registry).spec_next_id() == old(registry).spec_next_id() + 1,
{
    registry.create(body.position, body.velocity, body.mass)
}

/// Removing a body from a valid sequence leaves a valid sequence in which its
/// identity no longer occurs.
pub proof fn lemma_removed_is_gone(s: Seq<Body>, next: int, i: int)
    requires
        valid_bodies(s, next),
        0 <= i < s.len(),
    ensures
        valid_bodies(s.remove(i), next),
        !has_id(s.remove(i), s[i].id),
{
    let t = s.remove(i);
    assert forall|k: int| 0 <= k < t.len() implies (#[trigger] t[k]).id != s[i].id by {
        if k < i {
            assert(t[k] == s[k]);
            assert(s[k].id.number < s[i].id.number);
        } else {
            assert(t[k] == s[k + 1]);
            assert(s[i].id.number < s[k + 1].id.number);
        }
    }
    assert forall|a: int, b: int| 0 <= a < b < t.len() implies (#[trigger] t[a]).id.number < (
    #[trigger] t[b]).id.number by {
        let a2 = if a < i { a } else { a + 1 };
        let b2 = if b < i { b } else { b + 1 };
        assert(t[a] == s[a2]);
        assert(t[b] == s[b2]);
    }
    assert forall|k: int| 0 <= k < t.len() implies (#[trigger] t[k]).id.number < next && t[k].mass@
        > 0 by {
        let k2 = if k < i { k } else { k + 1 };
        assert(t[k] == s[k2]);
    }
}

} // verus!
