use celestial::body::{BodyId, CelestialBody, Force};
use celestial::merge::{
    combine_bodies, merge_bodies, on_contact_begin, CollisionEvent, MergeOutcome,
};
use celestial::registry::{add_celestial_body, BodyRegistry};
use celestial::scalar::Scalar;
use celestial::vector::Vec2;

fn units(n: i64) -> Scalar {
    Scalar::from_int(n).unwrap()
}

fn at(x: i64, y: i64) -> Vec2 {
    Vec2::new(units(x), units(y))
}

fn spawn(registry: &mut BodyRegistry, position: Vec2, velocity: Vec2, mass: Scalar) -> BodyId {
    add_celestial_body(registry, CelestialBody { position, velocity, mass }).unwrap()
}

#[test]
fn momentum_is_conserved_on_merge() {
    let mut registry = BodyRegistry::new();
    let a = spawn(&mut registry, at(0, 0), at(0, 0), units(10));
    let b = spawn(&mut registry, at(3, 0), at(10, 0), units(5));
    let outcome = on_contact_begin(&mut registry, a, b);
    let id = BodyId { number: 2 };
    assert_eq!(outcome, MergeOutcome::Merged { id, heavier: a });
    let merged = registry.get(id).unwrap();
    assert_eq!(merged.mass, units(15));
    assert_eq!(merged.velocity, Vec2::new(Scalar::from_raw(3_333_333), units(0)));
    // 15 * 3.333333 misses 50 by less than 15 millionths.
    let momentum = merged.mass.raw() as i128 * merged.velocity.x.raw() as i128;
    let before = 10_000_000i128 * 0 + 5_000_000i128 * 10_000_000;
    assert!((momentum - before).abs() < merged.mass.raw() as i128);
}

#[test]
fn centroid_is_conserved_on_merge() {
    let mut registry = BodyRegistry::new();
    let a = spawn(&mut registry, at(0, 0), at(0, 0), units(10));
    let b = spawn(&mut registry, at(3, -6), at(10, 0), units(5));
    on_contact_begin(&mut registry, a, b);
    let merged = registry.get(BodyId { number: 2 }).unwrap();
    // (0 * 10 + 3 * 5) / 15 = 1, (0 * 10 - 6 * 5) / 15 = -2
    assert_eq!(merged.position, at(1, -2));
}

#[test]
fn merged_body_values() {
    let a = CelestialBody { position: at(7, 0), velocity: at(-100, 3), mass: units(3) };
    let b = CelestialBody { position: at(-2, 12), velocity: at(100, -9), mass: units(9) };
    let mut registry = BodyRegistry::new();
    let ia = add_celestial_body(&mut registry, a).unwrap();
    let ib = add_celestial_body(&mut registry, b).unwrap();
    let merged = merge_bodies(&registry.get(ia).unwrap(), &registry.get(ib).unwrap()).unwrap();
    assert_eq!(merged.mass, units(12));
    // (7 * 3 - 2 * 9) / 12 = 0.25, (0 * 3 + 12 * 9) / 12 = 9
    assert_eq!(merged.position, Vec2::new(Scalar::from_raw(250_000), units(9)));
    // (-100 * 3 + 100 * 9) / 12 = 50, (3 * 3 - 9 * 9) / 12 = -6
    assert_eq!(merged.velocity, at(50, -6));
}

#[test]
fn merged_body_replaces_both_and_comes_last() {
    let mut registry = BodyRegistry::new();
    let a = spawn(&mut registry, at(0, 0), at(0, 0), units(1));
    let b = spawn(&mut registry, at(1, 0), at(0, 0), units(1));
    let c = spawn(&mut registry, at(2, 0), at(0, 0), units(1));
    let outcome = on_contact_begin(&mut registry, c, a);
    let id = BodyId { number: 3 };
    // Neither is strictly heavier, so the second of the event is named.
    assert_eq!(outcome, MergeOutcome::Merged { id, heavier: a });
    assert_eq!(registry.len(), 2);
    assert!(!registry.contains(a));
    assert!(!registry.contains(c));
    assert_eq!(registry.body_at(0).unwrap().id, b);
    assert_eq!(registry.body_at(1).unwrap().id, id);
    let merged = registry.get(id).unwrap();
    assert_eq!(merged.force, Force { x: 0, y: 0 });
    assert_eq!(merged.partner, None);
    assert_eq!(merged.position, at(1, 0));
}

#[test]
fn contact_with_a_missing_body_is_skipped() {
    let mut registry = BodyRegistry::new();
    let a = spawn(&mut registry, at(0, 0), at(0, 0), units(1));
    let ghost = BodyId { number: 40 };
    assert_eq!(on_contact_begin(&mut registry, a, ghost), MergeOutcome::Skipped);
    assert_eq!(on_contact_begin(&mut registry, ghost, a), MergeOutcome::Skipped);
    assert_eq!(registry.len(), 1);
    assert!(registry.contains(a));
}

#[test]
fn a_body_does_not_merge_with_itself() {
    let mut registry = BodyRegistry::new();
    let a = spawn(&mut registry, at(0, 0), at(0, 0), units(1));
    assert_eq!(on_contact_begin(&mut registry, a, a), MergeOutcome::Skipped);
    assert_eq!(registry.len(), 1);
    assert_eq!(registry.get(a).unwrap().mass, units(1));
}

#[test]
fn merge_without_representable_mass_is_aborted() {
    let mut registry = BodyRegistry::new();
    let a = spawn(&mut registry, at(0, 0), at(1, 0), Scalar::from_raw(i64::MAX));
    let b = spawn(&mut registry, at(1, 0), at(0, 0), Scalar::from_raw(1));
    assert_eq!(on_contact_begin(&mut registry, a, b), MergeOutcome::Aborted);
    assert_eq!(registry.len(), 2);
    assert_eq!(registry.get(a).unwrap().mass, Scalar::from_raw(i64::MAX));
    assert_eq!(registry.get(b).unwrap().velocity, at(0, 0));
}

#[test]
fn end_of_contact_is_ignored() {
    let mut registry = BodyRegistry::new();
    let a = spawn(&mut registry, at(0, 0), at(0, 0), units(1));
    let b = spawn(&mut registry, at(1, 0), at(0, 0), units(1));
    let outcomes = combine_bodies(&mut registry, &vec![CollisionEvent::Stopped(a, b)]);
    assert_eq!(outcomes, vec![MergeOutcome::Ignored]);
    assert_eq!(registry.len(), 2);
}

#[test]
fn events_are_taken_in_order_of_arrival() {
    let mut registry = BodyRegistry::new();
    let a = spawn(&mut registry, at(0, 0), at(0, 0), units(4));
    let b = spawn(&mut registry, at(4, 0), at(0, 0), units(4));
    let c = spawn(&mut registry, at(8, 0), at(0, 0), units(8));
    let events = vec![
        CollisionEvent::Started(a, b),
        CollisionEvent::Stopped(a, b),
        // `b` is gone by now: passed over.
        CollisionEvent::Started(b, c),
        CollisionEvent::Started(c, BodyId { number: 3 }),
    ];
    let outcomes = combine_bodies(&mut registry, &events);
    assert_eq!(
        outcomes,
        vec![
            MergeOutcome::Merged { id: BodyId { number: 3 }, heavier: b },
            MergeOutcome::Ignored,
            MergeOutcome::Skipped,
            MergeOutcome::Merged { id: BodyId { number: 4 }, heavier: BodyId { number: 3 } },
        ]
    );
    assert_eq!(registry.len(), 1);
    let last = registry.body_at(0).unwrap();
    assert_eq!(last.id, BodyId { number: 4 });
    assert_eq!(last.mass, units(16));
    // a and b meet at 2; that body and c, of equal mass, meet at 5.
    assert_eq!(last.position, at(5, 0));
}

#[test]
fn no_events_change_nothing() {
    let mut registry = BodyRegistry::new();
    spawn(&mut registry, at(0, 0), at(0, 0), units(4));
    assert_eq!(combine_bodies(&mut registry, &Vec::new()), Vec::new());
    assert_eq!(registry.len(), 1);
}

#[test]
fn merge_without_a_free_identity_is_aborted() {
    let mut registry = BodyRegistry::starting_at(u64::MAX - 2);
    let a = spawn(&mut registry, at(0, 0), at(0, 0), units(1));
    let b = spawn(&mut registry, at(1, 0), at(0, 0), units(1));
    assert_eq!(on_contact_begin(&mut registry, a, b), MergeOutcome::Aborted);
    assert_eq!(registry.len(), 2);
    assert!(registry.contains(a) && registry.contains(b));
}

#[test]
fn bodies_without_mass_do_not_merge() {
    let mut registry = BodyRegistry::new();
    let a = spawn(&mut registry, at(0, 0), at(0, 0), units(1));
    let mut first = registry.get(a).unwrap();
    let second = first;
    first.mass = units(0);
    assert_eq!(merge_bodies(&first, &second), None);
    assert_eq!(merge_bodies(&second, &first), None);
    first.mass = units(-3);
    assert_eq!(merge_bodies(&first, &second), None);
}
