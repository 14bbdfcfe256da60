use celestial::body::{BodyId, CelestialBody, SimError};
use celestial::gravity::apply_gravity;
use celestial::orbit::{
    classify, elements_from_state, get_orbital_elements, OrbitKind, OrbitalElements, Prediction,
    TrajectoryPredictor,
};
use celestial::registry::{add_celestial_body, BodyRegistry};
use celestial::scalar::Scalar;
use celestial::vector::Vec2;

fn units(n: i64) -> Scalar {
    Scalar::from_int(n).unwrap()
}

fn at(x: i64, y: i64) -> Vec2 {
    Vec2::new(units(x), units(y))
}

fn spawn(registry: &mut BodyRegistry, position: Vec2, velocity: Vec2, mass: i64) -> BodyId {
    add_celestial_body(registry, CelestialBody { position, velocity, mass: units(mass) }).unwrap()
}

/// Two bodies of mass 10, two units apart, the second moving at the speed
/// of a circular orbit about the first: mu = 200, v = sqrt(200 / 2) = 10.
fn circular_pair() -> (BodyRegistry, BodyId, BodyId) {
    let mut registry = BodyRegistry::new();
    let centre = spawn(&mut registry, at(0, 0), at(0, 0), 10);
    let moon = spawn(&mut registry, at(2, 0), at(0, 10), 10);
    apply_gravity(&mut registry, units(10), units(1));
    (registry, centre, moon)
}

#[test]
fn circular_orbit_elements() {
    let (registry, _, moon) = circular_pair();
    let e = get_orbital_elements(&registry, moon, units(10), units(1)).unwrap();
    assert_eq!(
        e,
        OrbitalElements {
            angular_momentum: units(20),
            eccentricity_vector: at(0, 0),
            eccentricity: units(0),
            semi_latus_rectum: units(2),
            energy: units(-50),
        }
    );
}

#[test]
fn elements_from_relative_state() {
    // r = (4, 0), v = (0, 5), mu = 50: h = 20, e = (5 * 20 / 50 - 1, 0) = (1, 0), p = 8,
    // energy = 25 / 2 - 50 / 4 = 0: a parabola.
    let e = elements_from_state(at(4, 0), at(0, 5), units(50)).unwrap();
    assert_eq!(e.angular_momentum, units(20));
    assert_eq!(e.eccentricity_vector, at(1, 0));
    assert_eq!(e.eccentricity, units(1));
    assert_eq!(e.semi_latus_rectum, units(8));
    assert_eq!(e.energy, units(0));
    assert_eq!(classify(e.eccentricity), OrbitKind::Open);
}

#[test]
fn elements_need_a_distance_and_a_mass() {
    assert_eq!(elements_from_state(at(0, 0), at(0, 5), units(50)), None);
    assert_eq!(elements_from_state(at(4, 0), at(0, 5), units(0)), None);
}

#[test]
fn eccentricity_one_is_open() {
    assert_eq!(classify(Scalar::from_raw(999_999)), OrbitKind::Closed);
    assert_eq!(classify(Scalar::from_raw(1_000_000)), OrbitKind::Open);
    assert_eq!(classify(Scalar::from_raw(1_000_001)), OrbitKind::Open);
    assert_eq!(classify(units(0)), OrbitKind::Closed);
    assert_eq!(classify(units(3)), OrbitKind::Open);
}

#[test]
fn a_body_at_rest_falls_on_an_open_orbit() {
    // No angular momentum: the eccentricity vector is minus the unit
    // vector of the position, of length exactly one.
    let mut registry = BodyRegistry::new();
    let _centre = spawn(&mut registry, at(0, 0), at(0, 0), 10);
    let stone = spawn(&mut registry, at(10, 0), at(0, 0), 5);
    apply_gravity(&mut registry, units(10), units(1));
    let predictor = TrajectoryPredictor::new(units(10), units(1));
    let prediction = predictor.predict(&registry, stone).unwrap();
    assert_eq!(prediction.elements.eccentricity, units(1));
    assert_eq!(prediction.elements.eccentricity_vector, at(-1, 0));
    assert_eq!(prediction.elements.semi_latus_rectum, units(0));
    assert_eq!(prediction.elements.energy, units(-15));
    assert_eq!(prediction.kind, OrbitKind::Open);
    assert_eq!(prediction.centre, at(0, 0));
}

#[test]
fn prediction_of_a_circular_orbit() {
    let (registry, centre, moon) = circular_pair();
    let predictor = TrajectoryPredictor::new(units(10), units(1));
    let prediction = predictor.predict(&registry, moon).unwrap();
    assert_eq!(prediction.kind, OrbitKind::Closed);
    assert_eq!(prediction.centre, registry.get(centre).unwrap().position);
    assert_eq!(prediction.length_scale, units(1));
    assert_eq!(prediction.elements.semi_latus_rectum, units(2));
}

#[test]
fn prediction_is_repeatable() {
    let (registry, _, moon) = circular_pair();
    let predictor = TrajectoryPredictor::new(units(10), units(1));
    let first = predictor.predict(&registry, moon).unwrap();
    let second = predictor.predict(&registry, moon).unwrap();
    assert_eq!(first, second);
    for index in 0..first.sample_count(8) {
        assert_eq!(first.sample_angle(8, index), second.sample_angle(8, index));
    }
    let direction = Vec2::new(Scalar::from_raw(600_000), Scalar::from_raw(800_000));
    assert_eq!(first.point(direction), second.point(direction));
}

#[test]
fn no_prediction_without_a_partner() {
    let mut registry = BodyRegistry::new();
    let lonely = spawn(&mut registry, at(0, 0), at(0, 0), 10);
    apply_gravity(&mut registry, units(10), units(1));
    let predictor = TrajectoryPredictor::new(units(10), units(1));
    assert_eq!(predictor.predict(&registry, lonely), Err(SimError::MissingPartner));
    assert_eq!(
        get_orbital_elements(&registry, lonely, units(10), units(1)),
        Err(SimError::MissingPartner)
    );
}

#[test]
fn no_prediction_once_the_partner_is_gone() {
    let (mut registry, centre, moon) = circular_pair();
    registry.remove(centre);
    let predictor = TrajectoryPredictor::new(units(10), units(1));
    assert_eq!(predictor.predict(&registry, moon), Err(SimError::MissingPartner));
}

#[test]
fn no_prediction_for_an_unknown_body() {
    let (registry, _, _) = circular_pair();
    let predictor = TrajectoryPredictor::new(units(10), units(1));
    assert_eq!(predictor.predict(&registry, BodyId { number: 9 }), Err(SimError::UnknownBody));
}

#[test]
fn no_prediction_where_elements_are_not_representable() {
    // Both bodies at one place once the first has been moved onto its partner.
    let (mut registry, centre, moon) = circular_pair();
    registry.set_position(moon, at(0, 0)).unwrap();
    let predictor = TrajectoryPredictor::new(units(10), units(1));
    assert_eq!(predictor.predict(&registry, moon), Err(SimError::NonFiniteResult));
    assert_eq!(predictor.predict(&registry, centre), Err(SimError::NonFiniteResult));
}

fn prediction(
    kind: OrbitKind,
    p: Scalar,
    e: Scalar,
    centre: Vec2,
    length_scale: Scalar,
) -> Prediction {
    Prediction {
        elements: OrbitalElements {
            angular_momentum: units(0),
            eccentricity_vector: Vec2::new(e, units(0)),
            eccentricity: e,
            semi_latus_rectum: p,
            energy: units(0),
        },
        kind,
        centre,
        length_scale,
    }
}

#[test]
fn closed_orbits_are_sampled_over_a_full_turn() {
    let closed = prediction(OrbitKind::Closed, units(2), units(0), at(0, 0), units(1));
    assert_eq!(closed.half_span(1000), 1000);
    assert_eq!(closed.sample_count(1000), 2001);
    assert_eq!(closed.sample_angle(1000, 0), Some(Scalar::from_raw(-3_141_593)));
    assert_eq!(closed.sample_angle(1000, 1000), Some(units(0)));
    assert_eq!(closed.sample_angle(1000, 1001), Some(Scalar::from_raw(3_141)));
    assert_eq!(closed.sample_angle(1000, 667), Some(Scalar::from_raw(-1_046_150)));
    assert_eq!(closed.sample_angle(1000, 2000), Some(Scalar::from_raw(3_141_593)));
    assert_eq!(closed.sample_angle(1000, 2001), None);
}

#[test]
fn open_orbits_are_sampled_over_three_quarters_of_a_turn() {
    let open = prediction(OrbitKind::Open, units(2), units(1), at(0, 0), units(1));
    assert_eq!(open.half_span(1000), 750);
    assert_eq!(open.sample_count(1000), 1501);
    assert_eq!(open.sample_angle(1000, 0), Some(Scalar::from_raw(-2_356_194)));
    assert_eq!(open.sample_angle(1000, 750), Some(units(0)));
    assert_eq!(open.sample_angle(1000, 1500), Some(Scalar::from_raw(2_356_194)));
    assert_eq!(open.sample_angle(1000, 1501), None);
    assert_eq!(open.half_span(2), 1);
    assert_eq!(open.sample_count(1), 1);
    assert_eq!(open.half_span(u32::MAX), 3_221_225_471);
}

#[test]
fn no_samples_at_resolution_zero() {
    let closed = prediction(OrbitKind::Closed, units(2), units(0), at(0, 0), units(1));
    assert_eq!(closed.sample_count(0), 0);
    assert_eq!(closed.sample_angle(0, 0), None);
}

#[test]
fn points_of_a_conic() {
    // p = 2, e = 0.5, about (10, 20), ten world units per unit of length.
    let half = Scalar::from_raw(500_000);
    let conic = prediction(OrbitKind::Closed, units(2), half, at(10, 20), units(10));
    // Along +x: radius 2 / 1.5 = 1.333333, so x = (1.333333 + 1) * 10.
    assert_eq!(conic.point(at(1, 0)), Some(Vec2::new(Scalar::from_raw(23_333_330), units(20))));
    // Along -x: radius 2 / 0.5 = 4, so x = (-4 + 1) * 10.
    assert_eq!(conic.point(at(-1, 0)), Some(at(-30, 20)));
    // Along +y: radius 2, so y = (2 + 2) * 10.
    assert_eq!(conic.point(at(0, 1)), Some(at(10, 40)));
}

#[test]
fn no_point_on_the_asymptote() {
    // e = 1 and cosine -1: the denominator is zero.
    let parabola = prediction(OrbitKind::Open, units(2), units(1), at(0, 0), units(1));
    assert_eq!(parabola.point(at(-1, 0)), None);
    assert_eq!(parabola.point(at(1, 0)), Some(at(1, 0)));
}
