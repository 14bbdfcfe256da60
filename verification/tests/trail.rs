use celestial::scalar::Scalar;
use celestial::trail::{Fade, FadeOut, Trail, TRAIL_LENGTH};
use celestial::vector::Vec2;

fn units(n: i64) -> Scalar {
    Scalar::from_int(n).unwrap()
}

fn at(x: i64, y: i64) -> Vec2 {
    Vec2::new(units(x), units(y))
}

#[test]
fn a_new_trail_is_empty_and_stays() {
    let trail = Trail::new();
    assert_eq!(trail.len(), 0);
    assert_eq!(trail.vertices(), Vec::new());
    assert_eq!(trail.fadeout(), FadeOut::Never);
    let other = Trail::default();
    assert_eq!(other.len(), 0);
}

#[test]
fn vertices_come_out_oldest_first() {
    let mut trail = Trail::new();
    trail.add_vertex(at(1, 2));
    trail.add_vertex(at(3, 4));
    trail.add_vertex(at(-5, 6));
    assert_eq!(trail.len(), 3);
    assert_eq!(trail.vertices(), vec![at(1, 2), at(3, 4), at(-5, 6)]);
}

#[test]
fn a_full_trail_forgets_its_oldest_vertex() {
    let mut trail = Trail::new();
    for i in 0..TRAIL_LENGTH as i64 {
        trail.add_vertex(at(i, -i));
    }
    assert_eq!(trail.len(), TRAIL_LENGTH);
    assert_eq!(trail.vertices()[0], at(0, 0));
    trail.add_vertex(at(1000, 1000));
    trail.add_vertex(at(1001, 1001));
    let v = trail.vertices();
    assert_eq!(v.len(), TRAIL_LENGTH);
    assert_eq!(v[0], at(2, -2));
    assert_eq!(v[1], at(3, -3));
    assert_eq!(v[TRAIL_LENGTH - 3], at(511, -511));
    assert_eq!(v[TRAIL_LENGTH - 2], at(1000, 1000));
    assert_eq!(v[TRAIL_LENGTH - 1], at(1001, 1001));
}

#[test]
fn with_fadeout_copies_the_vertices() {
    let mut trail = Trail::new();
    trail.add_vertex(at(1, 2));
    trail.add_vertex(at(3, 4));
    let fading = trail.with_fadeout(units(2));
    assert_eq!(fading.vertices(), vec![at(1, 2), at(3, 4)]);
    assert_eq!(fading.fadeout(), FadeOut::InSeconds { remaining: units(2), duration: units(2) });
    // The copy is a trail of its own.
    trail.add_vertex(at(5, 6));
    assert_eq!(fading.len(), 2);
    assert_eq!(trail.len(), 3);
    assert_eq!(trail.fadeout(), FadeOut::Never);
}

#[test]
fn fadeout_needs_a_positive_time() {
    let trail = Trail::new().with_fadeout(units(2));
    assert_eq!(trail.with_fadeout(units(0)).fadeout(), FadeOut::Never);
    assert_eq!(trail.with_fadeout(units(-1)).fadeout(), FadeOut::Never);
}

#[test]
fn clone_keeps_vertices_and_fadeout() {
    let mut trail = Trail::new().with_fadeout(units(3));
    trail.add_vertex(at(1, 2));
    let copy = trail.clone();
    assert_eq!(copy.vertices(), vec![at(1, 2)]);
    assert_eq!(copy.fadeout(), trail.fadeout());
}

#[test]
fn a_trail_that_stays_is_opaque() {
    let mut trail = Trail::new();
    assert_eq!(trail.tick(units(5)), Fade { alpha: units(1), finished: false });
    assert_eq!(trail.fadeout(), FadeOut::Never);
}

#[test]
fn a_fading_trail_loses_opacity_and_ends() {
    let mut trail = Trail::new().with_fadeout(units(2));
    trail.add_vertex(at(1, 1));
    assert_eq!(
        trail.tick(Scalar::from_raw(500_000)),
        Fade { alpha: Scalar::from_raw(750_000), finished: false }
    );
    assert_eq!(
        trail.fadeout(),
        FadeOut::InSeconds { remaining: Scalar::from_raw(1_500_000), duration: units(2) }
    );
    // Time does not run backwards.
    assert_eq!(trail.tick(units(-1)), Fade { alpha: Scalar::from_raw(750_000), finished: false });
    assert_eq!(trail.tick(units(1)), Fade { alpha: Scalar::from_raw(250_000), finished: false });
    assert_eq!(trail.tick(units(1)), Fade { alpha: units(0), finished: true });
    assert_eq!(trail.tick(units(1)), Fade { alpha: units(0), finished: true });
    assert_eq!(trail.vertices(), vec![at(1, 1)]);
}

#[test]
fn a_trail_stays_by_default() {
    assert_eq!(FadeOut::default(), FadeOut::Never);
}
