//! Gravitating point masses in the plane.
//!
//! The library keeps the bodies of a simulation and decides three things:
//! the force on each body and the partner that pulls on it hardest
//! ([`gravity`]), what becomes of two bodies that touch ([`merge`]), and the
//! Kepler orbit of a body about its partner ([`orbit`]). It does not move
//! the bodies: a physics backend takes the forces, moves the bodies, and
//! reports where they are and which of them touch.
//!
//! One tick of a host loop runs in this order:
//!
//! 1. [`registry::BodyRegistry::set_position`] and
//!    [`registry::BodyRegistry::set_velocity`] with what the backend reports;
//! 2. [`gravity::apply_gravity`], which clears and recomputes every force and
//!    dominant partner;
//! 3. the backend integrates and detects contacts;
//! 4. [`merge::combine_bodies`] with the contacts, in their order of arrival;
//! 5. [`orbit::TrajectoryPredictor::predict`] for the bodies whose orbit is
//!    wanted.
//!
//! Around this core stand what a host needs besides: the trail a body leaves
//! ([`trail`]), the bodies a simulation starts with ([`scenario`]), launching
//! a body by dragging ([`drag`]) and panning the camera ([`camera`]).
//!
//! All quantities are fixed-point numbers counted in millionths
//! ([`scalar::Scalar`]). Every operation is exact up to one rounding toward
//! zero, and answers `None` instead of a value that has no representation;
//! a pair, a merge or a prediction that meets such a value is passed over.

pub mod scalar;
pub mod vector;
pub mod body;
pub mod registry;
pub mod gravity;
pub mod merge;
pub mod orbit;
pub mod trail;
pub mod scenario;
pub mod drag;
pub mod camera;
