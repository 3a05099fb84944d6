//! Projectile flight and ship collision on a flat sea, in exact arithmetic.
//!
//! `heading` gives directions of travel as lattice vectors, `collision` finds
//! where two ground tracks cross and whether that point lies on a ship's hull,
//! and `projectile` advances projectiles tick by tick until they come down.

pub mod collision;
pub mod heading;
pub mod projectile;
