//! A verified Verlet-rope simulation kernel.
//!
//! A chain of point masses connected by distance constraints is advanced by
//! Verlet integration and relaxed toward a fixed rest length between
//! neighbours. All coordinates are fixed-point integers (one pixel is
//! `fixed::SCALE` units), so every update has an exact, machine-checked
//! contract; a rendering host converts to and from screen coordinates at the
//! boundary.

pub mod fixed;
pub mod node;
pub mod rope;
pub mod laws;
