//! Verified core of the native MapKit map widget for Fission applications:
//! the map's identity and control actions, the shared map state store and
//! its reducers, the framed payload that carries a map's initial state to
//! the native surface, and the bookkeeping of native map layers.
//!
//! Floating-point coordinates, zoom levels and sizes are held as their IEEE
//! 754 bit patterns (`f64::to_bits` / `f32::to_bits`), so every value that the
//! logic stores, compares or encodes is a plain integer.

pub mod ids;
pub mod state;
pub mod widget;
pub mod payload;
pub mod surface;
