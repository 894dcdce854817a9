//! A procedural raster-scene engine: a document names drawable objects,
//! containers re-query those objects (by name or tag, with randomized
//! selection), and a recursive renderer turns the document into a flat
//! list of canvas commands, bounded by a depth budget and a scale cutoff.
//!
//! All geometry is fixed-point: coordinates and angles are milli-units
//! (one thousandth of a user unit or of a degree), cumulative scale is
//! tracked in micro-units. A host program converts these commands into
//! calls on a concrete 2D surface.

pub mod canvas;
pub mod gate;
pub mod objects;
pub mod random;
pub mod render;
pub mod structure;
