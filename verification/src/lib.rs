//! A verified core for a rigid-body "physics playground" level editor.
//!
//! The crate models the editor's data and decision logic over plain values:
//! coordinates, angles, colours and material properties are fixed-point
//! integers counted in millionths of a unit (micro-units).  The modules are:
//!
//! - [`types`]: the primitive and level data model,
//! - [`library`]: the ordered library of primitive definitions and the
//!   selection-cycling rule,
//! - [`level`]: the level document and its placement log,
//! - [`codec`]: the level file format, with a proved save/load round trip,
//! - [`primitives`]: the primitive-definition file format,
//! - [`interactions`]: the editor placement controller and the
//!   ray/ground-plane intersection.
//!
//! Window handling, cameras, physics simulation and file access live with the
//! callers; the functions here take and return plain values only.

pub mod types;
pub mod library;
pub mod level;
pub mod codec;
pub mod primitives;
pub mod interactions;
