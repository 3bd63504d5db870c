//! Incompressible flow on a staggered grid.
//!
//! Pressure lives at cell centres, horizontal velocity on vertical faces and
//! vertical velocity on horizontal faces. A grid owns its three fields and
//! the arithmetic that combines their samples. Which samples a step reads,
//! which it writes and in which order is proved here, for every arithmetic;
//! what the arithmetic itself computes is its user's to choose.

pub mod layout;
pub mod sweep;

pub mod arithmetic;
pub mod grid;

pub mod sampler;
pub mod advect;
pub mod pressure;
pub mod project;
pub mod boundary;
pub mod step;
pub mod arrows;

pub mod laws;

pub use crate::arithmetic::Arithmetic;
pub use crate::arrows::Arrow;
pub use crate::grid::{FluidGrid, GridView, DEFAULT_SWEEPS};
