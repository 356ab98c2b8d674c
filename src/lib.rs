//! Terrain editing core: ray/plane hit testing, pointer projection, the
//! vertex registry, brush strokes and mesh synchronisation.
//!
//! All geometry is exact: coordinates and scales are integers in a fixed sub-unit
//! (`UNIT` sub-units per world unit) and hit distances are fractions.
pub mod geometry;
pub mod pointer;
pub mod vertex;
pub mod brush;
pub mod editor;
