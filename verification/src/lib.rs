//! Cell-precise ray traversal through an axis-aligned unit grid.
//!
//! The engine enumerates, in order, the grid cells ("voxels") that a ray
//! passes through, together with the distance travelled and the face normal
//! through which each cell was entered.  All coordinates are fixed-point
//! numbers with [`fx::SCALE`] sub-unit steps, so every quantity the engine
//! manipulates is a plain integer and the stepping logic is verified.
//!
//! Two mirrored engines are provided, one per dimensionality: a
//! two-dimensional one and a three-dimensional one, identical in shape.

pub mod axis;
pub mod fx;
pub mod raycast_2d;
pub mod raycast_3d;
