//! An isometric scene of movable blocks on an integer grid: projection,
//! collision pushes, shadows and pointer interaction, with machine-checked
//! contracts.
//!
//! Logical positions are whole units. Screen positions are whole eighths of
//! a pixel, and the light stands on whole quarters of a unit, so that every
//! formula of the scene is exact.

pub mod geometry;
pub mod grid;
pub mod direction;
pub mod cube;
pub mod movement;
pub mod propagation;
pub mod shadow;
pub mod link;
pub mod depth;
pub mod input;
pub mod cube_grid;
