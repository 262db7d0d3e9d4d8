use vstd::prelude::*;
use crate::material::Material;

verus! {

/// Velocity is the speed at which a [Material] moves through the grid; it is
/// used to simulate gravity.
pub type Velocity = i16;

/// The contents of one cell slot: a material, its velocity, and whether the
/// cell has already been simulated during the current tick.
#[derive(Clone, Copy, PartialEq, Eq, Debug, Structural)]
pub struct CellContent {
    /// The material properties of the cell.
    pub material: Material,
    /// The velocity of the cell.
    pub velocity: Velocity,
    /// Whether the cell has been simulated during the current tick.
    pub handled: bool,
}

impl CellContent {
    pub fn new(mat: Material, handled: bool, velocity: Velocity) -> (r: Self)
        ensures
            r.material == mat,
            r.handled == handled,
            r.velocity == velocity,
    {
        Self { material: mat, velocity, handled }
    }
}

impl Default for CellContent {
    /// A fresh slot: Air, unhandled, at rest.
    fn default() -> (r: Self)
        ensures
            r.material == Material::Air,
            !r.handled,
            r.velocity == 0,
    {
        CellContent::new(Material::Air, false, 0)
    }
}

} // verus!
