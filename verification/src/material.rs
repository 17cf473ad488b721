//! The plane of elasticity a material is modelled in.
use vstd::prelude::*;

verus! {

/// The elasticity condition of an isotropic material; the simulation is
/// three-dimensional.
#[derive(Debug, Clone, Copy, PartialEq, Eq, Structural)]
pub enum ElasticityCondition {
    ThreeDimensional,
}

impl Default for ElasticityCondition {
    fn default() -> (c: Self)
        ensures
            c == ElasticityCondition::ThreeDimensional,
    {
        ElasticityCondition::ThreeDimensional
    }
}

impl ElasticityCondition {
    /// The condition's name in the material dialog.
    pub fn name(&self) -> (s: &'static str)
        ensures
            s@ == "Three Dimensional"@,
    {
        match self {
            ElasticityCondition::ThreeDimensional => "Three Dimensional",
        }
    }
}

} // verus!
