//! Boundary conditions given by a plane: the axis it is normal to and how a
//! node's coordinate on that axis is compared with the plane's position.
use vstd::prelude::*;

verus! {

/// Which 3D axis a face-plane condition tests.
#[derive(Debug, Clone, Copy, PartialEq, Eq, Structural)]
pub enum Axis3D {
    X,
    Y,
    Z,
}

/// How a node's coordinate is compared with the plane's position.
#[derive(Debug, Clone, Copy, PartialEq, Eq, Structural)]
pub enum PlaneComparison {
    LessOrEqual,
    GreaterOrEqual,
    Approx,
}

/// The position of an axis's coordinate in a point `[x, y, z]`.
pub open spec fn axis_index(a: Axis3D) -> int {
    match a {
        Axis3D::X => 0,
        Axis3D::Y => 1,
        Axis3D::Z => 2,
    }
}

impl Axis3D {
    /// The position of the axis's coordinate in a point `[x, y, z]`.
    pub fn index(&self) -> (i: usize)
        ensures
            i == axis_index(*self),
    {
        match self {
            Axis3D::X => 0,
            Axis3D::Y => 1,
            Axis3D::Z => 2,
        }
    }

    /// The axis's name, as shown in the condition's label.
    pub fn name(&self) -> (s: &'static str)
        ensures
            s@ == match *self {
                Axis3D::X => "X"@,
                Axis3D::Y => "Y"@,
                Axis3D::Z => "Z"@,
            },
    {
        match self {
            Axis3D::X => "X",
            Axis3D::Y => "Y",
            Axis3D::Z => "Z",
        }
    }
}

impl PlaneComparison {
    /// The text of the comparison in the selection list.
    pub fn description(&self) -> (s: &'static str)
        ensures
            s@ == match *self {
                PlaneComparison::LessOrEqual => "≤ (min face)"@,
                PlaneComparison::GreaterOrEqual => "≥ (max face)"@,
                PlaneComparison::Approx => "≈ (near plane)"@,
            },
    {
        match self {
            PlaneComparison::LessOrEqual => "≤ (min face)",
            PlaneComparison::GreaterOrEqual => "≥ (max face)",
            PlaneComparison::Approx => "≈ (near plane)",
        }
    }

    /// The relation sign used in the condition's label.
    pub fn sign(&self) -> (s: &'static str)
        ensures
            s@ == match *self {
                PlaneComparison::LessOrEqual => "≤"@,
                PlaneComparison::GreaterOrEqual => "≥"@,
                PlaneComparison::Approx => "≈"@,
            },
    {
        match self {
            PlaneComparison::LessOrEqual => "≤",
            PlaneComparison::GreaterOrEqual => "≥",
            PlaneComparison::Approx => "≈",
        }
    }
}

/// The coordinate of `point` on `axis`.
pub fn coordinate<T: Copy>(point: &[T; 3], axis: Axis3D) -> (c: T)
    ensures
        c == point@[axis_index(axis)],
{
    point[axis.index()]
}

} // verus!
