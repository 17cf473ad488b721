//! The names under which the colour maps and the seeding patterns are offered.
use vstd::prelude::*;

verus! {

/// The colour map that stress values are drawn with.
#[derive(Debug, Clone, Copy, PartialEq, Eq, Structural)]
pub enum Colormap {
    /// Diverging blue, white, red.
    CoolWarm,
    /// Perceptually uniform purple to yellow.
    Viridis,
    /// Purple, orange, yellow.
    Plasma,
    /// Blue, cyan, green, yellow, red.
    Jet,
    /// Black to white.
    Grayscale,
}

impl Default for Colormap {
    fn default() -> (c: Self)
        ensures
            c == Colormap::CoolWarm,
    {
        Colormap::CoolWarm
    }
}

impl Colormap {
    /// The name shown in the colour map selection.
    pub fn label(&self) -> (s: &'static str)
        ensures
            s@ == match *self {
                Colormap::CoolWarm => "Cool-Warm"@,
                Colormap::Viridis => "Viridis"@,
                Colormap::Plasma => "Plasma"@,
                Colormap::Jet => "Jet"@,
                Colormap::Grayscale => "Grayscale"@,
            },
    {
        match self {
            Colormap::CoolWarm => "Cool-Warm",
            Colormap::Viridis => "Viridis",
            Colormap::Plasma => "Plasma",
            Colormap::Jet => "Jet",
            Colormap::Grayscale => "Grayscale",
        }
    }
}

/// How seed points are laid out in a region of the mesh.
#[derive(Debug, Clone, Copy, PartialEq, Eq, Structural)]
pub enum SeedingPattern {
    Grid,
    Hexagonal,
    Fibonacci,
    Random,
}

/// The name shown for a seeding pattern.
pub fn pattern_label(p: SeedingPattern) -> (s: &'static str)
    ensures
        s@ == match p {
            SeedingPattern::Grid => "Grid"@,
            SeedingPattern::Hexagonal => "Hexagonal"@,
            SeedingPattern::Fibonacci => "Fibonacci"@,
            SeedingPattern::Random => "Random"@,
        },
{
    match p {
        SeedingPattern::Grid => "Grid",
        SeedingPattern::Hexagonal => "Hexagonal",
        SeedingPattern::Fibonacci => "Fibonacci",
        SeedingPattern::Random => "Random",
    }
}

} // verus!
