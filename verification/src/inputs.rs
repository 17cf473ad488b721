//! The text inputs of the configuration dialogs: their names and help texts,
//! and reading the whole-number ones.
use vstd::prelude::*;
use crate::text::{parse_unsigned, parsed_unsigned};

verus! {

/// The inputs of the simulation section of the engine dialog.
#[derive(Debug, Clone, Copy, PartialEq, Eq, Structural)]
pub enum SimulationConfigInput {
    Duration,
    RefreshPeriod,
    BodyForceX,
    BodyForceY,
    BodyForceZ,
}

impl SimulationConfigInput {
    /// The help text shown when hovering over the input.
    pub fn info_text(&self) -> (s: &'static str)
        ensures
            s@ == match *self {
                SimulationConfigInput::Duration => "Total duration of the simulation."@,
                SimulationConfigInput::RefreshPeriod =>
                    "Rate at which new frames should be displayed. For example a refresh rate of 100 will display new frame at every 100 timesteps. Higher the period, slower the update, but faster the simulation since rendering a frame takes up a lot of time."@,
                SimulationConfigInput::BodyForceX =>
                    "Body force component in the X direction (e.g. acceleration like gravity)."@,
                SimulationConfigInput::BodyForceY =>
                    "Body force component in the Y direction (e.g. acceleration like gravity)."@,
                SimulationConfigInput::BodyForceZ =>
                    "Body force component in the Z direction (e.g. acceleration like gravity)."@,
            },
    {
        match self {
            SimulationConfigInput::Duration => "Total duration of the simulation.",
            SimulationConfigInput::RefreshPeriod => "Rate at which new frames should be displayed. For example a refresh rate of 100 will display new frame at every 100 timesteps. Higher the period, slower the update, but faster the simulation since rendering a frame takes up a lot of time.",
            SimulationConfigInput::BodyForceX => "Body force component in the X direction (e.g. acceleration like gravity).",
            SimulationConfigInput::BodyForceY => "Body force component in the Y direction (e.g. acceleration like gravity).",
            SimulationConfigInput::BodyForceZ => "Body force component in the Z direction (e.g. acceleration like gravity).",
        }
    }

    /// The input's label, in title case.
    pub fn label(&self) -> (s: &'static str)
        ensures
            s@ == match *self {
                SimulationConfigInput::Duration => "Duration"@,
                SimulationConfigInput::RefreshPeriod => "Refresh Period"@,
                SimulationConfigInput::BodyForceX => "Body Force X"@,
                SimulationConfigInput::BodyForceY => "Body Force Y"@,
                SimulationConfigInput::BodyForceZ => "Body Force Z"@,
            },
    {
        match self {
            SimulationConfigInput::Duration => "Duration",
            SimulationConfigInput::RefreshPeriod => "Refresh Period",
            SimulationConfigInput::BodyForceX => "Body Force X",
            SimulationConfigInput::BodyForceY => "Body Force Y",
            SimulationConfigInput::BodyForceZ => "Body Force Z",
        }
    }
}

/// The inputs of the bulk material section of the engine dialog.
#[derive(Debug, Clone, Copy, PartialEq, Eq, Structural)]
pub enum BulkMaterialPropsInput {
    Density,
    Damping,
    FailureStrainEnergy,
    FailureTensionalStress,
    FailureCompressionalStress,
}

impl BulkMaterialPropsInput {
    /// The help text shown when hovering over the input.
    pub fn info_text(&self) -> (s: &'static str)
        ensures
            s@ == match *self {
                BulkMaterialPropsInput::Density => "Density of the material"@,
                BulkMaterialPropsInput::Damping => "Damping constant of the material"@,
                BulkMaterialPropsInput::FailureStrainEnergy =>
                    "Strain energy at which cracks start to form.\nOptional parameter, leave blank if not necessary."@,
                BulkMaterialPropsInput::FailureTensionalStress =>
                    "Tensional stress at which cracks start to form.\nOptional parameter, leave blank if not necessary."@,
                BulkMaterialPropsInput::FailureCompressionalStress =>
                    "Compressional stress at which cracks starts to form.\nOptional parameter, leave blank if not necessary."@,
            },
    {
        match self {
            BulkMaterialPropsInput::Density => "Density of the material",
            BulkMaterialPropsInput::Damping => "Damping constant of the material",
            BulkMaterialPropsInput::FailureStrainEnergy => "Strain energy at which cracks start to form.\nOptional parameter, leave blank if not necessary.",
            BulkMaterialPropsInput::FailureTensionalStress => "Tensional stress at which cracks start to form.\nOptional parameter, leave blank if not necessary.",
            BulkMaterialPropsInput::FailureCompressionalStress => "Compressional stress at which cracks starts to form.\nOptional parameter, leave blank if not necessary.",
        }
    }

    /// The input's label, in title case.
    pub fn label(&self) -> (s: &'static str)
        ensures
            s@ == match *self {
                BulkMaterialPropsInput::Density => "Density"@,
                BulkMaterialPropsInput::Damping => "Damping"@,
                BulkMaterialPropsInput::FailureStrainEnergy => "Failure Strain Energy"@,
                BulkMaterialPropsInput::FailureTensionalStress => "Failure Tensional Stress"@,
                BulkMaterialPropsInput::FailureCompressionalStress =>
                    "Failure Compressional Stress"@,
            },
    {
        match self {
            BulkMaterialPropsInput::Density => "Density",
            BulkMaterialPropsInput::Damping => "Damping",
            BulkMaterialPropsInput::FailureStrainEnergy => "Failure Strain Energy",
            BulkMaterialPropsInput::FailureTensionalStress => "Failure Tensional Stress",
            BulkMaterialPropsInput::FailureCompressionalStress => "Failure Compressional Stress",
        }
    }
}

/// The most points a mesh may ask for.
pub const MAX_POINT_COUNT: u32 = 10000;

/// What the mesh dialog makes of its point-count input: a whole number from 1
/// to 10,000, or the message telling what is wrong.
pub fn parse_point_count(input: &str) -> (r: Result<u32, String>)
    ensures
        match parsed_unsigned(input@, u32::MAX as int) {
            None => r matches Err(e) && e@ == "Invalid point count input "@ + input@,
            Some(v) => if v == 0 {
                r matches Err(e) && e@ == "Number of points must be greater than 0"@
            } else if v > 10000 {
                r matches Err(e) && e@ == "Point count is too high (max 10,000)"@
            } else {
                r == Ok::<u32, String>(v as u32)
            },
        },
{
    proof {
        reveal_strlit("Invalid point count input ");
        reveal_strlit("Number of points must be greater than 0");
        reveal_strlit("Point count is too high (max 10,000)");
    }
    match parse_unsigned(input, u32::MAX as u128) {
        None => {
            let mut e = String::from_str("Invalid point count input ");
            e.append(input);
            Err(e)
        },
        Some(v) => {
            if v == 0 {
                Err(String::from_str("Number of points must be greater than 0"))
            } else if v > 10000 {
                Err(String::from_str("Point count is too high (max 10,000)"))
            } else {
                Ok(v as u32)
            }
        },
    }
}

/// The check the mesh generator makes of a point count before it starts.
pub fn check_point_count(num_points: u32) -> (r: Result<(), String>)
    ensures
        num_points == 0 ==> (r matches Err(e) && e@ == "Number of points must be greater than 0"@),
        num_points > MAX_POINT_COUNT ==> (r matches Err(e) && e@
            == "Number of points is too high (max 10,000)"@),
        r is Ok <==> 1 <= num_points <= MAX_POINT_COUNT,
{
    proof {
        reveal_strlit("Number of points must be greater than 0");
        reveal_strlit("Number of points is too high (max 10,000)");
    }
    if num_points == 0 {
        Err(String::from_str("Number of points must be greater than 0"))
    } else if num_points > MAX_POINT_COUNT {
        Err(String::from_str("Number of points is too high (max 10,000)"))
    } else {
        Ok(())
    }
}

/// What the engine dialog makes of its export-period input: a whole number
/// of time steps, or the message telling it is not one.
pub fn parse_export_period(input: &str) -> (r: Result<u128, String>)
    ensures
        match parsed_unsigned(input@, u128::MAX as int) {
            None => r matches Err(e) && e@ == "Invalid export period "@ + input@,
            Some(v) => r == Ok::<u128, String>(v as u128),
        },
{
    match parse_unsigned(input, u128::MAX) {
        None => {
            let mut e = String::from_str("Invalid export period ");
            e.append(input);
            Err(e)
        },
        Some(v) => Ok(v),
    }
}

} // verus!
