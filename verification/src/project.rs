//! Project metadata and unit definitions.

use vstd::prelude::*;

verus! {

/// Project metadata and settings.
#[derive(Debug, Clone, PartialEq)]
pub struct Project {
    /// Project name.
    pub name: String,
    /// Project description (optional).
    pub description: Option<String>,
    /// Geographic location (optional).
    pub location: Option<Location>,
    /// Unit system for the project.
    pub units: Units,
    /// Project author (optional).
    pub author: Option<String>,
    /// Creation timestamp (optional).
    pub created: Option<String>,
    /// Last modified timestamp (optional).
    pub modified: Option<String>,
}

/// Geographic location information.
#[derive(Debug, Clone, PartialEq)]
pub struct Location {
    /// Latitude in thousandths of a decimal degree.
    pub latitude: i64,
    /// Longitude in thousandths of a decimal degree.
    pub longitude: i64,
    /// Vertical datum (optional).
    pub datum: Option<String>,
}

/// Unit system definitions.
#[derive(Debug, Clone, PartialEq)]
pub struct Units {
    /// Overall unit system (US customary or SI metric).
    pub system: UnitSystem,
    /// Length units (optional).
    pub length: Option<LengthUnit>,
    /// Elevation units (optional).
    pub elevation: Option<LengthUnit>,
    /// Flow rate units (optional).
    pub flow: Option<FlowUnit>,
    /// Area units (optional).
    pub area: Option<AreaUnit>,
}

/// Unit system selector.
#[derive(Debug, Clone, Copy, PartialEq, Eq, Structural)]
pub enum UnitSystem {
    /// US customary units (feet, inches, cfs, acres).
    US,
    /// SI metric units (metres, millimetres, cms, hectares).
    SI,
}

/// Length and elevation units.
#[derive(Debug, Clone, Copy, PartialEq, Eq, Structural)]
pub enum LengthUnit {
    /// Feet.
    Feet,
    /// Metres.
    Meters,
    /// Inches.
    Inches,
    /// Millimetres.
    Millimeters,
}

/// Flow rate units.
#[derive(Debug, Clone, Copy, PartialEq, Eq, Structural)]
pub enum FlowUnit {
    /// Cubic feet per second.
    Cfs,
    /// Cubic metres per second.
    Cms,
    /// Gallons per minute.
    Gpm,
    /// Litres per second.
    Lps,
}

/// Area units.
#[derive(Debug, Clone, Copy, PartialEq, Eq, Structural)]
pub enum AreaUnit {
    /// Acres.
    Acres,
    /// Hectares.
    Hectares,
    /// Square feet.
    SquareFeet,
    /// Square metres.
    SquareMeters,
}

impl Units {
    /// A US customary unit system with its standard units.
    pub fn us_customary() -> (r: Units)
        ensures
            r.system == UnitSystem::US,
            r.length == Some(LengthUnit::Feet),
            r.elevation == Some(LengthUnit::Feet),
            r.flow == Some(FlowUnit::Cfs),
            r.area == Some(AreaUnit::Acres),
    {
        Units {
            system: UnitSystem::US,
            length: Some(LengthUnit::Feet),
            elevation: Some(LengthUnit::Feet),
            flow: Some(FlowUnit::Cfs),
            area: Some(AreaUnit::Acres),
        }
    }

    /// An SI metric unit system with its standard units.
    pub fn si_metric() -> (r: Units)
        ensures
            r.system == UnitSystem::SI,
            r.length == Some(LengthUnit::Meters),
            r.elevation == Some(LengthUnit::Meters),
            r.flow == Some(FlowUnit::Cms),
            r.area == Some(AreaUnit::Hectares),
    {
        Units {
            system: UnitSystem::SI,
            length: Some(LengthUnit::Meters),
            elevation: Some(LengthUnit::Meters),
            flow: Some(FlowUnit::Cms),
            area: Some(AreaUnit::Hectares),
        }
    }
}

} // verus!
