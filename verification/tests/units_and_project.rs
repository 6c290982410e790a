//! Unit-system presets.

use hec22::project::{AreaUnit, FlowUnit, LengthUnit, UnitSystem, Units};

#[test]
fn test_us_customary_units() {
    let units = Units::us_customary();
    assert_eq!(units.system, UnitSystem::US);
    assert_eq!(units.length, Some(LengthUnit::Feet));
    assert_eq!(units.flow, Some(FlowUnit::Cfs));
}

#[test]
fn test_si_metric_units() {
    let units = Units::si_metric();
    assert_eq!(units.system, UnitSystem::SI);
    assert_eq!(units.length, Some(LengthUnit::Meters));
    assert_eq!(units.flow, Some(FlowUnit::Cms));
}
