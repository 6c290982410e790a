//! Drainage areas: time of concentration and the rational method.
//! Values in thousandths.

use hec22::drainage::{
    ChannelFlow, DrainageArea, ShallowConcentratedFlow, SheetFlow, SurfaceType, TcCalculation,
};

#[test]
fn test_calculate_tc() {
    let drainage_area = DrainageArea {
        id: "DA-001".to_string(),
        name: Some("Test Area".to_string()),
        area: 1_500,
        outlet: "IN-001".to_string(),
        land_use: None,
        runoff_coefficient: Some(850),
        time_of_concentration: None,
        tc_calculation: Some(TcCalculation {
            sheet_flow: Some(SheetFlow { length: 50_000, slope: 20, roughness: 11, time: 3_000 }),
            shallow_concentrated: Some(ShallowConcentratedFlow {
                length: 200_000,
                slope: 15,
                surface_type: SurfaceType::Paved,
                time: 5_000,
            }),
            channel_flow: Some(ChannelFlow { length: 150_000, velocity: 3_500, time: 2_000 }),
        }),
        curve_number: None,
    };

    let total_tc = drainage_area.calculate_total_tc().unwrap();
    assert_eq!(total_tc, 10_000);
}

#[test]
fn test_rational_method() {
    let drainage_area = DrainageArea {
        id: "DA-001".to_string(),
        name: None,
        area: 2_000,
        outlet: "IN-001".to_string(),
        land_use: None,
        runoff_coefficient: Some(800),
        time_of_concentration: Some(10_000),
        tc_calculation: None,
        curve_number: None,
    };

    let intensity = 3_500;
    let runoff = drainage_area.rational_method_runoff(intensity).unwrap();

    assert_eq!(runoff, 5_600);
}
