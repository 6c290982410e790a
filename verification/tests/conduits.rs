//! Conduit construction and slope derivation.  Dimensional values are
//! in thousandths of the engine unit; ratios in thousandths.

use hec22::conduit::{
    Conduit, GutterProperties, PipeMaterial, PipeProperties, PipeShape,
};

#[test]
fn test_create_pipe() {
    let props = PipeProperties {
        shape: PipeShape::Circular,
        diameter: Some(18_000),
        width: None,
        height: None,
        material: Some(PipeMaterial::RCP),
        manning_n: 13,
        entrance_loss: Some(500),
        exit_loss: Some(1000),
        bend_loss: Some(0),
    };

    let conduit = Conduit::new_pipe(
        "P-101".to_string(),
        "IN-001".to_string(),
        "MH-001".to_string(),
        150_000,
        props,
    );

    assert_eq!(conduit.id, "P-101");
    assert!(conduit.is_pipe());
    assert_eq!(conduit.pipe.as_ref().unwrap().diameter, Some(18_000));
}

#[test]
fn test_pipe_material_manning_n() {
    assert_eq!(PipeMaterial::RCP.typical_manning_n(), 13);
    assert_eq!(PipeMaterial::CMP.typical_manning_n(), 24);
    assert_eq!(PipeMaterial::PVC.typical_manning_n(), 11);
}

#[test]
fn test_calculate_slope() {
    let mut conduit = Conduit::new_pipe(
        "P-101".to_string(),
        "N1".to_string(),
        "N2".to_string(),
        100_000,
        PipeProperties {
            shape: PipeShape::Circular,
            diameter: Some(18_000),
            width: None,
            height: None,
            material: Some(PipeMaterial::RCP),
            manning_n: 13,
            entrance_loss: None,
            exit_loss: None,
            bend_loss: None,
        },
    );

    conduit.upstream_invert = Some(125_000);
    conduit.downstream_invert = Some(123_000);

    let slope = conduit.calculate_slope().unwrap();
    assert_eq!(slope, 20);
}

#[test]
fn test_create_gutter() {
    let props = GutterProperties {
        cross_slope: 20,
        longitudinal_slope: 15,
        width: Some(12_000),
        manning_n: 16,
    };

    let conduit = Conduit::new_gutter(
        "G-101".to_string(),
        "IN-001".to_string(),
        "IN-001".to_string(),
        400_000,
        props,
    );

    assert!(conduit.is_gutter());
    assert_eq!(conduit.gutter.as_ref().unwrap().cross_slope, 20);
}
