//! Design storms and IDF curve interpolation.  Values in thousandths.

use hec22::rainfall::{DesignStorm, DistributionType, IdfCurve, IdfPoint};

#[test]
fn test_idf_interpolation() {
    let idf = IdfCurve {
        return_period: 10_000,
        equation_type: None,
        points: vec![
            IdfPoint { duration: 5_000, intensity: 6_500 },
            IdfPoint { duration: 10_000, intensity: 5_200 },
            IdfPoint { duration: 30_000, intensity: 3_800 },
        ],
    };

    assert_eq!(idf.get_intensity(10_000), Some(5_200));

    let intensity = idf.get_intensity(20_000).unwrap();
    assert_eq!(intensity, 4_500);
}

#[test]
fn test_idf_out_of_range_uses_nearest_point() {
    let idf = IdfCurve {
        return_period: 10_000,
        equation_type: None,
        points: vec![
            IdfPoint { duration: 5_000, intensity: 6_500 },
            IdfPoint { duration: 30_000, intensity: 3_800 },
        ],
    };

    assert_eq!(idf.get_intensity(1_000), Some(6_500));
    assert_eq!(idf.get_intensity(60_000), Some(3_800));
    let empty = IdfCurve { return_period: 10_000, equation_type: None, points: vec![] };
    assert_eq!(empty.get_intensity(10_000), None);
}

#[test]
fn test_create_uniform_storm() {
    let storm = DesignStorm::uniform("storm-1".to_string(), "10-Year".to_string(), 10_000, 3_800);

    assert_eq!(storm.return_period, 10_000);
    assert_eq!(storm.peak_intensity, Some(3_800));
    assert_eq!(storm.distribution, Some(DistributionType::Uniform));
}
