//! Analysis results and violation reporting.  Values in thousandths.

use hec22::analysis::{Analysis, AnalysisMethod, Severity, Violation, ViolationType};

#[test]
fn test_create_hgl_violation() {
    let violation = Violation::hgl_violation("MH-001".to_string(), 125_500, 125_000, Severity::Error);

    assert_eq!(violation.violation_type, ViolationType::Hgl);
    assert_eq!(violation.severity, Severity::Error);
    assert_eq!(violation.value, Some(125_500));
    assert_eq!(violation.limit, Some(125_000));
}

#[test]
fn test_analysis_add_violation() {
    let mut analysis = Analysis::new(AnalysisMethod::Rational, "storm-10yr".to_string());

    let violation =
        Violation::spread_violation("G-101".to_string(), 12_500, 10_000, Severity::Warning);

    analysis.add_violation(violation);

    assert_eq!(analysis.violations.as_ref().unwrap().len(), 1);
}

#[test]
fn test_filter_violations() {
    let mut analysis = Analysis::new(AnalysisMethod::Rational, "storm-10yr".to_string());

    analysis.add_violation(Violation::hgl_violation(
        "MH-001".to_string(),
        125_500,
        125_000,
        Severity::Error,
    ));

    analysis.add_violation(Violation::spread_violation(
        "G-101".to_string(),
        12_500,
        10_000,
        Severity::Warning,
    ));

    let hgl_violations = analysis.get_violations_by_type(ViolationType::Hgl);
    assert_eq!(hgl_violations.len(), 1);

    let errors = analysis.get_errors();
    assert_eq!(errors.len(), 1);

    assert!(analysis.has_errors());
}

#[test]
fn test_violation_messages_render_decimals() {
    let violation = Violation::hgl_violation("MH-001".to_string(), 125_500, 125_000, Severity::Error);
    assert_eq!(
        violation.message,
        "HGL at 125.50 ft is 0.50 ft above rim elevation of 125.00 ft"
    );

    let capacity = Violation::capacity_violation("P-001".to_string(), 1_250, Severity::Warning);
    assert_eq!(capacity.message, "Pipe P-001 is operating at 125% capacity (undersized)");
}

#[test]
fn test_analysis_timestamp_present() {
    let analysis = Analysis::new(AnalysisMethod::Rational, "storm-2yr".to_string());
    assert!(analysis.timestamp.is_some());
    assert!(!analysis.timestamp.unwrap().is_empty());
}
