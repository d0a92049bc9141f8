use oatf::error::ValidationError;
use oatf::error::ValidationResult;

#[test]
fn is_valid_returns_true_when_no_errors() {
    let result = ValidationResult::default();
    assert!(result.is_valid());
}

#[test]
fn is_valid_returns_false_when_errors_present() {
    let result = ValidationResult {
        errors: vec![ValidationError {
            rule: "V-001".to_string(),
            spec_ref: "11.1.1".to_string(),
            path: "attack".to_string(),
            message: "test error".to_string(),
        }],
        warnings: vec![],
    };
    assert!(!result.is_valid());
}
