use ruping::params::{check_options, validate_ping_params, OptionsError, RunSettings, ValidationError};

#[test]
fn test_parameter_validation() {
    // Valid parameters
    assert!(validate_ping_params(Some(32), Some(4), Some(4000), Some(64)).is_ok());

    // Invalid size
    assert!(validate_ping_params(Some(70000), None, None, None).is_err());

    // Invalid count
    assert!(validate_ping_params(None, Some(0), None, None).is_err());

    // Invalid timeout
    assert!(validate_ping_params(None, None, Some(0), None).is_err());

    // Invalid TTL
    assert!(validate_ping_params(None, None, None, Some(0)).is_err());
    assert!(validate_ping_params(None, None, None, Some(256)).is_err());
}

#[test]
fn validation_error_variants_and_bounds() {
    assert_eq!(validate_ping_params(Some(65500), None, None, Some(255)), Ok(()));
    assert_eq!(validate_ping_params(Some(65501), None, None, None), Err(ValidationError::SizeTooLarge));
    assert_eq!(validate_ping_params(None, Some(0), Some(0), None), Err(ValidationError::CountZero));
    assert_eq!(validate_ping_params(None, None, Some(0), Some(0)), Err(ValidationError::TimeoutZero));
    assert_eq!(validate_ping_params(None, None, None, Some(0)), Err(ValidationError::TtlOutOfRange));
    assert_eq!(validate_ping_params(None, None, None, None), Ok(()));
}

#[test]
fn option_conflicts() {
    assert_eq!(check_options(true, true, true, false, false), Err(OptionsError::BothFamiliesForced));
    assert_eq!(check_options(false, false, false, false, false), Err(OptionsError::NoTargets));
    assert_eq!(check_options(false, true, true, true, true), Err(OptionsError::JsonAndCsv));
    assert_eq!(check_options(true, false, true, true, false), Ok(()));
}

#[test]
fn run_settings_defaults_and_bounds() {
    let s = RunSettings::from_options(64, None, None, 1000, None, false);
    assert_eq!(s.concurrency, 64);
    assert_eq!(s.payload_size, 32);
    assert_eq!(s.timeout_ms, 4000);
    assert_eq!(s.interval_ms, 1000);
    assert_eq!(s.count, 4);
    assert!(!s.continuous);
    let t = RunSettings::from_options(0, Some(100), Some(5), 0, Some(9), true);
    assert_eq!(t.concurrency, 1);
    assert_eq!(t.payload_size, 100);
    assert_eq!(t.timeout_ms, 5);
    assert_eq!(t.interval_ms, 1);
    assert_eq!(t.count, u32::MAX);
    assert!(t.continuous);
    assert_eq!(RunSettings::from_options(5000, None, None, 1, Some(2), false).concurrency, 256);
}
