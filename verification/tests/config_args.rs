use img2yaya::config::{parse_threshold, parse_u32, resolve_step_sizes, ConfigError};

#[test]
fn default_step_sizes_divide_width_by_default_width() {
    assert_eq!(resolve_step_sizes(64, 48, None, None), Ok((4, 4)));
    assert_eq!(resolve_step_sizes(16, 16, None, None), Ok((1, 1)));
}

#[test]
fn requested_width_drives_both_step_sizes() {
    assert_eq!(resolve_step_sizes(64, 48, Some(8), None), Ok((8, 8)));
}

#[test]
fn requested_height_drives_both_step_sizes() {
    assert_eq!(resolve_step_sizes(64, 48, None, Some(8)), Ok((6, 6)));
}

#[test]
fn requested_width_and_height_resolve_independently() {
    assert_eq!(resolve_step_sizes(64, 48, Some(8), Some(6)), Ok((8, 8)));
    assert_eq!(resolve_step_sizes(64, 48, Some(4), Some(24)), Ok((16, 2)));
}

#[test]
fn zero_requested_dimension_is_a_configuration_error() {
    assert_eq!(resolve_step_sizes(64, 48, Some(0), None), Err(ConfigError::ZeroDimension));
    assert_eq!(resolve_step_sizes(64, 48, None, Some(0)), Err(ConfigError::ZeroDimension));
    assert_eq!(resolve_step_sizes(64, 48, Some(0), Some(6)), Err(ConfigError::ZeroDimension));
}

#[test]
fn oversized_requested_dimension_is_a_configuration_error() {
    // a requested dimension larger than the image makes the step size zero
    assert_eq!(resolve_step_sizes(64, 48, Some(65), None), Err(ConfigError::ZeroStepSize));
    assert_eq!(resolve_step_sizes(64, 48, None, Some(49)), Err(ConfigError::ZeroStepSize));
    assert_eq!(resolve_step_sizes(64, 48, Some(4), Some(49)), Err(ConfigError::ZeroStepSize));
    // an image narrower than the default width has the same failure mode
    assert_eq!(resolve_step_sizes(8, 8, None, None), Err(ConfigError::ZeroStepSize));
}

#[test]
fn parse_u32_accepts_plain_numerals() {
    assert_eq!(parse_u32(b"0"), Some(0));
    assert_eq!(parse_u32(b"42"), Some(42));
    assert_eq!(parse_u32(b"+42"), Some(42));
    assert_eq!(parse_u32(b"007"), Some(7));
    assert_eq!(parse_u32(b"4294967295"), Some(u32::MAX));
}

#[test]
fn parse_u32_rejects_malformed_or_oversized_input() {
    assert_eq!(parse_u32(b""), None);
    assert_eq!(parse_u32(b"+"), None);
    assert_eq!(parse_u32(b"abc"), None);
    assert_eq!(parse_u32(b"12x"), None);
    assert_eq!(parse_u32(b" 12"), None);
    assert_eq!(parse_u32(b"-1"), None);
    assert_eq!(parse_u32(b"4294967296"), None);
}

#[test]
fn unparseable_threshold_falls_back_to_default() {
    assert_eq!(parse_threshold(b"abc"), 100);
    assert_eq!(parse_threshold(b""), 100);
    assert_eq!(parse_threshold(b"12.5"), 100);
    assert_eq!(parse_threshold(b"-3"), 100);
}

#[test]
fn out_of_range_threshold_falls_back_to_default() {
    assert_eq!(parse_threshold(b"256"), 100);
    assert_eq!(parse_threshold(b"99999999999"), 100);
}

#[test]
fn valid_threshold_is_used_as_given() {
    assert_eq!(parse_threshold(b"0"), 0);
    assert_eq!(parse_threshold(b"100"), 100);
    assert_eq!(parse_threshold(b"255"), 255);
    assert_eq!(parse_threshold(b"+200"), 200);
}
