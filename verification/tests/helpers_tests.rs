use clad::helpers::{
    filter_env_pairs, is_safe_env_key, mode_is_executable, status_to_exit_code, validate_args,
    MAX_ARG_LENGTH,
};

#[test]
fn test_validate_args_empty() {
    let args: Vec<String> = vec![];
    let result = validate_args(&args);
    assert!(result.is_ok(), "Empty args should be valid");
}

#[test]
fn test_validate_args_normal() {
    let args = vec!["session".to_string(), "test query".to_string()];
    let result = validate_args(&args);
    assert!(result.is_ok(), "Normal args should be valid");
}

#[test]
fn test_validate_args_too_long_individual() {
    let long_arg = "a".repeat(MAX_ARG_LENGTH + 1);
    let args = vec![long_arg];

    let result = validate_args(&args);
    assert!(
        result.is_err(),
        "Should reject too-long individual argument"
    );
    assert!(result.unwrap_err().message().contains("too long"));
}

#[test]
fn test_validate_args_too_long_total() {
    let arg = "a".repeat(1_000_000);
    let args = vec![arg.clone(); 11];

    let result = validate_args(&args);
    assert!(
        result.is_err(),
        "Should reject total args length exceeding limit"
    );
    assert!(result
        .unwrap_err()
        .message()
        .contains("Total arguments length"));
}

#[test]
fn test_validate_args_null_byte() {
    let args = vec!["test\0query".to_string()];

    let result = validate_args(&args);
    assert!(result.is_err(), "Should reject argument with null byte");
    assert!(result.unwrap_err().message().contains("null byte"));
}

#[test]
fn test_validate_args_at_boundary() {
    let arg = "a".repeat(MAX_ARG_LENGTH);
    let args = vec![arg];

    let result = validate_args(&args);
    assert!(result.is_ok(), "Should accept argument at exact max length");
}

#[test]
fn test_validate_args_special_characters() {
    let args = vec![
        "query with spaces".to_string(),
        "special!@#$%^&*()".to_string(),
        "unicode: \u{4f60}\u{597d}\u{4e16}\u{754c} \u{1f980}".to_string(),
    ];

    let result = validate_args(&args);
    assert!(
        result.is_ok(),
        "Should accept special characters (except null)"
    );
}

#[test]
fn test_validate_args_error_messages_carry_numbers() {
    let args = vec!["fine".to_string(), "bad\0arg".to_string()];
    let message = validate_args(&args).unwrap_err().message();
    assert_eq!(message, "Argument 1 contains null byte");

    let args = vec!["a".repeat(MAX_ARG_LENGTH + 1)];
    let message = validate_args(&args).unwrap_err().message();
    assert_eq!(
        message,
        "Argument 0 is too long: 1000001 bytes (max: 1000000)"
    );
}

#[test]
fn test_status_to_exit_code_normal() {
    let code = status_to_exit_code(Some(0), None);
    assert_eq!(code, 0);

    let code = status_to_exit_code(Some(1), None);
    assert_eq!(code, 1);
}

#[test]
fn test_status_to_exit_code_signal() {
    let code = status_to_exit_code(None, Some(9));
    assert_eq!(code, 128 + 9);

    let code = status_to_exit_code(None, Some(2));
    assert_eq!(code, 128 + 2);
}

#[test]
fn test_status_to_exit_code_unknown() {
    assert_eq!(status_to_exit_code(None, None), 1);
}

#[test]
fn test_safe_env_keys() {
    assert!(is_safe_env_key("PATH"));
    assert!(is_safe_env_key("HOME"));
    assert!(is_safe_env_key("XDG_CONFIG_HOME"));
    assert!(!is_safe_env_key("CLI_MODEL"));
    assert!(!is_safe_env_key("RANDOM_VAR"));
    assert!(!is_safe_env_key("MALICIOUS"));
    assert!(!is_safe_env_key(""));
}

#[test]
fn test_filter_env_pairs_keeps_safe_and_drops_unsafe() {
    let pairs = vec![
        ("PATH".to_string(), "/usr/bin".to_string()),
        ("RANDOM_VAR".to_string(), "should not pass".to_string()),
        ("HOME".to_string(), "/home/test".to_string()),
        ("XDG_DATA_HOME".to_string(), "/home/test/.data".to_string()),
        ("MALICIOUS".to_string(), "data".to_string()),
    ];
    let filtered = filter_env_pairs(&pairs);
    assert_eq!(
        filtered,
        vec![
            ("PATH".to_string(), "/usr/bin".to_string()),
            ("HOME".to_string(), "/home/test".to_string()),
            ("XDG_DATA_HOME".to_string(), "/home/test/.data".to_string()),
        ]
    );
}

#[test]
fn test_mode_is_executable_bits() {
    assert!(mode_is_executable(0o755));
    assert!(mode_is_executable(0o100));
    assert!(mode_is_executable(0o010));
    assert!(mode_is_executable(0o001));
    assert!(!mode_is_executable(0o644));
    assert!(!mode_is_executable(0o000));
}
