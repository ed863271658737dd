use sharutils_core::Validator;
use sharutils_core::PositiveIntegerValidator;
use sharutils_core::validate_positive_integer;

#[test]
fn test_validate_positive_integer() {
    assert!(validate_positive_integer(&"42".to_string()).is_ok());
    assert!(validate_positive_integer(&"1".to_string()).is_ok());
    assert!(validate_positive_integer(&"0".to_string()).is_err());
    assert!(validate_positive_integer(&"-1".to_string()).is_err());
    assert!(validate_positive_integer(&"abc".to_string()).is_err());
}

#[test]
fn test_validate_positive_integer_edges() {
    assert!(validate_positive_integer(&"+42".to_string()).is_ok());
    assert!(validate_positive_integer(&"042".to_string()).is_ok());
    assert!(validate_positive_integer(&"4294967295".to_string()).is_ok());
    assert!(validate_positive_integer(&"4294967296".to_string()).is_err());
    assert!(validate_positive_integer(&"".to_string()).is_err());
    assert!(validate_positive_integer(&"+".to_string()).is_err());
    assert!(validate_positive_integer(&"4 2".to_string()).is_err());
}

#[test]
fn test_validate_positive_integer_messages() {
    let not_a_number = validate_positive_integer(&"abc".to_string()).unwrap_err();
    assert_eq!(not_a_number.message().as_str(), "Not a valid positive integer");

    let zero = validate_positive_integer(&"0".to_string()).unwrap_err();
    assert_eq!(zero.message().as_str(), "Value must be greater than zero");
}

#[test]
fn test_positive_integer_validator_agrees() {
    let v = PositiveIntegerValidator;
    assert!(v.validate(&"7".to_string()).is_ok());
    assert!(v.validate(&"x".to_string()).is_err());
}
