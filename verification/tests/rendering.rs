use sharutils_core::AcceptAll;
use sharutils_core::OptionDefinition;
use sharutils_core::ParseError;
use sharutils_core::ValidationError;
use sharutils_core::generate_help;
use sharutils_core::standard_options;

#[test]
fn test_generate_help() {
    let options: Vec<OptionDefinition<AcceptAll>> = standard_options();
    let help = generate_help("testcmd", "Test command", "[OPTIONS] files...", &options);

    assert!(help.contains("testcmd"));
    assert!(help.contains("Test command"));
    assert!(help.contains("--help"));
    assert!(help.contains("--version"));
}

#[test]
fn test_generate_help_exact_layout() {
    let options: Vec<OptionDefinition<AcceptAll>> = standard_options();
    let help = generate_help("testcmd", "Test command", "[OPTIONS] files...", &options);

    let expected = "Usage: testcmd [OPTIONS] files...\n\nTest command\n\nOptions:\n  -h, --help           Display this help message and exit\n  -V, --version        Display version information and exit\n";
    assert_eq!(help, expected);
}

#[test]
fn test_generate_help_long_trigger_column() {
    let mut options: Vec<OptionDefinition<AcceptAll>> = Vec::new();
    options.push(OptionDefinition {
        flag: 'x',
        name: "extraordinarily-long-name".to_string(),
        has_value: false,
        default_value: None,
        validator: None,
        help_text: "Wide".to_string(),
    });
    let help = generate_help("cmd", "Desc", "[OPTIONS]", &options);

    let expected = "Usage: cmd [OPTIONS]\n\nDesc\n\nOptions:\n  -x, --extraordinarily-long-name Wide\n";
    assert_eq!(help, expected);
}

#[test]
fn test_describe_each_error() {
    let validation = ParseError::ValidationError(ValidationError::new("bad value".to_string()));
    assert_eq!(validation.describe(), "Validation error: bad value");

    let unknown = ParseError::UnknownOption("--nope".to_string());
    assert_eq!(unknown.describe(), "Unknown option: --nope");

    let missing = ParseError::MissingValue("file".to_string());
    assert_eq!(missing.describe(), "Option 'file' requires a value");

    let combination = ParseError::InvalidFlagCombination("details".to_string());
    assert_eq!(combination.describe(), "Invalid flag combination: details");

    let duplicate = ParseError::DuplicateOption("help".to_string());
    assert_eq!(duplicate.describe(), "Option 'help' specified multiple times");
}

#[test]
fn test_validation_error_message_round_trip() {
    let e = ValidationError::new("File does not exist: /tmp/x".to_string());
    assert_eq!(e.message().as_str(), "File does not exist: /tmp/x");
}
