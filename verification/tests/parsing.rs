use sharutils_core::AcceptAll;
use sharutils_core::OptionDefinition;
use sharutils_core::ParseError;
use sharutils_core::ParsedCommand;
use sharutils_core::PositiveIntegerValidator;
use sharutils_core::parse_command_line;
use sharutils_core::standard_options;

fn args_of(tokens: &[&str]) -> Vec<String> {
    tokens.iter().map(|t| t.to_string()).collect()
}

#[test]
fn test_standard_options() {
    let options: Vec<OptionDefinition<AcceptAll>> = standard_options();
    assert_eq!(options.len(), 2);
    assert_eq!(options[0].name, "help");
    assert_eq!(options[1].name, "version");
}

#[test]
fn test_parse_simple_command() {
    let options: Vec<OptionDefinition<AcceptAll>> = standard_options();
    let args = args_of(&["test-cmd", "--help"]);

    let result = parse_command_line(&options, args).unwrap();
    assert!(result.is_option_set("help"));
    assert!(!result.is_option_set("version"));
    assert_eq!(result.arguments.len(), 0);
}

#[test]
fn test_parse_with_arguments() {
    let options: Vec<OptionDefinition<AcceptAll>> = standard_options();
    let args = args_of(&["test-cmd", "file1.txt", "file2.txt"]);

    let result = parse_command_line(&options, args).unwrap();
    assert_eq!(result.arguments.len(), 2);
    assert_eq!(result.arguments[0], "file1.txt".to_string());
    assert_eq!(result.arguments[1], "file2.txt".to_string());
}

#[test]
fn test_unknown_option_error() {
    let options: Vec<OptionDefinition<AcceptAll>> = standard_options();
    let args = args_of(&["test-cmd", "--unknown"]);

    let result = parse_command_line(&options, args);
    assert!(matches!(result, Err(ParseError::UnknownOption(_))));
}

#[test]
fn test_combined_short_flags() {
    let mut options: Vec<OptionDefinition<AcceptAll>> = standard_options();
    options.push(OptionDefinition {
        flag: 'm',
        name: "mode".to_string(),
        has_value: false,
        default_value: None,
        validator: None,
        help_text: "Test mode".to_string(),
    });

    let args = args_of(&["test-cmd", "-hm"]);

    let result = parse_command_line(&options, args).unwrap();
    assert!(result.is_option_set("help"));
    assert!(result.is_option_set("mode"));
}

#[test]
fn test_combined_short_flags_reversed_catalog() {
    let mut options: Vec<OptionDefinition<AcceptAll>> = Vec::new();
    options.push(OptionDefinition {
        flag: 'm',
        name: "mode".to_string(),
        has_value: false,
        default_value: None,
        validator: None,
        help_text: "Test mode".to_string(),
    });
    options.extend(standard_options());

    let args = args_of(&["test-cmd", "-hm"]);

    let result = parse_command_line(&options, args).unwrap();
    assert!(result.is_option_set("help"));
    assert!(result.is_option_set("mode"));
    assert!(!result.has_option_value("help"));
    assert!(!result.has_option_value("mode"));
}

#[test]
fn test_long_option_with_value() {
    let mut options: Vec<OptionDefinition<AcceptAll>> = standard_options();
    options.push(OptionDefinition {
        flag: 'f',
        name: "file".to_string(),
        has_value: true,
        default_value: None,
        validator: None,
        help_text: "File path".to_string(),
    });

    let args = args_of(&["test-cmd", "--file=test.txt"]);

    let result = parse_command_line(&options, args).unwrap();
    assert!(result.is_option_set("file"));
    assert_eq!(result.option_value("file").unwrap().as_str(), "test.txt");
}

#[test]
fn test_short_flag_with_value() {
    let mut options: Vec<OptionDefinition<AcceptAll>> = standard_options();
    options.push(OptionDefinition {
        flag: 'f',
        name: "file".to_string(),
        has_value: true,
        default_value: None,
        validator: None,
        help_text: "File path".to_string(),
    });

    let args = args_of(&["test-cmd", "-f", "test.txt"]);

    let result = parse_command_line(&options, args).unwrap();
    assert!(result.is_option_set("file"));
    assert_eq!(result.option_value("file").unwrap().as_str(), "test.txt");
}

#[test]
fn test_value_forms_equivalent() {
    let mut options: Vec<OptionDefinition<AcceptAll>> = standard_options();
    options.push(OptionDefinition {
        flag: 'f',
        name: "file".to_string(),
        has_value: true,
        default_value: None,
        validator: None,
        help_text: "File path".to_string(),
    });

    let by_equals =
        parse_command_line(&options, args_of(&["exe", "--file=test.txt"])).unwrap();
    let by_lookahead =
        parse_command_line(&options, args_of(&["exe", "-f", "test.txt"])).unwrap();

    assert_eq!(by_equals.executable_path, by_lookahead.executable_path);
    assert_eq!(by_equals.options, by_lookahead.options);
    assert_eq!(by_equals.arguments, by_lookahead.arguments);
}

#[test]
fn test_missing_required_value() {
    let mut options: Vec<OptionDefinition<AcceptAll>> = standard_options();
    options.push(OptionDefinition {
        flag: 'f',
        name: "file".to_string(),
        has_value: true,
        default_value: None,
        validator: None,
        help_text: "File path".to_string(),
    });

    let args = args_of(&["test-cmd", "-f"]);

    let result = parse_command_line(&options, args);
    assert!(matches!(result, Err(ParseError::MissingValue(_))));
}

#[test]
fn test_default_value_when_no_value_provided() {
    let mut options: Vec<OptionDefinition<AcceptAll>> = standard_options();
    options.push(OptionDefinition {
        flag: 'o',
        name: "output".to_string(),
        has_value: true,
        default_value: Some("default.txt".to_string()),
        validator: None,
        help_text: "Output file".to_string(),
    });

    let args = args_of(&["test-cmd", "-o"]);

    let result = parse_command_line(&options, args).unwrap();
    assert!(result.is_option_set("output"));
    assert_eq!(result.option_value("output").unwrap().as_str(), "default.txt");
}

#[test]
fn test_duplicate_option_error() {
    let options: Vec<OptionDefinition<AcceptAll>> = standard_options();
    let args = args_of(&["test-cmd", "--help", "--help"]);

    let result = parse_command_line(&options, args);
    assert!(matches!(result, Err(ParseError::DuplicateOption(_))));
}

#[test]
fn test_double_dash_separator() {
    let options: Vec<OptionDefinition<AcceptAll>> = standard_options();
    let args = args_of(&["test-cmd", "--help", "--", "--not-an-option", "file.txt"]);

    let result = parse_command_line(&options, args).unwrap();
    assert!(result.is_option_set("help"));
    assert_eq!(result.arguments.len(), 2);
    assert_eq!(result.arguments[0], "--not-an-option".to_string());
    assert_eq!(result.arguments[1], "file.txt".to_string());
}

#[test]
fn test_option_value_or_default() {
    let mut cmd = ParsedCommand {
        executable_path: "test".to_string(),
        options: Vec::new(),
        arguments: Vec::new(),
    };

    cmd.options.push(("test".to_string(), Some("value".to_string())));

    assert_eq!(cmd.option_value_or_default("test", "default"), "value");
    assert_eq!(cmd.option_value_or_default("missing", "default"), "default");
}

#[test]
fn test_parse_executable_only() {
    let options: Vec<OptionDefinition<AcceptAll>> = standard_options();
    let args = args_of(&["exe"]);

    let result = parse_command_line(&options, args).unwrap();
    assert_eq!(result.executable_path, "exe".to_string());
    assert_eq!(result.options.len(), 0);
    assert_eq!(result.arguments.len(), 0);
}

#[test]
fn test_bare_flag_reports_no_value() {
    let options: Vec<OptionDefinition<AcceptAll>> = standard_options();
    let args = args_of(&["exe", "--help"]);

    let result = parse_command_line(&options, args).unwrap();
    assert!(result.is_option_set("help"));
    assert!(!result.has_option_value("help"));
    assert!(result.option_value("help").is_none());
    assert_eq!(result.arguments.len(), 0);
}

#[test]
fn test_long_option_consumes_next_token() {
    let mut options: Vec<OptionDefinition<AcceptAll>> = standard_options();
    options.push(OptionDefinition {
        flag: 'f',
        name: "file".to_string(),
        has_value: true,
        default_value: None,
        validator: None,
        help_text: "File path".to_string(),
    });

    let args = args_of(&["exe", "--file", "test.txt"]);

    let result = parse_command_line(&options, args).unwrap();
    assert_eq!(result.option_value("file").unwrap().as_str(), "test.txt");
    assert_eq!(result.arguments.len(), 0);
}

#[test]
fn test_default_skipped_for_dash_token() {
    let mut options: Vec<OptionDefinition<AcceptAll>> = standard_options();
    options.push(OptionDefinition {
        flag: 'o',
        name: "output".to_string(),
        has_value: true,
        default_value: Some("default.txt".to_string()),
        validator: None,
        help_text: "Output file".to_string(),
    });

    let args = args_of(&["exe", "-o", "-h"]);

    let result = parse_command_line(&options, args).unwrap();
    assert_eq!(result.option_value("output").unwrap().as_str(), "default.txt");
    assert!(result.is_option_set("help"));
    assert_eq!(result.arguments.len(), 0);
}

#[test]
fn test_invalid_flag_combination() {
    let mut options: Vec<OptionDefinition<AcceptAll>> = standard_options();
    options.push(OptionDefinition {
        flag: 'f',
        name: "file".to_string(),
        has_value: true,
        default_value: None,
        validator: None,
        help_text: "File path".to_string(),
    });

    let args = args_of(&["exe", "-fh", "test.txt"]);

    let result = parse_command_line(&options, args);
    assert_eq!(
        result.unwrap_err(),
        ParseError::InvalidFlagCombination(
            "Flag 'f' requires a value but is not the last in combination 'fh'".to_string()
        )
    );
}

#[test]
fn test_value_handed_to_bare_option() {
    let options: Vec<OptionDefinition<AcceptAll>> = standard_options();
    let args = args_of(&["exe", "--help=yes"]);

    let result = parse_command_line(&options, args);
    match result {
        Err(ParseError::ValidationError(e)) => {
            assert_eq!(e.message().as_str(), "Option 'help' does not accept a value");
        }
        other => panic!("expected a validation error, got {:?}", other),
    }
}

#[test]
fn test_empty_argument_sequence() {
    let options: Vec<OptionDefinition<AcceptAll>> = standard_options();
    let result = parse_command_line(&options, Vec::new());
    assert_eq!(
        result.unwrap_err(),
        ParseError::UnknownOption("No executable path provided".to_string())
    );
}

#[test]
fn test_duplicate_flag_in_catalog() {
    let mut options: Vec<OptionDefinition<AcceptAll>> = standard_options();
    options.push(OptionDefinition {
        flag: 'h',
        name: "hint".to_string(),
        has_value: false,
        default_value: None,
        validator: None,
        help_text: "A second use of the flag".to_string(),
    });

    let result = parse_command_line(&options, args_of(&["exe", "file.txt"]));
    assert_eq!(result.unwrap_err(), ParseError::DuplicateOption("flag 'h'".to_string()));
}

#[test]
fn test_duplicate_name_in_catalog() {
    let mut options: Vec<OptionDefinition<AcceptAll>> = standard_options();
    options.push(OptionDefinition {
        flag: 'x',
        name: "help".to_string(),
        has_value: false,
        default_value: None,
        validator: None,
        help_text: "A second use of the name".to_string(),
    });

    let result = parse_command_line(&options, args_of(&["exe"]));
    assert_eq!(result.unwrap_err(), ParseError::DuplicateOption("help".to_string()));
}

#[test]
fn test_catalog_error_independent_of_arguments() {
    let mut options: Vec<OptionDefinition<AcceptAll>> = standard_options();
    options.push(OptionDefinition {
        flag: 'h',
        name: "hint".to_string(),
        has_value: false,
        default_value: None,
        validator: None,
        help_text: "A second use of the flag".to_string(),
    });

    let first = parse_command_line(&options, args_of(&["exe"]));
    let second = parse_command_line(&options, args_of(&["exe", "--hint", "a", "b"]));
    assert_eq!(first.unwrap_err(), second.unwrap_err());
}

#[test]
fn test_bare_dash_is_positional() {
    let options: Vec<OptionDefinition<AcceptAll>> = standard_options();
    let args = args_of(&["exe", "-", "file.txt"]);

    let result = parse_command_line(&options, args).unwrap();
    assert_eq!(result.options.len(), 0);
    assert_eq!(result.arguments, vec!["-".to_string(), "file.txt".to_string()]);
}

#[test]
fn test_validator_rejects_value() {
    let mut options: Vec<OptionDefinition<PositiveIntegerValidator>> = standard_options();
    options.push(OptionDefinition {
        flag: 'c',
        name: "count".to_string(),
        has_value: true,
        default_value: None,
        validator: Some(PositiveIntegerValidator),
        help_text: "Line count".to_string(),
    });

    let accepted = parse_command_line(&options, args_of(&["exe", "--count=5"])).unwrap();
    assert_eq!(accepted.option_value("count").unwrap().as_str(), "5");

    let rejected = parse_command_line(&options, args_of(&["exe", "--count=abc"]));
    match rejected {
        Err(ParseError::ValidationError(e)) => {
            assert_eq!(e.message().as_str(), "Not a valid positive integer");
        }
        other => panic!("expected a validation error, got {:?}", other),
    }

    let zero = parse_command_line(&options, args_of(&["exe", "-c", "0"]));
    match zero {
        Err(ParseError::ValidationError(e)) => {
            assert_eq!(e.message().as_str(), "Value must be greater than zero");
        }
        other => panic!("expected a validation error, got {:?}", other),
    }
}

#[test]
fn test_parse_is_idempotent() {
    let mut options: Vec<OptionDefinition<AcceptAll>> = standard_options();
    options.push(OptionDefinition {
        flag: 'f',
        name: "file".to_string(),
        has_value: true,
        default_value: None,
        validator: None,
        help_text: "File path".to_string(),
    });

    let tokens = ["exe", "-h", "--file=a.txt", "in.txt", "out.txt"];
    let first = parse_command_line(&options, args_of(&tokens)).unwrap();
    let second = parse_command_line(&options, args_of(&tokens)).unwrap();

    assert_eq!(first.executable_path, second.executable_path);
    assert_eq!(first.options, second.options);
    assert_eq!(first.arguments, second.arguments);
}
