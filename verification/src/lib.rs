//! A command-line option parsing engine shared by a family of small
//! utilities. A caller describes the options a tool recognizes in a catalog
//! of [`OptionDefinition`] values; the engine interprets POSIX/GNU-style
//! argument syntax (combined short flags, `--long`, `--long=value`, the `--`
//! terminator, positional arguments) against that catalog and returns either
//! a validated [`ParsedCommand`] or the first [`ParseError`] encountered in
//! left-to-right scan order. A help renderer produces usage text from the
//! same catalog.
//!
//! Every function is specified against a mathematical model: tokens are
//! sequences of characters, the set of recorded options is a map from option
//! name to optional value, and the whole parse is the pure function
//! [`spec_parse`] over those models.

mod catalog;
mod command;
mod errors;
mod help;
mod parser;
mod validators;

pub use catalog::AcceptAll;
pub use catalog::OptionDefinition;
pub use catalog::Validator;
pub use catalog::catalog_error;
pub use catalog::lemma_distinct_catalog_compiles;
pub use catalog::lemma_duplicate_catalog_is_rejected;
pub use catalog::lemma_no_error_distinct_full;
pub use catalog::spec_catalog_error;
pub use catalog::spec_flag_duplicate_detail;
pub use catalog::standard_options;
pub use command::ParsedCommand;
pub use command::ParsedCommandView;
pub use command::lemma_options_map_absent;
pub use command::lemma_options_map_first_match;
pub use command::lemma_options_map_push;
pub use command::spec_entry_value;
pub use command::spec_options_map;
pub use errors::ParseError;
pub use errors::ParseErrorView;
pub use errors::ValidationError;
pub use errors::spec_describe;
pub use help::generate_help;
pub use help::spec_help;
pub use help::spec_help_column;
pub use help::spec_option_row;
pub use help::spec_option_rows;
pub use help::spec_padded_triggers;
pub use help::spec_spaces;
pub use help::spec_triggers;
pub use parser::lemma_catalog_error_decides_parse;
pub use parser::lemma_combined_bare_flags;
pub use parser::lemma_parse_deterministic;
pub use parser::lemma_parse_executable_only;
pub use parser::lemma_value_forms_equivalent;
pub use parser::parse_command_line;
pub use parser::spec_eq_index;
pub use parser::spec_find_flag;
pub use parser::spec_find_name;
pub use parser::spec_flag_combination_detail;
pub use parser::spec_flags_step;
pub use parser::spec_is_long_option;
pub use parser::spec_is_short_group;
pub use parser::spec_is_terminator;
pub use parser::spec_long_step;
pub use parser::spec_missing_executable_detail;
pub use parser::spec_no_value_detail;
pub use parser::spec_parse;
pub use parser::spec_record_value;
pub use parser::spec_result_view;
pub use parser::spec_scan;
pub use parser::spec_starts_with_dash;
pub use parser::spec_unknown_long_detail;
pub use parser::spec_unknown_short_detail;
pub use validators::PositiveIntegerValidator;
pub use validators::spec_decimal_value;
pub use validators::spec_digits_of;
pub use validators::spec_is_digit;
pub use validators::spec_is_u32_literal;
pub use validators::spec_positive_integer_message;
pub use validators::validate_positive_integer;
