//! Error types produced by catalog compilation, parsing, and value validation.

use vstd::prelude::*;
use vstd::string::StringExecFns;

verus! {

/// A value-level validation failure. It carries the message reported by the
/// validator (or by the engine, for a value handed to an option that takes
/// none). Its view is that message, as a sequence of characters.
#[derive(Debug, Clone, PartialEq, Eq)]
pub struct ValidationError {
    message: String,
}

impl View for ValidationError {
    type V = Seq<char>;

    closed spec fn view(&self) -> Seq<char> {
        self.message@
    }
}

impl ValidationError {
    /// Wraps a message into a validation error.
    pub fn new(message: String) -> (r: Self)
        ensures
            r@ == message@,
    {
        ValidationError { message }
    }

    /// The message this error carries.
    pub fn message(&self) -> (r: &String)
        ensures
            r@ == self@,
    {
        &self.message
    }
}

/// Mathematical image of a `ParseError`: the same five categories, each over
/// the character sequence of its payload.
pub enum ParseErrorView {
    ValidationError(Seq<char>),
    UnknownOption(Seq<char>),
    MissingValue(Seq<char>),
    InvalidFlagCombination(Seq<char>),
    DuplicateOption(Seq<char>),
}

/// The closed set of ways a parse can fail. At most one is produced per
/// invocation: the first rule violated in left-to-right scan order.
#[derive(Debug, Clone, PartialEq, Eq)]
pub enum ParseError {
    /// A validator rejected a resolved value, or a value was handed to an
    /// option that does not accept one.
    ValidationError(ValidationError),
    /// A short or long trigger absent from the catalog.
    UnknownOption(String),
    /// A value-taking option reached the end of value resolution with no
    /// token and no default.
    MissingValue(String),
    /// A value-taking short flag stood in a non-final position of a combined
    /// group.
    InvalidFlagCombination(String),
    /// The same option recorded twice in one invocation, or a flag or name
    /// collision inside the catalog itself.
    DuplicateOption(String),
}

impl View for ParseError {
    type V = ParseErrorView;

    open spec fn view(&self) -> ParseErrorView {
        match self {
            ParseError::ValidationError(e) => ParseErrorView::ValidationError(e@),
            ParseError::UnknownOption(s) => ParseErrorView::UnknownOption(s@),
            ParseError::MissingValue(s) => ParseErrorView::MissingValue(s@),
            ParseError::InvalidFlagCombination(s) => ParseErrorView::InvalidFlagCombination(s@),
            ParseError::DuplicateOption(s) => ParseErrorView::DuplicateOption(s@),
        }
    }
}

/// The text `describe` renders for an error: `"<Category>: <detail>"`, in the
/// phrasing callers print to standard error.
pub open spec fn spec_describe(e: ParseErrorView) -> Seq<char> {
    match e {
        ParseErrorView::ValidationError(m) => "Validation error: "@ + m,
        ParseErrorView::UnknownOption(o) => "Unknown option: "@ + o,
        ParseErrorView::MissingValue(o) => "Option '"@ + o + "' requires a value"@,
        ParseErrorView::InvalidFlagCombination(f) => "Invalid flag combination: "@ + f,
        ParseErrorView::DuplicateOption(o) => "Option '"@ + o + "' specified multiple times"@,
    }
}

impl ParseError {
    /// Renders the error as a single diagnostic line.
    pub fn describe(&self) -> (r: String)
        ensures
            r@ == spec_describe(self@),
    {
        match self {
            ParseError::ValidationError(e) => {
                let mut s = String::from_str("Validation error: ");
                s.append(e.message().as_str());
                s
            },
            ParseError::UnknownOption(o) => {
                let mut s = String::from_str("Unknown option: ");
                s.append(o.as_str());
                s
            },
            ParseError::MissingValue(o) => {
                let mut s = String::from_str("Option '");
                s.append(o.as_str());
                s.append("' requires a value");
                s
            },
            ParseError::InvalidFlagCombination(f) => {
                let mut s = String::from_str("Invalid flag combination: ");
                s.append(f.as_str());
                s
            },
            ParseError::DuplicateOption(o) => {
                let mut s = String::from_str("Option '");
                s.append(o.as_str());
                s.append("' specified multiple times");
                s
            },
        }
    }
}

} // verus!
