//! The ways in which the command language rejects its input.
use vstd::prelude::*;

verus! {

/// A rejected input, with what its message is made of. The program around the library
/// writes the message; each variant names the text it gets.
#[derive(Debug, Clone, PartialEq, Eq)]
pub enum InputError {
    /// A message of fixed text.
    InvalidInput(String),
    /// "`name` is not a number: `value`".
    NotANumber { name: String, value: String },
    /// "`name` is not an integer: `value`".
    NotAnInteger { name: String, value: String },
    /// "`name` must be 0 or 1: `value`".
    NotAFlag { name: String, value: String },
    /// "invalid color: `value`".
    InvalidColor(String),
    /// "unsupported boolean operation: `value`".
    UnsupportedBooleanOp(String),
    /// "unsupported stroke cap: `value`".
    UnsupportedCap(i32),
    /// "unsupported stroke join: `value`".
    UnsupportedJoin(i32),
    /// "text align is out of range: `value`".
    TextAlignOutOfRange(String),
    /// "unsupported text escape: \\`c`".
    UnsupportedEscape(char),
    /// "text path expects 10 fields, got `count`".
    TextFieldCount(usize),
    /// "`name` expects `min`..`max` arguments, got `got`".
    ArgumentCount { name: String, min: usize, max: usize, got: usize },
    /// "invalid transform: `rest`".
    InvalidTransform(String),
    /// "transform is missing ')': `rest`".
    MissingParen(String),
    /// "unsupported transform function: `name`".
    UnsupportedTransform(String),
}

/// `InputError` with its texts as character sequences.
pub enum ErrorView {
    InvalidInput(Seq<char>),
    NotANumber { name: Seq<char>, value: Seq<char> },
    NotAnInteger { name: Seq<char>, value: Seq<char> },
    NotAFlag { name: Seq<char>, value: Seq<char> },
    InvalidColor(Seq<char>),
    UnsupportedBooleanOp(Seq<char>),
    UnsupportedCap(i32),
    UnsupportedJoin(i32),
    TextAlignOutOfRange(Seq<char>),
    UnsupportedEscape(char),
    TextFieldCount(usize),
    ArgumentCount { name: Seq<char>, min: usize, max: usize, got: usize },
    InvalidTransform(Seq<char>),
    MissingParen(Seq<char>),
    UnsupportedTransform(Seq<char>),
}

impl View for InputError {
    type V = ErrorView;

    open spec fn view(&self) -> ErrorView {
        match self {
            InputError::InvalidInput(m) => ErrorView::InvalidInput(m@),
            InputError::NotANumber { name, value } => ErrorView::NotANumber {
                name: name@,
                value: value@,
            },
            InputError::NotAnInteger { name, value } => ErrorView::NotAnInteger {
                name: name@,
                value: value@,
            },
            InputError::NotAFlag { name, value } => ErrorView::NotAFlag {
                name: name@,
                value: value@,
            },
            InputError::InvalidColor(v) => ErrorView::InvalidColor(v@),
            InputError::UnsupportedBooleanOp(v) => ErrorView::UnsupportedBooleanOp(v@),
            InputError::UnsupportedCap(v) => ErrorView::UnsupportedCap(*v),
            InputError::UnsupportedJoin(v) => ErrorView::UnsupportedJoin(*v),
            InputError::TextAlignOutOfRange(v) => ErrorView::TextAlignOutOfRange(v@),
            InputError::UnsupportedEscape(c) => ErrorView::UnsupportedEscape(*c),
            InputError::TextFieldCount(n) => ErrorView::TextFieldCount(*n),
            InputError::ArgumentCount { name, min, max, got } => ErrorView::ArgumentCount {
                name: name@,
                min: *min,
                max: *max,
                got: *got,
            },
            InputError::InvalidTransform(r) => ErrorView::InvalidTransform(r@),
            InputError::MissingParen(r) => ErrorView::MissingParen(r@),
            InputError::UnsupportedTransform(n) => ErrorView::UnsupportedTransform(n@),
        }
    }
}

/// A `Result` with both sides taken by their views.
pub open spec fn result_view<T: View, E: View>(r: Result<T, E>) -> Result<T::V, E::V> {
    match r {
        Ok(t) => Ok(t@),
        Err(e) => Err(e@),
    }
}

/// Builds the input error that carries `message` as it is.
pub fn invalid_input(message: &str) -> (e: InputError)
    ensures
        e@ == ErrorView::InvalidInput(message@),
{
    InputError::InvalidInput(message.to_owned())
}

} // verus!
