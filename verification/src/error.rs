use vstd::prelude::*;

verus! {

/// A machine-readable classification of a parse failure.
///
/// The set of kinds is deliberately open-ended: callers should not assume
/// these are the only failures a parse can report.
#[derive(Clone, Copy, Debug, PartialEq, Eq, Structural)]
#[non_exhaustive]
pub enum ErrorKind {
    /// Mutually exclusive or insufficient partial fields were supplied, such
    /// as a century without a year remainder, or a 12-hour value without a
    /// meridiem.
    Ambiguous,
    /// Some but not all of year, month and day were supplied.
    IncompleteDate,
    /// Input remained after the format string was fully consumed.
    InputTooLong,
    /// The input ended before the format string was fully consumed.
    InputTooShort,
    /// The format string itself contains an unrecognized or misplaced
    /// directive or modifier.
    InvalidFormat,
    /// The date was requested from a result that holds no date.
    MissingDate,
    /// The time was requested from a result that holds no time.
    MissingTime,
    /// The input does not match what the format string required at the
    /// current position.
    Unexpected,
}

/// The mathematical content of a [`ParseError`]: the original input as a
/// sequence of characters, the position of the failure if one applies, and
/// the kind of failure.
pub ghost struct ErrorView {
    pub src: Seq<char>,
    pub index: Option<int>,
    pub kind: ErrorKind,
}

/// An error produced while parsing a date and time string.
#[derive(Debug)]
pub struct ParseError {
    /// An owned copy of the input string.
    pub src: String,
    /// The character offset in the input string where the error occurred,
    /// when the failure is tied to a position in the input.
    pub index: Option<usize>,
    /// A machine-readable explanation of the error.
    pub kind: ErrorKind,
}

impl View for ParseError {
    type V = ErrorView;

    closed spec fn view(&self) -> ErrorView {
        ErrorView {
            src: self.src@,
            index: match self.index {
                Some(i) => Some(i as int),
                None => None,
            },
            kind: self.kind,
        }
    }
}

impl ParseError {
    /// Build an error without a position.
    pub(crate) fn new(src: &str, kind: ErrorKind) -> (r: Self)
        ensures
            r@ == (ErrorView { src: src@, index: None, kind }),
    {
        ParseError { src: src.to_owned(), index: None, kind }
    }

    /// Attach the character offset at which the error occurred.
    pub(crate) fn at_index(self, ix: usize) -> (r: Self)
        ensures
            r@ == (ErrorView { index: Some(ix as int), ..self@ }),
    {
        ParseError { index: Some(ix), ..self }
    }
}

} // verus!
