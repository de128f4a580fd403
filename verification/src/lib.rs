//! A date and time parser independent of any date and time library.
//!
//! The parser takes a `strptime`-style format string and reads a date and
//! time string into a [`RawDateTime`], which the caller can then convert
//! into whatever final representation is needed.

use vstd::prelude::*;

pub mod error;
pub mod laws;
pub mod models;
mod parser;
pub mod scan;

pub use error::ErrorKind;
pub use error::ParseError;
pub use models::RawDate;
pub use models::RawDateTime;
pub use models::RawTime;

verus! {

/// A result returned from date and time parsing.
pub type ParseResult<T> = Result<T, ParseError>;

/// A rule assigning a full year to a two-digit year remainder: remainders at
/// or above `pivot` land in the century starting at `base_from_pivot`, the
/// rest in the century starting at `base_before_pivot`.
#[derive(Clone, Copy, Debug, PartialEq, Eq, Structural)]
pub struct YearResolution {
    /// The first remainder assigned to the earlier century.
    pub pivot: i16,
    /// The year added to remainders below the pivot.
    pub base_before_pivot: i16,
    /// The year added to remainders at or above the pivot.
    pub base_from_pivot: i16,
}

/// The default year-resolution rule: remainders below 70 land in the 21st
/// century, the rest in the 20th.
pub open spec fn default_year_resolution() -> YearResolution {
    YearResolution { pivot: 70, base_before_pivot: 2000, base_from_pivot: 1900 }
}

impl YearResolution {
    /// The default rule: `[0, 70)` becomes `2000 + remainder`, `[70, 99]`
    /// becomes `1900 + remainder`.
    pub fn modulo_100() -> (r: Self)
        ensures
            r == default_year_resolution(),
    {
        YearResolution { pivot: 70, base_before_pivot: 2000, base_from_pivot: 1900 }
    }
}

/// Options for date and time parsing.
#[derive(Clone, Copy)]
pub struct ParseOptions {
    /// The rule applied when a year remainder was supplied without a
    /// century.
    pub modulo_year_resolution: YearResolution,
}

impl ParseOptions {
    /// The default options.
    pub fn new() -> (r: Self)
        ensures
            r.modulo_year_resolution == default_year_resolution(),
    {
        ParseOptions { modulo_year_resolution: YearResolution::modulo_100() }
    }
}

/// The mathematical content of a [`Parser`]: its format string and its
/// year-resolution rule.
pub ghost struct ParserView {
    pub fmt: Seq<char>,
    pub resolution: YearResolution,
}

/// A date and time parser: a `strptime`-style format string and the options
/// a parse runs under.
///
/// The format string is walked one character at a time. A literal character
/// must appear identically in the input; `%` introduces a directive. The
/// recognized directives are: `%Y` (4-digit year), `%C` (century), `%y`
/// (2-digit year), `%m` (month number), `%b`/`%h` (month abbreviation), `%B`
/// (full month name), `%d`/`%e` (day), `%a`/`%A` (weekday, consumed and
/// discarded), `%H`/`%k` (24-hour), `%I` (12-hour), `%p`/`%P` (meridiem),
/// `%M` (minute), `%S` (second) and `%f` (nanoseconds, with the optional
/// prefix and precision modifiers `.`, `3`, `6`, `9`). The padding modifiers
/// `-`, `0` and a space apply to the next field directive only.
pub struct Parser {
    fmt: &'static str,
    opts: ParseOptions,
}

impl View for Parser {
    type V = ParserView;

    closed spec fn view(&self) -> ParserView {
        ParserView { fmt: self.fmt@, resolution: self.opts.modulo_year_resolution }
    }
}

impl Parser {
    /// Create a new date and time parser for the given format string, with
    /// the default options.
    pub fn new(fmt: &'static str) -> (r: Self)
        ensures
            r@ == (ParserView { fmt: fmt@, resolution: default_year_resolution() }),
    {
        Parser { fmt, opts: ParseOptions::new() }
    }

    /// Set the rule used when a two-digit year appears without a century, as
    /// in `4/21/12`.
    pub fn modulo_year_resolution(self, resolution: YearResolution) -> (r: Self)
        ensures
            r@ == (ParserView { resolution, ..self@ }),
    {
        Parser {
            opts: ParseOptions { modulo_year_resolution: resolution, ..self.opts },
            ..self
        }
    }

    /// Parse the date and time provided.
    ///
    /// The result is exactly what [`scan::spec_parse`] says of the format
    /// string and the input. The returned [`RawDateTime`] stores the date
    /// and the time separately, and either can be absent when only a date or
    /// only a time was parsed. A date that is present is always complete;
    /// time fields the input omitted are zero.
    pub fn parse(&self, date_str: &str) -> (r: ParseResult<RawDateTime>)
        ensures
            match scan::spec_parse(self@.fmt, date_str@, self@.resolution) {
                Ok(dtv) => r is Ok && r->Ok_0@ == dtv,
                Err(e) => r is Err && scan::err_matches(r->Err_0, e, date_str@),
            },
    {
        parser::OnceParser::new(self.fmt, date_str, self.opts).parse()
    }
}

} // verus!
