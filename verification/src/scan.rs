//! The mathematical model of a parse.
//!
//! A parse is a lockstep walk of the format string and the input string. The
//! functions here describe that walk, one format character at a time, over
//! plain sequences of characters. The executable engine in `parser` is proved
//! to return exactly what [`spec_parse`] says, and the laws in `laws` are
//! proved about these functions.

use vstd::prelude::*;

use crate::error::ErrorKind;

verus! {

// ---------------------------------------------------------------------------
// Views of the result types.
// ---------------------------------------------------------------------------

/// The mathematical content of a raw date: each field is present or absent.
pub ghost struct DateView {
    pub year: Option<int>,
    pub month: Option<int>,
    pub day: Option<int>,
}

/// The mathematical content of a raw time. Fields that were never supplied
/// are zero; the offset is absent unless one was supplied.
pub ghost struct TimeView {
    pub hour: int,
    pub minute: int,
    pub second: int,
    pub nanosecond: int,
    pub utc_offset: Option<int>,
}

/// The mathematical content of a parsed date and time.
pub ghost struct DateTimeView {
    pub src: Seq<char>,
    pub date: Option<DateView>,
    pub time: Option<TimeView>,
}

/// The partial fields gathered during a scan that can only be resolved once
/// the whole format string has been consumed.
pub ghost struct PartialsView {
    pub century: Option<int>,
    pub year_modulo: Option<int>,
    pub hour_12: Option<int>,
    pub pm: Option<int>,
}

/// The state of a scan in progress: how many input characters have been
/// consumed, what has been written to the result so far, the partial fields,
/// and the pending padding modifier.
pub ghost struct ScanState {
    pub pos: int,
    pub date: Option<DateView>,
    pub time: Option<TimeView>,
    pub partials: PartialsView,
    pub pad: Option<char>,
}

/// A failure of the scan: its kind, and the input position it is tied to,
/// if any.
pub ghost struct ScanError {
    pub kind: ErrorKind,
    pub index: Option<int>,
}

/// The state a scan starts from.
pub open spec fn scan_init() -> ScanState {
    ScanState {
        pos: 0,
        date: None,
        time: None,
        partials: PartialsView { century: None, year_modulo: None, hour_12: None, pm: None },
        pad: None,
    }
}

/// How an executable [`crate::ParseError`] relates to a [`ScanError`] of the
/// model: same kind, same position, and it carries the whole input.
pub open spec fn err_matches(e: crate::ParseError, se: ScanError, src: Seq<char>) -> bool {
    &&& e@.kind == se.kind
    &&& e@.index == se.index
    &&& e@.src == src
}

// ---------------------------------------------------------------------------
// Field updates.
// ---------------------------------------------------------------------------

/// Write a year into a date under construction, creating the date if none
/// exists yet.
pub open spec fn spec_set_year(d: Option<DateView>, v: int) -> Option<DateView> {
    match d {
        None => Some(DateView { year: Some(v), month: None, day: None }),
        Some(dd) => Some(DateView { year: Some(v), ..dd }),
    }
}

/// Write a month into a date under construction.
pub open spec fn spec_set_month(d: Option<DateView>, v: int) -> Option<DateView> {
    match d {
        None => Some(DateView { year: None, month: Some(v), day: None }),
        Some(dd) => Some(DateView { month: Some(v), ..dd }),
    }
}

/// Write a day into a date under construction.
pub open spec fn spec_set_day(d: Option<DateView>, v: int) -> Option<DateView> {
    match d {
        None => Some(DateView { year: None, month: None, day: Some(v) }),
        Some(dd) => Some(DateView { day: Some(v), ..dd }),
    }
}

/// A time whose fields were never supplied.
pub open spec fn spec_time_zero() -> TimeView {
    TimeView { hour: 0, minute: 0, second: 0, nanosecond: 0, utc_offset: None }
}

/// Write an hour into a time under construction, creating a zeroed time if
/// none exists yet.
pub open spec fn spec_set_hour(t: Option<TimeView>, v: int) -> Option<TimeView> {
    match t {
        None => Some(TimeView { hour: v, ..spec_time_zero() }),
        Some(tt) => Some(TimeView { hour: v, ..tt }),
    }
}

/// Write a minute into a time under construction.
pub open spec fn spec_set_minute(t: Option<TimeView>, v: int) -> Option<TimeView> {
    match t {
        None => Some(TimeView { minute: v, ..spec_time_zero() }),
        Some(tt) => Some(TimeView { minute: v, ..tt }),
    }
}

/// Write a second into a time under construction.
pub open spec fn spec_set_second(t: Option<TimeView>, v: int) -> Option<TimeView> {
    match t {
        None => Some(TimeView { second: v, ..spec_time_zero() }),
        Some(tt) => Some(TimeView { second: v, ..tt }),
    }
}

/// Write a nanosecond count into a time under construction.
pub open spec fn spec_set_nanosecond(t: Option<TimeView>, v: int) -> Option<TimeView> {
    match t {
        None => Some(TimeView { nanosecond: v, ..spec_time_zero() }),
        Some(tt) => Some(TimeView { nanosecond: v, ..tt }),
    }
}

/// The seconds east of UTC that a signed `HHMM` offset denotes.
pub open spec fn spec_hhmm_to_seconds(hhmm: int) -> int {
    let magnitude = if hhmm < 0 {
        -hhmm
    } else {
        hhmm
    };
    let seconds = (magnitude / 100) * 3600 + (magnitude % 100) * 60;
    if hhmm < 0 {
        -seconds
    } else {
        seconds
    }
}

/// Write a UTC offset, in seconds, into a time under construction.
pub open spec fn spec_set_utc_offset(t: Option<TimeView>, v: int) -> Option<TimeView> {
    match t {
        None => Some(TimeView { utc_offset: Some(v), ..spec_time_zero() }),
        Some(tt) => Some(TimeView { utc_offset: Some(v), ..tt }),
    }
}

// ---------------------------------------------------------------------------
// Characters and digit strings.
// ---------------------------------------------------------------------------

/// True when `c` is an ASCII decimal digit.
pub open spec fn spec_is_digit(c: char) -> bool {
    '0' <= c && c <= '9'
}

/// The numeric value of an ASCII digit character.
pub open spec fn spec_digit_val(c: char) -> int {
    c as int - '0' as int
}

/// True when all characters of `s` are ASCII decimal digits.
pub open spec fn all_digits(s: Seq<char>) -> bool {
    forall|i: int| 0 <= i < s.len() ==> spec_is_digit(#[trigger] s[i])
}

/// The value of a string of ASCII decimal digits, most significant first.
pub open spec fn digits_val(s: Seq<char>) -> int
    decreases s.len(),
{
    if s.len() == 0 {
        0
    } else {
        digits_val(s.drop_last()) * 10 + spec_digit_val(s.last())
    }
}

/// The length of the run of ASCII digits in `s` starting at `pos`.
pub open spec fn digit_run(s: Seq<char>, pos: int) -> int
    decreases s.len() - pos,
{
    if pos < 0 || pos >= s.len() || !spec_is_digit(s[pos]) {
        0
    } else {
        1 + digit_run(s, pos + 1)
    }
}

/// The number of leading space characters of `s`.
pub open spec fn space_run(s: Seq<char>) -> int
    decreases s.len(),
{
    if s.len() == 0 || s[0] != ' ' {
        0
    } else {
        1 + space_run(s.skip(1))
    }
}

/// `s` with its leading spaces removed.
pub open spec fn drop_spaces(s: Seq<char>) -> Seq<char> {
    s.skip(space_run(s))
}

/// True when the input character `c` matches the pattern character `p`,
/// where `p` is a lowercase ASCII letter and the match ignores ASCII case.
pub open spec fn spec_eq_ci(c: char, p: char) -> bool {
    c == p || c as int == p as int - 32
}

/// The length of the longest prefix of `pat` that matches the input at
/// `pos`, ignoring ASCII case.
pub open spec fn ci_run(s: Seq<char>, pos: int, pat: Seq<char>) -> int
    decreases pat.len(),
{
    if pat.len() == 0 || pos < 0 || pos >= s.len() || !spec_eq_ci(s[pos], pat[0]) {
        0
    } else {
        1 + ci_run(s, pos + 1, pat.skip(1))
    }
}

// ---------------------------------------------------------------------------
// Integer fields.
// ---------------------------------------------------------------------------

/// What `str::parse` on an integer type accepts: an optional sign (`-` only
/// for signed types) followed by at least one ASCII digit, with the value
/// between `min` and `max`.
pub open spec fn spec_int_of(s: Seq<char>, signed: bool, min: int, max: int) -> Option<int> {
    let neg = s.len() > 0 && signed && s[0] == '-';
    let body = if s.len() > 0 && (s[0] == '+' || (signed && s[0] == '-')) {
        s.skip(1)
    } else {
        s
    };
    if body.len() == 0 || !all_digits(body) {
        None
    } else {
        let v = if neg {
            -digits_val(body)
        } else {
            digits_val(body)
        };
        if min <= v && v <= max {
            Some(v)
        } else {
            None
        }
    }
}

/// `min(pos + n, s.len())`: where a greedy take of `n` characters ends.
pub open spec fn take_end(s: Seq<char>, pos: int, n: int) -> int {
    if pos + n <= s.len() {
        pos + n
    } else {
        s.len() as int
    }
}

/// An integer field read at `pos`: the padding mode decides how many
/// characters are consumed and how they are interpreted, and a text that
/// does not parse as an integer in `[min, max]` is `Unexpected`, reported at
/// the position where the field began.
pub open spec fn spec_int_field(
    s: Seq<char>,
    pos: int,
    n: int,
    pad: Option<char>,
    signed: bool,
    min: int,
    max: int,
) -> Result<(int, int), ScanError> {
    let end = if pad == Some('-') {
        pos + digit_run(s, pos)
    } else {
        take_end(s, pos, n)
    };
    let taken = s.subrange(pos, end);
    let body = if pad == Some(' ') {
        drop_spaces(taken)
    } else {
        taken
    };
    match spec_int_of(body, signed, min, max) {
        Some(v) => Ok((v, end)),
        None => Err(ScanError { kind: ErrorKind::Unexpected, index: Some(pos) }),
    }
}

// ---------------------------------------------------------------------------
// Name fields: months, weekdays, meridiems.
// ---------------------------------------------------------------------------

/// True when `s` is exactly the three characters `a b c`, ignoring ASCII
/// case; `a`, `b` and `c` are lowercase letters.
pub open spec fn matches3(s: Seq<char>, a: char, b: char, c: char) -> bool {
    s.len() == 3 && spec_eq_ci(s[0], a) && spec_eq_ci(s[1], b) && spec_eq_ci(s[2], c)
}

/// The month named by a three-character English abbreviation, ignoring ASCII
/// case.
pub open spec fn spec_month_abbr(s: Seq<char>) -> Option<int> {
    if matches3(s, 'j', 'a', 'n') {
        Some(1)
    } else if matches3(s, 'f', 'e', 'b') {
        Some(2)
    } else if matches3(s, 'm', 'a', 'r') {
        Some(3)
    } else if matches3(s, 'a', 'p', 'r') {
        Some(4)
    } else if matches3(s, 'm', 'a', 'y') {
        Some(5)
    } else if matches3(s, 'j', 'u', 'n') {
        Some(6)
    } else if matches3(s, 'j', 'u', 'l') {
        Some(7)
    } else if matches3(s, 'a', 'u', 'g') {
        Some(8)
    } else if matches3(s, 's', 'e', 'p') {
        Some(9)
    } else if matches3(s, 'o', 'c', 't') {
        Some(10)
    } else if matches3(s, 'n', 'o', 'v') {
        Some(11)
    } else if matches3(s, 'd', 'e', 'c') {
        Some(12)
    } else {
        None
    }
}

/// What remains of a month's full English name after its three-letter
/// abbreviation.
pub open spec fn spec_month_suffix(m: int) -> Seq<char> {
    if m == 1 {
        seq!['u', 'a', 'r', 'y']
    } else if m == 2 {
        seq!['r', 'u', 'a', 'r', 'y']
    } else if m == 3 {
        seq!['c', 'h']
    } else if m == 4 {
        seq!['i', 'l']
    } else if m == 6 {
        seq!['e']
    } else if m == 7 {
        seq!['y']
    } else if m == 8 {
        seq!['u', 's', 't']
    } else if m == 9 {
        seq!['t', 'e', 'm', 'b', 'e', 'r']
    } else if m == 10 {
        seq!['o', 'b', 'e', 'r']
    } else if m == 11 || m == 12 {
        seq!['e', 'm', 'b', 'e', 'r']
    } else {
        seq![]
    }
}

/// The weekday named by a three-character English abbreviation, ignoring
/// ASCII case; Sunday is 0.
pub open spec fn spec_weekday_abbr(s: Seq<char>) -> Option<int> {
    if matches3(s, 's', 'u', 'n') {
        Some(0)
    } else if matches3(s, 'm', 'o', 'n') {
        Some(1)
    } else if matches3(s, 't', 'u', 'e') {
        Some(2)
    } else if matches3(s, 'w', 'e', 'd') {
        Some(3)
    } else if matches3(s, 't', 'h', 'u') {
        Some(4)
    } else if matches3(s, 'f', 'r', 'i') {
        Some(5)
    } else if matches3(s, 's', 'a', 't') {
        Some(6)
    } else {
        None
    }
}

/// What remains of a weekday's full English name after its three-letter
/// abbreviation.
pub open spec fn spec_weekday_suffix(w: int) -> Seq<char> {
    if w == 0 || w == 1 || w == 5 {
        seq!['d', 'a', 'y']
    } else if w == 2 {
        seq!['s', 'd', 'a', 'y']
    } else if w == 3 {
        seq!['n', 'e', 's', 'd', 'a', 'y']
    } else if w == 4 {
        seq!['r', 's', 'd', 'a', 'y']
    } else if w == 6 {
        seq!['u', 'r', 'd', 'a', 'y']
    } else {
        seq![]
    }
}

/// A month name read at `pos`: three characters are consumed and matched as
/// an abbreviation; a mismatch is `Unexpected`, reported after the
/// characters were consumed. When `full` is set, the rest of the month's
/// full name is then trimmed as far as it matches, ignoring ASCII case.
pub open spec fn spec_month_field(s: Seq<char>, pos: int, full: bool) -> Result<
    (int, int),
    ScanError,
> {
    let end = take_end(s, pos, 3);
    match spec_month_abbr(s.subrange(pos, end)) {
        None => Err(ScanError { kind: ErrorKind::Unexpected, index: Some(end) }),
        Some(m) => if full {
            Ok((m, end + ci_run(s, end, spec_month_suffix(m))))
        } else {
            Ok((m, end))
        },
    }
}

/// A weekday name read at `pos`, exactly as [`spec_month_field`] reads a
/// month name.
pub open spec fn spec_weekday_field(s: Seq<char>, pos: int, full: bool) -> Result<
    (int, int),
    ScanError,
> {
    let end = take_end(s, pos, 3);
    match spec_weekday_abbr(s.subrange(pos, end)) {
        None => Err(ScanError { kind: ErrorKind::Unexpected, index: Some(end) }),
        Some(w) => if full {
            Ok((w, end + ci_run(s, end, spec_weekday_suffix(w))))
        } else {
            Ok((w, end))
        },
    }
}

/// A meridiem read at `pos`: `a` or `p` followed by `m`, in exactly the case
/// the directive demands. The value is the additive hour offset: 0 for AM,
/// 12 for PM.
pub open spec fn spec_ampm_field(s: Seq<char>, pos: int, upper: bool) -> Result<
    (int, int),
    ScanError,
> {
    let ac = if upper { 'A' } else { 'a' };
    let pc = if upper { 'P' } else { 'p' };
    let mc = if upper { 'M' } else { 'm' };
    if pos >= s.len() || (s[pos] != ac && s[pos] != pc) {
        Err(ScanError { kind: ErrorKind::Unexpected, index: Some(pos) })
    } else {
        let v: int = if s[pos] == ac {
            0
        } else {
            12
        };
        if pos + 1 >= s.len() {
            Err(ScanError { kind: ErrorKind::InputTooShort, index: Some(pos + 1) })
        } else if s[pos + 1] == mc {
            Ok((v, pos + 2))
        } else {
            Err(ScanError { kind: ErrorKind::Unexpected, index: Some(pos + 1) })
        }
    }
}

/// A single literal character expected at `pos`: exhausted input is
/// `InputTooShort`, a differing character is `Unexpected`.
pub open spec fn spec_expect(s: Seq<char>, pos: int, c: char) -> Result<int, ScanError> {
    if pos >= s.len() {
        Err(ScanError { kind: ErrorKind::InputTooShort, index: Some(pos) })
    } else if s[pos] == c {
        Ok(pos + 1)
    } else {
        Err(ScanError { kind: ErrorKind::Unexpected, index: Some(pos) })
    }
}

// ---------------------------------------------------------------------------
// The scan machine.
// ---------------------------------------------------------------------------

/// The bounds of the signed 16-bit fields.
pub open spec fn fits_i16(v: int) -> bool {
    i16::MIN <= v && v <= i16::MAX
}

/// The largest nanosecond count a fractional-second field can produce
/// before scaling: nine digits.
pub open spec fn nano_max() -> int {
    999_999_999
}

/// One field directive, selected by its format letter, applied to the scan
/// state. The pending padding modifier applies to this field only and is
/// cleared. An unrecognized letter is an `InvalidFormat` error reported at
/// the current input position.
#[verifier::opaque]
pub open spec fn spec_field(c: char, s: Seq<char>, st: ScanState) -> Result<
    ScanState,
    ScanError,
> {
    if c == 'Y' {
        match spec_int_field(s, st.pos, 4, st.pad, true, i16::MIN as int, i16::MAX as int) {
            Ok((v, np)) => Ok(
                ScanState { pos: np, date: spec_set_year(st.date, v), pad: None, ..st },
            ),
            Err(e) => Err(e),
        }
    } else if c == 'C' {
        match spec_int_field(s, st.pos, 2, st.pad, true, i16::MIN as int, i16::MAX as int) {
            Ok((v, np)) => Ok(
                ScanState {
                    pos: np,
                    partials: PartialsView { century: Some(v), ..st.partials },
                    pad: None,
                    ..st
                },
            ),
            Err(e) => Err(e),
        }
    } else if c == 'y' {
        match spec_int_field(s, st.pos, 2, st.pad, true, i16::MIN as int, i16::MAX as int) {
            Ok((v, np)) => Ok(
                ScanState {
                    pos: np,
                    partials: PartialsView { year_modulo: Some(v), ..st.partials },
                    pad: None,
                    ..st
                },
            ),
            Err(e) => Err(e),
        }
    } else if c == 'm' {
        match spec_int_field(s, st.pos, 2, st.pad, false, 0, u8::MAX as int) {
            Ok((v, np)) => Ok(
                ScanState { pos: np, date: spec_set_month(st.date, v), pad: None, ..st },
            ),
            Err(e) => Err(e),
        }
    } else if c == 'b' || c == 'h' {
        match spec_month_field(s, st.pos, false) {
            Ok((v, np)) => Ok(
                ScanState { pos: np, date: spec_set_month(st.date, v), pad: None, ..st },
            ),
            Err(e) => Err(e),
        }
    } else if c == 'B' {
        match spec_month_field(s, st.pos, true) {
            Ok((v, np)) => Ok(
                ScanState { pos: np, date: spec_set_month(st.date, v), pad: None, ..st },
            ),
            Err(e) => Err(e),
        }
    } else if c == 'd' {
        match spec_int_field(s, st.pos, 2, st.pad, false, 0, u8::MAX as int) {
            Ok((v, np)) => Ok(
                ScanState { pos: np, date: spec_set_day(st.date, v), pad: None, ..st },
            ),
            Err(e) => Err(e),
        }
    } else if c == 'e' {
        let pad = if st.pad is None {
            Some(' ')
        } else {
            st.pad
        };
        match spec_int_field(s, st.pos, 2, pad, false, 0, u8::MAX as int) {
            Ok((v, np)) => Ok(
                ScanState { pos: np, date: spec_set_day(st.date, v), pad: None, ..st },
            ),
            Err(e) => Err(e),
        }
    } else if c == 'a' {
        match spec_weekday_field(s, st.pos, false) {
            Ok((v, np)) => Ok(ScanState { pos: np, pad: None, ..st }),
            Err(e) => Err(e),
        }
    } else if c == 'A' {
        match spec_weekday_field(s, st.pos, true) {
            Ok((v, np)) => Ok(ScanState { pos: np, pad: None, ..st }),
            Err(e) => Err(e),
        }
    } else if c == 'H' {
        match spec_int_field(s, st.pos, 2, st.pad, false, 0, u8::MAX as int) {
            Ok((v, np)) => Ok(
                ScanState { pos: np, time: spec_set_hour(st.time, v), pad: None, ..st },
            ),
            Err(e) => Err(e),
        }
    } else if c == 'k' {
        let pad = if st.pad is None {
            Some(' ')
        } else {
            st.pad
        };
        match spec_int_field(s, st.pos, 2, pad, false, 0, u8::MAX as int) {
            Ok((v, np)) => Ok(
                ScanState { pos: np, time: spec_set_hour(st.time, v), pad: None, ..st },
            ),
            Err(e) => Err(e),
        }
    } else if c == 'I' {
        match spec_int_field(s, st.pos, 2, st.pad, false, 0, u8::MAX as int) {
            Ok((v, np)) => Ok(
                ScanState {
                    pos: np,
                    partials: PartialsView { hour_12: Some(v), ..st.partials },
                    pad: None,
                    ..st
                },
            ),
            Err(e) => Err(e),
        }
    } else if c == 'p' {
        match spec_ampm_field(s, st.pos, true) {
            Ok((v, np)) => Ok(
                ScanState {
                    pos: np,
                    partials: PartialsView { pm: Some(v), ..st.partials },
                    pad: None,
                    ..st
                },
            ),
            Err(e) => Err(e),
        }
    } else if c == 'P' {
        match spec_ampm_field(s, st.pos, false) {
            Ok((v, np)) => Ok(
                ScanState {
                    pos: np,
                    partials: PartialsView { pm: Some(v), ..st.partials },
                    pad: None,
                    ..st
                },
            ),
            Err(e) => Err(e),
        }
    } else if c == 'M' {
        match spec_int_field(s, st.pos, 2, st.pad, false, 0, u8::MAX as int) {
            Ok((v, np)) => Ok(
                ScanState { pos: np, time: spec_set_minute(st.time, v), pad: None, ..st },
            ),
            Err(e) => Err(e),
        }
    } else if c == 'S' {
        match spec_int_field(s, st.pos, 2, st.pad, false, 0, u8::MAX as int) {
            Ok((v, np)) => Ok(
                ScanState { pos: np, time: spec_set_second(st.time, v), pad: None, ..st },
            ),
            Err(e) => Err(e),
        }
    } else {
        Err(ScanError { kind: ErrorKind::InvalidFormat, index: Some(st.pos) })
    }
}

/// A fractional-second field: `n` zero-padded digits whose value, scaled by
/// `scale`, is the nanosecond count.
pub open spec fn spec_frac_field(s: Seq<char>, st: ScanState, n: int, scale: int) -> Result<
    ScanState,
    ScanError,
> {
    match spec_int_field(s, st.pos, n, Some('0'), false, 0, nano_max()) {
        Ok((v, np)) => Ok(
            ScanState { pos: np, time: spec_set_nanosecond(st.time, v * scale), pad: None, ..st },
        ),
        Err(e) => Err(e),
    }
}

/// The scan of a format string, in the state where the next format character
/// is read literally, or `%` opens a directive.
pub open spec fn spec_scan(fmt: Seq<char>, s: Seq<char>, st: ScanState) -> Result<
    ScanState,
    ScanError,
>
    decreases fmt.len(), 3int,
{
    if fmt.len() == 0 {
        Ok(st)
    } else if fmt[0] == '%' {
        spec_scan_directive(fmt.skip(1), s, st)
    } else {
        match spec_expect(s, st.pos, fmt[0]) {
            Ok(np) => spec_scan(fmt.skip(1), s, ScanState { pos: np, ..st }),
            Err(e) => Err(e),
        }
    }
}

/// The scan just after a `%`: padding modifiers may accumulate, a `.` or a
/// precision digit opens a fractional-second directive, and any other
/// character selects a field. A format string that ends here is malformed.
pub open spec fn spec_scan_directive(fmt: Seq<char>, s: Seq<char>, st: ScanState) -> Result<
    ScanState,
    ScanError,
>
    decreases fmt.len(), 2int,
{
    if fmt.len() == 0 {
        Err(ScanError { kind: ErrorKind::InvalidFormat, index: Some(st.pos) })
    } else if fmt[0] == '-' || fmt[0] == '0' || fmt[0] == ' ' {
        spec_scan_directive(fmt.skip(1), s, ScanState { pad: Some(fmt[0]), ..st })
    } else if fmt[0] == '.' {
        match spec_expect(s, st.pos, '.') {
            Ok(np) => spec_scan_dot(fmt.skip(1), s, ScanState { pos: np, ..st }),
            Err(e) => Err(e),
        }
    } else if fmt[0] == '3' || fmt[0] == '6' || fmt[0] == '9' {
        spec_scan_frac(fmt.skip(1), s, st, spec_digit_val(fmt[0]))
    } else if fmt[0] == 'f' {
        match spec_frac_field(s, st, 9, 1) {
            Ok(st2) => spec_scan(fmt.skip(1), s, st2),
            Err(e) => Err(e),
        }
    } else {
        match spec_field(fmt[0], s, st) {
            Ok(st2) => spec_scan(fmt.skip(1), s, st2),
            Err(e) => Err(e),
        }
    }
}

/// The scan just after a `%.` prefix, whose literal dot has already been
/// consumed from the input: only a precision digit or `f` may follow.
pub open spec fn spec_scan_dot(fmt: Seq<char>, s: Seq<char>, st: ScanState) -> Result<
    ScanState,
    ScanError,
>
    decreases fmt.len(), 1int,
{
    if fmt.len() == 0 {
        Err(ScanError { kind: ErrorKind::InvalidFormat, index: Some(st.pos) })
    } else if fmt[0] == '3' || fmt[0] == '6' || fmt[0] == '9' {
        spec_scan_frac(fmt.skip(1), s, st, spec_digit_val(fmt[0]))
    } else if fmt[0] == 'f' {
        match spec_frac_field(s, st, 9, 1) {
            Ok(st2) => spec_scan(fmt.skip(1), s, st2),
            Err(e) => Err(e),
        }
    } else {
        Err(ScanError { kind: ErrorKind::InvalidFormat, index: Some(st.pos) })
    }
}

/// The nanosecond scale that pairs with a precision digit: 3 digits are
/// milliseconds, 6 are microseconds, 9 are nanoseconds.
pub open spec fn frac_scale(d: int) -> int {
    if d == 3 {
        1_000_000
    } else if d == 6 {
        1_000
    } else {
        1
    }
}

/// The scan just after a precision digit `d`: only `f` may follow.
pub open spec fn spec_scan_frac(fmt: Seq<char>, s: Seq<char>, st: ScanState, d: int) -> Result<
    ScanState,
    ScanError,
>
    decreases fmt.len(), 0int,
{
    if fmt.len() == 0 || fmt[0] != 'f' {
        Err(ScanError { kind: ErrorKind::InvalidFormat, index: Some(st.pos) })
    } else {
        match spec_frac_field(s, st, d, frac_scale(d)) {
            Ok(st2) => spec_scan(fmt.skip(1), s, st2),
            Err(e) => Err(e),
        }
    }
}

// ---------------------------------------------------------------------------
// Resolution of partial fields and final validation.
// ---------------------------------------------------------------------------

/// The full year a year-resolution rule assigns to a two-digit remainder.
pub open spec fn spec_resolve_modulo(yr: crate::YearResolution, m: int) -> int {
    if m >= yr.pivot {
        yr.base_from_pivot + m
    } else {
        yr.base_before_pivot + m
    }
}

/// The year the partial fields determine, if any. A century with a
/// remainder combine as `century * 100 + remainder`; a century alone is
/// ambiguous; a remainder alone goes through the year-resolution rule. A
/// combination that does not fit the year field is rejected as `Unexpected`.
pub open spec fn spec_resolve_year(p: PartialsView, yr: crate::YearResolution) -> Result<
    Option<int>,
    ScanError,
> {
    match (p.century, p.year_modulo) {
        (Some(c), Some(m)) => if fits_i16(c * 100 + m) {
            Ok(Some(c * 100 + m))
        } else {
            Err(ScanError { kind: ErrorKind::Unexpected, index: None })
        },
        (Some(c), None) => Err(ScanError { kind: ErrorKind::Ambiguous, index: None }),
        (None, Some(m)) => if fits_i16(spec_resolve_modulo(yr, m)) {
            Ok(Some(spec_resolve_modulo(yr, m)))
        } else {
            Err(ScanError { kind: ErrorKind::Unexpected, index: None })
        },
        (None, None) => Ok(None),
    }
}

/// The hour the partial fields determine, if any: a 12-hour value with a
/// meridiem offset combine as `value % 12 + offset`, so that 12 AM is hour 0
/// and 12 PM is hour 12; either alone is ambiguous.
pub open spec fn spec_resolve_hour(p: PartialsView) -> Result<Option<int>, ScanError> {
    match (p.hour_12, p.pm) {
        (Some(h), Some(pm)) => Ok(Some(h % 12 + pm)),
        (None, None) => Ok(None),
        _ => Err(ScanError { kind: ErrorKind::Ambiguous, index: None }),
    }
}

/// True when a date under construction is fully specified.
pub open spec fn date_complete(d: DateView) -> bool {
    d.year is Some && d.month is Some && d.day is Some
}

/// What becomes of a finished scan: partial fields are resolved into the
/// result, a partially specified date is rejected, and unconsumed input is
/// rejected.
pub open spec fn spec_finish(s: Seq<char>, st: ScanState, yr: crate::YearResolution) -> Result<
    DateTimeView,
    ScanError,
> {
    match spec_resolve_year(st.partials, yr) {
        Err(e) => Err(e),
        Ok(oy) => match spec_resolve_hour(st.partials) {
            Err(e) => Err(e),
            Ok(oh) => {
                let date = match oy {
                    Some(y) => spec_set_year(st.date, y),
                    None => st.date,
                };
                let time = match oh {
                    Some(h) => spec_set_hour(st.time, h),
                    None => st.time,
                };
                if date is Some && !date_complete(date->Some_0) {
                    Err(ScanError { kind: ErrorKind::IncompleteDate, index: None })
                } else if st.pos < s.len() {
                    Err(ScanError { kind: ErrorKind::InputTooLong, index: Some(st.pos) })
                } else {
                    Ok(DateTimeView { src: s, date, time })
                }
            },
        },
    }
}

/// A string of digits has a non-negative value.
pub proof fn lemma_digits_val_nonneg(s: Seq<char>)
    requires
        all_digits(s),
    ensures
        digits_val(s) >= 0,
    decreases s.len(),
{
    if s.len() > 0 {
        lemma_digits_val_nonneg(s.drop_last());
    }
}

/// Extending a string of digits can only grow its value.
pub proof fn lemma_digits_val_prefix_le(s: Seq<char>, i: int)
    requires
        all_digits(s),
        0 <= i <= s.len(),
    ensures
        digits_val(s.take(i)) <= digits_val(s),
    decreases s.len() - i,
{
    if i == s.len() {
        assert(s.take(i) =~= s);
    } else {
        assert(s.take(i + 1).drop_last() =~= s.take(i));
        assert(s.take(i + 1).last() == s[i]);
        lemma_digits_val_nonneg(s.take(i));
        lemma_digits_val_prefix_le(s, i + 1);
    }
}

/// The outcome of a whole parse: the scan of the format string against the
/// input, then resolution and validation.
pub open spec fn spec_parse(fmt: Seq<char>, s: Seq<char>, yr: crate::YearResolution) -> Result<
    DateTimeView,
    ScanError,
> {
    match spec_scan(fmt, s, scan_init()) {
        Err(e) => Err(e),
        Ok(st) => spec_finish(s, st, yr),
    }
}

} // verus!
