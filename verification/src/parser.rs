//! The executable parsing engine.
//!
//! [`OnceParser`] walks the format string and the input string in lockstep,
//! exactly as the model in [`crate::scan`] describes, and is proved to
//! return what [`crate::scan::spec_parse`] says.

use vstd::prelude::*;
use vstd::string::StrSliceExecFns;

use crate::error::ErrorKind;
use crate::error::ErrorView;
use crate::scan::all_digits;
use crate::scan::digit_run;
use crate::scan::digits_val;
use crate::scan::drop_spaces;
use crate::scan::lemma_digits_val_prefix_le;
use crate::scan::space_run;
use crate::scan::spec_digit_val;
use crate::scan::spec_expect;
use crate::scan::spec_int_field;
use crate::scan::spec_int_of;
use crate::scan::spec_is_digit;
use crate::scan::ci_run;
use crate::scan::spec_ampm_field;
use crate::scan::spec_eq_ci;
use crate::scan::spec_month_abbr;
use crate::scan::spec_month_field;
use crate::scan::spec_weekday_abbr;
use crate::scan::spec_weekday_field;
use crate::scan::spec_resolve_hour;
use crate::scan::spec_resolve_year;
use crate::scan::spec_field;
use crate::scan::spec_frac_field;
use crate::scan::frac_scale;
use crate::scan::scan_init;
use crate::scan::spec_parse;
use crate::scan::spec_scan;
use crate::scan::spec_scan_directive;
use crate::scan::spec_scan_dot;
use crate::scan::spec_scan_frac;
use crate::scan::take_end;
use crate::scan::ScanState;
use crate::scan::PartialsView;
use crate::scan::ScanError;
use crate::RawDateTime;
use crate::ParseError;
use crate::ParseResult;

verus! {

/// The characters of a string, in order.
fn chars_of(s: &str) -> (v: Vec<char>)
    ensures
        v@ == s@,
{
    let n = s.unicode_len();
    let mut v: Vec<char> = Vec::new();
    let mut i: usize = 0;
    while i < n
        invariant
            n == s@.len(),
            i <= n,
            v@ == s@.take(i as int),
        decreases n - i,
    {
        let c = s.get_char(i);
        v.push(c);
        i = i + 1;
        proof {
            assert(v@ =~= s@.take(i as int));
        }
    }
    proof {
        assert(v@ =~= s@);
    }
    v
}

/// True when `c` is an ASCII decimal digit.
fn is_digit(c: char) -> (r: bool)
    ensures
        r == spec_is_digit(c),
{
    '0' <= c && c <= '9'
}

/// A cursor over the input string: the input as characters, and how many of
/// them have been consumed.
pub(crate) struct Input {
    src: String,
    chars: Vec<char>,
    pos: usize,
}

impl Input {
    /// The whole input, as the model sees it.
    pub(crate) closed spec fn text(&self) -> Seq<char> {
        self.chars@
    }

    /// How many characters have been consumed.
    pub(crate) closed spec fn spec_pos(&self) -> int {
        self.pos as int
    }

    /// The cursor's invariant: the characters are those of the source
    /// string, and the position lies within them.
    pub(crate) closed spec fn wf(&self) -> bool {
        self.chars@ == self.src@ && self.pos <= self.chars@.len()
    }

    pub(crate) fn new(date_str: &str) -> (r: Self)
        ensures
            r.wf(),
            r.text() == date_str@,
            r.spec_pos() == 0,
    {
        Input { src: date_str.to_owned(), chars: chars_of(date_str), pos: 0 }
    }

    /// An error of the given kind at the given position, carrying the whole
    /// input.
    fn err_at(&self, ix: usize, kind: ErrorKind) -> (r: ParseError)
        requires
            self.wf(),
        ensures
            r@ == (ErrorView { src: self.text(), index: Some(ix as int), kind }),
    {
        ParseError::new(self.src.as_str(), kind).at_index(ix)
    }

    /// An error of the given kind at the current position.
    pub(crate) fn err(&self, kind: ErrorKind) -> (r: ParseError)
        requires
            self.wf(),
        ensures
            r@ == (ErrorView { src: self.text(), index: Some(self.spec_pos()), kind }),
    {
        self.err_at(self.pos, kind)
    }

    /// Consume one expected literal character.
    pub(crate) fn expect_char(&mut self, c: char) -> (r: ParseResult<()>)
        requires
            old(self).wf(),
        ensures
            final(self).wf(),
            final(self).text() == old(self).text(),
            match spec_expect(old(self).text(), old(self).spec_pos(), c) {
                Ok(np) => r is Ok && final(self).spec_pos() == np,
                Err(e) => {
                    &&& r is Err
                    &&& crate::scan::err_matches(r->Err_0, e, old(self).text())
                    &&& final(self).spec_pos() == old(self).spec_pos()
                },
            },
    {
        if self.pos >= self.chars.len() {
            Err(self.err(ErrorKind::InputTooShort))
        } else if self.chars[self.pos] == c {
            self.pos = self.pos + 1;
            Ok(())
        } else {
            Err(self.err(ErrorKind::Unexpected))
        }
    }

    /// The position where the run of digits starting at the cursor ends.
    fn digit_run_end(&self) -> (end: usize)
        requires
            self.wf(),
        ensures
            self.spec_pos() <= end <= self.text().len(),
            end - self.spec_pos() == digit_run(self.text(), self.spec_pos()),
    {
        let mut end = self.pos;
        while end < self.chars.len() && is_digit(self.chars[end])
            invariant
                self.wf(),
                self.pos <= end <= self.chars@.len(),
                digit_run(self.text(), self.spec_pos()) == (end - self.pos) + digit_run(
                    self.text(),
                    end as int,
                ),
            decreases self.chars@.len() - end,
        {
            end = end + 1;
        }
        end
    }

    /// The value of the characters in `[from, to)` as a signed or unsigned
    /// integer in `[min, max]`, exactly as `spec_int_of` reads them, or
    /// nothing where they are not such an integer.
    fn int_of_range(&self, from: usize, to: usize, signed: bool, min: i64, max: i64) -> (r:
        Option<i64>)
        requires
            self.wf(),
            from <= to <= self.text().len(),
            -2_000_000_000 <= min <= 0,
            0 <= max <= 2_000_000_000,
        ensures
            match spec_int_of(
                self.text().subrange(from as int, to as int),
                signed,
                min as int,
                max as int,
            ) {
                Some(v) => r is Some && r->0 == v,
                None => r is None,
            },
    {
        let ghost text = self.text();
        let ghost s = text.subrange(from as int, to as int);
        // The sign, if one is allowed and present.
        let mut j: usize = from;
        let mut neg = false;
        if from < to && self.chars[from] == '+' {
            j = from + 1;
        } else if signed && from < to && self.chars[from] == '-' {
            neg = true;
            j = from + 1;
        }
        let ghost body = text.subrange(j as int, to as int);
        proof {
            assert(s.len() > 0 ==> s[0] == text[from as int]);
            if j > from {
                assert(body =~= s.skip(1));
            } else {
                assert(body =~= s);
            }
        }
        if j == to {
            // A sign alone, or nothing at all: no digits.
            return None;
        }
        // Accumulate the digits.
        let bound: i64 = if neg {
            -min
        } else {
            max
        };
        let mut acc: i64 = 0;
        let mut k: usize = j;
        while k < to
            invariant
                self.wf(),
                text == self.text(),
                from <= j <= k <= to <= text.len(),
                s == text.subrange(from as int, to as int),
                body == text.subrange(j as int, to as int),
                body == (if j > from {
                    s.skip(1)
                } else {
                    s
                }),
                j > from ==> s.len() > 0 && (s[0] == '+' || (signed && s[0] == '-')),
                j == from ==> !(s.len() > 0 && (s[0] == '+' || (signed && s[0] == '-'))),
                neg == (s.len() > 0 && signed && s[0] == '-'),
                body.len() > 0,
                0 <= acc <= bound,
                bound == (if neg {
                    -(min as int)
                } else {
                    max as int
                }),
                bound <= 2_000_000_000,
                acc == digits_val(body.take(k - j)),
                all_digits(body.take(k - j)),
            decreases to - k,
        {
            let c = self.chars[k];
            proof {
                assert(body[k - j] == text[k as int]);
            }
            if !is_digit(c) {
                proof {
                    assert(!spec_is_digit(body[k - j]));
                    assert(!all_digits(body));
                }
                return None;
            }
            let d = (c as u32 - '0' as u32) as i64;
            let next = acc * 10 + d;
            proof {
                assert(body.take(k - j + 1).drop_last() =~= body.take(k - j));
                assert(body.take(k - j + 1).last() == body[k - j]);
            }
            if next > bound {
                proof {
                    if all_digits(body) {
                        lemma_digits_val_prefix_le(body, k - j + 1);
                    }
                }
                return None;
            }
            acc = next;
            k = k + 1;
        }
        proof {
            assert(body.take(to - j) =~= body);
        }
        if neg {
            Some(-acc)
        } else {
            Some(acc)
        }
    }

    /// Read an integer field of `n` characters under the given padding mode:
    /// what `spec_int_field` describes.
    fn parse_int(
        &mut self,
        n: usize,
        pad: Option<char>,
        signed: bool,
        min: i64,
        max: i64,
    ) -> (r: Result<i64, ParseError>)
        requires
            old(self).wf(),
            n <= 16,
            -2_000_000_000 <= min <= 0,
            0 <= max <= 2_000_000_000,
        ensures
            final(self).wf(),
            final(self).text() == old(self).text(),
            match spec_int_field(
                old(self).text(),
                old(self).spec_pos(),
                n as int,
                pad,
                signed,
                min as int,
                max as int,
            ) {
                Ok((v, np)) => r is Ok && r->Ok_0 == v && final(self).spec_pos() == np,
                Err(e) => r is Err && crate::scan::err_matches(r->Err_0, e, old(self).text()),
            },
    {
        let ghost text = self.text();
        let ghost pos0 = self.spec_pos();
        let is_minus_pad = match pad {
            Some(p) => p == '-',
            None => false,
        };
        let is_space_pad = match pad {
            Some(p) => p == ' ',
            None => false,
        };
        // Where the taken text ends.
        let end: usize = if is_minus_pad {
            self.digit_run_end()
        } else {
            if n < self.chars.len() - self.pos {
                self.pos + n
            } else {
                self.chars.len()
            }
        };
        let ghost taken = text.subrange(pos0, end as int);
        proof {
            if is_minus_pad {
                assert(end - pos0 == digit_run(text, pos0));
            } else {
                assert(end as int == take_end(text, pos0, n as int));
            }
        }
        // Trim leading spaces under space padding.
        let mut b: usize = self.pos;
        if is_space_pad {
            proof {
                assert(taken.skip(0) =~= taken);
            }
            while b < end && self.chars[b] == ' '
                invariant
                    self.wf(),
                    text == self.text(),
                    pos0 == self.spec_pos(),
                    pos0 <= b <= end <= text.len(),
                    taken == text.subrange(pos0, end as int),
                    space_run(taken) == (b - pos0) + space_run(taken.skip(b - pos0)),
                decreases end - b,
            {
                proof {
                    let k = b - pos0;
                    assert(taken.skip(k)[0] == taken[k]);
                    assert(taken[k] == text[b as int]);
                    assert(taken.skip(k).skip(1) =~= taken.skip(k + 1));
                }
                b = b + 1;
            }
            proof {
                let k = b - pos0;
                if k < taken.len() {
                    assert(taken.skip(k)[0] == taken[k]);
                    assert(taken[k] == text[b as int]);
                }
                assert(space_run(taken.skip(k)) == 0);
            }
        }
        let ghost body0 = if is_space_pad {
            drop_spaces(taken)
        } else {
            taken
        };
        proof {
            assert(body0 =~= text.subrange(b as int, end as int));
        }
        match self.int_of_range(b, end, signed, min, max) {
            Some(v) => {
                self.pos = end;
                Ok(v)
            },
            None => Err(self.err(ErrorKind::Unexpected)),
        }
    }

    /// Consume up to three characters and return where that take ends; the
    /// taken characters are handed back for matching.
    fn take3(&mut self) -> (r: Option<(char, char, char)>)
        requires
            old(self).wf(),
        ensures
            final(self).wf(),
            final(self).text() == old(self).text(),
            final(self).spec_pos() == take_end(old(self).text(), old(self).spec_pos(), 3),
            match r {
                Some((c0, c1, c2)) => old(self).text().subrange(
                    old(self).spec_pos(),
                    final(self).spec_pos(),
                ) =~= seq![c0, c1, c2],
                None => final(self).spec_pos() - old(self).spec_pos() < 3,
            },
    {
        if self.chars.len() - self.pos < 3 {
            self.pos = self.chars.len();
            None
        } else {
            let c0 = self.chars[self.pos];
            let c1 = self.chars[self.pos + 1];
            let c2 = self.chars[self.pos + 2];
            self.pos = self.pos + 3;
            Some((c0, c1, c2))
        }
    }

    /// Read a month's three-letter abbreviation: what `spec_month_field`
    /// without the full name describes.
    pub(crate) fn parse_month_abbr(&mut self) -> (r: Result<u8, ParseError>)
        requires
            old(self).wf(),
        ensures
            final(self).wf(),
            final(self).text() == old(self).text(),
            match spec_month_field(old(self).text(), old(self).spec_pos(), false) {
                Ok((m, np)) => r is Ok && r->Ok_0 == m && final(self).spec_pos() == np,
                Err(e) => r is Err && crate::scan::err_matches(r->Err_0, e, old(self).text()),
            },
    {
        let ghost text = self.text();
        let ghost pos0 = self.spec_pos();
        match self.take3() {
            None => Err(self.err(ErrorKind::Unexpected)),
            Some((c0, c1, c2)) => {
                proof {
                    assert(text.subrange(pos0, take_end(text, pos0, 3)) =~= seq![c0, c1, c2]);
                }
                match month_from_abbr(c0, c1, c2) {
                    Some(m) => Ok(m),
                    None => Err(self.err(ErrorKind::Unexpected)),
                }
            },
        }
    }

    /// Trim as much of `pat` from the input as matches, ignoring ASCII case,
    /// stopping at the first mismatch.
    pub(crate) fn trim_front_seq(&mut self, pat: &Vec<char>)
        requires
            old(self).wf(),
        ensures
            final(self).wf(),
            final(self).text() == old(self).text(),
            final(self).spec_pos() == old(self).spec_pos() + ci_run(
                old(self).text(),
                old(self).spec_pos(),
                pat@,
            ),
    {
        let ghost text = self.text();
        let ghost pos0 = self.spec_pos();
        let mut j: usize = 0;
        proof {
            assert(pat@.skip(0) =~= pat@);
        }
        while j < pat.len() && self.pos < self.chars.len() && eq_ci(
            self.chars[self.pos],
            pat[j],
        )
            invariant
                self.wf(),
                text == self.text(),
                j <= pat@.len(),
                pos0 + j == self.spec_pos(),
                self.spec_pos() <= text.len(),
                ci_run(text, pos0, pat@) == j + ci_run(text, self.spec_pos(), pat@.skip(j as int)),
            decreases pat@.len() - j,
        {
            proof {
                assert(pat@.skip(j as int)[0] == pat@[j as int]);
                assert(pat@.skip(j as int).skip(1) =~= pat@.skip(j + 1));
            }
            self.pos = self.pos + 1;
            j = j + 1;
        }
        proof {
            if j < pat@.len() {
                assert(pat@.skip(j as int)[0] == pat@[j as int]);
            }
            assert(ci_run(text, self.spec_pos(), pat@.skip(j as int)) == 0);
        }
    }

    /// Read a full month name: the abbreviation, then as much of the rest of
    /// the name as matches.
    pub(crate) fn parse_month(&mut self) -> (r: Result<u8, ParseError>)
        requires
            old(self).wf(),
        ensures
            final(self).wf(),
            final(self).text() == old(self).text(),
            match spec_month_field(old(self).text(), old(self).spec_pos(), true) {
                Ok((m, np)) => r is Ok && r->Ok_0 == m && final(self).spec_pos() == np,
                Err(e) => r is Err && crate::scan::err_matches(r->Err_0, e, old(self).text()),
            },
    {
        match self.parse_month_abbr() {
            Err(e) => Err(e),
            Ok(m) => {
                let suffix = month_suffix(m);
                self.trim_front_seq(&suffix);
                Ok(m)
            },
        }
    }

    /// Read a weekday's three-letter abbreviation.
    pub(crate) fn parse_weekday_abbr(&mut self) -> (r: Result<u8, ParseError>)
        requires
            old(self).wf(),
        ensures
            final(self).wf(),
            final(self).text() == old(self).text(),
            match spec_weekday_field(old(self).text(), old(self).spec_pos(), false) {
                Ok((w, np)) => r is Ok && r->Ok_0 == w && final(self).spec_pos() == np,
                Err(e) => r is Err && crate::scan::err_matches(r->Err_0, e, old(self).text()),
            },
    {
        let ghost text = self.text();
        let ghost pos0 = self.spec_pos();
        match self.take3() {
            None => Err(self.err(ErrorKind::Unexpected)),
            Some((c0, c1, c2)) => {
                proof {
                    assert(text.subrange(pos0, take_end(text, pos0, 3)) =~= seq![c0, c1, c2]);
                }
                match weekday_from_abbr(c0, c1, c2) {
                    Some(w) => Ok(w),
                    None => Err(self.err(ErrorKind::Unexpected)),
                }
            },
        }
    }

    /// Read a full weekday name: the abbreviation, then as much of the rest
    /// of the name as matches.
    pub(crate) fn parse_weekday(&mut self) -> (r: Result<u8, ParseError>)
        requires
            old(self).wf(),
        ensures
            final(self).wf(),
            final(self).text() == old(self).text(),
            match spec_weekday_field(old(self).text(), old(self).spec_pos(), true) {
                Ok((w, np)) => r is Ok && r->Ok_0 == w && final(self).spec_pos() == np,
                Err(e) => r is Err && crate::scan::err_matches(r->Err_0, e, old(self).text()),
            },
    {
        match self.parse_weekday_abbr() {
            Err(e) => Err(e),
            Ok(w) => {
                let suffix = weekday_suffix(w);
                self.trim_front_seq(&suffix);
                Ok(w)
            },
        }
    }

    /// Read a lowercase meridiem: `am` or `pm`, as the additive hour offset.
    pub(crate) fn parse_am_pm_lower(&mut self) -> (r: Result<u8, ParseError>)
        requires
            old(self).wf(),
        ensures
            final(self).wf(),
            final(self).text() == old(self).text(),
            match spec_ampm_field(old(self).text(), old(self).spec_pos(), false) {
                Ok((v, np)) => r is Ok && r->Ok_0 == v && final(self).spec_pos() == np,
                Err(e) => r is Err && crate::scan::err_matches(r->Err_0, e, old(self).text()),
            },
    {
        let value: u8 = if self.pos < self.chars.len() && self.chars[self.pos] == 'a' {
            0
        } else if self.pos < self.chars.len() && self.chars[self.pos] == 'p' {
            12
        } else {
            return Err(self.err(ErrorKind::Unexpected));
        };
        self.pos = self.pos + 1;
        match self.expect_char('m') {
            Ok(()) => Ok(value),
            Err(e) => Err(e),
        }
    }

    /// Read an uppercase meridiem: `AM` or `PM`, as the additive hour
    /// offset.
    pub(crate) fn parse_am_pm_upper(&mut self) -> (r: Result<u8, ParseError>)
        requires
            old(self).wf(),
        ensures
            final(self).wf(),
            final(self).text() == old(self).text(),
            match spec_ampm_field(old(self).text(), old(self).spec_pos(), true) {
                Ok((v, np)) => r is Ok && r->Ok_0 == v && final(self).spec_pos() == np,
                Err(e) => r is Err && crate::scan::err_matches(r->Err_0, e, old(self).text()),
            },
    {
        let value: u8 = if self.pos < self.chars.len() && self.chars[self.pos] == 'A' {
            0
        } else if self.pos < self.chars.len() && self.chars[self.pos] == 'P' {
            12
        } else {
            return Err(self.err(ErrorKind::Unexpected));
        };
        self.pos = self.pos + 1;
        match self.expect_char('M') {
            Ok(()) => Ok(value),
            Err(e) => Err(e),
        }
    }

    /// Fail with `InputTooLong` if any input remains.
    pub(crate) fn assert_consumed(&self) -> (r: ParseResult<()>)
        requires
            self.wf(),
        ensures
            r is Ok <==> self.spec_pos() == self.text().len(),
            r is Err ==> r->Err_0@ == (ErrorView {
                src: self.text(),
                index: Some(self.spec_pos()),
                kind: ErrorKind::InputTooLong,
            }),
    {
        if self.pos < self.chars.len() {
            Err(self.err(ErrorKind::InputTooLong))
        } else {
            Ok(())
        }
    }
}

/// True when `c` matches the lowercase ASCII letter `p`, ignoring ASCII
/// case.
fn eq_ci(c: char, p: char) -> (r: bool)
    ensures
        r == spec_eq_ci(c, p),
{
    c == p || (p as u32 >= 32 && c as u32 == p as u32 - 32)
}

/// The month named by the three characters, ignoring ASCII case.
fn month_from_abbr(c0: char, c1: char, c2: char) -> (r: Option<u8>)
    ensures
        match spec_month_abbr(seq![c0, c1, c2]) {
            Some(m) => r is Some && r->0 == m,
            None => r is None,
        },
{
    proof {
        assert(seq![c0, c1, c2].len() == 3);
    }
    if eq_ci(c0, 'j') && eq_ci(c1, 'a') && eq_ci(c2, 'n') {
        Some(1)
    } else if eq_ci(c0, 'f') && eq_ci(c1, 'e') && eq_ci(c2, 'b') {
        Some(2)
    } else if eq_ci(c0, 'm') && eq_ci(c1, 'a') && eq_ci(c2, 'r') {
        Some(3)
    } else if eq_ci(c0, 'a') && eq_ci(c1, 'p') && eq_ci(c2, 'r') {
        Some(4)
    } else if eq_ci(c0, 'm') && eq_ci(c1, 'a') && eq_ci(c2, 'y') {
        Some(5)
    } else if eq_ci(c0, 'j') && eq_ci(c1, 'u') && eq_ci(c2, 'n') {
        Some(6)
    } else if eq_ci(c0, 'j') && eq_ci(c1, 'u') && eq_ci(c2, 'l') {
        Some(7)
    } else if eq_ci(c0, 'a') && eq_ci(c1, 'u') && eq_ci(c2, 'g') {
        Some(8)
    } else if eq_ci(c0, 's') && eq_ci(c1, 'e') && eq_ci(c2, 'p') {
        Some(9)
    } else if eq_ci(c0, 'o') && eq_ci(c1, 'c') && eq_ci(c2, 't') {
        Some(10)
    } else if eq_ci(c0, 'n') && eq_ci(c1, 'o') && eq_ci(c2, 'v') {
        Some(11)
    } else if eq_ci(c0, 'd') && eq_ci(c1, 'e') && eq_ci(c2, 'c') {
        Some(12)
    } else {
        None
    }
}

/// The weekday named by the three characters, ignoring ASCII case; Sunday
/// is 0.
fn weekday_from_abbr(c0: char, c1: char, c2: char) -> (r: Option<u8>)
    ensures
        match spec_weekday_abbr(seq![c0, c1, c2]) {
            Some(w) => r is Some && r->0 == w,
            None => r is None,
        },
{
    proof {
        assert(seq![c0, c1, c2].len() == 3);
    }
    if eq_ci(c0, 's') && eq_ci(c1, 'u') && eq_ci(c2, 'n') {
        Some(0)
    } else if eq_ci(c0, 'm') && eq_ci(c1, 'o') && eq_ci(c2, 'n') {
        Some(1)
    } else if eq_ci(c0, 't') && eq_ci(c1, 'u') && eq_ci(c2, 'e') {
        Some(2)
    } else if eq_ci(c0, 'w') && eq_ci(c1, 'e') && eq_ci(c2, 'd') {
        Some(3)
    } else if eq_ci(c0, 't') && eq_ci(c1, 'h') && eq_ci(c2, 'u') {
        Some(4)
    } else if eq_ci(c0, 'f') && eq_ci(c1, 'r') && eq_ci(c2, 'i') {
        Some(5)
    } else if eq_ci(c0, 's') && eq_ci(c1, 'a') && eq_ci(c2, 't') {
        Some(6)
    } else {
        None
    }
}

/// What remains of a month's full English name after its abbreviation.
fn month_suffix(m: u8) -> (r: Vec<char>)
    requires
        1 <= m <= 12,
    ensures
        r@ == crate::scan::spec_month_suffix(m as int),
{
    let r: Vec<char> = if m == 1 {
        vec!['u', 'a', 'r', 'y']
    } else if m == 2 {
        vec!['r', 'u', 'a', 'r', 'y']
    } else if m == 3 {
        vec!['c', 'h']
    } else if m == 4 {
        vec!['i', 'l']
    } else if m == 6 {
        vec!['e']
    } else if m == 7 {
        vec!['y']
    } else if m == 8 {
        vec!['u', 's', 't']
    } else if m == 9 {
        vec!['t', 'e', 'm', 'b', 'e', 'r']
    } else if m == 10 {
        vec!['o', 'b', 'e', 'r']
    } else if m == 11 || m == 12 {
        vec!['e', 'm', 'b', 'e', 'r']
    } else {
        Vec::new()
    };
    proof {
        assert(r@ =~= crate::scan::spec_month_suffix(m as int));
    }
    r
}

/// An object that parses one and exactly one date and time string, and is
/// consumed by the parse.
#[must_use]
pub(crate) struct OnceParser<'a> {
    pub(crate) fmt: &'static str,
    pub(crate) date_str: &'a str,
    pub(crate) opts: crate::ParseOptions,
    pub(crate) partials: Partials,
}

impl<'a> OnceParser<'a> {
    pub(crate) fn new(fmt: &'static str, date_str: &'a str, opts: crate::ParseOptions) -> (r:
        Self)
        ensures
            r.fmt@ == fmt@,
            r.date_str@ == date_str@,
            r.opts == opts,
            r.partials@ == scan_init().partials,
            r.partials.pm_valid(),
    {
        OnceParser { fmt, date_str, opts, partials: Partials::empty() }
    }

    /// Run the parse: walk the format string against the input, resolve the
    /// partial fields, and validate the outcome. The result is exactly what
    /// `spec_parse` says.
    pub(crate) fn parse(self) -> (r: ParseResult<RawDateTime>)
        requires
            self.partials@ == scan_init().partials,
            self.partials.pm_valid(),
        ensures
            match spec_parse(self.fmt@, self.date_str@, self.opts.modulo_year_resolution) {
                Ok(dtv) => r is Ok && r->Ok_0@ == dtv,
                Err(e) => r is Err && crate::scan::err_matches(r->Err_0, e, self.date_str@),
            },
    {
        let fmt_chars = chars_of(self.fmt);
        let flen = fmt_chars.len();
        let mut input = Input::new(self.date_str);
        let mut answer = RawDateTime::empty(self.date_str);
        let mut partials = self.partials;
        let ghost fseq = self.fmt@;
        let ghost text = self.date_str@;
        proof {
            assert(fseq.skip(0) =~= fseq);
        }
        let mut i: usize = 0;
        while i < flen
            invariant
                input.wf(),
                input.text() == text,
                text == self.date_str@,
                fseq == self.fmt@,
                fmt_chars@ == fseq,
                flen == fmt_chars@.len(),
                i <= flen,
                partials.pm_valid(),
                answer@.src == text,
                spec_scan(
                    fseq.skip(i as int),
                    text,
                    ScanState {
                        pos: input.spec_pos(),
                        date: answer@.date,
                        time: answer@.time,
                        partials: partials@,
                        pad: None,
                    },
                ) == spec_scan(fseq, text, scan_init()),
            decreases flen - i,
        {
            let ghost st0 = ScanState {
                pos: input.spec_pos(),
                date: answer@.date,
                time: answer@.time,
                partials: partials@,
                pad: None,
            };
            let c = fmt_chars[i];
            proof {
                assert(fseq.skip(i as int)[0] == c);
            }
            if c != '%' {
                // A literal format character must appear in the input.
                proof {
                    assert(spec_scan(fseq.skip(i as int), text, st0) == (
                    match spec_expect(text, st0.pos, c) {
                        Ok(np) => spec_scan(
                            fseq.skip(i as int).skip(1),
                            text,
                            ScanState { pos: np, ..st0 },
                        ),
                        Err(e) => Err(e),
                    }));
                    assert(fseq.skip(i as int).skip(1) =~= fseq.skip(i + 1));
                }
                match input.expect_char(c) {
                    Ok(()) => {
                        i = i + 1;
                    },
                    Err(e) => {
                        return Err(e);
                    },
                }
            } else {
                proof {
                    assert(spec_scan(fseq.skip(i as int), text, st0) == spec_scan_directive(
                        fseq.skip(i as int).skip(1),
                        text,
                        st0,
                    ));
                    assert(fseq.skip(i as int).skip(1) =~= fseq.skip(i + 1));
                }
                i = i + 1;
                match apply_directive(&fmt_chars, &mut i, &mut input, &mut answer, &mut partials) {
                    Ok(()) => {},
                    Err(e) => {
                        return Err(e);
                    },
                }
            }
        }
        // The format string is exhausted: resolve the partial fields, then
        // validate completeness and consumption.
        proof {
            assert(fseq.skip(flen as int).len() == 0);
        }
        let ghost stf = ScanState {
            pos: input.spec_pos(),
            date: answer@.date,
            time: answer@.time,
            partials: partials@,
            pad: None,
        };
        proof {
            assert(spec_scan(fseq, text, scan_init()) == Ok::<ScanState, ScanError>(stf));
        }
        let oy = match partials.year(self.date_str, self.opts.modulo_year_resolution) {
            Ok(v) => v,
            Err(e) => {
                return Err(e);
            },
        };
        if let Some(y) = oy {
            answer.set_year(y);
        }
        let oh = match partials.hour(self.date_str) {
            Ok(v) => v,
            Err(e) => {
                return Err(e);
            },
        };
        if let Some(h) = oh {
            answer.set_hour(h);
        }
        match answer.assert_complete(self.date_str) {
            Ok(()) => {},
            Err(e) => {
                return Err(e);
            },
        }
        match input.assert_consumed() {
            Ok(()) => {},
            Err(e) => {
                return Err(e);
            },
        }
        Ok(answer)
    }
}

/// Scan a fractional-second directive: an optional literal-dot prefix, an
/// optional precision digit, then `f` and its digits. The position stands at
/// the first character of the directive after any padding modifiers, and is
/// left just after the `f`. The effect is exactly what the scan of these
/// format characters says of the state at entry.
#[verifier::rlimit(100)]
fn scan_frac_directive(
    fmt_chars: &Vec<char>,
    i: &mut usize,
    input: &mut Input,
    answer: &mut RawDateTime,
    partials: &Partials,
    pad: Option<char>,
) -> (r: ParseResult<()>)
    requires
        old(input).wf(),
        *old(i) < fmt_chars@.len(),
        fmt_chars@[*old(i) as int] == '.' || fmt_chars@[*old(i) as int] == '3' || fmt_chars@[*old(
            i,
        ) as int] == '6' || fmt_chars@[*old(i) as int] == '9' || fmt_chars@[*old(i) as int] == 'f',
    ensures
        final(input).wf(),
        final(input).text() == old(input).text(),
        final(answer)@.src == old(answer)@.src,
        *old(i) <= *final(i) <= fmt_chars@.len(),
        match r {
            Ok(()) => spec_scan_directive(
                fmt_chars@.skip(*old(i) as int),
                old(input).text(),
                ScanState {
                    pos: old(input).spec_pos(),
                    date: old(answer)@.date,
                    time: old(answer)@.time,
                    partials: partials@,
                    pad,
                },
            ) == spec_scan(
                fmt_chars@.skip(*final(i) as int),
                old(input).text(),
                ScanState {
                    pos: final(input).spec_pos(),
                    date: final(answer)@.date,
                    time: final(answer)@.time,
                    partials: partials@,
                    pad: None,
                },
            ),
            Err(e) => ({
                let d = spec_scan_directive(
                    fmt_chars@.skip(*old(i) as int),
                    old(input).text(),
                    ScanState {
                        pos: old(input).spec_pos(),
                        date: old(answer)@.date,
                        time: old(answer)@.time,
                        partials: partials@,
                        pad,
                    },
                );
                d is Err && crate::scan::err_matches(e, d->Err_0, old(input).text())
            }),
        },
{
    let ghost fseq = fmt_chars@;
    let ghost text = input.text();
    let flen = fmt_chars.len();
    let mut ii: usize = *i;
    let ghost st1 = ScanState {
        pos: input.spec_pos(),
        date: answer@.date,
        time: answer@.time,
        partials: partials@,
        pad,
    };
    let ghost d0 = spec_scan_directive(fseq.skip(ii as int), text, st1);
    let c2 = fmt_chars[ii];
    proof {
        assert(fseq.skip(ii as int)[0] == c2);
    }
    let mut nd: usize = 9;
    if c2 == '.' {
        // The dot prefix demands a literal dot in the input.
        proof {
            assert(spec_scan_directive(fseq.skip(ii as int), text, st1) == (
            match spec_expect(text, st1.pos, '.') {
                Ok(np) => spec_scan_dot(
                    fseq.skip(ii as int).skip(1),
                    text,
                    ScanState { pos: np, ..st1 },
                ),
                Err(e) => Err(e),
            }));
            assert(fseq.skip(ii as int).skip(1) =~= fseq.skip(ii + 1));
        }
        match input.expect_char('.') {
            Ok(()) => {},
            Err(e) => {
                *i = ii;
                return Err(e);
            },
        }
        ii = ii + 1;
        let ghost std = ScanState {
            pos: input.spec_pos(),
            date: answer@.date,
            time: answer@.time,
            partials: partials@,
            pad,
        };
        proof {
            assert(d0 == spec_scan_dot(fseq.skip(ii as int), text, std));
        }
        if ii == flen {
            proof {
                assert(fseq.skip(ii as int).len() == 0);
            }
            *i = ii;
            return Err(input.err(ErrorKind::InvalidFormat));
        }
        let c3 = fmt_chars[ii];
        proof {
            assert(fseq.skip(ii as int)[0] == c3);
        }
        if c3 == '3' || c3 == '6' || c3 == '9' {
            // A precision digit: only `f` may follow.
            nd = if c3 == '3' {
                3
            } else if c3 == '6' {
                6
            } else {
                9
            };
            proof {
                assert(spec_digit_val(c3) == nd as int);
                assert(spec_scan_dot(fseq.skip(ii as int), text, std) == spec_scan_frac(
                    fseq.skip(ii as int).skip(1),
                    text,
                    std,
                    nd as int,
                ));
                assert(fseq.skip(ii as int).skip(1) =~= fseq.skip(ii + 1));
            }
            ii = ii + 1;
            if ii == flen {
                proof {
                    assert(fseq.skip(ii as int).len() == 0);
                }
                *i = ii;
                return Err(input.err(ErrorKind::InvalidFormat));
            }
            proof {
                assert(fseq.skip(ii as int)[0] == fmt_chars@[ii as int]);
            }
            if fmt_chars[ii] != 'f' {
                *i = ii;
                return Err(input.err(ErrorKind::InvalidFormat));
            }
            proof {
                assert(spec_scan_frac(fseq.skip(ii as int), text, std, nd as int) == (
                match spec_frac_field(text, std, nd as int, frac_scale(nd as int)) {
                    Ok(st2) => spec_scan(fseq.skip(ii as int).skip(1), text, st2),
                    Err(e) => Err(e),
                }));
            }
        } else if c3 == 'f' {
            nd = 9;
            proof {
                assert(spec_scan_dot(fseq.skip(ii as int), text, std) == (
                match spec_frac_field(text, std, 9, 1) {
                    Ok(st2) => spec_scan(fseq.skip(ii as int).skip(1), text, st2),
                    Err(e) => Err(e),
                }));
            }
        } else {
            *i = ii;
            return Err(input.err(ErrorKind::InvalidFormat));
        }
    } else if c2 == 'f' {
        nd = 9;
        proof {
            assert(spec_scan_directive(fseq.skip(ii as int), text, st1) == (
            match spec_frac_field(text, st1, 9, 1) {
                Ok(st2) => spec_scan(fseq.skip(ii as int).skip(1), text, st2),
                Err(e) => Err(e),
            }));
        }
    } else {
        // A precision digit straight after the modifiers: only `f` may
        // follow.
        nd = if c2 == '3' {
            3
        } else if c2 == '6' {
            6
        } else {
            9
        };
        proof {
            assert(spec_digit_val(c2) == nd as int);
            assert(spec_scan_directive(fseq.skip(ii as int), text, st1) == spec_scan_frac(
                fseq.skip(ii as int).skip(1),
                text,
                st1,
                nd as int,
            ));
            assert(fseq.skip(ii as int).skip(1) =~= fseq.skip(ii + 1));
        }
        ii = ii + 1;
        if ii == flen {
            proof {
                assert(fseq.skip(ii as int).len() == 0);
            }
            *i = ii;
            return Err(input.err(ErrorKind::InvalidFormat));
        }
        proof {
            assert(fseq.skip(ii as int)[0] == fmt_chars@[ii as int]);
        }
        if fmt_chars[ii] != 'f' {
            *i = ii;
            return Err(input.err(ErrorKind::InvalidFormat));
        }
        proof {
            assert(spec_scan_frac(fseq.skip(ii as int), text, st1, nd as int) == (
            match spec_frac_field(text, st1, nd as int, frac_scale(nd as int)) {
                Ok(st2) => spec_scan(fseq.skip(ii as int).skip(1), text, st2),
                Err(e) => Err(e),
            }));
        }
    }
    // The next format character is `f`: read the digits.
    let scale: u64 = if nd == 3 {
        1_000_000
    } else if nd == 6 {
        1_000
    } else {
        1
    };
    let ghost stf = ScanState {
        pos: input.spec_pos(),
        date: answer@.date,
        time: answer@.time,
        partials: partials@,
        pad,
    };
    proof {
        assert(scale as int == frac_scale(nd as int));
        assert(fseq.skip(ii as int).skip(1) =~= fseq.skip(ii + 1));
        assert(d0 == (match spec_frac_field(text, stf, nd as int, scale as int) {
            Ok(st2) => spec_scan(fseq.skip(ii + 1), text, st2),
            Err(e) => Err(e),
        }));
    }
    match apply_frac(input, answer, nd, scale) {
        Ok(()) => {
            proof {
                let ff = spec_frac_field(text, stf, nd as int, scale as int);
                assert(ff is Ok);
                assert(ff->Ok_0 == (ScanState {
                    pos: input.spec_pos(),
                    date: answer@.date,
                    time: answer@.time,
                    partials: partials@,
                    pad: None,
                }));
            }
            ii = ii + 1;
            *i = ii;
            Ok(())
        },
        Err(e) => {
            *i = ii;
            Err(e)
        },
    }
}

/// Scan one directive: the padding, prefix and precision modifiers that
/// follow a `%`, then the field they introduce. The position `i` stands just
/// after the `%` and is left just after the directive. The effect is exactly
/// what `spec_scan_directive` says of the state at entry.
#[verifier::rlimit(100)]
fn apply_directive(
    fmt_chars: &Vec<char>,
    i: &mut usize,
    input: &mut Input,
    answer: &mut RawDateTime,
    partials: &mut Partials,
) -> (r: ParseResult<()>)
    requires
        old(input).wf(),
        old(partials).pm_valid(),
        *old(i) <= fmt_chars@.len(),
    ensures
        final(input).wf(),
        final(input).text() == old(input).text(),
        final(partials).pm_valid(),
        final(answer)@.src == old(answer)@.src,
        *old(i) <= *final(i) <= fmt_chars@.len(),
        match r {
            Ok(()) => spec_scan_directive(
                fmt_chars@.skip(*old(i) as int),
                old(input).text(),
                ScanState {
                    pos: old(input).spec_pos(),
                    date: old(answer)@.date,
                    time: old(answer)@.time,
                    partials: old(partials)@,
                    pad: None,
                },
            ) == spec_scan(
                fmt_chars@.skip(*final(i) as int),
                old(input).text(),
                ScanState {
                    pos: final(input).spec_pos(),
                    date: final(answer)@.date,
                    time: final(answer)@.time,
                    partials: final(partials)@,
                    pad: None,
                },
            ),
            Err(e) => ({
                let d = spec_scan_directive(
                    fmt_chars@.skip(*old(i) as int),
                    old(input).text(),
                    ScanState {
                        pos: old(input).spec_pos(),
                        date: old(answer)@.date,
                        time: old(answer)@.time,
                        partials: old(partials)@,
                        pad: None,
                    },
                );
                d is Err && crate::scan::err_matches(e, d->Err_0, old(input).text())
            }),
        },
{
    let ghost fseq = fmt_chars@;
    let ghost text = input.text();
    let flen = fmt_chars.len();
    let mut ii: usize = *i;
    let ghost i0 = ii as int;
    let ghost d0 = spec_scan_directive(
        fseq.skip(i0),
        text,
        ScanState {
            pos: input.spec_pos(),
            date: answer@.date,
            time: answer@.time,
            partials: partials@,
            pad: None,
        },
    );
    // Padding modifiers first.
    let mut pad: Option<char> = None;
    while ii < flen && (fmt_chars[ii] == '-' || fmt_chars[ii] == '0' || fmt_chars[ii] == ' ')
        invariant
            input.wf(),
            input.text() == text,
            fmt_chars@ == fseq,
            flen == fmt_chars@.len(),
            i0 <= ii <= flen,
            partials.pm_valid(),
            answer@.src == old(answer)@.src,
            input.spec_pos() == old(input).spec_pos(),
            answer@ == old(answer)@,
            partials@ == old(partials)@,
            d0 == spec_scan_directive(
                fseq.skip(ii as int),
                text,
                ScanState {
                    pos: input.spec_pos(),
                    date: answer@.date,
                    time: answer@.time,
                    partials: partials@,
                    pad,
                },
            ),
        decreases flen - ii,
    {
        proof {
            assert(fseq.skip(ii as int)[0] == fmt_chars@[ii as int]);
            assert(fseq.skip(ii as int).skip(1) =~= fseq.skip(ii + 1));
        }
        pad = Some(fmt_chars[ii]);
        ii = ii + 1;
    }
    if ii == flen {
        // The format string ended inside a directive.
        proof {
            assert(fseq.skip(ii as int).len() == 0);
        }
        *i = ii;
        return Err(input.err(ErrorKind::InvalidFormat));
    }
    let ghost st1 = ScanState {
        pos: input.spec_pos(),
        date: answer@.date,
        time: answer@.time,
        partials: partials@,
        pad,
    };
    let c2 = fmt_chars[ii];
    proof {
        assert(fseq.skip(ii as int)[0] == c2);
    }
    if c2 == '.' || c2 == '3' || c2 == '6' || c2 == '9' || c2 == 'f' {
        // The fractional-second family.
        let r = scan_frac_directive(fmt_chars, &mut ii, input, answer, partials, pad);
        *i = ii;
        match r {
            Ok(()) => Ok(()),
            Err(e) => Err(e),
        }
    } else {
        // A field directive.
        proof {
            assert(spec_scan_directive(fseq.skip(ii as int), text, st1) == (
            match spec_field(c2, text, st1) {
                Ok(st2) => spec_scan(fseq.skip(ii as int).skip(1), text, st2),
                Err(e) => Err(e),
            }));
            assert(fseq.skip(ii as int).skip(1) =~= fseq.skip(ii + 1));
        }
        match apply_field(c2, input, answer, partials, pad) {
            Ok(()) => {
                proof {
                    let ff = spec_field(c2, text, st1);
                    assert(ff is Ok);
                    assert(ff->Ok_0 == (ScanState {
                        pos: input.spec_pos(),
                        date: answer@.date,
                        time: answer@.time,
                        partials: partials@,
                        pad: None,
                    }));
                }
                ii = ii + 1;
                *i = ii;
                Ok(())
            },
            Err(e) => {
                *i = ii;
                Err(e)
            },
        }
    }
}

/// The not-yet-resolvable fields gathered during one parse: century,
/// two-digit year, 12-hour value, and meridiem offset.
pub(crate) struct Partials {
    century: Option<i16>,
    year_modulo: Option<i16>,
    hour_12: Option<u8>,
    pm: Option<u8>,
}

impl View for Partials {
    type V = PartialsView;

    closed spec fn view(&self) -> PartialsView {
        PartialsView {
            century: match self.century {
                Some(v) => Some(v as int),
                None => None,
            },
            year_modulo: match self.year_modulo {
                Some(v) => Some(v as int),
                None => None,
            },
            hour_12: match self.hour_12 {
                Some(v) => Some(v as int),
                None => None,
            },
            pm: match self.pm {
                Some(v) => Some(v as int),
                None => None,
            },
        }
    }
}

impl Partials {
    /// The meridiem offset can only ever be 0 or 12.
    pub(crate) closed spec fn pm_valid(&self) -> bool {
        match self.pm {
            Some(p) => p == 0 || p == 12,
            None => true,
        }
    }

    fn empty() -> (r: Self)
        ensures
            r@ == (PartialsView { century: None, year_modulo: None, hour_12: None, pm: None }),
            r.pm_valid(),
    {
        Partials { century: None, year_modulo: None, hour_12: None, pm: None }
    }

    /// The full year the partials determine, if any: what
    /// `spec_resolve_year` describes.
    pub(crate) fn year(&self, src: &str, yr: crate::YearResolution) -> (r: ParseResult<
        Option<i16>,
    >)
        ensures
            match spec_resolve_year(self@, yr) {
                Ok(oy) => {
                    &&& r is Ok
                    &&& (r->Ok_0 is Some <==> oy is Some)
                    &&& (r->Ok_0 is Some ==> r->Ok_0->0 as int == oy->Some_0)
                },
                Err(e) => r is Err && crate::scan::err_matches(r->Err_0, e, src@),
            },
    {
        match (self.century, self.year_modulo) {
            (Some(c), Some(m)) => {
                let y = c as i32 * 100 + m as i32;
                if i16::MIN as i32 <= y && y <= i16::MAX as i32 {
                    Ok(Some(y as i16))
                } else {
                    Err(ParseError::new(src, ErrorKind::Unexpected))
                }
            },
            (Some(_), None) => Err(ParseError::new(src, ErrorKind::Ambiguous)),
            (None, Some(m)) => {
                let base = if m >= yr.pivot {
                    yr.base_from_pivot
                } else {
                    yr.base_before_pivot
                };
                let y = base as i32 + m as i32;
                if i16::MIN as i32 <= y && y <= i16::MAX as i32 {
                    Ok(Some(y as i16))
                } else {
                    Err(ParseError::new(src, ErrorKind::Unexpected))
                }
            },
            (None, None) => Ok(None),
        }
    }

    /// The full hour the partials determine, if any: what
    /// `spec_resolve_hour` describes.
    pub(crate) fn hour(&self, src: &str) -> (r: ParseResult<Option<u8>>)
        requires
            self.pm_valid(),
        ensures
            match spec_resolve_hour(self@) {
                Ok(oh) => {
                    &&& r is Ok
                    &&& (r->Ok_0 is Some <==> oh is Some)
                    &&& (r->Ok_0 is Some ==> r->Ok_0->0 as int == oh->Some_0)
                },
                Err(e) => r is Err && crate::scan::err_matches(r->Err_0, e, src@),
            },
    {
        match (self.hour_12, self.pm) {
            (Some(h), Some(p)) => Ok(Some(h % 12 + p)),
            (None, None) => Ok(None),
            _ => Err(ParseError::new(src, ErrorKind::Ambiguous)),
        }
    }
}

/// Apply one field directive, selected by its format letter: what
/// `spec_field` describes. The pending padding modifier is spent on this
/// field.
#[verifier::rlimit(100)]
fn apply_field(
    c: char,
    input: &mut Input,
    answer: &mut RawDateTime,
    partials: &mut Partials,
    pad: Option<char>,
) -> (r: ParseResult<()>)
    requires
        old(input).wf(),
        old(partials).pm_valid(),
    ensures
        final(input).wf(),
        final(input).text() == old(input).text(),
        final(partials).pm_valid(),
        final(answer)@.src == old(answer)@.src,
        match spec_field(
            c,
            old(input).text(),
            ScanState {
                pos: old(input).spec_pos(),
                date: old(answer)@.date,
                time: old(answer)@.time,
                partials: old(partials)@,
                pad,
            },
        ) {
            Ok(st2) => {
                &&& r is Ok
                &&& final(input).spec_pos() == st2.pos
                &&& final(answer)@.date == st2.date
                &&& final(answer)@.time == st2.time
                &&& final(partials)@ == st2.partials
                &&& st2.pad is None
            },
            Err(e) => r is Err && crate::scan::err_matches(r->Err_0, e, old(input).text()),
        },
{
    reveal(crate::scan::spec_field);
    if c == 'Y' {
        match input.parse_int(4, pad, true, i16::MIN as i64, i16::MAX as i64) {
            Ok(v) => {
                answer.set_year(v as i16);
                Ok(())
            },
            Err(e) => Err(e),
        }
    } else if c == 'C' {
        match input.parse_int(2, pad, true, i16::MIN as i64, i16::MAX as i64) {
            Ok(v) => {
                partials.century = Some(v as i16);
                Ok(())
            },
            Err(e) => Err(e),
        }
    } else if c == 'y' {
        match input.parse_int(2, pad, true, i16::MIN as i64, i16::MAX as i64) {
            Ok(v) => {
                partials.year_modulo = Some(v as i16);
                Ok(())
            },
            Err(e) => Err(e),
        }
    } else if c == 'm' {
        match input.parse_int(2, pad, false, 0, u8::MAX as i64) {
            Ok(v) => {
                answer.set_month(v as u8);
                Ok(())
            },
            Err(e) => Err(e),
        }
    } else if c == 'b' || c == 'h' {
        match input.parse_month_abbr() {
            Ok(m) => {
                answer.set_month(m);
                Ok(())
            },
            Err(e) => Err(e),
        }
    } else if c == 'B' {
        match input.parse_month() {
            Ok(m) => {
                answer.set_month(m);
                Ok(())
            },
            Err(e) => Err(e),
        }
    } else if c == 'd' {
        match input.parse_int(2, pad, false, 0, u8::MAX as i64) {
            Ok(v) => {
                answer.set_day(v as u8);
                Ok(())
            },
            Err(e) => Err(e),
        }
    } else if c == 'e' {
        let eff = match pad {
            None => Some(' '),
            Some(p) => Some(p),
        };
        match input.parse_int(2, eff, false, 0, u8::MAX as i64) {
            Ok(v) => {
                answer.set_day(v as u8);
                Ok(())
            },
            Err(e) => Err(e),
        }
    } else if c == 'a' {
        // Weekdays are parsed for validation and consumption, but no date
        // field derives from a weekday alone, so the value is discarded.
        match input.parse_weekday_abbr() {
            Ok(_) => Ok(()),
            Err(e) => Err(e),
        }
    } else if c == 'A' {
        match input.parse_weekday() {
            Ok(_) => Ok(()),
            Err(e) => Err(e),
        }
    } else if c == 'H' {
        match input.parse_int(2, pad, false, 0, u8::MAX as i64) {
            Ok(v) => {
                answer.set_hour(v as u8);
                Ok(())
            },
            Err(e) => Err(e),
        }
    } else if c == 'k' {
        let eff = match pad {
            None => Some(' '),
            Some(p) => Some(p),
        };
        match input.parse_int(2, eff, false, 0, u8::MAX as i64) {
            Ok(v) => {
                answer.set_hour(v as u8);
                Ok(())
            },
            Err(e) => Err(e),
        }
    } else if c == 'I' {
        match input.parse_int(2, pad, false, 0, u8::MAX as i64) {
            Ok(v) => {
                partials.hour_12 = Some(v as u8);
                Ok(())
            },
            Err(e) => Err(e),
        }
    } else if c == 'p' {
        match input.parse_am_pm_upper() {
            Ok(v) => {
                partials.pm = Some(v);
                Ok(())
            },
            Err(e) => Err(e),
        }
    } else if c == 'P' {
        match input.parse_am_pm_lower() {
            Ok(v) => {
                partials.pm = Some(v);
                Ok(())
            },
            Err(e) => Err(e),
        }
    } else if c == 'M' {
        match input.parse_int(2, pad, false, 0, u8::MAX as i64) {
            Ok(v) => {
                answer.set_minute(v as u8);
                Ok(())
            },
            Err(e) => Err(e),
        }
    } else if c == 'S' {
        match input.parse_int(2, pad, false, 0, u8::MAX as i64) {
            Ok(v) => {
                answer.set_second(v as u8);
                Ok(())
            },
            Err(e) => Err(e),
        }
    } else {
        Err(input.err(ErrorKind::InvalidFormat))
    }
}

/// Apply a fractional-second field of `n` zero-padded digits, scaled to
/// nanoseconds: what `spec_frac_field` describes.
fn apply_frac(input: &mut Input, answer: &mut RawDateTime, n: usize, scale: u64) -> (r:
    ParseResult<()>)
    requires
        old(input).wf(),
        n <= 9,
        scale <= 1_000_000,
    ensures
        final(input).wf(),
        final(input).text() == old(input).text(),
        final(answer)@.src == old(answer)@.src,
        final(answer)@.date == old(answer)@.date,
        match spec_int_field(
            old(input).text(),
            old(input).spec_pos(),
            n as int,
            Some('0'),
            false,
            0,
            crate::scan::nano_max(),
        ) {
            Ok((v, np)) => {
                &&& r is Ok
                &&& final(input).spec_pos() == np
                &&& final(answer)@.time == crate::scan::spec_set_nanosecond(
                    old(answer)@.time,
                    v * scale,
                )
            },
            Err(e) => r is Err && crate::scan::err_matches(r->Err_0, e, old(input).text()),
        },
{
    match input.parse_int(n, Some('0'), false, 0, 999_999_999) {
        Ok(v) => {
            proof {
                assert(0 <= v <= 999_999_999);
                vstd::arithmetic::mul::lemma_mul_upper_bound(
                    v as int,
                    999_999_999,
                    scale as int,
                    1_000_000,
                );
            }
            answer.set_nanosecond((v as u64) * scale);
            Ok(())
        },
        Err(e) => Err(e),
    }
}

/// What remains of a weekday's full English name after its abbreviation.
fn weekday_suffix(w: u8) -> (r: Vec<char>)
    requires
        w <= 6,
    ensures
        r@ == crate::scan::spec_weekday_suffix(w as int),
{
    let r: Vec<char> = if w == 0 || w == 1 || w == 5 {
        vec!['d', 'a', 'y']
    } else if w == 2 {
        vec!['s', 'd', 'a', 'y']
    } else if w == 3 {
        vec!['n', 'e', 's', 'd', 'a', 'y']
    } else if w == 4 {
        vec!['r', 's', 'd', 'a', 'y']
    } else if w == 6 {
        vec!['u', 'r', 'd', 'a', 'y']
    } else {
        Vec::new()
    };
    proof {
        assert(r@ =~= crate::scan::spec_weekday_suffix(w as int));
    }
    r
}

} // verus!
