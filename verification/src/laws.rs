//! Laws of the parser, stated over the model in [`crate::scan`] and proved
//! once and for all.

use vstd::prelude::*;

use crate::error::ErrorKind;

use crate::scan::all_digits;
use crate::scan::digits_val;
use crate::scan::spec_int_field;
use crate::scan::spec_int_of;
use crate::scan::spec_is_digit;
use crate::scan::spec_eq_ci;
use crate::scan::spec_expect;
use crate::scan::spec_field;
use crate::scan::spec_scan;
use crate::scan::spec_scan_directive;
use crate::scan::spec_set_day;
use crate::scan::spec_set_hour;
use crate::scan::spec_set_minute;
use crate::scan::spec_set_month;
use crate::scan::spec_set_second;
use crate::scan::spec_set_year;
use crate::scan::scan_init;
use crate::scan::spec_parse;
use crate::scan::spec_resolve_hour;
use crate::scan::spec_resolve_year;
use crate::scan::frac_scale;
use crate::scan::spec_finish;
use crate::scan::spec_frac_field;
use crate::scan::spec_month_abbr;
use crate::scan::spec_month_field;
use crate::scan::spec_weekday_abbr;
use crate::scan::take_end;
use crate::scan::DateTimeView;
use crate::scan::DateView;
use crate::scan::ScanError;
use crate::scan::PartialsView;
use crate::scan::ScanState;
use crate::scan::TimeView;

verus! {

/// The character of one decimal digit.
pub open spec fn digit_char(d: int) -> char {
    if d == 0 {
        '0'
    } else if d == 1 {
        '1'
    } else if d == 2 {
        '2'
    } else if d == 3 {
        '3'
    } else if d == 4 {
        '4'
    } else if d == 5 {
        '5'
    } else if d == 6 {
        '6'
    } else if d == 7 {
        '7'
    } else if d == 8 {
        '8'
    } else {
        '9'
    }
}

/// The ten-fold powers: how many values `n` decimal digits can write.
pub open spec fn pow10(n: nat) -> int
    decreases n,
{
    if n == 0 {
        1
    } else {
        10 * pow10((n - 1) as nat)
    }
}

/// The number `v` written in exactly `n` decimal digits, zero-padded.
pub open spec fn dec_digits(v: int, n: nat) -> Seq<char>
    decreases n,
{
    if n == 0 {
        seq![]
    } else {
        dec_digits(v / 10, (n - 1) as nat).push(digit_char(v % 10))
    }
}

/// Writing a number in `n` digits and reading the digits back yields the
/// number: the digit string has length `n`, is all digits, and has value
/// `v`.
pub proof fn lemma_dec_digits_val(v: int, n: nat)
    requires
        0 <= v < pow10(n),
    ensures
        dec_digits(v, n).len() == n,
        all_digits(dec_digits(v, n)),
        digits_val(dec_digits(v, n)) == v,
    decreases n,
{
    if n == 0 {
    } else {
        let rest = dec_digits(v / 10, (n - 1) as nat);
        let s = dec_digits(v, n);
        vstd::arithmetic::div_mod::lemma_fundamental_div_mod(v, 10);
        assert(0 <= v / 10 < pow10((n - 1) as nat)) by {
            vstd::arithmetic::div_mod::lemma_div_nonincreasing(v, 10);
            vstd::arithmetic::div_mod::lemma_div_is_ordered(v, pow10(n) - 1, 10);
            assert((10 * pow10((n - 1) as nat) - 1) / 10 == pow10((n - 1) as nat) - 1) by {
                vstd::arithmetic::div_mod::lemma_fundamental_div_mod_converse(
                    10 * pow10((n - 1) as nat) - 1,
                    10,
                    pow10((n - 1) as nat) - 1,
                    9,
                );
            }
            vstd::arithmetic::div_mod::lemma_div_pos_is_pos(v, 10);
        }
        lemma_dec_digits_val(v / 10, (n - 1) as nat);
        assert(s.drop_last() =~= rest);
        assert(s.last() == digit_char(v % 10));
        assert(spec_is_digit(digit_char(v % 10)));
        assert(crate::scan::spec_digit_val(digit_char(v % 10)) == v % 10);
        assert(digits_val(s) == digits_val(rest) * 10 + v % 10);
        assert(forall|i: int| 0 <= i < s.len() ==> spec_is_digit(#[trigger] s[i])) by {
            assert(forall|i: int|
                0 <= i < rest.len() ==> s[i] == #[trigger] rest[i] && spec_is_digit(rest[i]));
        }
    }
}

/// A zero-padded integer field over exactly the digits of `v` reads back
/// `v` and consumes exactly the digits.
pub proof fn lemma_int_field_digits(
    s: Seq<char>,
    pos: int,
    n: nat,
    v: int,
    pad: Option<char>,
    signed: bool,
    min: int,
    max: int,
)
    requires
        0 <= pos,
        pos + n <= s.len(),
        s.subrange(pos, pos + n) == dec_digits(v, n),
        0 <= v < pow10(n),
        n > 0,
        min <= v <= max,
        pad != Some('-'),
        pad != Some(' '),
    ensures
        spec_int_field(s, pos, n as int, pad, signed, min, max) == Ok::<(int, int), ScanError>(
            (v, pos + n),
        ),
{
    lemma_dec_digits_val(v, n);
    let taken = s.subrange(pos, take_end(s, pos, n as int));
    assert(take_end(s, pos, n as int) == pos + n);
    assert(taken == dec_digits(v, n));
    assert(taken[0] == dec_digits(v, n)[0]);
    assert(spec_is_digit(taken[0]));
    assert(taken[0] != '+' && taken[0] != '-');
    assert(spec_int_of(taken, signed, min, max) == Some(v));
}

/// The first few ten-fold powers, written out.
pub proof fn lemma_pow10_small()
    ensures
        pow10(0) == 1,
        pow10(1) == 10,
        pow10(2) == 100,
        pow10(3) == 1000,
        pow10(4) == 10000,
        pow10(6) == 1_000_000,
        pow10(9) == 1_000_000_000,
{
    assert(pow10(0) == 1);
    assert(pow10(1) == 10);
    assert(pow10(2) == 100);
    assert(pow10(3) == 1000);
    assert(pow10(4) == 10000);
    assert(pow10(5) == 100_000);
    assert(pow10(6) == 1_000_000);
    assert(pow10(7) == 10_000_000);
    assert(pow10(8) == 100_000_000);
    assert(pow10(9) == 1_000_000_000);
}

/// One scan step over a literal format character that the input matches.
proof fn lemma_scan_literal_step(f: Seq<char>, s: Seq<char>, st: ScanState)
    requires
        f.len() > 0,
        f[0] != '%',
        0 <= st.pos < s.len(),
        s[st.pos] == f[0],
    ensures
        spec_scan(f, s, st) == spec_scan(f.skip(1), s, (ScanState { pos: st.pos + 1, ..st })),
{
    assert(spec_expect(s, st.pos, f[0]) == Ok::<int, ScanError>(st.pos + 1));
}

/// One scan step over a field directive `%c` whose field succeeds.
proof fn lemma_scan_field_step(f: Seq<char>, s: Seq<char>, st: ScanState)
    requires
        f.len() >= 2,
        f[0] == '%',
        f[1] != '%' && f[1] != '-' && f[1] != '0' && f[1] != ' ' && f[1] != '.' && f[1] != '3'
            && f[1] != '6' && f[1] != '9' && f[1] != 'f',
        spec_field(f[1], s, st) is Ok,
    ensures
        spec_scan(f, s, st) == spec_scan(f.skip(2), s, spec_field(f[1], s, st)->Ok_0),
{
    assert(spec_scan(f, s, st) == spec_scan_directive(f.skip(1), s, st));
    assert(f.skip(1)[0] == f[1]);
    assert(spec_scan_directive(f.skip(1), s, st) == spec_scan(
        f.skip(1).skip(1),
        s,
        spec_field(f[1], s, st)->Ok_0,
    ));
    assert(f.skip(1).skip(1) =~= f.skip(2));
}

/// The scan step for a four-digit year directive `%Y` over exactly the
/// digits of `y`.
proof fn lemma_scan_year_step(f: Seq<char>, s: Seq<char>, st: ScanState, y: int)
    requires
        f.len() >= 2,
        f[0] == '%',
        f[1] == 'Y',
        st.pad is None,
        0 <= st.pos,
        st.pos + 4 <= s.len(),
        s.subrange(st.pos, st.pos + 4) == dec_digits(y, 4),
        0 <= y <= 9999,
    ensures
        spec_scan(f, s, st) == spec_scan(
            f.skip(2),
            s,
            (ScanState { pos: st.pos + 4, date: spec_set_year(st.date, y), pad: None, ..st }),
        ),
{
    reveal(crate::scan::spec_field);
    lemma_pow10_small();
    lemma_int_field_digits(s, st.pos, 4, y, None, true, i16::MIN as int, i16::MAX as int);
    lemma_scan_field_step(f, s, st);
}

/// The scan step for a two-digit numeric field directive over exactly the
/// digits of `v`: the month, day, hour, minute and second directives.
proof fn lemma_scan_two_digit_step(f: Seq<char>, s: Seq<char>, st: ScanState, v: int)
    requires
        f.len() >= 2,
        f[0] == '%',
        f[1] == 'm' || f[1] == 'd' || f[1] == 'H' || f[1] == 'M' || f[1] == 'S',
        st.pad is None,
        0 <= st.pos,
        st.pos + 2 <= s.len(),
        s.subrange(st.pos, st.pos + 2) == dec_digits(v, 2),
        0 <= v <= 99,
    ensures
        spec_scan(f, s, st) == spec_scan(
            f.skip(2),
            s,
            (ScanState {
                pos: st.pos + 2,
                date: if f[1] == 'm' {
                    spec_set_month(st.date, v)
                } else if f[1] == 'd' {
                    spec_set_day(st.date, v)
                } else {
                    st.date
                },
                time: if f[1] == 'H' {
                    spec_set_hour(st.time, v)
                } else if f[1] == 'M' {
                    spec_set_minute(st.time, v)
                } else if f[1] == 'S' {
                    spec_set_second(st.time, v)
                } else {
                    st.time
                },
                pad: None,
                ..st
            }),
        ),
{
    reveal(crate::scan::spec_field);
    lemma_pow10_small();
    lemma_int_field_digits(s, st.pos, 2, v, None, false, 0, u8::MAX as int);
    lemma_scan_field_step(f, s, st);
}

/// The format string `%Y-%m-%d`, as characters.
pub open spec fn iso_date_format() -> Seq<char> {
    seq!['%', 'Y', '-', '%', 'm', '-', '%', 'd']
}

/// A date written as `YYYY-MM-DD` with zero-padded fields.
pub open spec fn iso_date_text(y: int, m: int, d: int) -> Seq<char> {
    dec_digits(y, 4) + seq!['-'] + dec_digits(m, 2) + seq!['-'] + dec_digits(d, 2)
}

/// The format string `%Y-%m-%d %H:%M:%S`, as characters.
pub open spec fn iso_datetime_format() -> Seq<char> {
    seq!['%', 'Y', '-', '%', 'm', '-', '%', 'd', ' ', '%', 'H', ':', '%', 'M', ':', '%', 'S']
}

/// A date and time written as `YYYY-MM-DD hh:mm:ss` with zero-padded fields.
pub open spec fn iso_datetime_text(y: int, m: int, d: int, h: int, mi: int, s: int) -> Seq<char> {
    iso_date_text(y, m, d) + seq![' '] + dec_digits(h, 2) + seq![':'] + dec_digits(mi, 2)
        + seq![':'] + dec_digits(s, 2)
}

/// Every valid date, formatted as `YYYY-MM-DD` with zero-padded fields and
/// parsed back with `%Y-%m-%d`, yields exactly that date, whatever the
/// year-resolution rule.
pub proof fn lemma_iso_date_round_trip(y: int, m: int, d: int, yr: crate::YearResolution)
    requires
        0 <= y <= 9999,
        1 <= m <= 12,
        1 <= d <= 31,
    ensures
        spec_parse(iso_date_format(), iso_date_text(y, m, d), yr) == Ok::<
            DateTimeView,
            ScanError,
        >(
            DateTimeView {
                src: iso_date_text(y, m, d),
                date: Some(DateView { year: Some(y), month: Some(m), day: Some(d) }),
                time: None,
            },
        ),
{
    let f = iso_date_format();
    let text = iso_date_text(y, m, d);
    lemma_pow10_small();
    lemma_dec_digits_val(y, 4);
    lemma_dec_digits_val(m, 2);
    lemma_dec_digits_val(d, 2);
    assert(text.len() == 10);
    assert(text.subrange(0, 4) =~= dec_digits(y, 4));
    assert(text[4] == '-');
    assert(text.subrange(5, 7) =~= dec_digits(m, 2));
    assert(text[7] == '-');
    assert(text.subrange(8, 10) =~= dec_digits(d, 2));
    let st0 = scan_init();
    lemma_scan_year_step(f, text, st0, y);
    let st1 = ScanState { pos: 4, date: spec_set_year(st0.date, y), pad: None, ..st0 };
    assert(f.skip(2)[0] == f[2]);
    lemma_scan_literal_step(f.skip(2), text, st1);
    assert(f.skip(2).skip(1) =~= f.skip(3));
    let st2 = ScanState { pos: 5, ..st1 };
    lemma_scan_two_digit_step(f.skip(3), text, st2, m);
    assert(f.skip(3).skip(2) =~= f.skip(5));
    let st3 = ScanState { pos: 7, date: spec_set_month(st2.date, m), ..st2 };
    assert(f.skip(5)[0] == f[5]);
    lemma_scan_literal_step(f.skip(5), text, st3);
    assert(f.skip(5).skip(1) =~= f.skip(6));
    let st4 = ScanState { pos: 8, ..st3 };
    lemma_scan_two_digit_step(f.skip(6), text, st4, d);
    assert(f.skip(6).skip(2) =~= f.skip(8));
    let st5 = ScanState { pos: 10, date: spec_set_day(st4.date, d), ..st4 };
    assert(f.skip(8).len() == 0);
    assert(spec_scan(f, text, st0) == Ok::<ScanState, ScanError>(st5));
    assert(spec_resolve_year(st5.partials, yr) == Ok::<Option<int>, ScanError>(None));
    assert(spec_resolve_hour(st5.partials) == Ok::<Option<int>, ScanError>(None));
}

/// Round trip: every valid date and time, formatted as
/// `YYYY-MM-DD hh:mm:ss` with zero-padded fields and parsed back with
/// `%Y-%m-%d %H:%M:%S`, reproduces the original values exactly, whatever
/// the year-resolution rule.
pub proof fn lemma_iso_datetime_round_trip(
    y: int,
    m: int,
    d: int,
    h: int,
    mi: int,
    s: int,
    yr: crate::YearResolution,
)
    requires
        0 <= y <= 9999,
        1 <= m <= 12,
        1 <= d <= 31,
        0 <= h <= 23,
        0 <= mi <= 59,
        0 <= s <= 59,
    ensures
        spec_parse(iso_datetime_format(), iso_datetime_text(y, m, d, h, mi, s), yr) == Ok::<
            DateTimeView,
            ScanError,
        >(
            DateTimeView {
                src: iso_datetime_text(y, m, d, h, mi, s),
                date: Some(DateView { year: Some(y), month: Some(m), day: Some(d) }),
                time: Some(
                    TimeView { hour: h, minute: mi, second: s, nanosecond: 0, utc_offset: None },
                ),
            },
        ),
{
    let f = iso_datetime_format();
    let text = iso_datetime_text(y, m, d, h, mi, s);
    lemma_pow10_small();
    lemma_dec_digits_val(y, 4);
    lemma_dec_digits_val(m, 2);
    lemma_dec_digits_val(d, 2);
    lemma_dec_digits_val(h, 2);
    lemma_dec_digits_val(mi, 2);
    lemma_dec_digits_val(s, 2);
    assert(text.len() == 19);
    assert(text.subrange(0, 4) =~= dec_digits(y, 4));
    assert(text[4] == '-');
    assert(text.subrange(5, 7) =~= dec_digits(m, 2));
    assert(text[7] == '-');
    assert(text.subrange(8, 10) =~= dec_digits(d, 2));
    assert(text[10] == ' ');
    assert(text.subrange(11, 13) =~= dec_digits(h, 2));
    assert(text[13] == ':');
    assert(text.subrange(14, 16) =~= dec_digits(mi, 2));
    assert(text[16] == ':');
    assert(text.subrange(17, 19) =~= dec_digits(s, 2));
    let st0 = scan_init();
    lemma_scan_year_step(f, text, st0, y);
    let st1 = ScanState { pos: 4, date: spec_set_year(st0.date, y), pad: None, ..st0 };
    assert(f.skip(2)[0] == f[2]);
    lemma_scan_literal_step(f.skip(2), text, st1);
    assert(f.skip(2).skip(1) =~= f.skip(3));
    let st2 = ScanState { pos: 5, ..st1 };
    lemma_scan_two_digit_step(f.skip(3), text, st2, m);
    assert(f.skip(3).skip(2) =~= f.skip(5));
    let st3 = ScanState { pos: 7, date: spec_set_month(st2.date, m), ..st2 };
    assert(f.skip(5)[0] == f[5]);
    lemma_scan_literal_step(f.skip(5), text, st3);
    assert(f.skip(5).skip(1) =~= f.skip(6));
    let st4 = ScanState { pos: 8, ..st3 };
    lemma_scan_two_digit_step(f.skip(6), text, st4, d);
    assert(f.skip(6).skip(2) =~= f.skip(8));
    let st5 = ScanState { pos: 10, date: spec_set_day(st4.date, d), ..st4 };
    assert(f.skip(8)[0] == f[8]);
    lemma_scan_literal_step(f.skip(8), text, st5);
    assert(f.skip(8).skip(1) =~= f.skip(9));
    let st6 = ScanState { pos: 11, ..st5 };
    lemma_scan_two_digit_step(f.skip(9), text, st6, h);
    assert(f.skip(9).skip(2) =~= f.skip(11));
    let st7 = ScanState { pos: 13, time: spec_set_hour(st6.time, h), ..st6 };
    assert(f.skip(11)[0] == f[11]);
    lemma_scan_literal_step(f.skip(11), text, st7);
    assert(f.skip(11).skip(1) =~= f.skip(12));
    let st8 = ScanState { pos: 14, ..st7 };
    lemma_scan_two_digit_step(f.skip(12), text, st8, mi);
    assert(f.skip(12).skip(2) =~= f.skip(14));
    let st9 = ScanState { pos: 16, time: spec_set_minute(st8.time, mi), ..st8 };
    assert(f.skip(14)[0] == f[14]);
    lemma_scan_literal_step(f.skip(14), text, st9);
    assert(f.skip(14).skip(1) =~= f.skip(15));
    let st10 = ScanState { pos: 17, ..st9 };
    lemma_scan_two_digit_step(f.skip(15), text, st10, s);
    assert(f.skip(15).skip(2) =~= f.skip(17));
    let st11 = ScanState { pos: 19, time: spec_set_second(st10.time, s), ..st10 };
    assert(f.skip(17).len() == 0);
    assert(spec_scan(f, text, st0) == Ok::<ScanState, ScanError>(st11));
    assert(spec_resolve_year(st11.partials, yr) == Ok::<Option<int>, ScanError>(None));
    assert(spec_resolve_hour(st11.partials) == Ok::<Option<int>, ScanError>(None));
}

/// True when `a` and `b` are the same character up to ASCII case: equal, or
/// the uppercase and lowercase forms of one ASCII letter.
pub open spec fn same_letter_ci(a: char, b: char) -> bool {
    ||| a == b
    ||| (a as int == b as int + 32 && 'A' <= b && b <= 'Z')
    ||| (b as int == a as int + 32 && 'A' <= a && a <= 'Z')
}

/// Characters that agree up to ASCII case match the same lowercase pattern
/// letters.
proof fn lemma_eq_ci_same_letter(a: char, b: char, p: char)
    requires
        same_letter_ci(a, b),
        'a' <= p && p <= 'z',
    ensures
        spec_eq_ci(a, p) == spec_eq_ci(b, p),
{
}

/// Month-abbreviation matching ignores ASCII case: inputs that agree up to
/// ASCII case name the same month, or both name none.
pub proof fn lemma_month_abbr_ignores_ascii_case(s: Seq<char>, t: Seq<char>)
    requires
        s.len() == t.len(),
        forall|i: int| 0 <= i < s.len() ==> same_letter_ci(#[trigger] s[i], #[trigger] t[i]),
    ensures
        spec_month_abbr(s) == spec_month_abbr(t),
{
    if s.len() == 3 {
        assert forall|p: char| 'a' <= p && p <= 'z' implies (spec_eq_ci(s[0], p) == spec_eq_ci(
            t[0],
            p,
        )) && (spec_eq_ci(s[1], p) == spec_eq_ci(t[1], p)) && (spec_eq_ci(s[2], p) == spec_eq_ci(
            t[2],
            p,
        )) by {
            lemma_eq_ci_same_letter(s[0], t[0], p);
            lemma_eq_ci_same_letter(s[1], t[1], p);
            lemma_eq_ci_same_letter(s[2], t[2], p);
        }
    }
}

/// Weekday-abbreviation matching ignores ASCII case in the same way.
pub proof fn lemma_weekday_abbr_ignores_ascii_case(s: Seq<char>, t: Seq<char>)
    requires
        s.len() == t.len(),
        forall|i: int| 0 <= i < s.len() ==> same_letter_ci(#[trigger] s[i], #[trigger] t[i]),
    ensures
        spec_weekday_abbr(s) == spec_weekday_abbr(t),
{
    if s.len() == 3 {
        assert forall|p: char| 'a' <= p && p <= 'z' implies (spec_eq_ci(s[0], p) == spec_eq_ci(
            t[0],
            p,
        )) && (spec_eq_ci(s[1], p) == spec_eq_ci(t[1], p)) && (spec_eq_ci(s[2], p) == spec_eq_ci(
            t[2],
            p,
        )) by {
            lemma_eq_ci_same_letter(s[0], t[0], p);
            lemma_eq_ci_same_letter(s[1], t[1], p);
            lemma_eq_ci_same_letter(s[2], t[2], p);
        }
    }
}

/// A full month name is accepted as soon as its three-letter abbreviation
/// matches: the rest of the name only extends the match, up to the point of
/// mismatch, and never rejects the input. Both readings name the same
/// month.
pub proof fn lemma_full_month_name_accepts_abbreviation(s: Seq<char>, pos: int)
    ensures
        spec_month_field(s, pos, true) is Ok <==> spec_month_field(s, pos, false) is Ok,
        spec_month_field(s, pos, true) is Ok ==> spec_month_field(s, pos, true)->Ok_0.0
            == spec_month_field(s, pos, false)->Ok_0.0,
{
}

/// How a 12-hour value and a meridiem resolve: morning hours stay, noon's
/// `12 AM` is hour 0, afternoon hours gain 12, and `12 PM` is hour 12. The
/// resolved hour always lies on the 24-hour clock.
pub proof fn lemma_meridiem_resolution(p: PartialsView, h: int, pm: int)
    requires
        p.hour_12 == Some(h),
        p.pm == Some(pm),
        1 <= h <= 12,
        pm == 0 || pm == 12,
    ensures
        spec_resolve_hour(p) is Ok,
        spec_resolve_hour(p)->Ok_0 is Some,
        1 <= h <= 11 && pm == 0 ==> spec_resolve_hour(p)->Ok_0->Some_0 == h,
        h == 12 && pm == 0 ==> spec_resolve_hour(p)->Ok_0->Some_0 == 0,
        1 <= h <= 11 && pm == 12 ==> spec_resolve_hour(p)->Ok_0->Some_0 == h + 12,
        h == 12 && pm == 12 ==> spec_resolve_hour(p)->Ok_0->Some_0 == 12,
        0 <= spec_resolve_hour(p)->Ok_0->Some_0 <= 23,
{
}

/// A fractional-second field of 3, 6 or 9 digits scales its value to
/// nanoseconds: milliseconds gain a factor of a million, microseconds a
/// factor of a thousand, and nine digits are nanoseconds as written. The
/// result always lies below one second.
pub proof fn lemma_fractional_second_scaling(s: Seq<char>, st: ScanState, v: int, n: nat)
    requires
        n == 3 || n == 6 || n == 9,
        0 <= st.pos,
        st.pos + n <= s.len(),
        s.subrange(st.pos, st.pos + n) == dec_digits(v, n),
        0 <= v < pow10(n),
    ensures
        spec_frac_field(s, st, n as int, frac_scale(n as int)) == Ok::<ScanState, ScanError>(
            ScanState {
                pos: st.pos + n,
                time: crate::scan::spec_set_nanosecond(st.time, v * frac_scale(n as int)),
                pad: None,
                ..st
            },
        ),
        0 <= v * frac_scale(n as int) < 1_000_000_000,
{
    lemma_pow10_small();
    lemma_int_field_digits(s, st.pos, n, v, Some('0'), false, 0, crate::scan::nano_max());
}

/// A century without a year remainder leaves the year undetermined: the
/// parse is rejected as ambiguous, whatever else was supplied.
pub proof fn lemma_century_alone_is_ambiguous(s: Seq<char>, st: ScanState, yr: crate::YearResolution)
    requires
        st.partials.century is Some,
        st.partials.year_modulo is None,
    ensures
        spec_finish(s, st, yr) == Err::<DateTimeView, ScanError>(
            ScanError { kind: ErrorKind::Ambiguous, index: None },
        ),
{
}

/// A 12-hour value without a meridiem, or a meridiem without a 12-hour
/// value, leaves the hour undetermined: the parse is rejected as ambiguous.
pub proof fn lemma_lone_meridiem_partial_is_ambiguous(
    s: Seq<char>,
    st: ScanState,
    yr: crate::YearResolution,
)
    requires
        st.partials.century is None,
        st.partials.year_modulo is None,
        st.partials.hour_12 is Some <==> st.partials.pm is None,
    ensures
        spec_finish(s, st, yr) == Err::<DateTimeView, ScanError>(
            ScanError { kind: ErrorKind::Ambiguous, index: None },
        ),
{
}

/// A date that ends up only partially populated is rejected as incomplete:
/// if any of year, month and day is present, all three must be.
pub proof fn lemma_partial_date_is_incomplete(s: Seq<char>, st: ScanState, yr: crate::YearResolution)
    requires
        st.partials.century is None,
        st.partials.year_modulo is None,
        st.date is Some,
        !crate::scan::date_complete(st.date->Some_0),
        st.partials.hour_12 is Some <==> st.partials.pm is Some,
    ensures
        spec_finish(s, st, yr) == Err::<DateTimeView, ScanError>(
            ScanError { kind: ErrorKind::IncompleteDate, index: None },
        ),
{
}

/// A successful parse never exposes a partial date: the result either holds
/// no date at all, or a date whose year, month and day are all present. The
/// result also carries the original input unchanged.
pub proof fn lemma_successful_parse_date_complete(
    fmt: Seq<char>,
    s: Seq<char>,
    yr: crate::YearResolution,
)
    ensures
        match spec_parse(fmt, s, yr) {
            Ok(dtv) => (dtv.date is Some ==> crate::scan::date_complete(dtv.date->Some_0))
                && dtv.src == s,
            Err(_) => true,
        },
{
}

/// A parse that populated no date field is never rejected as incomplete:
/// time fields default to zero and demand no completeness check.
pub proof fn lemma_time_only_never_incomplete(s: Seq<char>, st: ScanState, yr: crate::YearResolution)
    requires
        st.date is None,
        st.partials.century is None,
        st.partials.year_modulo is None,
    ensures
        match spec_finish(s, st, yr) {
            Ok(_) => true,
            Err(e) => e.kind != ErrorKind::IncompleteDate,
        },
{
}

} // verus!
