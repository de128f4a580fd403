use vstd::prelude::*;

use crate::error::ErrorKind;
use crate::error::ErrorView;
use crate::scan::date_complete;
use crate::scan::spec_set_day;
use crate::scan::spec_set_hour;
use crate::scan::spec_set_minute;
use crate::scan::spec_set_month;
use crate::scan::spec_set_nanosecond;
use crate::scan::spec_set_second;
use crate::scan::spec_hhmm_to_seconds;
use crate::scan::spec_set_utc_offset;
use crate::scan::spec_set_year;
use crate::scan::DateTimeView;
use crate::scan::DateView;
use crate::scan::TimeView;
use crate::ParseError;
use crate::ParseResult;

verus! {

/// A representation of a raw date: the fields a parse supplied, each present
/// or absent.
#[derive(Clone, Copy, Debug)]
pub struct RawDate {
    pub(crate) year: Option<i16>,
    pub(crate) month: Option<u8>,
    pub(crate) day: Option<u8>,
}

impl View for RawDate {
    type V = DateView;

    closed spec fn view(&self) -> DateView {
        DateView {
            year: match self.year {
                Some(v) => Some(v as int),
                None => None,
            },
            month: match self.month {
                Some(v) => Some(v as int),
                None => None,
            },
            day: match self.day {
                Some(v) => Some(v as int),
                None => None,
            },
        }
    }
}

impl RawDate {
    pub(crate) fn new() -> (r: Self)
        ensures
            r@ == (DateView { year: None, month: None, day: None }),
    {
        RawDate { year: None, month: None, day: None }
    }

    /// The calendar year.
    pub fn year(&self) -> (r: i16)
        requires
            self@.year is Some,
        ensures
            r as int == self@.year->Some_0,
    {
        self.year.unwrap()
    }

    /// The month number, starting at 1 for January.
    pub fn month(&self) -> (r: u8)
        requires
            self@.month is Some,
        ensures
            r as int == self@.month->Some_0,
    {
        self.month.unwrap()
    }

    /// The day of the month, starting at 1.
    pub fn day(&self) -> (r: u8)
        requires
            self@.day is Some,
        ensures
            r as int == self@.day->Some_0,
    {
        self.day.unwrap()
    }

    /// The year, month and day together.
    pub fn ymd(&self) -> (r: (i16, u8, u8))
        requires
            date_complete(self@),
        ensures
            r.0 as int == self@.year->Some_0,
            r.1 as int == self@.month->Some_0,
            r.2 as int == self@.day->Some_0,
    {
        (self.year.unwrap(), self.month.unwrap(), self.day.unwrap())
    }

    pub(crate) fn assert_complete(&self, src: &str) -> (r: ParseResult<()>)
        ensures
            r is Ok <==> date_complete(self@),
            r is Err ==> r->Err_0@ == (ErrorView {
                src: src@,
                index: None,
                kind: ErrorKind::IncompleteDate,
            }),
    {
        if self.year.is_none() || self.month.is_none() || self.day.is_none() {
            Err(ParseError::new(src, ErrorKind::IncompleteDate))
        } else {
            Ok(())
        }
    }
}

/// A representation of time. Fields that were never supplied are zero.
#[derive(Clone, Copy, Debug)]
pub struct RawTime {
    pub(crate) hour: u8,
    pub(crate) minute: u8,
    pub(crate) second: u8,
    pub(crate) nanosecond: u64,
    pub(crate) utc_offset: Option<i64>,
}

impl View for RawTime {
    type V = TimeView;

    closed spec fn view(&self) -> TimeView {
        TimeView {
            hour: self.hour as int,
            minute: self.minute as int,
            second: self.second as int,
            nanosecond: self.nanosecond as int,
            utc_offset: match self.utc_offset {
                Some(v) => Some(v as int),
                None => None,
            },
        }
    }
}

impl RawTime {
    pub(crate) fn zero() -> (r: Self)
        ensures
            r@ == crate::scan::spec_time_zero(),
    {
        RawTime { hour: 0, minute: 0, second: 0, nanosecond: 0, utc_offset: None }
    }

    /// The hour, on the 24-hour clock.
    pub fn hour(&self) -> (r: u8)
        ensures
            r as int == self@.hour,
    {
        self.hour
    }

    /// The minute.
    pub fn minute(&self) -> (r: u8)
        ensures
            r as int == self@.minute,
    {
        self.minute
    }

    /// The second.
    pub fn second(&self) -> (r: u8)
        ensures
            r as int == self@.second,
    {
        self.second
    }

    /// The nanosecond.
    pub fn nanosecond(&self) -> (r: u64)
        ensures
            r as int == self@.nanosecond,
    {
        self.nanosecond
    }

    /// The UTC offset, in seconds, if one was parsed.
    pub fn utc_offset(&self) -> (r: Option<i64>)
        ensures
            r is Some <==> self@.utc_offset is Some,
            r is Some ==> r->0 as int == self@.utc_offset->Some_0,
    {
        self.utc_offset
    }

    /// The hour, minute, second and nanosecond together.
    pub fn hms(&self) -> (r: (u8, u8, u8, u64))
        ensures
            r.0 as int == self@.hour,
            r.1 as int == self@.minute,
            r.2 as int == self@.second,
            r.3 as int == self@.nanosecond,
    {
        (self.hour, self.minute, self.second, self.nanosecond)
    }
}

/// A parsed date and time: an optional date, an optional time, and the
/// original input they were read from.
#[derive(Debug, Clone)]
pub struct RawDateTime {
    pub(crate) src: String,
    pub(crate) date: Option<RawDate>,
    pub(crate) time: Option<RawTime>,
}

impl View for RawDateTime {
    type V = DateTimeView;

    closed spec fn view(&self) -> DateTimeView {
        DateTimeView {
            src: self.src@,
            date: match self.date {
                Some(d) => Some(d@),
                None => None,
            },
            time: match self.time {
                Some(t) => Some(t@),
                None => None,
            },
        }
    }
}

impl RawDateTime {
    pub(crate) fn empty(src: &str) -> (r: Self)
        ensures
            r@ == (DateTimeView { src: src@, date: None, time: None }),
    {
        RawDateTime { src: src.to_owned(), date: None, time: None }
    }

    /// The date, if one was parsed.
    ///
    /// A successful parse guarantees that any date it returns is complete:
    /// year, month and day are all present. This method returns `Result`
    /// rather than `Option` so that callers handling a [`ParseResult`] can
    /// chain it; the only error it returns is `MissingDate`.
    pub fn date(&self) -> (r: ParseResult<RawDate>)
        ensures
            r is Ok <==> self@.date is Some,
            r is Ok ==> r->Ok_0@ == self@.date->Some_0,
            r is Err ==> r->Err_0@ == (ErrorView {
                src: self@.src,
                index: None,
                kind: ErrorKind::MissingDate,
            }),
    {
        match self.date {
            Some(d) => Ok(d),
            None => Err(ParseError::new(self.src.as_str(), ErrorKind::MissingDate)),
        }
    }

    /// The time, if one was parsed. Fields the input omitted are zero.
    ///
    /// This method returns `Result` rather than `Option` so that callers
    /// handling a [`ParseResult`] can chain it; the only error it returns is
    /// `MissingTime`.
    pub fn time(&self) -> (r: ParseResult<RawTime>)
        ensures
            r is Ok <==> self@.time is Some,
            r is Ok ==> r->Ok_0@ == self@.time->Some_0,
            r is Err ==> r->Err_0@ == (ErrorView {
                src: self@.src,
                index: None,
                kind: ErrorKind::MissingTime,
            }),
    {
        match self.time {
            Some(t) => Ok(t),
            None => Err(ParseError::new(self.src.as_str(), ErrorKind::MissingTime)),
        }
    }

    pub(crate) fn assert_complete(&self, src: &str) -> (r: ParseResult<()>)
        ensures
            r is Ok <==> (self@.date is Some ==> date_complete(self@.date->Some_0)),
            r is Err ==> r->Err_0@ == (ErrorView {
                src: src@,
                index: None,
                kind: ErrorKind::IncompleteDate,
            }),
    {
        match &self.date {
            Some(d) => d.assert_complete(src),
            None => Ok(()),
        }
    }

    pub(crate) fn set_year(&mut self, year: i16)
        ensures
            final(self)@ == (DateTimeView { date: spec_set_year(old(self)@.date, year as int), ..old(self)@ }),
    {
        let mut date = match self.date.take() {
            Some(d) => d,
            None => RawDate::new(),
        };
        date.year = Some(year);
        self.date = Some(date);
    }

    pub(crate) fn set_month(&mut self, month: u8)
        ensures
            final(self)@ == (DateTimeView {
                date: spec_set_month(old(self)@.date, month as int),
                ..old(self)@
            }),
    {
        let mut date = match self.date.take() {
            Some(d) => d,
            None => RawDate::new(),
        };
        date.month = Some(month);
        self.date = Some(date);
    }

    pub(crate) fn set_day(&mut self, day: u8)
        ensures
            final(self)@ == (DateTimeView { date: spec_set_day(old(self)@.date, day as int), ..old(self)@ }),
    {
        let mut date = match self.date.take() {
            Some(d) => d,
            None => RawDate::new(),
        };
        date.day = Some(day);
        self.date = Some(date);
    }

    pub(crate) fn set_hour(&mut self, hour: u8)
        ensures
            final(self)@ == (DateTimeView { time: spec_set_hour(old(self)@.time, hour as int), ..old(self)@ }),
    {
        let mut time = match self.time.take() {
            Some(t) => t,
            None => RawTime::zero(),
        };
        time.hour = hour;
        self.time = Some(time);
    }

    pub(crate) fn set_minute(&mut self, minute: u8)
        ensures
            final(self)@ == (DateTimeView {
                time: spec_set_minute(old(self)@.time, minute as int),
                ..old(self)@
            }),
    {
        let mut time = match self.time.take() {
            Some(t) => t,
            None => RawTime::zero(),
        };
        time.minute = minute;
        self.time = Some(time);
    }

    pub(crate) fn set_second(&mut self, second: u8)
        ensures
            final(self)@ == (DateTimeView {
                time: spec_set_second(old(self)@.time, second as int),
                ..old(self)@
            }),
    {
        let mut time = match self.time.take() {
            Some(t) => t,
            None => RawTime::zero(),
        };
        time.second = second;
        self.time = Some(time);
    }

    pub(crate) fn set_nanosecond(&mut self, nanosecond: u64)
        ensures
            final(self)@ == (DateTimeView {
                time: spec_set_nanosecond(old(self)@.time, nanosecond as int),
                ..old(self)@
            }),
    {
        let mut time = match self.time.take() {
            Some(t) => t,
            None => RawTime::zero(),
        };
        time.nanosecond = nanosecond;
        self.time = Some(time);
    }

    /// Store a UTC offset supplied as a signed `HHMM` number, converted to
    /// seconds.
    pub(crate) fn set_utc_offset(&mut self, hhmm: i64)
        requires
            -9999 <= hhmm <= 9999,
        ensures
            final(self)@ == (DateTimeView {
                time: spec_set_utc_offset(old(self)@.time, spec_hhmm_to_seconds(hhmm as int)),
                ..old(self)@
            }),
    {
        let magnitude: i64 = if hhmm < 0 {
            -hhmm
        } else {
            hhmm
        };
        let seconds = (magnitude / 100) * 3600 + (magnitude % 100) * 60;
        let mut time = match self.time.take() {
            Some(t) => t,
            None => RawTime::zero(),
        };
        time.utc_offset = Some(
            if hhmm < 0 {
                -seconds
            } else {
                seconds
            },
        );
        self.time = Some(time);
    }
}

} // verus!
