use vstd::prelude::*;
use chrono::Datelike;

verus! {

/// A calendar day, counted as in `chrono`'s `num_days_from_ce`: day 1 is
/// January 1 of year 1 in the proleptic Gregorian calendar.
#[derive(Clone, Copy, Debug, PartialEq, Eq, Structural)]
pub struct Date {
    pub days: i32,
}

/// The day number of chrono's first day, `NaiveDate::MIN` (January 1 of
/// the year -262143).
pub const MIN_DAYS: i32 = -95746129;

/// The day number of chrono's last day, `NaiveDate::MAX` (December 31 of
/// the year 262142).
pub const MAX_DAYS: i32 = 95745399;

/// The day lies within chrono's calendar.
pub open spec fn in_calendar(days: int) -> bool {
    MIN_DAYS <= days <= MAX_DAYS
}

/// The day that `chrono::NaiveDate::from_str` reads from a text, as its day
/// number, or `None` where it rejects the text.
pub uninterp spec fn date_days_of_text(s: Seq<char>) -> Option<i32>;

/// Relies on `chrono::Local::now`: the current local date. Nothing is known
/// of the value but that, as every `NaiveDate`, it lies in chrono's calendar.
#[verifier::external_body]
pub(crate) fn today() -> (r: Date)
    ensures
        in_calendar(r.days as int),
{
    Date { days: chrono::Local::now().date_naive().num_days_from_ce() }
}

/// Relies on `chrono::NaiveDate::from_str`: reads a `YYYY-MM-DD` date.
#[verifier::external_body]
pub(crate) fn parse_date(s: &str) -> (r: Option<Date>)
    ensures
        match r {
            Some(d) => date_days_of_text(s@) == Some(d.days) && in_calendar(d.days as int),
            None => date_days_of_text(s@).is_none(),
        },
{
    match s.parse::<chrono::NaiveDate>() {
        Ok(d) => Some(Date { days: d.num_days_from_ce() }),
        Err(_) => None,
    }
}

/// Relies on `chrono::NaiveDate::from_num_days_from_ce_opt` and
/// `checked_sub_days`: the day `n` days earlier; `None` exactly where the
/// day or the result falls outside chrono's calendar.
#[verifier::external_body]
pub(crate) fn sub_days(d: Date, n: u64) -> (r: Option<Date>)
    ensures
        r.is_some() == (in_calendar(d.days as int) && in_calendar(d.days - n)),
        match r {
            Some(x) => x.days == d.days - n,
            None => true,
        },
{
    chrono::NaiveDate::from_num_days_from_ce_opt(d.days)
        .and_then(|x| x.checked_sub_days(chrono::Days::new(n)))
        .map(|x| Date { days: x.num_days_from_ce() })
}

/// The text `YYYY-MM-DD` that `chrono` writes for a day.
pub uninterp spec fn iso_date_text(days: i32) -> Seq<char>;

/// Relies on `chrono::NaiveDate::format` with `%Y-%m-%d`: writes the day
/// as `YYYY-MM-DD`; a day outside chrono's calendar gives an empty text.
#[verifier::external_body]
pub fn format_local_date(date: &Date) -> (r: String)
    ensures
        r@ == iso_date_text(date.days),
        !in_calendar(date.days as int) ==> r@.len() == 0,
{
    chrono::NaiveDate::from_num_days_from_ce_opt(date.days)
        .map(|d| d.format("%Y-%m-%d").to_string())
        .unwrap_or_default()
}

/// An inclusive window of days.
#[derive(Clone, Copy, Debug, PartialEq, Eq, Structural)]
pub struct DateRange {
    pub start_date: Date,
    pub end_date: Date,
}

/// The window chosen from an optional start, an optional end and today's
/// date, by the first of five rules that applies.
pub open spec fn resolved_window(start: Option<Date>, end: Option<Date>, today: Date) -> (Date, Date) {
    match (start, end) {
        (Some(s), Some(e)) => (s, e),
        (Some(s), None) => (s, today),
        (None, Some(e)) => if today.days < e.days { (today, e) } else { (e, e) },
        (None, None) => (today, today),
    }
}

/// The given dates are in order: a start given lies on or before the end
/// given, or on or before today when no end is given.
pub open spec fn window_inputs_ordered(start: Option<Date>, end: Option<Date>, today: Date) -> bool {
    match (start, end) {
        (Some(s), Some(e)) => s.days <= e.days,
        (Some(s), None) => s.days <= today.days,
        _ => true,
    }
}

/// How many days before a window's start the ledger is searched, for
/// entries booked late.
pub const LOOKBACK_DAYS: u64 = 14;

impl DateRange {
    pub open spec fn wf(&self) -> bool {
        self.start_date.days <= self.end_date.days
    }

    /// The window in which the ledger is searched for entries of the reports
    /// of this window: it starts `LOOKBACK_DAYS` earlier and ends with it.
    /// `None` exactly where the start, or the day `LOOKBACK_DAYS` before
    /// it, falls outside the calendar.
    pub fn ledger_window(&self) -> (r: Option<DateRange>)
        ensures
            r.is_some() <==> in_calendar(self.start_date.days as int)
                && in_calendar(self.start_date.days - LOOKBACK_DAYS),
            match r {
                Some(w) => w.start_date.days == self.start_date.days - LOOKBACK_DAYS
                    && w.end_date == self.end_date,
                None => true,
            },
    {
        match sub_days(self.start_date, LOOKBACK_DAYS) {
            Some(s) => Some(DateRange { start_date: s, end_date: self.end_date }),
            None => None,
        }
    }

    /// The window for the given dates, taking today's date from the clock.
    pub fn new(start_date: &Option<Date>, end_date: &Option<Date>) -> (r: DateRange)
        ensures
            exists|t: Date| #[trigger] resolved_window(*start_date, *end_date, t) == (r.start_date, r.end_date),
    {
        DateRange::resolve(start_date, end_date, today())
    }

    /// The window for the given dates and today's date. It is well formed
    /// whenever the dates given are not out of order (a start after the end,
    /// or a start after today with no end).
    pub fn resolve(start_date: &Option<Date>, end_date: &Option<Date>, today: Date) -> (r: DateRange)
        ensures
            (r.start_date, r.end_date) == resolved_window(*start_date, *end_date, today),
            window_inputs_ordered(*start_date, *end_date, today) ==> r.wf(),
    {
        match start_date {
            Some(s) => match end_date {
                Some(e) => DateRange { start_date: *s, end_date: *e },
                None => DateRange { start_date: *s, end_date: today },
            },
            None => match end_date {
                Some(e) => {
                    if today.days < e.days {
                        DateRange { start_date: today, end_date: *e }
                    } else {
                        DateRange { start_date: *e, end_date: *e }
                    }
                },
                None => DateRange { start_date: today, end_date: today },
            },
        }
    }
}

} // verus!
