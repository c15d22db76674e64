use vstd::prelude::*;
use chrono::Datelike;
use crate::date::{Date, date_days_of_text, in_calendar, parse_date, sub_days, today};
use crate::text::{all_digits, digits_value, has_prefix};

verus! {

/// How a command-line argument stands to an option `--<name>`.
#[derive(Debug, PartialEq, Eq)]
pub enum ArgForm {
    /// The argument is not this option.
    Other,
    /// The argument is `--<name>`: the value is the next argument.
    Separate,
    /// The argument is `--<name>=<value>` with a value.
    Inline(String),
    /// The argument is `--<name>=` with no value.
    MissingValue,
}

pub open spec fn option_flag(name: Seq<char>) -> Seq<char> {
    "--"@ + name
}

/// Reads an argument against the option `--<name>`.
pub fn check_arg(name: &str, arg: &str) -> (r: ArgForm)
    ensures
        arg@ == option_flag(name@) ==> r == ArgForm::Separate,
        ({
            let p = option_flag(name@) + "="@;
            arg@ != option_flag(name@) && p.len() <= arg@.len() && arg@.subrange(0, p.len() as int) == p
                ==> if arg@.len() > p.len() {
                    r matches ArgForm::Inline(v) && v@ == arg@.subrange(p.len() as int, arg@.len() as int)
                } else {
                    r == ArgForm::MissingValue
                }
        }),
        ({
            let p = option_flag(name@) + "="@;
            arg@ != option_flag(name@) && !(p.len() <= arg@.len() && arg@.subrange(0, p.len() as int) == p)
                ==> r == ArgForm::Other
        }),
{
    let mut flag = String::from_str("--");
    flag.append(name);
    if String::from_str(arg) == flag {
        return ArgForm::Separate;
    }
    let mut with_eq = flag;
    with_eq.append("=");
    if !has_prefix(arg, with_eq.as_str()) {
        return ArgForm::Other;
    }
    let n = arg.unicode_len();
    let k = with_eq.as_str().unicode_len();
    if n > k {
        ArgForm::Inline(String::from_str(arg.substring_char(k, n)))
    } else {
        ArgForm::MissingValue
    }
}

/// The weekday of a day, counted from Monday as 0: day 1, January 1 of
/// year 1, was a Monday.
pub open spec fn weekday_index(days: int) -> int {
    (days - 1) % 7
}

/// The first day of the month of a day, as `chrono` gives it.
pub uninterp spec fn month_start(days: i32) -> i32;

/// Relies on `chrono::NaiveDate::from_num_days_from_ce_opt` and
/// `Weekday::num_days_from_monday`: 0 for Monday up to 6 for Sunday;
/// `None` for a day outside chrono's calendar.
#[verifier::external_body]
fn weekday_from_monday(d: Date) -> (r: Option<u32>)
    ensures
        r.is_some() == in_calendar(d.days as int),
        match r {
            Some(w) => w == weekday_index(d.days as int),
            None => true,
        },
{
    chrono::NaiveDate::from_num_days_from_ce_opt(d.days).map(|x| x.weekday().num_days_from_monday())
}

/// Relies on `chrono::NaiveDate::from_num_days_from_ce_opt` and
/// `Datelike::with_day`: the first day of the month, which every month
/// has; `None` for a day outside chrono's calendar.
#[verifier::external_body]
fn first_of_month(d: Date) -> (r: Option<Date>)
    ensures
        r.is_some() == in_calendar(d.days as int),
        match r {
            Some(x) => x.days == month_start(d.days) && in_calendar(x.days as int),
            None => true,
        },
{
    chrono::NaiveDate::from_num_days_from_ce_opt(d.days)
        .and_then(|x| x.with_day(1))
        .map(|x| Date { days: x.num_days_from_ce() })
}

fn is_word(s: &str, w: &str) -> (r: bool)
    ensures
        r == (s@ == w@),
{
    String::from_str(s) == String::from_str(w)
}

/// A count of days back written `-<digits>`.
pub open spec fn days_back(s: Seq<char>) -> Option<nat> {
    if s.len() > 0 && s[0] == '-' && all_digits(s.subrange(1, s.len() as int)) {
        Some(digits_value(s.subrange(1, s.len() as int)))
    } else {
        None
    }
}

/// Reads a date argument relative to `today`: `today` or `0`, `yesterday`,
/// `week` (the Monday of this week), `month` or `first` (the first of this
/// month), `-<n>` (n days ago), or a date `YYYY-MM-DD`. `None` where the
/// argument is none of these, or the day falls outside the calendar.
pub fn date_from_arg(s: &str, today: Date) -> (r: Option<Date>)
    ensures
        date_from_arg_holds(s@, today, r),
{
    proof {
        reveal_strlit("today");
        reveal_strlit("0");
        reveal_strlit("yesterday");
        reveal_strlit("week");
        reveal_strlit("month");
        reveal_strlit("first");
    }
    if is_word(s, "today") || is_word(s, "0") {
        return Some(today);
    }
    if is_word(s, "yesterday") {
        return sub_days(today, 1);
    }
    if is_word(s, "week") {
        return match weekday_from_monday(today) {
            Some(w) => sub_days(today, w as u64),
            None => None,
        };
    }
    if is_word(s, "month") || is_word(s, "first") {
        return first_of_month(today);
    }
    let n = s.unicode_len();
    if n > 0 && s.get_char(0) == '-' {
        let mut i: usize = 1;
        while i < n && '0' <= s.get_char(i) && s.get_char(i) <= '9'
            invariant
                1 <= i <= n,
                n == s@.len(),
                forall|j: int| 1 <= j < i ==> crate::text::is_digit(#[trigger] s@[j]),
            decreases n - i,
        {
            i = i + 1;
        }
        if i == n && n > 1 {
            let rest = s.substring_char(1, n);
            assert(all_digits(rest@));
            return match crate::text::parse_u32(rest) {
                Some(k) => {
                    proof {
                        assert(rest@.len() == 0 || rest@[0] != '+');
                        assert(rest@[0] == s@[1]);
                    }
                    sub_days(today, k as u64)
                },
                None => {
                    assert(rest@[0] == s@[1]);
                    assert(digits_value(rest@) > u32::MAX);
                    None
                },
            };
        }
        proof {
            if i < n {
                assert(s@.subrange(1, n as int)[i - 1] == s@[i as int]);
            }
        }
    }
    parse_date(s)
}

/// Reads a date argument relative to the current local date.
pub fn to_date(s: String) -> (r: Option<Date>)
    ensures
        exists|t: Date| #[trigger] date_from_arg_holds(s@, t, r),
{
    let t = today();
    date_from_arg(s.as_str(), t)
}

/// The day `n` days before `today`, where both lie in the calendar.
pub open spec fn days_before(today: Date, n: int, r: Option<Date>) -> bool {
    &&& r.is_some() == (in_calendar(today.days as int) && in_calendar(today.days - n))
    &&& r.is_some() ==> r.unwrap().days == today.days - n
}

/// What `date_from_arg` promises of an argument, a day taken as today and
/// its result.
pub open spec fn date_from_arg_holds(s: Seq<char>, today: Date, r: Option<Date>) -> bool {
    &&& (s == "today"@ || s == "0"@) ==> r == Some(today)
    &&& s == "yesterday"@ ==> days_before(today, 1, r)
    &&& s == "week"@ ==> days_before(today, weekday_index(today.days as int), r)
    &&& (s == "month"@ || s == "first"@) ==> r.is_some() == in_calendar(today.days as int)
        && (r.is_some() ==> r.unwrap().days == month_start(today.days))
    &&& !(s == "today"@ || s == "0"@ || s == "yesterday"@ || s == "week"@ || s == "month"@ || s == "first"@)
        ==> match days_back(s) {
        Some(n) => days_before(today, n as int, r),
        None => r == match date_days_of_text(s) {
            Some(x) => Some(Date { days: x }),
            None => None::<Date>,
        },
    }
}

} // verus!
