//! Dates and times of day as the interface reads and writes them.

use vstd::prelude::*;
use crate::ext::{format_ymd, local_today, push_char, ymd_text};
use crate::ui::components::dialogs::common::chars_of;
use crate::ui::app_core::actions::TaskDueDate;

verus! {

/// The value of a decimal digit character.
pub open spec fn digit_value(c: char) -> int {
    c as int - 48
}

pub open spec fn is_digit(c: char) -> bool {
    '0' <= c <= '9'
}

/// The number written by one or two digits.
pub open spec fn digits_value(d: Seq<char>) -> int {
    if d.len() == 1 { digit_value(d[0]) } else { 10 * digit_value(d[0]) + digit_value(d[1]) }
}

/// Whether a text is one or two digits.
pub open spec fn short_number(d: Seq<char>) -> bool {
    1 <= d.len() <= 2 && forall|i: int| 0 <= i < d.len() ==> is_digit(#[trigger] d[i])
}

/// The clock hour and minute of an hour text with optional `:MM`.
pub open spec fn hour_minute(s: Seq<char>) -> Option<(int, int)> {
    if short_number(s) {
        Some((digits_value(s), 0))
    } else if s.len() >= 4 && s[s.len() - 3] == ':' && short_number(s.subrange(0, s.len() - 3))
        && is_digit(s[s.len() - 2]) && is_digit(s[s.len() - 1]) {
        Some((digits_value(s.subrange(0, s.len() - 3)), digits_value(s.subrange(s.len() - 2, s.len() as int))))
    } else {
        None
    }
}

/// Whether the text ends in `am` or `pm` in either letter case, and which.
pub open spec fn meridiem_of(s: Seq<char>) -> Option<bool> {
    if s.len() >= 2 && (s[s.len() - 1] == 'm' || s[s.len() - 1] == 'M') {
        if s[s.len() - 2] == 'a' || s[s.len() - 2] == 'A' {
            Some(false)
        } else if s[s.len() - 2] == 'p' || s[s.len() - 2] == 'P' {
            Some(true)
        } else {
            None
        }
    } else {
        None
    }
}

/// The 24-hour time of day that a text names: `3pm`, `3:30pm`, `12am` (midnight) on a
/// 12-hour clock, or `15`, `15:30` on a 24-hour clock; spaces around it are ignored.
pub open spec fn time_of_day(text: Seq<char>) -> Option<(int, int)> {
    let s = trim_spaces(text);
    match meridiem_of(s) {
        Some(pm) => match hour_minute(trim_spaces(s.subrange(0, s.len() - 2))) {
            Some((h, m)) => if 1 <= h <= 12 && m < 60 {
                Some((if h == 12 { if pm { 12 } else { 0 } } else if pm { h + 12 } else { h }, m))
            } else {
                None
            },
            None => None,
        },
        None => match hour_minute(s) {
            Some((h, m)) => if h < 24 && m < 60 { Some((h, m)) } else { None },
            None => None,
        },
    }
}

/// The text without leading and trailing spaces.
pub open spec fn trim_spaces(s: Seq<char>) -> Seq<char>
    decreases s.len(),
{
    if s.len() > 0 && s[0] == ' ' {
        trim_spaces(s.drop_first())
    } else if s.len() > 0 && s.last() == ' ' {
        trim_spaces(s.drop_last())
    } else {
        s
    }
}

/// Two digits of a number below 100.
pub open spec fn two_digits(n: int) -> Seq<char> {
    seq![(48 + n / 10) as char, (48 + n % 10) as char]
}

/// The local date-time text `YYYY-MM-DDTHH:MM:00` of a time on a day.
pub open spec fn local_datetime_text(day: int, hour: int, minute: int) -> Seq<char> {
    ymd_text(day) + seq!['T'] + two_digits(hour) + seq![':'] + two_digits(minute) + seq![':', '0', '0']
}

/// The message for a time of day that cannot be read.
pub open spec fn invalid_time_message(text: Seq<char>) -> Seq<char> {
    "Invalid time '"@ + text + "'. Use a time like 3pm, 3:30pm or 15:30."@
}

fn trim_spaces_exec(v: &Vec<char>) -> (r: Vec<char>)
    ensures
        r@ == trim_spaces(v@),
{
    let mut lo: usize = 0;
    let mut hi: usize = v.len();
    proof {
        assert(v@.subrange(0, v@.len() as int) =~= v@);
    }
    while lo < hi && (v[lo] == ' ' || v[hi - 1] == ' ')
        invariant
            lo <= hi <= v@.len(),
            trim_spaces(v@) == trim_spaces(v@.subrange(lo as int, hi as int)),
        decreases hi - lo,
    {
        let ghost s = v@.subrange(lo as int, hi as int);
        if v[lo] == ' ' {
            proof {
                assert(s.drop_first() =~= v@.subrange(lo + 1, hi as int));
            }
            lo = lo + 1;
        } else {
            proof {
                assert(s.drop_last() =~= v@.subrange(lo as int, hi - 1));
            }
            hi = hi - 1;
        }
    }
    let mut out: Vec<char> = Vec::new();
    let mut i: usize = lo;
    while i < hi
        invariant
            lo <= i <= hi <= v@.len(),
            out@ == v@.subrange(lo as int, i as int),
        decreases hi - i,
    {
        out.push(v[i]);
        proof {
            assert(v@.subrange(lo as int, i + 1) =~= v@.subrange(lo as int, i as int).push(v@[i as int]));
        }
        i = i + 1;
    }
    out
}

fn is_digit_exec(c: char) -> (b: bool)
    ensures
        b == is_digit(c),
{
    '0' <= c && c <= '9'
}

fn digit_exec(c: char) -> (n: u32)
    requires
        is_digit(c),
    ensures
        n == digit_value(c),
        n < 10,
{
    (c as u32) - 48
}

/// One or two digits, read as a number.
fn short_number_exec(v: &Vec<char>, lo: usize, hi: usize) -> (r: Option<u32>)
    requires
        lo <= hi <= v@.len(),
    ensures
        match r {
            Some(n) => short_number(v@.subrange(lo as int, hi as int)) && n == digits_value(v@.subrange(lo as int, hi as int)),
            None => !short_number(v@.subrange(lo as int, hi as int)),
        },
{
    let ghost d = v@.subrange(lo as int, hi as int);
    if hi - lo == 1 {
        if is_digit_exec(v[lo]) {
            assert(d[0] == v@[lo as int]);
            return Some(digit_exec(v[lo]));
        }
        assert(!is_digit(d[0]));
        return None;
    }
    if hi - lo == 2 {
        if is_digit_exec(v[lo]) && is_digit_exec(v[lo + 1]) {
            assert(d[0] == v@[lo as int] && d[1] == v@[lo + 1]);
            assert forall|i: int| 0 <= i < d.len() implies is_digit(#[trigger] d[i]) by {
                assert(d[i] == v@[lo + i]);
            }
            return Some(10 * digit_exec(v[lo]) + digit_exec(v[lo + 1]));
        }
        assert(!is_digit(d[0]) || !is_digit(d[1]));
        return None;
    }
    None
}

/// The hour and minute of `v[lo..hi]` in the `H`, `HH`, `H:MM` or `HH:MM` form.
fn hour_minute_exec(v: &Vec<char>, lo: usize, hi: usize) -> (r: Option<(u32, u32)>)
    requires
        lo <= hi <= v@.len(),
    ensures
        match r {
            Some((h, m)) => hour_minute(v@.subrange(lo as int, hi as int)) == Some((h as int, m as int)) && h < 100 && m < 100,
            None => hour_minute(v@.subrange(lo as int, hi as int)) is None,
        },
{
    let ghost s = v@.subrange(lo as int, hi as int);
    match short_number_exec(v, lo, hi) {
        Some(h) => {
            return Some((h, 0));
        },
        None => {},
    }
    if hi - lo >= 4 && v[hi - 3] == ':' {
        proof {
            assert(s[s.len() - 3] == v@[hi - 3]);
            assert(s.subrange(0, s.len() - 3) =~= v@.subrange(lo as int, hi - 3));
            assert(s[s.len() - 2] == v@[hi - 2] && s[s.len() - 1] == v@[hi - 1]);
            assert(s.subrange(s.len() - 2, s.len() as int) =~= v@.subrange(hi - 2, hi as int));
        }
        match short_number_exec(v, lo, hi - 3) {
            Some(h) => {
                if is_digit_exec(v[hi - 2]) && is_digit_exec(v[hi - 1]) {
                    let m = 10 * digit_exec(v[hi - 2]) + digit_exec(v[hi - 1]);
                    proof {
                        let t = v@.subrange(hi - 2, hi as int);
                        assert(t[0] == v@[hi - 2] && t[1] == v@[hi - 1]);
                    }
                    return Some((h, m));
                }
            },
            None => {},
        }
    }
    None
}

/// Reads a time of day; see `time_of_day`.
pub fn parse_time_of_day(text: &str) -> (r: Option<(u32, u32)>)
    ensures
        match r {
            Some((h, m)) => time_of_day(text@) == Some((h as int, m as int)) && h < 24 && m < 60,
            None => time_of_day(text@) is None,
        },
{
    let raw = chars_of(text);
    let v = trim_spaces_exec(&raw);
    let n = v.len();
    proof {
        assert(v@.subrange(0, n as int) =~= v@);
    }
    let mut meridiem: Option<bool> = None;
    if n >= 2 && (v[n - 1] == 'm' || v[n - 1] == 'M') {
        if v[n - 2] == 'a' || v[n - 2] == 'A' {
            meridiem = Some(false);
        } else if v[n - 2] == 'p' || v[n - 2] == 'P' {
            meridiem = Some(true);
        }
    }
    assert(meridiem == meridiem_of(v@));
    match meridiem {
        Some(pm) => {
            let mut head: Vec<char> = Vec::new();
            let mut i: usize = 0;
            while i < n - 2
                invariant
                    n == v@.len(),
                    n >= 2,
                    i <= n - 2,
                    head@ == v@.subrange(0, i as int),
                decreases n - 2 - i,
            {
                head.push(v[i]);
                proof {
                    assert(v@.subrange(0, i + 1) =~= v@.subrange(0, i as int).push(v@[i as int]));
                }
                i = i + 1;
            }
            let h2 = trim_spaces_exec(&head);
            let m2 = h2.len();
            proof {
                assert(h2@.subrange(0, m2 as int) =~= h2@);
            }
            match hour_minute_exec(&h2, 0, m2) {
                Some((h, m)) => {
                    if 1 <= h && h <= 12 && m < 60 {
                        let hour = if h == 12 {
                            if pm { 12 } else { 0 }
                        } else if pm {
                            h + 12
                        } else {
                            h
                        };
                        Some((hour, m))
                    } else {
                        None
                    }
                },
                None => None,
            }
        },
        None => match hour_minute_exec(&v, 0, n) {
            Some((h, m)) => if h < 24 && m < 60 {
                Some((h, m))
            } else {
                None
            },
            None => None,
        },
    }
}

fn digit_char_of(d: u32) -> (c: char)
    requires
        d < 10,
    ensures
        c == (48 + d) as char,
{
    if d == 0 { '0' } else if d == 1 { '1' } else if d == 2 { '2' } else if d == 3 { '3' } else if d == 4 {
        '4'
    } else if d == 5 { '5' } else if d == 6 { '6' } else if d == 7 { '7' } else if d == 8 { '8' } else { '9' }
}

fn push_two_digits(s: &mut String, n: u32)
    requires
        n < 100,
    ensures
        final(s)@ == old(s)@ + two_digits(n as int),
{
    push_char(s, digit_char_of(n / 10));
    push_char(s, digit_char_of(n % 10));
    assert(final(s)@ =~= old(s)@ + two_digits(n as int));
}

/// The local date-time text for a time of day on the given day, or the message for a
/// time that cannot be read.
pub fn today_at_time_on(text: &str, today: i32) -> (r: Result<String, String>)
    ensures
        match time_of_day(text@) {
            Some((h, m)) => r matches Ok(s) && s@ == local_datetime_text(today as int, h, m),
            None => r matches Err(e) && e@ == invalid_time_message(text@),
        },
{
    match parse_time_of_day(text) {
        Some((h, m)) => {
            let mut s = format_ymd(today);
            push_char(&mut s, 'T');
            push_two_digits(&mut s, h);
            push_char(&mut s, ':');
            push_two_digits(&mut s, m);
            push_char(&mut s, ':');
            push_char(&mut s, '0');
            push_char(&mut s, '0');
            assert(s@ =~= local_datetime_text(today as int, h as int, m as int));
            Ok(s)
        },
        None => {
            let mut e = String::from_str("Invalid time '");
            e.append(text);
            e.append("'. Use a time like 3pm, 3:30pm or 15:30.");
            Err(e)
        },
    }
}

/// The local date-time text for a time of day today.
pub fn today_at_time(text: &str) -> (r: Result<String, String>)
    ensures
        time_of_day(text@) is None ==> (r matches Err(e) && e@ == invalid_time_message(text@)),
        time_of_day(text@) is Some ==> r is Ok,
{
    today_at_time_on(text, local_today())
}

/// Today's date as `YYYY-MM-DD`.
pub fn format_today() -> (s: String)
    ensures
        exists|d: int| -0x4000_0000 < d < 0x4000_0000 && s@ == ymd_text(d),
{
    format_ymd(local_today())
}

/// The date a number of days from today, as `YYYY-MM-DD`.
pub fn format_date_with_offset(days: i32) -> (s: String)
    requires
        -0x4000_0000 < days < 0x4000_0000,
    ensures
        exists|d: int| -0x4000_0000 < d - days < 0x4000_0000 && s@ == ymd_text(d),
{
    let today = local_today();
    format_ymd(today + days)
}

/// The day of the week of a day number, 0 for Monday to 6 for Sunday (day 1,
/// 0001-01-01, is a Monday).
pub open spec fn weekday_of(day: int) -> int {
    (day - 1) % 7
}

/// How many days after a day the next given weekday comes: one to seven, never the
/// same day.
pub open spec fn days_until_next(day: int, weekday: int) -> int {
    let d = (weekday - weekday_of(day)) % 7;
    if d == 0 { 7 } else { d }
}

/// The day a due-date choice stands for: today, tomorrow, the next Monday or the next
/// Saturday after today; none for an unscheduled task.
pub open spec fn due_day(due: TaskDueDate, today: int) -> Option<int> {
    match due {
        TaskDueDate::Unscheduled => None,
        TaskDueDate::Today => Some(today),
        TaskDueDate::Tomorrow => Some(today + 1),
        TaskDueDate::NextWeek => Some(today + days_until_next(today, 0)),
        TaskDueDate::Weekend => Some(today + days_until_next(today, 5)),
    }
}

/// The day of the week of a day number.
fn weekday_exec(day: i32) -> (w: i64)
    requires
        -0x4000_0000 < day < 0x4000_0000,
    ensures
        w == weekday_of(day as int),
        0 <= w < 7,
{
    let shifted: u64 = (day as i64 + 7 * 0x4000_0000 - 1) as u64;
    let w: u64 = shifted % 7;
    assert(w == (day - 1) % 7) by (nonlinear_arith)
        requires
            shifted == day + 7 * 0x4000_0000 - 1,
            w == shifted % 7,
            shifted >= 0,
    ;
    w as i64
}

/// The date a due-date choice stands for, counted from the given day, as `YYYY-MM-DD`.
pub fn due_date_on(due: TaskDueDate, today: i32) -> (r: Option<String>)
    requires
        -0x4000_0000 < today < 0x4000_0000,
    ensures
        match r {
            Some(s) => due_day(due, today as int) matches Some(d) && s@ == ymd_text(d),
            None => due_day(due, today as int) is None,
        },
{
    let target: i64 = match due {
        TaskDueDate::Unscheduled => return None,
        TaskDueDate::Today => 0,
        TaskDueDate::Tomorrow => 1,
        TaskDueDate::NextWeek => 0,
        TaskDueDate::Weekend => 5,
    };
    let offset: i64 = match due {
        TaskDueDate::Today | TaskDueDate::Tomorrow => target,
        _ => {
            let w = weekday_exec(today);
            let d = (target - w + 7) % 7;
            assert(d == (target - weekday_of(today as int)) % 7) by (nonlinear_arith)
                requires
                    d == (target - w + 7) % 7,
                    w == weekday_of(today as int),
                    0 <= w < 7,
                    0 <= target < 7,
            ;
            if d == 0 { 7 } else { d }
        },
    };
    Some(format_ymd((today as i64 + offset) as i32))
}

/// The date a due-date choice stands for, counted from today.
pub fn due_date_text(due: TaskDueDate) -> (r: Option<String>)
    ensures
        exists|today: int| -0x4000_0000 < today < 0x4000_0000 && match r {
            Some(s) => due_day(due, today) matches Some(d) && s@ == ymd_text(d),
            None => due_day(due, today) is None,
        },
{
    let today = local_today();
    due_date_on(due, today)
}

} // verus!
