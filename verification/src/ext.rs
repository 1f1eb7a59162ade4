//! Calls into std and the outside crates that the library relies on, each with the
//! contract that its documentation or source gives.

use vstd::prelude::*;
use chrono::Datelike;
use chrono::TimeZone;

verus! {

/// The number of terminal columns that ratatui's `Line` built from the text occupies.
pub uninterp spec fn line_display_width(text: Seq<char>) -> nat;

/// Calls `ratatui::text::Line::from(text).width()`.  The result is named: it depends on
/// the text alone (unicode-width tables), and nothing more is claimed of it.
#[verifier::external_body]
pub fn line_width(text: &str) -> (w: usize)
    ensures
        w as nat == line_display_width(text@),
{
    ratatui::text::Line::from(text).width()
}

/// Calls std's `String::push`: appends the character at the end of the string.
#[verifier::external_body]
pub fn push_char(s: &mut String, c: char)
    ensures
        final(s)@ == old(s)@.push(c),
{
    s.push(c);
}

/// Whether a character has the Unicode `White_Space` property, which std's
/// `char::is_whitespace` tests: tab through carriage return, space, next line,
/// no-break space, Ogham space mark, the spaces U+2000 to U+200A, the line and
/// paragraph separators, narrow no-break space, medium mathematical space and
/// ideographic space.
pub open spec fn is_white_space(c: char) -> bool {
    let v = c as u32;
    ||| 0x09 <= v <= 0x0D
    ||| v == 0x20
    ||| v == 0x85
    ||| v == 0xA0
    ||| v == 0x1680
    ||| 0x2000 <= v <= 0x200A
    ||| v == 0x2028
    ||| v == 0x2029
    ||| v == 0x202F
    ||| v == 0x205F
    ||| v == 0x3000
}

/// Calls std's `char::is_whitespace`, which tests the Unicode `White_Space` property.
#[verifier::external_body]
pub fn char_is_whitespace(c: char) -> (b: bool)
    ensures
        b == is_white_space(c),
{
    c.is_whitespace()
}

/// The day number (days from the common era, 0001-01-01 is day 1) of the calendar
/// date that chrono reads from the text in the `%Y-%m-%d` format, or `None` where
/// chrono rejects the text.
pub uninterp spec fn calendar_day(text: Seq<char>) -> Option<int>;

/// Calls `chrono::NaiveDate::parse_from_str(text, "%Y-%m-%d")` and, on success,
/// `Datelike::num_days_from_ce`.  The result is named; chrono limits years to
/// `i32::MAX >> 13` in magnitude, so the day number stays below 2^30 in magnitude.
#[verifier::external_body]
pub fn parse_calendar_day(text: &str) -> (d: Option<i32>)
    ensures
        d matches Some(v) ==> -0x4000_0000 < v < 0x4000_0000,
        match d {
            Some(v) => calendar_day(text@) == Some(v as int),
            None => calendar_day(text@) is None,
        },
{
    chrono::NaiveDate::parse_from_str(text, "%Y-%m-%d").ok().map(|date| date.num_days_from_ce())
}

/// Calls `chrono::Local::now().date_naive().num_days_from_ce()`: today's local day
/// number.  It depends on the clock and the time zone, so only its range is stated.
#[verifier::external_body]
pub fn local_today() -> (d: i32)
    ensures
        -0x4000_0000 < d < 0x4000_0000,
{
    chrono::Local::now().date_naive().num_days_from_ce()
}

/// Whether an identifier is the nil UUID, the one whose bits are all zero (as
/// `uuid::Uuid::is_nil` documents).
pub fn uuid_is_nil(id: u128) -> (b: bool)
    ensures
        b == (id == 0),
{
    id == 0
}

/// The text with leading whitespace characters removed.
pub open spec fn trim_start_spec(s: Seq<char>) -> Seq<char>
    decreases s.len(),
{
    if s.len() > 0 && is_white_space(s[0]) { trim_start_spec(s.drop_first()) } else { s }
}

/// The text with trailing whitespace characters removed.
pub open spec fn trim_end_spec(s: Seq<char>) -> Seq<char>
    decreases s.len(),
{
    if s.len() > 0 && is_white_space(s.last()) { trim_end_spec(s.drop_last()) } else { s }
}

/// The text with leading and trailing whitespace removed, as std's `str::trim` documents it.
pub open spec fn trimmed(s: Seq<char>) -> Seq<char> {
    trim_end_spec(trim_start_spec(s))
}

/// Calls std's `str::trim`: the slice without leading and trailing characters that have
/// the Unicode `White_Space` property.
#[verifier::external_body]
pub fn str_trim(s: &str) -> (r: &str)
    ensures
        r@ == trimmed(s@),
{
    s.trim()
}

/// The English name of a day of the week, 0 for Monday to 6 for Sunday.
pub open spec fn weekday_name(w: int) -> Seq<char> {
    if w == 0 { "Monday"@ } else if w == 1 { "Tuesday"@ } else if w == 2 { "Wednesday"@ } else if w == 3 {
        "Thursday"@ } else if w == 4 { "Friday"@ } else if w == 5 { "Saturday"@ } else { "Sunday"@ }
}

/// The weekday name (`%A`, such as `Monday`) that chrono formats for a day number, or
/// `None` where chrono cannot represent the day.
pub uninterp spec fn weekday_text(day: int) -> Option<Seq<char>>;

/// Formats `chrono::NaiveDate::from_num_days_from_ce_opt(day)` with `%A`; `None` where
/// chrono gives no date.  The text is named; it is the English name of the day's weekday,
/// and day 1 (0001-01-01) is a Monday.
#[verifier::external_body]
pub fn format_weekday(day: i32) -> (r: Option<String>)
    ensures
        match r {
            Some(s) => weekday_text(day as int) == Some(s@),
            None => weekday_text(day as int) is None,
        },
        r matches Some(s) ==> s@ == weekday_name((day as int - 1) % 7),
{
    chrono::NaiveDate::from_num_days_from_ce_opt(day).map(|date| date.format("%A").to_string())
}

/// The abbreviated month and two-digit day (`%b %d`, such as `Jan 05`) that chrono
/// formats for a day number, or `None` where chrono cannot represent the day.
pub uninterp spec fn month_day_text(day: int) -> Option<Seq<char>>;

/// Formats `chrono::NaiveDate::from_num_days_from_ce_opt(day)` with `%b %d`; `None`
/// where chrono gives no date.  The text is named.
#[verifier::external_body]
pub fn format_month_day(day: i32) -> (r: Option<String>)
    ensures
        match r {
            Some(s) => month_day_text(day as int) == Some(s@),
            None => month_day_text(day as int) is None,
        },
{
    chrono::NaiveDate::from_num_days_from_ce_opt(day).map(|date| date.format("%b %d").to_string())
}

/// The `YYYY-MM-DD` text that chrono formats for a day number.
pub uninterp spec fn ymd_text(day: int) -> Seq<char>;

/// Formats `chrono::NaiveDate::from_num_days_from_ce_opt(day)` with `%Y-%m-%d`; a day
/// number chrono cannot represent gives an empty text.  The result is named.
#[verifier::external_body]
pub fn format_ymd(day: i32) -> (s: String)
    ensures
        s@ == ymd_text(day as int),
{
    match chrono::NaiveDate::from_num_days_from_ce_opt(day) {
        Some(date) => date.format("%Y-%m-%d").to_string(),
        None => String::new(),
    }
}

/// The instant that `chrono::DateTime::parse_from_rfc3339` reads from the text, as
/// seconds since 1970-01-01 00:00 UTC (`timestamp()`), or `None` where it rejects the text.
pub uninterp spec fn rfc3339_utc_secs(text: Seq<char>) -> Option<int>;

/// Calls `chrono::DateTime::parse_from_rfc3339(value)`, converts the instant to the
/// machine's local time zone and gives its wall-clock time as seconds counted from
/// 1970-01-01 00:00 (`naive_local().and_utc().timestamp()`).  It succeeds exactly where
/// the text parses; the result is the parsed instant shifted by the local offset, which
/// chrono's `FixedOffset` keeps strictly within one day.  Which offset depends on the
/// time zone and is not stated.  chrono's dates lie within years -262144 to 262143, well
/// inside 2^44 seconds.
#[verifier::external_body]
pub fn parse_rfc3339_local(value: &str) -> (r: Option<i64>)
    ensures
        r is Some <==> rfc3339_utc_secs(value@) is Some,
        r matches Some(v) ==> -0x1000_0000_0000 < v < 0x1000_0000_0000,
        r matches Some(v) ==> -86400 < v - rfc3339_utc_secs(value@)->0 < 86400,
{
    chrono::DateTime::parse_from_rfc3339(value).ok().map(
        |d| d.with_timezone(&chrono::Local).naive_local().and_utc().timestamp(),
    )
}

/// The wall-clock time that `chrono::NaiveDateTime::parse_from_str` reads from the text
/// in the `%Y-%m-%dT%H:%M:%S` format, as seconds counted from 1970-01-01 00:00
/// (`and_utc().timestamp()`), or `None` where it rejects the text.
pub uninterp spec fn naive_datetime_secs(text: Seq<char>) -> Option<int>;

/// Calls `chrono::NaiveDateTime::parse_from_str(value, "%Y-%m-%dT%H:%M:%S")` and
/// `chrono::Local.from_local_datetime(..).single()`, giving the wall-clock time as
/// seconds counted from 1970-01-01 00:00.  Where it succeeds, the wall-clock time is the
/// parsed one (`from_local_datetime` keeps it as the local time).  Whether the local time
/// names a single instant depends on the time zone, so success is not promised.
#[verifier::external_body]
pub fn parse_naive_local(value: &str) -> (r: Option<i64>)
    ensures
        r matches Some(v) ==> -0x1000_0000_0000 < v < 0x1000_0000_0000,
        r matches Some(v) ==> naive_datetime_secs(value@) == Some(v as int),
{
    chrono::NaiveDateTime::parse_from_str(value, "%Y-%m-%dT%H:%M:%S").ok().and_then(
        |d| chrono::Local.from_local_datetime(&d).single(),
    ).map(|d| d.naive_local().and_utc().timestamp())
}

/// Calls `chrono::Local::now()` and gives its wall-clock time as seconds counted from
/// 1970-01-01 00:00.  It depends on the clock and the time zone: only its range is stated.
#[verifier::external_body]
pub fn local_now_secs() -> (t: i64)
    ensures
        -0x1000_0000_0000 < t < 0x1000_0000_0000,
{
    chrono::Local::now().naive_local().and_utc().timestamp()
}

/// The character of a decimal digit.
pub open spec fn digit_char(d: int) -> char {
    (48 + d) as char
}

/// The hour on a 12-hour clock without padding (chrono's `%-I`).
pub open spec fn clock_hour_text(hour: int) -> Seq<char> {
    let h = if hour % 12 == 0 { 12 } else { hour % 12 };
    if h < 10 { seq![digit_char(h)] } else { seq!['1', digit_char(h - 10)] }
}

/// `am` before noon and `pm` from noon on (chrono's `%P`).
pub open spec fn meridiem_text(hour: int) -> Seq<char> {
    if hour < 12 { seq!['a', 'm'] } else { seq!['p', 'm'] }
}

/// The time of day as chrono formats it with `%-I%P`, e.g. `9am`.
pub open spec fn hour_label_text(hour: int) -> Seq<char> {
    clock_hour_text(hour) + meridiem_text(hour)
}

/// The time of day as chrono formats it with `%-I:%M%P`, e.g. `11:30pm`.
pub open spec fn hour_minute_label_text(hour: int, minute: int) -> Seq<char> {
    clock_hour_text(hour) + seq![':', digit_char(minute / 10), digit_char(minute % 10)] + meridiem_text(hour)
}

/// Formats `chrono::NaiveTime::from_hms_opt(hour, 0, 0)` with `%-I%P`: the 12-hour clock
/// hour without padding followed by `am` or `pm`.
#[verifier::external_body]
pub fn format_hour_label(hour: u32) -> (s: String)
    requires
        hour < 24,
    ensures
        s@ == hour_label_text(hour as int),
{
    chrono::NaiveTime::from_hms_opt(hour, 0, 0).map(|t| t.format("%-I%P").to_string()).unwrap_or_default()
}

/// Formats `chrono::NaiveTime::from_hms_opt(hour, minute, 0)` with `%-I:%M%P`: the
/// 12-hour clock hour without padding, a colon, the two-digit minute, and `am` or `pm`.
#[verifier::external_body]
pub fn format_hour_minute_label(hour: u32, minute: u32) -> (s: String)
    requires
        hour < 24,
        minute < 60,
    ensures
        s@ == hour_minute_label_text(hour as int, minute as int),
{
    chrono::NaiveTime::from_hms_opt(hour, minute, 0).map(|t| t.format("%-I:%M%P").to_string()).unwrap_or_default()
}

/// The 128-bit value of a UUID that `uuid::Uuid::parse_str` reads from the text, or
/// `None` where it rejects the text.
pub uninterp spec fn uuid_text_value(text: Seq<char>) -> Option<u128>;

/// Calls `uuid::Uuid::parse_str(text)` and takes `as_u128` of the result.  The result is
/// named: parsing depends on the text alone.
#[verifier::external_body]
pub fn parse_uuid(text: &str) -> (r: Option<u128>)
    ensures
        r == uuid_text_value(text@),
{
    uuid::Uuid::parse_str(text).ok().map(|u| u.as_u128())
}


/// The lowercase hexadecimal digit of a value below sixteen.
pub open spec fn hex_char(d: int) -> char {
    if d < 10 { (48 + d) as char } else { (87 + d) as char }
}

/// The last `n` hexadecimal digits of a value, most significant first.
pub open spec fn hex_digits(v: nat, n: nat) -> Seq<char>
    decreases n,
{
    if n == 0 {
        Seq::empty()
    } else {
        hex_digits(v / 16, (n - 1) as nat).push(hex_char((v % 16) as int))
    }
}

/// The hyphenated text of a UUID: its 32 lowercase hexadecimal digits, most significant
/// first, in groups of 8, 4, 4, 4 and 12 joined by hyphens.
pub open spec fn uuid_text(u: u128) -> Seq<char> {
    let d = hex_digits(u as nat, 32);
    d.subrange(0, 8) + "-"@ + d.subrange(8, 12) + "-"@ + d.subrange(12, 16) + "-"@ + d.subrange(16, 20) + "-"@
        + d.subrange(20, 32)
}

/// Calls `uuid::Uuid::from_u128(u).to_string()`: `Display` writes the hyphenated
/// lowercase form of the big-endian bytes.
#[verifier::external_body]
pub fn format_uuid(u: u128) -> (s: String)
    ensures
        s@ == uuid_text(u),
{
    uuid::Uuid::from_u128(u).to_string()
}

/// The value of a string of ASCII decimal digits, most significant first.
pub open spec fn digits_value(s: Seq<char>) -> int
    decreases s.len(),
{
    if s.len() == 0 { 0 } else { digits_value(s.drop_last()) * 10 + (s.last() as int - 48) }
}

/// Whether every character is an ASCII decimal digit.
pub open spec fn all_ascii_digits(s: Seq<char>) -> bool {
    forall|i: int| 0 <= i < s.len() ==> 48 <= (#[trigger] s[i]) as int <= 57
}

/// What std's `u32::from_str` reads, as its documentation states: an optional `+`
/// followed by one or more ASCII digits whose value fits in a `u32`; anything else is an
/// error.
pub open spec fn u32_from_str(s: Seq<char>) -> Option<u32> {
    let d = if s.len() > 0 && s[0] == '+' { s.drop_first() } else { s };
    if d.len() > 0 && all_ascii_digits(d) && digits_value(d) <= u32::MAX {
        Some(digits_value(d) as u32)
    } else {
        None
    }
}

/// Calls std's `str::parse::<u32>` and keeps the value where it succeeds.
#[verifier::external_body]
pub fn parse_u32(s: &str) -> (r: Option<u32>)
    ensures
        r == u32_from_str(s@),
{
    s.parse::<u32>().ok()
}

/// The text that std's `str::to_lowercase` gives: each character replaced by its
/// Unicode lowercase mapping, with a capital sigma at the end of a word becoming a final
/// sigma.
pub uninterp spec fn lowercase_text(text: Seq<char>) -> Seq<char>;

/// Calls std's `str::to_lowercase`.  The result depends on the text alone and is named.
#[verifier::external_body]
pub fn to_lowercase(text: &str) -> (r: String)
    ensures
        r@ == lowercase_text(text@),
{
    text.to_lowercase()
}

/// The five areas that ratatui's `Layout` gives an area split horizontally into five
/// equal ratios, each as (x, y, width, height).
pub uninterp spec fn fifths_layout(area: (u16, u16, u16, u16)) -> Seq<(u16, u16, u16, u16)>;

/// Calls `ratatui::layout::Layout::horizontal([Constraint::Ratio(1, 5); 5]).split(area)`.
/// The result is named: it depends on the area alone.  `split` gives one area per
/// constraint, so five.
#[verifier::external_body]
pub fn split_fifths(area: (u16, u16, u16, u16)) -> (r: Vec<(u16, u16, u16, u16)>)
    ensures
        r@ == fifths_layout(area),
        r@.len() == 5,
{
    let rect = ratatui::layout::Rect::new(area.0, area.1, area.2, area.3);
    let parts = ratatui::layout::Layout::horizontal([ratatui::layout::Constraint::Ratio(1, 5); 5]).split(rect);
    parts.iter().map(|p| (p.x, p.y, p.width, p.height)).collect()
}

} // verus!
