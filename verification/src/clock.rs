//! Dates and times in text.

use vstd::prelude::*;

use crate::command::text_opt;

verus! {

/// A moment: seconds and nanoseconds since the Unix epoch, and how far the local
/// time is ahead of UTC, in seconds.
#[derive(Clone, Copy, Debug)]
pub struct Moment {
    pub secs: i64,
    pub nanos: u32,
    pub offset: i32,
}

/// What an item of a time format stands for, as far as it matters how often the
/// time is drawn.
#[derive(Clone, Copy, PartialEq, Eq, Structural, Debug)]
pub enum TimeItem {
    Text,
    Second,
    Nanosecond,
    Timestamp,
    OtherNumber,
    Fixed,
}

/// The items that `chrono::format::StrftimeItems` reads in a format, if the
/// format is valid.
pub uninterp spec fn strftime_items(format: Seq<char>) -> Option<Seq<TimeItem>>;

/// Whether `chrono::Locale` knows a locale of this name.
pub uninterp spec fn is_locale(name: Seq<char>) -> bool;

/// What `chrono::DateTime::format_localized_with_items` writes for a moment, in
/// a valid format and a known locale.
pub uninterp spec fn moment_text(
    secs: i64,
    nanos: u32,
    offset: i32,
    format: Seq<char>,
    locale: Seq<char>,
) -> Option<Seq<char>>;

/// The day, counted from the first of the year one, that
/// `chrono::NaiveDate::parse_from_str` reads in a date of this format.
pub uninterp spec fn date_day(date: Seq<char>, format: Seq<char>) -> Option<i32>;

/// What `chrono::NaiveDate::format` writes in this format for a day, counted
/// from the first of the year one.
pub uninterp spec fn day_text(day: i32, format: Seq<char>) -> Option<Seq<char>>;

/// `chrono::format::StrftimeItems::parse_to_owned`: the items of a format, each
/// turned into its kind, or nothing where the format is not valid.
#[verifier::external_body]
pub(crate) fn time_items(format: &str) -> (r: Option<Vec<TimeItem>>)
    ensures
        match r {
            Some(items) => strftime_items(format@) == Some(items@),
            None => strftime_items(format@) is None,
        },
{
    let items = chrono::format::StrftimeItems::new(format).parse_to_owned().ok()?;
    Some(items.into_iter().map(|item| match item {
        chrono::format::Item::Numeric(chrono::format::Numeric::Second, _) => TimeItem::Second,
        chrono::format::Item::Numeric(chrono::format::Numeric::Nanosecond, _) => TimeItem::Nanosecond,
        chrono::format::Item::Numeric(chrono::format::Numeric::Timestamp, _) => TimeItem::Timestamp,
        chrono::format::Item::Numeric(_, _) => TimeItem::OtherNumber,
        chrono::format::Item::Fixed(_) => TimeItem::Fixed,
        _ => TimeItem::Text,
    }).collect())
}

/// `chrono::Locale::try_from`: whether there is a locale of this name.
#[verifier::external_body]
pub(crate) fn known_locale(name: &str) -> (r: bool)
    ensures
        r == is_locale(name@),
{
    chrono::Locale::try_from(name).is_ok()
}

/// `chrono::DateTime::format_localized_with_items`: the moment in a format and a
/// locale, or nothing where the format is not valid, the locale is not known or
/// the moment is out of range.
#[verifier::external_body]
pub(crate) fn format_moment(
    secs: i64,
    nanos: u32,
    offset: i32,
    format: &str,
    locale: &str,
) -> (r: Option<String>)
    ensures
        text_opt(r) == moment_text(secs, nanos, offset, format@, locale@),
{
    let items = chrono::format::StrftimeItems::new(format).parse_to_owned().ok()?;
    let locale = chrono::Locale::try_from(locale).ok()?;
    let zone = chrono::FixedOffset::east_opt(offset)?;
    let time = chrono::DateTime::from_timestamp(secs, nanos)?.with_timezone(&zone);
    let mut text = String::new();
    time.format_localized_with_items(items.iter(), locale).write_to(&mut text).ok()?;
    Some(text)
}

/// `chrono::NaiveDate::parse_from_str`, and `num_days_from_ce` of its result;
/// nothing where the date is not of the format, or the format is not valid.
#[verifier::external_body]
fn day_of(date: &str, format: &str) -> (r: Option<i32>)
    ensures
        r == date_day(date@, format@),
{
    let day = chrono::NaiveDate::parse_from_str(date, format).ok()?;
    Some(chrono::Datelike::num_days_from_ce(&day))
}

/// `chrono::NaiveDate::format`, on the date of a day; nothing where there is no
/// such date, or the format does not suit a date.
#[verifier::external_body]
fn format_day(day: i32, format: &str) -> (r: Option<String>)
    ensures
        text_opt(r) == day_text(day, format@),
{
    let date = chrono::NaiveDate::from_num_days_from_ce_opt(day)?;
    let mut text = String::new();
    date.format(format).write_to(&mut text).ok()?;
    Some(text)
}

/// The short weekday of a date, which is written as year, month and day; empty
/// where there is no such date.
pub open spec fn weekday_text(date: Seq<char>) -> Seq<char> {
    match date_day(date, "%Y-%m-%d"@) {
        Some(day) => match day_text(day, "%a"@) {
            Some(w) => w,
            None => Seq::empty(),
        },
        None => Seq::empty(),
    }
}

/// Names the weekday of a date.
pub fn weekday_abbrev(date: &str) -> (r: String)
    ensures
        r@ == weekday_text(date@),
{
    match day_of(date, "%Y-%m-%d") {
        Some(day) => match format_day(day, "%a") {
            Some(w) => w,
            None => String::new(),
        },
        None => String::new(),
    }
}

/// Whether a time format shows something that changes every second.
pub open spec fn ticks(items: Seq<TimeItem>) -> bool {
    exists|i: int|
        0 <= i < items.len() && ((#[trigger] items[i]) == TimeItem::Second || items[i]
            == TimeItem::Nanosecond || items[i] == TimeItem::Timestamp)
}

/// Whether one of these items changes every second.
pub fn shows_seconds(items: &Vec<TimeItem>) -> (r: bool)
    ensures
        r == ticks(items@),
{
    let n = items.len();
    let mut i: usize = 0;
    while i < n
        invariant
            i <= n,
            n == items@.len(),
            forall|k: int|
                0 <= k < i ==> !((#[trigger] items@[k]) == TimeItem::Second || items@[k]
                    == TimeItem::Nanosecond || items@[k] == TimeItem::Timestamp),
        decreases n - i,
    {
        let item = items[i];
        if item == TimeItem::Second || item == TimeItem::Nanosecond || item == TimeItem::Timestamp {
            return true;
        }
        i += 1;
    }
    false
}

/// The weekday of a date is the short one of the day that the date stands for, when
/// it is read as year, month and day, and there is none for what is no date.
pub proof fn weekday_is_that_of_the_date(date: Seq<char>)
    ensures
        date_day(date, "%Y-%m-%d"@) is None ==> weekday_text(date).len() == 0,
        date_day(date, "%Y-%m-%d"@) matches Some(day) ==> (day_text(day, "%a"@) matches Some(w)
            ==> weekday_text(date) == w),
{
}

} // verus!
