//! The weather report: where it comes from, when it is fetched, and what it
//! says.

use vstd::prelude::*;
use vstd::string::*;

use crate::clock::{weekday_abbrev, weekday_text};
use crate::command::text_opt;
use crate::json::{first_in, get_in, parse_json, parsed_json, string_in, views, Json, JsonView};
use crate::number::Signed;
use crate::text::{chars, same, trim, trimmed};

verus! {

/// How long a report lasts, and how soon a failed fetch is repeated, in
/// nanoseconds.
pub const WEATHER_REFRESH: u64 = 900_000_000_000;

pub const RETRY_REFRESH: u64 = 60_000_000_000;

/// The forecast of a day.
pub struct DayForecast {
    pub weekday: String,
    pub desc: String,
    pub icon: String,
    pub tmax: Signed,
    pub tmin: Signed,
}

/// The weather as it is shown. Icons are the names of the pictures to show.
pub struct WeatherData {
    pub available: bool,
    pub city: String,
    pub current_temp: Option<Signed>,
    pub current_desc: String,
    pub current_icon: String,
    pub unit: String,
    pub days: Vec<DayForecast>,
}

/// The mathematical counterpart of [`DayForecast`].
#[verifier::ext_equal]
pub struct DayView {
    pub weekday: Seq<char>,
    pub desc: Seq<char>,
    pub icon: Seq<char>,
    pub tmax: Signed,
    pub tmin: Signed,
}

/// The mathematical counterpart of [`WeatherData`].
#[verifier::ext_equal]
pub struct WeatherView {
    pub available: bool,
    pub city: Seq<char>,
    pub current_temp: Option<Signed>,
    pub current_desc: Seq<char>,
    pub current_icon: Seq<char>,
    pub unit: Seq<char>,
    pub days: Seq<DayView>,
}

impl View for DayForecast {
    type V = DayView;

    open spec fn view(&self) -> DayView {
        DayView {
            weekday: self.weekday@,
            desc: self.desc@,
            icon: self.icon@,
            tmax: self.tmax,
            tmin: self.tmin,
        }
    }
}

impl View for WeatherData {
    type V = WeatherView;

    open spec fn view(&self) -> WeatherView {
        WeatherView {
            available: self.available,
            city: self.city@,
            current_temp: self.current_temp,
            current_desc: self.current_desc@,
            current_icon: self.current_icon@,
            unit: self.unit@,
            days: Seq::new(self.days@.len(), |i: int| self.days@[i]@),
        }
    }
}

impl Clone for DayForecast {
    fn clone(&self) -> (r: DayForecast)
        ensures
            r@ == self@,
    {
        DayForecast {
            weekday: self.weekday.clone(),
            desc: self.desc.clone(),
            icon: self.icon.clone(),
            tmax: self.tmax,
            tmin: self.tmin,
        }
    }
}

impl Clone for WeatherData {
    fn clone(&self) -> (r: WeatherData)
        ensures
            r@ == self@,
    {
        let mut days: Vec<DayForecast> = Vec::new();
        let n = self.days.len();
        let mut i: usize = 0;
        while i < n
            invariant
                i <= n,
                n == self.days@.len(),
                days@.len() == i,
                forall|k: int| 0 <= k < i ==> (#[trigger] days@[k])@ == self.days@[k]@,
            decreases n - i,
        {
            days.push(self.days[i].clone());
            i += 1;
        }
        let r = WeatherData {
            available: self.available,
            city: self.city.clone(),
            current_temp: self.current_temp,
            current_desc: self.current_desc.clone(),
            current_icon: self.current_icon.clone(),
            unit: self.unit.clone(),
            days,
        };
        assert(r@.days =~= self@.days);
        r
    }
}

/// The sign of the unit of temperature.
pub open spec fn unit_sign(fahrenheit: bool) -> Seq<char> {
    if fahrenheit {
        "°F"@
    } else {
        "°C"@
    }
}

fn unit_text(fahrenheit: bool) -> (r: String)
    ensures
        r@ == unit_sign(fahrenheit),
{
    if fahrenheit {
        "°F".to_owned()
    } else {
        "°C".to_owned()
    }
}

/// A text with a plus sign for each space.
pub open spec fn plussed(s: Seq<char>) -> Seq<char> {
    Seq::new(s.len(), |i: int| if s[i] == ' ' { '+' } else { s[i] })
}

/// The address of the report for a place, or for where we are.
pub open spec fn report_url(location: Option<Seq<char>>) -> Seq<char> {
    match location {
        Some(l) => "https://wttr.in/"@ + plussed(l) + "?format=j1"@,
        None => "https://wttr.in/?format=j1"@,
    }
}

/// Writes the address of the report.
pub fn weather_url(location: &Option<String>) -> (r: String)
    ensures
        r@ == report_url(text_opt(*location)),
{
    match location {
        Some(l) => {
            let v = chars(l.as_str());
            let mut place = String::new();
            let n = v.len();
            let mut i: usize = 0;
            while i < n
                invariant
                    i <= n,
                    n == v@.len(),
                    v@ == l@,
                    place@ == plussed(l@).subrange(0, i as int),
                decreases n - i,
            {
                let c = if v[i] == ' ' {
                    '+'
                } else {
                    v[i]
                };
                place.push(c);
                assert(place@ =~= plussed(l@).subrange(0, i + 1));
                i += 1;
            }
            assert(plussed(l@).subrange(0, n as int) =~= plussed(l@));
            let mut url = "https://wttr.in/".to_owned();
            url.append(place.as_str());
            url.append("?format=j1");
            url
        },
        None => "https://wttr.in/?format=j1".to_owned(),
    }
}

/// A day of a report, with its temperatures as they are written.
pub struct RawDay {
    pub weekday: String,
    pub desc: String,
    pub tmax: Option<String>,
    pub tmin: Option<String>,
}

/// A report, with its temperatures as they are written.
pub struct RawReport {
    pub city: String,
    pub current_temp: Option<String>,
    pub current_desc: String,
    pub days: Vec<RawDay>,
}

/// The mathematical counterpart of [`RawDay`].
#[verifier::ext_equal]
pub struct RawDayView {
    pub weekday: Seq<char>,
    pub desc: Seq<char>,
    pub tmax: Option<Seq<char>>,
    pub tmin: Option<Seq<char>>,
}

/// The mathematical counterpart of [`RawReport`].
#[verifier::ext_equal]
pub struct RawReportView {
    pub city: Seq<char>,
    pub current_temp: Option<Seq<char>>,
    pub current_desc: Seq<char>,
    pub days: Seq<RawDayView>,
}

impl View for RawDay {
    type V = RawDayView;

    open spec fn view(&self) -> RawDayView {
        RawDayView {
            weekday: self.weekday@,
            desc: self.desc@,
            tmax: text_opt(self.tmax),
            tmin: text_opt(self.tmin),
        }
    }
}

impl View for RawReport {
    type V = RawReportView;

    open spec fn view(&self) -> RawReportView {
        RawReportView {
            city: self.city@,
            current_temp: text_opt(self.current_temp),
            current_desc: self.current_desc@,
            days: Seq::new(self.days@.len(), |i: int| self.days@[i]@),
        }
    }
}

/// A text, empty where there is none.
pub open spec fn or_empty(s: Option<Seq<char>>) -> Seq<char> {
    match s {
        Some(t) => t,
        None => Seq::empty(),
    }
}

/// The description of a condition, if there is one that is not blank.
pub open spec fn description(node: JsonView) -> Option<Seq<char>> {
    match string_in(get_in(first_in(node.get("weatherDesc"@)), "value"@)) {
        Some(t) => if trimmed(t).len() > 0 {
            Some(trimmed(t))
        } else {
            None
        },
        None => None,
    }
}

/// The first hour that is noon.
pub open spec fn noon(hours: Seq<JsonView>) -> Option<nat>
    decreases hours.len(),
{
    if hours.len() == 0 {
        None
    } else {
        match noon(hours.drop_last()) {
            Some(i) => Some(i),
            None => if string_in(hours.last().get("time"@)) == Some("1200"@) {
                Some((hours.len() - 1) as nat)
            } else {
                None
            },
        }
    }
}

/// The hour that stands for a day: noon, or the middle one where noon is
/// missing.
pub open spec fn midday(hours: Seq<JsonView>) -> Option<JsonView> {
    match noon(hours) {
        Some(i) => Some(hours[i as int]),
        None => if hours.len() > 0 {
            Some(hours[(hours.len() / 2) as int])
        } else {
            None
        },
    }
}

/// The condition that stands for a day.
pub open spec fn day_description(day: JsonView) -> Seq<char> {
    match day.get("hourly"@) {
        Some(h) => match h.array() {
            Some(hours) => match midday(hours) {
                Some(hour) => or_empty(description(hour)),
                None => Seq::empty(),
            },
            None => Seq::empty(),
        },
        None => Seq::empty(),
    }
}

/// The names of the members with the temperatures.
pub open spec fn temp_key(fahrenheit: bool) -> Seq<char> {
    if fahrenheit {
        "temp_F"@
    } else {
        "temp_C"@
    }
}

pub open spec fn max_key(fahrenheit: bool) -> Seq<char> {
    if fahrenheit {
        "maxtempF"@
    } else {
        "maxtempC"@
    }
}

pub open spec fn min_key(fahrenheit: bool) -> Seq<char> {
    if fahrenheit {
        "mintempF"@
    } else {
        "mintempC"@
    }
}

/// What a day of a report says.
pub open spec fn raw_day(day: JsonView, fahrenheit: bool) -> RawDayView {
    RawDayView {
        weekday: weekday_text(or_empty(string_in(day.get("date"@)))),
        desc: day_description(day),
        tmax: string_in(day.get(max_key(fahrenheit))),
        tmin: string_in(day.get(min_key(fahrenheit))),
    }
}

/// The days of a report.
pub open spec fn raw_days(v: JsonView, fahrenheit: bool) -> Seq<RawDayView> {
    match v.get("weather"@) {
        Some(w) => match w.array() {
            Some(days) => Seq::new(days.len(), |i: int| raw_day(days[i], fahrenheit)),
            None => Seq::empty(),
        },
        None => Seq::empty(),
    }
}

/// What a report says. There is no report without a current condition.
pub open spec fn raw_report(v: JsonView, fahrenheit: bool) -> Option<RawReportView> {
    match first_in(v.get("current_condition"@)) {
        Some(current) => Some(
            RawReportView {
                city: or_empty(
                    string_in(
                        get_in(
                            first_in(get_in(first_in(v.get("nearest_area"@)), "areaName"@)),
                            "value"@,
                        ),
                    ),
                ),
                current_temp: string_in(current.get(temp_key(fahrenheit))),
                current_desc: or_empty(description(current)),
                days: raw_days(v, fahrenheit),
            },
        ),
        None => None,
    }
}

/// The text that is the first value of a member, if there is one.
fn first_value(node: &Json, key: &str) -> (r: Option<String>)
    ensures
        text_opt(r) == string_in(get_in(first_in(node@.get(key@)), "value"@)),
{
    match node.get(key) {
        Some(list) => match list.first() {
            Some(x) => match x.get("value") {
                Some(v) => match v.as_str() {
                    Some(t) => Some(t.to_owned()),
                    None => None,
                },
                None => None,
            },
            None => None,
        },
        None => None,
    }
}

/// The text of a member.
fn text_of_member(node: &Json, key: &str) -> (r: Option<String>)
    ensures
        text_opt(r) == string_in(node@.get(key@)),
{
    match node.get(key) {
        Some(m) => match m.as_str() {
            Some(t) => Some(t.to_owned()),
            None => None,
        },
        None => None,
    }
}

/// The description of a condition, if there is one that is not blank.
pub fn desc_value(node: &Json) -> (r: Option<String>)
    ensures
        text_opt(r) == description(node@),
{
    match first_value(node, "weatherDesc") {
        Some(t) => {
            let s = trim(t.as_str());
            if s.as_str().is_empty() {
                None
            } else {
                Some(s)
            }
        },
        None => None,
    }
}

/// Finds the hour that is noon.
fn find_noon(hours: &Vec<Json>) -> (r: Option<usize>)
    ensures
        match r {
            Some(i) => i < hours@.len() && noon(views(hours@)) == Some(i as nat),
            None => noon(views(hours@)) is None,
        },
{
    let ghost all = views(hours@);
    let n = hours.len();
    let mut found: Option<usize> = None;
    let mut i: usize = 0;
    assert(all.subrange(0, 0) =~= Seq::empty());
    while i < n
        invariant
            i <= n,
            n == hours@.len(),
            all == views(hours@),
            match found {
                Some(k) => k < i && noon(all.subrange(0, i as int)) == Some(k as nat),
                None => noon(all.subrange(0, i as int)) is None,
            },
        decreases n - i,
    {
        let ghost seen = all.subrange(0, i + 1);
        assert(seen.drop_last() =~= all.subrange(0, i as int));
        assert(seen.last() == hours@[i as int]@);
        if found.is_none() {
            let is_noon = match text_of_member(&hours[i], "time") {
                Some(t) => same(t.as_str(), "1200"),
                None => false,
            };
            if is_noon {
                found = Some(i);
            }
        }
        i += 1;
    }
    assert(all.subrange(0, n as int) =~= all);
    found
}

/// The condition that stands for a day.
fn midday_desc(day: &Json) -> (r: String)
    ensures
        r@ == day_description(day@),
{
    match day.get("hourly") {
        Some(h) => match h.as_array() {
            Some(hours) => {
                let at: Option<usize> = match find_noon(hours) {
                    Some(i) => Some(i),
                    None => if hours.len() > 0 {
                        Some(hours.len() / 2)
                    } else {
                        None
                    },
                };
                match at {
                    Some(i) => {
                        assert(views(hours@)[i as int] == hours@[i as int]@);
                        match desc_value(&hours[i]) {
                            Some(d) => d,
                            None => String::new(),
                        }
                    },
                    None => String::new(),
                }
            },
            None => String::new(),
        },
        None => String::new(),
    }
}

/// Reads the days of a report.
fn read_days(v: &Json, fahrenheit: bool) -> (r: Vec<RawDay>)
    ensures
        Seq::new(r@.len(), |i: int| r@[i]@) == raw_days(v@, fahrenheit),
{
    let mut r: Vec<RawDay> = Vec::new();
    let (hi, lo) = if fahrenheit {
        ("maxtempF", "mintempF")
    } else {
        ("maxtempC", "mintempC")
    };
    match v.get("weather") {
        Some(w) => match w.as_array() {
            Some(days) => {
                let n = days.len();
                let mut i: usize = 0;
                while i < n
                    invariant
                        i <= n,
                        n == days@.len(),
                        hi@ == max_key(fahrenheit),
                        lo@ == min_key(fahrenheit),
                        r@.len() == i,
                        forall|k: int|
                            0 <= k < i ==> (#[trigger] r@[k])@ == raw_day(days@[k]@, fahrenheit),
                    decreases n - i,
                {
                    let day = &days[i];
                    let date = match text_of_member(day, "date") {
                        Some(d) => d,
                        None => String::new(),
                    };
                    r.push(
                        RawDay {
                            weekday: weekday_abbrev(date.as_str()),
                            desc: midday_desc(day),
                            tmax: text_of_member(day, hi),
                            tmin: text_of_member(day, lo),
                        },
                    );
                    i += 1;
                }
                assert(Seq::new(r@.len(), |i: int| r@[i]@) =~= raw_days(v@, fahrenheit));
                return r;
            },
            None => {},
        },
        None => {},
    }
    assert(Seq::new(r@.len(), |i: int| r@[i]@) =~= Seq::empty());
    r
}

/// Reads a report, if it has a current condition.
pub fn read_report(v: &Json, fahrenheit: bool) -> (r: Option<RawReport>)
    ensures
        match r {
            Some(report) => raw_report(v@, fahrenheit) == Some(report@),
            None => raw_report(v@, fahrenheit) is None,
        },
{
    let current = match v.get("current_condition") {
        Some(c) => match c.first() {
            Some(f) => f,
            None => {
                return None;
            },
        },
        None => {
            return None;
        },
    };
    let current_temp = if fahrenheit {
        text_of_member(current, "temp_F")
    } else {
        text_of_member(current, "temp_C")
    };
    let current_desc = match desc_value(current) {
        Some(d) => d,
        None => String::new(),
    };
    let city = match v.get("nearest_area") {
        Some(a) => match a.first() {
            Some(x) => match first_value(x, "areaName") {
                Some(t) => t,
                None => String::new(),
            },
            None => String::new(),
        },
        None => String::new(),
    };
    let days = read_days(v, fahrenheit);
    let report = RawReport { city, current_temp, current_desc, days };
    assert(report@.days == raw_days(v@, fahrenheit));
    Some(report)
}

/// A report that was fetched, is text, is valid JSON and has a current
/// condition.
pub open spec fn fetched(body: Option<Vec<u8>>, fahrenheit: bool) -> Option<RawReportView> {
    match body {
        Some(b) => if vstd::utf8::valid_utf8(b@) {
            match parsed_json(b@) {
                Some(v) => raw_report(v, fahrenheit),
                None => None,
            }
        } else {
            None
        },
        None => None,
    }
}

/// Reads what was fetched; nothing where the fetch failed.
pub fn fetch_weather(body: &Option<Vec<u8>>, fahrenheit: bool) -> (r: Option<RawReport>)
    ensures
        match r {
            Some(report) => fetched(*body, fahrenheit) == Some(report@),
            None => fetched(*body, fahrenheit) is None,
        },
{
    match body {
        Some(b) => {
            if crate::text::from_utf8(b.as_slice()).is_none() {
                return None;
            }
            match parse_json(b.as_slice()) {
                Some(v) => read_report(&v, fahrenheit),
                None => None,
            }
        },
        None => None,
    }
}

/// No degrees.
pub open spec fn zero() -> Signed {
    Signed { negative: false, amount: 0 }
}

/// A temperature of a day, none where it is no number.
pub open spec fn degrees(t: Option<Signed>) -> Signed {
    match t {
        Some(n) => n,
        None => zero(),
    }
}

/// The weather of a report, with its temperatures read: the current one, and the
/// highest and the lowest of each day, each absent where it is no number. No icon
/// is read from a report, so the names of all icons are empty.
pub open spec fn weather_of(
    report: RawReportView,
    current: Option<Signed>,
    temps: Seq<(Option<Signed>, Option<Signed>)>,
    fahrenheit: bool,
) -> WeatherView {
    WeatherView {
        available: true,
        city: report.city,
        current_temp: current,
        current_desc: report.current_desc,
        current_icon: Seq::empty(),
        unit: unit_sign(fahrenheit),
        days: Seq::new(
            report.days.len(),
            |i: int|
                DayView {
                    weekday: report.days[i].weekday,
                    desc: report.days[i].desc,
                    icon: Seq::empty(),
                    tmax: degrees(temps[i].0),
                    tmin: degrees(temps[i].1),
                },
        ),
    }
}

/// Puts the temperatures of a report to their places.
pub fn resolve_report(
    report: RawReport,
    current: Option<Signed>,
    temps: &Vec<(Option<Signed>, Option<Signed>)>,
    fahrenheit: bool,
) -> (r: WeatherData)
    requires
        temps@.len() == report.days@.len(),
    ensures
        r@ == weather_of(report@, current, temps@, fahrenheit),
{
    let ghost whole = report@;
    let mut days: Vec<DayForecast> = Vec::new();
    let n = report.days.len();
    let mut i: usize = 0;
    while i < n
        invariant
            i <= n,
            n == report.days@.len(),
            n == temps@.len(),
            whole == report@,
            days@.len() == i,
            forall|k: int|
                0 <= k < i ==> (#[trigger] days@[k])@ == weather_of(
                    whole,
                    current,
                    temps@,
                    fahrenheit,
                ).days[k],
        decreases n - i,
    {
        let d = &report.days[i];
        assert(whole.days[i as int] == d@);
        let none = Signed { negative: false, amount: 0 };
        let (hi, lo) = temps[i];
        days.push(
            DayForecast {
                weekday: d.weekday.clone(),
                desc: d.desc.clone(),
                icon: String::new(),
                tmax: match hi {
                    Some(t) => t,
                    None => none,
                },
                tmin: match lo {
                    Some(t) => t,
                    None => none,
                },
            },
        );
        i += 1;
    }
    let r = WeatherData {
        available: true,
        city: report.city,
        current_temp: current,
        current_desc: report.current_desc,
        current_icon: String::new(),
        unit: unit_text(fahrenheit),
        days,
    };
    assert(r@.days =~= weather_of(whole, current, temps@, fahrenheit).days);
    r
}

/// Keeps the latest weather, and when the next report is due, in nanoseconds.
pub struct WeatherManager {
    pub weather: WeatherData,
    pub next_fetch: u64,
}

impl WeatherManager {
    /// No weather yet, and a report due at once.
    pub fn new(fahrenheit: bool, now: u64) -> (r: WeatherManager)
        ensures
            r.weather@ == (WeatherView {
                available: false,
                city: Seq::empty(),
                current_temp: None,
                current_desc: Seq::empty(),
                current_icon: Seq::empty(),
                unit: unit_sign(fahrenheit),
                days: Seq::empty(),
            }),
            r.next_fetch == now,
    {
        let weather = WeatherData {
            available: false,
            city: String::new(),
            current_temp: None,
            current_desc: String::new(),
            current_icon: String::new(),
            unit: unit_text(fahrenheit),
            days: Vec::new(),
        };
        assert(weather@.days =~= Seq::empty());
        WeatherManager { weather, next_fetch: now }
    }

    /// Whether a report is due.
    pub fn fetch_due(&self, now: u64) -> (r: bool)
        ensures
            r == (now >= self.next_fetch),
    {
        now >= self.next_fetch
    }

    /// Takes over a report; a failed fetch leaves the weather as it is and is
    /// repeated sooner. The clock does not reach its end.
    pub fn store(&mut self, report: Option<WeatherData>, now: u64)
        requires
            now <= u64::MAX - WEATHER_REFRESH,
        ensures
            match report {
                Some(w) => final(self).weather@ == w@ && final(self).next_fetch == now
                    + WEATHER_REFRESH,
                None => final(self).weather@ == old(self).weather@ && final(self).next_fetch == now
                    + RETRY_REFRESH,
            },
            report is Some ==> final(self).next_fetch - now == 900_000_000_000,
            report is None ==> final(self).next_fetch - now == 60_000_000_000,
    {
        match report {
            Some(w) => {
                self.weather = w;
                self.next_fetch = now + WEATHER_REFRESH;
            },
            None => {
                self.next_fetch = now + RETRY_REFRESH;
            },
        }
    }

    /// The latest weather.
    pub fn data(&self) -> (r: WeatherData)
        ensures
            r@ == self.weather@,
    {
        self.weather.clone()
    }
}

/// The first element of a list that a member holds.
pub open spec fn first_of(v: JsonView, key: Seq<char>) -> Option<JsonView> {
    match v.get(key) {
        Some(list) => match list.array() {
            Some(elements) => if elements.len() > 0 {
                Some(elements[0])
            } else {
                None
            },
            None => None,
        },
        None => None,
    }
}

/// The text that a member holds.
pub open spec fn text_at(v: JsonView, key: Seq<char>) -> Option<Seq<char>> {
    match v.get(key) {
        Some(t) => t.string(),
        None => None,
    }
}

/// There is a report exactly if there is a current condition. Its temperature is
/// the one of that condition in the unit that is asked for, and its city is the
/// name of the nearest area.
pub proof fn report_gives_current_condition(v: JsonView, fahrenheit: bool)
    ensures
        match first_of(v, "current_condition"@) {
            Some(current) => {
                &&& raw_report(v, fahrenheit) matches Some(report)
                &&& fahrenheit ==> report.current_temp == text_at(current, "temp_F"@)
                &&& !fahrenheit ==> report.current_temp == text_at(current, "temp_C"@)
                &&& first_of(current, "weatherDesc"@) is None ==> report.current_desc.len() == 0
                &&& first_of(v, "nearest_area"@) matches Some(area) ==> first_of(area, "areaName"@)
                    matches Some(n) ==> text_at(n, "value"@) matches Some(city) ==> report.city
                    == city
                &&& first_of(v, "nearest_area"@) is None ==> report.city.len() == 0
                &&& first_of(current, "weatherDesc"@) matches Some(d) ==> text_at(d, "value"@)
                    matches Some(t) ==> report.current_desc == trimmed(t)
            },
            None => raw_report(v, fahrenheit) is None,
        },
{
    match first_of(v, "current_condition"@) {
        Some(current) => {
            match first_of(current, "weatherDesc"@) {
                Some(d) => match text_at(d, "value"@) {
                    Some(t) => {
                        if trimmed(t).len() == 0 {
                            assert(trimmed(t) =~= Seq::empty());
                        }
                    },
                    None => {},
                },
                None => {},
            }
        },
        None => {},
    }
}

/// A report has a day for each one in its list, in their order, each with its own
/// highest and lowest temperature in the unit that is asked for, the weekday of its
/// own date, and the condition of an hour of its own.
pub proof fn report_gives_each_day(v: JsonView, fahrenheit: bool, i: int)
    requires
        raw_report(v, fahrenheit) is Some,
        v.get("weather"@) matches Some(w) && w.array() matches Some(days) && 0 <= i < days.len(),
    ensures
        ({
            let days = (v.get("weather"@)->0).array()->0;
            let report = raw_report(v, fahrenheit)->0;
            &&& report.days.len() == days.len()
            &&& fahrenheit ==> report.days[i].tmax == text_at(days[i], "maxtempF"@)
                && report.days[i].tmin == text_at(days[i], "mintempF"@)
            &&& !fahrenheit ==> report.days[i].tmax == text_at(days[i], "maxtempC"@)
                && report.days[i].tmin == text_at(days[i], "mintempC"@)
            &&& text_at(days[i], "date"@) matches Some(date) ==> report.days[i].weekday
                == weekday_text(date)
            &&& match days[i].get("hourly"@) {
                Some(h) => match h.array() {
                    Some(hours) => midday(hours) matches Some(hour) ==> first_of(
                        hour,
                        "weatherDesc"@,
                    ) matches Some(d) ==> text_at(d, "value"@) matches Some(t)
                        ==> report.days[i].desc == trimmed(t),
                    None => report.days[i].desc.len() == 0,
                },
                None => report.days[i].desc.len() == 0,
            }
        }),
{
    let day = ((v.get("weather"@)->0).array()->0)[i];
    match day.get("hourly"@) {
        Some(h) => match h.array() {
            Some(hours) => match midday(hours) {
                Some(hour) => match first_of(hour, "weatherDesc"@) {
                    Some(d) => match text_at(d, "value"@) {
                        Some(t) => {
                            if trimmed(t).len() == 0 {
                                assert(trimmed(t) =~= Seq::empty());
                            }
                        },
                        None => {},
                    },
                    None => {},
                },
                None => {},
            },
            None => {},
        },
        None => {},
    }
}

/// The hour that stands for a day is the first one that is noon, and the middle one
/// where none is.
pub proof fn noon_stands_for_a_day(hours: Seq<JsonView>)
    requires
        hours.len() > 0,
    ensures
        ({
            let at_noon = |h: JsonView| text_at(h, "time"@) == Some("1200"@);
            exists|i: int|
                {
                    &&& 0 <= i < hours.len()
                    &&& midday(hours) == Some(#[trigger] hours[i])
                    &&& at_noon(hours[i]) ==> forall|j: int|
                        0 <= j < i ==> !at_noon(#[trigger] hours[j])
                    &&& !at_noon(hours[i]) ==> i == hours.len() / 2 && forall|j: int|
                        0 <= j < hours.len() ==> !at_noon(#[trigger] hours[j])
                }
        }),
{
    lemma_noon(hours);
    match noon(hours) {
        Some(i) => {
            assert(midday(hours) == Some(hours[i as int]));
        },
        None => {
            assert(midday(hours) == Some(hours[(hours.len() / 2) as int]));
        },
    }
}

proof fn lemma_noon(hours: Seq<JsonView>)
    ensures
        match noon(hours) {
            Some(i) => i < hours.len() && text_at(hours[i as int], "time"@) == Some("1200"@)
                && forall|j: int|
                0 <= j < i ==> text_at(#[trigger] hours[j], "time"@) != Some("1200"@),
            None => forall|j: int|
                0 <= j < hours.len() ==> text_at(#[trigger] hours[j], "time"@) != Some("1200"@),
        },
    decreases hours.len(),
{
    if hours.len() > 0 {
        let front = hours.drop_last();
        lemma_noon(front);
        let bound = match noon(front) {
            Some(i) => i as int,
            None => front.len() as int,
        };
        assert forall|j: int| 0 <= j < bound implies text_at(#[trigger] hours[j], "time"@) != Some(
            "1200"@,
        ) by {
            assert(front[j] == hours[j]);
        }
    }
}

/// The weather of a report is available, in its unit, with each temperature at its
/// own place: the current one, and of each day the highest and the lowest, none
/// where it is no number.
pub proof fn temperatures_are_put_to_their_places(
    report: RawReportView,
    current: Option<Signed>,
    temps: Seq<(Option<Signed>, Option<Signed>)>,
    fahrenheit: bool,
    i: int,
)
    requires
        temps.len() == report.days.len(),
    ensures
        ({
            let w = weather_of(report, current, temps, fahrenheit);
            &&& w.available
            &&& w.city == report.city
            &&& w.current_temp == current
            &&& w.current_desc == report.current_desc
            &&& fahrenheit ==> w.unit == seq!['°', 'F']
            &&& !fahrenheit ==> w.unit == seq!['°', 'C']
            &&& w.days.len() == report.days.len()
            &&& 0 <= i < temps.len() ==> {
                &&& w.days[i].weekday == report.days[i].weekday
                &&& w.days[i].desc == report.days[i].desc
                &&& temps[i].0 matches Some(t) ==> w.days[i].tmax == t
                &&& temps[i].1 matches Some(t) ==> w.days[i].tmin == t
                &&& temps[i].0 is None ==> w.days[i].tmax.amount == 0 && !w.days[i].tmax.negative
                &&& temps[i].1 is None ==> w.days[i].tmin.amount == 0 && !w.days[i].tmin.negative
            }
        }),
{
    reveal_strlit("°F");
    reveal_strlit("°C");
    assert("°F"@ =~= seq!['°', 'F']);
    assert("°C"@ =~= seq!['°', 'C']);
}

/// The address of a report names the place that it is for, with each space as a
/// plus sign, and none where no place is set.
pub proof fn report_is_for_its_place(location: Seq<char>)
    ensures
        ({
            let head = "https://wttr.in/"@;
            let url = report_url(Some(location));
            &&& url.len() == head.len() + location.len() + "?format=j1"@.len()
            &&& url.subrange(0, head.len() as int) == head
            &&& forall|i: int|
                0 <= i < location.len() ==> #[trigger] url[head.len() + i] == if location[i] == ' ' {
                    '+'
                } else {
                    location[i]
                }
            &&& url.subrange((head.len() + location.len()) as int, url.len() as int) == "?format=j1"@
        }),
        report_url(None) == "https://wttr.in/?format=j1"@,
{
    let head = "https://wttr.in/"@;
    let url = report_url(Some(location));
    assert(url.subrange(0, head.len() as int) =~= head);
    assert(url.subrange((head.len() + location.len()) as int, url.len() as int) =~= "?format=j1"@);
}

} // verus!
