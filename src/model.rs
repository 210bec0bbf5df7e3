use vstd::prelude::*;

use crate::reading::{reading_text, same_value, Reading};
use crate::text::{decimal, push_decimal};

verus! {

/// Where the weather was measured. `localtime` is kept as the text the API
/// sent; it plays no part in equality.
#[derive(Debug)]
pub struct Location {
    pub name: String,
    pub region: String,
    pub country: String,
    pub localtime: String,
}

pub struct LocationView {
    pub name: Seq<char>,
    pub region: Seq<char>,
    pub country: Seq<char>,
    pub localtime: Seq<char>,
}

impl View for Location {
    type V = LocationView;

    open spec fn view(&self) -> LocationView {
        LocationView {
            name: self.name@,
            region: self.region@,
            country: self.country@,
            localtime: self.localtime@,
        }
    }
}

/// The sky as the API describes it, with the path of its icon.
#[derive(Debug)]
pub struct Condition {
    pub text: String,
    pub icon: String,
}

pub struct ConditionView {
    pub text: Seq<char>,
    pub icon: Seq<char>,
}

impl View for Condition {
    type V = ConditionView;

    open spec fn view(&self) -> ConditionView {
        ConditionView { text: self.text@, icon: self.icon@ }
    }
}

/// The weather right now.
#[derive(Debug)]
pub struct CurrentWeather {
    pub temp_c: Reading,
    pub feelslike_c: Reading,
    pub wind_kph: Reading,
    pub wind_dir: String,
    pub precip_mm: Reading,
    pub condition: Condition,
}

pub struct CurrentWeatherView {
    pub temp_c: Reading,
    pub feelslike_c: Reading,
    pub wind_kph: Reading,
    pub wind_dir: Seq<char>,
    pub precip_mm: Reading,
    pub condition: ConditionView,
}

impl View for CurrentWeather {
    type V = CurrentWeatherView;

    open spec fn view(&self) -> CurrentWeatherView {
        CurrentWeatherView {
            temp_c: self.temp_c,
            feelslike_c: self.feelslike_c,
            wind_kph: self.wind_kph,
            wind_dir: self.wind_dir@,
            precip_mm: self.precip_mm,
            condition: self.condition@,
        }
    }
}

/// The summary of one forecast day.
#[derive(Clone, Copy, Debug)]
pub struct ForecastDayWeather {
    pub maxtemp_c: Reading,
    pub mintemp_c: Reading,
    pub totalprecip_mm: Reading,
}

/// One forecast day: its date (`YYYY-MM-DD`, as sent) and its summary.
#[derive(Debug)]
pub struct ForecastDay {
    pub date: String,
    pub day: ForecastDayWeather,
}

pub struct ForecastDayView {
    pub date: Seq<char>,
    pub day: ForecastDayWeather,
}

impl View for ForecastDay {
    type V = ForecastDayView;

    open spec fn view(&self) -> ForecastDayView {
        ForecastDayView { date: self.date@, day: self.day }
    }
}

/// The forecast days, in the order the API sent them.
#[derive(Debug)]
pub struct Forecast {
    pub forecastday: Vec<ForecastDay>,
}

impl View for Forecast {
    type V = Seq<ForecastDayView>;

    open spec fn view(&self) -> Seq<ForecastDayView> {
        self.forecastday@.map_values(|d: ForecastDay| d@)
    }
}

/// One decoded answer of the API: where, now, and (for a forecast request)
/// the days ahead.
#[derive(Debug)]
pub struct WeatherInfo {
    pub location: Location,
    pub current: CurrentWeather,
    pub forecast: Option<Forecast>,
}

pub struct WeatherInfoView {
    pub location: LocationView,
    pub current: CurrentWeatherView,
    pub forecast: Option<Seq<ForecastDayView>>,
}

impl View for WeatherInfo {
    type V = WeatherInfoView;

    open spec fn view(&self) -> WeatherInfoView {
        WeatherInfoView {
            location: self.location@,
            current: self.current@,
            forecast: match self.forecast {
                Some(f) => Some(f@),
                None => None,
            },
        }
    }
}

/// Two locations are the same place: name, region and country agree.
pub open spec fn same_place(a: LocationView, b: LocationView) -> bool {
    a.name == b.name && a.region == b.region && a.country == b.country
}

/// The same weather now: equal readings, wind direction and condition.
pub open spec fn same_current(a: CurrentWeatherView, b: CurrentWeatherView) -> bool {
    &&& same_value(a.temp_c, b.temp_c)
    &&& same_value(a.feelslike_c, b.feelslike_c)
    &&& same_value(a.wind_kph, b.wind_kph)
    &&& a.wind_dir == b.wind_dir
    &&& same_value(a.precip_mm, b.precip_mm)
    &&& a.condition == b.condition
}

/// The same day summary: equal readings.
pub open spec fn same_day_weather(a: ForecastDayWeather, b: ForecastDayWeather) -> bool {
    same_value(a.maxtemp_c, b.maxtemp_c) && same_value(a.mintemp_c, b.mintemp_c) && same_value(
        a.totalprecip_mm,
        b.totalprecip_mm,
    )
}

/// The same forecast day: equal date and summary.
pub open spec fn same_day(a: ForecastDayView, b: ForecastDayView) -> bool {
    a.date == b.date && same_day_weather(a.day, b.day)
}

/// The same forecast days, in the same order.
pub open spec fn same_days(a: Seq<ForecastDayView>, b: Seq<ForecastDayView>) -> bool {
    a.len() == b.len() && forall|i: int| 0 <= i < a.len() ==> same_day(#[trigger] a[i], b[i])
}

/// Two answers agree on everything but the local time.
pub open spec fn same_weather(a: WeatherInfoView, b: WeatherInfoView) -> bool {
    &&& same_place(a.location, b.location)
    &&& same_current(a.current, b.current)
    &&& match (a.forecast, b.forecast) {
        (Some(x), Some(y)) => same_days(x, y),
        (None, None) => true,
        _ => false,
    }
}

impl PartialEq for Location {
    fn eq(&self, other: &Location) -> (r: bool) {
        self.name == other.name && self.region == other.region && self.country == other.country
    }
}

impl vstd::std_specs::cmp::PartialEqSpecImpl for Location {
    open spec fn obeys_eq_spec() -> bool {
        true
    }

    open spec fn eq_spec(&self, other: &Location) -> bool {
        same_place(self@, other@)
    }
}

impl PartialEq for Condition {
    fn eq(&self, other: &Condition) -> (r: bool) {
        self.text == other.text && self.icon == other.icon
    }
}

impl vstd::std_specs::cmp::PartialEqSpecImpl for Condition {
    open spec fn obeys_eq_spec() -> bool {
        true
    }

    open spec fn eq_spec(&self, other: &Condition) -> bool {
        self@ == other@
    }
}

impl PartialEq for CurrentWeather {
    fn eq(&self, other: &CurrentWeather) -> (r: bool) {
        self.temp_c == other.temp_c && self.feelslike_c == other.feelslike_c && self.wind_kph
            == other.wind_kph && self.wind_dir == other.wind_dir && self.precip_mm
            == other.precip_mm && self.condition == other.condition
    }
}

impl vstd::std_specs::cmp::PartialEqSpecImpl for CurrentWeather {
    open spec fn obeys_eq_spec() -> bool {
        true
    }

    open spec fn eq_spec(&self, other: &CurrentWeather) -> bool {
        same_current(self@, other@)
    }
}

impl PartialEq for ForecastDayWeather {
    fn eq(&self, other: &ForecastDayWeather) -> (r: bool) {
        self.maxtemp_c == other.maxtemp_c && self.mintemp_c == other.mintemp_c
            && self.totalprecip_mm == other.totalprecip_mm
    }
}

impl vstd::std_specs::cmp::PartialEqSpecImpl for ForecastDayWeather {
    open spec fn obeys_eq_spec() -> bool {
        true
    }

    open spec fn eq_spec(&self, other: &ForecastDayWeather) -> bool {
        same_day_weather(*self, *other)
    }
}

impl PartialEq for ForecastDay {
    fn eq(&self, other: &ForecastDay) -> (r: bool) {
        self.date == other.date && self.day == other.day
    }
}

impl vstd::std_specs::cmp::PartialEqSpecImpl for ForecastDay {
    open spec fn obeys_eq_spec() -> bool {
        true
    }

    open spec fn eq_spec(&self, other: &ForecastDay) -> bool {
        same_day(self@, other@)
    }
}

impl PartialEq for Forecast {
    fn eq(&self, other: &Forecast) -> (r: bool) {
        let n = self.forecastday.len();
        if n != other.forecastday.len() {
            assert(self@.len() != other@.len());
            return false;
        }
        let mut i: usize = 0;
        while i < n
            invariant
                n == self.forecastday@.len(),
                n == other.forecastday@.len(),
                i <= n,
                forall|j: int| 0 <= j < i ==> same_day(#[trigger] self@[j], other@[j]),
            decreases n - i,
        {
            if !(self.forecastday[i] == other.forecastday[i]) {
                assert(!same_day(self@[i as int], other@[i as int]));
                return false;
            }
            i = i + 1;
        }
        true
    }
}

impl vstd::std_specs::cmp::PartialEqSpecImpl for Forecast {
    open spec fn obeys_eq_spec() -> bool {
        true
    }

    open spec fn eq_spec(&self, other: &Forecast) -> bool {
        same_days(self@, other@)
    }
}

impl PartialEq for WeatherInfo {
    fn eq(&self, other: &WeatherInfo) -> (r: bool) {
        let same_forecast = match (&self.forecast, &other.forecast) {
            (Some(a), Some(b)) => a == b,
            (None, None) => true,
            _ => false,
        };
        self.location == other.location && self.current == other.current && same_forecast
    }
}

impl vstd::std_specs::cmp::PartialEqSpecImpl for WeatherInfo {
    open spec fn obeys_eq_spec() -> bool {
        true
    }

    open spec fn eq_spec(&self, other: &WeatherInfo) -> bool {
        same_weather(self@, other@)
    }
}

/// `name, region, country`.
pub open spec fn location_text(l: LocationView) -> Seq<char> {
    l.name + ", "@ + l.region + ", "@ + l.country
}

/// The lines of one forecast day.
pub open spec fn day_text(d: ForecastDayView) -> Seq<char> {
    "* "@ + d.date + "\n * Max Temp: "@ + reading_text(d.day.maxtemp_c) + "\n * Min Temp: "@
        + reading_text(d.day.mintemp_c) + "\n * Projected Precipition: "@ + reading_text(
        d.day.totalprecip_mm,
    ) + "\n"@
}

/// The lines of the forecast days, in order.
pub open spec fn days_text(days: Seq<ForecastDayView>) -> Seq<char>
    decreases days.len(),
{
    if days.len() == 0 {
        Seq::empty()
    } else {
        days_text(days.drop_last()) + day_text(days.last())
    }
}

/// The whole rendering of an answer.
pub open spec fn weather_text(w: WeatherInfoView) -> Seq<char> {
    let today = "# "@ + location_text(w.location) + "\n## Today:\nTemp: "@ + reading_text(
        w.current.temp_c,
    ) + ", Feels Like: "@ + reading_text(w.current.feelslike_c) + "\n"@;
    match w.forecast {
        None => today,
        Some(days) => today + "## Next "@ + decimal(days.len()) + " days:\n"@ + days_text(days),
    }
}

impl Location {
    /// The location as `name, region, country`.
    pub fn get_formatted_location(&self) -> (r: String)
        ensures
            r@ == location_text(self@),
    {
        let mut s = String::from_str(self.name.as_str());
        s.append(", ");
        s.append(self.region.as_str());
        s.append(", ");
        s.append(self.country.as_str());
        s
    }
}

impl ForecastDay {
    /// Appends the lines of this day to `out`.
    fn push_text(&self, out: &mut String)
        ensures
            final(out)@ == old(out)@ + day_text(self@),
    {
        let ghost start = out@;
        out.append("* ");
        out.append(self.date.as_str());
        out.append("\n * Max Temp: ");
        self.day.maxtemp_c.push_text(out);
        out.append("\n * Min Temp: ");
        self.day.mintemp_c.push_text(out);
        out.append("\n * Projected Precipition: ");
        self.day.totalprecip_mm.push_text(out);
        out.append("\n");
        assert(out@ =~= start + day_text(self@));
    }
}

impl WeatherInfo {
    /// Renders the answer as text: a heading with the location, today's
    /// temperature and felt temperature, and, where there is a forecast, a
    /// section with one entry per day in the order given.
    pub fn display_weather_info(&self) -> (r: String)
        ensures
            r@ == weather_text(self@),
    {
        let mut out = String::from_str("# ");
        let place = self.location.get_formatted_location();
        out.append(place.as_str());
        out.append("\n## Today:\nTemp: ");
        self.current.temp_c.push_text(&mut out);
        out.append(", Feels Like: ");
        self.current.feelslike_c.push_text(&mut out);
        out.append("\n");
        match &self.forecast {
            None => {},
            Some(f) => {
                out.append("## Next ");
                push_decimal(&mut out, f.forecastday.len() as u128);
                out.append(" days:\n");
                let ghost head = out@;
                let n = f.forecastday.len();
                let mut i: usize = 0;
                while i < n
                    invariant
                        n == f@.len(),
                        i <= n,
                        out@ == head + days_text(f@.take(i as int)),
                    decreases n - i,
                {
                    f.forecastday[i].push_text(&mut out);
                    assert(f@.take(i + 1).drop_last() =~= f@.take(i as int));
                    i = i + 1;
                }
                assert(f@.take(n as int) =~= f@);
            },
        }
        assert(out@ =~= weather_text(self@));
        out
    }
}

} // verus!
