//! Typed domain model for current and forecast weather data, mirroring the
//! remote weather API's JSON schema.
//!
//! Every numeric field is carried verbatim from the API response: decimal
//! fields are held as [`Num`], the exact decimal text the response contained,
//! so no local unit conversion or reformatting ever happens.

use vstd::prelude::*;

verus! {

/// True for the ten decimal digit characters.
pub open spec fn is_digit(c: char) -> bool {
    '0' as u32 <= c as u32 <= '9' as u32
}

/// First index at or after `i` that does not hold a digit (or `s.len()`).
pub open spec fn digits_end(s: Seq<char>, i: int) -> int
    decreases s.len() - i,
{
    if i < 0 {
        i
    } else if i < s.len() && is_digit(s[i]) {
        digits_end(s, i + 1)
    } else {
        i
    }
}

/// The first non-digit index never lies before where the scan began.
pub proof fn lemma_digits_end_lb(s: Seq<char>, i: int)
    ensures
        digits_end(s, i) >= i,
    decreases s.len() - i,
{
    if 0 <= i < s.len() && is_digit(s[i]) {
        lemma_digits_end_lb(s, i + 1);
    }
}

/// End of the integer part of a number text that starts at `i`
/// (after any minus sign), or `-1` if there is none.
///
/// A JSON integer part is a single `0` or a nonzero digit followed by
/// any number of digits.
pub open spec fn int_part_end(s: Seq<char>, i: int) -> int {
    if i < s.len() && is_digit(s[i]) {
        if s[i] == '0' {
            i + 1
        } else {
            digits_end(s, i)
        }
    } else {
        -1
    }
}

/// End of an optional fraction part starting at `i`, or `-1` if `.` is
/// present but not followed by a digit.
pub open spec fn frac_part_end(s: Seq<char>, i: int) -> int {
    if 0 <= i < s.len() && s[i] == '.' {
        if i + 1 < s.len() && is_digit(s[i + 1]) {
            digits_end(s, i + 1)
        } else {
            -1
        }
    } else {
        i
    }
}

/// End of an optional exponent part starting at `i`, or `-1` if `e`/`E` is
/// present but not followed by an optionally signed digit run.
pub open spec fn exp_part_end(s: Seq<char>, i: int) -> int {
    if 0 <= i < s.len() && (s[i] == 'e' || s[i] == 'E') {
        let j = if i + 1 < s.len() && (s[i + 1] == '+' || s[i + 1] == '-') {
            i + 2
        } else {
            i + 1
        };
        if j < s.len() && is_digit(s[j]) {
            digits_end(s, j)
        } else {
            -1
        }
    } else {
        i
    }
}

/// True when `s` is the text of a JSON number: an optional minus sign, an
/// integer part without leading zeros, an optional fraction, and an
/// optional exponent.
pub open spec fn is_number_text(s: Seq<char>) -> bool {
    let start: int = if s.len() > 0 && s[0] == '-' {
        1
    } else {
        0
    };
    exp_part_end(s, frac_part_end(s, int_part_end(s, start))) == s.len()
}

/// A decimal number carried verbatim as the text the API response held
/// (for example `"18.5"`); the pipeline never converts or reformats it.
#[derive(Debug, Clone, PartialEq, Eq)]
pub struct Num {
    pub text: String,
}

impl Num {
    /// True when the carried text is a well-formed JSON number.
    pub open spec fn wf(self) -> bool {
        is_number_text(self.text@)
    }

    /// Wraps a decimal text.
    pub fn new(text: String) -> (r: Num)
        ensures
            r.text@ == text@,
    {
        Num { text }
    }

    /// A zero value, for freshly initialised models.
    pub fn zero() -> (r: Num)
        ensures
            r.text@ == "0"@,
            r.wf(),
    {
        proof {
            reveal_strlit("0");
        }
        let r = Num { text: String::from_str("0") };
        proof {
            assert(is_number_text(r.text@)) by {
                reveal_strlit("0");
            }
        }
        r
    }
}

/// Weather condition description: text, icon reference, and numeric code.
#[derive(Debug, Clone, PartialEq, Eq)]
pub struct WeatherCondition {
    pub text: String,
    pub icon: String,
    pub code: i64,
}

/// The place a report is about; populated once from a response.
#[derive(Debug, Clone, PartialEq, Eq)]
pub struct WeatherLocation {
    pub name: String,
    pub region: String,
    pub country: String,
    pub lat: Num,
    pub lon: Num,
    pub tz_id: String,
    pub localtime_epoch: i64,
    pub localtime: String,
}

/// Current conditions at a location.
#[derive(Debug, Clone, PartialEq, Eq)]
pub struct WeatherCurrent {
    pub last_updated_epoch: i64,
    pub last_updated: String,
    pub temp_c: Num,
    pub temp_f: Num,
    pub is_day: i64,
    pub condition: WeatherCondition,
    pub wind_mph: Num,
    pub wind_kph: Num,
    pub wind_degree: i64,
    pub wind_dir: String,
    pub pressure_mb: Num,
    pub pressure_in: Num,
    pub precip_mm: Num,
    pub precip_in: Num,
    pub humidity: i64,
    pub cloud: i64,
    pub feelslike_c: Num,
    pub feelslike_f: Num,
    pub vis_km: Num,
    pub vis_miles: Num,
    pub uv: Num,
    pub gust_mph: Num,
    pub gust_kph: Num,
}

/// One report for "now": a location plus its current conditions.
#[derive(Debug, Clone, PartialEq, Eq)]
pub struct Weather {
    pub location: WeatherLocation,
    pub current: WeatherCurrent,
}

/// Day-aggregate forecast values.
#[derive(Debug, Clone, PartialEq, Eq)]
pub struct Day {
    pub maxtemp_c: Num,
    pub maxtemp_f: Num,
    pub mintemp_c: Num,
    pub mintemp_f: Num,
    pub avgtemp_c: Num,
    pub avgtemp_f: Num,
    pub maxwind_mph: Num,
    pub maxwind_kph: Num,
    pub totalprecip_mm: Num,
    pub totalprecip_in: Num,
    pub totalsnow_cm: Num,
    pub avgvis_km: Num,
    pub avgvis_miles: Num,
    pub avghumidity: i64,
    pub daily_will_it_rain: i64,
    pub daily_chance_of_rain: i64,
    pub daily_will_it_snow: i64,
    pub daily_chance_of_snow: i64,
    pub condition: WeatherCondition,
    pub uv: Num,
}

/// Astronomical data for one forecast day.
#[derive(Debug, Clone, PartialEq, Eq)]
pub struct Astro {
    pub sunrise: String,
    pub sunset: String,
    pub moonrise: String,
    pub moonset: String,
    pub moon_phase: String,
    pub moon_illumination: Num,
    pub is_moon_up: i64,
    pub is_sun_up: i64,
}

/// Hourly conditions within a forecast day.
#[derive(Debug, Clone, PartialEq, Eq)]
pub struct Hour {
    pub time: String,
    pub temp_c: Num,
    pub temp_f: Num,
    pub is_day: i64,
    pub condition: WeatherCondition,
    pub wind_mph: Num,
    pub wind_kph: Num,
    pub wind_degree: i64,
    pub wind_dir: String,
    pub pressure_mb: Num,
    pub pressure_in: Num,
    pub precip_mm: Num,
    pub precip_in: Num,
    pub snow_cm: Num,
    pub humidity: i64,
    pub cloud: i64,
    pub feelslike_c: Num,
    pub feelslike_f: Num,
    pub windchill_c: Num,
    pub windchill_f: Num,
    pub heatindex_c: Num,
    pub heatindex_f: Num,
    pub dewpoint_c: Num,
    pub dewpoint_f: Num,
    pub will_it_rain: i64,
    pub chance_of_rain: i64,
    pub will_it_snow: i64,
    pub chance_of_snow: i64,
    pub vis_km: Num,
    pub vis_miles: Num,
    pub gust_mph: Num,
    pub gust_kph: Num,
    pub uv: Num,
}

/// One forecast day: date, aggregates, astronomy, and hourly conditions.
#[derive(Debug, Clone, PartialEq, Eq)]
pub struct ForecastDay {
    pub date: String,
    pub day: Day,
    pub astro: Astro,
    pub hour: Vec<Hour>,
}

/// The ordered forecast days of a forecast response.
#[derive(Debug, Clone, PartialEq, Eq)]
pub struct WeatherForecast {
    pub forecastday: Vec<ForecastDay>,
}

/// One forecast report: a location plus one entry per requested day.
#[derive(Debug, Clone, PartialEq, Eq)]
pub struct ForecastWeather {
    pub location: WeatherLocation,
    pub forecast: WeatherForecast,
}

impl WeatherCondition {
    /// All decimal fields hold well-formed number texts.
    pub open spec fn wf(self) -> bool {
        true
    }
}

impl WeatherLocation {
    /// All decimal fields hold well-formed number texts.
    pub open spec fn wf(self) -> bool {
        self.lat.wf() && self.lon.wf()
    }
}

impl WeatherCurrent {
    /// All decimal fields hold well-formed number texts.
    pub open spec fn wf(self) -> bool {
        &&& self.temp_c.wf()
        &&& self.temp_f.wf()
        &&& self.condition.wf()
        &&& self.wind_mph.wf()
        &&& self.wind_kph.wf()
        &&& self.pressure_mb.wf()
        &&& self.pressure_in.wf()
        &&& self.precip_mm.wf()
        &&& self.precip_in.wf()
        &&& self.feelslike_c.wf()
        &&& self.feelslike_f.wf()
        &&& self.vis_km.wf()
        &&& self.vis_miles.wf()
        &&& self.uv.wf()
        &&& self.gust_mph.wf()
        &&& self.gust_kph.wf()
    }
}

impl Weather {
    /// All decimal fields hold well-formed number texts.
    pub open spec fn wf(self) -> bool {
        self.location.wf() && self.current.wf()
    }
}

impl Day {
    /// All decimal fields hold well-formed number texts.
    pub open spec fn wf(self) -> bool {
        &&& self.maxtemp_c.wf()
        &&& self.maxtemp_f.wf()
        &&& self.mintemp_c.wf()
        &&& self.mintemp_f.wf()
        &&& self.avgtemp_c.wf()
        &&& self.avgtemp_f.wf()
        &&& self.maxwind_mph.wf()
        &&& self.maxwind_kph.wf()
        &&& self.totalprecip_mm.wf()
        &&& self.totalprecip_in.wf()
        &&& self.totalsnow_cm.wf()
        &&& self.avgvis_km.wf()
        &&& self.avgvis_miles.wf()
        &&& self.condition.wf()
        &&& self.uv.wf()
    }
}

impl Astro {
    /// All decimal fields hold well-formed number texts.
    pub open spec fn wf(self) -> bool {
        self.moon_illumination.wf()
    }
}

impl Hour {
    /// All decimal fields hold well-formed number texts.
    pub open spec fn wf(self) -> bool {
        &&& self.temp_c.wf()
        &&& self.temp_f.wf()
        &&& self.condition.wf()
        &&& self.wind_mph.wf()
        &&& self.wind_kph.wf()
        &&& self.pressure_mb.wf()
        &&& self.pressure_in.wf()
        &&& self.precip_mm.wf()
        &&& self.precip_in.wf()
        &&& self.snow_cm.wf()
        &&& self.feelslike_c.wf()
        &&& self.feelslike_f.wf()
        &&& self.windchill_c.wf()
        &&& self.windchill_f.wf()
        &&& self.heatindex_c.wf()
        &&& self.heatindex_f.wf()
        &&& self.dewpoint_c.wf()
        &&& self.dewpoint_f.wf()
        &&& self.vis_km.wf()
        &&& self.vis_miles.wf()
        &&& self.gust_mph.wf()
        &&& self.gust_kph.wf()
        &&& self.uv.wf()
    }
}

impl ForecastDay {
    /// All decimal fields hold well-formed number texts.
    pub open spec fn wf(self) -> bool {
        &&& self.day.wf()
        &&& self.astro.wf()
        &&& forall|i: int| 0 <= i < self.hour@.len() ==> (#[trigger] self.hour@[i]).wf()
    }
}

impl WeatherForecast {
    /// All decimal fields hold well-formed number texts.
    pub open spec fn wf(self) -> bool {
        forall|i: int| 0 <= i < self.forecastday@.len() ==> (#[trigger] self.forecastday@[i]).wf()
    }
}

impl ForecastWeather {
    /// All decimal fields hold well-formed number texts.
    pub open spec fn wf(self) -> bool {
        self.location.wf() && self.forecast.wf()
    }
}

/// True of a location whose text fields are empty and whose numeric fields
/// are zero, as a freshly created report holds it.
pub open spec fn is_empty_location(l: WeatherLocation) -> bool {
    &&& l.name@.len() == 0
    &&& l.region@.len() == 0
    &&& l.country@.len() == 0
    &&& l.lat.text@ == "0"@
    &&& l.lon.text@ == "0"@
    &&& l.tz_id@.len() == 0
    &&& l.localtime_epoch == 0
    &&& l.localtime@.len() == 0
}

/// True of current conditions whose text fields are empty and whose numeric
/// fields are zero.
pub open spec fn is_empty_current(c: WeatherCurrent) -> bool {
    &&& c.last_updated_epoch == 0
    &&& c.last_updated@.len() == 0
    &&& c.temp_c.text@ == "0"@
    &&& c.temp_f.text@ == "0"@
    &&& c.is_day == 0
    &&& c.condition.text@.len() == 0
    &&& c.condition.icon@.len() == 0
    &&& c.condition.code == 0
    &&& c.wind_mph.text@ == "0"@
    &&& c.wind_kph.text@ == "0"@
    &&& c.wind_degree == 0
    &&& c.wind_dir@.len() == 0
    &&& c.pressure_mb.text@ == "0"@
    &&& c.pressure_in.text@ == "0"@
    &&& c.precip_mm.text@ == "0"@
    &&& c.precip_in.text@ == "0"@
    &&& c.humidity == 0
    &&& c.cloud == 0
    &&& c.feelslike_c.text@ == "0"@
    &&& c.feelslike_f.text@ == "0"@
    &&& c.vis_km.text@ == "0"@
    &&& c.vis_miles.text@ == "0"@
    &&& c.uv.text@ == "0"@
    &&& c.gust_mph.text@ == "0"@
    &&& c.gust_kph.text@ == "0"@
}

fn empty_location() -> (r: WeatherLocation)
    ensures
        is_empty_location(r),
        r.wf(),
{
    WeatherLocation {
        name: String::new(),
        region: String::new(),
        country: String::new(),
        lat: Num::zero(),
        lon: Num::zero(),
        tz_id: String::new(),
        localtime_epoch: 0,
        localtime: String::new(),
    }
}

impl Weather {
    /// Creates a report whose fields are all empty or zero.
    pub fn new() -> (r: Self)
        ensures
            is_empty_location(r.location),
            is_empty_current(r.current),
            r.wf(),
    {
        Weather {
            location: empty_location(),
            current: WeatherCurrent {
                last_updated_epoch: 0,
                last_updated: String::new(),
                temp_c: Num::zero(),
                temp_f: Num::zero(),
                is_day: 0,
                condition: WeatherCondition {
                    text: String::new(),
                    icon: String::new(),
                    code: 0,
                },
                wind_mph: Num::zero(),
                wind_kph: Num::zero(),
                wind_degree: 0,
                wind_dir: String::new(),
                pressure_mb: Num::zero(),
                pressure_in: Num::zero(),
                precip_mm: Num::zero(),
                precip_in: Num::zero(),
                humidity: 0,
                cloud: 0,
                feelslike_c: Num::zero(),
                feelslike_f: Num::zero(),
                vis_km: Num::zero(),
                vis_miles: Num::zero(),
                uv: Num::zero(),
                gust_mph: Num::zero(),
                gust_kph: Num::zero(),
            },
        }
    }
}

impl Default for Weather {
    /// Same value as [`Weather::new`].
    fn default() -> (r: Self)
        ensures
            is_empty_location(r.location),
            is_empty_current(r.current),
            r.wf(),
    {
        Self::new()
    }
}

impl ForecastWeather {
    /// Creates a report whose location is empty and which has no forecast
    /// days.
    pub fn new() -> (r: Self)
        ensures
            is_empty_location(r.location),
            r.forecast.forecastday@.len() == 0,
            r.wf(),
    {
        ForecastWeather {
            location: empty_location(),
            forecast: WeatherForecast { forecastday: Vec::new() },
        }
    }
}

impl Default for ForecastWeather {
    /// Same value as [`ForecastWeather::new`].
    fn default() -> (r: Self)
        ensures
            is_empty_location(r.location),
            r.forecast.forecastday@.len() == 0,
            r.wf(),
    {
        Self::new()
    }
}

} // verus!
