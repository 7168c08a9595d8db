//! Normalization for the second upstream provider: a REST API that reports
//! current conditions with a textual compass wind direction and forecasts as
//! a pre-grouped per-day array.
//!
//! The hosting program decodes the upstream JSON body and hands the decoded
//! fields over in milli-units (thousandths); everything from there on is
//! verified. This provider reports no daily range with current conditions,
//! so the mapping surrounds the current temperature with a fixed synthetic
//! band of 2 degrees either way — documented behaviour, not a derived range.

use vstd::prelude::*;

use crate::model::{sort_forecasts, sorted_by_date, CurrentWeather, DayForecast};
use crate::text::str_eq;

verus! {

/// The fields the mapping reads from a decoded current-conditions body:
/// the `current` object's readings and the `location` object's country.
/// Numeric fields are in milli-units of the upstream unit.
pub struct WeatherApiCurrent {
    /// current.temp_c, in milli-degrees Celsius.
    pub temp_c: i32,
    /// current.humidity, in milli-percent.
    pub humidity: i32,
    /// current.condition.text.
    pub condition: String,
    /// current.wind_kph, in milli-km/h.
    pub wind_kph: i32,
    /// current.wind_dir: a compass label such as "NNE".
    pub wind_dir: String,
    /// current.uv, in milli-index-points.
    pub uv: i32,
    /// current.vis_km, in milli-km.
    pub vis_km: i32,
    /// location.country.
    pub country: String,
}

/// One decoded entry of the upstream `forecast.forecastday` array.
pub struct ForecastDay {
    /// The entry's calendar date, as upstream writes it.
    pub date: String,
    /// day.maxtemp_c, in milli-degrees Celsius.
    pub maxtemp_c: i32,
    /// day.mintemp_c, in milli-degrees Celsius.
    pub mintemp_c: i32,
    /// day.condition.text.
    pub condition: String,
}

/// The fixed 16-point compass table, in milli-degrees: N is 0, and each
/// step clockwise adds 22500. A label outside the table reads as 0.
pub open spec fn compass_milli_degrees(s: Seq<char>) -> int {
    if s == "N"@ {
        0
    } else if s == "NNE"@ {
        22500
    } else if s == "NE"@ {
        45000
    } else if s == "ENE"@ {
        67500
    } else if s == "E"@ {
        90000
    } else if s == "ESE"@ {
        112500
    } else if s == "SE"@ {
        135000
    } else if s == "SSE"@ {
        157500
    } else if s == "S"@ {
        180000
    } else if s == "SSW"@ {
        202500
    } else if s == "SW"@ {
        225000
    } else if s == "WSW"@ {
        247500
    } else if s == "W"@ {
        270000
    } else if s == "WNW"@ {
        292500
    } else if s == "NW"@ {
        315000
    } else if s == "NNW"@ {
        337500
    } else {
        0
    }
}

/// Translates a compass label into milli-degrees, exactly as the table
/// gives it; unrecognized labels translate to 0.
pub fn wind_direction_to_degrees(direction: &str) -> (d: i64)
    ensures
        d == compass_milli_degrees(direction@),
{
    if str_eq(direction, "N") {
        0
    } else if str_eq(direction, "NNE") {
        22500
    } else if str_eq(direction, "NE") {
        45000
    } else if str_eq(direction, "ENE") {
        67500
    } else if str_eq(direction, "E") {
        90000
    } else if str_eq(direction, "ESE") {
        112500
    } else if str_eq(direction, "SE") {
        135000
    } else if str_eq(direction, "SSE") {
        157500
    } else if str_eq(direction, "S") {
        180000
    } else if str_eq(direction, "SSW") {
        202500
    } else if str_eq(direction, "SW") {
        225000
    } else if str_eq(direction, "WSW") {
        247500
    } else if str_eq(direction, "W") {
        270000
    } else if str_eq(direction, "WNW") {
        292500
    } else if str_eq(direction, "NW") {
        315000
    } else if str_eq(direction, "NNW") {
        337500
    } else {
        0
    }
}

/// Maps a decoded current-conditions body into the common model: readings
/// carry over field by field, the compass label becomes degrees, and the
/// daily range is the fixed 2-degree synthetic band around the current
/// temperature.
pub fn normalize_current(obs: &WeatherApiCurrent) -> (w: CurrentWeather)
    ensures
        w.temperature == obs.temp_c as int,
        w.humidity == obs.humidity as int,
        w.condition@ == obs.condition@,
        w.wind_speed == obs.wind_kph as int,
        w.wind_direction == compass_milli_degrees(obs.wind_dir@),
        w.uv_index == obs.uv as int,
        w.visibility == obs.vis_km as int,
        w.country@ == obs.country@,
        w.max_temp == obs.temp_c + 2000,
        w.min_temp == obs.temp_c - 2000,
{
    CurrentWeather {
        temperature: obs.temp_c as i64,
        humidity: obs.humidity as i64,
        condition: obs.condition.clone(),
        wind_speed: obs.wind_kph as i64,
        wind_direction: wind_direction_to_degrees(obs.wind_dir.as_str()),
        uv_index: obs.uv as i64,
        visibility: obs.vis_km as i64,
        country: obs.country.clone(),
        max_temp: obs.temp_c as i64 + 2000,
        min_temp: obs.temp_c as i64 - 2000,
    }
}

/// The day of the common model that one upstream forecast entry maps to.
pub open spec fn day_forecast_of(f: ForecastDay) -> DayForecast {
    DayForecast {
        date: f.date,
        max_temp: f.maxtemp_c as i64,
        min_temp: f.mintemp_c as i64,
        condition: f.condition,
    }
}

/// Maps the pre-grouped per-day array entry for entry — no aggregation —
/// and returns the days sorted ascending by date.
pub fn normalize_forecast(fdays: &Vec<ForecastDay>) -> (r: Vec<DayForecast>)
    ensures
        r@.to_multiset() == fdays@.map_values(|f: ForecastDay| day_forecast_of(f)).to_multiset(),
        r@.len() == fdays@.len(),
        sorted_by_date(r@),
{
    let mut mapped: Vec<DayForecast> = Vec::new();
    let mut i: usize = 0;
    while i < fdays.len()
        invariant
            i <= fdays@.len(),
            mapped@.len() == i,
            forall|t: int| 0 <= t < i ==> mapped@[t] == day_forecast_of(fdays@[t]),
        decreases fdays@.len() - i,
    {
        let f = &fdays[i];
        mapped.push(
            DayForecast {
                date: f.date.clone(),
                max_temp: f.maxtemp_c as i64,
                min_temp: f.mintemp_c as i64,
                condition: f.condition.clone(),
            },
        );
        i = i + 1;
    }
    proof {
        assert(mapped@ =~= fdays@.map_values(|f: ForecastDay| day_forecast_of(f)));
    }
    sort_forecasts(mapped)
}

} // verus!
