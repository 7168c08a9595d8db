use weather_service::openweather::{self, ForecastEntry, OpenWeatherCurrent};
use weather_service::weatherapi::{self, ForecastDay, WeatherApiCurrent};

/// Milli-units: 1000 fixed-point steps make one unit.
const MILLI: i64 = 1000;

fn degrees(label: &str) -> f64 {
    weatherapi::wind_direction_to_degrees(label) as f64 / MILLI as f64
}

#[test]
fn test_wind_direction_to_degrees() {
    assert_eq!(degrees("N"), 0.0);
    assert_eq!(degrees("E"), 90.0);
    assert_eq!(degrees("S"), 180.0);
    assert_eq!(degrees("W"), 270.0);
    assert_eq!(degrees("NW"), 315.0);
}

#[test]
fn test_wind_direction_full_compass() {
    let table = [
        ("N", 0.0),
        ("NNE", 22.5),
        ("NE", 45.0),
        ("ENE", 67.5),
        ("E", 90.0),
        ("ESE", 112.5),
        ("SE", 135.0),
        ("SSE", 157.5),
        ("S", 180.0),
        ("SSW", 202.5),
        ("SW", 225.0),
        ("WSW", 247.5),
        ("W", 270.0),
        ("WNW", 292.5),
        ("NW", 315.0),
        ("NNW", 337.5),
    ];
    for (label, expected) in table {
        assert_eq!(degrees(label), expected, "label {}", label);
    }
}

#[test]
fn test_wind_direction_unrecognized_label() {
    assert_eq!(degrees(""), 0.0);
    assert_eq!(degrees("n"), 0.0);
    assert_eq!(degrees("NORTH"), 0.0);
    assert_eq!(degrees("XYZ"), 0.0);
}

fn weatherapi_fixture() -> WeatherApiCurrent {
    WeatherApiCurrent {
        temp_c: 20 * MILLI as i32,
        humidity: 50 * MILLI as i32,
        condition: "Sunny".to_string(),
        wind_kph: 10 * MILLI as i32,
        wind_dir: "SSW".to_string(),
        uv: 5 * MILLI as i32,
        vis_km: 10 * MILLI as i32,
        country: "US".to_string(),
    }
}

#[test]
fn test_weatherapi_current_synthetic_band() {
    let w = weatherapi::normalize_current(&weatherapi_fixture());
    assert_eq!(w.temperature as f64 / MILLI as f64, 20.0);
    assert_eq!(w.humidity as f64 / MILLI as f64, 50.0);
    assert_eq!(w.condition, "Sunny");
    assert_eq!(w.max_temp as f64 / MILLI as f64, 22.0);
    assert_eq!(w.min_temp as f64 / MILLI as f64, 18.0);
    assert_eq!(w.wind_direction, weatherapi::wind_direction_to_degrees("SSW"));
    assert_eq!(w.wind_direction as f64 / MILLI as f64, 202.5);
    assert_eq!(w.uv_index as f64 / MILLI as f64, 5.0);
    assert_eq!(w.visibility as f64 / MILLI as f64, 10.0);
    assert_eq!(w.country, "US");
}

fn forecast_day(date: &str, maxtemp: i32, mintemp: i32, condition: &str) -> ForecastDay {
    ForecastDay {
        date: date.to_string(),
        maxtemp_c: maxtemp * MILLI as i32,
        mintemp_c: mintemp * MILLI as i32,
        condition: condition.to_string(),
    }
}

#[test]
fn test_weatherapi_forecast_sorted_ascending() {
    let days = vec![
        forecast_day("2024-03-22", 18, 9, "Rain"),
        forecast_day("2024-03-20", 25, 15, "Sunny"),
        forecast_day("2024-03-21", 21, 12, "Cloudy"),
    ];
    let out = weatherapi::normalize_forecast(&days);
    assert_eq!(out.len(), 3);
    assert_eq!(out[0].date, "2024-03-20");
    assert_eq!(out[1].date, "2024-03-21");
    assert_eq!(out[2].date, "2024-03-22");
    assert_eq!(out[0].max_temp, 25 * MILLI);
    assert_eq!(out[0].min_temp, 15 * MILLI);
    assert_eq!(out[0].condition, "Sunny");
    assert_eq!(out[2].condition, "Rain");
}

fn openweather_fixture() -> OpenWeatherCurrent {
    OpenWeatherCurrent {
        temp: 20 * MILLI as i32,
        humidity: 50 * MILLI as i32,
        temp_max: 25 * MILLI as i32,
        temp_min: 15 * MILLI as i32,
        conditions: vec!["Clear".to_string(), "Mist".to_string()],
        wind_speed: 10 * MILLI as i32,
        wind_deg: 180 * MILLI as i32,
        visibility: 10000,
        country: "US".to_string(),
    }
}

#[test]
fn test_openweather_current_mapping() {
    let w = openweather::normalize_current(&openweather_fixture()).unwrap();
    assert_eq!(w.temperature, 20 * MILLI);
    assert_eq!(w.humidity, 50 * MILLI);
    assert_eq!(w.condition, "Clear");
    assert_eq!(w.wind_speed, 10 * MILLI);
    assert_eq!(w.wind_direction, 180 * MILLI);
    assert_eq!(w.uv_index, 0);
    // 10000 metres read as milli-km: exactly 10 km.
    assert_eq!(w.visibility as f64 / MILLI as f64, 10.0);
    assert_eq!(w.country, "US");
    assert_eq!(w.max_temp, 25 * MILLI);
    assert_eq!(w.min_temp, 15 * MILLI);
}

#[test]
fn test_openweather_current_missing_condition() {
    let mut obs = openweather_fixture();
    obs.conditions = Vec::new();
    let r = openweather::normalize_current(&obs);
    assert_eq!(r.unwrap_err(), "missing weather condition");
}

fn entry(dt_txt: &str, temp: i32, condition: &str) -> ForecastEntry {
    ForecastEntry {
        dt_txt: dt_txt.to_string(),
        temp: temp * MILLI as i32,
        conditions: vec![condition.to_string()],
    }
}

fn six_entries_two_dates() -> Vec<ForecastEntry> {
    vec![
        entry("2024-03-21 00:00:00", 11, "Rain"),
        entry("2024-03-20 03:00:00", 14, "Clouds"),
        entry("2024-03-20 09:00:00", 21, "Clear"),
        entry("2024-03-21 12:00:00", 16, "Rain"),
        entry("2024-03-20 15:00:00", 18, "Clear"),
        entry("2024-03-21 18:00:00", 8, "Snow"),
    ]
}

#[test]
fn test_openweather_forecast_two_dates_true_range() {
    let out = openweather::normalize_forecast(&six_entries_two_dates(), 2).unwrap();
    assert_eq!(out.len(), 2);
    assert_eq!(out[0].date, "2024-03-20");
    assert_eq!(out[0].max_temp, 21 * MILLI);
    assert_eq!(out[0].min_temp, 14 * MILLI);
    // The first 2024-03-20 entry in upstream order carries "Clouds".
    assert_eq!(out[0].condition, "Clouds");
    assert_eq!(out[1].date, "2024-03-21");
    assert_eq!(out[1].max_temp, 16 * MILLI);
    assert_eq!(out[1].min_temp, 8 * MILLI);
    assert_eq!(out[1].condition, "Rain");
}

#[test]
fn test_openweather_forecast_truncates_to_earliest_dates() {
    let mut entries = six_entries_two_dates();
    entries.push(entry("2024-03-19 06:00:00", 5, "Snow"));
    let out = openweather::normalize_forecast(&entries, 2).unwrap();
    assert_eq!(out.len(), 2);
    assert_eq!(out[0].date, "2024-03-19");
    assert_eq!(out[1].date, "2024-03-20");
}

#[test]
fn test_openweather_forecast_day_counts() {
    let entries = six_entries_two_dates();
    assert_eq!(openweather::normalize_forecast(&entries, 0).unwrap().len(), 0);
    assert_eq!(openweather::normalize_forecast(&entries, 1).unwrap().len(), 1);
    assert_eq!(openweather::normalize_forecast(&entries, 5).unwrap().len(), 2);
    // A negative request is read as unbounded, as an unsigned count would be.
    assert_eq!(openweather::normalize_forecast(&entries, -1).unwrap().len(), 2);
}

#[test]
fn test_openweather_forecast_empty_list() {
    let out = openweather::normalize_forecast(&Vec::new(), 5).unwrap();
    assert_eq!(out.len(), 0);
}

#[test]
fn test_openweather_forecast_missing_condition() {
    let mut entries = six_entries_two_dates();
    entries[1].conditions = Vec::new();
    let r = openweather::normalize_forecast(&entries, 2);
    assert_eq!(r.unwrap_err(), "missing weather condition");
}
