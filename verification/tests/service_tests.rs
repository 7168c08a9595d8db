use weather_service::error::{AppError, FaultKind};
use weather_service::model::{CurrentWeather, DayForecast, WeatherProvider};
use weather_service::service::WeatherServiceImpl;

fn mock_weather() -> CurrentWeather {
    CurrentWeather {
        temperature: 20_000,
        humidity: 50_000,
        condition: "Sunny".to_string(),
        wind_speed: 10_000,
        wind_direction: 180_000,
        uv_index: 5_000,
        visibility: 10_000,
        country: "US".to_string(),
        max_temp: 25_000,
        min_temp: 15_000,
    }
}

#[test]
fn test_dispatch_recognized_names_any_case() {
    let svc = WeatherServiceImpl::new();
    for name in ["openweather", "OpenWeather", "OPENWEATHER", "oPeNwEaThEr"] {
        assert_eq!(svc.get_provider(name).unwrap(), WeatherProvider::OpenWeather);
    }
    for name in ["weatherapi", "WeatherAPI", "WEATHERAPI", "wEaThErApI"] {
        assert_eq!(svc.get_provider(name).unwrap(), WeatherProvider::WeatherApi);
    }
}

#[test]
fn test_dispatch_unknown_name_is_invalid_argument() {
    let svc = WeatherServiceImpl::new();
    for name in ["", "noaa", "openweather ", "weather", "openweatherx"] {
        match svc.get_provider(name) {
            Err(AppError::Invalidreqwest(m)) => {
                assert_eq!(m, format!("Invalid provider: {}", name));
            },
            other => panic!("expected an invalid-argument error, got {:?}", other),
        }
    }
}

#[test]
fn test_provider_names() {
    assert_eq!(WeatherProvider::OpenWeather.name(), "OpenWeather");
    assert_eq!(WeatherProvider::WeatherApi.name(), "WeatherAPI");
}

#[test]
fn test_get_current_weather_success() {
    let svc = WeatherServiceImpl::new();
    let response = svc
        .get_current_weather(WeatherProvider::OpenWeather, Ok(mock_weather()))
        .unwrap();
    assert_eq!(response.temperature as f64 / 1000.0, 20.0);
    assert_eq!(response.condition, "Sunny");
    assert_eq!(response.provider, "OpenWeather");
    assert_eq!(response.max_temp as f64 / 1000.0, 25.0);
    assert_eq!(response.min_temp as f64 / 1000.0, 15.0);
}

#[test]
fn test_get_forecast_success() {
    let svc = WeatherServiceImpl::new();
    let forecasts = vec![DayForecast {
        date: "2024-03-20".to_string(),
        max_temp: 25_000,
        min_temp: 15_000,
        condition: "Sunny".to_string(),
    }];
    let response = svc.get_forecast(Ok(forecasts)).unwrap();
    assert_eq!(response.forecasts[0].date, "2024-03-20");
    assert_eq!(response.forecasts[0].max_temp as f64 / 1000.0, 25.0);
}

#[test]
fn test_upstream_failure_is_unavailable() {
    let svc = WeatherServiceImpl::new();
    let fault = svc
        .get_current_weather(WeatherProvider::WeatherApi, Err("connection refused".to_string()))
        .unwrap_err();
    assert_eq!(fault.kind, FaultKind::Unavailable);
    assert_eq!(fault.message, "connection refused");

    let fault = svc.get_forecast(Err("bad body".to_string())).unwrap_err();
    assert_eq!(fault.kind, FaultKind::Unavailable);
    assert_eq!(fault.message, "bad body");
}

#[test]
fn test_rain_chance_is_always_zero() {
    let svc = WeatherServiceImpl::new();
    let from_openweather = svc
        .get_current_weather(WeatherProvider::OpenWeather, Ok(mock_weather()))
        .unwrap();
    assert_eq!(from_openweather.rain_chance, 0);
    let mut other = mock_weather();
    other.condition = "Rain".to_string();
    let from_weatherapi = svc
        .get_current_weather(WeatherProvider::WeatherApi, Ok(other))
        .unwrap();
    assert_eq!(from_weatherapi.rain_chance, 0);
    assert_eq!(from_weatherapi.provider, "WeatherAPI");
}
