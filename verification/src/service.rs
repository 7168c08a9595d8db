//! The request-handling core: resolving a provider by name and assembling
//! the response or fault for each of the two request kinds.
//!
//! The hosting program performs the one upstream HTTP call between the two
//! steps and hands the outcome back: either the normalized value or the
//! upstream error text. Every decision on either side of that call is made
//! here and verified: an unknown provider name becomes an invalid-argument
//! fault, an upstream failure becomes an unavailable fault with the message
//! preserved, and a success is translated field for field — never partially.

use vstd::prelude::*;

use crate::error::{to_fault, AppError, AppResult, Fault, FaultKind};
use crate::model::{provider_name, CurrentWeather, DayForecast, WeatherProvider};
use crate::text::{eq_ignore_ascii_case, str_ieq};

verus! {

/// The external response shape for a current-weather request. Numeric
/// fields are fixed-point milli-units, as in the common model.
#[derive(Clone, Debug)]
pub struct WeatherResponse {
    pub temperature: i64,
    pub humidity: i64,
    pub condition: String,
    pub wind_speed: i64,
    pub wind_direction: i64,
    pub uv_index: i64,
    pub visibility: i64,
    pub country: String,
    pub max_temp: i64,
    pub min_temp: i64,
    /// Which provider served the request.
    pub provider: String,
    /// Not computed by either provider: always 0, a documented constant.
    pub rain_chance: i64,
}

/// The external response shape for a forecast request.
#[derive(Clone, Debug)]
pub struct ForecastResponse {
    pub forecasts: Vec<DayForecast>,
}

/// The service handler: a stateless dispatcher over the two fixed
/// providers.
pub struct WeatherServiceImpl {}

impl WeatherServiceImpl {
    pub fn new() -> (s: WeatherServiceImpl) {
        WeatherServiceImpl {  }
    }

    /// Resolves a request's provider-name field, ignoring ASCII letter
    /// case; any name but the two recognized ones is an invalid argument,
    /// reported with the offending name.
    pub fn get_provider(&self, name: &str) -> (r: AppResult<WeatherProvider>)
        ensures
            eq_ignore_ascii_case(name@, "openweather"@) ==> r == Ok::<
                WeatherProvider,
                AppError,
            >(WeatherProvider::OpenWeather),
            eq_ignore_ascii_case(name@, "weatherapi"@) ==> r == Ok::<
                WeatherProvider,
                AppError,
            >(WeatherProvider::WeatherApi),
            !eq_ignore_ascii_case(name@, "openweather"@) && !eq_ignore_ascii_case(
                name@,
                "weatherapi"@,
            ) ==> (r matches Err(e) && e matches AppError::Invalidreqwest(m) && m@
                == "Invalid provider: "@ + name@),
    {
        proof {
            reveal_strlit("openweather");
            reveal_strlit("weatherapi");
        }
        if str_ieq(name, "openweather") {
            Ok(WeatherProvider::OpenWeather)
        } else if str_ieq(name, "weatherapi") {
            Ok(WeatherProvider::WeatherApi)
        } else {
            Err(AppError::Invalidreqwest(String::from_str("Invalid provider: ").concat(name)))
        }
    }

    /// Finishes a current-weather request: a fetched snapshot is carried
    /// into the response field for field, stamped with the serving
    /// provider's name and a rain chance of 0; an upstream failure becomes
    /// an unavailable fault carrying the error text verbatim. No partial
    /// response is ever produced.
    pub fn get_current_weather(
        &self,
        provider: WeatherProvider,
        fetched: Result<CurrentWeather, String>,
    ) -> (r: Result<WeatherResponse, Fault>)
        ensures
            r is Ok <==> fetched is Ok,
            fetched matches Ok(w) ==> (r matches Ok(resp) && {
                &&& resp.temperature == w.temperature
                &&& resp.humidity == w.humidity
                &&& resp.condition@ == w.condition@
                &&& resp.wind_speed == w.wind_speed
                &&& resp.wind_direction == w.wind_direction
                &&& resp.uv_index == w.uv_index
                &&& resp.visibility == w.visibility
                &&& resp.country@ == w.country@
                &&& resp.max_temp == w.max_temp
                &&& resp.min_temp == w.min_temp
                &&& resp.provider@ == provider_name(provider)
                &&& resp.rain_chance == 0
            }),
            fetched matches Err(m) ==> (r matches Err(f) && f.kind == FaultKind::Unavailable
                && f.message@ == m@),
    {
        match fetched {
            Ok(w) => Ok(
                WeatherResponse {
                    temperature: w.temperature,
                    humidity: w.humidity,
                    condition: w.condition,
                    wind_speed: w.wind_speed,
                    wind_direction: w.wind_direction,
                    uv_index: w.uv_index,
                    visibility: w.visibility,
                    country: w.country,
                    max_temp: w.max_temp,
                    min_temp: w.min_temp,
                    provider: provider.name(),
                    rain_chance: 0,
                },
            ),
            Err(m) => Err(to_fault(AppError::WeatherApi(m))),
        }
    }

    /// Finishes a forecast request: a fetched forecast is carried into the
    /// response unchanged; an upstream failure becomes an unavailable
    /// fault carrying the error text verbatim. No partial response is ever
    /// produced.
    pub fn get_forecast(&self, fetched: Result<Vec<DayForecast>, String>) -> (r: Result<
        ForecastResponse,
        Fault,
    >)
        ensures
            r is Ok <==> fetched is Ok,
            fetched matches Ok(days) ==> (r matches Ok(resp) && resp.forecasts == days),
            fetched matches Err(m) ==> (r matches Err(f) && f.kind == FaultKind::Unavailable
                && f.message@ == m@),
    {
        match fetched {
            Ok(days) => Ok(ForecastResponse { forecasts: days }),
            Err(m) => Err(to_fault(AppError::WeatherApi(m))),
        }
    }
}

} // verus!
