//! A verified core for a weather-normalization service.
//!
//! Two upstream weather providers deliver heterogeneous JSON payloads; this
//! library holds the provider-independent logic: dispatching a request to a
//! provider by name, translating each provider's decoded payload into a
//! common weather model, grouping and ordering forecasts, and mapping errors
//! to fault classes. All quantities are fixed-point integers in thousandths
//! of their unit (milli-units), so every mapping rule is exact.
//!
//! The surrounding program performs the HTTP calls and JSON decoding and
//! hands this library plain values; everything here is verified.

pub mod config;
pub mod error;
pub mod model;
pub mod openweather;
pub mod service;
pub mod text;
pub mod weatherapi;
