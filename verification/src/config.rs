//! The settings shape that provider construction needs: one API credential
//! per provider. Loading these from files or the environment is the hosting
//! program's job; the library only fixes the shape.

use vstd::prelude::*;

verus! {

/// The two upstream API credentials, one per provider.
#[derive(Clone, Debug)]
pub struct ProvidersConfig {
    pub openweather_api_key: String,
    pub weatherapi_api_key: String,
}

/// Everything the service needs before the first request is served.
#[derive(Clone, Debug)]
pub struct Settings {
    pub providers: ProvidersConfig,
}

} // verus!
