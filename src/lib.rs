//! Fetches current and multi-day weather for a city from a weather HTTP API,
//! decodes the JSON answer into a typed model and renders it as text.
//!
//! The network itself is left to the caller: this crate builds the request
//! URL, classifies the response status, decodes the body and renders the
//! result, each step with a verified contract.

pub mod text;
pub mod reading;
pub mod model;
pub mod json;
pub mod error;
pub mod decode;
pub mod request;
pub mod client;

pub use client::{weather_from_response, ApiUtils, CurrentWeatherController, WeeklyWeatherController, WEEK_DAYS};
pub use decode::{decode_document, decode_weather_info};
pub use error::{ApiError, EnvVariableError, WeatherError};
pub use model::{Condition, CurrentWeather, Forecast, ForecastDay, ForecastDayWeather, Location, WeatherInfo};
pub use reading::Reading;
pub use request::{request_url, FetchKind};
