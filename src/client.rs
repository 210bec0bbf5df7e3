//! The two operations of the weather API, from the request URL to the
//! decoded answer. Sending the request is left to the caller, who hands back
//! the status and body of the response.
use vstd::prelude::*;

use crate::decode::{decode_weather_info, decoded, has_answer};
use crate::json::json_document;
use crate::error::{ApiError, WeatherError};
use crate::model::{WeatherInfo, WeatherInfoView};
use crate::request::{request_url, url_of, FetchKind};

verus! {

/// A success status: 200 to 299.
pub open spec fn is_success(status: u16) -> bool {
    200 <= status && status <= 299
}

/// What a response with `status` and `body` gives for a request of `kind`.
pub open spec fn outcome(status: u16, body: Seq<char>, kind: FetchKind) -> Result<WeatherInfoView, WeatherError> {
    if !is_success(status) {
        Err(WeatherError::Upstream { status })
    } else {
        match decoded(body, kind) {
            Some(w) => Ok(w),
            None => Err(WeatherError::Decode),
        }
    }
}

/// Classification of the API's responses.
pub struct ApiUtils {}

impl ApiUtils {
    /// Whether `status` is a success status (200 to 299).
    pub fn status_is_success(status: u16) -> (r: bool)
        ensures
            r == is_success(status),
    {
        200 <= status && status <= 299
    }

    /// The body of a successful response as it came; an `ApiError` for any
    /// other status.
    pub fn check_response(status: u16, body: String) -> (r: Result<String, ApiError>)
        ensures
            is_success(status) ==> r == Ok::<String, ApiError>(body),
            !is_success(status) ==> r == Err::<String, ApiError>(ApiError { status }),
    {
        if ApiUtils::status_is_success(status) {
            Ok(body)
        } else {
            Err(ApiError { status })
        }
    }
}

/// The answer to a request of `kind` from the response it got: an upstream
/// error for a status outside 200..=299 (the body is then not read), else
/// the decoded body. With a success status the answer is there exactly
/// when the body is a JSON document with every member of the answer, each
/// of the right JSON type.
pub fn weather_from_response(status: u16, body: String, kind: &FetchKind) -> (r: Result<WeatherInfo, WeatherError>)
    ensures
        match (r, outcome(status, body@, *kind)) {
            (Ok(w), Ok(v)) => w@ == v,
            (Err(e), Err(f)) => e == f,
            _ => false,
        },
        is_success(status) ==> (r is Ok <==> (json_document(body@) matches Some(t) && has_answer(t, *kind))),
{
    match ApiUtils::check_response(status, body) {
        Ok(text) => decode_weather_info(text.as_str(), kind),
        Err(e) => Err(WeatherError::Upstream { status: e.status }),
    }
}

/// The current-weather operation for one city.
pub struct CurrentWeatherController {
    pub base_url: String,
    pub api_key: String,
    pub city_name: String,
}

impl CurrentWeatherController {
    pub fn new(base_url: &str, api_key: &str, city_name: &str) -> (r: CurrentWeatherController)
        ensures
            r.base_url@ == base_url@,
            r.api_key@ == api_key@,
            r.city_name@ == city_name@,
    {
        CurrentWeatherController {
            base_url: String::from_str(base_url),
            api_key: String::from_str(api_key),
            city_name: String::from_str(city_name),
        }
    }

    /// `<base>/current.json?key=<key>&q=<city>&aqi=yes`, the city
    /// percent-encoded.
    pub fn request_url(&self) -> (r: String)
        ensures
            r@ == url_of(self.base_url@, self.api_key@, self.city_name@, FetchKind::Current),
    {
        request_url(self.base_url.as_str(), self.api_key.as_str(), self.city_name.as_str(), &FetchKind::Current)
    }

    /// The current weather from the response to `request_url`.
    pub fn weather_from_response(&self, status: u16, body: String) -> (r: Result<WeatherInfo, WeatherError>)
        ensures
            match (r, outcome(status, body@, FetchKind::Current)) {
                (Ok(w), Ok(v)) => w@ == v,
                (Err(e), Err(f)) => e == f,
                _ => false,
            },
            is_success(status) ==> (r is Ok <==> (json_document(body@) matches Some(t) && has_answer(
                t,
                FetchKind::Current,
            ))),
    {
        weather_from_response(status, body, &FetchKind::Current)
    }
}

/// The days that a forecast asks for unless told otherwise.
pub const WEEK_DAYS: u32 = 7;

/// The forecast operation for one city and a number of days.
pub struct WeeklyWeatherController {
    pub base_url: String,
    pub api_key: String,
    pub city_name: String,
    pub days: u32,
}

impl WeeklyWeatherController {
    /// A forecast of `WEEK_DAYS` days.
    pub fn new(base_url: &str, api_key: &str, city_name: &str) -> (r: WeeklyWeatherController)
        ensures
            r.base_url@ == base_url@,
            r.api_key@ == api_key@,
            r.city_name@ == city_name@,
            r.days == WEEK_DAYS,
    {
        WeeklyWeatherController::with_days(base_url, api_key, city_name, WEEK_DAYS)
    }

    /// A forecast of `days` days (at least one; the API sets the upper bound).
    pub fn with_days(base_url: &str, api_key: &str, city_name: &str, days: u32) -> (r: WeeklyWeatherController)
        requires
            days >= 1,
        ensures
            r.base_url@ == base_url@,
            r.api_key@ == api_key@,
            r.city_name@ == city_name@,
            r.days == days,
    {
        WeeklyWeatherController {
            base_url: String::from_str(base_url),
            api_key: String::from_str(api_key),
            city_name: String::from_str(city_name),
            days,
        }
    }

    pub open spec fn kind(&self) -> FetchKind {
        FetchKind::Forecast { days: self.days }
    }

    /// `<base>/forecast.json?key=<key>&q=<city>&aqi=no&days=<days>&alerts=no`,
    /// the city percent-encoded.
    pub fn request_url(&self) -> (r: String)
        ensures
            r@ == url_of(self.base_url@, self.api_key@, self.city_name@, self.kind()),
    {
        request_url(
            self.base_url.as_str(),
            self.api_key.as_str(),
            self.city_name.as_str(),
            &FetchKind::Forecast { days: self.days },
        )
    }

    /// The weather with its forecast days from the response to
    /// `request_url`.
    pub fn weather_from_response(&self, status: u16, body: String) -> (r: Result<WeatherInfo, WeatherError>)
        ensures
            match (r, outcome(status, body@, self.kind())) {
                (Ok(w), Ok(v)) => w@ == v,
                (Err(e), Err(f)) => e == f,
                _ => false,
            },
            is_success(status) ==> (r is Ok <==> (json_document(body@) matches Some(t) && has_answer(
                t,
                self.kind(),
            ))),
    {
        weather_from_response(status, body, &FetchKind::Forecast { days: self.days })
    }
}

} // verus!
