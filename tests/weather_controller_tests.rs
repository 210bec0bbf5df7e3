use weather_bot::{
    decode_document, decode_weather_info, request_url, weather_from_response, ApiUtils, Condition, CurrentWeather,
    CurrentWeatherController, FetchKind, Forecast, ForecastDay, ForecastDayWeather, Location,
    Reading, WeatherError, WeatherInfo, WeeklyWeatherController,
};

const CURRENT_BODY: &str = r#"{
    "location": {
        "name": "Toronto",
        "region": "Ontario",
        "country": "Canada",
        "localtime": "2023-11-04 21:39"
    },
    "current": {
        "temp_c": 5.0,
        "is_day": 0,
        "condition": {
            "text": "Partly cloudy",
            "icon": "//cdn.weatherapi.com/weather/64x64/night/116.png",
            "code": 1003
        },
        "wind_mph": 21.7,
        "wind_kph": 34.9,
        "wind_degree": 60,
        "wind_dir": "ENE",
        "pressure_mb": 1027.0,
        "pressure_in": 30.34,
        "precip_mm": 0.0,
        "precip_in": 0.0,
        "humidity": 87,
        "cloud": 50,
        "feelslike_c": 0.9,
        "feelslike_f": 33.7,
        "gust_mph": 26.2,
        "gust_kph": 42.1
    }
}
"#;

const FORECAST_BODY: &str = r#"{
    "location": {
        "name": "Toronto",
        "region": "Ontario",
        "country": "Canada",
        "localtime": "2023-11-04 21:39"
    },
    "current": {
        "temp_c": 5.0,
        "is_day": 0,
        "condition": {
            "text": "Partly cloudy",
            "icon": "//cdn.weatherapi.com/weather/64x64/night/116.png",
            "code": 1003
        },
        "wind_mph": 21.7,
        "wind_kph": 34.9,
        "wind_degree": 60,
        "wind_dir": "ENE",
        "pressure_mb": 1027.0,
        "pressure_in": 30.34,
        "precip_mm": 0.0,
        "precip_in": 0.0,
        "humidity": 87,
        "cloud": 50,
        "feelslike_c": 0.9,
        "feelslike_f": 33.7,
        "gust_mph": 26.2,
        "gust_kph": 42.1
    },
    "forecast": {
        "forecastday": [
            {
                "date": "2023-12-19",
                "day": {
                    "maxtemp_c": 11.6,
                    "mintemp_c": 6.3,
                    "avgtemp_c": 10.1,
                    "totalprecip_mm": 10.65,
                    "condition": {
                        "text": "Moderate rain",
                        "icon": "//cdn.weatherapi.com/weather/64x64/day/302.png",
                        "code": 1189
                    },
                    "uv": 3.0
                }
            }
        ]
    }
}
"#;

fn reading(text: &str) -> Reading {
    Reading::parse(text).unwrap()
}

fn toronto() -> Location {
    Location {
        name: "Toronto".to_string(),
        region: "Ontario".to_string(),
        country: "Canada".to_string(),
        localtime: "2023-11-04 21:39".to_string(),
    }
}

fn current_block(temp: &str) -> CurrentWeather {
    CurrentWeather {
        temp_c: reading(temp),
        feelslike_c: reading("0.9"),
        wind_kph: reading("34.9"),
        wind_dir: "ENE".to_string(),
        precip_mm: reading("0.0"),
        condition: Condition {
            text: "Partly cloudy".to_string(),
            icon: "//cdn.weatherapi.com/weather/64x64/night/116.png".to_string(),
        },
    }
}

fn forecast_day() -> ForecastDay {
    ForecastDay {
        date: "2023-12-19".to_string(),
        day: ForecastDayWeather {
            maxtemp_c: reading("11.6"),
            mintemp_c: reading("6.3"),
            totalprecip_mm: reading("10.65"),
        },
    }
}

#[test]
fn test_get_current_weather() {
    let base = "http://127.0.0.1:1234";
    let weather_controller = CurrentWeatherController::new(base, "fake_key", "Toronto");
    assert_eq!(
        weather_controller.request_url(),
        format!("{}{}", base, "/current.json?key=fake_key&q=Toronto&aqi=yes")
    );
    let weather_result = weather_controller.weather_from_response(200, CURRENT_BODY.to_string());
    let expected = WeatherInfo { location: toronto(), current: current_block("5.0"), forecast: None };
    match weather_result {
        Ok(weather_info) => assert_eq!(expected, weather_info),
        Err(e) => panic!("{:?}", e),
    }
}

#[test]
fn test_weekly_weather_controller() {
    let base = "http://127.0.0.1:1234";
    let weather_controller = WeeklyWeatherController::new(base, "fake_key", "Toronto");
    assert_eq!(
        weather_controller.request_url(),
        format!("{}{}", base, "/forecast.json?key=fake_key&q=Toronto&aqi=no&days=7&alerts=no")
    );
    let weather_result = weather_controller.weather_from_response(200, FORECAST_BODY.to_string());
    let expected = WeatherInfo {
        location: toronto(),
        current: current_block("5.0"),
        forecast: Some(Forecast { forecastday: vec![forecast_day()] }),
    };
    match weather_result {
        Ok(weather_info) => assert_eq!(expected, weather_info),
        Err(e) => panic!("{:?}", e),
    }
}

#[test]
fn test_send_request() {
    let response = ApiUtils::check_response(201, CURRENT_BODY.to_string());
    match response {
        Ok(resp) => assert_eq!(CURRENT_BODY, resp),
        Err(e) => panic!("{:?}", e),
    }
}

#[test]
fn test_display_weather() {
    let body = CURRENT_BODY.replace("\"temp_c\": 5.0", "\"temp_c\": 5.1");
    match decode_weather_info(&body, &FetchKind::Current) {
        Ok(weather_info) => {
            let expected_weather_display_str =
                format!("# Toronto, Ontario, Canada\n## Today:\nTemp: 5.1, Feels Like: 0.9\n");
            assert_eq!(expected_weather_display_str, weather_info.display_weather_info());
        },
        Err(e) => panic!("{:?}", e),
    }
}

#[test]
fn current_url_is_exact() {
    let url = request_url("B", "K", "C", &FetchKind::Current);
    assert_eq!(url, "B/current.json?key=K&q=C&aqi=yes");
}

#[test]
fn forecast_url_is_exact() {
    let url = request_url("B", "K", "C", &FetchKind::Forecast { days: 3 });
    assert_eq!(url, "B/forecast.json?key=K&q=C&aqi=no&days=3&alerts=no");
    let url = WeeklyWeatherController::with_days("B", "K", "C", 14).request_url();
    assert_eq!(url, "B/forecast.json?key=K&q=C&aqi=no&days=14&alerts=no");
}

#[test]
fn city_is_percent_encoded() {
    let url = request_url("B", "K", "New York", &FetchKind::Current);
    assert_eq!(url, "B/current.json?key=K&q=New%20York&aqi=yes");
    let url = request_url("B", "K", "Zürich", &FetchKind::Current);
    assert_eq!(url, "B/current.json?key=K&q=Z%C3%BCrich&aqi=yes");
    let url = request_url("B", "K", "a&b=c", &FetchKind::Current);
    assert_eq!(url, "B/current.json?key=K&q=a%26b%3Dc&aqi=yes");
    let url = request_url("B", "K", "", &FetchKind::Current);
    assert_eq!(url, "B/current.json?key=K&q=&aqi=yes");
}

#[test]
fn decode_without_forecast() {
    let w = decode_weather_info(CURRENT_BODY, &FetchKind::Current).unwrap();
    assert_eq!(w.location.localtime, "2023-11-04 21:39");
    assert_eq!(w.current.temp_c, Reading { negative: false, digits: 5, exponent: 0 });
    assert_eq!(w.current.feelslike_c, Reading { negative: false, digits: 9, exponent: -1 });
    assert_eq!(w.current.wind_kph, Reading { negative: false, digits: 349, exponent: -1 });
    assert_eq!(w.current.wind_dir, "ENE");
    assert_eq!(w.current.precip_mm, Reading { negative: false, digits: 0, exponent: 0 });
    assert_eq!(w.current.condition.text, "Partly cloudy");
    assert!(w.forecast.is_none());
}

#[test]
fn decode_with_forecast() {
    let w = decode_weather_info(FORECAST_BODY, &FetchKind::Forecast { days: 1 }).unwrap();
    let f = w.forecast.unwrap();
    assert_eq!(f.forecastday.len(), 1);
    assert_eq!(f.forecastday[0].date, "2023-12-19");
    assert_eq!(f.forecastday[0].day.totalprecip_mm, Reading { negative: false, digits: 1065, exponent: -2 });
}

#[test]
fn current_request_reads_no_forecast() {
    let w = decode_weather_info(FORECAST_BODY, &FetchKind::Current).unwrap();
    assert!(w.forecast.is_none());
}

#[test]
fn forecast_request_needs_forecast() {
    let r = decode_weather_info(CURRENT_BODY, &FetchKind::Forecast { days: 7 });
    assert_eq!(r.unwrap_err(), WeatherError::Decode);
}

#[test]
fn unknown_members_are_ignored() {
    let plain = r#"{"location":{"name":"A","region":"B","country":"C","localtime":"T"},
        "current":{"temp_c":1,"feelslike_c":2,"wind_kph":3,"wind_dir":"N","precip_mm":4,
        "condition":{"text":"x","icon":"y"}}}"#;
    let extra = r#"{"extra":[1,2],"location":{"name":"A","region":"B","country":"C","localtime":"T","lat":1.5},
        "current":{"temp_c":1,"feelslike_c":2,"wind_kph":3,"wind_dir":"N","precip_mm":4,
        "wind_mph":9.9,"humidity":87,"pressure_mb":1027.0,
        "condition":{"text":"x","icon":"y","code":1003}}}"#;
    let a = decode_weather_info(plain, &FetchKind::Current).unwrap();
    let b = decode_weather_info(extra, &FetchKind::Current).unwrap();
    assert_eq!(a, b);
}

#[test]
fn missing_temperature_is_a_decode_error() {
    let body = CURRENT_BODY.replace("\"temp_c\": 5.0,", "");
    assert_eq!(decode_weather_info(&body, &FetchKind::Current).unwrap_err(), WeatherError::Decode);
}

#[test]
fn mistyped_member_is_a_decode_error() {
    let body = CURRENT_BODY.replace("\"temp_c\": 5.0", "\"temp_c\": \"warm\"");
    assert_eq!(decode_weather_info(&body, &FetchKind::Current).unwrap_err(), WeatherError::Decode);
    let body = CURRENT_BODY.replace("\"wind_dir\": \"ENE\"", "\"wind_dir\": 3");
    assert_eq!(decode_weather_info(&body, &FetchKind::Current).unwrap_err(), WeatherError::Decode);
}

#[test]
fn malformed_json_is_a_decode_error() {
    assert_eq!(decode_weather_info("{\"location\":", &FetchKind::Current).unwrap_err(), WeatherError::Decode);
    assert_eq!(decode_weather_info("", &FetchKind::Current).unwrap_err(), WeatherError::Decode);
}

#[test]
fn failed_status_is_an_upstream_error() {
    for status in [404u16, 500] {
        let r = weather_from_response(status, CURRENT_BODY.to_string(), &FetchKind::Current);
        assert_eq!(r.unwrap_err(), WeatherError::Upstream { status });
        let r = weather_from_response(status, "not json".to_string(), &FetchKind::Current);
        assert_eq!(r.unwrap_err(), WeatherError::Upstream { status });
    }
    assert_eq!(ApiUtils::check_response(199, String::new()).unwrap_err().status, 199);
    assert_eq!(ApiUtils::check_response(300, String::new()).unwrap_err().status, 300);
    assert!(ApiUtils::check_response(299, String::new()).is_ok());
}

#[test]
fn rendering_is_exact() {
    let w = WeatherInfo { location: toronto(), current: current_block("5.1"), forecast: None };
    assert_eq!(w.display_weather_info(), "# Toronto, Ontario, Canada\n## Today:\nTemp: 5.1, Feels Like: 0.9\n");
}

#[test]
fn forecast_rendering_is_exact() {
    let w = WeatherInfo {
        location: toronto(),
        current: current_block("5.1"),
        forecast: Some(Forecast { forecastday: vec![forecast_day()] }),
    };
    assert_eq!(
        w.display_weather_info(),
        "# Toronto, Ontario, Canada\n## Today:\nTemp: 5.1, Feels Like: 0.9\n## Next 1 days:\n\
         * 2023-12-19\n * Max Temp: 11.6\n * Min Temp: 6.3\n * Projected Precipition: 10.65\n"
    );
}

#[test]
fn empty_forecast_renders_header_only() {
    let w = WeatherInfo { location: toronto(), current: current_block("5"), forecast: Some(Forecast { forecastday: vec![] }) };
    assert_eq!(w.display_weather_info(), "# Toronto, Ontario, Canada\n## Today:\nTemp: 5, Feels Like: 0.9\n## Next 0 days:\n");
}

#[test]
fn formatted_location() {
    assert_eq!(toronto().get_formatted_location(), "Toronto, Ontario, Canada");
}

#[test]
fn location_equality_ignores_local_time() {
    let mut other = toronto();
    other.localtime = "2024-01-01 00:00".to_string();
    assert_eq!(toronto(), other);
    other.region = "Quebec".to_string();
    assert_ne!(toronto(), other);
}

#[test]
fn readings_parse_and_render() {
    assert_eq!(Reading::parse("5.0"), Some(Reading { negative: false, digits: 5, exponent: 0 }));
    assert_eq!(Reading::parse("1200"), Some(Reading { negative: false, digits: 12, exponent: 2 }));
    assert_eq!(Reading::parse("10.650"), Some(Reading { negative: false, digits: 1065, exponent: -2 }));
    assert_eq!(Reading::parse("-3.2"), Some(Reading { negative: true, digits: 32, exponent: -1 }));
    let negative_zero = Reading::parse("-0.0").unwrap();
    assert!(negative_zero.negative);
    assert_eq!((negative_zero.digits, negative_zero.exponent), (0, 0));
    assert_eq!(negative_zero, Reading { negative: false, digits: 0, exponent: 0 });
    let mut out = String::new();
    negative_zero.push_text(&mut out);
    assert_eq!(out, "-0");
    assert_eq!(Reading::parse("18446744073709551615"), Some(Reading { negative: false, digits: 18446744073709551615, exponent: 0 }));
    assert_eq!(Reading::parse("18446744073709551616"), Some(Reading { negative: false, digits: 18446744073709551616, exponent: 0 }));
    assert_eq!(Reading::parse("-9223372036854775808"), Some(Reading { negative: true, digits: 9223372036854775808, exponent: 0 }));
    assert_eq!(Reading::parse("1.7976931348623157e+308"), Some(Reading { negative: false, digits: 17976931348623157, exponent: 292 }));
    assert_eq!(Reading::parse("-2.2250738585072014e-308"), Some(Reading { negative: true, digits: 22250738585072014, exponent: -324 }));
    assert_eq!(Reading::parse("12345678901234567890123456789012345678"), Some(Reading { negative: false, digits: 12345678901234567890123456789012345678, exponent: 0 }));
    assert_eq!(Reading::parse("123456789012345678901234567890123456789"), None);
    assert_eq!(Reading::parse("1e5"), Some(Reading { negative: false, digits: 1, exponent: 5 }));
    assert_eq!(Reading::parse("1.5e-7"), Some(Reading { negative: false, digits: 15, exponent: -8 }));
    assert_eq!(Reading::parse("2.50E+1"), Some(Reading { negative: false, digits: 25, exponent: 0 }));
    assert_eq!(Reading::parse("-1.25e1"), Some(Reading { negative: true, digits: 125, exponent: -1 }));
    assert_eq!(Reading::parse("0e999"), Some(Reading { negative: false, digits: 0, exponent: 0 }));
    assert_eq!(Reading::parse("1e20"), Some(Reading { negative: false, digits: 1, exponent: 20 }));
    assert_eq!(Reading::parse("1e"), None);
    assert_eq!(Reading::parse("1e+"), None);
    assert_eq!(Reading::parse("1x"), None);
    assert_eq!(Reading::parse("1."), None);
    assert_eq!(Reading::parse(".5"), None);
    assert_eq!(Reading::parse("-"), None);
    assert_eq!(Reading::parse(""), None);
    let mut out = String::new();
    Reading::parse("-0.05").unwrap().push_text(&mut out);
    assert_eq!(out, "-0.05");
    let mut out = String::new();
    Reading::parse("123.40").unwrap().push_text(&mut out);
    assert_eq!(out, "123.4");
}

#[test]
fn decodes_are_independent() {
    let other = CURRENT_BODY.replace("Toronto", "Ottawa");
    let a = decode_weather_info(CURRENT_BODY, &FetchKind::Current).unwrap();
    let b = decode_weather_info(&other, &FetchKind::Current).unwrap();
    assert_eq!(a.location.name, "Toronto");
    assert_eq!(b.location.name, "Ottawa");
    assert_eq!(a.current, b.current);
}

#[test]
fn error_messages() {
    assert_eq!(WeatherError::Decode.message(), "Parsing JSON failed");
    assert_eq!(WeatherError::Upstream { status: 404 }.message(), "Error retrieving information from you API!");
    assert_eq!(weather_bot::EnvVariableError.message(), "Trouble getting an environment variable");
}

#[test]
fn decode_parsed_document() {
    let doc: serde_json::Value = serde_json::from_str(FORECAST_BODY).unwrap();
    let w = decode_document(&doc, &FetchKind::Forecast { days: 7 }).unwrap();
    assert_eq!(w.location, toronto());
    assert_eq!(w.current, current_block("5.0"));
    assert_eq!(w.forecast, Some(Forecast { forecastday: vec![forecast_day()] }));
    let doc: serde_json::Value = serde_json::from_str("[1, 2]").unwrap();
    assert_eq!(decode_document(&doc, &FetchKind::Current).unwrap_err(), WeatherError::Decode);
}

#[test]
fn exponent_numbers_decode() {
    let body = CURRENT_BODY.replace("\"precip_mm\": 0.0", "\"precip_mm\": 1e-7");
    let w = decode_weather_info(&body, &FetchKind::Current).unwrap();
    assert_eq!(w.current.precip_mm, Reading { negative: false, digits: 1, exponent: -7 });
    let mut out = String::new();
    w.current.precip_mm.push_text(&mut out);
    assert_eq!(out, "0.0000001");
}

#[test]
fn large_numbers_decode() {
    let body = CURRENT_BODY.replace("\"temp_c\": 5.0", "\"temp_c\": 1e20");
    let w = decode_weather_info(&body, &FetchKind::Current).unwrap();
    assert_eq!(w.current.temp_c, Reading { negative: false, digits: 1, exponent: 20 });
    let body = CURRENT_BODY.replace("\"temp_c\": 5.0", "\"temp_c\": -1.7976931348623157e308");
    let w = decode_weather_info(&body, &FetchKind::Current).unwrap();
    assert_eq!(w.current.temp_c, Reading { negative: true, digits: 17976931348623157, exponent: 292 });
    let body = CURRENT_BODY.replace("\"temp_c\": 5.0", "\"temp_c\": 18446744073709551615");
    let w = decode_weather_info(&body, &FetchKind::Current).unwrap();
    assert_eq!(w.current.temp_c, Reading { negative: false, digits: 18446744073709551615, exponent: 0 });
    let rendered = WeatherInfo {
        location: toronto(),
        current: CurrentWeather { temp_c: Reading { negative: false, digits: 1, exponent: 20 }, ..current_block("5") },
        forecast: None,
    }
    .display_weather_info();
    assert!(rendered.contains("Temp: 100000000000000000000, "));
}

#[test]
fn readings_compare_by_value() {
    assert_ne!(reading("1.5"), reading("-1.5"));
    assert_ne!(reading("1.5"), reading("15"));
    assert_eq!(reading("1.50"), reading("15e-1"));
    let a = ForecastDayWeather { maxtemp_c: reading("0"), mintemp_c: reading("-1"), totalprecip_mm: reading("2") };
    let b = ForecastDayWeather { maxtemp_c: reading("-0.0"), mintemp_c: reading("-1.0"), totalprecip_mm: reading("2e0") };
    assert_eq!(a, b);
    let c = ForecastDayWeather { maxtemp_c: reading("0"), mintemp_c: reading("-1"), totalprecip_mm: reading("2.1") };
    assert_ne!(a, c);
}
