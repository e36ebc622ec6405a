use rusty_weather::codec::{
    decode_current_response, decode_forecast_response, decode_forecast_weather, decode_weather,
    serialize_forecast_weather, serialize_weather,
};
use rusty_weather::errors::FetchError;
use rusty_weather::json::{parse_json, print_json, JsonValue};
use rusty_weather::model::{
    Astro, Day, ForecastDay, ForecastWeather, Hour, Num, Weather, WeatherCondition,
    WeatherCurrent, WeatherForecast, WeatherLocation,
};

fn num(text: &str) -> Num {
    Num { text: text.to_string() }
}

fn sample_weather() -> Weather {
    Weather {
        location: WeatherLocation {
            name: "Berlin".to_string(),
            region: "Berlin".to_string(),
            country: "Germany".to_string(),
            lat: num("52.52"),
            lon: num("13.4"),
            tz_id: "Europe/Berlin".to_string(),
            localtime_epoch: 1700000000,
            localtime: "2023-11-14 22:13".to_string(),
        },
        current: WeatherCurrent {
            last_updated_epoch: 1699999200,
            last_updated: "2023-11-14 22:00".to_string(),
            temp_c: num("18.5"),
            temp_f: num("65.3"),
            is_day: 1,
            condition: WeatherCondition {
                text: "Sonnig \"mild\"".to_string(),
                icon: "//cdn.example/icon.png".to_string(),
                code: 1000,
            },
            wind_mph: num("6.9"),
            wind_kph: num("11.2"),
            wind_degree: 220,
            wind_dir: "SW".to_string(),
            pressure_mb: num("1012"),
            pressure_in: num("29.88"),
            precip_mm: num("0.1"),
            precip_in: num("0"),
            humidity: 40,
            cloud: 25,
            feelslike_c: num("17.9"),
            feelslike_f: num("64.2"),
            vis_km: num("10"),
            vis_miles: num("6"),
            uv: num("4"),
            gust_mph: num("9.8"),
            gust_kph: num("15.8"),
        },
    }
}

fn sample_hour() -> Hour {
    Hour {
        time: "2023-11-15 09:00".to_string(),
        temp_c: num("11.3"),
        temp_f: num("52.3"),
        is_day: 1,
        condition: WeatherCondition {
            text: "Cloudy".to_string(),
            icon: "//cdn.example/cloud.png".to_string(),
            code: 1006,
        },
        wind_mph: num("8.1"),
        wind_kph: num("13"),
        wind_degree: 200,
        wind_dir: "SSW".to_string(),
        pressure_mb: num("1009"),
        pressure_in: num("29.8"),
        precip_mm: num("0"),
        precip_in: num("0"),
        snow_cm: num("0"),
        humidity: 77,
        cloud: 66,
        feelslike_c: num("9.6"),
        feelslike_f: num("49.3"),
        windchill_c: num("9.6"),
        windchill_f: num("49.3"),
        heatindex_c: num("11.3"),
        heatindex_f: num("52.3"),
        dewpoint_c: num("7.4"),
        dewpoint_f: num("45.3"),
        will_it_rain: 0,
        chance_of_rain: 10,
        will_it_snow: 0,
        chance_of_snow: 0,
        vis_km: num("10"),
        vis_miles: num("6"),
        gust_mph: num("12.9"),
        gust_kph: num("20.8"),
        uv: num("1"),
    }
}

fn sample_forecast() -> ForecastWeather {
    ForecastWeather {
        location: sample_weather().location,
        forecast: WeatherForecast {
            forecastday: vec![ForecastDay {
                date: "2023-11-15".to_string(),
                day: Day {
                    maxtemp_c: num("20.1"),
                    maxtemp_f: num("68.2"),
                    mintemp_c: num("9.4"),
                    mintemp_f: num("48.9"),
                    avgtemp_c: num("14.2"),
                    avgtemp_f: num("57.6"),
                    maxwind_mph: num("12.5"),
                    maxwind_kph: num("20.2"),
                    totalprecip_mm: num("1.4"),
                    totalprecip_in: num("0.06"),
                    totalsnow_cm: num("0"),
                    avgvis_km: num("9.8"),
                    avgvis_miles: num("6"),
                    avghumidity: 71,
                    daily_will_it_rain: 1,
                    daily_chance_of_rain: 80,
                    daily_will_it_snow: 0,
                    daily_chance_of_snow: 0,
                    condition: WeatherCondition {
                        text: "Patchy rain".to_string(),
                        icon: "//cdn.example/rain.png".to_string(),
                        code: 1063,
                    },
                    uv: num("3"),
                },
                astro: Astro {
                    sunrise: "07:24 AM".to_string(),
                    sunset: "04:21 PM".to_string(),
                    moonrise: "09:03 AM".to_string(),
                    moonset: "05:41 PM".to_string(),
                    moon_phase: "Waxing Crescent".to_string(),
                    moon_illumination: num("4"),
                    is_moon_up: 0,
                    is_sun_up: 0,
                },
                hour: vec![sample_hour(), sample_hour()],
            }],
        },
    }
}

#[test]
fn weather_json_round_trip() {
    let w = sample_weather();
    let text = serialize_weather(&w);
    let value = parse_json(&text).unwrap();
    let back = decode_weather(&value).unwrap();
    assert_eq!(back, w);
}

#[test]
fn forecast_json_round_trip() {
    let f = sample_forecast();
    let text = serialize_forecast_weather(&f);
    let value = parse_json(&text).unwrap();
    let back = decode_forecast_weather(&value).unwrap();
    assert_eq!(back, f);
}

#[test]
fn decode_keeps_number_text_verbatim() {
    let body = r#"{
        "location": {"name": "X", "region": "Y", "country": "Z",
            "lat": 52.5200, "lon": -13.40, "tz_id": "T",
            "localtime_epoch": 5, "localtime": "now"},
        "current": {"last_updated_epoch": 4, "last_updated": "then",
            "temp_c": 18.50, "temp_f": 65.3, "is_day": 1,
            "condition": {"text": "ok", "icon": "i", "code": 7},
            "wind_mph": 1.0e1, "wind_kph": 16, "wind_degree": 3,
            "wind_dir": "N", "pressure_mb": 1000, "pressure_in": 29,
            "precip_mm": 0, "precip_in": 0, "humidity": 1, "cloud": 2,
            "feelslike_c": 17, "feelslike_f": 64, "vis_km": 10,
            "vis_miles": 6, "uv": 4, "gust_mph": 9, "gust_kph": 15}
    }"#;
    let w = decode_current_response(200, body).unwrap();
    assert_eq!(w.location.lat.text, "52.5200");
    assert_eq!(w.location.lon.text, "-13.40");
    assert_eq!(w.current.temp_c.text, "18.50");
    assert_eq!(w.current.wind_mph.text, "1.0e1");
    assert_eq!(w.current.humidity, 1);
    assert_eq!(w.current.is_day, 1);
}

#[test]
fn unknown_fields_are_ignored() {
    let body = r#"{
        "location": {"name": "X", "region": "Y", "country": "Z",
            "lat": 1, "lon": 2, "tz_id": "T", "extra": [1, {"a": true}, null],
            "localtime_epoch": 5, "localtime": "now"},
        "current": {"last_updated_epoch": 4, "last_updated": "then",
            "temp_c": 1, "temp_f": 2, "is_day": 0, "surprise": "yes",
            "condition": {"text": "ok", "icon": "i", "code": 7, "more": false},
            "wind_mph": 1, "wind_kph": 2, "wind_degree": 3,
            "wind_dir": "N", "pressure_mb": 4, "pressure_in": 5,
            "precip_mm": 6, "precip_in": 7, "humidity": 8, "cloud": 9,
            "feelslike_c": 10, "feelslike_f": 11, "vis_km": 12,
            "vis_miles": 13, "uv": 14, "gust_mph": 15, "gust_kph": 16},
        "trailer": {"ignored": true}
    }"#;
    let w = decode_current_response(200, body).unwrap();
    assert_eq!(w.location.name, "X");
    assert_eq!(w.current.condition.code, 7);
}

#[test]
fn missing_expected_field_is_a_decode_error() {
    let body = r#"{
        "location": {"name": "X", "region": "Y", "country": "Z",
            "lat": 1, "lon": 2, "tz_id": "T",
            "localtime_epoch": 5, "localtime": "now"},
        "current": {"last_updated_epoch": 4, "last_updated": "then",
            "temp_c": 1, "temp_f": 2, "is_day": 0,
            "condition": {"text": "ok", "icon": "i", "code": 7},
            "wind_mph": 1, "wind_kph": 2, "wind_degree": 3,
            "wind_dir": "N", "pressure_mb": 4, "pressure_in": 5,
            "precip_mm": 6, "precip_in": 7, "humidity": 8, "cloud": 9,
            "feelslike_c": 10, "feelslike_f": 11, "vis_km": 12,
            "vis_miles": 13, "uv": 14, "gust_mph": 15}
    }"#;
    assert_eq!(decode_current_response(200, body), Err(FetchError::Decode));
}

#[test]
fn malformed_body_is_a_decode_error() {
    assert_eq!(decode_current_response(200, "{oops"), Err(FetchError::Decode));
    assert_eq!(decode_current_response(200, ""), Err(FetchError::Decode));
    assert_eq!(decode_current_response(200, "{} trailing"), Err(FetchError::Decode));
    assert_eq!(decode_forecast_response(200, "[1, 2"), Err(FetchError::Decode));
}

#[test]
fn non_success_status_is_a_transport_error() {
    assert_eq!(decode_current_response(401, "irrelevant"), Err(FetchError::Transport));
    assert_eq!(decode_current_response(500, "{}"), Err(FetchError::Transport));
    assert_eq!(decode_current_response(199, "{}"), Err(FetchError::Transport));
    assert_eq!(decode_current_response(300, "{}"), Err(FetchError::Transport));
    assert_eq!(decode_forecast_response(401, "{}"), Err(FetchError::Transport));
}

#[test]
fn integer_field_rejects_fractions_and_overflow() {
    let ok = parse_json(r#"{"text": "a", "icon": "b", "code": 12}"#).unwrap();
    assert!(rusty_weather::codec::decode_condition(&ok).is_ok());
    let frac = parse_json(r#"{"text": "a", "icon": "b", "code": 1.5}"#).unwrap();
    assert_eq!(rusty_weather::codec::decode_condition(&frac), Err(FetchError::Decode));
    let big = parse_json(r#"{"text": "a", "icon": "b", "code": 9223372036854775808}"#).unwrap();
    assert_eq!(rusty_weather::codec::decode_condition(&big), Err(FetchError::Decode));
    let min = parse_json(r#"{"text": "a", "icon": "b", "code": -9223372036854775808}"#).unwrap();
    assert_eq!(
        rusty_weather::codec::decode_condition(&min).unwrap().code,
        i64::MIN
    );
}

#[test]
fn parser_handles_escapes_and_unicode() {
    let v = parse_json(r#""a\"b\\c\né ü""#).unwrap();
    match v {
        JsonValue::Str(s) => assert_eq!(s, "a\"b\\c\né ü"),
        _ => panic!("expected a string"),
    }
    assert!(parse_json(r#""unterminated"#).is_err());
    assert!(parse_json("\"raw\ncontrol\"").is_err());
}

#[test]
fn printer_escapes_and_parser_reads_back() {
    let v = JsonValue::Str("line\nbreak \"q\" \\ ü".to_string());
    let text = print_json(&v);
    assert_eq!(text, "\"line\\u000Abreak \\\"q\\\" \\\\ ü\"");
    let back = parse_json(&text).unwrap();
    match back {
        JsonValue::Str(s) => assert_eq!(s, "line\nbreak \"q\" \\ ü"),
        _ => panic!("expected a string"),
    }
}

#[test]
fn serialized_weather_is_canonical_json() {
    let w = sample_weather();
    let text = serialize_weather(&w);
    assert!(text.starts_with("{\"location\":{\"name\":\"Berlin\","));
    assert!(text.contains("\"temp_c\":18.5,"));
    assert!(text.contains("\"condition\":{\"text\":\"Sonnig \\\"mild\\\"\","));
}
