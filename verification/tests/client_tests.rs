use rusty_weather::client::{
    current_request_url, current_url, forecast_request_url, forecast_url, url_encode,
};
use rusty_weather::errors::FetchError;
use rusty_weather::language_config_line;
use rusty_weather::text::i64_to_string;

#[test]
fn current_url_has_fixed_shape() {
    let url = current_url("SECRET-REDACTED", "Berlin", "de");
    assert_eq!(
        url,
        "http://api.weatherapi.com/v1/current.json?key=SECRET-REDACTED&q=Berlin&aqi=no&lang=de"
    );
}

#[test]
fn forecast_url_carries_days_and_no_alerts() {
    let url = forecast_url("k", "Berlin", "en", 3);
    assert_eq!(
        url,
        "http://api.weatherapi.com/v1/forecast.json?key=k&q=Berlin&aqi=no&lang=en&days=3&alerts=no"
    );
}

#[test]
fn city_is_url_encoded() {
    assert_eq!(url_encode("New York"), "New%20York");
    assert_eq!(url_encode("München"), "M%C3%BCnchen");
    assert_eq!(url_encode("a-b_c.d~e"), "a-b_c.d~e");
    assert_eq!(url_encode("a/b?c=d&e"), "a%2Fb%3Fc%3Dd%26e");
    let url = current_url("k", "New York", "en");
    assert!(url.contains("&q=New%20York&"));
}

#[test]
fn missing_api_key_is_a_configuration_error() {
    let city = "Berlin".to_string();
    let lang = "de".to_string();
    assert_eq!(current_request_url(&None, &city, &lang), Err(FetchError::Configuration));
    assert_eq!(forecast_request_url(&None, &city, &lang, 3), Err(FetchError::Configuration));
    let url = current_request_url(&Some("k".to_string()), &city, &lang).unwrap();
    assert!(url.starts_with("http://api.weatherapi.com/v1/current.json?key=k&q=Berlin"));
}

#[test]
fn integer_rendering_is_plain_decimal() {
    assert_eq!(i64_to_string(0), "0");
    assert_eq!(i64_to_string(40), "40");
    assert_eq!(i64_to_string(-7), "-7");
    assert_eq!(i64_to_string(i64::MAX), "9223372036854775807");
    assert_eq!(i64_to_string(i64::MIN), "-9223372036854775808");
}

#[test]
fn language_config_line_has_key_value_shape() {
    assert_eq!(language_config_line("de"), "language=de");
    assert_eq!(language_config_line(""), "language=");
}
