use rusty_weather::catalog::Catalog;
use rusty_weather::errors::RenderError;
use rusty_weather::model::{
    Astro, Day, ForecastDay, ForecastWeather, Num, Weather, WeatherCondition, WeatherCurrent,
    WeatherForecast, WeatherLocation,
};
use rusty_weather::render::{render_current, render_forecast};
use rusty_weather::PRINT_WIDTH;

fn num(text: &str) -> Num {
    Num { text: text.to_string() }
}

fn sample_location(name: &str) -> WeatherLocation {
    WeatherLocation {
        name: name.to_string(),
        region: "Berlin".to_string(),
        country: "Germany".to_string(),
        lat: num("52.52"),
        lon: num("13.4"),
        tz_id: "Europe/Berlin".to_string(),
        localtime_epoch: 1700000000,
        localtime: "2023-11-14 22:13".to_string(),
    }
}

fn sample_current(is_day: i64, condition_text: &str) -> WeatherCurrent {
    WeatherCurrent {
        last_updated_epoch: 1700000000,
        last_updated: "2023-11-14 22:00".to_string(),
        temp_c: num("18.5"),
        temp_f: num("65.3"),
        is_day,
        condition: WeatherCondition {
            text: condition_text.to_string(),
            icon: "//cdn.example/icon.png".to_string(),
            code: 1000,
        },
        wind_mph: num("6.9"),
        wind_kph: num("11.2"),
        wind_degree: 220,
        wind_dir: "SW".to_string(),
        pressure_mb: num("1012"),
        pressure_in: num("29.88"),
        precip_mm: num("0.1"),
        precip_in: num("0"),
        humidity: 40,
        cloud: 25,
        feelslike_c: num("17.9"),
        feelslike_f: num("64.2"),
        vis_km: num("10"),
        vis_miles: num("6"),
        uv: num("4"),
        gust_mph: num("9.8"),
        gust_kph: num("15.8"),
    }
}

fn sample_weather(city: &str, is_day: i64, condition_text: &str) -> Weather {
    Weather { location: sample_location(city), current: sample_current(is_day, condition_text) }
}

fn current_catalog() -> Catalog {
    let mut cat = Catalog::new();
    cat.add("current.weather_report".to_string(), "Weather report for {{city}}".to_string());
    cat.add("current.date".to_string(), "Date: {{date}}".to_string());
    cat.add("current.region".to_string(), "Region: {{region}}, {{country}}".to_string());
    cat.add("current.current_conditions".to_string(), "Current conditions".to_string());
    cat.add("current.status".to_string(), "Status: {{status}}".to_string());
    cat.add(
        "current.temperature".to_string(),
        "Temperature: {{temperature_c}} C / {{temperature_f}} F".to_string(),
    );
    cat.add(
        "current.feels_like".to_string(),
        "Feels like: {{feels_like_c}} C / {{feels_like_f}} F".to_string(),
    );
    cat.add("current.daytime".to_string(), "Daytime: {{daytime}}".to_string());
    cat.add("current.more_details".to_string(), "More details".to_string());
    cat.add("current.humidity".to_string(), "Humidity: {{humidity}} %".to_string());
    cat.add("current.cloudiness".to_string(), "Cloudiness: {{cloudiness}} %".to_string());
    cat.add(
        "current.wind".to_string(),
        "Wind: {{wind_speed}} km/h from {{wind_direction}}".to_string(),
    );
    cat.add(
        "current.gusts".to_string(),
        "Gusts: {{wind_gusts}} km/h ({{gusts_mph}} mph)".to_string(),
    );
    cat.add("current.precipitation".to_string(), "Precipitation: {{precipitation}} mm".to_string());
    cat.add("current.pressure".to_string(), "Pressure: {{pressure}} mb".to_string());
    cat.add("current.visibility".to_string(), "Visibility: {{visibility}} km".to_string());
    cat.add("current.uv_index".to_string(), "UV index: {{uv_index}}".to_string());
    cat.add("current.last_updated".to_string(), "Last updated: {{last_updated}}".to_string());
    cat
}

fn forecast_catalog() -> Catalog {
    let mut cat = Catalog::new();
    cat.add("forecast.forecast".to_string(), "Forecast for {{city}}".to_string());
    cat.add("forecast.day_forecast".to_string(), "Forecast for {{date}}".to_string());
    cat.add(
        "forecast.temperature_range".to_string(),
        "Temp: {{min_temp_c}}..{{max_temp_c}} C ({{min_temp_f}}..{{max_temp_f}} F)".to_string(),
    );
    cat.add(
        "forecast.avg_temperature".to_string(),
        "Average: {{avg_temp_c}} C / {{avg_temp_f}} F".to_string(),
    );
    cat.add("forecast.condition".to_string(), "Condition: {{condition}}".to_string());
    cat.add(
        "forecast.precipitation".to_string(),
        "Precipitation: {{precipitation}} mm".to_string(),
    );
    cat.add("forecast.chance_of_rain".to_string(), "Chance of rain: {{rain_chance}} %".to_string());
    cat.add("forecast.chance_of_snow".to_string(), "Chance of snow: {{snow_chance}} %".to_string());
    cat.add("forecast.wind".to_string(), "Wind: {{wind_kph}} km/h ({{wind_mph}} mph)".to_string());
    cat.add("forecast.humidity".to_string(), "Humidity: {{humidity}} %".to_string());
    cat.add("forecast.uv_index".to_string(), "UV index: {{uv}}".to_string());
    cat.add("forecast.sunrise".to_string(), "Sunrise: {{sunrise}}".to_string());
    cat.add("forecast.sunset".to_string(), "Sunset: {{sunset}}".to_string());
    cat
}

fn sample_day(will_rain: i64, rain_chance: i64, will_snow: i64, snow_chance: i64) -> ForecastDay {
    ForecastDay {
        date: "2023-11-15".to_string(),
        day: Day {
            maxtemp_c: num("20.1"),
            maxtemp_f: num("68.2"),
            mintemp_c: num("9.4"),
            mintemp_f: num("48.9"),
            avgtemp_c: num("14.2"),
            avgtemp_f: num("57.6"),
            maxwind_mph: num("12.5"),
            maxwind_kph: num("20.2"),
            totalprecip_mm: num("1.4"),
            totalprecip_in: num("0.06"),
            totalsnow_cm: num("0"),
            avgvis_km: num("9.8"),
            avgvis_miles: num("6"),
            avghumidity: 71,
            daily_will_it_rain: will_rain,
            daily_chance_of_rain: rain_chance,
            daily_will_it_snow: will_snow,
            daily_chance_of_snow: snow_chance,
            condition: WeatherCondition {
                text: "Patchy rain".to_string(),
                icon: "//cdn.example/rain.png".to_string(),
                code: 1063,
            },
            uv: num("3"),
        },
        astro: Astro {
            sunrise: "07:24 AM".to_string(),
            sunset: "04:21 PM".to_string(),
            moonrise: "09:03 AM".to_string(),
            moonset: "05:41 PM".to_string(),
            moon_phase: "Waxing Crescent".to_string(),
            moon_illumination: num("4"),
            is_moon_up: 0,
            is_sun_up: 0,
        },
        hour: Vec::new(),
    }
}

fn sample_forecast(days: Vec<ForecastDay>) -> ForecastWeather {
    ForecastWeather {
        location: sample_location("Berlin"),
        forecast: WeatherForecast { forecastday: days },
    }
}

#[test]
fn current_lines_are_fixed_width() {
    let w = sample_weather("Berlin", 1, "Sunny");
    let lines = render_current(&w, &current_catalog()).unwrap();
    assert_eq!(lines.len(), 26);
    for line in &lines {
        assert_eq!(line.chars().count(), PRINT_WIDTH + 2);
    }
}

#[test]
fn current_lines_fixed_width_with_multibyte_content() {
    let mut w = sample_weather("München", 1, "Sonnig – 18°");
    w.location.region = "Bayern (Süd)".to_string();
    let lines = render_current(&w, &current_catalog()).unwrap();
    for line in &lines {
        assert_eq!(line.chars().count(), PRINT_WIDTH + 2);
    }
}

#[test]
fn forecast_lines_are_fixed_width() {
    let f = sample_forecast(vec![sample_day(1, 80, 0, 0), sample_day(0, 0, 1, 60)]);
    let lines = render_forecast(&f, &forecast_catalog()).unwrap();
    for line in &lines {
        assert_eq!(line.chars().count(), PRINT_WIDTH + 2);
    }
}

#[test]
fn rendering_twice_is_byte_identical() {
    let w = sample_weather("Berlin", 1, "Sunny");
    let cat = current_catalog();
    let first = render_current(&w, &cat).unwrap();
    let second = render_current(&w, &cat).unwrap();
    assert_eq!(first, second);
    let f = sample_forecast(vec![sample_day(1, 70, 0, 0)]);
    let fcat = forecast_catalog();
    assert_eq!(render_forecast(&f, &fcat).unwrap(), render_forecast(&f, &fcat).unwrap());
}

#[test]
fn rain_line_present_only_when_flag_nonzero() {
    let cat = forecast_catalog();
    let no_rain = sample_forecast(vec![sample_day(0, 55, 0, 0)]);
    let lines = render_forecast(&no_rain, &cat).unwrap();
    assert!(lines.iter().all(|l| !l.contains("Chance of rain")));

    let rain = sample_forecast(vec![sample_day(1, 55, 0, 0)]);
    let lines = render_forecast(&rain, &cat).unwrap();
    assert_eq!(lines.iter().filter(|l| l.contains("Chance of rain: 55 %")).count(), 1);

    // the nonzero check is not a positivity check: a negative flag also rains
    let negative = sample_forecast(vec![sample_day(-3, 12, 0, 0)]);
    let lines = render_forecast(&negative, &cat).unwrap();
    assert_eq!(lines.iter().filter(|l| l.contains("Chance of rain: 12 %")).count(), 1);
}

#[test]
fn snow_line_present_only_when_flag_nonzero() {
    let cat = forecast_catalog();
    let f = sample_forecast(vec![sample_day(0, 0, 1, 33), sample_day(0, 0, 0, 90)]);
    let lines = render_forecast(&f, &cat).unwrap();
    assert_eq!(lines.iter().filter(|l| l.contains("Chance of snow")).count(), 1);
    assert_eq!(lines.iter().filter(|l| l.contains("Chance of snow: 33 %")).count(), 1);
}

#[test]
fn forecast_has_one_rain_line_per_rainy_day() {
    let cat = forecast_catalog();
    let f = sample_forecast(vec![
        sample_day(1, 80, 0, 0),
        sample_day(0, 10, 0, 0),
        sample_day(2, 45, 0, 0),
    ]);
    let lines = render_forecast(&f, &cat).unwrap();
    assert_eq!(lines.iter().filter(|l| l.contains("Chance of rain")).count(), 2);
}

#[test]
fn day_flag_one_renders_day_everything_else_night() {
    let cat = current_catalog();
    let day = render_current(&sample_weather("Berlin", 1, "Sunny"), &cat).unwrap();
    assert!(day.iter().any(|l| l.contains("Daytime: day")));

    let night0 = render_current(&sample_weather("Berlin", 0, "Clear"), &cat).unwrap();
    assert!(night0.iter().any(|l| l.contains("Daytime: night")));

    let night2 = render_current(&sample_weather("Berlin", 2, "Clear"), &cat).unwrap();
    assert!(night2.iter().any(|l| l.contains("Daytime: night")));

    let night_neg = render_current(&sample_weather("Berlin", -1, "Clear"), &cat).unwrap();
    assert!(night_neg.iter().any(|l| l.contains("Daytime: night")));
}

#[test]
fn berlin_german_report_scenario() {
    let mut cat = Catalog::new();
    cat.add("current.weather_report".to_string(), "Wetterbericht für {{city}}".to_string());
    cat.add("current.date".to_string(), "Datum: {{date}}".to_string());
    cat.add("current.region".to_string(), "Region: {{region}}, {{country}}".to_string());
    cat.add("current.current_conditions".to_string(), "Aktuelle Bedingungen".to_string());
    cat.add("current.status".to_string(), "Status: {{status}}".to_string());
    cat.add(
        "current.temperature".to_string(),
        "Temperatur: {{temperature_c}} °C / {{temperature_f}} °F".to_string(),
    );
    cat.add(
        "current.feels_like".to_string(),
        "Gefühlt: {{feels_like_c}} °C / {{feels_like_f}} °F".to_string(),
    );
    cat.add("current.daytime".to_string(), "Tageszeit: {{daytime}}".to_string());
    cat.add("current.more_details".to_string(), "Weitere Details".to_string());
    cat.add("current.humidity".to_string(), "Luftfeuchtigkeit: {{humidity}} %".to_string());
    cat.add("current.cloudiness".to_string(), "Bewölkung: {{cloudiness}} %".to_string());
    cat.add("current.wind".to_string(), "Wind: {{wind_speed}} km/h aus {{wind_direction}}".to_string());
    cat.add("current.gusts".to_string(), "Böen: {{wind_gusts}} km/h ({{gusts_mph}} mph)".to_string());
    cat.add("current.precipitation".to_string(), "Niederschlag: {{precipitation}} mm".to_string());
    cat.add("current.pressure".to_string(), "Luftdruck: {{pressure}} mb".to_string());
    cat.add("current.visibility".to_string(), "Sichtweite: {{visibility}} km".to_string());
    cat.add("current.uv_index".to_string(), "UV-Index: {{uv_index}}".to_string());
    cat.add("current.last_updated".to_string(), "Zuletzt aktualisiert: {{last_updated}}".to_string());

    let w = sample_weather("Berlin", 1, "Sonnig");
    let lines = render_current(&w, &cat).unwrap();
    // the report begins with the top border, then the upper-cased header
    assert!(lines[1].contains("WETTERBERICHT FÜR BERLIN"));
    assert!(lines.iter().any(|l| l.contains("Status: Sonnig")));
    assert!(lines.iter().any(|l| l.contains("Tageszeit: day")));
    assert!(lines.iter().any(|l| l.contains("Luftfeuchtigkeit: 40 %")));
    for line in &lines {
        assert_eq!(line.chars().count(), PRINT_WIDTH + 2);
    }
}

#[test]
fn box_borders_use_box_drawing_glyphs() {
    let w = sample_weather("Berlin", 1, "Sunny");
    let lines = render_current(&w, &current_catalog()).unwrap();
    let first = &lines[0];
    let last = &lines[lines.len() - 1];
    assert!(first.starts_with('┌') && first.ends_with('┐'));
    assert!(last.starts_with('└') && last.ends_with('┘'));
    assert!(lines[1].starts_with("│ ") && lines[1].ends_with(" │"));
    assert!(lines[2].starts_with('├') && lines[2].ends_with('┤'));
}

#[test]
fn unknown_key_is_reported() {
    let w = sample_weather("Berlin", 1, "Sunny");
    let mut cat = current_catalog();
    cat.entries.retain(|e| e.0 != "current.pressure");
    assert_eq!(render_current(&w, &cat), Err(RenderError::UnknownKey));
}

#[test]
fn missing_parameter_is_reported() {
    let w = sample_weather("Berlin", 1, "Sunny");
    let mut cat = current_catalog();
    for e in cat.entries.iter_mut() {
        if e.0 == "current.humidity" {
            e.1 = "Humidity: {{level}} %".to_string();
        }
    }
    assert_eq!(render_current(&w, &cat), Err(RenderError::MissingParam));
}

#[test]
fn too_wide_line_is_reported() {
    let w = sample_weather("Berlin", 1, "Sunny");
    let mut cat = current_catalog();
    for e in cat.entries.iter_mut() {
        if e.0 == "current.date" {
            e.1 = "D".repeat(100);
        }
    }
    assert_eq!(render_current(&w, &cat), Err(RenderError::Overflow));
}

#[test]
fn new_reports_are_empty() {
    let w = Weather::new();
    assert_eq!(w.location.name, "");
    assert_eq!(w.current.temp_c.text, "0");
    assert_eq!(w.current.is_day, 0);
    let f = ForecastWeather::new();
    assert_eq!(f.forecast.forecastday.len(), 0);
    assert_eq!(Weather::default(), Weather::new());
    assert_eq!(ForecastWeather::default(), ForecastWeather::new());
}
