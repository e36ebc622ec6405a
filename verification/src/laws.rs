//! Proved laws of the report renderer.
//!
//! Each proof function here states a property of every valid model
//! instance: the fixed visible width of every rendered line, the
//! determinism of rendering, the conditional chance-of-rain and
//! chance-of-snow sections, and the literal-equality day/night rule.

use vstd::prelude::*;

use crate::errors::RenderError;
use crate::model::{ForecastDay, ForecastWeather, Weather};
use crate::render::{
    lines_view, render_result_matches, spec_boxed_line, spec_current_rows, spec_day_head_rows,
    spec_day_rain_rows, spec_day_rows, spec_day_snow_rows, spec_day_tail_rows, spec_days_rows,
    spec_forecast_rows, spec_render_row, spec_render_rows, spec_sep_line, LineType, RowV, SepStyle,
};
use crate::text::spec_int_text;

verus! {

/// Every line that a successful rendering yields is exactly `width + 2`
/// characters wide: the interior width plus the two border glyphs.
pub proof fn lemma_rendered_lines_width(
    rows: Seq<RowV>,
    cat: Seq<(Seq<char>, Seq<char>)>,
    width: int,
    lines: Seq<Seq<char>>,
)
    requires
        2 <= width,
        spec_render_rows(rows, cat, width) == Ok::<Seq<Seq<char>>, RenderError>(lines),
    ensures
        forall|i: int| 0 <= i < lines.len() ==> (#[trigger] lines[i]).len() == width + 2,
    decreases rows.len(),
{
    if rows.len() == 0 {
        assert(lines =~= Seq::<Seq<char>>::empty());
    } else {
        let head = spec_render_row(rows[0], cat, width);
        assert(head is Ok);
        let l = head->Ok_0;
        let rest = spec_render_rows(rows.drop_first(), cat, width);
        assert(rest is Ok);
        let rest_lines = rest->Ok_0;
        assert(lines == seq![l] + rest_lines);
        match rows[0] {
            RowV::Sep { style } => {
                assert(l == spec_sep_line(style, width));
                assert(l.len() == width + 2);
            },
            RowV::Line { kind, key, params } => {
                let text = crate::render::spec_line_text(kind, key, params, cat)->Ok_0;
                assert(l == spec_boxed_line(text, width));
                assert(l.len() == width + 2);
            },
        }
        lemma_rendered_lines_width(rows.drop_first(), cat, width, rest_lines);
        assert forall|i: int| 0 <= i < lines.len() implies (#[trigger] lines[i]).len() == width
            + 2 by {
            if i == 0 {
                assert(lines[0] == l);
            } else {
                assert(lines[i] == rest_lines[i - 1]);
            }
        }
    }
}

/// Every line of a successfully rendered current-weather report is
/// exactly `PRINT_WIDTH + 2` characters wide.
pub proof fn lemma_current_report_width(
    w: Weather,
    cat: Seq<(Seq<char>, Seq<char>)>,
    lines: Seq<Seq<char>>,
)
    requires
        spec_render_rows(spec_current_rows(w), cat, crate::PRINT_WIDTH as int) == Ok::<
            Seq<Seq<char>>,
            RenderError,
        >(lines),
    ensures
        forall|i: int|
            0 <= i < lines.len() ==> (#[trigger] lines[i]).len() == crate::PRINT_WIDTH + 2,
{
    lemma_rendered_lines_width(spec_current_rows(w), cat, crate::PRINT_WIDTH as int, lines);
}

/// Every line of a successfully rendered forecast report is exactly
/// `PRINT_WIDTH + 2` characters wide.
pub proof fn lemma_forecast_report_width(
    f: ForecastWeather,
    cat: Seq<(Seq<char>, Seq<char>)>,
    lines: Seq<Seq<char>>,
)
    requires
        spec_render_rows(spec_forecast_rows(f), cat, crate::PRINT_WIDTH as int) == Ok::<
            Seq<Seq<char>>,
            RenderError,
        >(lines),
    ensures
        forall|i: int|
            0 <= i < lines.len() ==> (#[trigger] lines[i]).len() == crate::PRINT_WIDTH + 2,
{
    lemma_rendered_lines_width(spec_forecast_rows(f), cat, crate::PRINT_WIDTH as int, lines);
}

/// Rendering the same current-weather model twice with the same catalog
/// and width yields identical output: same success, identical lines,
/// identical error.
pub proof fn lemma_render_current_deterministic(
    w: Weather,
    cat: Seq<(Seq<char>, Seq<char>)>,
    r1: Result<Vec<String>, RenderError>,
    r2: Result<Vec<String>, RenderError>,
)
    requires
        render_result_matches(spec_current_rows(w), cat, r1),
        render_result_matches(spec_current_rows(w), cat, r2),
    ensures
        (r1 is Ok) == (r2 is Ok),
        r1 is Ok ==> lines_view(r1->Ok_0@) == lines_view(r2->Ok_0@),
        r1 is Err ==> r1->Err_0 == r2->Err_0,
{
}

/// Rendering the same forecast model twice with the same catalog and
/// width yields identical output.
pub proof fn lemma_render_forecast_deterministic(
    f: ForecastWeather,
    cat: Seq<(Seq<char>, Seq<char>)>,
    r1: Result<Vec<String>, RenderError>,
    r2: Result<Vec<String>, RenderError>,
)
    requires
        render_result_matches(spec_forecast_rows(f), cat, r1),
        render_result_matches(spec_forecast_rows(f), cat, r2),
    ensures
        (r1 is Ok) == (r2 is Ok),
        r1 is Ok ==> lines_view(r1->Ok_0@) == lines_view(r2->Ok_0@),
        r1 is Err ==> r1->Err_0 == r2->Err_0,
{
}

/// True when a row is a line row carrying the given message key.
pub open spec fn is_key_row(r: RowV, key: Seq<char>) -> bool {
    match r {
        RowV::Line { kind: _, key: k, params: _ } => k == key,
        RowV::Sep { style: _ } => false,
    }
}

/// How many rows of `rows` are line rows carrying `key`.
pub open spec fn count_key_rows(rows: Seq<RowV>, key: Seq<char>) -> int
    decreases rows.len(),
{
    if rows.len() == 0 {
        0
    } else {
        (if is_key_row(rows[0], key) {
            1int
        } else {
            0int
        }) + count_key_rows(rows.drop_first(), key)
    }
}

/// Key counts add over concatenation.
pub proof fn lemma_count_concat(a: Seq<RowV>, b: Seq<RowV>, key: Seq<char>)
    ensures
        count_key_rows(a + b, key) == count_key_rows(a, key) + count_key_rows(b, key),
    decreases a.len(),
{
    if a.len() == 0 {
        assert(a + b =~= b);
    } else {
        assert((a + b)[0] == a[0]);
        assert((a + b).drop_first() =~= a.drop_first() + b);
        lemma_count_concat(a.drop_first(), b, key);
    }
}

/// A key matched by no row counts zero.
pub proof fn lemma_count_none(rows: Seq<RowV>, key: Seq<char>)
    requires
        forall|i: int| 0 <= i < rows.len() ==> !is_key_row(#[trigger] rows[i], key),
    ensures
        count_key_rows(rows, key) == 0,
    decreases rows.len(),
{
    if rows.len() > 0 {
        lemma_count_none(rows.drop_first(), key);
    }
}

/// A single row counts one exactly when it carries the key.
pub proof fn lemma_count_singleton(r: RowV, key: Seq<char>)
    ensures
        count_key_rows(seq![r], key) == (if is_key_row(r, key) {
            1int
        } else {
            0int
        }),
{
    assert(seq![r].len() == 1);
    assert(seq![r][0] == r);
    assert(seq![r].drop_first() =~= Seq::<RowV>::empty());
    assert(count_key_rows(Seq::<RowV>::empty(), key) == 0);
}

/// One forecast day's block holds exactly one chance-of-rain line when
/// the day's will-it-rain flag is nonzero, and none when it is zero; and
/// when present the line carries the day's chance-of-rain percentage.
pub proof fn lemma_day_rain_rows(d: ForecastDay)
    ensures
        count_key_rows(spec_day_rows(d), "forecast.chance_of_rain"@) == (
        if d.day.daily_will_it_rain != 0 {
            1int
        } else {
            0int
        }),
        d.day.daily_will_it_rain != 0 ==> spec_day_rows(d)[6] == (RowV::Line {
            kind: LineType::Text,
            key: "forecast.chance_of_rain"@,
            params: seq![("rain_chance"@, spec_int_text(d.day.daily_chance_of_rain as int))],
        }),
{
    reveal_strlit("forecast.day_forecast");
    reveal_strlit("forecast.temperature_range");
    reveal_strlit("forecast.avg_temperature");
    reveal_strlit("forecast.condition");
    reveal_strlit("forecast.precipitation");
    reveal_strlit("forecast.chance_of_rain");
    reveal_strlit("forecast.chance_of_snow");
    reveal_strlit("forecast.wind");
    reveal_strlit("forecast.humidity");
    reveal_strlit("forecast.uv_index");
    reveal_strlit("forecast.sunrise");
    reveal_strlit("forecast.sunset");
    assert("forecast.day_forecast"@.len() == 21);
    assert("forecast.temperature_range"@.len() == 26);
    assert("forecast.avg_temperature"@.len() == 24);
    assert("forecast.condition"@.len() == 18);
    assert("forecast.precipitation"@.len() == 22);
    assert("forecast.chance_of_rain"@.len() == 23);
    assert("forecast.chance_of_snow"@.len() == 23);
    assert("forecast.wind"@.len() == 13);
    assert("forecast.humidity"@.len() == 17);
    assert("forecast.uv_index"@.len() == 17);
    assert("forecast.sunrise"@.len() == 16);
    assert("forecast.sunset"@.len() == 15);
    assert("forecast.chance_of_rain"@[19] == 'r');
    assert("forecast.chance_of_snow"@[19] == 's');
    let key = "forecast.chance_of_rain"@;
    let head = spec_day_head_rows(d);
    let rain = spec_day_rain_rows(d);
    let snow = spec_day_snow_rows(d);
    let tail = spec_day_tail_rows(d);
    assert(head.len() == 6);
    assert(tail.len() == 5);
    assert(forall|i: int| 0 <= i < head.len() ==> !is_key_row(#[trigger] head[i], key));
    lemma_count_none(head, key);
    if d.day.daily_will_it_snow != 0 {
        assert(snow.len() == 1);
        assert(!is_key_row(snow[0], key));
    } else {
        assert(snow.len() == 0);
    }
    assert(forall|i: int| 0 <= i < snow.len() ==> !is_key_row(#[trigger] snow[i], key));
    lemma_count_none(snow, key);
    assert(forall|i: int| 0 <= i < tail.len() ==> !is_key_row(#[trigger] tail[i], key));
    lemma_count_none(tail, key);
    if d.day.daily_will_it_rain != 0 {
        lemma_count_singleton(rain[0], key);
        assert(rain =~= seq![rain[0]]);
    } else {
        lemma_count_none(rain, key);
    }
    lemma_count_concat(head, rain, key);
    lemma_count_concat(head + rain, snow, key);
    lemma_count_concat(head + rain + snow, tail, key);
    if d.day.daily_will_it_rain != 0 {
        assert(spec_day_rows(d)[6] == rain[0]);
    }
}

/// One forecast day's block holds exactly one chance-of-snow line when
/// the day's will-it-snow flag is nonzero, and none when it is zero; and
/// when present the line carries the day's chance-of-snow percentage.
pub proof fn lemma_day_snow_rows(d: ForecastDay)
    ensures
        count_key_rows(spec_day_rows(d), "forecast.chance_of_snow"@) == (
        if d.day.daily_will_it_snow != 0 {
            1int
        } else {
            0int
        }),
{
    reveal_strlit("forecast.day_forecast");
    reveal_strlit("forecast.temperature_range");
    reveal_strlit("forecast.avg_temperature");
    reveal_strlit("forecast.condition");
    reveal_strlit("forecast.precipitation");
    reveal_strlit("forecast.chance_of_rain");
    reveal_strlit("forecast.chance_of_snow");
    reveal_strlit("forecast.wind");
    reveal_strlit("forecast.humidity");
    reveal_strlit("forecast.uv_index");
    reveal_strlit("forecast.sunrise");
    reveal_strlit("forecast.sunset");
    assert("forecast.day_forecast"@.len() == 21);
    assert("forecast.temperature_range"@.len() == 26);
    assert("forecast.avg_temperature"@.len() == 24);
    assert("forecast.condition"@.len() == 18);
    assert("forecast.precipitation"@.len() == 22);
    assert("forecast.chance_of_rain"@.len() == 23);
    assert("forecast.chance_of_snow"@.len() == 23);
    assert("forecast.wind"@.len() == 13);
    assert("forecast.humidity"@.len() == 17);
    assert("forecast.uv_index"@.len() == 17);
    assert("forecast.sunrise"@.len() == 16);
    assert("forecast.sunset"@.len() == 15);
    assert("forecast.chance_of_rain"@[19] == 'r');
    assert("forecast.chance_of_snow"@[19] == 's');
    let key = "forecast.chance_of_snow"@;
    let head = spec_day_head_rows(d);
    let rain = spec_day_rain_rows(d);
    let snow = spec_day_snow_rows(d);
    let tail = spec_day_tail_rows(d);
    assert(head.len() == 6);
    assert(tail.len() == 5);
    assert(forall|i: int| 0 <= i < head.len() ==> !is_key_row(#[trigger] head[i], key));
    lemma_count_none(head, key);
    if d.day.daily_will_it_rain != 0 {
        assert(rain.len() == 1);
        assert(!is_key_row(rain[0], key));
    } else {
        assert(rain.len() == 0);
    }
    assert(forall|i: int| 0 <= i < rain.len() ==> !is_key_row(#[trigger] rain[i], key));
    lemma_count_none(rain, key);
    assert(forall|i: int| 0 <= i < tail.len() ==> !is_key_row(#[trigger] tail[i], key));
    lemma_count_none(tail, key);
    if d.day.daily_will_it_snow != 0 {
        lemma_count_singleton(snow[0], key);
        assert(snow =~= seq![snow[0]]);
    } else {
        lemma_count_none(snow, key);
    }
    lemma_count_concat(head, rain, key);
    lemma_count_concat(head + rain, snow, key);
    lemma_count_concat(head + rain + snow, tail, key);
}

/// How many days of a list have a nonzero will-it-rain flag.
pub open spec fn count_rainy_days(days: Seq<ForecastDay>) -> int
    decreases days.len(),
{
    if days.len() == 0 {
        0
    } else {
        (if days[0].day.daily_will_it_rain != 0 {
            1int
        } else {
            0int
        }) + count_rainy_days(days.drop_first())
    }
}

/// The day blocks of a list hold exactly one chance-of-rain line per day
/// whose will-it-rain flag is nonzero.
pub proof fn lemma_days_rain_count(days: Seq<ForecastDay>)
    ensures
        count_key_rows(spec_days_rows(days), "forecast.chance_of_rain"@) == count_rainy_days(days),
    decreases days.len(),
{
    let key = "forecast.chance_of_rain"@;
    if days.len() == 0 {
        assert(count_key_rows(spec_days_rows(days), key) == 0);
    } else {
        lemma_day_rain_rows(days[0]);
        lemma_days_rain_count(days.drop_first());
        lemma_count_concat(spec_day_rows(days[0]), spec_days_rows(days.drop_first()), key);
    }
}

/// A forecast report holds exactly as many chance-of-rain lines as it
/// has days whose will-it-rain flag is nonzero.
pub proof fn lemma_forecast_rain_count(f: ForecastWeather)
    ensures
        count_key_rows(spec_forecast_rows(f), "forecast.chance_of_rain"@) == count_rainy_days(
            f.forecast.forecastday@,
        ),
{
    reveal_strlit("forecast.forecast");
    reveal_strlit("forecast.day_forecast");
    reveal_strlit("forecast.temperature_range");
    reveal_strlit("forecast.avg_temperature");
    reveal_strlit("forecast.condition");
    reveal_strlit("forecast.precipitation");
    reveal_strlit("forecast.chance_of_rain");
    reveal_strlit("forecast.chance_of_snow");
    reveal_strlit("forecast.wind");
    reveal_strlit("forecast.humidity");
    reveal_strlit("forecast.uv_index");
    reveal_strlit("forecast.sunrise");
    reveal_strlit("forecast.sunset");
    assert("forecast.day_forecast"@.len() == 21);
    assert("forecast.temperature_range"@.len() == 26);
    assert("forecast.avg_temperature"@.len() == 24);
    assert("forecast.condition"@.len() == 18);
    assert("forecast.precipitation"@.len() == 22);
    assert("forecast.chance_of_rain"@.len() == 23);
    assert("forecast.chance_of_snow"@.len() == 23);
    assert("forecast.wind"@.len() == 13);
    assert("forecast.humidity"@.len() == 17);
    assert("forecast.uv_index"@.len() == 17);
    assert("forecast.sunrise"@.len() == 16);
    assert("forecast.sunset"@.len() == 15);
    assert("forecast.chance_of_rain"@[19] == 'r');
    assert("forecast.chance_of_snow"@[19] == 's');
    assert("forecast.forecast"@.len() == 17);
    let key = "forecast.chance_of_rain"@;
    let head = seq![
        RowV::Sep { style: SepStyle::Top },
        RowV::Line {
            kind: LineType::Header,
            key: "forecast.forecast"@,
            params: seq![("city"@, f.location.name@)],
        },
    ];
    let days = spec_days_rows(f.forecast.forecastday@);
    let bottom = seq![RowV::Sep { style: SepStyle::Bottom }];
    assert(head.len() == 2);
    assert(!is_key_row(head[0], key));
    assert(!is_key_row(head[1], key));
    assert(forall|i: int| 0 <= i < head.len() ==> !is_key_row(#[trigger] head[i], key));
    lemma_count_none(head, key);
    assert(forall|i: int| 0 <= i < bottom.len() ==> !is_key_row(#[trigger] bottom[i], key));
    lemma_count_none(bottom, key);
    lemma_days_rain_count(f.forecast.forecastday@);
    lemma_count_concat(head, days, key);
    lemma_count_concat(head + days, bottom, key);
}

/// The day/night line of a current-weather report: the `daytime`
/// parameter is the literal `day` exactly when the is-day flag equals 1,
/// and the literal `night` for every other value, zero or not.
pub proof fn lemma_daytime_line(w: Weather)
    ensures
        spec_current_rows(w)[11] == (RowV::Line {
            kind: LineType::Text,
            key: "current.daytime"@,
            params: seq![
                ("daytime"@, if w.current.is_day == 1 { "day"@ } else { "night"@ }),
            ],
        }),
        w.current.is_day == 1 ==> spec_current_rows(w)[11]->Line_params == seq![
            ("daytime"@, "day"@),
        ],
        w.current.is_day != 1 ==> spec_current_rows(w)[11]->Line_params == seq![
            ("daytime"@, "night"@),
        ],
{
}

} // verus!
