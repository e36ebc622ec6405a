//! The report renderer: turns a domain model instance into a boxed,
//! fixed-width, localized sequence of display lines.
//!
//! Every report is a box drawn with box-drawing characters, exactly
//! `width + 2` display columns wide including the vertical borders. A
//! header line is upper-cased; a content line keeps its case. Padding is
//! computed in characters, not bytes. A line whose visible text would not
//! fit is a content error: the renderer refuses it rather than truncate
//! or wrap.

use vstd::prelude::*;

use crate::catalog::{pairs_view, spec_translate, translate, Catalog};
use crate::errors::RenderError;
use crate::model::{ForecastDay, ForecastWeather, Weather};
use crate::text::{chars_to_string, i64_to_string, spec_int_text, str_to_chars, to_upper, upper_of};

verus! {

/// Position of a separator: top border, interior separator, or bottom
/// border.
#[derive(Debug, Clone, Copy, PartialEq, Eq, Structural)]
pub enum SepStyle {
    Top,
    Middle,
    Bottom,
}

/// Header lines render their text upper-cased; text lines keep it as is.
#[derive(Debug, Clone, Copy, PartialEq, Eq, Structural)]
pub enum LineType {
    Header,
    Text,
}

/// One row of a report: a separator, or a line described by a message
/// key and its interpolation parameters.
pub enum Row {
    Sep(SepStyle),
    Line(LineType, String, Vec<(String, String)>),
}

/// Mathematical form of a [`Row`].
pub enum RowV {
    Sep { style: SepStyle },
    Line { kind: LineType, key: Seq<char>, params: Seq<(Seq<char>, Seq<char>)> },
}

impl View for Row {
    type V = RowV;

    open spec fn view(&self) -> RowV {
        match self {
            Row::Sep(style) => RowV::Sep { style: *style },
            Row::Line(kind, key, ps) => RowV::Line {
                kind: *kind,
                key: key@,
                params: pairs_view(ps@),
            },
        }
    }
}

/// View of a row list as its mathematical form.
pub open spec fn rows_view(rows: Seq<Row>) -> Seq<RowV> {
    rows.map_values(|r: Row| r@)
}

/// View of a line list as character sequences.
pub open spec fn lines_view(lines: Seq<String>) -> Seq<Seq<char>> {
    lines.map_values(|s: String| s@)
}

/// `n` spaces (empty when `n` is negative).
pub open spec fn spaces(n: int) -> Seq<char> {
    Seq::new(if n >= 0 { n as nat } else { 0 }, |i: int| ' ')
}

/// `n` horizontal box-drawing dashes (empty when `n` is negative).
pub open spec fn dashes(n: int) -> Seq<char> {
    Seq::new(if n >= 0 { n as nat } else { 0 }, |i: int| '─')
}

/// A separator line: a corner or junction, `width` dashes, and the
/// matching closing glyph.
pub open spec fn spec_sep_line(style: SepStyle, width: int) -> Seq<char> {
    match style {
        SepStyle::Top => seq!['┌'] + dashes(width) + seq!['┐'],
        SepStyle::Middle => seq!['├'] + dashes(width) + seq!['┤'],
        SepStyle::Bottom => seq!['└'] + dashes(width) + seq!['┘'],
    }
}

/// A content line: the two-character prefix, the visible text, spaces up
/// to the interior width, and the closing border.
pub open spec fn spec_boxed_line(text: Seq<char>, width: int) -> Seq<char> {
    seq!['│', ' '] + text + spaces(width - 2 - text.len()) + seq![' ', '│']
}

/// The visible text of a line row: the translation of its key, upper-cased
/// for a header.
pub open spec fn spec_line_text(
    kind: LineType,
    key: Seq<char>,
    params: Seq<(Seq<char>, Seq<char>)>,
    cat: Seq<(Seq<char>, Seq<char>)>,
) -> Result<Seq<char>, RenderError> {
    match spec_translate(cat, key, params) {
        Err(e) => Err(e),
        Ok(s) => Ok(
            match kind {
                LineType::Header => upper_of(s),
                LineType::Text => s,
            },
        ),
    }
}

/// The rendering of one row at a given interior width.
pub open spec fn spec_render_row(row: RowV, cat: Seq<(Seq<char>, Seq<char>)>, width: int) -> Result<
    Seq<char>,
    RenderError,
> {
    match row {
        RowV::Sep { style } => Ok(spec_sep_line(style, width)),
        RowV::Line { kind, key, params } => match spec_line_text(kind, key, params, cat) {
            Err(e) => Err(e),
            Ok(text) => if text.len() + 2 <= width {
                Ok(spec_boxed_line(text, width))
            } else {
                Err(RenderError::Overflow)
            },
        },
    }
}

/// The rendering of a row list: the lines of every row in order, or the
/// first row error.
pub open spec fn spec_render_rows(
    rows: Seq<RowV>,
    cat: Seq<(Seq<char>, Seq<char>)>,
    width: int,
) -> Result<Seq<Seq<char>>, RenderError>
    decreases rows.len(),
{
    if rows.len() == 0 {
        Ok(Seq::<Seq<char>>::empty())
    } else {
        match spec_render_row(rows[0], cat, width) {
            Err(e) => Err(e),
            Ok(line) => match spec_render_rows(rows.drop_first(), cat, width) {
                Err(e) => Err(e),
                Ok(rest) => Ok(seq![line] + rest),
            },
        }
    }
}

/// Builds a separator line.
fn sep_line(style: SepStyle, width: usize) -> (r: String)
    ensures
        r@ == spec_sep_line(style, width as int),
{
    let mut v: Vec<char> = Vec::new();
    let left: char = match style {
        SepStyle::Top => '┌',
        SepStyle::Middle => '├',
        SepStyle::Bottom => '└',
    };
    let right: char = match style {
        SepStyle::Top => '┐',
        SepStyle::Middle => '┤',
        SepStyle::Bottom => '┘',
    };
    v.push(left);
    let mut i: usize = 0;
    while i < width
        invariant
            i <= width,
            v@ == seq![left] + dashes(i as int),
        decreases width - i,
    {
        v.push('─');
        proof {
            assert((seq![left] + dashes(i as int)).push('─') =~= seq![left] + dashes(i as int + 1));
        }
        i = i + 1;
    }
    v.push(right);
    proof {
        assert(v@ =~= spec_sep_line(style, width as int));
    }
    chars_to_string(&v)
}

/// Boxes a visible text: prefix, text, padding, and closing border.
/// Refuses a text that would not fit the interior width.
fn boxed_line(text: Vec<char>, width: usize) -> (r: Result<String, RenderError>)
    requires
        2 <= width,
    ensures
        text@.len() + 2 <= width ==> r is Ok && r->Ok_0@ == spec_boxed_line(text@, width as int),
        text@.len() + 2 > width ==> r == Err::<String, RenderError>(RenderError::Overflow),
{
    if text.len() > width - 2 {
        return Err(RenderError::Overflow);
    }
    let pad = width - 2 - text.len();
    let ghost t0 = text@;
    let mut v: Vec<char> = Vec::new();
    v.push('│');
    v.push(' ');
    let mut text = text;
    v.append(&mut text);
    proof {
        assert(v@ =~= seq!['│', ' '] + t0);
    }
    let mut i: usize = 0;
    while i < pad
        invariant
            i <= pad,
            v@ == seq!['│', ' '] + t0 + spaces(i as int),
        decreases pad - i,
    {
        v.push(' ');
        proof {
            assert((seq!['│', ' '] + t0 + spaces(i as int)).push(' ') =~= seq!['│', ' '] + t0
                + spaces(i as int + 1));
        }
        i = i + 1;
    }
    v.push(' ');
    v.push('│');
    proof {
        assert(v@ =~= spec_boxed_line(t0, width as int));
    }
    Ok(chars_to_string(&v))
}

/// Renders one row.
fn render_row(row: &Row, cat: &Catalog, width: usize) -> (r: Result<String, RenderError>)
    requires
        2 <= width,
    ensures
        (r is Ok) == (spec_render_row(row@, cat@, width as int) is Ok),
        r is Ok ==> r->Ok_0@ == spec_render_row(row@, cat@, width as int)->Ok_0,
        r is Err ==> r->Err_0 == spec_render_row(row@, cat@, width as int)->Err_0,
{
    match row {
        Row::Sep(style) => Ok(sep_line(*style, width)),
        Row::Line(kind, key, params) => {
            match translate(cat, key, params) {
                Err(e) => Err(e),
                Ok(text) => {
                    let visible: Vec<char> = match kind {
                        LineType::Header => {
                            let s = chars_to_string(&text);
                            let u = to_upper(&s);
                            str_to_chars(u.as_str())
                        },
                        LineType::Text => text,
                    };
                    boxed_line(visible, width)
                },
            }
        },
    }
}

/// Renders a row list into display lines: one line per row, in order, or
/// the first row's error.
pub fn render_rows(rows: &Vec<Row>, cat: &Catalog, width: usize) -> (r: Result<
    Vec<String>,
    RenderError,
>)
    requires
        2 <= width,
    ensures
        (r is Ok) == (spec_render_rows(rows_view(rows@), cat@, width as int) is Ok),
        r is Ok ==> lines_view(r->Ok_0@) == spec_render_rows(
            rows_view(rows@),
            cat@,
            width as int,
        )->Ok_0,
        r is Err ==> r->Err_0 == spec_render_rows(rows_view(rows@), cat@, width as int)->Err_0,
{
    let ghost rv = rows_view(rows@);
    let ghost full = spec_render_rows(rv, cat@, width as int);
    let n = rows.len();
    let mut out: Vec<String> = Vec::new();
    proof {
        assert(rv.subrange(0, n as int) =~= rv);
        assert(lines_view(out@) =~= Seq::<Seq<char>>::empty());
    }
    let mut i: usize = 0;
    while i < n
        invariant
            2 <= width,
            i <= n,
            n == rows@.len(),
            rv == rows_view(rows@),
            full == spec_render_rows(rv, cat@, width as int),
            match spec_render_rows(rv.subrange(i as int, n as int), cat@, width as int) {
                Ok(rest) => full == Ok::<Seq<Seq<char>>, RenderError>(lines_view(out@) + rest),
                Err(e) => full == Err::<Seq<Seq<char>>, RenderError>(e),
            },
        decreases n - i,
    {
        proof {
            assert(rv[i as int] == rows@[i as int]@);
            assert(rv.subrange(i as int, n as int)[0] == rv[i as int]);
            assert(rv.subrange(i as int, n as int).drop_first() =~= rv.subrange(
                i as int + 1,
                n as int,
            ));
        }
        match render_row(&rows[i], cat, width) {
            Err(e) => {
                return Err(e);
            },
            Ok(line) => {
                let ghost out0 = lines_view(out@);
                let ghost l0 = line@;
                out.push(line);
                proof {
                    assert(lines_view(out@) =~= out0.push(l0));
                    if spec_render_rows(rv.subrange(i as int + 1, n as int), cat@, width as int)
                        is Ok {
                        let rest = spec_render_rows(
                            rv.subrange(i as int + 1, n as int),
                            cat@,
                            width as int,
                        )->Ok_0;
                        assert(out0.push(l0) + rest =~= out0 + (seq![l0] + rest));
                    }
                }
            },
        }
        i = i + 1;
    }
    proof {
        assert(rv.subrange(n as int, n as int) =~= Seq::<RowV>::empty());
        assert(lines_view(out@) + Seq::<Seq<char>>::empty() =~= lines_view(out@));
    }
    Ok(out)
}

/// A line row with no parameters.
fn line0(kind: LineType, key: &str) -> (r: Row)
    ensures
        r@ == (RowV::Line {
            kind,
            key: key@,
            params: Seq::<(Seq<char>, Seq<char>)>::empty(),
        }),
{
    let ps: Vec<(String, String)> = Vec::new();
    proof {
        assert(pairs_view(ps@) =~= Seq::<(Seq<char>, Seq<char>)>::empty());
    }
    Row::Line(kind, String::from_str(key), ps)
}

/// A line row with one named parameter.
fn line1(kind: LineType, key: &str, p1: &str, v1: String) -> (r: Row)
    ensures
        r@ == (RowV::Line { kind, key: key@, params: seq![(p1@, v1@)] }),
{
    let ghost g1 = v1@;
    let mut ps: Vec<(String, String)> = Vec::new();
    ps.push((String::from_str(p1), v1));
    proof {
        assert(pairs_view(ps@) =~= seq![(p1@, g1)]);
    }
    Row::Line(kind, String::from_str(key), ps)
}

/// A line row with two named parameters.
fn line2(kind: LineType, key: &str, p1: &str, v1: String, p2: &str, v2: String) -> (r: Row)
    ensures
        r@ == (RowV::Line { kind, key: key@, params: seq![(p1@, v1@), (p2@, v2@)] }),
{
    let ghost g1 = v1@;
    let ghost g2 = v2@;
    let mut ps: Vec<(String, String)> = Vec::new();
    ps.push((String::from_str(p1), v1));
    ps.push((String::from_str(p2), v2));
    proof {
        assert(pairs_view(ps@) =~= seq![(p1@, g1), (p2@, g2)]);
    }
    Row::Line(kind, String::from_str(key), ps)
}

/// A line row with four named parameters.
fn line4(
    kind: LineType,
    key: &str,
    p1: &str,
    v1: String,
    p2: &str,
    v2: String,
    p3: &str,
    v3: String,
    p4: &str,
    v4: String,
) -> (r: Row)
    ensures
        r@ == (RowV::Line {
            kind,
            key: key@,
            params: seq![(p1@, v1@), (p2@, v2@), (p3@, v3@), (p4@, v4@)],
        }),
{
    let ghost g1 = v1@;
    let ghost g2 = v2@;
    let ghost g3 = v3@;
    let ghost g4 = v4@;
    let mut ps: Vec<(String, String)> = Vec::new();
    ps.push((String::from_str(p1), v1));
    ps.push((String::from_str(p2), v2));
    ps.push((String::from_str(p3), v3));
    ps.push((String::from_str(p4), v4));
    proof {
        assert(pairs_view(ps@) =~= seq![(p1@, g1), (p2@, g2), (p3@, g3), (p4@, g4)]);
    }
    Row::Line(kind, String::from_str(key), ps)
}

/// The rows of a current-weather report, in their fixed section order:
/// title header, date/time and region, current conditions, more details,
/// and the last-updated line, between separators.
pub open spec fn spec_current_rows(w: Weather) -> Seq<RowV> {
    seq![
        RowV::Sep { style: SepStyle::Top },
        RowV::Line {
            kind: LineType::Header,
            key: "current.weather_report"@,
            params: seq![("city"@, w.location.name@)],
        },
        RowV::Sep { style: SepStyle::Middle },
        RowV::Line {
            kind: LineType::Text,
            key: "current.date"@,
            params: seq![("date"@, w.location.localtime@)],
        },
        RowV::Line {
            kind: LineType::Text,
            key: "current.region"@,
            params: seq![("region"@, w.location.region@), ("country"@, w.location.country@)],
        },
        RowV::Sep { style: SepStyle::Middle },
        RowV::Line {
            kind: LineType::Header,
            key: "current.current_conditions"@,
            params: Seq::<(Seq<char>, Seq<char>)>::empty(),
        },
        RowV::Sep { style: SepStyle::Middle },
        RowV::Line {
            kind: LineType::Text,
            key: "current.status"@,
            params: seq![("status"@, w.current.condition.text@)],
        },
        RowV::Line {
            kind: LineType::Text,
            key: "current.temperature"@,
            params: seq![
                ("temperature_c"@, w.current.temp_c.text@),
                ("temperature_f"@, w.current.temp_f.text@),
            ],
        },
        RowV::Line {
            kind: LineType::Text,
            key: "current.feels_like"@,
            params: seq![
                ("feels_like_c"@, w.current.feelslike_c.text@),
                ("feels_like_f"@, w.current.feelslike_f.text@),
            ],
        },
        RowV::Line {
            kind: LineType::Text,
            key: "current.daytime"@,
            params: seq![
                ("daytime"@, if w.current.is_day == 1 { "day"@ } else { "night"@ }),
            ],
        },
        RowV::Sep { style: SepStyle::Middle },
        RowV::Line {
            kind: LineType::Header,
            key: "current.more_details"@,
            params: Seq::<(Seq<char>, Seq<char>)>::empty(),
        },
        RowV::Sep { style: SepStyle::Middle },
        RowV::Line {
            kind: LineType::Text,
            key: "current.humidity"@,
            params: seq![("humidity"@, spec_int_text(w.current.humidity as int))],
        },
        RowV::Line {
            kind: LineType::Text,
            key: "current.cloudiness"@,
            params: seq![("cloudiness"@, spec_int_text(w.current.cloud as int))],
        },
        RowV::Line {
            kind: LineType::Text,
            key: "current.wind"@,
            params: seq![
                ("wind_speed"@, w.current.wind_kph.text@),
                ("wind_direction"@, w.current.wind_dir@),
            ],
        },
        RowV::Line {
            kind: LineType::Text,
            key: "current.gusts"@,
            params: seq![
                ("wind_gusts"@, w.current.gust_kph.text@),
                ("gusts_mph"@, w.current.gust_mph.text@),
            ],
        },
        RowV::Line {
            kind: LineType::Text,
            key: "current.precipitation"@,
            params: seq![("precipitation"@, w.current.precip_mm.text@)],
        },
        RowV::Line {
            kind: LineType::Text,
            key: "current.pressure"@,
            params: seq![("pressure"@, w.current.pressure_mb.text@)],
        },
        RowV::Line {
            kind: LineType::Text,
            key: "current.visibility"@,
            params: seq![("visibility"@, w.current.vis_km.text@)],
        },
        RowV::Line {
            kind: LineType::Text,
            key: "current.uv_index"@,
            params: seq![("uv_index"@, w.current.uv.text@)],
        },
        RowV::Sep { style: SepStyle::Middle },
        RowV::Line {
            kind: LineType::Text,
            key: "current.last_updated"@,
            params: seq![("last_updated"@, w.current.last_updated@)],
        },
        RowV::Sep { style: SepStyle::Bottom },
    ]
}

/// Builds the rows of a current-weather report.
pub fn current_rows(w: &Weather) -> (rows: Vec<Row>)
    ensures
        rows_view(rows@) == spec_current_rows(*w),
{
    let mut rows: Vec<Row> = Vec::new();
    rows.push(Row::Sep(SepStyle::Top));
    rows.push(
        line1(LineType::Header, "current.weather_report", "city", w.location.name.clone()),
    );
    rows.push(Row::Sep(SepStyle::Middle));
    rows.push(line1(LineType::Text, "current.date", "date", w.location.localtime.clone()));
    rows.push(
        line2(
            LineType::Text,
            "current.region",
            "region",
            w.location.region.clone(),
            "country",
            w.location.country.clone(),
        ),
    );
    rows.push(Row::Sep(SepStyle::Middle));
    rows.push(line0(LineType::Header, "current.current_conditions"));
    rows.push(Row::Sep(SepStyle::Middle));
    rows.push(
        line1(LineType::Text, "current.status", "status", w.current.condition.text.clone()),
    );
    rows.push(
        line2(
            LineType::Text,
            "current.temperature",
            "temperature_c",
            w.current.temp_c.text.clone(),
            "temperature_f",
            w.current.temp_f.text.clone(),
        ),
    );
    rows.push(
        line2(
            LineType::Text,
            "current.feels_like",
            "feels_like_c",
            w.current.feelslike_c.text.clone(),
            "feels_like_f",
            w.current.feelslike_f.text.clone(),
        ),
    );
    let daytime: String = if w.current.is_day == 1 {
        String::from_str("day")
    } else {
        String::from_str("night")
    };
    rows.push(line1(LineType::Text, "current.daytime", "daytime", daytime));
    rows.push(Row::Sep(SepStyle::Middle));
    rows.push(line0(LineType::Header, "current.more_details"));
    rows.push(Row::Sep(SepStyle::Middle));
    rows.push(
        line1(LineType::Text, "current.humidity", "humidity", i64_to_string(w.current.humidity)),
    );
    rows.push(
        line1(
            LineType::Text,
            "current.cloudiness",
            "cloudiness",
            i64_to_string(w.current.cloud),
        ),
    );
    rows.push(
        line2(
            LineType::Text,
            "current.wind",
            "wind_speed",
            w.current.wind_kph.text.clone(),
            "wind_direction",
            w.current.wind_dir.clone(),
        ),
    );
    rows.push(
        line2(
            LineType::Text,
            "current.gusts",
            "wind_gusts",
            w.current.gust_kph.text.clone(),
            "gusts_mph",
            w.current.gust_mph.text.clone(),
        ),
    );
    rows.push(
        line1(
            LineType::Text,
            "current.precipitation",
            "precipitation",
            w.current.precip_mm.text.clone(),
        ),
    );
    rows.push(
        line1(LineType::Text, "current.pressure", "pressure", w.current.pressure_mb.text.clone()),
    );
    rows.push(
        line1(LineType::Text, "current.visibility", "visibility", w.current.vis_km.text.clone()),
    );
    rows.push(line1(LineType::Text, "current.uv_index", "uv_index", w.current.uv.text.clone()));
    rows.push(Row::Sep(SepStyle::Middle));
    rows.push(
        line1(
            LineType::Text,
            "current.last_updated",
            "last_updated",
            w.current.last_updated.clone(),
        ),
    );
    rows.push(Row::Sep(SepStyle::Bottom));
    proof {
        assert(rows_view(rows@) =~= spec_current_rows(*w));
    }
    rows
}

/// The fixed opening rows of a forecast day's block: its separator, date,
/// temperatures, condition, and precipitation.
pub open spec fn spec_day_head_rows(d: ForecastDay) -> Seq<RowV> {
    seq![
        RowV::Sep { style: SepStyle::Middle },
        RowV::Line {
            kind: LineType::Text,
            key: "forecast.day_forecast"@,
            params: seq![("date"@, d.date@)],
        },
        RowV::Line {
            kind: LineType::Text,
            key: "forecast.temperature_range"@,
            params: seq![
                ("min_temp_c"@, d.day.mintemp_c.text@),
                ("min_temp_f"@, d.day.mintemp_f.text@),
                ("max_temp_c"@, d.day.maxtemp_c.text@),
                ("max_temp_f"@, d.day.maxtemp_f.text@),
            ],
        },
        RowV::Line {
            kind: LineType::Text,
            key: "forecast.avg_temperature"@,
            params: seq![
                ("avg_temp_c"@, d.day.avgtemp_c.text@),
                ("avg_temp_f"@, d.day.avgtemp_f.text@),
            ],
        },
        RowV::Line {
            kind: LineType::Text,
            key: "forecast.condition"@,
            params: seq![("condition"@, d.day.condition.text@)],
        },
        RowV::Line {
            kind: LineType::Text,
            key: "forecast.precipitation"@,
            params: seq![("precipitation"@, d.day.totalprecip_mm.text@)],
        },
    ]
}

/// The chance-of-rain row of a day's block: present exactly when the
/// will-it-rain flag is nonzero, and then carrying the chance-of-rain
/// percentage.
pub open spec fn spec_day_rain_rows(d: ForecastDay) -> Seq<RowV> {
    if d.day.daily_will_it_rain != 0 {
        seq![
            RowV::Line {
                kind: LineType::Text,
                key: "forecast.chance_of_rain"@,
                params: seq![("rain_chance"@, spec_int_text(d.day.daily_chance_of_rain as int))],
            },
        ]
    } else {
        Seq::<RowV>::empty()
    }
}

/// The chance-of-snow row of a day's block: present exactly when the
/// will-it-snow flag is nonzero, and then carrying the chance-of-snow
/// percentage.
pub open spec fn spec_day_snow_rows(d: ForecastDay) -> Seq<RowV> {
    if d.day.daily_will_it_snow != 0 {
        seq![
            RowV::Line {
                kind: LineType::Text,
                key: "forecast.chance_of_snow"@,
                params: seq![("snow_chance"@, spec_int_text(d.day.daily_chance_of_snow as int))],
            },
        ]
    } else {
        Seq::<RowV>::empty()
    }
}

/// The fixed closing rows of a forecast day's block: wind, humidity, UV,
/// sunrise, and sunset.
pub open spec fn spec_day_tail_rows(d: ForecastDay) -> Seq<RowV> {
    seq![
        RowV::Line {
            kind: LineType::Text,
            key: "forecast.wind"@,
            params: seq![
                ("wind_kph"@, d.day.maxwind_kph.text@),
                ("wind_mph"@, d.day.maxwind_mph.text@),
            ],
        },
        RowV::Line {
            kind: LineType::Text,
            key: "forecast.humidity"@,
            params: seq![("humidity"@, spec_int_text(d.day.avghumidity as int))],
        },
        RowV::Line {
            kind: LineType::Text,
            key: "forecast.uv_index"@,
            params: seq![("uv"@, d.day.uv.text@)],
        },
        RowV::Line {
            kind: LineType::Text,
            key: "forecast.sunrise"@,
            params: seq![("sunrise"@, d.astro.sunrise@)],
        },
        RowV::Line {
            kind: LineType::Text,
            key: "forecast.sunset"@,
            params: seq![("sunset"@, d.astro.sunset@)],
        },
    ]
}

/// The rows of one forecast day's block: its date, temperatures,
/// condition, and precipitation; a chance-of-rain line only when the
/// will-it-rain flag is nonzero and a chance-of-snow line only when the
/// will-it-snow flag is nonzero; then wind, humidity, UV, sunrise, and
/// sunset.
pub open spec fn spec_day_rows(d: ForecastDay) -> Seq<RowV> {
    spec_day_head_rows(d) + spec_day_rain_rows(d) + spec_day_snow_rows(d) + spec_day_tail_rows(d)
}

/// The concatenated blocks of a list of forecast days, in order.
pub open spec fn spec_days_rows(days: Seq<ForecastDay>) -> Seq<RowV>
    decreases days.len(),
{
    if days.len() == 0 {
        Seq::<RowV>::empty()
    } else {
        spec_day_rows(days[0]) + spec_days_rows(days.drop_first())
    }
}

/// Day blocks concatenate one day at a time.
pub proof fn lemma_days_rows_push(days: Seq<ForecastDay>, d: ForecastDay)
    ensures
        spec_days_rows(days.push(d)) == spec_days_rows(days) + spec_day_rows(d),
    decreases days.len(),
{
    let p = days.push(d);
    if days.len() == 0 {
        assert(p[0] == d);
        assert(p.drop_first() =~= Seq::<ForecastDay>::empty());
        assert(spec_days_rows(p) == spec_day_rows(d) + spec_days_rows(
            Seq::<ForecastDay>::empty(),
        ));
        assert(spec_day_rows(d) + Seq::<RowV>::empty() =~= spec_day_rows(d));
        assert(Seq::<RowV>::empty() + spec_day_rows(d) =~= spec_day_rows(d));
    } else {
        assert(p[0] == days[0]);
        assert(p.drop_first() =~= days.drop_first().push(d));
        lemma_days_rows_push(days.drop_first(), d);
        assert(spec_days_rows(p) == spec_day_rows(days[0]) + (spec_days_rows(days.drop_first())
            + spec_day_rows(d)));
        assert(spec_day_rows(days[0]) + (spec_days_rows(days.drop_first()) + spec_day_rows(d))
            =~= (spec_day_rows(days[0]) + spec_days_rows(days.drop_first())) + spec_day_rows(d));
    }
}

/// The rows of a forecast report: one outer border, a title header, one
/// block per forecast day, and the bottom border.
pub open spec fn spec_forecast_rows(f: ForecastWeather) -> Seq<RowV> {
    seq![
        RowV::Sep { style: SepStyle::Top },
        RowV::Line {
            kind: LineType::Header,
            key: "forecast.forecast"@,
            params: seq![("city"@, f.location.name@)],
        },
    ] + spec_days_rows(f.forecast.forecastday@) + seq![RowV::Sep { style: SepStyle::Bottom }]
}

/// Builds the rows of one forecast day's block.
fn day_rows(d: &ForecastDay) -> (rows: Vec<Row>)
    ensures
        rows_view(rows@) == spec_day_rows(*d),
{
    let mut rows: Vec<Row> = Vec::new();
    rows.push(Row::Sep(SepStyle::Middle));
    rows.push(line1(LineType::Text, "forecast.day_forecast", "date", d.date.clone()));
    rows.push(
        line4(
            LineType::Text,
            "forecast.temperature_range",
            "min_temp_c",
            d.day.mintemp_c.text.clone(),
            "min_temp_f",
            d.day.mintemp_f.text.clone(),
            "max_temp_c",
            d.day.maxtemp_c.text.clone(),
            "max_temp_f",
            d.day.maxtemp_f.text.clone(),
        ),
    );
    rows.push(
        line2(
            LineType::Text,
            "forecast.avg_temperature",
            "avg_temp_c",
            d.day.avgtemp_c.text.clone(),
            "avg_temp_f",
            d.day.avgtemp_f.text.clone(),
        ),
    );
    rows.push(
        line1(LineType::Text, "forecast.condition", "condition", d.day.condition.text.clone()),
    );
    rows.push(
        line1(
            LineType::Text,
            "forecast.precipitation",
            "precipitation",
            d.day.totalprecip_mm.text.clone(),
        ),
    );
    if d.day.daily_will_it_rain != 0 {
        rows.push(
            line1(
                LineType::Text,
                "forecast.chance_of_rain",
                "rain_chance",
                i64_to_string(d.day.daily_chance_of_rain),
            ),
        );
    }
    if d.day.daily_will_it_snow != 0 {
        rows.push(
            line1(
                LineType::Text,
                "forecast.chance_of_snow",
                "snow_chance",
                i64_to_string(d.day.daily_chance_of_snow),
            ),
        );
    }
    rows.push(
        line2(
            LineType::Text,
            "forecast.wind",
            "wind_kph",
            d.day.maxwind_kph.text.clone(),
            "wind_mph",
            d.day.maxwind_mph.text.clone(),
        ),
    );
    rows.push(
        line1(LineType::Text, "forecast.humidity", "humidity", i64_to_string(d.day.avghumidity)),
    );
    rows.push(line1(LineType::Text, "forecast.uv_index", "uv", d.day.uv.text.clone()));
    rows.push(line1(LineType::Text, "forecast.sunrise", "sunrise", d.astro.sunrise.clone()));
    rows.push(line1(LineType::Text, "forecast.sunset", "sunset", d.astro.sunset.clone()));
    proof {
        assert(rows_view(rows@) =~= spec_day_rows(*d));
    }
    rows
}

/// Builds the rows of a forecast report.
pub fn forecast_rows(f: &ForecastWeather) -> (rows: Vec<Row>)
    ensures
        rows_view(rows@) == spec_forecast_rows(*f),
{
    let ghost days = f.forecast.forecastday@;
    let mut rows: Vec<Row> = Vec::new();
    rows.push(Row::Sep(SepStyle::Top));
    rows.push(line1(LineType::Header, "forecast.forecast", "city", f.location.name.clone()));
    let ghost head = rows_view(rows@);
    proof {
        assert(days.subrange(0, 0) =~= Seq::<ForecastDay>::empty());
        assert(rows_view(rows@) =~= head + spec_days_rows(days.subrange(0, 0)));
    }
    let n = f.forecast.forecastday.len();
    let mut i: usize = 0;
    while i < n
        invariant
            i <= n,
            n == days.len(),
            days == f.forecast.forecastday@,
            rows_view(rows@) == head + spec_days_rows(days.subrange(0, i as int)),
        decreases n - i,
    {
        let ghost before = rows_view(rows@);
        let mut block = day_rows(&f.forecast.forecastday[i]);
        let ghost bv = rows_view(block@);
        rows.append(&mut block);
        proof {
            assert(rows_view(rows@) =~= before + bv);
            assert(days.subrange(0, i as int).push(days[i as int]) =~= days.subrange(
                0,
                i as int + 1,
            ));
            lemma_days_rows_push(days.subrange(0, i as int), days[i as int]);
            assert((head + spec_days_rows(days.subrange(0, i as int))) + spec_day_rows(
                days[i as int],
            ) =~= head + spec_days_rows(days.subrange(0, i as int + 1)));
        }
        i = i + 1;
    }
    let ghost before_last = rows_view(rows@);
    rows.push(Row::Sep(SepStyle::Bottom));
    proof {
        assert(days.subrange(0, n as int) =~= days);
        assert(rows_view(rows@) =~= before_last.push(RowV::Sep { style: SepStyle::Bottom }));
        assert(rows_view(rows@) =~= spec_forecast_rows(*f));
    }
    rows
}

/// How a rendered result relates to the mathematical rendering of a row
/// list at the fixed report width: same success, same lines, same error.
pub open spec fn render_result_matches(
    rows: Seq<RowV>,
    cat: Seq<(Seq<char>, Seq<char>)>,
    r: Result<Vec<String>, RenderError>,
) -> bool {
    let s = spec_render_rows(rows, cat, crate::PRINT_WIDTH as int);
    &&& (r is Ok) == (s is Ok)
    &&& (r is Ok ==> lines_view(r->Ok_0@) == s->Ok_0)
    &&& (r is Err ==> r->Err_0 == s->Err_0)
}

/// Renders a current-weather report at the fixed report width.
pub fn render_current(w: &Weather, cat: &Catalog) -> (r: Result<Vec<String>, RenderError>)
    ensures
        render_result_matches(spec_current_rows(*w), cat@, r),
{
    let rows = current_rows(w);
    render_rows(&rows, cat, crate::PRINT_WIDTH)
}

/// Renders a forecast report at the fixed report width.
pub fn render_forecast(f: &ForecastWeather, cat: &Catalog) -> (r: Result<Vec<String>, RenderError>)
    ensures
        render_result_matches(spec_forecast_rows(*f), cat@, r),
{
    let rows = forecast_rows(f);
    render_rows(&rows, cat, crate::PRINT_WIDTH)
}

} // verus!
