//! Decoding JSON values into the domain model.
//!
//! A response body decodes into [`Weather`] or [`ForecastWeather`]
//! exactly when every field the model expects is present with the right
//! shape; fields the model does not know are ignored. Number tokens are
//! taken verbatim; integer fields must be integer tokens that fit `i64`.

use vstd::prelude::*;

use crate::errors::FetchError;
use crate::text::{i64_to_string, spec_int_text};
use crate::json::{fields_view, items_view, JsonV, JsonValue};
use crate::model::{
    digits_end, is_digit, is_number_text, Astro, Day, ForecastDay, ForecastWeather, Hour, Weather,
    WeatherCondition, WeatherCurrent, WeatherForecast, WeatherLocation,
};

verus! {

/// The value of the first field named `name`, if any.
pub open spec fn field_of(fs: Seq<(Seq<char>, JsonV)>, name: Seq<char>) -> Option<JsonV>
    decreases fs.len(),
{
    if fs.len() == 0 {
        None
    } else if fs[0].0 == name {
        Some(fs[0].1)
    } else {
        field_of(fs.drop_first(), name)
    }
}

/// The string contents of the field `name` of an object, if it is one.
pub open spec fn str_field(j: JsonV, name: Seq<char>) -> Option<Seq<char>> {
    match j {
        JsonV::Obj(fs) => match field_of(fs, name) {
            Some(JsonV::Str(s)) => Some(s),
            _ => None,
        },
        _ => None,
    }
}

/// The verbatim number token of the field `name` of an object, if it is a
/// well-formed number.
pub open spec fn num_field(j: JsonV, name: Seq<char>) -> Option<Seq<char>> {
    match j {
        JsonV::Obj(fs) => match field_of(fs, name) {
            Some(JsonV::Num(tok)) => if is_number_text(tok) {
                Some(tok)
            } else {
                None
            },
            _ => None,
        },
        _ => None,
    }
}

/// The JSON value of the field `name` of an object, if any.
pub open spec fn any_field(j: JsonV, name: Seq<char>) -> Option<JsonV> {
    match j {
        JsonV::Obj(fs) => field_of(fs, name),
        _ => None,
    }
}

/// True when every character of `s` is a digit and there is at least one.
pub open spec fn all_digits(s: Seq<char>) -> bool {
    s.len() > 0 && forall|k: int| 0 <= k < s.len() ==> is_digit(#[trigger] s[k])
}

/// True when `s` is an integer token: an optional minus sign and digits.
pub open spec fn is_int_token(s: Seq<char>) -> bool {
    if s.len() > 0 && s[0] == '-' {
        all_digits(s.drop_first())
    } else {
        all_digits(s)
    }
}

/// The value of a digit run.
pub open spec fn nat_val(s: Seq<char>) -> int
    decreases s.len(),
{
    if s.len() == 0 {
        0
    } else {
        nat_val(s.drop_last()) * 10 + (s.last() as u32 - 48)
    }
}

/// The value of an integer token.
pub open spec fn int_val(s: Seq<char>) -> int {
    if s.len() > 0 && s[0] == '-' {
        -nat_val(s.drop_first())
    } else {
        nat_val(s)
    }
}

/// A digit run's value is never negative.
pub proof fn lemma_nat_val_nonneg(s: Seq<char>)
    requires
        forall|k: int| 0 <= k < s.len() ==> is_digit(#[trigger] s[k]),
    ensures
        nat_val(s) >= 0,
    decreases s.len(),
{
    if s.len() > 0 {
        lemma_nat_val_nonneg(s.drop_last());
    }
}

/// A digit run's value never shrinks as digits are appended.
pub proof fn lemma_nat_val_prefix(s: Seq<char>, k: int)
    requires
        0 <= k <= s.len(),
        forall|j: int| 0 <= j < s.len() ==> is_digit(#[trigger] s[j]),
    ensures
        nat_val(s) >= nat_val(s.subrange(0, k)),
    decreases s.len() - k,
{
    if k < s.len() {
        lemma_nat_val_prefix(s, k + 1);
        let p = s.subrange(0, k + 1);
        assert(p.drop_last() =~= s.subrange(0, k));
        assert(nat_val(p) == nat_val(s.subrange(0, k)) * 10 + (p.last() as u32 - 48));
        lemma_nat_val_nonneg(s.subrange(0, k));
    } else {
        assert(s.subrange(0, k) =~= s);
    }
}

/// The integer value of the field `name` of an object: present when the
/// field is an integer token whose value fits a signed 64-bit integer.
pub open spec fn int_field(j: JsonV, name: Seq<char>) -> Option<int> {
    match any_field(j, name) {
        Some(JsonV::Num(tok)) => if is_int_token(tok) && -0x8000000000000000 <= int_val(tok)
            <= 0x7fffffffffffffff {
            Some(int_val(tok))
        } else {
            None
        },
        _ => None,
    }
}

/// Looks a field up by name, returning the first field that carries it.
fn get_field<'a>(fields: &'a Vec<(String, JsonValue)>, name: &str) -> (r: Option<&'a JsonValue>)
    ensures
        match field_of(fields_view(fields@), name@) {
            Some(v) => r is Some && r->Some_0@ == v,
            None => r is None,
        },
{
    let key = String::from_str(name);
    let n = fields.len();
    let ghost fv = fields_view(fields@);
    proof {
        assert(fv.subrange(0, n as int) =~= fv);
    }
    let mut i: usize = 0;
    while i < n
        invariant
            i <= n,
            n == fields@.len(),
            key@ == name@,
            fv == fields_view(fields@),
            field_of(fv, name@) == field_of(fv.subrange(i as int, n as int), name@),
        decreases n - i,
    {
        proof {
            assert(fv[i as int] == (fields@[i as int].0@, fields@[i as int].1@));
            assert(fv.subrange(i as int, n as int)[0] == fv[i as int]);
            assert(fv.subrange(i as int, n as int).drop_first() =~= fv.subrange(
                i as int + 1,
                n as int,
            ));
        }
        if fields[i].0 == key {
            return Some(&fields[i].1);
        }
        i = i + 1;
    }
    proof {
        assert(fv.subrange(n as int, n as int) =~= Seq::<(Seq<char>, JsonV)>::empty());
    }
    None
}

/// Reads a string field of an object.
fn get_str(v: &JsonValue, name: &str) -> (r: Result<String, FetchError>)
    ensures
        (r is Ok) == (str_field(v@, name@) is Some),
        r is Ok ==> r->Ok_0@ == str_field(v@, name@)->Some_0,
        r is Err ==> r->Err_0 == FetchError::Decode,
{
    match v {
        JsonValue::Obj(fields) => {
            match get_field(fields, name) {
                Some(JsonValue::Str(s)) => Ok(s.clone()),
                _ => Err(FetchError::Decode),
            }
        },
        _ => Err(FetchError::Decode),
    }
}

/// Checks that a character vector is a well-formed number text.
fn check_number_text(t: &Vec<char>) -> (r: bool)
    ensures
        r == is_number_text(t@),
{
    let start: usize = if t.len() > 0 && t[0] == '-' {
        1
    } else {
        0
    };
    if !(start < t.len() && 48 <= t[start] as u32 && t[start] as u32 <= 57) {
        proof {
            assert(crate::model::int_part_end(t@, start as int) == -1);
            assert(crate::model::frac_part_end(t@, -1) == -1);
            assert(crate::model::exp_part_end(t@, -1) == -1);
        }
        return false;
    }
    let e1: usize = if t[start] == '0' {
        start + 1
    } else {
        crate::json::digits_end_exec(t, start)
    };
    proof {
        assert(e1 as int == crate::model::int_part_end(t@, start as int));
    }
    let e2: usize = if e1 < t.len() && t[e1] == '.' {
        if e1 + 1 < t.len() && 48 <= t[e1 + 1] as u32 && t[e1 + 1] as u32 <= 57 {
            crate::json::digits_end_exec(t, e1 + 1)
        } else {
            proof {
                assert(crate::model::frac_part_end(t@, e1 as int) == -1);
                assert(crate::model::exp_part_end(t@, -1) == -1);
            }
            return false;
        }
    } else {
        e1
    };
    proof {
        assert(e2 as int == crate::model::frac_part_end(t@, e1 as int));
    }
    let e3: usize = if e2 < t.len() && (t[e2] == 'e' || t[e2] == 'E') {
        let d: usize = if e2 + 1 < t.len() && (t[e2 + 1] == '+' || t[e2 + 1] == '-') {
            e2 + 2
        } else {
            e2 + 1
        };
        if d < t.len() && 48 <= t[d] as u32 && t[d] as u32 <= 57 {
            crate::json::digits_end_exec(t, d)
        } else {
            proof {
                assert(crate::model::exp_part_end(t@, e2 as int) == -1);
            }
            return false;
        }
    } else {
        e2
    };
    proof {
        assert(e3 as int == crate::model::exp_part_end(t@, e2 as int));
    }
    e3 == t.len()
}

/// Reads a decimal field of an object: the verbatim number token.
fn get_num(v: &JsonValue, name: &str) -> (r: Result<crate::model::Num, FetchError>)
    ensures
        (r is Ok) == (num_field(v@, name@) is Some),
        r is Ok ==> r->Ok_0.text@ == num_field(v@, name@)->Some_0 && r->Ok_0.wf(),
        r is Err ==> r->Err_0 == FetchError::Decode,
{
    match v {
        JsonValue::Obj(fields) => {
            match get_field(fields, name) {
                Some(JsonValue::Num(tok)) => {
                    let chars = crate::text::str_to_chars(tok.as_str());
                    if check_number_text(&chars) {
                        Ok(crate::model::Num { text: tok.clone() })
                    } else {
                        Err(FetchError::Decode)
                    }
                },
                _ => Err(FetchError::Decode),
            }
        },
        _ => Err(FetchError::Decode),
    }
}

/// Converts an integer token to its value, when it fits a signed 64-bit
/// integer.
fn chars_to_i64(v: &Vec<char>) -> (r: Option<i64>)
    ensures
        is_int_token(v@) && i64::MIN <= int_val(v@) <= i64::MAX ==> r is Some && r->Some_0 as int
            == int_val(v@),
        !(is_int_token(v@) && i64::MIN <= int_val(v@) <= i64::MAX) ==> r is None,
{
    let n = v.len();
    if n == 0 {
        return None;
    }
    let neg = v[0] == '-';
    let s: usize = if neg {
        1
    } else {
        0
    };
    if s == n {
        return None;
    }
    let limit: u64 = if neg {
        9223372036854775808u64
    } else {
        9223372036854775807u64
    };
    let ghost digits = v@.subrange(s as int, n as int);
    let mut acc: u64 = 0;
    let mut k: usize = s;
    while k < n
        invariant
            s <= k <= n,
            n == v@.len(),
            s == 0 || s == 1,
            s == 1 ==> (n > 1 && v@[0] == '-'),
            s == 0 ==> !(v@[0] == '-'),
            digits == v@.subrange(s as int, n as int),
            forall|j: int| s <= j < k ==> is_digit(#[trigger] v@[j]),
            acc as int == nat_val(v@.subrange(s as int, k as int)),
            acc <= limit,
            s == 1 ==> limit == 9223372036854775808u64,
            s == 0 ==> limit == 9223372036854775807u64,
        decreases n - k,
    {
        let c = v[k];
        if !(48 <= c as u32 && c as u32 <= 57) {
            proof {
                assert(!is_digit(v@[k as int]));
                assert(digits[k - s] == v@[k as int]);
                assert(!all_digits(digits));
                if s == 1 {
                    assert(v@.drop_first() =~= digits);
                } else {
                    assert(v@.subrange(0, n as int) =~= v@);
                    assert(digits == v@.subrange(0, n as int));
                }
                assert(!is_int_token(v@));
            }
            return None;
        }
        let d: u64 = (c as u32 - 48) as u64;
        let next: u64 = {
            if acc > (limit - d) / 10 {
                // the value of the digits read so far already exceeds the
                // magnitude any 64-bit integer can carry
                proof {
                    assert(acc as int * 10 + d as int > limit as int) by (nonlinear_arith)
                        requires
                            acc as int > ((limit - d) as int) / 10,
                            0 <= d <= 9,
                            limit as int >= d,
                    ;
                    let p = v@.subrange(s as int, k as int + 1);
                    assert(p.drop_last() =~= v@.subrange(s as int, k as int));
                    assert(nat_val(p) == acc as int * 10 + (v@[k as int] as u32 - 48));
                    assert(nat_val(p) > limit as int);
                    lemma_int_token_overflow(v@, s as int, k as int + 1, limit as int);
                    if is_int_token(v@) {
                        if s == 1 {
                            lemma_nat_val_nonneg(v@.drop_first());
                            assert(int_val(v@) <= 0);
                            assert(int_val(v@) < -(limit as int));
                            assert(int_val(v@) < i64::MIN);
                        } else {
                            lemma_nat_val_nonneg(v@);
                            assert(int_val(v@) >= 0);
                            assert(int_val(v@) > limit as int);
                            assert(int_val(v@) > i64::MAX);
                        }
                    }
                    assert(!(is_int_token(v@) && i64::MIN <= int_val(v@) <= i64::MAX));
                }
                return None;
            }
            proof {
                assert(acc as int * 10 + d as int <= limit as int) by (nonlinear_arith)
                    requires
                        acc as int <= ((limit - d) as int) / 10,
                        0 <= d <= 9,
                        limit as int >= d,
                        acc >= 0,
                ;
            }
            acc * 10 + d
        };
        proof {
            let p = v@.subrange(s as int, k as int + 1);
            assert(p.drop_last() =~= v@.subrange(s as int, k as int));
            assert(nat_val(p) == acc as int * 10 + (v@[k as int] as u32 - 48));
        }
        acc = next;
        k = k + 1;
    }
    proof {
        assert(acc as int == nat_val(digits));
        assert(all_digits(digits));
        if s == 1 {
            assert(v@.drop_first() =~= digits);
            assert(is_int_token(v@));
            assert(int_val(v@) == -nat_val(digits));
        } else {
            assert(v@.subrange(0, n as int) =~= v@);
            assert(digits == v@.subrange(0, n as int));
            assert(is_int_token(v@));
            assert(int_val(v@) == nat_val(digits));
        }
    }
    if neg {
        if acc == 9223372036854775808u64 {
            Some(i64::MIN)
        } else {
            Some(-(acc as i64))
        }
    } else {
        Some(acc as i64)
    }
}

/// A truncated digit run that already exceeds `limit` forces the whole
/// token's magnitude beyond `limit`.
proof fn lemma_int_token_overflow(v: Seq<char>, s: int, k: int, limit: int)
    requires
        0 <= s <= k <= v.len(),
        forall|j: int| s <= j < k ==> is_digit(#[trigger] v[j]),
        nat_val(v.subrange(s, k)) > limit,
        s == 0 || s == 1,
        s == 1 ==> (v.len() > 1 && v[0] == '-'),
        s == 0 ==> v.len() == 0 || !(v[0] == '-'),
    ensures
        is_int_token(v) ==> (int_val(v) > limit || int_val(v) < -limit),
{
    if is_int_token(v) {
        let digits = v.subrange(s, v.len() as int);
        if s == 1 {
            assert(v.drop_first() =~= digits);
        } else {
            assert(v.subrange(0, v.len() as int) =~= v);
        }
        assert(all_digits(digits));
        assert forall|j: int| 0 <= j < digits.len() implies is_digit(#[trigger] digits[j]) by {}
        lemma_nat_val_prefix(digits, k - s);
        assert(digits.subrange(0, k - s) =~= v.subrange(s, k));
        assert(nat_val(digits) > limit);
    }
}

/// Reads an integer field of an object.
fn get_int(v: &JsonValue, name: &str) -> (r: Result<i64, FetchError>)
    ensures
        (r is Ok) == (int_field(v@, name@) is Some),
        r is Ok ==> r->Ok_0 as int == int_field(v@, name@)->Some_0,
        r is Err ==> r->Err_0 == FetchError::Decode,
{
    match v {
        JsonValue::Obj(fields) => {
            match get_field(fields, name) {
                Some(JsonValue::Num(tok)) => {
                    let chars = crate::text::str_to_chars(tok.as_str());
                    match chars_to_i64(&chars) {
                        Some(n) => Ok(n),
                        None => Err(FetchError::Decode),
                    }
                },
                _ => Err(FetchError::Decode),
            }
        },
        _ => Err(FetchError::Decode),
    }
}

/// Looks a JSON field of an object up, as a JSON value.
fn get_val<'a>(v: &'a JsonValue, name: &str) -> (r: Option<&'a JsonValue>)
    ensures
        match any_field(v@, name@) {
            Some(x) => r is Some && r->Some_0@ == x,
            None => r is None,
        },
{
    match v {
        JsonValue::Obj(fields) => get_field(fields, name),
        _ => None,
    }
}

/// True when every field the WeatherCondition model expects is present with the
/// right shape.
pub open spec fn condition_decodable(j: JsonV) -> bool {
    &&& str_field(j, "text"@) is Some
    &&& str_field(j, "icon"@) is Some
    &&& int_field(j, "code"@) is Some
}

/// True when `m` holds exactly the field values of `j` that the model
/// reads.
pub open spec fn condition_matches(m: WeatherCondition, j: JsonV) -> bool {
    &&& str_field(j, "text"@) == Some(m.text@)
    &&& str_field(j, "icon"@) == Some(m.icon@)
    &&& int_field(j, "code"@) == Some(m.code as int)
}

/// Decodes a WeatherCondition from a JSON object; fields the model does not know
/// are ignored.
pub fn decode_condition(v: &JsonValue) -> (r: Result<WeatherCondition, FetchError>)
    ensures
        (r is Ok) == condition_decodable(v@),
        r is Ok ==> r->Ok_0.wf() && condition_matches(r->Ok_0, v@),
        r is Err ==> r->Err_0 == FetchError::Decode,
{
    let text = match get_str(v, "text") {
        Ok(x) => x,
        Err(e) => {
            return Err(e);
        },
    };
    let icon = match get_str(v, "icon") {
        Ok(x) => x,
        Err(e) => {
            return Err(e);
        },
    };
    let code = match get_int(v, "code") {
        Ok(x) => x,
        Err(e) => {
            return Err(e);
        },
    };
    Ok(WeatherCondition { text, icon, code })
}

/// True when every field the WeatherLocation model expects is present with the
/// right shape.
pub open spec fn location_decodable(j: JsonV) -> bool {
    &&& str_field(j, "name"@) is Some
    &&& str_field(j, "region"@) is Some
    &&& str_field(j, "country"@) is Some
    &&& num_field(j, "lat"@) is Some
    &&& num_field(j, "lon"@) is Some
    &&& str_field(j, "tz_id"@) is Some
    &&& int_field(j, "localtime_epoch"@) is Some
    &&& str_field(j, "localtime"@) is Some
}

/// True when `m` holds exactly the field values of `j` that the model
/// reads.
pub open spec fn location_matches(m: WeatherLocation, j: JsonV) -> bool {
    &&& str_field(j, "name"@) == Some(m.name@)
    &&& str_field(j, "region"@) == Some(m.region@)
    &&& str_field(j, "country"@) == Some(m.country@)
    &&& num_field(j, "lat"@) == Some(m.lat.text@)
    &&& num_field(j, "lon"@) == Some(m.lon.text@)
    &&& str_field(j, "tz_id"@) == Some(m.tz_id@)
    &&& int_field(j, "localtime_epoch"@) == Some(m.localtime_epoch as int)
    &&& str_field(j, "localtime"@) == Some(m.localtime@)
}

/// Decodes a WeatherLocation from a JSON object; fields the model does not know
/// are ignored.
pub fn decode_location(v: &JsonValue) -> (r: Result<WeatherLocation, FetchError>)
    ensures
        (r is Ok) == location_decodable(v@),
        r is Ok ==> r->Ok_0.wf() && location_matches(r->Ok_0, v@),
        r is Err ==> r->Err_0 == FetchError::Decode,
{
    let name = match get_str(v, "name") {
        Ok(x) => x,
        Err(e) => {
            return Err(e);
        },
    };
    let region = match get_str(v, "region") {
        Ok(x) => x,
        Err(e) => {
            return Err(e);
        },
    };
    let country = match get_str(v, "country") {
        Ok(x) => x,
        Err(e) => {
            return Err(e);
        },
    };
    let lat = match get_num(v, "lat") {
        Ok(x) => x,
        Err(e) => {
            return Err(e);
        },
    };
    let lon = match get_num(v, "lon") {
        Ok(x) => x,
        Err(e) => {
            return Err(e);
        },
    };
    let tz_id = match get_str(v, "tz_id") {
        Ok(x) => x,
        Err(e) => {
            return Err(e);
        },
    };
    let localtime_epoch = match get_int(v, "localtime_epoch") {
        Ok(x) => x,
        Err(e) => {
            return Err(e);
        },
    };
    let localtime = match get_str(v, "localtime") {
        Ok(x) => x,
        Err(e) => {
            return Err(e);
        },
    };
    Ok(WeatherLocation { name, region, country, lat, lon, tz_id, localtime_epoch, localtime })
}

/// True when every field the WeatherCurrent model expects is present with the
/// right shape.
pub open spec fn current_decodable(j: JsonV) -> bool {
    &&& int_field(j, "last_updated_epoch"@) is Some
    &&& str_field(j, "last_updated"@) is Some
    &&& num_field(j, "temp_c"@) is Some
    &&& num_field(j, "temp_f"@) is Some
    &&& int_field(j, "is_day"@) is Some
    &&& any_field(j, "condition"@) is Some
    &&& condition_decodable(any_field(j, "condition"@)->Some_0)
    &&& num_field(j, "wind_mph"@) is Some
    &&& num_field(j, "wind_kph"@) is Some
    &&& int_field(j, "wind_degree"@) is Some
    &&& str_field(j, "wind_dir"@) is Some
    &&& num_field(j, "pressure_mb"@) is Some
    &&& num_field(j, "pressure_in"@) is Some
    &&& num_field(j, "precip_mm"@) is Some
    &&& num_field(j, "precip_in"@) is Some
    &&& int_field(j, "humidity"@) is Some
    &&& int_field(j, "cloud"@) is Some
    &&& num_field(j, "feelslike_c"@) is Some
    &&& num_field(j, "feelslike_f"@) is Some
    &&& num_field(j, "vis_km"@) is Some
    &&& num_field(j, "vis_miles"@) is Some
    &&& num_field(j, "uv"@) is Some
    &&& num_field(j, "gust_mph"@) is Some
    &&& num_field(j, "gust_kph"@) is Some
}

/// True when `m` holds exactly the field values of `j` that the model
/// reads.
pub open spec fn current_matches(m: WeatherCurrent, j: JsonV) -> bool {
    &&& int_field(j, "last_updated_epoch"@) == Some(m.last_updated_epoch as int)
    &&& str_field(j, "last_updated"@) == Some(m.last_updated@)
    &&& num_field(j, "temp_c"@) == Some(m.temp_c.text@)
    &&& num_field(j, "temp_f"@) == Some(m.temp_f.text@)
    &&& int_field(j, "is_day"@) == Some(m.is_day as int)
    &&& any_field(j, "condition"@) is Some
    &&& condition_matches(m.condition, any_field(j, "condition"@)->Some_0)
    &&& num_field(j, "wind_mph"@) == Some(m.wind_mph.text@)
    &&& num_field(j, "wind_kph"@) == Some(m.wind_kph.text@)
    &&& int_field(j, "wind_degree"@) == Some(m.wind_degree as int)
    &&& str_field(j, "wind_dir"@) == Some(m.wind_dir@)
    &&& num_field(j, "pressure_mb"@) == Some(m.pressure_mb.text@)
    &&& num_field(j, "pressure_in"@) == Some(m.pressure_in.text@)
    &&& num_field(j, "precip_mm"@) == Some(m.precip_mm.text@)
    &&& num_field(j, "precip_in"@) == Some(m.precip_in.text@)
    &&& int_field(j, "humidity"@) == Some(m.humidity as int)
    &&& int_field(j, "cloud"@) == Some(m.cloud as int)
    &&& num_field(j, "feelslike_c"@) == Some(m.feelslike_c.text@)
    &&& num_field(j, "feelslike_f"@) == Some(m.feelslike_f.text@)
    &&& num_field(j, "vis_km"@) == Some(m.vis_km.text@)
    &&& num_field(j, "vis_miles"@) == Some(m.vis_miles.text@)
    &&& num_field(j, "uv"@) == Some(m.uv.text@)
    &&& num_field(j, "gust_mph"@) == Some(m.gust_mph.text@)
    &&& num_field(j, "gust_kph"@) == Some(m.gust_kph.text@)
}

/// Decodes a WeatherCurrent from a JSON object; fields the model does not know
/// are ignored.
pub fn decode_current(v: &JsonValue) -> (r: Result<WeatherCurrent, FetchError>)
    ensures
        (r is Ok) == current_decodable(v@),
        r is Ok ==> r->Ok_0.wf() && current_matches(r->Ok_0, v@),
        r is Err ==> r->Err_0 == FetchError::Decode,
{
    let last_updated_epoch = match get_int(v, "last_updated_epoch") {
        Ok(x) => x,
        Err(e) => {
            return Err(e);
        },
    };
    let last_updated = match get_str(v, "last_updated") {
        Ok(x) => x,
        Err(e) => {
            return Err(e);
        },
    };
    let temp_c = match get_num(v, "temp_c") {
        Ok(x) => x,
        Err(e) => {
            return Err(e);
        },
    };
    let temp_f = match get_num(v, "temp_f") {
        Ok(x) => x,
        Err(e) => {
            return Err(e);
        },
    };
    let is_day = match get_int(v, "is_day") {
        Ok(x) => x,
        Err(e) => {
            return Err(e);
        },
    };
    let condition = match get_val(v, "condition") {
        Some(c) => match decode_condition(c) {
            Ok(x) => x,
            Err(e) => {
                return Err(e);
            },
        },
        None => {
            return Err(FetchError::Decode);
        },
    };
    let wind_mph = match get_num(v, "wind_mph") {
        Ok(x) => x,
        Err(e) => {
            return Err(e);
        },
    };
    let wind_kph = match get_num(v, "wind_kph") {
        Ok(x) => x,
        Err(e) => {
            return Err(e);
        },
    };
    let wind_degree = match get_int(v, "wind_degree") {
        Ok(x) => x,
        Err(e) => {
            return Err(e);
        },
    };
    let wind_dir = match get_str(v, "wind_dir") {
        Ok(x) => x,
        Err(e) => {
            return Err(e);
        },
    };
    let pressure_mb = match get_num(v, "pressure_mb") {
        Ok(x) => x,
        Err(e) => {
            return Err(e);
        },
    };
    let pressure_in = match get_num(v, "pressure_in") {
        Ok(x) => x,
        Err(e) => {
            return Err(e);
        },
    };
    let precip_mm = match get_num(v, "precip_mm") {
        Ok(x) => x,
        Err(e) => {
            return Err(e);
        },
    };
    let precip_in = match get_num(v, "precip_in") {
        Ok(x) => x,
        Err(e) => {
            return Err(e);
        },
    };
    let humidity = match get_int(v, "humidity") {
        Ok(x) => x,
        Err(e) => {
            return Err(e);
        },
    };
    let cloud = match get_int(v, "cloud") {
        Ok(x) => x,
        Err(e) => {
            return Err(e);
        },
    };
    let feelslike_c = match get_num(v, "feelslike_c") {
        Ok(x) => x,
        Err(e) => {
            return Err(e);
        },
    };
    let feelslike_f = match get_num(v, "feelslike_f") {
        Ok(x) => x,
        Err(e) => {
            return Err(e);
        },
    };
    let vis_km = match get_num(v, "vis_km") {
        Ok(x) => x,
        Err(e) => {
            return Err(e);
        },
    };
    let vis_miles = match get_num(v, "vis_miles") {
        Ok(x) => x,
        Err(e) => {
            return Err(e);
        },
    };
    let uv = match get_num(v, "uv") {
        Ok(x) => x,
        Err(e) => {
            return Err(e);
        },
    };
    let gust_mph = match get_num(v, "gust_mph") {
        Ok(x) => x,
        Err(e) => {
            return Err(e);
        },
    };
    let gust_kph = match get_num(v, "gust_kph") {
        Ok(x) => x,
        Err(e) => {
            return Err(e);
        },
    };
    Ok(WeatherCurrent { last_updated_epoch, last_updated, temp_c, temp_f, is_day, condition, wind_mph, wind_kph, wind_degree, wind_dir, pressure_mb, pressure_in, precip_mm, precip_in, humidity, cloud, feelslike_c, feelslike_f, vis_km, vis_miles, uv, gust_mph, gust_kph })
}

/// True when every field the Day model expects is present with the
/// right shape.
pub open spec fn day_decodable(j: JsonV) -> bool {
    &&& num_field(j, "maxtemp_c"@) is Some
    &&& num_field(j, "maxtemp_f"@) is Some
    &&& num_field(j, "mintemp_c"@) is Some
    &&& num_field(j, "mintemp_f"@) is Some
    &&& num_field(j, "avgtemp_c"@) is Some
    &&& num_field(j, "avgtemp_f"@) is Some
    &&& num_field(j, "maxwind_mph"@) is Some
    &&& num_field(j, "maxwind_kph"@) is Some
    &&& num_field(j, "totalprecip_mm"@) is Some
    &&& num_field(j, "totalprecip_in"@) is Some
    &&& num_field(j, "totalsnow_cm"@) is Some
    &&& num_field(j, "avgvis_km"@) is Some
    &&& num_field(j, "avgvis_miles"@) is Some
    &&& int_field(j, "avghumidity"@) is Some
    &&& int_field(j, "daily_will_it_rain"@) is Some
    &&& int_field(j, "daily_chance_of_rain"@) is Some
    &&& int_field(j, "daily_will_it_snow"@) is Some
    &&& int_field(j, "daily_chance_of_snow"@) is Some
    &&& any_field(j, "condition"@) is Some
    &&& condition_decodable(any_field(j, "condition"@)->Some_0)
    &&& num_field(j, "uv"@) is Some
}

/// True when `m` holds exactly the field values of `j` that the model
/// reads.
pub open spec fn day_matches(m: Day, j: JsonV) -> bool {
    &&& num_field(j, "maxtemp_c"@) == Some(m.maxtemp_c.text@)
    &&& num_field(j, "maxtemp_f"@) == Some(m.maxtemp_f.text@)
    &&& num_field(j, "mintemp_c"@) == Some(m.mintemp_c.text@)
    &&& num_field(j, "mintemp_f"@) == Some(m.mintemp_f.text@)
    &&& num_field(j, "avgtemp_c"@) == Some(m.avgtemp_c.text@)
    &&& num_field(j, "avgtemp_f"@) == Some(m.avgtemp_f.text@)
    &&& num_field(j, "maxwind_mph"@) == Some(m.maxwind_mph.text@)
    &&& num_field(j, "maxwind_kph"@) == Some(m.maxwind_kph.text@)
    &&& num_field(j, "totalprecip_mm"@) == Some(m.totalprecip_mm.text@)
    &&& num_field(j, "totalprecip_in"@) == Some(m.totalprecip_in.text@)
    &&& num_field(j, "totalsnow_cm"@) == Some(m.totalsnow_cm.text@)
    &&& num_field(j, "avgvis_km"@) == Some(m.avgvis_km.text@)
    &&& num_field(j, "avgvis_miles"@) == Some(m.avgvis_miles.text@)
    &&& int_field(j, "avghumidity"@) == Some(m.avghumidity as int)
    &&& int_field(j, "daily_will_it_rain"@) == Some(m.daily_will_it_rain as int)
    &&& int_field(j, "daily_chance_of_rain"@) == Some(m.daily_chance_of_rain as int)
    &&& int_field(j, "daily_will_it_snow"@) == Some(m.daily_will_it_snow as int)
    &&& int_field(j, "daily_chance_of_snow"@) == Some(m.daily_chance_of_snow as int)
    &&& any_field(j, "condition"@) is Some
    &&& condition_matches(m.condition, any_field(j, "condition"@)->Some_0)
    &&& num_field(j, "uv"@) == Some(m.uv.text@)
}

/// Decodes a Day from a JSON object; fields the model does not know
/// are ignored.
pub fn decode_day(v: &JsonValue) -> (r: Result<Day, FetchError>)
    ensures
        (r is Ok) == day_decodable(v@),
        r is Ok ==> r->Ok_0.wf() && day_matches(r->Ok_0, v@),
        r is Err ==> r->Err_0 == FetchError::Decode,
{
    let maxtemp_c = match get_num(v, "maxtemp_c") {
        Ok(x) => x,
        Err(e) => {
            return Err(e);
        },
    };
    let maxtemp_f = match get_num(v, "maxtemp_f") {
        Ok(x) => x,
        Err(e) => {
            return Err(e);
        },
    };
    let mintemp_c = match get_num(v, "mintemp_c") {
        Ok(x) => x,
        Err(e) => {
            return Err(e);
        },
    };
    let mintemp_f = match get_num(v, "mintemp_f") {
        Ok(x) => x,
        Err(e) => {
            return Err(e);
        },
    };
    let avgtemp_c = match get_num(v, "avgtemp_c") {
        Ok(x) => x,
        Err(e) => {
            return Err(e);
        },
    };
    let avgtemp_f = match get_num(v, "avgtemp_f") {
        Ok(x) => x,
        Err(e) => {
            return Err(e);
        },
    };
    let maxwind_mph = match get_num(v, "maxwind_mph") {
        Ok(x) => x,
        Err(e) => {
            return Err(e);
        },
    };
    let maxwind_kph = match get_num(v, "maxwind_kph") {
        Ok(x) => x,
        Err(e) => {
            return Err(e);
        },
    };
    let totalprecip_mm = match get_num(v, "totalprecip_mm") {
        Ok(x) => x,
        Err(e) => {
            return Err(e);
        },
    };
    let totalprecip_in = match get_num(v, "totalprecip_in") {
        Ok(x) => x,
        Err(e) => {
            return Err(e);
        },
    };
    let totalsnow_cm = match get_num(v, "totalsnow_cm") {
        Ok(x) => x,
        Err(e) => {
            return Err(e);
        },
    };
    let avgvis_km = match get_num(v, "avgvis_km") {
        Ok(x) => x,
        Err(e) => {
            return Err(e);
        },
    };
    let avgvis_miles = match get_num(v, "avgvis_miles") {
        Ok(x) => x,
        Err(e) => {
            return Err(e);
        },
    };
    let avghumidity = match get_int(v, "avghumidity") {
        Ok(x) => x,
        Err(e) => {
            return Err(e);
        },
    };
    let daily_will_it_rain = match get_int(v, "daily_will_it_rain") {
        Ok(x) => x,
        Err(e) => {
            return Err(e);
        },
    };
    let daily_chance_of_rain = match get_int(v, "daily_chance_of_rain") {
        Ok(x) => x,
        Err(e) => {
            return Err(e);
        },
    };
    let daily_will_it_snow = match get_int(v, "daily_will_it_snow") {
        Ok(x) => x,
        Err(e) => {
            return Err(e);
        },
    };
    let daily_chance_of_snow = match get_int(v, "daily_chance_of_snow") {
        Ok(x) => x,
        Err(e) => {
            return Err(e);
        },
    };
    let condition = match get_val(v, "condition") {
        Some(c) => match decode_condition(c) {
            Ok(x) => x,
            Err(e) => {
                return Err(e);
            },
        },
        None => {
            return Err(FetchError::Decode);
        },
    };
    let uv = match get_num(v, "uv") {
        Ok(x) => x,
        Err(e) => {
            return Err(e);
        },
    };
    Ok(Day { maxtemp_c, maxtemp_f, mintemp_c, mintemp_f, avgtemp_c, avgtemp_f, maxwind_mph, maxwind_kph, totalprecip_mm, totalprecip_in, totalsnow_cm, avgvis_km, avgvis_miles, avghumidity, daily_will_it_rain, daily_chance_of_rain, daily_will_it_snow, daily_chance_of_snow, condition, uv })
}

/// True when every field the Astro model expects is present with the
/// right shape.
pub open spec fn astro_decodable(j: JsonV) -> bool {
    &&& str_field(j, "sunrise"@) is Some
    &&& str_field(j, "sunset"@) is Some
    &&& str_field(j, "moonrise"@) is Some
    &&& str_field(j, "moonset"@) is Some
    &&& str_field(j, "moon_phase"@) is Some
    &&& num_field(j, "moon_illumination"@) is Some
    &&& int_field(j, "is_moon_up"@) is Some
    &&& int_field(j, "is_sun_up"@) is Some
}

/// True when `m` holds exactly the field values of `j` that the model
/// reads.
pub open spec fn astro_matches(m: Astro, j: JsonV) -> bool {
    &&& str_field(j, "sunrise"@) == Some(m.sunrise@)
    &&& str_field(j, "sunset"@) == Some(m.sunset@)
    &&& str_field(j, "moonrise"@) == Some(m.moonrise@)
    &&& str_field(j, "moonset"@) == Some(m.moonset@)
    &&& str_field(j, "moon_phase"@) == Some(m.moon_phase@)
    &&& num_field(j, "moon_illumination"@) == Some(m.moon_illumination.text@)
    &&& int_field(j, "is_moon_up"@) == Some(m.is_moon_up as int)
    &&& int_field(j, "is_sun_up"@) == Some(m.is_sun_up as int)
}

/// Decodes a Astro from a JSON object; fields the model does not know
/// are ignored.
pub fn decode_astro(v: &JsonValue) -> (r: Result<Astro, FetchError>)
    ensures
        (r is Ok) == astro_decodable(v@),
        r is Ok ==> r->Ok_0.wf() && astro_matches(r->Ok_0, v@),
        r is Err ==> r->Err_0 == FetchError::Decode,
{
    let sunrise = match get_str(v, "sunrise") {
        Ok(x) => x,
        Err(e) => {
            return Err(e);
        },
    };
    let sunset = match get_str(v, "sunset") {
        Ok(x) => x,
        Err(e) => {
            return Err(e);
        },
    };
    let moonrise = match get_str(v, "moonrise") {
        Ok(x) => x,
        Err(e) => {
            return Err(e);
        },
    };
    let moonset = match get_str(v, "moonset") {
        Ok(x) => x,
        Err(e) => {
            return Err(e);
        },
    };
    let moon_phase = match get_str(v, "moon_phase") {
        Ok(x) => x,
        Err(e) => {
            return Err(e);
        },
    };
    let moon_illumination = match get_num(v, "moon_illumination") {
        Ok(x) => x,
        Err(e) => {
            return Err(e);
        },
    };
    let is_moon_up = match get_int(v, "is_moon_up") {
        Ok(x) => x,
        Err(e) => {
            return Err(e);
        },
    };
    let is_sun_up = match get_int(v, "is_sun_up") {
        Ok(x) => x,
        Err(e) => {
            return Err(e);
        },
    };
    Ok(Astro { sunrise, sunset, moonrise, moonset, moon_phase, moon_illumination, is_moon_up, is_sun_up })
}

/// True when every field the Hour model expects is present with the
/// right shape.
pub open spec fn hour_decodable(j: JsonV) -> bool {
    &&& str_field(j, "time"@) is Some
    &&& num_field(j, "temp_c"@) is Some
    &&& num_field(j, "temp_f"@) is Some
    &&& int_field(j, "is_day"@) is Some
    &&& any_field(j, "condition"@) is Some
    &&& condition_decodable(any_field(j, "condition"@)->Some_0)
    &&& num_field(j, "wind_mph"@) is Some
    &&& num_field(j, "wind_kph"@) is Some
    &&& int_field(j, "wind_degree"@) is Some
    &&& str_field(j, "wind_dir"@) is Some
    &&& num_field(j, "pressure_mb"@) is Some
    &&& num_field(j, "pressure_in"@) is Some
    &&& num_field(j, "precip_mm"@) is Some
    &&& num_field(j, "precip_in"@) is Some
    &&& num_field(j, "snow_cm"@) is Some
    &&& int_field(j, "humidity"@) is Some
    &&& int_field(j, "cloud"@) is Some
    &&& num_field(j, "feelslike_c"@) is Some
    &&& num_field(j, "feelslike_f"@) is Some
    &&& num_field(j, "windchill_c"@) is Some
    &&& num_field(j, "windchill_f"@) is Some
    &&& num_field(j, "heatindex_c"@) is Some
    &&& num_field(j, "heatindex_f"@) is Some
    &&& num_field(j, "dewpoint_c"@) is Some
    &&& num_field(j, "dewpoint_f"@) is Some
    &&& int_field(j, "will_it_rain"@) is Some
    &&& int_field(j, "chance_of_rain"@) is Some
    &&& int_field(j, "will_it_snow"@) is Some
    &&& int_field(j, "chance_of_snow"@) is Some
    &&& num_field(j, "vis_km"@) is Some
    &&& num_field(j, "vis_miles"@) is Some
    &&& num_field(j, "gust_mph"@) is Some
    &&& num_field(j, "gust_kph"@) is Some
    &&& num_field(j, "uv"@) is Some
}

/// True when `m` holds exactly the field values of `j` that the model
/// reads.
pub open spec fn hour_matches(m: Hour, j: JsonV) -> bool {
    &&& str_field(j, "time"@) == Some(m.time@)
    &&& num_field(j, "temp_c"@) == Some(m.temp_c.text@)
    &&& num_field(j, "temp_f"@) == Some(m.temp_f.text@)
    &&& int_field(j, "is_day"@) == Some(m.is_day as int)
    &&& any_field(j, "condition"@) is Some
    &&& condition_matches(m.condition, any_field(j, "condition"@)->Some_0)
    &&& num_field(j, "wind_mph"@) == Some(m.wind_mph.text@)
    &&& num_field(j, "wind_kph"@) == Some(m.wind_kph.text@)
    &&& int_field(j, "wind_degree"@) == Some(m.wind_degree as int)
    &&& str_field(j, "wind_dir"@) == Some(m.wind_dir@)
    &&& num_field(j, "pressure_mb"@) == Some(m.pressure_mb.text@)
    &&& num_field(j, "pressure_in"@) == Some(m.pressure_in.text@)
    &&& num_field(j, "precip_mm"@) == Some(m.precip_mm.text@)
    &&& num_field(j, "precip_in"@) == Some(m.precip_in.text@)
    &&& num_field(j, "snow_cm"@) == Some(m.snow_cm.text@)
    &&& int_field(j, "humidity"@) == Some(m.humidity as int)
    &&& int_field(j, "cloud"@) == Some(m.cloud as int)
    &&& num_field(j, "feelslike_c"@) == Some(m.feelslike_c.text@)
    &&& num_field(j, "feelslike_f"@) == Some(m.feelslike_f.text@)
    &&& num_field(j, "windchill_c"@) == Some(m.windchill_c.text@)
    &&& num_field(j, "windchill_f"@) == Some(m.windchill_f.text@)
    &&& num_field(j, "heatindex_c"@) == Some(m.heatindex_c.text@)
    &&& num_field(j, "heatindex_f"@) == Some(m.heatindex_f.text@)
    &&& num_field(j, "dewpoint_c"@) == Some(m.dewpoint_c.text@)
    &&& num_field(j, "dewpoint_f"@) == Some(m.dewpoint_f.text@)
    &&& int_field(j, "will_it_rain"@) == Some(m.will_it_rain as int)
    &&& int_field(j, "chance_of_rain"@) == Some(m.chance_of_rain as int)
    &&& int_field(j, "will_it_snow"@) == Some(m.will_it_snow as int)
    &&& int_field(j, "chance_of_snow"@) == Some(m.chance_of_snow as int)
    &&& num_field(j, "vis_km"@) == Some(m.vis_km.text@)
    &&& num_field(j, "vis_miles"@) == Some(m.vis_miles.text@)
    &&& num_field(j, "gust_mph"@) == Some(m.gust_mph.text@)
    &&& num_field(j, "gust_kph"@) == Some(m.gust_kph.text@)
    &&& num_field(j, "uv"@) == Some(m.uv.text@)
}

/// Decodes a Hour from a JSON object; fields the model does not know
/// are ignored.
pub fn decode_hour(v: &JsonValue) -> (r: Result<Hour, FetchError>)
    ensures
        (r is Ok) == hour_decodable(v@),
        r is Ok ==> r->Ok_0.wf() && hour_matches(r->Ok_0, v@),
        r is Err ==> r->Err_0 == FetchError::Decode,
{
    let time = match get_str(v, "time") {
        Ok(x) => x,
        Err(e) => {
            return Err(e);
        },
    };
    let temp_c = match get_num(v, "temp_c") {
        Ok(x) => x,
        Err(e) => {
            return Err(e);
        },
    };
    let temp_f = match get_num(v, "temp_f") {
        Ok(x) => x,
        Err(e) => {
            return Err(e);
        },
    };
    let is_day = match get_int(v, "is_day") {
        Ok(x) => x,
        Err(e) => {
            return Err(e);
        },
    };
    let condition = match get_val(v, "condition") {
        Some(c) => match decode_condition(c) {
            Ok(x) => x,
            Err(e) => {
                return Err(e);
            },
        },
        None => {
            return Err(FetchError::Decode);
        },
    };
    let wind_mph = match get_num(v, "wind_mph") {
        Ok(x) => x,
        Err(e) => {
            return Err(e);
        },
    };
    let wind_kph = match get_num(v, "wind_kph") {
        Ok(x) => x,
        Err(e) => {
            return Err(e);
        },
    };
    let wind_degree = match get_int(v, "wind_degree") {
        Ok(x) => x,
        Err(e) => {
            return Err(e);
        },
    };
    let wind_dir = match get_str(v, "wind_dir") {
        Ok(x) => x,
        Err(e) => {
            return Err(e);
        },
    };
    let pressure_mb = match get_num(v, "pressure_mb") {
        Ok(x) => x,
        Err(e) => {
            return Err(e);
        },
    };
    let pressure_in = match get_num(v, "pressure_in") {
        Ok(x) => x,
        Err(e) => {
            return Err(e);
        },
    };
    let precip_mm = match get_num(v, "precip_mm") {
        Ok(x) => x,
        Err(e) => {
            return Err(e);
        },
    };
    let precip_in = match get_num(v, "precip_in") {
        Ok(x) => x,
        Err(e) => {
            return Err(e);
        },
    };
    let snow_cm = match get_num(v, "snow_cm") {
        Ok(x) => x,
        Err(e) => {
            return Err(e);
        },
    };
    let humidity = match get_int(v, "humidity") {
        Ok(x) => x,
        Err(e) => {
            return Err(e);
        },
    };
    let cloud = match get_int(v, "cloud") {
        Ok(x) => x,
        Err(e) => {
            return Err(e);
        },
    };
    let feelslike_c = match get_num(v, "feelslike_c") {
        Ok(x) => x,
        Err(e) => {
            return Err(e);
        },
    };
    let feelslike_f = match get_num(v, "feelslike_f") {
        Ok(x) => x,
        Err(e) => {
            return Err(e);
        },
    };
    let windchill_c = match get_num(v, "windchill_c") {
        Ok(x) => x,
        Err(e) => {
            return Err(e);
        },
    };
    let windchill_f = match get_num(v, "windchill_f") {
        Ok(x) => x,
        Err(e) => {
            return Err(e);
        },
    };
    let heatindex_c = match get_num(v, "heatindex_c") {
        Ok(x) => x,
        Err(e) => {
            return Err(e);
        },
    };
    let heatindex_f = match get_num(v, "heatindex_f") {
        Ok(x) => x,
        Err(e) => {
            return Err(e);
        },
    };
    let dewpoint_c = match get_num(v, "dewpoint_c") {
        Ok(x) => x,
        Err(e) => {
            return Err(e);
        },
    };
    let dewpoint_f = match get_num(v, "dewpoint_f") {
        Ok(x) => x,
        Err(e) => {
            return Err(e);
        },
    };
    let will_it_rain = match get_int(v, "will_it_rain") {
        Ok(x) => x,
        Err(e) => {
            return Err(e);
        },
    };
    let chance_of_rain = match get_int(v, "chance_of_rain") {
        Ok(x) => x,
        Err(e) => {
            return Err(e);
        },
    };
    let will_it_snow = match get_int(v, "will_it_snow") {
        Ok(x) => x,
        Err(e) => {
            return Err(e);
        },
    };
    let chance_of_snow = match get_int(v, "chance_of_snow") {
        Ok(x) => x,
        Err(e) => {
            return Err(e);
        },
    };
    let vis_km = match get_num(v, "vis_km") {
        Ok(x) => x,
        Err(e) => {
            return Err(e);
        },
    };
    let vis_miles = match get_num(v, "vis_miles") {
        Ok(x) => x,
        Err(e) => {
            return Err(e);
        },
    };
    let gust_mph = match get_num(v, "gust_mph") {
        Ok(x) => x,
        Err(e) => {
            return Err(e);
        },
    };
    let gust_kph = match get_num(v, "gust_kph") {
        Ok(x) => x,
        Err(e) => {
            return Err(e);
        },
    };
    let uv = match get_num(v, "uv") {
        Ok(x) => x,
        Err(e) => {
            return Err(e);
        },
    };
    Ok(Hour { time, temp_c, temp_f, is_day, condition, wind_mph, wind_kph, wind_degree, wind_dir, pressure_mb, pressure_in, precip_mm, precip_in, snow_cm, humidity, cloud, feelslike_c, feelslike_f, windchill_c, windchill_f, heatindex_c, heatindex_f, dewpoint_c, dewpoint_f, will_it_rain, chance_of_rain, will_it_snow, chance_of_snow, vis_km, vis_miles, gust_mph, gust_kph, uv })
}

/// The item list of an array field of an object, if it is one.
pub open spec fn arr_field(j: JsonV, name: Seq<char>) -> Option<Seq<JsonV>> {
    match any_field(j, name) {
        Some(JsonV::Arr(items)) => Some(items),
        _ => None,
    }
}

/// Looks an array field of an object up.
fn get_arr<'a>(v: &'a JsonValue, name: &str) -> (r: Option<&'a Vec<JsonValue>>)
    ensures
        match arr_field(v@, name@) {
            Some(items) => r is Some && items_view(r->Some_0@) == items,
            None => r is None,
        },
{
    match v {
        JsonValue::Obj(fields) => {
            match get_field(fields, name) {
                Some(JsonValue::Arr(items)) => Some(items),
                _ => None,
            }
        },
        _ => None,
    }
}

/// True when every item of an array decodes as an hourly record.
pub open spec fn hours_decodable(items: Seq<JsonV>) -> bool {
    forall|k: int| 0 <= k < items.len() ==> hour_decodable(#[trigger] items[k])
}

/// True when `ms` holds exactly the hourly records of `items`, in order.
pub open spec fn hours_match(ms: Seq<Hour>, items: Seq<JsonV>) -> bool {
    &&& ms.len() == items.len()
    &&& forall|k: int|
        0 <= k < items.len() ==> (#[trigger] ms[k]).wf() && hour_matches(ms[k], items[k])
}

/// Decodes an array of hourly records.
fn decode_hours(items: &Vec<JsonValue>) -> (r: Result<Vec<Hour>, FetchError>)
    ensures
        (r is Ok) == hours_decodable(items_view(items@)),
        r is Ok ==> hours_match(r->Ok_0@, items_view(items@)),
        r is Err ==> r->Err_0 == FetchError::Decode,
{
    let ghost iv = items_view(items@);
    let n = items.len();
    let mut out: Vec<Hour> = Vec::new();
    let mut k: usize = 0;
    while k < n
        invariant
            k <= n,
            n == items@.len(),
            iv == items_view(items@),
            out@.len() == k,
            forall|j: int| 0 <= j < k ==> hour_decodable(#[trigger] iv[j]),
            forall|j: int| 0 <= j < k ==> (#[trigger] out@[j]).wf() && hour_matches(out@[j], iv[j]),
        decreases n - k,
    {
        proof {
            assert(iv[k as int] == items@[k as int]@);
        }
        match decode_hour(&items[k]) {
            Ok(h) => {
                out.push(h);
            },
            Err(e) => {
                proof {
                    assert(!hour_decodable(iv[k as int]));
                }
                return Err(e);
            },
        }
        k = k + 1;
    }
    Ok(out)
}

/// True when every item of an array decodes as a forecast day.
pub open spec fn days_decodable(items: Seq<JsonV>) -> bool {
    forall|k: int| 0 <= k < items.len() ==> forecastday_decodable(#[trigger] items[k])
}

/// True when `ms` holds exactly the forecast days of `items`, in order.
pub open spec fn days_match(ms: Seq<ForecastDay>, items: Seq<JsonV>) -> bool {
    &&& ms.len() == items.len()
    &&& forall|k: int|
        0 <= k < items.len() ==> (#[trigger] ms[k]).wf() && forecastday_matches(ms[k], items[k])
}

/// Decodes an array of forecast days.
fn decode_days(items: &Vec<JsonValue>) -> (r: Result<Vec<ForecastDay>, FetchError>)
    ensures
        (r is Ok) == days_decodable(items_view(items@)),
        r is Ok ==> days_match(r->Ok_0@, items_view(items@)),
        r is Err ==> r->Err_0 == FetchError::Decode,
{
    let ghost iv = items_view(items@);
    let n = items.len();
    let mut out: Vec<ForecastDay> = Vec::new();
    let mut k: usize = 0;
    while k < n
        invariant
            k <= n,
            n == items@.len(),
            iv == items_view(items@),
            out@.len() == k,
            forall|j: int| 0 <= j < k ==> forecastday_decodable(#[trigger] iv[j]),
            forall|j: int|
                0 <= j < k ==> (#[trigger] out@[j]).wf() && forecastday_matches(out@[j], iv[j]),
        decreases n - k,
    {
        proof {
            assert(iv[k as int] == items@[k as int]@);
        }
        match decode_forecastday(&items[k]) {
            Ok(d) => {
                out.push(d);
            },
            Err(e) => {
                proof {
                    assert(!forecastday_decodable(iv[k as int]));
                }
                return Err(e);
            },
        }
        k = k + 1;
    }
    Ok(out)
}

/// True when every field a forecast day expects is present with the right
/// shape: its date, day aggregate, astronomy, and hourly records.
pub open spec fn forecastday_decodable(j: JsonV) -> bool {
    &&& str_field(j, "date"@) is Some
    &&& any_field(j, "day"@) is Some
    &&& day_decodable(any_field(j, "day"@)->Some_0)
    &&& any_field(j, "astro"@) is Some
    &&& astro_decodable(any_field(j, "astro"@)->Some_0)
    &&& arr_field(j, "hour"@) is Some
    &&& hours_decodable(arr_field(j, "hour"@)->Some_0)
}

/// True when `m` holds exactly the forecast-day values of `j` that the
/// model reads.
pub open spec fn forecastday_matches(m: ForecastDay, j: JsonV) -> bool {
    &&& str_field(j, "date"@) == Some(m.date@)
    &&& any_field(j, "day"@) is Some
    &&& day_matches(m.day, any_field(j, "day"@)->Some_0)
    &&& any_field(j, "astro"@) is Some
    &&& astro_matches(m.astro, any_field(j, "astro"@)->Some_0)
    &&& arr_field(j, "hour"@) is Some
    &&& hours_match(m.hour@, arr_field(j, "hour"@)->Some_0)
}

/// Decodes one forecast day.
pub fn decode_forecastday(v: &JsonValue) -> (r: Result<ForecastDay, FetchError>)
    ensures
        (r is Ok) == forecastday_decodable(v@),
        r is Ok ==> r->Ok_0.wf() && forecastday_matches(r->Ok_0, v@),
        r is Err ==> r->Err_0 == FetchError::Decode,
{
    let date = match get_str(v, "date") {
        Ok(x) => x,
        Err(e) => {
            return Err(e);
        },
    };
    let day = match get_val(v, "day") {
        Some(d) => match decode_day(d) {
            Ok(x) => x,
            Err(e) => {
                return Err(e);
            },
        },
        None => {
            return Err(FetchError::Decode);
        },
    };
    let astro = match get_val(v, "astro") {
        Some(a) => match decode_astro(a) {
            Ok(x) => x,
            Err(e) => {
                return Err(e);
            },
        },
        None => {
            return Err(FetchError::Decode);
        },
    };
    let hour = match get_arr(v, "hour") {
        Some(items) => match decode_hours(items) {
            Ok(x) => x,
            Err(e) => {
                return Err(e);
            },
        },
        None => {
            return Err(FetchError::Decode);
        },
    };
    Ok(ForecastDay { date, day, astro, hour })
}

/// True when a whole current-weather response decodes: a location and a
/// current-conditions object.
pub open spec fn weather_decodable(j: JsonV) -> bool {
    &&& any_field(j, "location"@) is Some
    &&& location_decodable(any_field(j, "location"@)->Some_0)
    &&& any_field(j, "current"@) is Some
    &&& current_decodable(any_field(j, "current"@)->Some_0)
}

/// True when `m` holds exactly the current-weather values of `j`.
pub open spec fn weather_matches(m: Weather, j: JsonV) -> bool {
    &&& any_field(j, "location"@) is Some
    &&& location_matches(m.location, any_field(j, "location"@)->Some_0)
    &&& any_field(j, "current"@) is Some
    &&& current_matches(m.current, any_field(j, "current"@)->Some_0)
}

/// Decodes a whole current-weather response value.
pub fn decode_weather(v: &JsonValue) -> (r: Result<Weather, FetchError>)
    ensures
        (r is Ok) == weather_decodable(v@),
        r is Ok ==> r->Ok_0.wf() && weather_matches(r->Ok_0, v@),
        r is Err ==> r->Err_0 == FetchError::Decode,
{
    let location = match get_val(v, "location") {
        Some(l) => match decode_location(l) {
            Ok(x) => x,
            Err(e) => {
                return Err(e);
            },
        },
        None => {
            return Err(FetchError::Decode);
        },
    };
    let current = match get_val(v, "current") {
        Some(c) => match decode_current(c) {
            Ok(x) => x,
            Err(e) => {
                return Err(e);
            },
        },
        None => {
            return Err(FetchError::Decode);
        },
    };
    Ok(Weather { location, current })
}

/// True when a whole forecast response decodes: a location and a forecast
/// object holding the forecast-day array.
pub open spec fn forecast_weather_decodable(j: JsonV) -> bool {
    &&& any_field(j, "location"@) is Some
    &&& location_decodable(any_field(j, "location"@)->Some_0)
    &&& any_field(j, "forecast"@) is Some
    &&& arr_field(any_field(j, "forecast"@)->Some_0, "forecastday"@) is Some
    &&& days_decodable(arr_field(any_field(j, "forecast"@)->Some_0, "forecastday"@)->Some_0)
}

/// True when `m` holds exactly the forecast values of `j`.
pub open spec fn forecast_weather_matches(m: ForecastWeather, j: JsonV) -> bool {
    &&& any_field(j, "location"@) is Some
    &&& location_matches(m.location, any_field(j, "location"@)->Some_0)
    &&& any_field(j, "forecast"@) is Some
    &&& arr_field(any_field(j, "forecast"@)->Some_0, "forecastday"@) is Some
    &&& days_match(
        m.forecast.forecastday@,
        arr_field(any_field(j, "forecast"@)->Some_0, "forecastday"@)->Some_0,
    )
}

/// Decodes a whole forecast response value.
pub fn decode_forecast_weather(v: &JsonValue) -> (r: Result<ForecastWeather, FetchError>)
    ensures
        (r is Ok) == forecast_weather_decodable(v@),
        r is Ok ==> r->Ok_0.wf() && forecast_weather_matches(r->Ok_0, v@),
        r is Err ==> r->Err_0 == FetchError::Decode,
{
    let location = match get_val(v, "location") {
        Some(l) => match decode_location(l) {
            Ok(x) => x,
            Err(e) => {
                return Err(e);
            },
        },
        None => {
            return Err(FetchError::Decode);
        },
    };
    let forecastday = match get_val(v, "forecast") {
        Some(f) => match get_arr(f, "forecastday") {
            Some(items) => match decode_days(items) {
                Ok(x) => x,
                Err(e) => {
                    return Err(e);
                },
            },
            None => {
                return Err(FetchError::Decode);
            },
        },
        None => {
            return Err(FetchError::Decode);
        },
    };
    Ok(ForecastWeather { location, forecast: WeatherForecast { forecastday } })
}

/// Decodes a current-weather fetch outcome: a non-success status is a
/// `Transport` error; a success body must be JSON that decodes into the
/// model, else the fetch is a `Decode` error.
pub fn decode_current_response(status: u16, body: &str) -> (r: Result<Weather, FetchError>)
    ensures
        !(200 <= status < 300) ==> r == Err::<Weather, FetchError>(FetchError::Transport),
        200 <= status < 300 ==> match crate::json::spec_parse_json(body@) {
            None => r == Err::<Weather, FetchError>(FetchError::Decode),
            Some(j) => {
                &&& (r is Ok) == weather_decodable(j)
                &&& (r is Ok ==> r->Ok_0.wf() && weather_matches(r->Ok_0, j))
                &&& (r is Err ==> r->Err_0 == FetchError::Decode)
            },
        },
{
    if status < 200 || status >= 300 {
        return Err(FetchError::Transport);
    }
    match crate::json::parse_json(body) {
        Err(e) => Err(e),
        Ok(jv) => decode_weather(&jv),
    }
}

/// Decodes a forecast fetch outcome: a non-success status is a
/// `Transport` error; a success body must be JSON that decodes into the
/// model, else the fetch is a `Decode` error.
pub fn decode_forecast_response(status: u16, body: &str) -> (r: Result<ForecastWeather, FetchError>)
    ensures
        !(200 <= status < 300) ==> r == Err::<ForecastWeather, FetchError>(FetchError::Transport),
        200 <= status < 300 ==> match crate::json::spec_parse_json(body@) {
            None => r == Err::<ForecastWeather, FetchError>(FetchError::Decode),
            Some(j) => {
                &&& (r is Ok) == forecast_weather_decodable(j)
                &&& (r is Ok ==> r->Ok_0.wf() && forecast_weather_matches(r->Ok_0, j))
                &&& (r is Err ==> r->Err_0 == FetchError::Decode)
            },
        },
{
    if status < 200 || status >= 300 {
        return Err(FetchError::Transport);
    }
    match crate::json::parse_json(body) {
        Err(e) => Err(e),
        Ok(jv) => decode_forecast_weather(&jv),
    }
}

/// The JSON form of a WeatherCondition: one field per model field, in the
/// model's order.
pub open spec fn spec_condition_json(m: WeatherCondition) -> JsonV {
    JsonV::Obj(
        seq![
            ("text"@, JsonV::Str(m.text@)),
            ("icon"@, JsonV::Str(m.icon@)),
            ("code"@, JsonV::Num(spec_int_text(m.code as int))),
        ],
    )
}

/// Encodes a WeatherCondition as a JSON object.
pub fn condition_to_json(m: &WeatherCondition) -> (r: JsonValue)
    ensures
        r@ == spec_condition_json(*m),
{
    let mut fields: Vec<(String, JsonValue)> = Vec::new();
    fields.push((String::from_str("text"), JsonValue::Str(m.text.clone())));
    fields.push((String::from_str("icon"), JsonValue::Str(m.icon.clone())));
    fields.push((String::from_str("code"), JsonValue::Num(i64_to_string(m.code))));
    let r = JsonValue::Obj(fields);
    proof {
        assert(r@->Obj_0 == fields_view(fields@));
        assert(fields_view(fields@).len() == 3);
        assert forall|j: int|
            0 <= j < 3 implies fields_view(fields@)[j] == spec_condition_json(*m)->Obj_0[j] by {
            assert(fields_view(fields@)[j] == (fields@[j].0@, fields@[j].1@));
        }
        assert(fields_view(fields@) =~~= spec_condition_json(*m)->Obj_0);
        assert(r@ =~~= spec_condition_json(*m));
    }
    r
}

/// The JSON form of a WeatherLocation: one field per model field, in the
/// model's order.
pub open spec fn spec_location_json(m: WeatherLocation) -> JsonV {
    JsonV::Obj(
        seq![
            ("name"@, JsonV::Str(m.name@)),
            ("region"@, JsonV::Str(m.region@)),
            ("country"@, JsonV::Str(m.country@)),
            ("lat"@, JsonV::Num(m.lat.text@)),
            ("lon"@, JsonV::Num(m.lon.text@)),
            ("tz_id"@, JsonV::Str(m.tz_id@)),
            ("localtime_epoch"@, JsonV::Num(spec_int_text(m.localtime_epoch as int))),
            ("localtime"@, JsonV::Str(m.localtime@)),
        ],
    )
}

/// Encodes a WeatherLocation as a JSON object.
pub fn location_to_json(m: &WeatherLocation) -> (r: JsonValue)
    ensures
        r@ == spec_location_json(*m),
{
    let mut fields: Vec<(String, JsonValue)> = Vec::new();
    fields.push((String::from_str("name"), JsonValue::Str(m.name.clone())));
    fields.push((String::from_str("region"), JsonValue::Str(m.region.clone())));
    fields.push((String::from_str("country"), JsonValue::Str(m.country.clone())));
    fields.push((String::from_str("lat"), JsonValue::Num(m.lat.text.clone())));
    fields.push((String::from_str("lon"), JsonValue::Num(m.lon.text.clone())));
    fields.push((String::from_str("tz_id"), JsonValue::Str(m.tz_id.clone())));
    fields.push((String::from_str("localtime_epoch"), JsonValue::Num(i64_to_string(m.localtime_epoch))));
    fields.push((String::from_str("localtime"), JsonValue::Str(m.localtime.clone())));
    let r = JsonValue::Obj(fields);
    proof {
        assert(r@->Obj_0 == fields_view(fields@));
        assert(fields_view(fields@).len() == 8);
        assert forall|j: int|
            0 <= j < 8 implies fields_view(fields@)[j] == spec_location_json(*m)->Obj_0[j] by {
            assert(fields_view(fields@)[j] == (fields@[j].0@, fields@[j].1@));
        }
        assert(fields_view(fields@) =~~= spec_location_json(*m)->Obj_0);
        assert(r@ =~~= spec_location_json(*m));
    }
    r
}

/// The JSON form of a WeatherCurrent: one field per model field, in the
/// model's order.
pub open spec fn spec_current_json(m: WeatherCurrent) -> JsonV {
    JsonV::Obj(
        seq![
            ("last_updated_epoch"@, JsonV::Num(spec_int_text(m.last_updated_epoch as int))),
            ("last_updated"@, JsonV::Str(m.last_updated@)),
            ("temp_c"@, JsonV::Num(m.temp_c.text@)),
            ("temp_f"@, JsonV::Num(m.temp_f.text@)),
            ("is_day"@, JsonV::Num(spec_int_text(m.is_day as int))),
            ("condition"@, spec_condition_json(m.condition)),
            ("wind_mph"@, JsonV::Num(m.wind_mph.text@)),
            ("wind_kph"@, JsonV::Num(m.wind_kph.text@)),
            ("wind_degree"@, JsonV::Num(spec_int_text(m.wind_degree as int))),
            ("wind_dir"@, JsonV::Str(m.wind_dir@)),
            ("pressure_mb"@, JsonV::Num(m.pressure_mb.text@)),
            ("pressure_in"@, JsonV::Num(m.pressure_in.text@)),
            ("precip_mm"@, JsonV::Num(m.precip_mm.text@)),
            ("precip_in"@, JsonV::Num(m.precip_in.text@)),
            ("humidity"@, JsonV::Num(spec_int_text(m.humidity as int))),
            ("cloud"@, JsonV::Num(spec_int_text(m.cloud as int))),
            ("feelslike_c"@, JsonV::Num(m.feelslike_c.text@)),
            ("feelslike_f"@, JsonV::Num(m.feelslike_f.text@)),
            ("vis_km"@, JsonV::Num(m.vis_km.text@)),
            ("vis_miles"@, JsonV::Num(m.vis_miles.text@)),
            ("uv"@, JsonV::Num(m.uv.text@)),
            ("gust_mph"@, JsonV::Num(m.gust_mph.text@)),
            ("gust_kph"@, JsonV::Num(m.gust_kph.text@)),
        ],
    )
}

/// Encodes a WeatherCurrent as a JSON object.
pub fn current_to_json(m: &WeatherCurrent) -> (r: JsonValue)
    ensures
        r@ == spec_current_json(*m),
{
    let mut fields: Vec<(String, JsonValue)> = Vec::new();
    fields.push((String::from_str("last_updated_epoch"), JsonValue::Num(i64_to_string(m.last_updated_epoch))));
    fields.push((String::from_str("last_updated"), JsonValue::Str(m.last_updated.clone())));
    fields.push((String::from_str("temp_c"), JsonValue::Num(m.temp_c.text.clone())));
    fields.push((String::from_str("temp_f"), JsonValue::Num(m.temp_f.text.clone())));
    fields.push((String::from_str("is_day"), JsonValue::Num(i64_to_string(m.is_day))));
    fields.push((String::from_str("condition"), condition_to_json(&m.condition)));
    fields.push((String::from_str("wind_mph"), JsonValue::Num(m.wind_mph.text.clone())));
    fields.push((String::from_str("wind_kph"), JsonValue::Num(m.wind_kph.text.clone())));
    fields.push((String::from_str("wind_degree"), JsonValue::Num(i64_to_string(m.wind_degree))));
    fields.push((String::from_str("wind_dir"), JsonValue::Str(m.wind_dir.clone())));
    fields.push((String::from_str("pressure_mb"), JsonValue::Num(m.pressure_mb.text.clone())));
    fields.push((String::from_str("pressure_in"), JsonValue::Num(m.pressure_in.text.clone())));
    fields.push((String::from_str("precip_mm"), JsonValue::Num(m.precip_mm.text.clone())));
    fields.push((String::from_str("precip_in"), JsonValue::Num(m.precip_in.text.clone())));
    fields.push((String::from_str("humidity"), JsonValue::Num(i64_to_string(m.humidity))));
    fields.push((String::from_str("cloud"), JsonValue::Num(i64_to_string(m.cloud))));
    fields.push((String::from_str("feelslike_c"), JsonValue::Num(m.feelslike_c.text.clone())));
    fields.push((String::from_str("feelslike_f"), JsonValue::Num(m.feelslike_f.text.clone())));
    fields.push((String::from_str("vis_km"), JsonValue::Num(m.vis_km.text.clone())));
    fields.push((String::from_str("vis_miles"), JsonValue::Num(m.vis_miles.text.clone())));
    fields.push((String::from_str("uv"), JsonValue::Num(m.uv.text.clone())));
    fields.push((String::from_str("gust_mph"), JsonValue::Num(m.gust_mph.text.clone())));
    fields.push((String::from_str("gust_kph"), JsonValue::Num(m.gust_kph.text.clone())));
    let r = JsonValue::Obj(fields);
    proof {
        assert(r@->Obj_0 == fields_view(fields@));
        assert(fields_view(fields@).len() == 23);
        assert forall|j: int|
            0 <= j < 23 implies fields_view(fields@)[j] == spec_current_json(*m)->Obj_0[j] by {
            assert(fields_view(fields@)[j] == (fields@[j].0@, fields@[j].1@));
        }
        assert(fields_view(fields@) =~~= spec_current_json(*m)->Obj_0);
        assert(r@ =~~= spec_current_json(*m));
    }
    r
}

/// The JSON form of a Day: one field per model field, in the
/// model's order.
pub open spec fn spec_day_json(m: Day) -> JsonV {
    JsonV::Obj(
        seq![
            ("maxtemp_c"@, JsonV::Num(m.maxtemp_c.text@)),
            ("maxtemp_f"@, JsonV::Num(m.maxtemp_f.text@)),
            ("mintemp_c"@, JsonV::Num(m.mintemp_c.text@)),
            ("mintemp_f"@, JsonV::Num(m.mintemp_f.text@)),
            ("avgtemp_c"@, JsonV::Num(m.avgtemp_c.text@)),
            ("avgtemp_f"@, JsonV::Num(m.avgtemp_f.text@)),
            ("maxwind_mph"@, JsonV::Num(m.maxwind_mph.text@)),
            ("maxwind_kph"@, JsonV::Num(m.maxwind_kph.text@)),
            ("totalprecip_mm"@, JsonV::Num(m.totalprecip_mm.text@)),
            ("totalprecip_in"@, JsonV::Num(m.totalprecip_in.text@)),
            ("totalsnow_cm"@, JsonV::Num(m.totalsnow_cm.text@)),
            ("avgvis_km"@, JsonV::Num(m.avgvis_km.text@)),
            ("avgvis_miles"@, JsonV::Num(m.avgvis_miles.text@)),
            ("avghumidity"@, JsonV::Num(spec_int_text(m.avghumidity as int))),
            ("daily_will_it_rain"@, JsonV::Num(spec_int_text(m.daily_will_it_rain as int))),
            ("daily_chance_of_rain"@, JsonV::Num(spec_int_text(m.daily_chance_of_rain as int))),
            ("daily_will_it_snow"@, JsonV::Num(spec_int_text(m.daily_will_it_snow as int))),
            ("daily_chance_of_snow"@, JsonV::Num(spec_int_text(m.daily_chance_of_snow as int))),
            ("condition"@, spec_condition_json(m.condition)),
            ("uv"@, JsonV::Num(m.uv.text@)),
        ],
    )
}

/// Encodes a Day as a JSON object.
pub fn day_to_json(m: &Day) -> (r: JsonValue)
    ensures
        r@ == spec_day_json(*m),
{
    let mut fields: Vec<(String, JsonValue)> = Vec::new();
    fields.push((String::from_str("maxtemp_c"), JsonValue::Num(m.maxtemp_c.text.clone())));
    fields.push((String::from_str("maxtemp_f"), JsonValue::Num(m.maxtemp_f.text.clone())));
    fields.push((String::from_str("mintemp_c"), JsonValue::Num(m.mintemp_c.text.clone())));
    fields.push((String::from_str("mintemp_f"), JsonValue::Num(m.mintemp_f.text.clone())));
    fields.push((String::from_str("avgtemp_c"), JsonValue::Num(m.avgtemp_c.text.clone())));
    fields.push((String::from_str("avgtemp_f"), JsonValue::Num(m.avgtemp_f.text.clone())));
    fields.push((String::from_str("maxwind_mph"), JsonValue::Num(m.maxwind_mph.text.clone())));
    fields.push((String::from_str("maxwind_kph"), JsonValue::Num(m.maxwind_kph.text.clone())));
    fields.push((String::from_str("totalprecip_mm"), JsonValue::Num(m.totalprecip_mm.text.clone())));
    fields.push((String::from_str("totalprecip_in"), JsonValue::Num(m.totalprecip_in.text.clone())));
    fields.push((String::from_str("totalsnow_cm"), JsonValue::Num(m.totalsnow_cm.text.clone())));
    fields.push((String::from_str("avgvis_km"), JsonValue::Num(m.avgvis_km.text.clone())));
    fields.push((String::from_str("avgvis_miles"), JsonValue::Num(m.avgvis_miles.text.clone())));
    fields.push((String::from_str("avghumidity"), JsonValue::Num(i64_to_string(m.avghumidity))));
    fields.push((String::from_str("daily_will_it_rain"), JsonValue::Num(i64_to_string(m.daily_will_it_rain))));
    fields.push((String::from_str("daily_chance_of_rain"), JsonValue::Num(i64_to_string(m.daily_chance_of_rain))));
    fields.push((String::from_str("daily_will_it_snow"), JsonValue::Num(i64_to_string(m.daily_will_it_snow))));
    fields.push((String::from_str("daily_chance_of_snow"), JsonValue::Num(i64_to_string(m.daily_chance_of_snow))));
    fields.push((String::from_str("condition"), condition_to_json(&m.condition)));
    fields.push((String::from_str("uv"), JsonValue::Num(m.uv.text.clone())));
    let r = JsonValue::Obj(fields);
    proof {
        assert(r@->Obj_0 == fields_view(fields@));
        assert(fields_view(fields@).len() == 20);
        assert forall|j: int|
            0 <= j < 20 implies fields_view(fields@)[j] == spec_day_json(*m)->Obj_0[j] by {
            assert(fields_view(fields@)[j] == (fields@[j].0@, fields@[j].1@));
        }
        assert(fields_view(fields@) =~~= spec_day_json(*m)->Obj_0);
        assert(r@ =~~= spec_day_json(*m));
    }
    r
}

/// The JSON form of a Astro: one field per model field, in the
/// model's order.
pub open spec fn spec_astro_json(m: Astro) -> JsonV {
    JsonV::Obj(
        seq![
            ("sunrise"@, JsonV::Str(m.sunrise@)),
            ("sunset"@, JsonV::Str(m.sunset@)),
            ("moonrise"@, JsonV::Str(m.moonrise@)),
            ("moonset"@, JsonV::Str(m.moonset@)),
            ("moon_phase"@, JsonV::Str(m.moon_phase@)),
            ("moon_illumination"@, JsonV::Num(m.moon_illumination.text@)),
            ("is_moon_up"@, JsonV::Num(spec_int_text(m.is_moon_up as int))),
            ("is_sun_up"@, JsonV::Num(spec_int_text(m.is_sun_up as int))),
        ],
    )
}

/// Encodes a Astro as a JSON object.
pub fn astro_to_json(m: &Astro) -> (r: JsonValue)
    ensures
        r@ == spec_astro_json(*m),
{
    let mut fields: Vec<(String, JsonValue)> = Vec::new();
    fields.push((String::from_str("sunrise"), JsonValue::Str(m.sunrise.clone())));
    fields.push((String::from_str("sunset"), JsonValue::Str(m.sunset.clone())));
    fields.push((String::from_str("moonrise"), JsonValue::Str(m.moonrise.clone())));
    fields.push((String::from_str("moonset"), JsonValue::Str(m.moonset.clone())));
    fields.push((String::from_str("moon_phase"), JsonValue::Str(m.moon_phase.clone())));
    fields.push((String::from_str("moon_illumination"), JsonValue::Num(m.moon_illumination.text.clone())));
    fields.push((String::from_str("is_moon_up"), JsonValue::Num(i64_to_string(m.is_moon_up))));
    fields.push((String::from_str("is_sun_up"), JsonValue::Num(i64_to_string(m.is_sun_up))));
    let r = JsonValue::Obj(fields);
    proof {
        assert(r@->Obj_0 == fields_view(fields@));
        assert(fields_view(fields@).len() == 8);
        assert forall|j: int|
            0 <= j < 8 implies fields_view(fields@)[j] == spec_astro_json(*m)->Obj_0[j] by {
            assert(fields_view(fields@)[j] == (fields@[j].0@, fields@[j].1@));
        }
        assert(fields_view(fields@) =~~= spec_astro_json(*m)->Obj_0);
        assert(r@ =~~= spec_astro_json(*m));
    }
    r
}

/// The JSON form of a Hour: one field per model field, in the
/// model's order.
pub open spec fn spec_hour_json(m: Hour) -> JsonV {
    JsonV::Obj(
        seq![
            ("time"@, JsonV::Str(m.time@)),
            ("temp_c"@, JsonV::Num(m.temp_c.text@)),
            ("temp_f"@, JsonV::Num(m.temp_f.text@)),
            ("is_day"@, JsonV::Num(spec_int_text(m.is_day as int))),
            ("condition"@, spec_condition_json(m.condition)),
            ("wind_mph"@, JsonV::Num(m.wind_mph.text@)),
            ("wind_kph"@, JsonV::Num(m.wind_kph.text@)),
            ("wind_degree"@, JsonV::Num(spec_int_text(m.wind_degree as int))),
            ("wind_dir"@, JsonV::Str(m.wind_dir@)),
            ("pressure_mb"@, JsonV::Num(m.pressure_mb.text@)),
            ("pressure_in"@, JsonV::Num(m.pressure_in.text@)),
            ("precip_mm"@, JsonV::Num(m.precip_mm.text@)),
            ("precip_in"@, JsonV::Num(m.precip_in.text@)),
            ("snow_cm"@, JsonV::Num(m.snow_cm.text@)),
            ("humidity"@, JsonV::Num(spec_int_text(m.humidity as int))),
            ("cloud"@, JsonV::Num(spec_int_text(m.cloud as int))),
            ("feelslike_c"@, JsonV::Num(m.feelslike_c.text@)),
            ("feelslike_f"@, JsonV::Num(m.feelslike_f.text@)),
            ("windchill_c"@, JsonV::Num(m.windchill_c.text@)),
            ("windchill_f"@, JsonV::Num(m.windchill_f.text@)),
            ("heatindex_c"@, JsonV::Num(m.heatindex_c.text@)),
            ("heatindex_f"@, JsonV::Num(m.heatindex_f.text@)),
            ("dewpoint_c"@, JsonV::Num(m.dewpoint_c.text@)),
            ("dewpoint_f"@, JsonV::Num(m.dewpoint_f.text@)),
            ("will_it_rain"@, JsonV::Num(spec_int_text(m.will_it_rain as int))),
            ("chance_of_rain"@, JsonV::Num(spec_int_text(m.chance_of_rain as int))),
            ("will_it_snow"@, JsonV::Num(spec_int_text(m.will_it_snow as int))),
            ("chance_of_snow"@, JsonV::Num(spec_int_text(m.chance_of_snow as int))),
            ("vis_km"@, JsonV::Num(m.vis_km.text@)),
            ("vis_miles"@, JsonV::Num(m.vis_miles.text@)),
            ("gust_mph"@, JsonV::Num(m.gust_mph.text@)),
            ("gust_kph"@, JsonV::Num(m.gust_kph.text@)),
            ("uv"@, JsonV::Num(m.uv.text@)),
        ],
    )
}

/// Encodes a Hour as a JSON object.
pub fn hour_to_json(m: &Hour) -> (r: JsonValue)
    ensures
        r@ == spec_hour_json(*m),
{
    let mut fields: Vec<(String, JsonValue)> = Vec::new();
    fields.push((String::from_str("time"), JsonValue::Str(m.time.clone())));
    fields.push((String::from_str("temp_c"), JsonValue::Num(m.temp_c.text.clone())));
    fields.push((String::from_str("temp_f"), JsonValue::Num(m.temp_f.text.clone())));
    fields.push((String::from_str("is_day"), JsonValue::Num(i64_to_string(m.is_day))));
    fields.push((String::from_str("condition"), condition_to_json(&m.condition)));
    fields.push((String::from_str("wind_mph"), JsonValue::Num(m.wind_mph.text.clone())));
    fields.push((String::from_str("wind_kph"), JsonValue::Num(m.wind_kph.text.clone())));
    fields.push((String::from_str("wind_degree"), JsonValue::Num(i64_to_string(m.wind_degree))));
    fields.push((String::from_str("wind_dir"), JsonValue::Str(m.wind_dir.clone())));
    fields.push((String::from_str("pressure_mb"), JsonValue::Num(m.pressure_mb.text.clone())));
    fields.push((String::from_str("pressure_in"), JsonValue::Num(m.pressure_in.text.clone())));
    fields.push((String::from_str("precip_mm"), JsonValue::Num(m.precip_mm.text.clone())));
    fields.push((String::from_str("precip_in"), JsonValue::Num(m.precip_in.text.clone())));
    fields.push((String::from_str("snow_cm"), JsonValue::Num(m.snow_cm.text.clone())));
    fields.push((String::from_str("humidity"), JsonValue::Num(i64_to_string(m.humidity))));
    fields.push((String::from_str("cloud"), JsonValue::Num(i64_to_string(m.cloud))));
    fields.push((String::from_str("feelslike_c"), JsonValue::Num(m.feelslike_c.text.clone())));
    fields.push((String::from_str("feelslike_f"), JsonValue::Num(m.feelslike_f.text.clone())));
    fields.push((String::from_str("windchill_c"), JsonValue::Num(m.windchill_c.text.clone())));
    fields.push((String::from_str("windchill_f"), JsonValue::Num(m.windchill_f.text.clone())));
    fields.push((String::from_str("heatindex_c"), JsonValue::Num(m.heatindex_c.text.clone())));
    fields.push((String::from_str("heatindex_f"), JsonValue::Num(m.heatindex_f.text.clone())));
    fields.push((String::from_str("dewpoint_c"), JsonValue::Num(m.dewpoint_c.text.clone())));
    fields.push((String::from_str("dewpoint_f"), JsonValue::Num(m.dewpoint_f.text.clone())));
    fields.push((String::from_str("will_it_rain"), JsonValue::Num(i64_to_string(m.will_it_rain))));
    fields.push((String::from_str("chance_of_rain"), JsonValue::Num(i64_to_string(m.chance_of_rain))));
    fields.push((String::from_str("will_it_snow"), JsonValue::Num(i64_to_string(m.will_it_snow))));
    fields.push((String::from_str("chance_of_snow"), JsonValue::Num(i64_to_string(m.chance_of_snow))));
    fields.push((String::from_str("vis_km"), JsonValue::Num(m.vis_km.text.clone())));
    fields.push((String::from_str("vis_miles"), JsonValue::Num(m.vis_miles.text.clone())));
    fields.push((String::from_str("gust_mph"), JsonValue::Num(m.gust_mph.text.clone())));
    fields.push((String::from_str("gust_kph"), JsonValue::Num(m.gust_kph.text.clone())));
    fields.push((String::from_str("uv"), JsonValue::Num(m.uv.text.clone())));
    let r = JsonValue::Obj(fields);
    proof {
        assert(r@->Obj_0 == fields_view(fields@));
        assert(fields_view(fields@).len() == 33);
        assert forall|j: int|
            0 <= j < 33 implies fields_view(fields@)[j] == spec_hour_json(*m)->Obj_0[j] by {
            assert(fields_view(fields@)[j] == (fields@[j].0@, fields@[j].1@));
        }
        assert(fields_view(fields@) =~~= spec_hour_json(*m)->Obj_0);
        assert(r@ =~~= spec_hour_json(*m));
    }
    r
}

/// The JSON form of a list of hourly records.
pub open spec fn spec_hours_json(hs: Seq<Hour>) -> Seq<JsonV> {
    Seq::new(hs.len(), |k: int| if 0 <= k < hs.len() { spec_hour_json(hs[k]) } else { JsonV::Null })
}

/// Encodes a list of hourly records.
fn hours_to_json(hs: &Vec<Hour>) -> (r: Vec<JsonValue>)
    ensures
        items_view(r@) == spec_hours_json(hs@),
{
    let n = hs.len();
    let mut r: Vec<JsonValue> = Vec::new();
    let mut k: usize = 0;
    while k < n
        invariant
            k <= n,
            n == hs@.len(),
            r@.len() == k,
            forall|j: int| 0 <= j < k ==> (#[trigger] r@[j])@ == spec_hour_json(hs@[j]),
        decreases n - k,
    {
        r.push(hour_to_json(&hs[k]));
        k = k + 1;
    }
    proof {
        assert forall|j: int| 0 <= j < n implies items_view(r@)[j] == #[trigger] spec_hours_json(
            hs@,
        )[j] by {
            assert(items_view(r@)[j] == r@[j]@);
        }
        assert(items_view(r@) =~= spec_hours_json(hs@));
    }
    r
}

/// The JSON form of one forecast day.
pub open spec fn spec_forecastday_json(m: ForecastDay) -> JsonV {
    JsonV::Obj(
        seq![
            ("date"@, JsonV::Str(m.date@)),
            ("day"@, spec_day_json(m.day)),
            ("astro"@, spec_astro_json(m.astro)),
            ("hour"@, JsonV::Arr(spec_hours_json(m.hour@))),
        ],
    )
}

/// Encodes one forecast day.
pub fn forecastday_to_json(m: &ForecastDay) -> (r: JsonValue)
    ensures
        r@ == spec_forecastday_json(*m),
{
    let mut fields: Vec<(String, JsonValue)> = Vec::new();
    fields.push((String::from_str("date"), JsonValue::Str(m.date.clone())));
    fields.push((String::from_str("day"), day_to_json(&m.day)));
    fields.push((String::from_str("astro"), astro_to_json(&m.astro)));
    fields.push((String::from_str("hour"), JsonValue::Arr(hours_to_json(&m.hour))));
    let r = JsonValue::Obj(fields);
    proof {
        assert(r@->Obj_0 == fields_view(fields@));
        assert(fields_view(fields@).len() == 4);
        assert forall|j: int|
            0 <= j < 4 implies fields_view(fields@)[j] == spec_forecastday_json(*m)->Obj_0[j] by {
            assert(fields_view(fields@)[j] == (fields@[j].0@, fields@[j].1@));
        }
        assert(fields_view(fields@) =~~= spec_forecastday_json(*m)->Obj_0);
        assert(r@ =~~= spec_forecastday_json(*m));
    }
    r
}

/// The JSON form of a list of forecast days.
pub open spec fn spec_days_json(ds: Seq<ForecastDay>) -> Seq<JsonV> {
    Seq::new(
        ds.len(),
        |k: int| if 0 <= k < ds.len() { spec_forecastday_json(ds[k]) } else { JsonV::Null },
    )
}

/// Encodes a list of forecast days.
fn days_to_json(ds: &Vec<ForecastDay>) -> (r: Vec<JsonValue>)
    ensures
        items_view(r@) == spec_days_json(ds@),
{
    let n = ds.len();
    let mut r: Vec<JsonValue> = Vec::new();
    let mut k: usize = 0;
    while k < n
        invariant
            k <= n,
            n == ds@.len(),
            r@.len() == k,
            forall|j: int| 0 <= j < k ==> (#[trigger] r@[j])@ == spec_forecastday_json(ds@[j]),
        decreases n - k,
    {
        r.push(forecastday_to_json(&ds[k]));
        k = k + 1;
    }
    proof {
        assert forall|j: int| 0 <= j < n implies items_view(r@)[j] == #[trigger] spec_days_json(
            ds@,
        )[j] by {
            assert(items_view(r@)[j] == r@[j]@);
        }
        assert(items_view(r@) =~= spec_days_json(ds@));
    }
    r
}

/// The JSON form of a whole current-weather report.
pub open spec fn spec_weather_json(m: Weather) -> JsonV {
    JsonV::Obj(
        seq![
            ("location"@, spec_location_json(m.location)),
            ("current"@, spec_current_json(m.current)),
        ],
    )
}

/// Encodes a whole current-weather report.
pub fn weather_to_json(m: &Weather) -> (r: JsonValue)
    ensures
        r@ == spec_weather_json(*m),
{
    let mut fields: Vec<(String, JsonValue)> = Vec::new();
    fields.push((String::from_str("location"), location_to_json(&m.location)));
    fields.push((String::from_str("current"), current_to_json(&m.current)));
    let r = JsonValue::Obj(fields);
    proof {
        assert(r@->Obj_0 == fields_view(fields@));
        assert(fields_view(fields@).len() == 2);
        assert forall|j: int|
            0 <= j < 2 implies fields_view(fields@)[j] == spec_weather_json(*m)->Obj_0[j] by {
            assert(fields_view(fields@)[j] == (fields@[j].0@, fields@[j].1@));
        }
        assert(fields_view(fields@) =~~= spec_weather_json(*m)->Obj_0);
        assert(r@ =~~= spec_weather_json(*m));
    }
    r
}

/// The JSON form of a whole forecast report.
pub open spec fn spec_forecast_weather_json(m: ForecastWeather) -> JsonV {
    JsonV::Obj(
        seq![
            ("location"@, spec_location_json(m.location)),
            (
                "forecast"@,
                JsonV::Obj(
                    seq![("forecastday"@, JsonV::Arr(spec_days_json(m.forecast.forecastday@)))],
                ),
            ),
        ],
    )
}

/// Encodes a whole forecast report.
pub fn forecast_weather_to_json(m: &ForecastWeather) -> (r: JsonValue)
    ensures
        r@ == spec_forecast_weather_json(*m),
{
    let mut fields: Vec<(String, JsonValue)> = Vec::new();
    fields.push((String::from_str("location"), location_to_json(&m.location)));
    let mut inner: Vec<(String, JsonValue)> = Vec::new();
    inner.push(
        (String::from_str("forecastday"), JsonValue::Arr(days_to_json(&m.forecast.forecastday))),
    );
    proof {
        assert(fields_view(inner@) =~~= seq![
            ("forecastday"@, JsonV::Arr(spec_days_json(m.forecast.forecastday@))),
        ]);
    }
    fields.push((String::from_str("forecast"), JsonValue::Obj(inner)));
    let r = JsonValue::Obj(fields);
    proof {
        assert(r@->Obj_0 == fields_view(fields@));
        assert(fields_view(fields@).len() == 2);
        assert forall|j: int|
            0 <= j < 2 implies fields_view(fields@)[j] == spec_forecast_weather_json(*m)->Obj_0[j] by {
            assert(fields_view(fields@)[j] == (fields@[j].0@, fields@[j].1@));
        }
        assert(fields_view(fields@) =~~= spec_forecast_weather_json(*m)->Obj_0);
        assert(r@ =~~= spec_forecast_weather_json(*m));
    }
    r
}

/// The canonical JSON text of a current-weather report.
pub fn serialize_weather(m: &Weather) -> (r: String)
    ensures
        r@ == crate::json::spec_print_json(spec_weather_json(*m)),
{
    let jv = weather_to_json(m);
    crate::json::print_json(&jv)
}

/// The canonical JSON text of a forecast report.
pub fn serialize_forecast_weather(m: &ForecastWeather) -> (r: String)
    ensures
        r@ == crate::json::spec_print_json(spec_forecast_weather_json(*m)),
{
    let jv = forecast_weather_to_json(m);
    crate::json::print_json(&jv)
}

/// The first field carrying `name` stands at `i` when no earlier field
/// carries it.
pub proof fn lemma_field_of_at(fs: Seq<(Seq<char>, JsonV)>, name: Seq<char>, i: int)
    requires
        0 <= i < fs.len(),
        fs[i].0 == name,
        forall|j: int| 0 <= j < i ==> (#[trigger] fs[j]).0 != name,
    ensures
        field_of(fs, name) == Some(fs[i].1),
    decreases i,
{
    if i == 0 {
    } else {
        assert(fs[0].0 != name);
        let rest = fs.drop_first();
        assert(rest[i - 1] == fs[i]);
        assert forall|j: int| 0 <= j < i - 1 implies (#[trigger] rest[j]).0 != name by {
            assert(rest[j] == fs[j + 1]);
        }
        lemma_field_of_at(rest, name, i - 1);
    }
}

/// The decimal text of a nonnegative integer is all digits and reads back
/// as its value.
pub proof fn lemma_nat_text_value(n: int)
    requires
        n >= 0,
    ensures
        all_digits(crate::text::spec_nat_text(n)),
        nat_val(crate::text::spec_nat_text(n)) == n,
    decreases n,
{
    let s = crate::text::spec_nat_text(n);
    if n < 10 {
        assert(crate::text::spec_digit_char(n) as u32 == 48 + n);
        assert(s.drop_last() =~= Seq::<char>::empty());
        assert(nat_val(s.drop_last()) == 0);
        assert(s.last() == crate::text::spec_digit_char(n));
        assert(nat_val(s) == nat_val(s.drop_last()) * 10 + (s.last() as u32 - 48));
        assert(is_digit(s[0]));
    } else {
        lemma_nat_text_value(n / 10);
        let head = crate::text::spec_nat_text(n / 10);
        assert(s == head + seq![crate::text::spec_digit_char(n % 10)]);
        assert(s.drop_last() =~= head);
        assert(s.last() == crate::text::spec_digit_char(n % 10));
        assert(crate::text::spec_digit_char(n % 10) as u32 == 48 + n % 10);
        assert(nat_val(s) == nat_val(head) * 10 + (s.last() as u32 - 48));
        assert(n == (n / 10) * 10 + n % 10);
        assert(is_digit(crate::text::spec_digit_char(n % 10)));
        assert forall|k: int| 0 <= k < s.len() implies is_digit(#[trigger] s[k]) by {
            if k < head.len() {
                assert(s[k] == head[k]);
            } else {
                assert(s[k] == crate::text::spec_digit_char(n % 10));
            }
        }
    }
}

/// The decimal text of an integer is an integer token and reads back as
/// its value.
pub proof fn lemma_int_text_value(n: int)
    ensures
        is_int_token(crate::text::spec_int_text(n)),
        int_val(crate::text::spec_int_text(n)) == n,
{
    let s = crate::text::spec_int_text(n);
    if n < 0 {
        lemma_nat_text_value(-n);
        let digits = crate::text::spec_nat_text(-n);
        assert(s == seq!['-'] + digits);
        assert(s[0] == '-');
        assert(s.drop_first() =~= digits);
    } else {
        lemma_nat_text_value(n);
        assert(s[0] != '-');
    }
}

/// Field-for-field equality of two WeatherCondition values.
pub open spec fn condition_view_eq(a: WeatherCondition, b: WeatherCondition) -> bool {
    &&& a.text@ == b.text@
    &&& a.icon@ == b.icon@
    &&& a.code == b.code
}

/// Encoding a well-formed WeatherCondition yields a decodable object, and any
/// value decoded from it equals the original, field for field.
pub proof fn lemma_condition_roundtrip(m: WeatherCondition, m2: WeatherCondition)
    requires
        m.wf(),
    ensures
        condition_decodable(spec_condition_json(m)),
        condition_matches(m2, spec_condition_json(m)) ==> condition_view_eq(m2, m),
{
    reveal_strlit("text");
    reveal_strlit("icon");
    reveal_strlit("code");
    assert("text"@.len() == 4);
    assert("icon"@.len() == 4);
    assert("code"@.len() == 4);
    assert("text"@[0] == 't');
    assert("icon"@[0] == 'i');
    assert("code"@[0] == 'c');
    let fs = spec_condition_json(m)->Obj_0;
    assert(fs.len() == 3);
    lemma_field_of_at(fs, "text"@, 0);
    lemma_field_of_at(fs, "icon"@, 1);
    lemma_field_of_at(fs, "code"@, 2);
    lemma_int_text_value(m.code as int);
}

/// Field-for-field equality of two WeatherLocation values.
pub open spec fn location_view_eq(a: WeatherLocation, b: WeatherLocation) -> bool {
    &&& a.name@ == b.name@
    &&& a.region@ == b.region@
    &&& a.country@ == b.country@
    &&& a.lat.text@ == b.lat.text@
    &&& a.lon.text@ == b.lon.text@
    &&& a.tz_id@ == b.tz_id@
    &&& a.localtime_epoch == b.localtime_epoch
    &&& a.localtime@ == b.localtime@
}

/// Encoding a well-formed WeatherLocation yields a decodable object, and any
/// value decoded from it equals the original, field for field.
pub proof fn lemma_location_roundtrip(m: WeatherLocation, m2: WeatherLocation)
    requires
        m.wf(),
    ensures
        location_decodable(spec_location_json(m)),
        location_matches(m2, spec_location_json(m)) ==> location_view_eq(m2, m),
{
    reveal_strlit("name");
    reveal_strlit("region");
    reveal_strlit("country");
    reveal_strlit("lat");
    reveal_strlit("lon");
    reveal_strlit("tz_id");
    reveal_strlit("localtime_epoch");
    reveal_strlit("localtime");
    assert("name"@.len() == 4);
    assert("region"@.len() == 6);
    assert("country"@.len() == 7);
    assert("lat"@.len() == 3);
    assert("lon"@.len() == 3);
    assert("tz_id"@.len() == 5);
    assert("localtime_epoch"@.len() == 15);
    assert("localtime"@.len() == 9);
    assert("lat"@[1] == 'a');
    assert("lon"@[1] == 'o');
    let fs = spec_location_json(m)->Obj_0;
    assert(fs.len() == 8);
    lemma_field_of_at(fs, "name"@, 0);
    lemma_field_of_at(fs, "region"@, 1);
    lemma_field_of_at(fs, "country"@, 2);
    lemma_field_of_at(fs, "lat"@, 3);
    lemma_field_of_at(fs, "lon"@, 4);
    lemma_field_of_at(fs, "tz_id"@, 5);
    lemma_field_of_at(fs, "localtime_epoch"@, 6);
    lemma_int_text_value(m.localtime_epoch as int);
    lemma_field_of_at(fs, "localtime"@, 7);
}

/// Field-for-field equality of two WeatherCurrent values.
pub open spec fn current_view_eq(a: WeatherCurrent, b: WeatherCurrent) -> bool {
    &&& a.last_updated_epoch == b.last_updated_epoch
    &&& a.last_updated@ == b.last_updated@
    &&& a.temp_c.text@ == b.temp_c.text@
    &&& a.temp_f.text@ == b.temp_f.text@
    &&& a.is_day == b.is_day
    &&& condition_view_eq(a.condition, b.condition)
    &&& a.wind_mph.text@ == b.wind_mph.text@
    &&& a.wind_kph.text@ == b.wind_kph.text@
    &&& a.wind_degree == b.wind_degree
    &&& a.wind_dir@ == b.wind_dir@
    &&& a.pressure_mb.text@ == b.pressure_mb.text@
    &&& a.pressure_in.text@ == b.pressure_in.text@
    &&& a.precip_mm.text@ == b.precip_mm.text@
    &&& a.precip_in.text@ == b.precip_in.text@
    &&& a.humidity == b.humidity
    &&& a.cloud == b.cloud
    &&& a.feelslike_c.text@ == b.feelslike_c.text@
    &&& a.feelslike_f.text@ == b.feelslike_f.text@
    &&& a.vis_km.text@ == b.vis_km.text@
    &&& a.vis_miles.text@ == b.vis_miles.text@
    &&& a.uv.text@ == b.uv.text@
    &&& a.gust_mph.text@ == b.gust_mph.text@
    &&& a.gust_kph.text@ == b.gust_kph.text@
}

/// Encoding a well-formed WeatherCurrent yields a decodable object, and any
/// value decoded from it equals the original, field for field.
#[verifier::rlimit(100)]
pub proof fn lemma_current_roundtrip(m: WeatherCurrent, m2: WeatherCurrent)
    requires
        m.wf(),
    ensures
        current_decodable(spec_current_json(m)),
        current_matches(m2, spec_current_json(m)) ==> current_view_eq(m2, m),
{
    reveal_strlit("last_updated_epoch");
    reveal_strlit("last_updated");
    reveal_strlit("temp_c");
    reveal_strlit("temp_f");
    reveal_strlit("is_day");
    reveal_strlit("condition");
    reveal_strlit("wind_mph");
    reveal_strlit("wind_kph");
    reveal_strlit("wind_degree");
    reveal_strlit("wind_dir");
    reveal_strlit("pressure_mb");
    reveal_strlit("pressure_in");
    reveal_strlit("precip_mm");
    reveal_strlit("precip_in");
    reveal_strlit("humidity");
    reveal_strlit("cloud");
    reveal_strlit("feelslike_c");
    reveal_strlit("feelslike_f");
    reveal_strlit("vis_km");
    reveal_strlit("vis_miles");
    reveal_strlit("uv");
    reveal_strlit("gust_mph");
    reveal_strlit("gust_kph");
    assert("last_updated_epoch"@.len() == 18);
    assert("last_updated"@.len() == 12);
    assert("temp_c"@.len() == 6);
    assert("temp_f"@.len() == 6);
    assert("is_day"@.len() == 6);
    assert("condition"@.len() == 9);
    assert("wind_mph"@.len() == 8);
    assert("wind_kph"@.len() == 8);
    assert("wind_degree"@.len() == 11);
    assert("wind_dir"@.len() == 8);
    assert("pressure_mb"@.len() == 11);
    assert("pressure_in"@.len() == 11);
    assert("precip_mm"@.len() == 9);
    assert("precip_in"@.len() == 9);
    assert("humidity"@.len() == 8);
    assert("cloud"@.len() == 5);
    assert("feelslike_c"@.len() == 11);
    assert("feelslike_f"@.len() == 11);
    assert("vis_km"@.len() == 6);
    assert("vis_miles"@.len() == 9);
    assert("uv"@.len() == 2);
    assert("gust_mph"@.len() == 8);
    assert("gust_kph"@.len() == 8);
    assert("temp_c"@[5] == 'c');
    assert("temp_f"@[5] == 'f');
    assert("temp_c"@[0] == 't');
    assert("is_day"@[0] == 'i');
    assert("vis_km"@[0] == 'v');
    assert("temp_f"@[0] == 't');
    assert("condition"@[0] == 'c');
    assert("precip_mm"@[0] == 'p');
    assert("precip_in"@[0] == 'p');
    assert("vis_miles"@[0] == 'v');
    assert("wind_mph"@[5] == 'm');
    assert("wind_kph"@[5] == 'k');
    assert("wind_dir"@[5] == 'd');
    assert("wind_mph"@[0] == 'w');
    assert("humidity"@[0] == 'h');
    assert("gust_mph"@[0] == 'g');
    assert("gust_kph"@[0] == 'g');
    assert("wind_kph"@[0] == 'w');
    assert("wind_degree"@[0] == 'w');
    assert("pressure_mb"@[0] == 'p');
    assert("pressure_in"@[0] == 'p');
    assert("feelslike_c"@[0] == 'f');
    assert("feelslike_f"@[0] == 'f');
    assert("wind_dir"@[0] == 'w');
    assert("pressure_mb"@[9] == 'm');
    assert("pressure_in"@[9] == 'i');
    assert("precip_mm"@[7] == 'm');
    assert("precip_in"@[7] == 'i');
    assert("feelslike_c"@[10] == 'c');
    assert("feelslike_f"@[10] == 'f');
    assert("gust_mph"@[5] == 'm');
    assert("gust_kph"@[5] == 'k');
    let fs = spec_current_json(m)->Obj_0;
    assert(fs.len() == 23);
    lemma_field_of_at(fs, "last_updated_epoch"@, 0);
    lemma_int_text_value(m.last_updated_epoch as int);
    lemma_field_of_at(fs, "last_updated"@, 1);
    lemma_field_of_at(fs, "temp_c"@, 2);
    lemma_field_of_at(fs, "temp_f"@, 3);
    lemma_field_of_at(fs, "is_day"@, 4);
    lemma_int_text_value(m.is_day as int);
    lemma_field_of_at(fs, "condition"@, 5);
    lemma_condition_roundtrip(m.condition, m2.condition);
    lemma_field_of_at(fs, "wind_mph"@, 6);
    lemma_field_of_at(fs, "wind_kph"@, 7);
    lemma_field_of_at(fs, "wind_degree"@, 8);
    lemma_int_text_value(m.wind_degree as int);
    lemma_field_of_at(fs, "wind_dir"@, 9);
    lemma_field_of_at(fs, "pressure_mb"@, 10);
    lemma_field_of_at(fs, "pressure_in"@, 11);
    lemma_field_of_at(fs, "precip_mm"@, 12);
    lemma_field_of_at(fs, "precip_in"@, 13);
    lemma_field_of_at(fs, "humidity"@, 14);
    lemma_int_text_value(m.humidity as int);
    lemma_field_of_at(fs, "cloud"@, 15);
    lemma_int_text_value(m.cloud as int);
    lemma_field_of_at(fs, "feelslike_c"@, 16);
    lemma_field_of_at(fs, "feelslike_f"@, 17);
    lemma_field_of_at(fs, "vis_km"@, 18);
    lemma_field_of_at(fs, "vis_miles"@, 19);
    lemma_field_of_at(fs, "uv"@, 20);
    lemma_field_of_at(fs, "gust_mph"@, 21);
    lemma_field_of_at(fs, "gust_kph"@, 22);
}

/// Field-for-field equality of two Day values.
pub open spec fn day_view_eq(a: Day, b: Day) -> bool {
    &&& a.maxtemp_c.text@ == b.maxtemp_c.text@
    &&& a.maxtemp_f.text@ == b.maxtemp_f.text@
    &&& a.mintemp_c.text@ == b.mintemp_c.text@
    &&& a.mintemp_f.text@ == b.mintemp_f.text@
    &&& a.avgtemp_c.text@ == b.avgtemp_c.text@
    &&& a.avgtemp_f.text@ == b.avgtemp_f.text@
    &&& a.maxwind_mph.text@ == b.maxwind_mph.text@
    &&& a.maxwind_kph.text@ == b.maxwind_kph.text@
    &&& a.totalprecip_mm.text@ == b.totalprecip_mm.text@
    &&& a.totalprecip_in.text@ == b.totalprecip_in.text@
    &&& a.totalsnow_cm.text@ == b.totalsnow_cm.text@
    &&& a.avgvis_km.text@ == b.avgvis_km.text@
    &&& a.avgvis_miles.text@ == b.avgvis_miles.text@
    &&& a.avghumidity == b.avghumidity
    &&& a.daily_will_it_rain == b.daily_will_it_rain
    &&& a.daily_chance_of_rain == b.daily_chance_of_rain
    &&& a.daily_will_it_snow == b.daily_will_it_snow
    &&& a.daily_chance_of_snow == b.daily_chance_of_snow
    &&& condition_view_eq(a.condition, b.condition)
    &&& a.uv.text@ == b.uv.text@
}

/// Encoding a well-formed Day yields a decodable object, and any
/// value decoded from it equals the original, field for field.
#[verifier::rlimit(100)]
pub proof fn lemma_day_roundtrip(m: Day, m2: Day)
    requires
        m.wf(),
    ensures
        day_decodable(spec_day_json(m)),
        day_matches(m2, spec_day_json(m)) ==> day_view_eq(m2, m),
{
    reveal_strlit("maxtemp_c");
    reveal_strlit("maxtemp_f");
    reveal_strlit("mintemp_c");
    reveal_strlit("mintemp_f");
    reveal_strlit("avgtemp_c");
    reveal_strlit("avgtemp_f");
    reveal_strlit("maxwind_mph");
    reveal_strlit("maxwind_kph");
    reveal_strlit("totalprecip_mm");
    reveal_strlit("totalprecip_in");
    reveal_strlit("totalsnow_cm");
    reveal_strlit("avgvis_km");
    reveal_strlit("avgvis_miles");
    reveal_strlit("avghumidity");
    reveal_strlit("daily_will_it_rain");
    reveal_strlit("daily_chance_of_rain");
    reveal_strlit("daily_will_it_snow");
    reveal_strlit("daily_chance_of_snow");
    reveal_strlit("condition");
    reveal_strlit("uv");
    assert("maxtemp_c"@.len() == 9);
    assert("maxtemp_f"@.len() == 9);
    assert("mintemp_c"@.len() == 9);
    assert("mintemp_f"@.len() == 9);
    assert("avgtemp_c"@.len() == 9);
    assert("avgtemp_f"@.len() == 9);
    assert("maxwind_mph"@.len() == 11);
    assert("maxwind_kph"@.len() == 11);
    assert("totalprecip_mm"@.len() == 14);
    assert("totalprecip_in"@.len() == 14);
    assert("totalsnow_cm"@.len() == 12);
    assert("avgvis_km"@.len() == 9);
    assert("avgvis_miles"@.len() == 12);
    assert("avghumidity"@.len() == 11);
    assert("daily_will_it_rain"@.len() == 18);
    assert("daily_chance_of_rain"@.len() == 20);
    assert("daily_will_it_snow"@.len() == 18);
    assert("daily_chance_of_snow"@.len() == 20);
    assert("condition"@.len() == 9);
    assert("uv"@.len() == 2);
    assert("maxtemp_c"@[8] == 'c');
    assert("maxtemp_f"@[8] == 'f');
    assert("maxtemp_c"@[1] == 'a');
    assert("mintemp_c"@[1] == 'i');
    assert("mintemp_f"@[1] == 'i');
    assert("maxtemp_c"@[0] == 'm');
    assert("avgtemp_c"@[0] == 'a');
    assert("avgtemp_f"@[0] == 'a');
    assert("avgvis_km"@[0] == 'a');
    assert("condition"@[0] == 'c');
    assert("maxtemp_f"@[1] == 'a');
    assert("maxtemp_f"@[0] == 'm');
    assert("mintemp_c"@[8] == 'c');
    assert("mintemp_f"@[8] == 'f');
    assert("mintemp_c"@[0] == 'm');
    assert("mintemp_f"@[0] == 'm');
    assert("avgtemp_c"@[8] == 'c');
    assert("avgtemp_f"@[8] == 'f');
    assert("avgtemp_c"@[3] == 't');
    assert("avgvis_km"@[3] == 'v');
    assert("avgtemp_f"@[3] == 't');
    assert("maxwind_mph"@[8] == 'm');
    assert("maxwind_kph"@[8] == 'k');
    assert("maxwind_mph"@[0] == 'm');
    assert("avghumidity"@[0] == 'a');
    assert("maxwind_kph"@[0] == 'm');
    assert("totalprecip_mm"@[12] == 'm');
    assert("totalprecip_in"@[12] == 'i');
    assert("totalsnow_cm"@[0] == 't');
    assert("avgvis_miles"@[0] == 'a');
    assert("daily_will_it_rain"@[14] == 'r');
    assert("daily_will_it_snow"@[14] == 's');
    assert("daily_chance_of_rain"@[16] == 'r');
    assert("daily_chance_of_snow"@[16] == 's');
    let fs = spec_day_json(m)->Obj_0;
    assert(fs.len() == 20);
    lemma_field_of_at(fs, "maxtemp_c"@, 0);
    lemma_field_of_at(fs, "maxtemp_f"@, 1);
    lemma_field_of_at(fs, "mintemp_c"@, 2);
    lemma_field_of_at(fs, "mintemp_f"@, 3);
    lemma_field_of_at(fs, "avgtemp_c"@, 4);
    lemma_field_of_at(fs, "avgtemp_f"@, 5);
    lemma_field_of_at(fs, "maxwind_mph"@, 6);
    lemma_field_of_at(fs, "maxwind_kph"@, 7);
    lemma_field_of_at(fs, "totalprecip_mm"@, 8);
    lemma_field_of_at(fs, "totalprecip_in"@, 9);
    lemma_field_of_at(fs, "totalsnow_cm"@, 10);
    lemma_field_of_at(fs, "avgvis_km"@, 11);
    lemma_field_of_at(fs, "avgvis_miles"@, 12);
    lemma_field_of_at(fs, "avghumidity"@, 13);
    lemma_int_text_value(m.avghumidity as int);
    lemma_field_of_at(fs, "daily_will_it_rain"@, 14);
    lemma_int_text_value(m.daily_will_it_rain as int);
    lemma_field_of_at(fs, "daily_chance_of_rain"@, 15);
    lemma_int_text_value(m.daily_chance_of_rain as int);
    lemma_field_of_at(fs, "daily_will_it_snow"@, 16);
    lemma_int_text_value(m.daily_will_it_snow as int);
    lemma_field_of_at(fs, "daily_chance_of_snow"@, 17);
    lemma_int_text_value(m.daily_chance_of_snow as int);
    lemma_field_of_at(fs, "condition"@, 18);
    lemma_condition_roundtrip(m.condition, m2.condition);
    lemma_field_of_at(fs, "uv"@, 19);
}

/// Field-for-field equality of two Astro values.
pub open spec fn astro_view_eq(a: Astro, b: Astro) -> bool {
    &&& a.sunrise@ == b.sunrise@
    &&& a.sunset@ == b.sunset@
    &&& a.moonrise@ == b.moonrise@
    &&& a.moonset@ == b.moonset@
    &&& a.moon_phase@ == b.moon_phase@
    &&& a.moon_illumination.text@ == b.moon_illumination.text@
    &&& a.is_moon_up == b.is_moon_up
    &&& a.is_sun_up == b.is_sun_up
}

/// Encoding a well-formed Astro yields a decodable object, and any
/// value decoded from it equals the original, field for field.
pub proof fn lemma_astro_roundtrip(m: Astro, m2: Astro)
    requires
        m.wf(),
    ensures
        astro_decodable(spec_astro_json(m)),
        astro_matches(m2, spec_astro_json(m)) ==> astro_view_eq(m2, m),
{
    reveal_strlit("sunrise");
    reveal_strlit("sunset");
    reveal_strlit("moonrise");
    reveal_strlit("moonset");
    reveal_strlit("moon_phase");
    reveal_strlit("moon_illumination");
    reveal_strlit("is_moon_up");
    reveal_strlit("is_sun_up");
    assert("sunrise"@.len() == 7);
    assert("sunset"@.len() == 6);
    assert("moonrise"@.len() == 8);
    assert("moonset"@.len() == 7);
    assert("moon_phase"@.len() == 10);
    assert("moon_illumination"@.len() == 17);
    assert("is_moon_up"@.len() == 10);
    assert("is_sun_up"@.len() == 9);
    assert("sunrise"@[0] == 's');
    assert("moonset"@[0] == 'm');
    assert("moon_phase"@[0] == 'm');
    assert("is_moon_up"@[0] == 'i');
    let fs = spec_astro_json(m)->Obj_0;
    assert(fs.len() == 8);
    lemma_field_of_at(fs, "sunrise"@, 0);
    lemma_field_of_at(fs, "sunset"@, 1);
    lemma_field_of_at(fs, "moonrise"@, 2);
    lemma_field_of_at(fs, "moonset"@, 3);
    lemma_field_of_at(fs, "moon_phase"@, 4);
    lemma_field_of_at(fs, "moon_illumination"@, 5);
    lemma_field_of_at(fs, "is_moon_up"@, 6);
    lemma_int_text_value(m.is_moon_up as int);
    lemma_field_of_at(fs, "is_sun_up"@, 7);
    lemma_int_text_value(m.is_sun_up as int);
}

/// Field-for-field equality of two Hour values.
pub open spec fn hour_view_eq(a: Hour, b: Hour) -> bool {
    &&& a.time@ == b.time@
    &&& a.temp_c.text@ == b.temp_c.text@
    &&& a.temp_f.text@ == b.temp_f.text@
    &&& a.is_day == b.is_day
    &&& condition_view_eq(a.condition, b.condition)
    &&& a.wind_mph.text@ == b.wind_mph.text@
    &&& a.wind_kph.text@ == b.wind_kph.text@
    &&& a.wind_degree == b.wind_degree
    &&& a.wind_dir@ == b.wind_dir@
    &&& a.pressure_mb.text@ == b.pressure_mb.text@
    &&& a.pressure_in.text@ == b.pressure_in.text@
    &&& a.precip_mm.text@ == b.precip_mm.text@
    &&& a.precip_in.text@ == b.precip_in.text@
    &&& a.snow_cm.text@ == b.snow_cm.text@
    &&& a.humidity == b.humidity
    &&& a.cloud == b.cloud
    &&& a.feelslike_c.text@ == b.feelslike_c.text@
    &&& a.feelslike_f.text@ == b.feelslike_f.text@
    &&& a.windchill_c.text@ == b.windchill_c.text@
    &&& a.windchill_f.text@ == b.windchill_f.text@
    &&& a.heatindex_c.text@ == b.heatindex_c.text@
    &&& a.heatindex_f.text@ == b.heatindex_f.text@
    &&& a.dewpoint_c.text@ == b.dewpoint_c.text@
    &&& a.dewpoint_f.text@ == b.dewpoint_f.text@
    &&& a.will_it_rain == b.will_it_rain
    &&& a.chance_of_rain == b.chance_of_rain
    &&& a.will_it_snow == b.will_it_snow
    &&& a.chance_of_snow == b.chance_of_snow
    &&& a.vis_km.text@ == b.vis_km.text@
    &&& a.vis_miles.text@ == b.vis_miles.text@
    &&& a.gust_mph.text@ == b.gust_mph.text@
    &&& a.gust_kph.text@ == b.gust_kph.text@
    &&& a.uv.text@ == b.uv.text@
}

/// Encoding a well-formed Hour yields a decodable object, and any
/// value decoded from it equals the original, field for field.
#[verifier::rlimit(100)]
pub proof fn lemma_hour_roundtrip(m: Hour, m2: Hour)
    requires
        m.wf(),
    ensures
        hour_decodable(spec_hour_json(m)),
        hour_matches(m2, spec_hour_json(m)) ==> hour_view_eq(m2, m),
{
    reveal_strlit("time");
    reveal_strlit("temp_c");
    reveal_strlit("temp_f");
    reveal_strlit("is_day");
    reveal_strlit("condition");
    reveal_strlit("wind_mph");
    reveal_strlit("wind_kph");
    reveal_strlit("wind_degree");
    reveal_strlit("wind_dir");
    reveal_strlit("pressure_mb");
    reveal_strlit("pressure_in");
    reveal_strlit("precip_mm");
    reveal_strlit("precip_in");
    reveal_strlit("snow_cm");
    reveal_strlit("humidity");
    reveal_strlit("cloud");
    reveal_strlit("feelslike_c");
    reveal_strlit("feelslike_f");
    reveal_strlit("windchill_c");
    reveal_strlit("windchill_f");
    reveal_strlit("heatindex_c");
    reveal_strlit("heatindex_f");
    reveal_strlit("dewpoint_c");
    reveal_strlit("dewpoint_f");
    reveal_strlit("will_it_rain");
    reveal_strlit("chance_of_rain");
    reveal_strlit("will_it_snow");
    reveal_strlit("chance_of_snow");
    reveal_strlit("vis_km");
    reveal_strlit("vis_miles");
    reveal_strlit("gust_mph");
    reveal_strlit("gust_kph");
    reveal_strlit("uv");
    assert("time"@.len() == 4);
    assert("temp_c"@.len() == 6);
    assert("temp_f"@.len() == 6);
    assert("is_day"@.len() == 6);
    assert("condition"@.len() == 9);
    assert("wind_mph"@.len() == 8);
    assert("wind_kph"@.len() == 8);
    assert("wind_degree"@.len() == 11);
    assert("wind_dir"@.len() == 8);
    assert("pressure_mb"@.len() == 11);
    assert("pressure_in"@.len() == 11);
    assert("precip_mm"@.len() == 9);
    assert("precip_in"@.len() == 9);
    assert("snow_cm"@.len() == 7);
    assert("humidity"@.len() == 8);
    assert("cloud"@.len() == 5);
    assert("feelslike_c"@.len() == 11);
    assert("feelslike_f"@.len() == 11);
    assert("windchill_c"@.len() == 11);
    assert("windchill_f"@.len() == 11);
    assert("heatindex_c"@.len() == 11);
    assert("heatindex_f"@.len() == 11);
    assert("dewpoint_c"@.len() == 10);
    assert("dewpoint_f"@.len() == 10);
    assert("will_it_rain"@.len() == 12);
    assert("chance_of_rain"@.len() == 14);
    assert("will_it_snow"@.len() == 12);
    assert("chance_of_snow"@.len() == 14);
    assert("vis_km"@.len() == 6);
    assert("vis_miles"@.len() == 9);
    assert("gust_mph"@.len() == 8);
    assert("gust_kph"@.len() == 8);
    assert("uv"@.len() == 2);
    assert("temp_c"@[5] == 'c');
    assert("temp_f"@[5] == 'f');
    assert("temp_c"@[0] == 't');
    assert("is_day"@[0] == 'i');
    assert("vis_km"@[0] == 'v');
    assert("temp_f"@[0] == 't');
    assert("condition"@[0] == 'c');
    assert("precip_mm"@[0] == 'p');
    assert("precip_in"@[0] == 'p');
    assert("vis_miles"@[0] == 'v');
    assert("wind_mph"@[5] == 'm');
    assert("wind_kph"@[5] == 'k');
    assert("wind_dir"@[5] == 'd');
    assert("wind_mph"@[0] == 'w');
    assert("humidity"@[0] == 'h');
    assert("gust_mph"@[0] == 'g');
    assert("gust_kph"@[0] == 'g');
    assert("wind_kph"@[0] == 'w');
    assert("wind_degree"@[0] == 'w');
    assert("pressure_mb"@[0] == 'p');
    assert("pressure_in"@[0] == 'p');
    assert("feelslike_c"@[0] == 'f');
    assert("feelslike_f"@[0] == 'f');
    assert("wind_degree"@[4] == '_');
    assert("windchill_c"@[4] == 'c');
    assert("windchill_f"@[4] == 'c');
    assert("heatindex_c"@[0] == 'h');
    assert("heatindex_f"@[0] == 'h');
    assert("wind_dir"@[0] == 'w');
    assert("pressure_mb"@[9] == 'm');
    assert("pressure_in"@[9] == 'i');
    assert("windchill_c"@[0] == 'w');
    assert("windchill_f"@[0] == 'w');
    assert("precip_mm"@[7] == 'm');
    assert("precip_in"@[7] == 'i');
    assert("feelslike_c"@[10] == 'c');
    assert("feelslike_f"@[10] == 'f');
    assert("windchill_c"@[10] == 'c');
    assert("windchill_f"@[10] == 'f');
    assert("heatindex_c"@[10] == 'c');
    assert("heatindex_f"@[10] == 'f');
    assert("dewpoint_c"@[9] == 'c');
    assert("dewpoint_f"@[9] == 'f');
    assert("will_it_rain"@[8] == 'r');
    assert("will_it_snow"@[8] == 's');
    assert("chance_of_rain"@[10] == 'r');
    assert("chance_of_snow"@[10] == 's');
    assert("gust_mph"@[5] == 'm');
    assert("gust_kph"@[5] == 'k');
    let fs = spec_hour_json(m)->Obj_0;
    assert(fs.len() == 33);
    lemma_field_of_at(fs, "time"@, 0);
    lemma_field_of_at(fs, "temp_c"@, 1);
    lemma_field_of_at(fs, "temp_f"@, 2);
    lemma_field_of_at(fs, "is_day"@, 3);
    lemma_int_text_value(m.is_day as int);
    lemma_field_of_at(fs, "condition"@, 4);
    lemma_condition_roundtrip(m.condition, m2.condition);
    lemma_field_of_at(fs, "wind_mph"@, 5);
    lemma_field_of_at(fs, "wind_kph"@, 6);
    lemma_field_of_at(fs, "wind_degree"@, 7);
    lemma_int_text_value(m.wind_degree as int);
    lemma_field_of_at(fs, "wind_dir"@, 8);
    lemma_field_of_at(fs, "pressure_mb"@, 9);
    lemma_field_of_at(fs, "pressure_in"@, 10);
    lemma_field_of_at(fs, "precip_mm"@, 11);
    lemma_field_of_at(fs, "precip_in"@, 12);
    lemma_field_of_at(fs, "snow_cm"@, 13);
    lemma_field_of_at(fs, "humidity"@, 14);
    lemma_int_text_value(m.humidity as int);
    lemma_field_of_at(fs, "cloud"@, 15);
    lemma_int_text_value(m.cloud as int);
    lemma_field_of_at(fs, "feelslike_c"@, 16);
    lemma_field_of_at(fs, "feelslike_f"@, 17);
    lemma_field_of_at(fs, "windchill_c"@, 18);
    lemma_field_of_at(fs, "windchill_f"@, 19);
    lemma_field_of_at(fs, "heatindex_c"@, 20);
    lemma_field_of_at(fs, "heatindex_f"@, 21);
    lemma_field_of_at(fs, "dewpoint_c"@, 22);
    lemma_field_of_at(fs, "dewpoint_f"@, 23);
    lemma_field_of_at(fs, "will_it_rain"@, 24);
    lemma_int_text_value(m.will_it_rain as int);
    lemma_field_of_at(fs, "chance_of_rain"@, 25);
    lemma_int_text_value(m.chance_of_rain as int);
    lemma_field_of_at(fs, "will_it_snow"@, 26);
    lemma_int_text_value(m.will_it_snow as int);
    lemma_field_of_at(fs, "chance_of_snow"@, 27);
    lemma_int_text_value(m.chance_of_snow as int);
    lemma_field_of_at(fs, "vis_km"@, 28);
    lemma_field_of_at(fs, "vis_miles"@, 29);
    lemma_field_of_at(fs, "gust_mph"@, 30);
    lemma_field_of_at(fs, "gust_kph"@, 31);
    lemma_field_of_at(fs, "uv"@, 32);
}

/// Field-for-field equality of two forecast days.
pub open spec fn forecastday_view_eq(a: ForecastDay, b: ForecastDay) -> bool {
    &&& a.date@ == b.date@
    &&& day_view_eq(a.day, b.day)
    &&& astro_view_eq(a.astro, b.astro)
    &&& a.hour@.len() == b.hour@.len()
    &&& forall|k: int| 0 <= k < a.hour@.len() ==> hour_view_eq(#[trigger] a.hour@[k], b.hour@[k])
}

/// Encoding a well-formed forecast day yields a decodable object, and any
/// value decoded from it equals the original, field for field.
pub proof fn lemma_forecastday_roundtrip(m: ForecastDay, m2: ForecastDay)
    requires
        m.wf(),
    ensures
        forecastday_decodable(spec_forecastday_json(m)),
        forecastday_matches(m2, spec_forecastday_json(m)) ==> forecastday_view_eq(m2, m),
{
    reveal_strlit("date");
    reveal_strlit("day");
    reveal_strlit("astro");
    reveal_strlit("hour");
    assert("date"@.len() == 4);
    assert("day"@.len() == 3);
    assert("astro"@.len() == 5);
    assert("hour"@.len() == 4);
    assert("date"@[0] == 'd');
    assert("hour"@[0] == 'h');
    let fs = spec_forecastday_json(m)->Obj_0;
    assert(fs.len() == 4);
    lemma_field_of_at(fs, "date"@, 0);
    lemma_field_of_at(fs, "day"@, 1);
    lemma_field_of_at(fs, "astro"@, 2);
    lemma_field_of_at(fs, "hour"@, 3);
    lemma_day_roundtrip(m.day, m2.day);
    lemma_astro_roundtrip(m.astro, m2.astro);
    let hv = spec_hours_json(m.hour@);
    assert forall|k: int| 0 <= k < hv.len() implies hour_decodable(#[trigger] hv[k]) by {
        assert(hv[k] == spec_hour_json(m.hour@[k]));
        assert(m.hour@[k].wf());
        lemma_hour_roundtrip(m.hour@[k], m.hour@[k]);
    }
    if forecastday_matches(m2, spec_forecastday_json(m)) {
        assert(hours_match(m2.hour@, hv));
        assert forall|k: int|
            0 <= k < m.hour@.len() implies hour_view_eq(#[trigger] m2.hour@[k], m.hour@[k]) by {
            assert(hour_matches(m2.hour@[k], hv[k]));
            assert(hv[k] == spec_hour_json(m.hour@[k]));
            assert(m.hour@[k].wf());
            lemma_hour_roundtrip(m.hour@[k], m2.hour@[k]);
        }
    }
}

/// Encoding a list of well-formed forecast days yields a decodable array,
/// and any list decoded from it equals the original, day for day.
pub proof fn lemma_days_roundtrip(ds: Seq<ForecastDay>, ds2: Seq<ForecastDay>)
    requires
        forall|k: int| 0 <= k < ds.len() ==> (#[trigger] ds[k]).wf(),
    ensures
        days_decodable(spec_days_json(ds)),
        days_match(ds2, spec_days_json(ds)) ==> (ds2.len() == ds.len() && forall|k: int|
            0 <= k < ds.len() ==> forecastday_view_eq(#[trigger] ds2[k], ds[k])),
{
    let dv = spec_days_json(ds);
    assert forall|k: int| 0 <= k < dv.len() implies forecastday_decodable(#[trigger] dv[k]) by {
        assert(dv[k] == spec_forecastday_json(ds[k]));
        lemma_forecastday_roundtrip(ds[k], ds[k]);
    }
    if days_match(ds2, dv) {
        assert forall|k: int|
            0 <= k < ds.len() implies forecastday_view_eq(#[trigger] ds2[k], ds[k]) by {
            assert(forecastday_matches(ds2[k], dv[k]));
            assert(dv[k] == spec_forecastday_json(ds[k]));
            lemma_forecastday_roundtrip(ds[k], ds2[k]);
        }
    }
}

/// Field-for-field equality of two current-weather reports.
pub open spec fn weather_view_eq(a: Weather, b: Weather) -> bool {
    &&& location_view_eq(a.location, b.location)
    &&& current_view_eq(a.current, b.current)
}

/// Serializing a well-formed current-weather report to a JSON value and
/// decoding it back yields an identical instance, field for field.
pub proof fn lemma_weather_roundtrip(m: Weather, m2: Weather)
    requires
        m.wf(),
    ensures
        weather_decodable(spec_weather_json(m)),
        weather_matches(m2, spec_weather_json(m)) ==> weather_view_eq(m2, m),
{
    reveal_strlit("location");
    reveal_strlit("current");
    assert("location"@.len() == 8);
    assert("current"@.len() == 7);
    let fs = spec_weather_json(m)->Obj_0;
    assert(fs.len() == 2);
    lemma_field_of_at(fs, "location"@, 0);
    lemma_field_of_at(fs, "current"@, 1);
    lemma_location_roundtrip(m.location, m2.location);
    lemma_current_roundtrip(m.current, m2.current);
}

/// Field-for-field equality of two forecast reports.
pub open spec fn forecast_weather_view_eq(a: ForecastWeather, b: ForecastWeather) -> bool {
    &&& location_view_eq(a.location, b.location)
    &&& a.forecast.forecastday@.len() == b.forecast.forecastday@.len()
    &&& forall|k: int|
        0 <= k < a.forecast.forecastday@.len() ==> forecastday_view_eq(
            #[trigger] a.forecast.forecastday@[k],
            b.forecast.forecastday@[k],
        )
}

/// Serializing a well-formed forecast report to a JSON value and decoding
/// it back yields an identical instance, field for field.
pub proof fn lemma_forecast_weather_roundtrip(m: ForecastWeather, m2: ForecastWeather)
    requires
        m.wf(),
    ensures
        forecast_weather_decodable(spec_forecast_weather_json(m)),
        forecast_weather_matches(m2, spec_forecast_weather_json(m))
            ==> forecast_weather_view_eq(m2, m),
{
    reveal_strlit("location");
    reveal_strlit("forecast");
    reveal_strlit("forecastday");
    assert("location"@.len() == 8);
    assert("forecast"@.len() == 8);
    assert("forecastday"@.len() == 11);
    assert("location"@[0] == 'l');
    assert("forecast"@[0] == 'f');
    let fs = spec_forecast_weather_json(m)->Obj_0;
    assert(fs.len() == 2);
    lemma_field_of_at(fs, "location"@, 0);
    lemma_field_of_at(fs, "forecast"@, 1);
    let inner = fs[1].1->Obj_0;
    assert(inner.len() == 1);
    lemma_field_of_at(inner, "forecastday"@, 0);
    lemma_location_roundtrip(m.location, m2.location);
    lemma_days_roundtrip(m.forecast.forecastday@, m2.forecast.forecastday@);
}

/// The decimal text of a nonzero magnitude never starts with a zero digit.
proof fn lemma_nat_text_first(n: int)
    requires
        n >= 1,
    ensures
        crate::text::spec_nat_text(n)[0] != '0',
    decreases n,
{
    if n < 10 {
        assert(crate::text::spec_digit_char(n) as u32 == 48 + n);
        assert('0' as u32 == 48);
    } else {
        lemma_nat_text_first(n / 10);
        let head = crate::text::spec_nat_text(n / 10);
        assert(crate::text::spec_nat_text(n)[0] == head[0]);
    }
}

/// A scan over digits only ends at the end.
proof fn lemma_digits_end_all(s: Seq<char>, j: int)
    requires
        0 <= j <= s.len(),
        forall|k: int| j <= k < s.len() ==> is_digit(#[trigger] s[k]),
    ensures
        digits_end(s, j) == s.len(),
    decreases s.len() - j,
{
    if j < s.len() {
        lemma_digits_end_all(s, j + 1);
    }
}

/// The decimal text of any integer is a well-formed number text.
pub proof fn lemma_int_text_is_number(n: int)
    ensures
        is_number_text(crate::text::spec_int_text(n)),
{
    let s = crate::text::spec_int_text(n);
    let m = if n < 0 {
        -n
    } else {
        n
    };
    lemma_nat_text_value(m);
    let digits = crate::text::spec_nat_text(m);
    let start: int = if n < 0 {
        1
    } else {
        0
    };
    if n < 0 {
        assert(s == seq!['-'] + digits);
        assert(s[0] == '-');
        assert(s.drop_first() =~= digits);
        assert forall|k: int| 1 <= k < s.len() implies is_digit(#[trigger] s[k]) by {
            assert(s[k] == digits[k - 1]);
        }
    } else {
        assert(s == digits);
        assert(s[0] == digits[0]);
        assert(is_digit(s[0]));
        assert(s[0] != '-') by {
            assert('0' as u32 <= s[0] as u32 <= '9' as u32);
        }
    }
    assert(s[start] == digits[0]);
    assert(is_digit(s[start]));
    let e1 = crate::model::int_part_end(s, start);
    if m == 0 {
        assert(digits =~= seq![crate::text::spec_digit_char(0)]);
        assert(crate::text::spec_digit_char(0) as u32 == 48);
        assert(s[start] == '0');
        assert(e1 == start + 1);
        assert(e1 == s.len());
    } else {
        lemma_nat_text_first(m);
        assert(s[start] != '0');
        assert forall|k: int| start <= k < s.len() implies is_digit(#[trigger] s[k]) by {
            assert(s[k] == digits[k - start]);
        }
        lemma_digits_end_all(s, start);
        assert(e1 == s.len());
    }
    assert(crate::model::frac_part_end(s, s.len() as int) == s.len());
    assert(crate::model::exp_part_end(s, s.len() as int) == s.len());
}

/// The JSON form of a well-formed WeatherCondition is a well-formed value.
pub proof fn lemma_condition_json_wf(m: WeatherCondition)
    requires
        m.wf(),
    ensures
        crate::json::json_wf(spec_condition_json(m)),
{
    let fs = spec_condition_json(m)->Obj_0;
    assert(fs.len() == 3);
    lemma_int_text_is_number(m.code as int);
    assert(crate::json::json_wf(fs[0].1));
    assert(crate::json::json_wf(fs[1].1));
    assert(crate::json::json_wf(fs[2].1));
    assert forall|j: int| 0 <= j < fs.len() implies crate::json::json_wf(#[trigger] fs[j].1) by {}
}

/// The JSON form of a well-formed WeatherLocation is a well-formed value.
pub proof fn lemma_location_json_wf(m: WeatherLocation)
    requires
        m.wf(),
    ensures
        crate::json::json_wf(spec_location_json(m)),
{
    let fs = spec_location_json(m)->Obj_0;
    assert(fs.len() == 8);
    lemma_int_text_is_number(m.localtime_epoch as int);
    assert(crate::json::json_wf(fs[0].1));
    assert(crate::json::json_wf(fs[1].1));
    assert(crate::json::json_wf(fs[2].1));
    assert(crate::json::json_wf(fs[3].1));
    assert(crate::json::json_wf(fs[4].1));
    assert(crate::json::json_wf(fs[5].1));
    assert(crate::json::json_wf(fs[6].1));
    assert(crate::json::json_wf(fs[7].1));
    assert forall|j: int| 0 <= j < fs.len() implies crate::json::json_wf(#[trigger] fs[j].1) by {}
}

/// The JSON form of a well-formed WeatherCurrent is a well-formed value.
pub proof fn lemma_current_json_wf(m: WeatherCurrent)
    requires
        m.wf(),
    ensures
        crate::json::json_wf(spec_current_json(m)),
{
    let fs = spec_current_json(m)->Obj_0;
    assert(fs.len() == 23);
    lemma_int_text_is_number(m.last_updated_epoch as int);
    lemma_int_text_is_number(m.is_day as int);
    lemma_condition_json_wf(m.condition);
    lemma_int_text_is_number(m.wind_degree as int);
    lemma_int_text_is_number(m.humidity as int);
    lemma_int_text_is_number(m.cloud as int);
    assert(crate::json::json_wf(fs[0].1));
    assert(crate::json::json_wf(fs[1].1));
    assert(crate::json::json_wf(fs[2].1));
    assert(crate::json::json_wf(fs[3].1));
    assert(crate::json::json_wf(fs[4].1));
    assert(crate::json::json_wf(fs[5].1));
    assert(crate::json::json_wf(fs[6].1));
    assert(crate::json::json_wf(fs[7].1));
    assert(crate::json::json_wf(fs[8].1));
    assert(crate::json::json_wf(fs[9].1));
    assert(crate::json::json_wf(fs[10].1));
    assert(crate::json::json_wf(fs[11].1));
    assert(crate::json::json_wf(fs[12].1));
    assert(crate::json::json_wf(fs[13].1));
    assert(crate::json::json_wf(fs[14].1));
    assert(crate::json::json_wf(fs[15].1));
    assert(crate::json::json_wf(fs[16].1));
    assert(crate::json::json_wf(fs[17].1));
    assert(crate::json::json_wf(fs[18].1));
    assert(crate::json::json_wf(fs[19].1));
    assert(crate::json::json_wf(fs[20].1));
    assert(crate::json::json_wf(fs[21].1));
    assert(crate::json::json_wf(fs[22].1));
    assert forall|j: int| 0 <= j < fs.len() implies crate::json::json_wf(#[trigger] fs[j].1) by {}
}

/// The JSON form of a well-formed Day is a well-formed value.
pub proof fn lemma_day_json_wf(m: Day)
    requires
        m.wf(),
    ensures
        crate::json::json_wf(spec_day_json(m)),
{
    let fs = spec_day_json(m)->Obj_0;
    assert(fs.len() == 20);
    lemma_int_text_is_number(m.avghumidity as int);
    lemma_int_text_is_number(m.daily_will_it_rain as int);
    lemma_int_text_is_number(m.daily_chance_of_rain as int);
    lemma_int_text_is_number(m.daily_will_it_snow as int);
    lemma_int_text_is_number(m.daily_chance_of_snow as int);
    lemma_condition_json_wf(m.condition);
    assert(crate::json::json_wf(fs[0].1));
    assert(crate::json::json_wf(fs[1].1));
    assert(crate::json::json_wf(fs[2].1));
    assert(crate::json::json_wf(fs[3].1));
    assert(crate::json::json_wf(fs[4].1));
    assert(crate::json::json_wf(fs[5].1));
    assert(crate::json::json_wf(fs[6].1));
    assert(crate::json::json_wf(fs[7].1));
    assert(crate::json::json_wf(fs[8].1));
    assert(crate::json::json_wf(fs[9].1));
    assert(crate::json::json_wf(fs[10].1));
    assert(crate::json::json_wf(fs[11].1));
    assert(crate::json::json_wf(fs[12].1));
    assert(crate::json::json_wf(fs[13].1));
    assert(crate::json::json_wf(fs[14].1));
    assert(crate::json::json_wf(fs[15].1));
    assert(crate::json::json_wf(fs[16].1));
    assert(crate::json::json_wf(fs[17].1));
    assert(crate::json::json_wf(fs[18].1));
    assert(crate::json::json_wf(fs[19].1));
    assert forall|j: int| 0 <= j < fs.len() implies crate::json::json_wf(#[trigger] fs[j].1) by {}
}

/// The JSON form of a well-formed Astro is a well-formed value.
pub proof fn lemma_astro_json_wf(m: Astro)
    requires
        m.wf(),
    ensures
        crate::json::json_wf(spec_astro_json(m)),
{
    let fs = spec_astro_json(m)->Obj_0;
    assert(fs.len() == 8);
    lemma_int_text_is_number(m.is_moon_up as int);
    lemma_int_text_is_number(m.is_sun_up as int);
    assert(crate::json::json_wf(fs[0].1));
    assert(crate::json::json_wf(fs[1].1));
    assert(crate::json::json_wf(fs[2].1));
    assert(crate::json::json_wf(fs[3].1));
    assert(crate::json::json_wf(fs[4].1));
    assert(crate::json::json_wf(fs[5].1));
    assert(crate::json::json_wf(fs[6].1));
    assert(crate::json::json_wf(fs[7].1));
    assert forall|j: int| 0 <= j < fs.len() implies crate::json::json_wf(#[trigger] fs[j].1) by {}
}

/// The JSON form of a well-formed Hour is a well-formed value.
pub proof fn lemma_hour_json_wf(m: Hour)
    requires
        m.wf(),
    ensures
        crate::json::json_wf(spec_hour_json(m)),
{
    let fs = spec_hour_json(m)->Obj_0;
    assert(fs.len() == 33);
    lemma_int_text_is_number(m.is_day as int);
    lemma_condition_json_wf(m.condition);
    lemma_int_text_is_number(m.wind_degree as int);
    lemma_int_text_is_number(m.humidity as int);
    lemma_int_text_is_number(m.cloud as int);
    lemma_int_text_is_number(m.will_it_rain as int);
    lemma_int_text_is_number(m.chance_of_rain as int);
    lemma_int_text_is_number(m.will_it_snow as int);
    lemma_int_text_is_number(m.chance_of_snow as int);
    assert(crate::json::json_wf(fs[0].1));
    assert(crate::json::json_wf(fs[1].1));
    assert(crate::json::json_wf(fs[2].1));
    assert(crate::json::json_wf(fs[3].1));
    assert(crate::json::json_wf(fs[4].1));
    assert(crate::json::json_wf(fs[5].1));
    assert(crate::json::json_wf(fs[6].1));
    assert(crate::json::json_wf(fs[7].1));
    assert(crate::json::json_wf(fs[8].1));
    assert(crate::json::json_wf(fs[9].1));
    assert(crate::json::json_wf(fs[10].1));
    assert(crate::json::json_wf(fs[11].1));
    assert(crate::json::json_wf(fs[12].1));
    assert(crate::json::json_wf(fs[13].1));
    assert(crate::json::json_wf(fs[14].1));
    assert(crate::json::json_wf(fs[15].1));
    assert(crate::json::json_wf(fs[16].1));
    assert(crate::json::json_wf(fs[17].1));
    assert(crate::json::json_wf(fs[18].1));
    assert(crate::json::json_wf(fs[19].1));
    assert(crate::json::json_wf(fs[20].1));
    assert(crate::json::json_wf(fs[21].1));
    assert(crate::json::json_wf(fs[22].1));
    assert(crate::json::json_wf(fs[23].1));
    assert(crate::json::json_wf(fs[24].1));
    assert(crate::json::json_wf(fs[25].1));
    assert(crate::json::json_wf(fs[26].1));
    assert(crate::json::json_wf(fs[27].1));
    assert(crate::json::json_wf(fs[28].1));
    assert(crate::json::json_wf(fs[29].1));
    assert(crate::json::json_wf(fs[30].1));
    assert(crate::json::json_wf(fs[31].1));
    assert(crate::json::json_wf(fs[32].1));
    assert forall|j: int| 0 <= j < fs.len() implies crate::json::json_wf(#[trigger] fs[j].1) by {}
}

/// The JSON form of a well-formed forecast day is a well-formed value.
pub proof fn lemma_forecastday_json_wf(m: ForecastDay)
    requires
        m.wf(),
    ensures
        crate::json::json_wf(spec_forecastday_json(m)),
{
    let fs = spec_forecastday_json(m)->Obj_0;
    assert(fs.len() == 4);
    lemma_day_json_wf(m.day);
    lemma_astro_json_wf(m.astro);
    let hv = spec_hours_json(m.hour@);
    assert forall|j: int| 0 <= j < hv.len() implies crate::json::json_wf(#[trigger] hv[j]) by {
        assert(hv[j] == spec_hour_json(m.hour@[j]));
        assert(m.hour@[j].wf());
        lemma_hour_json_wf(m.hour@[j]);
    }
    assert(crate::json::json_wf(fs[0].1));
    assert(crate::json::json_wf(fs[1].1));
    assert(crate::json::json_wf(fs[2].1));
    assert(crate::json::json_wf(fs[3].1));
    assert forall|j: int| 0 <= j < fs.len() implies crate::json::json_wf(#[trigger] fs[j].1) by {}
}

/// The JSON form of a well-formed current-weather report is a
/// well-formed value.
pub proof fn lemma_weather_json_wf(m: Weather)
    requires
        m.wf(),
    ensures
        crate::json::json_wf(spec_weather_json(m)),
{
    let fs = spec_weather_json(m)->Obj_0;
    assert(fs.len() == 2);
    lemma_location_json_wf(m.location);
    lemma_current_json_wf(m.current);
    assert(crate::json::json_wf(fs[0].1));
    assert(crate::json::json_wf(fs[1].1));
    assert forall|j: int| 0 <= j < fs.len() implies crate::json::json_wf(#[trigger] fs[j].1) by {}
}

/// The JSON form of a well-formed forecast report is a well-formed value.
pub proof fn lemma_forecast_weather_json_wf(m: ForecastWeather)
    requires
        m.wf(),
    ensures
        crate::json::json_wf(spec_forecast_weather_json(m)),
{
    let fs = spec_forecast_weather_json(m)->Obj_0;
    assert(fs.len() == 2);
    lemma_location_json_wf(m.location);
    let dv = spec_days_json(m.forecast.forecastday@);
    assert forall|j: int| 0 <= j < dv.len() implies crate::json::json_wf(#[trigger] dv[j]) by {
        assert(dv[j] == spec_forecastday_json(m.forecast.forecastday@[j]));
        assert(m.forecast.forecastday@[j].wf());
        lemma_forecastday_json_wf(m.forecast.forecastday@[j]);
    }
    assert(crate::json::json_wf(fs[0].1));
    let inner = fs[1].1->Obj_0;
    assert(inner.len() == 1);
    assert(crate::json::json_wf(inner[0].1));
    assert forall|j: int| 0 <= j < inner.len() implies crate::json::json_wf(
        #[trigger] inner[j].1,
    ) by {}
    assert(crate::json::json_wf(fs[1].1));
    assert forall|j: int| 0 <= j < fs.len() implies crate::json::json_wf(#[trigger] fs[j].1) by {}
}

/// Round trip of a current-weather report through its serialized JSON
/// text: the canonical text of a well-formed report parses back to
/// exactly the encoded value, that value decodes, and everything decoded
/// from it is field-for-field identical to the original.
pub proof fn lemma_weather_text_roundtrip(m: Weather, m2: Weather)
    requires
        m.wf(),
    ensures
        crate::json::spec_parse_json(crate::json::spec_print_json(spec_weather_json(m))) == Some(
            spec_weather_json(m),
        ),
        weather_decodable(spec_weather_json(m)),
        weather_matches(m2, spec_weather_json(m)) ==> weather_view_eq(m2, m),
{
    lemma_weather_json_wf(m);
    crate::json::lemma_print_parse(spec_weather_json(m));
    lemma_weather_roundtrip(m, m2);
}

/// Round trip of a forecast report through its serialized JSON text.
pub proof fn lemma_forecast_weather_text_roundtrip(m: ForecastWeather, m2: ForecastWeather)
    requires
        m.wf(),
    ensures
        crate::json::spec_parse_json(
            crate::json::spec_print_json(spec_forecast_weather_json(m)),
        ) == Some(spec_forecast_weather_json(m)),
        forecast_weather_decodable(spec_forecast_weather_json(m)),
        forecast_weather_matches(m2, spec_forecast_weather_json(m)) ==> forecast_weather_view_eq(
            m2,
            m,
        ),
{
    lemma_forecast_weather_json_wf(m);
    crate::json::lemma_print_parse(spec_forecast_weather_json(m));
    lemma_forecast_weather_roundtrip(m, m2);
}

} // verus!
