//! Request construction for the weather client.
//!
//! A request URL is built from the fixed base endpoint, the API key, the
//! URL-encoded city, a language code, and — for a forecast — a day count,
//! always asking for no air-quality data and, for a forecast, no alerts.
//! A missing API key is a configuration error. The network call itself
//! is performed by the embedding program; decoding the response body
//! lives in the codec.

use vstd::prelude::*;
use vstd::string::StringSliceAdditionalSpecFns;
use vstd::utf8::encode_utf8;

use crate::errors::FetchError;
use crate::text::{chars_to_string, spec_nat_text, u64_to_chars};

verus! {

/// True for bytes that percent-encoding leaves as they stand: ASCII
/// letters, digits, and `-` `_` `.` `~`.
pub open spec fn is_unreserved(b: u8) -> bool {
    ||| 48 <= b <= 57
    ||| 65 <= b <= 90
    ||| 97 <= b <= 122
    ||| b == 45
    ||| b == 95
    ||| b == 46
    ||| b == 126
}

/// The uppercase hexadecimal digit character for `n` in `0..16`.
pub open spec fn spec_hex_digit(n: int) -> char {
    if n < 10 {
        ((48 + n) as u8) as char
    } else {
        ((55 + n) as u8) as char
    }
}

/// The percent-encoding of one byte: itself when unreserved, else a `%`
/// and its two uppercase hexadecimal digits.
pub open spec fn spec_pct_byte(b: u8) -> Seq<char> {
    if is_unreserved(b) {
        seq![b as char]
    } else {
        seq!['%', spec_hex_digit(b as int / 16), spec_hex_digit(b as int % 16)]
    }
}

/// The percent-encoding of a byte sequence.
pub open spec fn spec_pct(bytes: Seq<u8>) -> Seq<char>
    decreases bytes.len(),
{
    if bytes.len() == 0 {
        Seq::<char>::empty()
    } else {
        spec_pct_byte(bytes[0]) + spec_pct(bytes.drop_first())
    }
}

/// Percent-encodings concatenate one byte at a time.
pub proof fn lemma_pct_push(bytes: Seq<u8>, b: u8)
    ensures
        spec_pct(bytes.push(b)) == spec_pct(bytes) + spec_pct_byte(b),
    decreases bytes.len(),
{
    let p = bytes.push(b);
    if bytes.len() == 0 {
        assert(p[0] == b);
        assert(p.drop_first() =~= Seq::<u8>::empty());
        assert(spec_pct(p) == spec_pct_byte(b) + spec_pct(Seq::<u8>::empty()));
        assert(spec_pct_byte(b) + Seq::<char>::empty() =~= spec_pct_byte(b));
        assert(Seq::<char>::empty() + spec_pct_byte(b) =~= spec_pct_byte(b));
    } else {
        assert(p[0] == bytes[0]);
        assert(p.drop_first() =~= bytes.drop_first().push(b));
        lemma_pct_push(bytes.drop_first(), b);
        assert(spec_pct_byte(bytes[0]) + (spec_pct(bytes.drop_first()) + spec_pct_byte(b))
            =~= (spec_pct_byte(bytes[0]) + spec_pct(bytes.drop_first())) + spec_pct_byte(b));
    }
}

/// The uppercase hexadecimal digit character for `n` in `0..16`.
pub(crate) fn hex_digit(n: u8) -> (r: char)
    requires
        n < 16,
    ensures
        r == spec_hex_digit(n as int),
{
    if n < 10 {
        (48 + n) as char
    } else {
        (55 + n) as char
    }
}

/// Percent-encodes the UTF-8 bytes of `s`: an unreserved byte stands as
/// itself, any other becomes `%` and two uppercase hexadecimal digits.
pub fn url_encode(s: &str) -> (r: String)
    ensures
        r@ == spec_pct(encode_utf8(s@)),
{
    let bytes = s.as_bytes();
    let n = bytes.len();
    let mut v: Vec<char> = Vec::new();
    proof {
        assert(bytes@.subrange(0, 0) =~= Seq::<u8>::empty());
        assert(v@ =~= spec_pct(bytes@.subrange(0, 0)));
    }
    let mut i: usize = 0;
    while i < n
        invariant
            i <= n,
            n == bytes@.len(),
            bytes@ == s.spec_bytes(),
            v@ == spec_pct(bytes@.subrange(0, i as int)),
        decreases n - i,
    {
        let b = bytes[i];
        let ghost v0 = v@;
        if (48 <= b && b <= 57) || (65 <= b && b <= 90) || (97 <= b && b <= 122) || b == 45 || b
            == 95 || b == 46 || b == 126 {
            v.push(b as char);
            proof {
                assert(v@ =~= v0 + spec_pct_byte(bytes@[i as int]));
            }
        } else {
            v.push('%');
            v.push(hex_digit(b / 16));
            v.push(hex_digit(b % 16));
            proof {
                assert(v@ =~= v0 + spec_pct_byte(bytes@[i as int]));
            }
        }
        proof {
            assert(bytes@.subrange(0, i as int).push(bytes@[i as int]) =~= bytes@.subrange(
                0,
                i as int + 1,
            ));
            lemma_pct_push(bytes@.subrange(0, i as int), bytes@[i as int]);
        }
        i = i + 1;
    }
    proof {
        assert(bytes@.subrange(0, n as int) =~= bytes@);
    }
    chars_to_string(&v)
}

/// The current-weather request URL for an API key, a URL-encoded city,
/// and a language code, always asking for no air-quality data.
pub open spec fn spec_current_url(key: Seq<char>, city_enc: Seq<char>, lang: Seq<char>) -> Seq<
    char,
> {
    "http://api.weatherapi.com/v1/current.json?key="@ + key + "&q="@ + city_enc + "&aqi=no&lang="@
        + lang
}

/// The forecast request URL: as the current-weather URL, plus the day
/// count and no alerts.
pub open spec fn spec_forecast_url(
    key: Seq<char>,
    city_enc: Seq<char>,
    lang: Seq<char>,
    days: int,
) -> Seq<char> {
    "http://api.weatherapi.com/v1/forecast.json?key="@ + key + "&q="@ + city_enc
        + "&aqi=no&lang="@ + lang + "&days="@ + spec_nat_text(days) + "&alerts=no"@
}

/// Builds the current-weather request URL.
pub fn current_url(key: &str, city: &str, lang: &str) -> (r: String)
    ensures
        r@ == spec_current_url(key@, spec_pct(encode_utf8(city@)), lang@),
{
    let mut u = String::from_str("http://api.weatherapi.com/v1/current.json?key=");
    u.append(key);
    u.append("&q=");
    let enc = url_encode(city);
    u.append(enc.as_str());
    u.append("&aqi=no&lang=");
    u.append(lang);
    proof {
        assert(u@ =~= spec_current_url(key@, spec_pct(encode_utf8(city@)), lang@));
    }
    u
}

/// Builds the forecast request URL.
pub fn forecast_url(key: &str, city: &str, lang: &str, days: u64) -> (r: String)
    ensures
        r@ == spec_forecast_url(key@, spec_pct(encode_utf8(city@)), lang@, days as int),
{
    let mut u = String::from_str("http://api.weatherapi.com/v1/forecast.json?key=");
    u.append(key);
    u.append("&q=");
    let enc = url_encode(city);
    u.append(enc.as_str());
    u.append("&aqi=no&lang=");
    u.append(lang);
    u.append("&days=");
    let d = u64_to_chars(days);
    let ds = chars_to_string(&d);
    u.append(ds.as_str());
    u.append("&alerts=no");
    proof {
        assert(u@ =~= spec_forecast_url(key@, spec_pct(encode_utf8(city@)), lang@, days as int));
    }
    u
}

/// Builds the current-weather request URL from the process configuration:
/// a missing API key is a `Configuration` error.
pub fn current_request_url(key: &Option<String>, city: &String, lang: &String) -> (r: Result<
    String,
    FetchError,
>)
    ensures
        key is None ==> r == Err::<String, FetchError>(FetchError::Configuration),
        key is Some ==> r is Ok && r->Ok_0@ == spec_current_url(
            key->0@,
            spec_pct(encode_utf8(city@)),
            lang@,
        ),
{
    match key {
        None => Err(FetchError::Configuration),
        Some(k) => Ok(current_url(k.as_str(), city.as_str(), lang.as_str())),
    }
}

/// Builds the forecast request URL from the process configuration: a
/// missing API key is a `Configuration` error.
pub fn forecast_request_url(
    key: &Option<String>,
    city: &String,
    lang: &String,
    days: u64,
) -> (r: Result<String, FetchError>)
    ensures
        key is None ==> r == Err::<String, FetchError>(FetchError::Configuration),
        key is Some ==> r is Ok && r->Ok_0@ == spec_forecast_url(
            key->0@,
            spec_pct(encode_utf8(city@)),
            lang@,
            days as int,
        ),
{
    match key {
        None => Err(FetchError::Configuration),
        Some(k) => Ok(forecast_url(k.as_str(), city.as_str(), lang.as_str(), days)),
    }
}

} // verus!
