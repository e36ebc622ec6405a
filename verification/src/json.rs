//! JSON values, a verified parser, and a verified printer.
//!
//! The weather API answers with JSON; the client decodes a response body
//! into a [`JsonValue`] tree and the codec reads the domain model out of
//! it. Number tokens are carried verbatim as text, so every numeric field
//! reaches the model exactly as the response spelled it.
//!
//! The grammar is standard JSON with two restrictions: a `\u` escape must
//! denote a basic-plane scalar value (no surrogate pairs), and a string
//! may not hold an unescaped control character.

use vstd::prelude::*;

use crate::model::{digits_end, exp_part_end, frac_part_end, int_part_end, is_number_text};

verus! {

broadcast use vstd::std_specs::vec::group_vec_axioms;

/// Mathematical form of a JSON value. A number holds its token text
/// verbatim; a string holds its decoded characters.
#[verifier::ext_equal]
pub enum JsonV {
    Null,
    Bool(bool),
    Num(Seq<char>),
    Str(Seq<char>),
    Arr(Seq<JsonV>),
    Obj(Seq<(Seq<char>, JsonV)>),
}

/// A decoded JSON value. Object fields keep the order the text gave them.
pub enum JsonValue {
    Null,
    Bool(bool),
    Num(String),
    Str(String),
    Arr(Vec<JsonValue>),
    Obj(Vec<(String, JsonValue)>),
}

/// View of a decoded item list.
pub open spec fn items_view(vs: Seq<JsonValue>) -> Seq<JsonV>
    decreases vs,
{
    Seq::new(
        vs.len(),
        |k: int|
            if 0 <= k < vs.len() {
                vs[k]@
            } else {
                JsonV::Null
            },
    )
}

/// View of a decoded field list.
pub open spec fn fields_view(fs: Seq<(String, JsonValue)>) -> Seq<(Seq<char>, JsonV)>
    decreases fs,
{
    Seq::new(
        fs.len(),
        |k: int|
            if 0 <= k < fs.len() {
                (fs[k].0@, fs[k].1@)
            } else {
                (Seq::<char>::empty(), JsonV::Null)
            },
    )
}

impl View for JsonValue {
    type V = JsonV;

    open spec fn view(&self) -> JsonV
        decreases self,
    {
        match self {
            JsonValue::Null => JsonV::Null,
            JsonValue::Bool(b) => JsonV::Bool(*b),
            JsonValue::Num(s) => JsonV::Num(s@),
            JsonValue::Str(s) => JsonV::Str(s@),
            JsonValue::Arr(items) => JsonV::Arr(items_view(items@)),
            JsonValue::Obj(fields) => JsonV::Obj(fields_view(fields@)),
        }
    }
}

/// True for the four JSON whitespace characters.
pub open spec fn is_json_ws(c: char) -> bool {
    c == ' ' || c == '\t' || c == '\n' || c == '\r'
}

/// First index at or after `i` that holds no whitespace (or `t.len()`).
pub open spec fn spec_skip_ws(t: Seq<char>, i: int) -> int
    decreases t.len() - i,
{
    if 0 <= i < t.len() && is_json_ws(t[i]) {
        spec_skip_ws(t, i + 1)
    } else {
        i
    }
}

/// Skipping whitespace never moves backwards and stays inside the text.
pub proof fn lemma_skip_ws_bounds(t: Seq<char>, i: int)
    requires
        0 <= i,
    ensures
        i <= spec_skip_ws(t, i),
        i <= t.len() ==> spec_skip_ws(t, i) <= t.len(),
    decreases t.len() - i,
{
    if i < t.len() && is_json_ws(t[i]) {
        lemma_skip_ws_bounds(t, i + 1);
    }
}

/// The value of a hexadecimal digit character, or `-1`.
pub open spec fn spec_hex_val(c: char) -> int {
    if '0' as u32 <= c as u32 <= '9' as u32 {
        c as u32 - 48
    } else if 'a' as u32 <= c as u32 <= 'f' as u32 {
        c as u32 - 87
    } else if 'A' as u32 <= c as u32 <= 'F' as u32 {
        c as u32 - 55
    } else {
        -1
    }
}

/// True for a code point a `\u` escape may denote: a basic-plane scalar
/// value, not a surrogate.
pub open spec fn is_bmp_scalar(code: int) -> bool {
    0 <= code <= 0xFFFF && !(0xD800 <= code <= 0xDFFF)
}

/// Parses the contents of a string after its opening quote: the decoded
/// characters and the position after the closing quote. `None` for an
/// unterminated string, a raw control character, or a bad escape.
pub open spec fn spec_parse_str_chars(t: Seq<char>, i: int) -> Option<(Seq<char>, int)>
    decreases t.len() - i,
{
    if i < 0 || i >= t.len() {
        None
    } else if t[i] == '"' {
        Some((Seq::<char>::empty(), i + 1))
    } else if t[i] == '\\' {
        if i + 1 >= t.len() {
            None
        } else {
            let e = t[i + 1];
            if e == 'u' {
                if i + 6 > t.len() {
                    None
                } else {
                    let code = spec_hex_val(t[i + 2]) * 4096 + spec_hex_val(t[i + 3]) * 256
                        + spec_hex_val(t[i + 4]) * 16 + spec_hex_val(t[i + 5]);
                    if spec_hex_val(t[i + 2]) < 0 || spec_hex_val(t[i + 3]) < 0 || spec_hex_val(
                        t[i + 4],
                    ) < 0 || spec_hex_val(t[i + 5]) < 0 || !is_bmp_scalar(code) {
                        None
                    } else {
                        match spec_parse_str_chars(t, i + 6) {
                            None => None,
                            Some((rest, j)) => Some((seq![code as char] + rest, j)),
                        }
                    }
                }
            } else {
                let c = if e == '"' {
                    Some('"')
                } else if e == '\\' {
                    Some('\\')
                } else if e == '/' {
                    Some('/')
                } else if e == 'b' {
                    Some('\u{0008}')
                } else if e == 'f' {
                    Some('\u{000C}')
                } else if e == 'n' {
                    Some('\n')
                } else if e == 'r' {
                    Some('\r')
                } else if e == 't' {
                    Some('\t')
                } else {
                    None
                };
                match c {
                    None => None,
                    Some(c) => match spec_parse_str_chars(t, i + 2) {
                        None => None,
                        Some((rest, j)) => Some((seq![c] + rest, j)),
                    },
                }
            }
        }
    } else if (t[i] as u32) < 32 {
        None
    } else {
        match spec_parse_str_chars(t, i + 1) {
            None => None,
            Some((rest, j)) => Some((seq![t[i]] + rest, j)),
        }
    }
}

/// Parses a number token starting at `i`: the token text verbatim and the
/// position after it. `None` when no valid number starts there.
pub open spec fn spec_parse_number(t: Seq<char>, i: int) -> Option<(Seq<char>, int)> {
    let start = if i < t.len() && t[i] == '-' {
        i + 1
    } else {
        i
    };
    let end = exp_part_end(t, frac_part_end(t, int_part_end(t, start)));
    if end > i {
        Some((t.subrange(i, end), end))
    } else {
        None
    }
}

/// True when `t[i..]` starts with `w`.
pub open spec fn starts_with_at(t: Seq<char>, i: int, w: Seq<char>) -> bool {
    0 <= i && i + w.len() <= t.len() && t.subrange(i, i + w.len()) == w
}

/// Parses a JSON value at `i`, after skipping whitespace: the value and
/// the position after it.
pub open spec fn spec_parse_value(t: Seq<char>, i: int) -> Option<(JsonV, int)>
    decreases t.len() - i, 0int,
    via spec_parse_value_decreases
{
    if i < 0 {
        None
    } else {
        let j = spec_skip_ws(t, i);
        if j >= t.len() {
            None
        } else if t[j] == '"' {
            match spec_parse_str_chars(t, j + 1) {
                None => None,
                Some((s, p)) => Some((JsonV::Str(s), p)),
            }
        } else if t[j] == '{' {
            match spec_parse_members_first(t, j + 1) {
                None => None,
                Some((fs, p)) => Some((JsonV::Obj(fs), p)),
            }
        } else if t[j] == '[' {
            match spec_parse_items_first(t, j + 1) {
                None => None,
                Some((items, p)) => Some((JsonV::Arr(items), p)),
            }
        } else if starts_with_at(t, j, "true"@) {
            Some((JsonV::Bool(true), j + 4))
        } else if starts_with_at(t, j, "false"@) {
            Some((JsonV::Bool(false), j + 5))
        } else if starts_with_at(t, j, "null"@) {
            Some((JsonV::Null, j + 4))
        } else if t[j] == '-' || crate::model::is_digit(t[j]) {
            match spec_parse_number(t, j) {
                None => None,
                Some((s, p)) => Some((JsonV::Num(s), p)),
            }
        } else {
            None
        }
    }
}

#[via_fn]
proof fn spec_parse_value_decreases(t: Seq<char>, i: int) {
    if i >= 0 {
        lemma_skip_ws_bounds(t, i);
    }
}

/// Parses an object's members after its opening brace: an immediately
/// closing brace yields the empty field list, anything else must be a
/// member list.
pub open spec fn spec_parse_members_first(t: Seq<char>, i: int) -> Option<
    (Seq<(Seq<char>, JsonV)>, int),
>
    decreases t.len() - i, 2int,
    via spec_parse_members_first_decreases
{
    if i < 0 {
        None
    } else {
        let j = spec_skip_ws(t, i);
        if j < t.len() && t[j] == '}' {
            Some((Seq::<(Seq<char>, JsonV)>::empty(), j + 1))
        } else {
            spec_parse_member_list(t, i)
        }
    }
}

#[via_fn]
proof fn spec_parse_members_first_decreases(t: Seq<char>, i: int) {
    if i >= 0 {
        lemma_skip_ws_bounds(t, i);
    }
}

/// Parses one or more `"key": value` members separated by commas, up to
/// and including the closing brace.
pub open spec fn spec_parse_member_list(t: Seq<char>, i: int) -> Option<
    (Seq<(Seq<char>, JsonV)>, int),
>
    decreases t.len() - i, 1int,
    via spec_parse_member_list_decreases
{
    if i < 0 {
        None
    } else {
        let j = spec_skip_ws(t, i);
        if !(j < t.len() && t[j] == '"') {
            None
        } else {
            match spec_parse_str_chars(t, j + 1) {
                None => None,
                Some((key, p1)) => {
                    let p2 = spec_skip_ws(t, p1);
                    if !(p2 < t.len() && t[p2] == ':') {
                        None
                    } else if p2 < i {
                        None
                    } else {
                        match spec_parse_value(t, p2 + 1) {
                            None => None,
                            Some((v, p3)) => {
                                let p4 = spec_skip_ws(t, p3);
                                if p4 < t.len() && t[p4] == '}' {
                                    Some((seq![(key, v)], p4 + 1))
                                } else if p4 < t.len() && t[p4] == ',' && p4 >= i {
                                    match spec_parse_member_list(t, p4 + 1) {
                                        None => None,
                                        Some((rest, p5)) => Some((seq![(key, v)] + rest, p5)),
                                    }
                                } else {
                                    None
                                }
                            },
                        }
                    }
                },
            }
        }
    }
}

#[via_fn]
proof fn spec_parse_member_list_decreases(t: Seq<char>, i: int) {
    if i >= 0 {
        lemma_skip_ws_bounds(t, i);
    }
}

/// Parses an array's items after its opening bracket: an immediately
/// closing bracket yields the empty list, anything else must be an item
/// list.
pub open spec fn spec_parse_items_first(t: Seq<char>, i: int) -> Option<(Seq<JsonV>, int)>
    decreases t.len() - i, 2int,
    via spec_parse_items_first_decreases
{
    if i < 0 {
        None
    } else {
        let j = spec_skip_ws(t, i);
        if j < t.len() && t[j] == ']' {
            Some((Seq::<JsonV>::empty(), j + 1))
        } else {
            spec_parse_item_list(t, i)
        }
    }
}

#[via_fn]
proof fn spec_parse_items_first_decreases(t: Seq<char>, i: int) {
    if i >= 0 {
        lemma_skip_ws_bounds(t, i);
    }
}

/// Parses one or more values separated by commas, up to and including the
/// closing bracket.
pub open spec fn spec_parse_item_list(t: Seq<char>, i: int) -> Option<(Seq<JsonV>, int)>
    decreases t.len() - i, 1int,
{
    if i < 0 {
        None
    } else {
        match spec_parse_value(t, i) {
            None => None,
            Some((v, p1)) => {
                let p2 = spec_skip_ws(t, p1);
                if p2 < t.len() && t[p2] == ']' {
                    Some((seq![v], p2 + 1))
                } else if p2 < t.len() && t[p2] == ',' && p2 >= i {
                    match spec_parse_item_list(t, p2 + 1) {
                        None => None,
                        Some((rest, p3)) => Some((seq![v] + rest, p3)),
                    }
                } else {
                    None
                }
            },
        }
    }
}

/// Parses a whole text as one JSON value: the value, when the text holds
/// exactly one value and whitespace.
pub open spec fn spec_parse_json(t: Seq<char>) -> Option<JsonV> {
    match spec_parse_value(t, 0) {
        None => None,
        Some((v, p)) => if spec_skip_ws(t, p) == t.len() {
            Some(v)
        } else {
            None
        },
    }
}

/// Skips JSON whitespace.
fn skip_ws(t: &Vec<char>, i: usize) -> (r: usize)
    requires
        i <= t@.len(),
    ensures
        r as int == spec_skip_ws(t@, i as int),
        i <= r <= t@.len(),
{
    let n = t.len();
    let mut j: usize = i;
    while j < n && (t[j] == ' ' || t[j] == '\t' || t[j] == '\n' || t[j] == '\r')
        invariant
            i <= j <= n,
            n == t@.len(),
            spec_skip_ws(t@, i as int) == spec_skip_ws(t@, j as int),
        decreases n - j,
    {
        j = j + 1;
    }
    j
}

/// The value of a hexadecimal digit character, or `-1`.
fn hex_val(c: char) -> (r: i32)
    ensures
        r as int == spec_hex_val(c),
{
    let u = c as u32;
    if 48 <= u && u <= 57 {
        (u - 48) as i32
    } else if 97 <= u && u <= 102 {
        (u - 87) as i32
    } else if 65 <= u && u <= 70 {
        (u - 55) as i32
    } else {
        -1
    }
}

/// Parses the contents of a string after its opening quote.
fn parse_str_chars(t: &Vec<char>, i: usize) -> (r: Option<(Vec<char>, usize)>)
    requires
        i <= t@.len(),
    ensures
        match spec_parse_str_chars(t@, i as int) {
            Some((s, j)) => {
                &&& r is Some
                &&& r->Some_0.0@ == s
                &&& r->Some_0.1 as int == j
                &&& i < r->Some_0.1 <= t@.len()
            },
            None => r is None,
        },
    decreases t@.len() - i,
{
    if i == t.len() {
        return None;
    }
    let c = t[i];
    if c == '"' {
        return Some((Vec::new(), i + 1));
    }
    if c == '\\' {
        if i + 1 == t.len() {
            return None;
        }
        let e = t[i + 1];
        if e == 'u' {
            if t.len() - i < 6 {
                return None;
            }
            let h2 = hex_val(t[i + 2]);
            let h3 = hex_val(t[i + 3]);
            let h4 = hex_val(t[i + 4]);
            let h5 = hex_val(t[i + 5]);
            if h2 < 0 || h3 < 0 || h4 < 0 || h5 < 0 {
                return None;
            }
            let code: u32 = (h2 as u32) * 4096 + (h3 as u32) * 256 + (h4 as u32) * 16 + (
            h5 as u32);
            if 0xD800 <= code && code <= 0xDFFF {
                return None;
            }
            let decoded = match crate::text::char_from_code(code) {
                Some(d) => d,
                None => {
                    proof {
                        assert(false);
                    }
                    return None;
                },
            };
            match parse_str_chars(t, i + 6) {
                None => None,
                Some((mut rest, j)) => {
                    let ghost r0 = rest@;
                    let mut out: Vec<char> = Vec::new();
                    out.push(decoded);
                    out.append(&mut rest);
                    proof {
                        assert(out@ =~= seq![decoded] + r0);
                    }
                    Some((out, j))
                },
            }
        } else {
            let decoded: char = if e == '"' {
                '"'
            } else if e == '\\' {
                '\\'
            } else if e == '/' {
                '/'
            } else if e == 'b' {
                '\u{0008}'
            } else if e == 'f' {
                '\u{000C}'
            } else if e == 'n' {
                '\n'
            } else if e == 'r' {
                '\r'
            } else if e == 't' {
                '\t'
            } else {
                return None;
            };
            match parse_str_chars(t, i + 2) {
                None => None,
                Some((mut rest, j)) => {
                    let ghost r0 = rest@;
                    let mut out: Vec<char> = Vec::new();
                    out.push(decoded);
                    out.append(&mut rest);
                    proof {
                        assert(out@ =~= seq![decoded] + r0);
                    }
                    Some((out, j))
                },
            }
        }
    } else if (c as u32) < 32 {
        None
    } else {
        match parse_str_chars(t, i + 1) {
            None => None,
            Some((mut rest, j)) => {
                let ghost r0 = rest@;
                let mut out: Vec<char> = Vec::new();
                out.push(c);
                out.append(&mut rest);
                proof {
                    assert(out@ =~= seq![c] + r0);
                }
                Some((out, j))
            },
        }
    }
}

/// First index at or after `i` that holds no digit.
pub(crate) fn digits_end_exec(t: &Vec<char>, i: usize) -> (r: usize)
    requires
        i <= t@.len(),
    ensures
        r as int == digits_end(t@, i as int),
        i <= r <= t@.len(),
{
    let n = t.len();
    let mut j: usize = i;
    while j < n && 48 <= t[j] as u32 && t[j] as u32 <= 57
        invariant
            i <= j <= n,
            n == t@.len(),
            digits_end(t@, i as int) == digits_end(t@, j as int),
        decreases n - j,
    {
        j = j + 1;
    }
    j
}

/// Parses a number token starting at `i`.
fn parse_number(t: &Vec<char>, i: usize) -> (r: Option<(Vec<char>, usize)>)
    requires
        i <= t@.len(),
    ensures
        match spec_parse_number(t@, i as int) {
            Some((s, j)) => {
                &&& r is Some
                &&& r->Some_0.0@ == s
                &&& r->Some_0.1 as int == j
                &&& r->Some_0.1 <= t@.len()
            },
            None => r is None,
        },
{
    let start: usize = if i < t.len() && t[i] == '-' {
        i + 1
    } else {
        i
    };
    // integer part
    if !(start < t.len() && 48 <= t[start] as u32 && t[start] as u32 <= 57) {
        proof {
            assert(int_part_end(t@, start as int) == -1);
            assert(frac_part_end(t@, -1) == -1);
            assert(exp_part_end(t@, -1) == -1);
        }
        return None;
    }
    let e1: usize = if t[start] == '0' {
        start + 1
    } else {
        digits_end_exec(t, start)
    };
    proof {
        assert(e1 as int == int_part_end(t@, start as int));
    }
    // fraction part
    let e2: usize = if e1 < t.len() && t[e1] == '.' {
        if e1 + 1 < t.len() && 48 <= t[e1 + 1] as u32 && t[e1 + 1] as u32 <= 57 {
            digits_end_exec(t, e1 + 1)
        } else {
            proof {
                assert(frac_part_end(t@, e1 as int) == -1);
                assert(exp_part_end(t@, -1) == -1);
            }
            return None;
        }
    } else {
        e1
    };
    proof {
        assert(e2 as int == frac_part_end(t@, e1 as int));
    }
    // exponent part
    let e3: usize = if e2 < t.len() && (t[e2] == 'e' || t[e2] == 'E') {
        let d: usize = if e2 + 1 < t.len() && (t[e2 + 1] == '+' || t[e2 + 1] == '-') {
            e2 + 2
        } else {
            e2 + 1
        };
        if d < t.len() && 48 <= t[d] as u32 && t[d] as u32 <= 57 {
            digits_end_exec(t, d)
        } else {
            proof {
                assert(exp_part_end(t@, e2 as int) == -1);
            }
            return None;
        }
    } else {
        e2
    };
    proof {
        assert(e3 as int == exp_part_end(t@, e2 as int));
        crate::model::lemma_digits_end_lb(t@, start as int + 1);
        crate::model::lemma_digits_end_lb(t@, e1 as int + 1);
        crate::model::lemma_digits_end_lb(t@, e2 as int + 1);
        crate::model::lemma_digits_end_lb(t@, e2 as int + 2);
        assert(e3 > i);
    }
    let text = crate::text::copy_range(t, i, e3);
    Some((text, e3))
}

/// When `t[i..]` starts with `w`, each of the first five characters of
/// `w` stands in `t` at its offset.
proof fn lemma_starts_with_hyp(t: Seq<char>, i: int, w: Seq<char>)
    ensures
        starts_with_at(t, i, w) && w.len() > 0 ==> t[i] == w[0],
        starts_with_at(t, i, w) && w.len() > 1 ==> t[i + 1] == w[1],
        starts_with_at(t, i, w) && w.len() > 2 ==> t[i + 2] == w[2],
        starts_with_at(t, i, w) && w.len() > 3 ==> t[i + 3] == w[3],
        starts_with_at(t, i, w) && w.len() > 4 ==> t[i + 4] == w[4],
{
    if starts_with_at(t, i, w) {
        let sub = t.subrange(i, i + w.len());
        if w.len() > 0 {
            assert(sub[0] == t[i]);
        }
        if w.len() > 1 {
            assert(sub[1] == t[i + 1]);
        }
        if w.len() > 2 {
            assert(sub[2] == t[i + 2]);
        }
        if w.len() > 3 {
            assert(sub[3] == t[i + 3]);
        }
        if w.len() > 4 {
            assert(sub[4] == t[i + 4]);
        }
    }
}

/// Parses a JSON value at `i`.
fn parse_value(t: &Vec<char>, i: usize) -> (r: Option<(JsonValue, usize)>)
    requires
        i <= t@.len(),
    ensures
        match spec_parse_value(t@, i as int) {
            Some((v, p)) => {
                &&& r is Some
                &&& r->Some_0.0@ == v
                &&& r->Some_0.1 as int == p
                &&& i < r->Some_0.1 <= t@.len()
            },
            None => r is None,
        },
    decreases t@.len() - i, 0int,
{
    let j = skip_ws(t, i);
    if j == t.len() {
        return None;
    }
    let c = t[j];
    if c == '"' {
        match parse_str_chars(t, j + 1) {
            None => None,
            Some((chars, p)) => {
                let text = crate::text::chars_to_string(&chars);
                Some((JsonValue::Str(text), p))
            },
        }
    } else if c == '{' {
        match parse_members_first(t, j + 1) {
            None => None,
            Some((fields, p)) => Some((JsonValue::Obj(fields), p)),
        }
    } else if c == '[' {
        match parse_items_first(t, j + 1) {
            None => None,
            Some((items, p)) => Some((JsonValue::Arr(items), p)),
        }
    } else if c == 't' {
        proof {
            reveal_strlit("true");
            reveal_strlit("false");
            reveal_strlit("null");
            lemma_starts_with_hyp(t@, j as int, "true"@);
            lemma_starts_with_hyp(t@, j as int, "false"@);
            lemma_starts_with_hyp(t@, j as int, "null"@);
        }
        if t.len() - j >= 4 && t[j + 1] == 'r' && t[j + 2] == 'u' && t[j + 3] == 'e' {
            proof {
                assert(t@.subrange(j as int, j as int + 4) =~= "true"@);
            }
            Some((JsonValue::Bool(true), j + 4))
        } else {
            None
        }
    } else if c == 'f' {
        proof {
            reveal_strlit("true");
            reveal_strlit("false");
            reveal_strlit("null");
            lemma_starts_with_hyp(t@, j as int, "true"@);
            lemma_starts_with_hyp(t@, j as int, "false"@);
            lemma_starts_with_hyp(t@, j as int, "null"@);
        }
        if t.len() - j >= 5 && t[j + 1] == 'a' && t[j + 2] == 'l' && t[j + 3] == 's' && t[j + 4]
            == 'e' {
            proof {
                assert(t@.subrange(j as int, j as int + 5) =~= "false"@);
            }
            Some((JsonValue::Bool(false), j + 5))
        } else {
            None
        }
    } else if c == 'n' {
        proof {
            reveal_strlit("true");
            reveal_strlit("false");
            reveal_strlit("null");
            lemma_starts_with_hyp(t@, j as int, "true"@);
            lemma_starts_with_hyp(t@, j as int, "false"@);
            lemma_starts_with_hyp(t@, j as int, "null"@);
        }
        if t.len() - j >= 4 && t[j + 1] == 'u' && t[j + 2] == 'l' && t[j + 3] == 'l' {
            proof {
                assert(t@.subrange(j as int, j as int + 4) =~= "null"@);
            }
            Some((JsonValue::Null, j + 4))
        } else {
            None
        }
    } else if c == '-' || (48 <= c as u32 && c as u32 <= 57) {
        proof {
            reveal_strlit("true");
            reveal_strlit("false");
            reveal_strlit("null");
            lemma_starts_with_hyp(t@, j as int, "true"@);
            lemma_starts_with_hyp(t@, j as int, "false"@);
            lemma_starts_with_hyp(t@, j as int, "null"@);
        }
        match parse_number(t, j) {
            None => None,
            Some((chars, p)) => {
                let text = crate::text::chars_to_string(&chars);
                Some((JsonValue::Num(text), p))
            },
        }
    } else {
        proof {
            reveal_strlit("true");
            reveal_strlit("false");
            reveal_strlit("null");
            lemma_starts_with_hyp(t@, j as int, "true"@);
            lemma_starts_with_hyp(t@, j as int, "false"@);
            lemma_starts_with_hyp(t@, j as int, "null"@);
        }
        None
    }
}

/// Parses an object's members after its opening brace.
fn parse_members_first(t: &Vec<char>, i: usize) -> (r: Option<(Vec<(String, JsonValue)>, usize)>)
    requires
        i <= t@.len(),
    ensures
        match spec_parse_members_first(t@, i as int) {
            Some((fs, p)) => {
                &&& r is Some
                &&& fields_view(r->Some_0.0@) == fs
                &&& r->Some_0.1 as int == p
                &&& i < r->Some_0.1 <= t@.len()
            },
            None => r is None,
        },
    decreases t@.len() - i, 2int,
{
    let j = skip_ws(t, i);
    if j < t.len() && t[j] == '}' {
        let fields: Vec<(String, JsonValue)> = Vec::new();
        proof {
            assert(fields_view(fields@) =~= Seq::<(Seq<char>, JsonV)>::empty());
        }
        Some((fields, j + 1))
    } else {
        parse_member_list(t, i)
    }
}

/// Parses one or more `"key": value` members, through the closing brace.
fn parse_member_list(t: &Vec<char>, i: usize) -> (r: Option<(Vec<(String, JsonValue)>, usize)>)
    requires
        i <= t@.len(),
    ensures
        match spec_parse_member_list(t@, i as int) {
            Some((fs, p)) => {
                &&& r is Some
                &&& fields_view(r->Some_0.0@) == fs
                &&& r->Some_0.1 as int == p
                &&& i < r->Some_0.1 <= t@.len()
            },
            None => r is None,
        },
    decreases t@.len() - i, 1int,
{
    let j = skip_ws(t, i);
    if !(j < t.len() && t[j] == '"') {
        return None;
    }
    match parse_str_chars(t, j + 1) {
        None => None,
        Some((key_chars, p1)) => {
            let p2 = skip_ws(t, p1);
            if !(p2 < t.len() && t[p2] == ':') {
                return None;
            }
            match parse_value(t, p2 + 1) {
                None => None,
                Some((v, p3)) => {
                    let p4 = skip_ws(t, p3);
                    let key = crate::text::chars_to_string(&key_chars);
                    let ghost kv = key@;
                    let ghost gv = v@;
                    if p4 < t.len() && t[p4] == '}' {
                        let mut out: Vec<(String, JsonValue)> = Vec::new();
                        out.push((key, v));
                        proof {
                            assert(fields_view(out@) =~= seq![(kv, gv)]);
                        }
                        Some((out, p4 + 1))
                    } else if p4 < t.len() && t[p4] == ',' {
                        match parse_member_list(t, p4 + 1) {
                            None => None,
                            Some((mut rest, p5)) => {
                                let ghost rest0 = fields_view(rest@);
                                let mut out: Vec<(String, JsonValue)> = Vec::new();
                                out.push((key, v));
                                out.append(&mut rest);
                                proof {
                                    assert(fields_view(out@) =~= seq![(kv, gv)] + rest0);
                                }
                                Some((out, p5))
                            },
                        }
                    } else {
                        None
                    }
                },
            }
        },
    }
}

/// Parses an array's items after its opening bracket.
fn parse_items_first(t: &Vec<char>, i: usize) -> (r: Option<(Vec<JsonValue>, usize)>)
    requires
        i <= t@.len(),
    ensures
        match spec_parse_items_first(t@, i as int) {
            Some((vs, p)) => {
                &&& r is Some
                &&& items_view(r->Some_0.0@) == vs
                &&& r->Some_0.1 as int == p
                &&& i < r->Some_0.1 <= t@.len()
            },
            None => r is None,
        },
    decreases t@.len() - i, 2int,
{
    let j = skip_ws(t, i);
    if j < t.len() && t[j] == ']' {
        let items: Vec<JsonValue> = Vec::new();
        proof {
            assert(items_view(items@) =~= Seq::<JsonV>::empty());
        }
        Some((items, j + 1))
    } else {
        parse_item_list(t, i)
    }
}

/// Parses one or more values, through the closing bracket.
fn parse_item_list(t: &Vec<char>, i: usize) -> (r: Option<(Vec<JsonValue>, usize)>)
    requires
        i <= t@.len(),
    ensures
        match spec_parse_item_list(t@, i as int) {
            Some((vs, p)) => {
                &&& r is Some
                &&& items_view(r->Some_0.0@) == vs
                &&& r->Some_0.1 as int == p
                &&& i < r->Some_0.1 <= t@.len()
            },
            None => r is None,
        },
    decreases t@.len() - i, 1int,
{
    match parse_value(t, i) {
        None => None,
        Some((v, p1)) => {
            let p2 = skip_ws(t, p1);
            let ghost gv = v@;
            if p2 < t.len() && t[p2] == ']' {
                let mut out: Vec<JsonValue> = Vec::new();
                out.push(v);
                proof {
                    assert(items_view(out@) =~= seq![gv]);
                }
                Some((out, p2 + 1))
            } else if p2 < t.len() && t[p2] == ',' {
                match parse_item_list(t, p2 + 1) {
                    None => None,
                    Some((mut rest, p3)) => {
                        let ghost rest0 = items_view(rest@);
                        let mut out: Vec<JsonValue> = Vec::new();
                        out.push(v);
                        out.append(&mut rest);
                        proof {
                            assert(items_view(out@) =~= seq![gv] + rest0);
                        }
                        Some((out, p3))
                    },
                }
            } else {
                None
            }
        },
    }
}

/// Parses a whole text as one JSON value. Any text that is not exactly one
/// JSON value surrounded by whitespace is a `Decode` failure.
pub fn parse_json(s: &str) -> (r: Result<JsonValue, crate::errors::FetchError>)
    ensures
        match spec_parse_json(s@) {
            Some(v) => r is Ok && r->Ok_0@ == v,
            None => r == Err::<JsonValue, crate::errors::FetchError>(
                crate::errors::FetchError::Decode,
            ),
        },
{
    let t = crate::text::str_to_chars(s);
    match parse_value(&t, 0) {
        None => Err(crate::errors::FetchError::Decode),
        Some((v, p)) => {
            let q = skip_ws(&t, p);
            if q == t.len() {
                Ok(v)
            } else {
                Err(crate::errors::FetchError::Decode)
            }
        },
    }
}

/// The escape of one string character: quotes and backslashes are
/// escaped, control characters become `\u00` escapes, anything else
/// stands as itself.
pub open spec fn spec_esc_char(c: char) -> Seq<char> {
    if c == '"' {
        seq!['\\', '"']
    } else if c == '\\' {
        seq!['\\', '\\']
    } else if (c as u32) < 32 {
        seq![
            '\\',
            'u',
            '0',
            '0',
            crate::client::spec_hex_digit(c as u32 as int / 16),
            crate::client::spec_hex_digit(c as u32 as int % 16),
        ]
    } else {
        seq![c]
    }
}

/// The escaped form of a string's characters.
pub open spec fn spec_esc_str(s: Seq<char>) -> Seq<char>
    decreases s.len(),
{
    if s.len() == 0 {
        Seq::<char>::empty()
    } else {
        spec_esc_char(s[0]) + spec_esc_str(s.drop_first())
    }
}

/// Escapes concatenate one character at a time.
pub proof fn lemma_esc_str_push(s: Seq<char>, c: char)
    ensures
        spec_esc_str(s.push(c)) == spec_esc_str(s) + spec_esc_char(c),
    decreases s.len(),
{
    let p = s.push(c);
    if s.len() == 0 {
        assert(p.len() == 1);
        assert(p[0] == c);
        assert(p.drop_first() =~= Seq::<char>::empty());
        assert(spec_esc_str(p) == spec_esc_char(c) + spec_esc_str(Seq::<char>::empty()));
        assert(spec_esc_str(Seq::<char>::empty()) == Seq::<char>::empty());
        assert(spec_esc_char(c) + Seq::<char>::empty() =~= spec_esc_char(c));
        assert(s =~= Seq::<char>::empty());
        assert(spec_esc_str(s) == Seq::<char>::empty());
        assert(Seq::<char>::empty() + spec_esc_char(c) =~= spec_esc_char(c));
    } else {
        assert(p[0] == s[0]);
        assert(p.drop_first() =~= s.drop_first().push(c));
        lemma_esc_str_push(s.drop_first(), c);
        assert(spec_esc_char(s[0]) + (spec_esc_str(s.drop_first()) + spec_esc_char(c)) =~= (
        spec_esc_char(s[0]) + spec_esc_str(s.drop_first())) + spec_esc_char(c));
    }
}

/// The canonical text of a JSON value: no whitespace, fields and items in
/// order, strings escaped, number tokens verbatim.
pub open spec fn spec_print_json(j: JsonV) -> Seq<char>
    decreases j,
{
    match j {
        JsonV::Null => "null"@,
        JsonV::Bool(b) => if b {
            "true"@
        } else {
            "false"@
        },
        JsonV::Num(tok) => tok,
        JsonV::Str(s) => seq!['"'] + spec_esc_str(s) + seq!['"'],
        JsonV::Arr(items) => seq!['['] + spec_print_items(items) + seq![']'],
        JsonV::Obj(fs) => seq!['{'] + spec_print_members(fs) + seq!['}'],
    }
}

/// The items of an array, comma-separated.
pub open spec fn spec_print_items(items: Seq<JsonV>) -> Seq<char>
    decreases items,
{
    if items.len() == 0 {
        Seq::<char>::empty()
    } else {
        spec_print_json(items[0]) + spec_print_rest_items(items.drop_first())
    }
}

/// The items after the first, each preceded by a comma.
pub open spec fn spec_print_rest_items(items: Seq<JsonV>) -> Seq<char>
    decreases items,
{
    if items.len() == 0 {
        Seq::<char>::empty()
    } else {
        seq![','] + spec_print_json(items[0]) + spec_print_rest_items(items.drop_first())
    }
}

/// One `"key":value` member.
pub open spec fn spec_print_member(f: (Seq<char>, JsonV)) -> Seq<char>
    decreases f,
{
    seq!['"'] + spec_esc_str(f.0) + seq!['"', ':'] + spec_print_json(f.1)
}

/// The members of an object, comma-separated.
pub open spec fn spec_print_members(fs: Seq<(Seq<char>, JsonV)>) -> Seq<char>
    decreases fs,
{
    if fs.len() == 0 {
        Seq::<char>::empty()
    } else {
        spec_print_member(fs[0]) + spec_print_rest_members(fs.drop_first())
    }
}

/// The members after the first, each preceded by a comma.
pub open spec fn spec_print_rest_members(fs: Seq<(Seq<char>, JsonV)>) -> Seq<char>
    decreases fs,
{
    if fs.len() == 0 {
        Seq::<char>::empty()
    } else {
        seq![','] + spec_print_member(fs[0]) + spec_print_rest_members(fs.drop_first())
    }
}

/// Comma-prefixed item lists concatenate one value at a time.
pub proof fn lemma_rest_items_push(items: Seq<JsonV>, v: JsonV)
    ensures
        spec_print_rest_items(items.push(v)) == spec_print_rest_items(items) + seq![',']
            + spec_print_json(v),
    decreases items.len(),
{
    let p = items.push(v);
    if items.len() == 0 {
        assert(p[0] == v);
        assert(p.drop_first() =~= Seq::<JsonV>::empty());
        assert(spec_print_rest_items(Seq::<JsonV>::empty()) == Seq::<char>::empty());
        assert(spec_print_rest_items(p) =~= seq![','] + spec_print_json(v) + Seq::<char>::empty());
        assert(seq![','] + spec_print_json(v) + Seq::<char>::empty() =~= seq![',']
            + spec_print_json(v));
        assert(Seq::<char>::empty() + (seq![','] + spec_print_json(v)) =~= seq![',']
            + spec_print_json(v));
        assert(spec_print_rest_items(items) + seq![','] + spec_print_json(v) =~= seq![',']
            + spec_print_json(v));
    } else {
        assert(p[0] == items[0]);
        assert(p.drop_first() =~= items.drop_first().push(v));
        lemma_rest_items_push(items.drop_first(), v);
        assert(spec_print_rest_items(p) =~= spec_print_rest_items(items) + seq![',']
            + spec_print_json(v));
    }
}

/// Item lists concatenate one value at a time.
pub proof fn lemma_items_push(items: Seq<JsonV>, v: JsonV)
    ensures
        items.len() == 0 ==> spec_print_items(items.push(v)) == spec_print_json(v),
        items.len() > 0 ==> spec_print_items(items.push(v)) == spec_print_items(items) + seq![',']
            + spec_print_json(v),
{
    let p = items.push(v);
    if items.len() == 0 {
        assert(p[0] == v);
        assert(p.drop_first() =~= Seq::<JsonV>::empty());
        assert(spec_print_json(v) + Seq::<char>::empty() =~= spec_print_json(v));
    } else {
        assert(p[0] == items[0]);
        assert(p.drop_first() =~= items.drop_first().push(v));
        lemma_rest_items_push(items.drop_first(), v);
        assert(spec_print_items(p) =~= spec_print_items(items) + seq![','] + spec_print_json(v));
    }
}

/// Comma-prefixed member lists concatenate one member at a time.
pub proof fn lemma_rest_members_push(fs: Seq<(Seq<char>, JsonV)>, f: (Seq<char>, JsonV))
    ensures
        spec_print_rest_members(fs.push(f)) == spec_print_rest_members(fs) + seq![',']
            + spec_print_member(f),
    decreases fs.len(),
{
    let p = fs.push(f);
    if fs.len() == 0 {
        assert(p[0] == f);
        assert(p.drop_first() =~= Seq::<(Seq<char>, JsonV)>::empty());
        assert(spec_print_rest_members(Seq::<(Seq<char>, JsonV)>::empty()) == Seq::<
            char,
        >::empty());
        assert(spec_print_rest_members(p) =~= seq![','] + spec_print_member(f) + Seq::<
            char,
        >::empty());
        assert(seq![','] + spec_print_member(f) + Seq::<char>::empty() =~= seq![',']
            + spec_print_member(f));
        assert(spec_print_rest_members(fs) + seq![','] + spec_print_member(f) =~= seq![',']
            + spec_print_member(f));
    } else {
        assert(p[0] == fs[0]);
        assert(p.drop_first() =~= fs.drop_first().push(f));
        lemma_rest_members_push(fs.drop_first(), f);
        assert(spec_print_rest_members(p) =~= spec_print_rest_members(fs) + seq![',']
            + spec_print_member(f));
    }
}

/// Member lists concatenate one member at a time.
pub proof fn lemma_members_push(fs: Seq<(Seq<char>, JsonV)>, f: (Seq<char>, JsonV))
    ensures
        fs.len() == 0 ==> spec_print_members(fs.push(f)) == spec_print_member(f),
        fs.len() > 0 ==> spec_print_members(fs.push(f)) == spec_print_members(fs) + seq![',']
            + spec_print_member(f),
{
    let p = fs.push(f);
    if fs.len() == 0 {
        assert(p[0] == f);
        assert(p.drop_first() =~= Seq::<(Seq<char>, JsonV)>::empty());
        assert(spec_print_member(f) + Seq::<char>::empty() =~= spec_print_member(f));
    } else {
        assert(p[0] == fs[0]);
        assert(p.drop_first() =~= fs.drop_first().push(f));
        lemma_rest_members_push(fs.drop_first(), f);
        assert(spec_print_members(p) =~= spec_print_members(fs) + seq![','] + spec_print_member(
            f,
        ));
    }
}

/// Appends the escape of one character.
fn push_esc_char(out: &mut Vec<char>, c: char)
    ensures
        final(out)@ == old(out)@ + spec_esc_char(c),
{
    if c == '"' {
        out.push('\\');
        out.push('"');
        proof {
            assert(out@ =~= old(out)@ + spec_esc_char(c));
        }
    } else if c == '\\' {
        out.push('\\');
        out.push('\\');
        proof {
            assert(out@ =~= old(out)@ + spec_esc_char(c));
        }
    } else if (c as u32) < 32 {
        out.push('\\');
        out.push('u');
        out.push('0');
        out.push('0');
        let u = c as u32;
        out.push(crate::client::hex_digit((u / 16) as u8));
        out.push(crate::client::hex_digit((u % 16) as u8));
        proof {
            assert(out@ =~= old(out)@ + spec_esc_char(c));
        }
    } else {
        out.push(c);
        proof {
            assert(out@ =~= old(out)@ + spec_esc_char(c));
        }
    }
}

/// Appends a quoted, escaped string.
fn push_quoted(out: &mut Vec<char>, s: &String)
    ensures
        final(out)@ == old(out)@ + seq!['"'] + spec_esc_str(s@) + seq!['"'],
{
    out.push('"');
    let cs = crate::text::str_to_chars(s.as_str());
    let ghost base = out@;
    proof {
        assert(cs@.subrange(0, 0) =~= Seq::<char>::empty());
        assert(base =~= base + spec_esc_str(cs@.subrange(0, 0)));
    }
    let n = cs.len();
    let mut k: usize = 0;
    while k < n
        invariant
            k <= n,
            n == cs@.len(),
            cs@ == s@,
            out@ == base + spec_esc_str(cs@.subrange(0, k as int)),
        decreases n - k,
    {
        push_esc_char(out, cs[k]);
        proof {
            assert(cs@.subrange(0, k as int).push(cs@[k as int]) =~= cs@.subrange(
                0,
                k as int + 1,
            ));
            lemma_esc_str_push(cs@.subrange(0, k as int), cs@[k as int]);
            assert(out@ =~= base + spec_esc_str(cs@.subrange(0, k as int + 1)));
        }
        k = k + 1;
    }
    out.push('"');
    proof {
        assert(cs@.subrange(0, n as int) =~= cs@);
        assert(out@ =~= old(out)@ + seq!['"'] + spec_esc_str(s@) + seq!['"']);
    }
}

/// Appends the canonical text of a JSON value.
fn print_chars(v: &JsonValue, out: &mut Vec<char>)
    ensures
        final(out)@ == old(out)@ + spec_print_json(v@),
    decreases v@,
{
    match v {
        JsonValue::Null => {
            proof {
                reveal_strlit("null");
            }
            out.push('n');
            out.push('u');
            out.push('l');
            out.push('l');
            proof {
                assert(out@ =~= old(out)@ + "null"@);
            }
        },
        JsonValue::Bool(b) => {
            proof {
                reveal_strlit("true");
                reveal_strlit("false");
            }
            if *b {
                out.push('t');
                out.push('r');
                out.push('u');
                out.push('e');
                proof {
                    assert(out@ =~= old(out)@ + "true"@);
                }
            } else {
                out.push('f');
                out.push('a');
                out.push('l');
                out.push('s');
                out.push('e');
                proof {
                    assert(out@ =~= old(out)@ + "false"@);
                }
            }
        },
        JsonValue::Num(tok) => {
            let mut cs = crate::text::str_to_chars(tok.as_str());
            out.append(&mut cs);
        },
        JsonValue::Str(s) => {
            push_quoted(out, s);
            proof {
                assert(old(out)@ + seq!['"'] + spec_esc_str(s@) + seq!['"'] =~= old(out)@ + (
                seq!['"'] + spec_esc_str(s@) + seq!['"']));
            }
        },
        JsonValue::Arr(items) => {
            let ghost iv = items_view(items@);
            out.push('[');
            let ghost base = out@;
            proof {
                assert(iv.subrange(0, 0) =~= Seq::<JsonV>::empty());
                assert(out@ =~= base + spec_print_items(iv.subrange(0, 0)));
            }
            let n = items.len();
            let mut k: usize = 0;
            while k < n
                invariant
                    k <= n,
                    n == items@.len(),
                    *v == JsonValue::Arr(*items),
                    iv == items_view(items@),
                    out@ == base + spec_print_items(iv.subrange(0, k as int)),
                decreases n - k,
            {
                let ghost pre = out@;
                if k > 0 {
                    out.push(',');
                }
                proof {
                    assert(v@->Arr_0 == iv);
                    assert(decreases_to!(v@ => v@->Arr_0));
                    assert(decreases_to!(iv => iv[k as int]));
                    assert(items@[k as int]@ == iv[k as int]);
                }
                print_chars(&items[k], out);
                proof {
                    assert(iv[k as int] == items@[k as int]@);
                    assert(iv.subrange(0, k as int).push(iv[k as int]) =~= iv.subrange(
                        0,
                        k as int + 1,
                    ));
                    lemma_items_push(iv.subrange(0, k as int), iv[k as int]);
                    if k == 0 {
                        assert(out@ =~= base + spec_print_items(iv.subrange(0, 1)));
                    } else {
                        assert(out@ =~= base + spec_print_items(iv.subrange(0, k as int + 1)));
                    }
                }
                k = k + 1;
            }
            out.push(']');
            proof {
                assert(iv.subrange(0, n as int) =~= iv);
                assert(out@ =~= old(out)@ + spec_print_json(v@));
            }
        },
        JsonValue::Obj(fields) => {
            let ghost fv = fields_view(fields@);
            out.push('{');
            let ghost base = out@;
            proof {
                assert(fv.subrange(0, 0) =~= Seq::<(Seq<char>, JsonV)>::empty());
                assert(out@ =~= base + spec_print_members(fv.subrange(0, 0)));
            }
            let n = fields.len();
            let mut k: usize = 0;
            while k < n
                invariant
                    k <= n,
                    n == fields@.len(),
                    *v == JsonValue::Obj(*fields),
                    fv == fields_view(fields@),
                    out@ == base + spec_print_members(fv.subrange(0, k as int)),
                decreases n - k,
            {
                if k > 0 {
                    out.push(',');
                }
                let ghost pre = out@;
                push_quoted(out, &fields[k].0);
                out.push(':');
                proof {
                    assert(out@ =~= pre + (seq!['"'] + spec_esc_str(fields@[k as int].0@) + seq![
                        '"',
                        ':',
                    ]));
                }
                proof {
                    assert(v@->Obj_0 == fv);
                    assert(decreases_to!(v@ => v@->Obj_0));
                    assert(decreases_to!(fv => fv[k as int]));
                    assert(decreases_to!(fv[k as int] => fv[k as int].1));
                    assert(fields@[k as int].1@ == fv[k as int].1);
                }
                print_chars(&fields[k].1, out);
                proof {
                    assert(fv[k as int] == (fields@[k as int].0@, fields@[k as int].1@));
                    assert(out@ =~= pre + spec_print_member(fv[k as int]));
                    assert(fv.subrange(0, k as int).push(fv[k as int]) =~= fv.subrange(
                        0,
                        k as int + 1,
                    ));
                    lemma_members_push(fv.subrange(0, k as int), fv[k as int]);
                    if k == 0 {
                        assert(out@ =~= base + spec_print_members(fv.subrange(0, 1)));
                    } else {
                        assert(out@ =~= base + spec_print_members(fv.subrange(0, k as int + 1)));
                    }
                }
                k = k + 1;
            }
            out.push('}');
            proof {
                assert(fv.subrange(0, n as int) =~= fv);
                assert(out@ =~= old(out)@ + spec_print_json(v@));
            }
        },
    }
}

/// The canonical JSON text of a value: no whitespace, fields in order,
/// strings escaped, number tokens verbatim.
pub fn print_json(v: &JsonValue) -> (r: String)
    ensures
        r@ == spec_print_json(v@),
{
    let mut out: Vec<char> = Vec::new();
    print_chars(v, &mut out);
    proof {
        assert(Seq::<char>::empty() + spec_print_json(v@) =~= spec_print_json(v@));
    }
    crate::text::chars_to_string(&out)
}

/// When `t[i..]` starts with `w`, each character of `w` stands in `t` at
/// its offset.
pub proof fn lemma_starts_with_index(t: Seq<char>, i: int, w: Seq<char>)
    requires
        starts_with_at(t, i, w),
    ensures
        forall|k: int| 0 <= k < w.len() ==> t[i + k] == #[trigger] w[k],
{
    assert forall|k: int| 0 <= k < w.len() implies t[i + k] == #[trigger] w[k] by {
        assert(t.subrange(i, i + w.len())[k] == t[i + k]);
    }
}

/// A text that starts with a concatenation starts with its first part,
/// and with its second part right after.
pub proof fn lemma_starts_with_split(t: Seq<char>, i: int, a: Seq<char>, b: Seq<char>)
    requires
        starts_with_at(t, i, a + b),
    ensures
        starts_with_at(t, i, a),
        starts_with_at(t, i + a.len(), b),
{
    lemma_starts_with_index(t, i, a + b);
    assert forall|k: int| 0 <= k < a.len() implies t.subrange(i, i + a.len())[k] == a[k] by {
        assert((a + b)[k] == a[k]);
        assert(t[i + k] == (a + b)[k]);
    }
    assert(t.subrange(i, i + a.len()) =~= a);
    assert forall|k: int|
        0 <= k < b.len() implies t.subrange(i + a.len(), i + a.len() + b.len())[k] == b[k] by {
        assert((a + b)[a.len() + k] == b[k]);
        assert(t[i + a.len() + k] == (a + b)[a.len() + k]);
    }
    assert(t.subrange(i + a.len(), i + a.len() + b.len()) =~= b);
}

/// A hexadecimal digit character reads back as its value.
proof fn lemma_hex_digit_val(d: int)
    requires
        0 <= d < 16,
    ensures
        spec_hex_val(crate::client::spec_hex_digit(d)) == d,
{
    assert(crate::client::spec_hex_digit(d) as u32 == if d < 10 {
        48 + d
    } else {
        55 + d
    });
}

/// The printed, escaped form of a string, followed by its closing quote,
/// parses back to exactly that string.
pub proof fn lemma_parse_esc_str(t: Seq<char>, i: int, s: Seq<char>)
    requires
        starts_with_at(t, i, spec_esc_str(s) + seq!['"']),
    ensures
        spec_parse_str_chars(t, i) == Some((s, i + spec_esc_str(s).len() + 1)),
    decreases s.len(),
{
    let whole = spec_esc_str(s) + seq!['"'];
    lemma_starts_with_index(t, i, whole);
    if s.len() == 0 {
        assert(spec_esc_str(s) == Seq::<char>::empty());
        assert(whole[0] == '"');
        assert(t[i] == '"');
    } else {
        let c = s[0];
        let rest = s.drop_first();
        assert(spec_esc_str(s) == spec_esc_char(c) + spec_esc_str(rest));
        assert(spec_esc_char(c) + spec_esc_str(rest) + seq!['"'] =~= spec_esc_char(c) + (
        spec_esc_str(rest) + seq!['"']));
        lemma_starts_with_split(t, i, spec_esc_char(c), spec_esc_str(rest) + seq!['"']);
        let j = i + spec_esc_char(c).len();
        lemma_parse_esc_str(t, j, rest);
        lemma_starts_with_index(t, i, spec_esc_char(c));
        if c == '"' {
            assert(spec_esc_char(c) == seq!['\\', '"']);
            assert(t[i] == '\\' && t[i + 1] == '"');
            assert(spec_parse_str_chars(t, i) == Some((seq![c] + rest, j + spec_esc_str(
                rest,
            ).len() + 1)));
            assert(seq![c] + rest =~= s);
        } else if c == '\\' {
            assert(t[i] == '\\' && t[i + 1] == '\\');
            assert(seq![c] + rest =~= s);
        } else if (c as u32) < 32 {
            let u = c as u32 as int;
            assert(spec_esc_char(c) == seq![
                '\\',
                'u',
                '0',
                '0',
                crate::client::spec_hex_digit(u / 16),
                crate::client::spec_hex_digit(u % 16),
            ]);
            assert(t[i] == '\\' && t[i + 1] == 'u' && t[i + 2] == '0' && t[i + 3] == '0');
            assert(t[i + 4] == crate::client::spec_hex_digit(u / 16));
            assert(t[i + 5] == crate::client::spec_hex_digit(u % 16));
            assert(spec_hex_val('0') == 0);
            lemma_hex_digit_val(u / 16);
            lemma_hex_digit_val(u % 16);
            let code = spec_hex_val(t[i + 2]) * 4096 + spec_hex_val(t[i + 3]) * 256 + spec_hex_val(
                t[i + 4],
            ) * 16 + spec_hex_val(t[i + 5]);
            assert(code == u);
            assert(is_bmp_scalar(code));
            vstd::utf8::char_u32_cast(c, c as u32);
            assert((c as u32) as char == c);
            assert(code as char == c);
            assert(seq![c] + rest =~= s);
        } else {
            assert(spec_esc_char(c) == seq![c]);
            assert(spec_esc_char(c)[0] == c);
            assert(t[i] == c);
            assert(t[i] != '"' && t[i] != '\\');
            assert(seq![c] + rest =~= s);
        }
    }
}

/// True for characters that could extend a number token.
pub open spec fn extends_number(c: char) -> bool {
    crate::model::is_digit(c) || c == '.' || c == 'e' || c == 'E'
}

/// Digit scanning inside an embedded token mirrors the token's own scan,
/// when no digit follows the token.
proof fn lemma_digits_end_embed(t: Seq<char>, i: int, tok: Seq<char>, j: int)
    requires
        starts_with_at(t, i, tok),
        0 <= j <= tok.len(),
        i + tok.len() == t.len() || !crate::model::is_digit(t[i + tok.len()]),
    ensures
        digits_end(t, i + j) == i + digits_end(tok, j),
    decreases tok.len() - j,
{
    lemma_starts_with_index(t, i, tok);
    if j < tok.len() {
        assert(t[i + j] == tok[j]);
        if crate::model::is_digit(tok[j]) {
            lemma_digits_end_embed(t, i, tok, j + 1);
        }
    }
}

/// A number token embedded in a longer text parses back to exactly that
/// token, when the character after it cannot extend a number.
pub proof fn lemma_parse_number_at(t: Seq<char>, i: int, tok: Seq<char>)
    requires
        starts_with_at(t, i, tok),
        is_number_text(tok),
        i + tok.len() == t.len() || !extends_number(t[i + tok.len()]),
    ensures
        spec_parse_number(t, i) == Some((tok, i + tok.len())),
{
    lemma_starts_with_index(t, i, tok);
    let n = tok.len() as int;
    let ts = if tok[0] == '-' {
        1int
    } else {
        0int
    };
    assert(tok.len() > 0) by {
        if tok.len() == 0 {
            assert(int_part_end(tok, 0) == -1);
            assert(frac_part_end(tok, -1) == -1);
            assert(exp_part_end(tok, -1) == -1);
        }
    }
    let e1 = int_part_end(tok, ts);
    let e2 = frac_part_end(tok, e1);
    let e3 = exp_part_end(tok, e2);
    assert(e3 == n);
    assert(e1 != -1 && e2 != -1) by {
        if e1 == -1 {
            assert(frac_part_end(tok, -1) == -1);
            assert(exp_part_end(tok, -1) == -1);
        }
        if e2 == -1 {
            assert(exp_part_end(tok, -1) == -1);
        }
    }
    crate::model::lemma_digits_end_lb(tok, ts);
    crate::model::lemma_digits_end_lb(tok, ts + 1);
    // the embedded scan starts after any minus sign at the same offset
    assert(t[i] == tok[0]);
    let start = i + ts;
    // integer part
    assert(crate::model::is_digit(tok[ts]));
    assert(t[i + ts] == tok[ts]);
    lemma_digits_end_embed(t, i, tok, ts);
    assert(int_part_end(t, start) == i + e1) by {
        if tok[ts] == '0' {
        } else {
        }
    }
    assert(0 <= e1 <= n) by {
        if tok[ts] != '0' {
            crate::model::lemma_digits_end_lb(tok, ts);
            lemma_digits_end_ub(tok, ts);
        }
    }
    // fraction part
    lemma_digits_end_embed(t, i, tok, e1);
    assert(frac_part_end(t, i + e1) == i + e2) by {
        if e1 < n && tok[e1] == '.' {
            assert(t[i + e1] == tok[e1]);
            assert(e1 + 1 < n && crate::model::is_digit(tok[e1 + 1]));
            assert(t[i + e1 + 1] == tok[e1 + 1]);
            lemma_digits_end_embed(t, i, tok, e1 + 1);
        } else if e1 < n {
            assert(t[i + e1] == tok[e1]);
        } else {
            assert(e1 == n);
            if i + n < t.len() {
                assert(!extends_number(t[i + n]));
            }
        }
    }
    assert(0 <= e2 <= n) by {
        if e1 < n && tok[e1] == '.' {
            crate::model::lemma_digits_end_lb(tok, e1 + 1);
            lemma_digits_end_ub(tok, e1 + 1);
        }
    }
    // exponent part
    assert(exp_part_end(t, i + e2) == i + e3) by {
        if e2 < n && (tok[e2] == 'e' || tok[e2] == 'E') {
            assert(t[i + e2] == tok[e2]);
            let js = if e2 + 1 < n && (tok[e2 + 1] == '+' || tok[e2 + 1] == '-') {
                e2 + 2
            } else {
                e2 + 1
            };
            assert(js < n && crate::model::is_digit(tok[js]));
            assert(t[i + js] == tok[js]);
            if e2 + 1 < n {
                assert(t[i + e2 + 1] == tok[e2 + 1]);
            }
            assert((if i + e2 + 1 < t.len() && (t[i + e2 + 1] == '+' || t[i + e2 + 1] == '-') {
                i + e2 + 2
            } else {
                i + e2 + 1
            }) == i + js) by {
                if e2 + 1 == n {
                    assert(js == e2 + 1);
                    assert(js < n);
                    assert(false);
                }
            }
            lemma_digits_end_embed(t, i, tok, js);
        } else if e2 < n {
            assert(t[i + e2] == tok[e2]);
        } else {
            assert(e2 == n);
            if i + n < t.len() {
                assert(!extends_number(t[i + n]));
            }
        }
    }
    assert(t.subrange(i, i + n) == tok);
}

/// The digit scan never passes the end of the text.
proof fn lemma_digits_end_ub(s: Seq<char>, j: int)
    requires
        0 <= j <= s.len(),
    ensures
        digits_end(s, j) <= s.len(),
    decreases s.len() - j,
{
    if j < s.len() && crate::model::is_digit(s[j]) {
        lemma_digits_end_ub(s, j + 1);
    }
}

/// True for the characters that may follow a printed value inside a
/// composite: a comma or a closing bracket or brace.
pub open spec fn is_delim_char(c: char) -> bool {
    c == ',' || c == '}' || c == ']'
}

/// Well-formed JSON values: every number token is a well-formed number
/// text.
pub open spec fn json_wf(j: JsonV) -> bool
    decreases j,
{
    match j {
        JsonV::Null => true,
        JsonV::Bool(_) => true,
        JsonV::Num(tok) => is_number_text(tok),
        JsonV::Str(_) => true,
        JsonV::Arr(items) => forall|k: int| 0 <= k < items.len() ==> json_wf(#[trigger] items[k]),
        JsonV::Obj(fs) => forall|k: int| 0 <= k < fs.len() ==> json_wf(#[trigger] fs[k].1),
    }
}

/// A well-formed number token starts with a minus sign or a digit.
proof fn lemma_number_first(tok: Seq<char>)
    requires
        is_number_text(tok),
    ensures
        tok.len() > 0,
        tok[0] == '-' || crate::model::is_digit(tok[0]),
{
    if tok.len() == 0 {
        assert(int_part_end(tok, 0) == -1);
        assert(frac_part_end(tok, -1) == -1);
        assert(exp_part_end(tok, -1) == -1);
    }
    if !(tok[0] == '-' || crate::model::is_digit(tok[0])) {
        assert(int_part_end(tok, 0) == -1);
        assert(frac_part_end(tok, -1) == -1);
        assert(exp_part_end(tok, -1) == -1);
    }
}

/// The printed form of a well-formed value is nonempty and begins with a
/// character that is neither whitespace nor a delimiter.
proof fn lemma_print_first(v: JsonV)
    requires
        json_wf(v),
    ensures
        spec_print_json(v).len() > 0,
        !is_json_ws(spec_print_json(v)[0]),
        !is_delim_char(spec_print_json(v)[0]),
{
    reveal_strlit("null");
    reveal_strlit("true");
    reveal_strlit("false");
    assert("null"@.len() == 4 && "null"@[0] == 'n');
    assert("true"@.len() == 4 && "true"@[0] == 't');
    assert("false"@.len() == 5 && "false"@[0] == 'f');
    match v {
        JsonV::Num(tok) => {
            lemma_number_first(tok);
        },
        JsonV::Str(s) => {
            assert(spec_print_json(v)[0] == '"');
        },
        JsonV::Arr(items) => {
            assert(spec_print_json(v)[0] == '[');
        },
        JsonV::Obj(fs) => {
            assert(spec_print_json(v)[0] == '{');
        },
        _ => {},
    }
}

/// Skipping whitespace at a non-whitespace character stands still.
proof fn lemma_skip_ws_id(t: Seq<char>, i: int)
    requires
        0 <= i,
        i == t.len() || !is_json_ws(t[i]),
    ensures
        spec_skip_ws(t, i) == i,
{
}

/// Parsing the printed form of a well-formed value, embedded in a longer
/// text and followed by a delimiter or the end, yields exactly that value.
pub proof fn lemma_parse_print_value(t: Seq<char>, i: int, v: JsonV)
    requires
        json_wf(v),
        starts_with_at(t, i, spec_print_json(v)),
        i + spec_print_json(v).len() == t.len() || is_delim_char(
            t[i + spec_print_json(v).len()],
        ),
    ensures
        spec_parse_value(t, i) == Some((v, i + spec_print_json(v).len())),
    decreases v,
{
    reveal_strlit("null");
    reveal_strlit("true");
    reveal_strlit("false");
    assert("null"@.len() == 4 && "null"@[0] == 'n' && "null"@[1] == 'u' && "null"@[2] == 'l'
        && "null"@[3] == 'l');
    assert("true"@.len() == 4 && "true"@[0] == 't');
    assert("false"@.len() == 5 && "false"@[0] == 'f');
    let p = spec_print_json(v);
    let end = i + p.len();
    lemma_print_first(v);
    lemma_starts_with_index(t, i, p);
    assert(t[i] == p[0]);
    lemma_skip_ws_id(t, i);
    match v {
        JsonV::Null => {
            assert(t.subrange(i, i + 4) == "null"@);
            assert(starts_with_at(t, i, "null"@));
            if starts_with_at(t, i, "true"@) {
                lemma_starts_with_index(t, i, "true"@);
                assert(t[i] == 't');
            }
            if starts_with_at(t, i, "false"@) {
                lemma_starts_with_index(t, i, "false"@);
                assert(t[i] == 'f');
            }
        },
        JsonV::Bool(b) => {
            if b {
                assert(t.subrange(i, i + 4) == "true"@);
                assert(starts_with_at(t, i, "true"@));
            } else {
                assert(t.subrange(i, i + 5) == "false"@);
                assert(starts_with_at(t, i, "false"@));
                if starts_with_at(t, i, "true"@) {
                    lemma_starts_with_index(t, i, "true"@);
                    assert(t[i] == 't');
                }
            }
        },
        JsonV::Num(tok) => {
            lemma_number_first(tok);
            if starts_with_at(t, i, "true"@) {
                lemma_starts_with_index(t, i, "true"@);
                assert(t[i] == 't');
            }
            if starts_with_at(t, i, "false"@) {
                lemma_starts_with_index(t, i, "false"@);
                assert(t[i] == 'f');
            }
            if starts_with_at(t, i, "null"@) {
                lemma_starts_with_index(t, i, "null"@);
                assert(t[i] == 'n');
            }
            lemma_parse_number_at(t, i, tok);
        },
        JsonV::Str(s) => {
            assert(p =~= seq!['"'] + (spec_esc_str(s) + seq!['"']));
            lemma_starts_with_split(t, i, seq!['"'], spec_esc_str(s) + seq!['"']);
            lemma_parse_esc_str(t, i + 1, s);
        },
        JsonV::Arr(items) => {
            assert(t[i] == '[');
            if items.len() == 0 {
                assert(spec_print_items(items) == Seq::<char>::empty());
                assert(p.len() == 2);
                assert(p[1] == ']');
                assert(t[i + 1] == ']');
                lemma_skip_ws_id(t, i + 1);
                assert(spec_parse_items_first(t, i + 1) == Some((Seq::<JsonV>::empty(), i + 2)));
                assert(items =~= Seq::<JsonV>::empty());
                assert(JsonV::Arr(Seq::<JsonV>::empty()) =~~= v);
            } else {
                assert(p =~= seq!['['] + (spec_print_items(items) + seq![']']));
                lemma_starts_with_split(t, i, seq!['['], spec_print_items(items) + seq![']']);
                lemma_parse_print_item_list(t, i + 1, items);
                lemma_print_first(items[0]);
                lemma_starts_with_index(t, i + 1, spec_print_items(items) + seq![']']);
                assert((spec_print_items(items) + seq![']'])[0] == spec_print_items(items)[0]);
                assert(spec_print_items(items)[0] == spec_print_json(items[0])[0]);
                assert(t[i + 1] == spec_print_items(items)[0]);
                lemma_skip_ws_id(t, i + 1);
                assert(t[i + 1] != ']');
            }
        },
        JsonV::Obj(fs) => {
            assert(t[i] == '{');
            if fs.len() == 0 {
                assert(spec_print_members(fs) == Seq::<char>::empty());
                assert(p.len() == 2);
                assert(p[1] == '}');
                assert(t[i + 1] == '}');
                lemma_skip_ws_id(t, i + 1);
                assert(spec_parse_members_first(t, i + 1) == Some((
                    Seq::<(Seq<char>, JsonV)>::empty(),
                    i + 2,
                )));
                assert(fs =~= Seq::<(Seq<char>, JsonV)>::empty());
                assert(JsonV::Obj(Seq::<(Seq<char>, JsonV)>::empty()) =~~= v);
            } else {
                assert(p =~= seq!['{'] + (spec_print_members(fs) + seq!['}']));
                lemma_starts_with_split(t, i, seq!['{'], spec_print_members(fs) + seq!['}']);
                lemma_parse_print_member_list(t, i + 1, fs);
                lemma_starts_with_index(t, i + 1, spec_print_members(fs) + seq!['}']);
                assert((spec_print_members(fs) + seq!['}'])[0] == spec_print_members(fs)[0]);
                assert(spec_print_members(fs)[0] == spec_print_member(fs[0])[0]);
                assert(spec_print_member(fs[0])[0] == (seq!['"'] + spec_esc_str(fs[0].0) + seq![
                    '"',
                    ':',
                ] + spec_print_json(fs[0].1))[0]);
                assert(spec_print_member(fs[0])[0] == '"');
                assert(t[i + 1] == '"');
                lemma_skip_ws_id(t, i + 1);
                assert(t[i + 1] != '}');
            }
        },
    }
}

/// Parsing the printed form of a nonempty item list, followed by its
/// closing bracket, yields exactly those items.
pub proof fn lemma_parse_print_item_list(t: Seq<char>, i: int, items: Seq<JsonV>)
    requires
        items.len() > 0,
        forall|k: int| 0 <= k < items.len() ==> json_wf(#[trigger] items[k]),
        starts_with_at(t, i, spec_print_items(items) + seq![']']),
    ensures
        spec_parse_item_list(t, i) == Some((items, i + spec_print_items(items).len() + 1)),
    decreases items,
{
    let head = items[0];
    let rest = items.drop_first();
    let ph = spec_print_json(head);
    assert(json_wf(head));
    lemma_print_first(head);
    lemma_starts_with_index(t, i, spec_print_items(items) + seq![']']);
    if rest.len() == 0 {
        assert(spec_print_rest_items(rest) == Seq::<char>::empty());
        assert(spec_print_items(items) =~= ph);
        assert(spec_print_items(items) + seq![']'] =~= ph + seq![']']);
        lemma_starts_with_split(t, i, ph, seq![']']);
        assert(t[i + ph.len()] == ']') by {
            lemma_starts_with_index(t, i + ph.len(), seq![']']);
            assert(seq![']'][0] == ']');
        }
        lemma_parse_print_value(t, i, head);
        lemma_skip_ws_id(t, i + ph.len());
        assert(seq![head] =~= items);
    } else {
        assert(spec_print_rest_items(rest) =~= seq![','] + spec_print_items(rest)) by {
            assert(spec_print_rest_items(rest) == seq![','] + spec_print_json(rest[0])
                + spec_print_rest_items(rest.drop_first()));
            assert(spec_print_items(rest) == spec_print_json(rest[0]) + spec_print_rest_items(
                rest.drop_first(),
            ));
        }
        assert(spec_print_items(items) + seq![']'] =~= ph + (seq![','] + (spec_print_items(rest)
            + seq![']'])));
        lemma_starts_with_split(t, i, ph, seq![','] + (spec_print_items(rest) + seq![']']));
        lemma_starts_with_split(
            t,
            i + ph.len(),
            seq![','],
            spec_print_items(rest) + seq![']'],
        );
        assert(t[i + ph.len()] == ',') by {
            lemma_starts_with_index(t, i + ph.len(), seq![',']);
            assert(seq![','][0] == ',');
        }
        lemma_parse_print_value(t, i, head);
        lemma_skip_ws_id(t, i + ph.len());
        assert forall|k: int| 0 <= k < rest.len() implies json_wf(#[trigger] rest[k]) by {
            assert(rest[k] == items[k + 1]);
        }
        lemma_parse_print_item_list(t, i + ph.len() + 1, rest);
        assert(seq![head] + rest =~= items);
    }
}

/// Parsing the printed form of a nonempty member list, followed by its
/// closing brace, yields exactly those members.
pub proof fn lemma_parse_print_member_list(t: Seq<char>, i: int, fs: Seq<(Seq<char>, JsonV)>)
    requires
        fs.len() > 0,
        forall|k: int| 0 <= k < fs.len() ==> json_wf(#[trigger] fs[k].1),
        starts_with_at(t, i, spec_print_members(fs) + seq!['}']),
    ensures
        spec_parse_member_list(t, i) == Some((fs, i + spec_print_members(fs).len() + 1)),
    decreases fs,
{
    let head = fs[0];
    let rest = fs.drop_first();
    let key = head.0;
    let value = head.1;
    let pm = spec_print_member(head);
    let pv = spec_print_json(value);
    assert(json_wf(value));
    lemma_print_first(value);
    lemma_starts_with_index(t, i, spec_print_members(fs) + seq!['}']);
    // the member splits into the quoted key, the colon, and the value
    assert(pm =~= seq!['"'] + ((spec_esc_str(key) + seq!['"']) + (seq![':'] + pv)));
    let key_end = i + 1 + spec_esc_str(key).len() + 1;
    if rest.len() == 0 {
        assert(spec_print_rest_members(rest) == Seq::<char>::empty());
        assert(spec_print_members(fs) =~= pm);
        assert(spec_print_members(fs) + seq!['}'] =~= seq!['"'] + ((spec_esc_str(key) + seq!['"'])
            + (seq![':'] + (pv + seq!['}']))));
        lemma_starts_with_split(
            t,
            i,
            seq!['"'],
            (spec_esc_str(key) + seq!['"']) + (seq![':'] + (pv + seq!['}'])),
        );
        lemma_starts_with_split(
            t,
            i + 1,
            spec_esc_str(key) + seq!['"'],
            seq![':'] + (pv + seq!['}']),
        );
        lemma_starts_with_split(t, key_end, seq![':'], pv + seq!['}']);
        lemma_starts_with_split(t, key_end + 1, pv, seq!['}']);
        assert(t[i] == '"') by {
            lemma_starts_with_index(t, i, seq!['"']);
            assert(seq!['"'][0] == '"');
        }
        assert(t[key_end] == ':') by {
            lemma_starts_with_index(t, key_end, seq![':']);
            assert(seq![':'][0] == ':');
        }
        assert(t[key_end + 1 + pv.len()] == '}') by {
            lemma_starts_with_index(t, key_end + 1 + pv.len(), seq!['}']);
            assert(seq!['}'][0] == '}');
        }
        lemma_skip_ws_id(t, i);
        lemma_parse_esc_str(t, i + 1, key);
        lemma_skip_ws_id(t, key_end);
        lemma_parse_print_value(t, key_end + 1, value);
        lemma_skip_ws_id(t, key_end + 1 + pv.len());
        assert(seq![(key, value)] =~= fs);
    } else {
        assert(spec_print_rest_members(rest) =~= seq![','] + spec_print_members(rest)) by {
            assert(spec_print_rest_members(rest) == seq![','] + spec_print_member(rest[0])
                + spec_print_rest_members(rest.drop_first()));
            assert(spec_print_members(rest) == spec_print_member(rest[0])
                + spec_print_rest_members(rest.drop_first()));
        }
        assert(spec_print_members(fs) + seq!['}'] =~= seq!['"'] + ((spec_esc_str(key) + seq!['"'])
            + (seq![':'] + (pv + (seq![','] + (spec_print_members(rest) + seq!['}']))))));
        lemma_starts_with_split(
            t,
            i,
            seq!['"'],
            (spec_esc_str(key) + seq!['"']) + (seq![':'] + (pv + (seq![','] + (
            spec_print_members(rest) + seq!['}'])))),
        );
        lemma_starts_with_split(
            t,
            i + 1,
            spec_esc_str(key) + seq!['"'],
            seq![':'] + (pv + (seq![','] + (spec_print_members(rest) + seq!['}']))),
        );
        lemma_starts_with_split(
            t,
            key_end,
            seq![':'],
            pv + (seq![','] + (spec_print_members(rest) + seq!['}'])),
        );
        lemma_starts_with_split(
            t,
            key_end + 1,
            pv,
            seq![','] + (spec_print_members(rest) + seq!['}']),
        );
        lemma_starts_with_split(
            t,
            key_end + 1 + pv.len(),
            seq![','],
            spec_print_members(rest) + seq!['}'],
        );
        assert(t[i] == '"') by {
            lemma_starts_with_index(t, i, seq!['"']);
            assert(seq!['"'][0] == '"');
        }
        assert(t[key_end] == ':') by {
            lemma_starts_with_index(t, key_end, seq![':']);
            assert(seq![':'][0] == ':');
        }
        assert(t[key_end + 1 + pv.len()] == ',') by {
            lemma_starts_with_index(t, key_end + 1 + pv.len(), seq![',']);
            assert(seq![','][0] == ',');
        }
        lemma_skip_ws_id(t, i);
        lemma_parse_esc_str(t, i + 1, key);
        lemma_skip_ws_id(t, key_end);
        lemma_parse_print_value(t, key_end + 1, value);
        lemma_skip_ws_id(t, key_end + 1 + pv.len());
        assert forall|k: int| 0 <= k < rest.len() implies json_wf(#[trigger] rest[k].1) by {
            assert(rest[k] == fs[k + 1]);
        }
        lemma_parse_print_member_list(t, key_end + 1 + pv.len() + 1, rest);
        assert(seq![(key, value)] + rest =~= fs);
    }
}

/// The canonical printed text of a well-formed value parses back to
/// exactly that value.
pub proof fn lemma_print_parse(v: JsonV)
    requires
        json_wf(v),
    ensures
        spec_parse_json(spec_print_json(v)) == Some(v),
{
    let t = spec_print_json(v);
    assert(t.subrange(0, t.len() as int) =~= t);
    assert(starts_with_at(t, 0, t));
    lemma_parse_print_value(t, 0, v);
    lemma_skip_ws_id(t, t.len() as int);
}

} // verus!
