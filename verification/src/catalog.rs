//! Message catalogs and interpolation.
//!
//! A catalog maps message keys to templates. A template may hold
//! `{{name}}` placeholders; interpolation replaces each placeholder with
//! the value of the named parameter and fails when a referenced parameter
//! is missing. The renderer threads a catalog through every call instead
//! of reading process-wide language state, so rendering stays a pure
//! function of its inputs.

use vstd::prelude::*;

use crate::errors::RenderError;
use crate::text::{chars_eq, copy_range, str_to_chars};

verus! {

/// View of a list of string pairs as a list of character-sequence pairs.
pub open spec fn pairs_view(ps: Seq<(String, String)>) -> Seq<(Seq<char>, Seq<char>)> {
    ps.map_values(|p: (String, String)| (p.0@, p.1@))
}

/// View of a list of character-vector pairs as character-sequence pairs.
pub open spec fn char_pairs_view(ps: Seq<(Vec<char>, Vec<char>)>) -> Seq<(Seq<char>, Seq<char>)> {
    ps.map_values(|p: (Vec<char>, Vec<char>)| (p.0@, p.1@))
}

/// The value of the first pair whose key equals `key`, if any.
pub open spec fn spec_lookup(entries: Seq<(Seq<char>, Seq<char>)>, key: Seq<char>) -> Option<
    Seq<char>,
>
    decreases entries.len(),
{
    if entries.len() == 0 {
        None
    } else if entries[0].0 == key {
        Some(entries[0].1)
    } else {
        spec_lookup(entries.drop_first(), key)
    }
}

/// A translation catalog: ordered (message key, template) entries.
/// Lookups return the first entry with a given key.
pub struct Catalog {
    pub entries: Vec<(String, String)>,
}

impl View for Catalog {
    type V = Seq<(Seq<char>, Seq<char>)>;

    open spec fn view(&self) -> Seq<(Seq<char>, Seq<char>)> {
        pairs_view(self.entries@)
    }
}

impl Catalog {
    /// An empty catalog.
    pub fn new() -> (r: Catalog)
        ensures
            r@ == Seq::<(Seq<char>, Seq<char>)>::empty(),
    {
        let r = Catalog { entries: Vec::new() };
        proof {
            assert(r@ =~= Seq::<(Seq<char>, Seq<char>)>::empty());
        }
        r
    }

    /// Appends one (key, template) entry.
    pub fn add(&mut self, key: String, template: String)
        ensures
            final(self)@ == old(self)@.push((key@, template@)),
    {
        let ghost k = key@;
        let ghost t = template@;
        self.entries.push((key, template));
        proof {
            assert(self@ =~= old(self)@.push((k, t)));
        }
    }

    /// The template stored under `key`, if any: the first entry that
    /// carries that key.
    pub fn lookup(&self, key: &String) -> (r: Option<String>)
        ensures
            match spec_lookup(self@, key@) {
                Some(t) => r is Some && r->Some_0@ == t,
                None => r is None,
            },
    {
        let n = self.entries.len();
        proof {
            assert(self@.subrange(0, n as int) =~= self@);
        }
        let mut i: usize = 0;
        while i < n
            invariant
                i <= n,
                n == self.entries@.len(),
                spec_lookup(self@, key@) == spec_lookup(
                    self@.subrange(i as int, n as int),
                    key@,
                ),
            decreases n - i,
        {
            proof {
                assert(self@[i as int] == (self.entries@[i as int].0@, self.entries@[i as int].1@));
                assert(self@.subrange(i as int, n as int)[0] == self@[i as int]);
                assert(self@.subrange(i as int, n as int).drop_first() =~= self@.subrange(
                    i as int + 1,
                    n as int,
                ));
            }
            if self.entries[i].0 == *key {
                return Some(self.entries[i].1.clone());
            }
            i = i + 1;
        }
        proof {
            assert(self@.subrange(n as int, n as int) =~= Seq::<(Seq<char>, Seq<char>)>::empty());
        }
        None
    }
}

/// First index at or after `from` where `}}` starts in `t`, or `-1`.
pub open spec fn spec_find_close(t: Seq<char>, from: int) -> int
    decreases t.len() - from,
{
    if from < 0 || from + 2 > t.len() {
        -1
    } else if t[from] == '}' && t[from + 1] == '}' {
        from
    } else {
        spec_find_close(t, from + 1)
    }
}

/// A found closing position lies at or after `from` and leaves room for
/// both braces.
pub proof fn lemma_find_close_bounds(t: Seq<char>, from: int)
    ensures
        spec_find_close(t, from) == -1 || (from <= spec_find_close(t, from) && spec_find_close(
            t,
            from,
        ) + 2 <= t.len()),
    decreases t.len() - from,
{
    if !(from < 0 || from + 2 > t.len()) && !(t[from] == '}' && t[from + 1] == '}') {
        lemma_find_close_bounds(t, from + 1);
    }
}

/// The interpolation of the template suffix `t[i..]` under `params`:
/// a `{{name}}` placeholder becomes the value paired with `name`, any
/// other character stands as itself, and a `{{` without a closing `}}`
/// is literal text. `None` when a referenced parameter is missing.
pub open spec fn spec_interp(
    t: Seq<char>,
    i: int,
    params: Seq<(Seq<char>, Seq<char>)>,
) -> Option<Seq<char>>
    decreases t.len() - i,
    via spec_interp_decreases
{
    if i < 0 || i >= t.len() {
        Some(Seq::<char>::empty())
    } else if i + 2 <= t.len() && t[i] == '{' && t[i + 1] == '{' && spec_find_close(t, i + 2)
        >= 0 {
        let close = spec_find_close(t, i + 2);
        let name = t.subrange(i + 2, close);
        match spec_lookup(params, name) {
            None => None,
            Some(v) => match spec_interp(t, close + 2, params) {
                None => None,
                Some(rest) => Some(v + rest),
            },
        }
    } else {
        match spec_interp(t, i + 1, params) {
            None => None,
            Some(rest) => Some(seq![t[i]] + rest),
        }
    }
}

#[via_fn]
proof fn spec_interp_decreases(t: Seq<char>, i: int, params: Seq<(Seq<char>, Seq<char>)>) {
    lemma_find_close_bounds(t, i + 2);
}

/// The result of translating `key` under a catalog and parameters:
/// the interpolated template, or the error that names what failed.
pub open spec fn spec_translate(
    cat: Seq<(Seq<char>, Seq<char>)>,
    key: Seq<char>,
    params: Seq<(Seq<char>, Seq<char>)>,
) -> Result<Seq<char>, RenderError> {
    match spec_lookup(cat, key) {
        None => Err(RenderError::UnknownKey),
        Some(t) => match spec_interp(t, 0, params) {
            None => Err(RenderError::MissingParam),
            Some(s) => Ok(s),
        },
    }
}

/// First index at or after `from` where `}}` starts, if any.
fn find_close(t: &Vec<char>, from: usize) -> (r: Option<usize>)
    requires
        from <= t@.len(),
    ensures
        match r {
            Some(j) => spec_find_close(t@, from as int) == j as int,
            None => spec_find_close(t@, from as int) == -1,
        },
{
    let n = t.len();
    if n < 2 {
        return None;
    }
    let last = n - 2;
    let mut j: usize = from;
    while j <= last
        invariant
            n == t@.len(),
            n >= 2,
            last == n - 2,
            from <= j <= n,
            spec_find_close(t@, from as int) == spec_find_close(t@, j as int),
        decreases n - j,
    {
        if t[j] == '}' && t[j + 1] == '}' {
            return Some(j);
        }
        j = j + 1;
    }
    None
}

/// The value paired with `name`, if any: the first pair that carries it.
fn param_get(params: &Vec<(Vec<char>, Vec<char>)>, name: &Vec<char>) -> (r: Option<Vec<char>>)
    ensures
        match spec_lookup(char_pairs_view(params@), name@) {
            Some(v) => r is Some && r->Some_0@ == v,
            None => r is None,
        },
{
    let n = params.len();
    proof {
        assert(char_pairs_view(params@).subrange(0, n as int) =~= char_pairs_view(params@));
    }
    let mut i: usize = 0;
    while i < n
        invariant
            i <= n,
            n == params@.len(),
            spec_lookup(char_pairs_view(params@), name@) == spec_lookup(
                char_pairs_view(params@).subrange(i as int, n as int),
                name@,
            ),
        decreases n - i,
    {
        proof {
            assert(char_pairs_view(params@)[i as int] == (
                params@[i as int].0@,
                params@[i as int].1@,
            ));
            assert(char_pairs_view(params@).subrange(i as int, n as int)[0] == char_pairs_view(
                params@,
            )[i as int]);
            assert(char_pairs_view(params@).subrange(i as int, n as int).drop_first()
                =~= char_pairs_view(params@).subrange(i as int + 1, n as int));
        }
        if chars_eq(&params[i].0, name) {
            return Some(params[i].1.clone());
        }
        i = i + 1;
    }
    proof {
        assert(char_pairs_view(params@).subrange(n as int, n as int) =~= Seq::<
            (Seq<char>, Seq<char>),
        >::empty());
    }
    None
}

/// Interpolates the template suffix `t[i..]` under `params`.
fn interp_from(t: &Vec<char>, i: usize, params: &Vec<(Vec<char>, Vec<char>)>) -> (r: Result<
    Vec<char>,
    RenderError,
>)
    requires
        i <= t@.len(),
    ensures
        match spec_interp(t@, i as int, char_pairs_view(params@)) {
            Some(s) => r is Ok && r->Ok_0@ == s,
            None => r == Err::<Vec<char>, RenderError>(RenderError::MissingParam),
        },
    decreases t@.len() - i,
{
    if i == t.len() {
        return Ok(Vec::new());
    }
    if t[i] == '{' && i + 1 < t.len() && t[i + 1] == '{' {
        match find_close(t, i + 2) {
            Some(close) => {
                proof {
                    lemma_find_close_bounds(t@, i as int + 2);
                }
                let name = copy_range(t, i + 2, close);
                match param_get(params, &name) {
                    None => {
                        return Err(RenderError::MissingParam);
                    },
                    Some(v) => {
                        match interp_from(t, close + 2, params) {
                            Err(e) => {
                                return Err(e);
                            },
                            Ok(mut rest) => {
                                let ghost v0 = v@;
                                let ghost r0 = rest@;
                                let mut out = v;
                                out.append(&mut rest);
                                proof {
                                    assert(out@ =~= v0 + r0);
                                }
                                return Ok(out);
                            },
                        }
                    },
                }
            },
            None => {
                match interp_from(t, i + 1, params) {
                    Err(e) => {
                        return Err(e);
                    },
                    Ok(mut rest) => {
                        let ghost r0 = rest@;
                        let mut out: Vec<char> = Vec::new();
                        out.push(t[i]);
                        out.append(&mut rest);
                        proof {
                            assert(out@ =~= seq![t@[i as int]] + r0);
                        }
                        return Ok(out);
                    },
                }
            },
        }
    } else {
        match interp_from(t, i + 1, params) {
            Err(e) => {
                return Err(e);
            },
            Ok(mut rest) => {
                let ghost r0 = rest@;
                let mut out: Vec<char> = Vec::new();
                out.push(t[i]);
                out.append(&mut rest);
                proof {
                    assert(out@ =~= seq![t@[i as int]] + r0);
                }
                return Ok(out);
            },
        }
    }
}

/// Converts string parameter pairs to character-vector pairs.
fn params_to_chars(params: &Vec<(String, String)>) -> (r: Vec<(Vec<char>, Vec<char>)>)
    ensures
        char_pairs_view(r@) == pairs_view(params@),
{
    let n = params.len();
    let mut r: Vec<(Vec<char>, Vec<char>)> = Vec::new();
    let mut i: usize = 0;
    while i < n
        invariant
            i <= n,
            n == params@.len(),
            r@.len() == i,
            forall|k: int|
                0 <= k < i ==> (#[trigger] r@[k]).0@ == params@[k].0@ && r@[k].1@ == params@[k].1@,
        decreases n - i,
    {
        let k = str_to_chars(params[i].0.as_str());
        let v = str_to_chars(params[i].1.as_str());
        r.push((k, v));
        i = i + 1;
    }
    proof {
        assert forall|k: int| 0 <= k < n implies char_pairs_view(r@)[k] == pairs_view(params@)[k]
        by {
            assert(char_pairs_view(r@)[k] == (r@[k].0@, r@[k].1@));
            assert(pairs_view(params@)[k] == (params@[k].0@, params@[k].1@));
        }
        assert(char_pairs_view(r@) =~= pairs_view(params@));
    }
    r
}

/// Translates `key` under `cat`: looks the template up and interpolates
/// `params` into it. Fails with `UnknownKey` when the catalog has no such
/// key and with `MissingParam` when the template references a parameter
/// that `params` does not hold.
pub fn translate(cat: &Catalog, key: &String, params: &Vec<(String, String)>) -> (r: Result<
    Vec<char>,
    RenderError,
>)
    ensures
        (r is Ok) == (spec_translate(cat@, key@, pairs_view(params@)) is Ok),
        r is Ok ==> r->Ok_0@ == spec_translate(cat@, key@, pairs_view(params@))->Ok_0,
        r is Err ==> r->Err_0 == spec_translate(cat@, key@, pairs_view(params@))->Err_0,
{
    match cat.lookup(key) {
        None => Err(RenderError::UnknownKey),
        Some(template) => {
            let t = str_to_chars(template.as_str());
            let ps = params_to_chars(params);
            interp_from(&t, 0, &ps)
        },
    }
}

} // verus!
