//! Screen geometry reported by the client through the `screen_info` cookie.
use vstd::prelude::*;
use crate::text::{
    chars_of, has_prefix, opt_text, pieces, split_on, starts_with_seq, sub_chars, trim_chars,
    trimmed, views,
};

verus! {

#[verifier::external_type_specification]
#[verifier::external_body]
pub struct ExJsonValue(serde_json::Value);

#[verifier::external_type_specification]
#[verifier::external_body]
pub struct ExJsonNumber(serde_json::Number);

/// Measurements taken by the client. `dpr` is carried as the JSON number the
/// client sent; the classification rules never read it.
#[derive(Debug)]
pub struct ScreenInfo {
    pub width: u32,
    pub height: u32,
    pub dpr: serde_json::Number,
    pub viewport_width: u32,
    pub viewport_height: u32,
}

/// What `urlencoding::decode` gives for a text: `None` where the decoded bytes
/// are not UTF-8.
pub uninterp spec fn percent_decoded(s: Seq<char>) -> Option<Seq<char>>;

/// What `serde_json::from_str::<Value>` gives for a text: `None` where it is not JSON.
pub uninterp spec fn json_value_of(s: Seq<char>) -> Option<serde_json::Value>;

/// What `Value::get` gives for a string key: the member of an object.
pub uninterp spec fn json_member_of(v: serde_json::Value, key: Seq<char>) -> Option<serde_json::Value>;

/// What `Value::as_u64` gives: the value of a non-negative JSON integer.
pub uninterp spec fn json_u64_of(v: serde_json::Value) -> Option<u64>;

/// What `Value::as_number` gives: the number a JSON value holds.
pub uninterp spec fn json_number_of(v: serde_json::Value) -> Option<serde_json::Number>;

/// Relies on `urlencoding::decode`: `%XX` escapes become bytes, and the result
/// must be UTF-8.
#[verifier::external_body]
fn percent_decode(s: &Vec<char>) -> (r: Option<Vec<char>>)
    ensures
        r is Some ==> percent_decoded(s@) == Some(r->0@),
        r is None ==> percent_decoded(s@) is None,
{
    let text: String = s.iter().collect();
    match urlencoding::decode(&text) {
        Ok(d) => Some(d.chars().collect()),
        Err(_) => None,
    }
}

/// Relies on `serde_json::from_str` parsing a text into a `Value`.
#[verifier::external_body]
fn parse_json(s: &Vec<char>) -> (r: Option<serde_json::Value>)
    ensures
        r == json_value_of(s@),
{
    let text: String = s.iter().collect();
    serde_json::from_str::<serde_json::Value>(&text).ok()
}

/// Relies on `Value::get` with a string key: the member of an object of that name.
#[verifier::external_body]
fn json_member<'a>(v: &'a serde_json::Value, key: &str) -> (r: Option<&'a serde_json::Value>)
    ensures
        r is Some ==> json_member_of(*v, key@) == Some(*r->0),
        r is None ==> json_member_of(*v, key@) is None,
{
    v.get(key)
}

/// Relies on `Value::as_u64`.
pub assume_specification[ serde_json::Value::as_u64 ](v: &serde_json::Value) -> (r: Option<u64>)
    ensures
        r == json_u64_of(*v),
;

/// Relies on `Value::as_number`.
pub assume_specification[ serde_json::Value::as_number ](v: &serde_json::Value) -> (r: Option<&serde_json::Number>)
    ensures
        r is Some ==> json_number_of(*v) == Some(*r->0),
        r is None ==> json_number_of(*v) is None,
;

/// Relies on the derived `Clone` of `serde_json::Number`: a copy of the same number.
pub assume_specification[ <serde_json::Number as Clone>::clone ](n: &serde_json::Number) -> (r: serde_json::Number)
    ensures
        r == *n,
;

/// The `u32` held by member `key` of `v`, as a derived `Deserialize` reads it.
pub open spec fn u32_member(v: serde_json::Value, key: Seq<char>) -> Option<u32> {
    match json_member_of(v, key) {
        Some(m) => match json_u64_of(m) {
            Some(n) => if n <= u32::MAX { Some(n as u32) } else { None },
            None => None,
        },
        None => None,
    }
}

/// The geometry that a JSON value describes, if it has all five members.
pub open spec fn geometry_of_json(v: serde_json::Value) -> Option<ScreenInfo> {
    let w = u32_member(v, "width"@);
    let h = u32_member(v, "height"@);
    let vw = u32_member(v, "viewport_width"@);
    let vh = u32_member(v, "viewport_height"@);
    let d = match json_member_of(v, "dpr"@) {
        Some(m) => json_number_of(m),
        None => None,
    };
    if w is Some && h is Some && vw is Some && vh is Some && d is Some {
        Some(
            ScreenInfo {
                width: w->0,
                height: h->0,
                dpr: d->0,
                viewport_width: vw->0,
                viewport_height: vh->0,
            },
        )
    } else {
        None
    }
}

/// The geometry carried by a percent-encoded JSON cookie value.
pub open spec fn geometry_of_payload(s: Seq<char>) -> Option<ScreenInfo> {
    match percent_decoded(s) {
        Some(d) => match json_value_of(d) {
            Some(v) => geometry_of_json(v),
            None => None,
        },
        None => None,
    }
}

/// The geometry of the first `screen_info=` pair among `parts` that decodes.
pub open spec fn screen_info_in(parts: Seq<Seq<char>>) -> Option<ScreenInfo>
    decreases parts.len(),
{
    if parts.len() == 0 {
        None
    } else {
        let t = trimmed(parts[0]);
        let p = "screen_info="@;
        if has_prefix(t, p) && geometry_of_payload(t.subrange(p.len() as int, t.len() as int)) is Some {
            geometry_of_payload(t.subrange(p.len() as int, t.len() as int))
        } else {
            screen_info_in(parts.drop_first())
        }
    }
}

/// The geometry that a `Cookie` header carries; `None` without the header.
pub open spec fn screen_info_of(cookie_header: Option<Seq<char>>) -> Option<ScreenInfo> {
    match cookie_header {
        Some(h) => screen_info_in(pieces(h, ';')),
        None => None,
    }
}

fn u32_field(v: &serde_json::Value, key: &str) -> (r: Option<u32>)
    ensures
        r == u32_member(*v, key@),
{
    match json_member(v, key) {
        Some(m) => match m.as_u64() {
            Some(n) => if n <= u32::MAX as u64 { Some(n as u32) } else { None },
            None => None,
        },
        None => None,
    }
}

/// Reads the geometry from a decoded JSON value.
pub fn geometry_from_json(v: &serde_json::Value) -> (r: Option<ScreenInfo>)
    ensures
        r == geometry_of_json(*v),
{
    let w = u32_field(v, "width");
    let h = u32_field(v, "height");
    let vw = u32_field(v, "viewport_width");
    let vh = u32_field(v, "viewport_height");
    let d = match json_member(v, "dpr") {
        Some(m) => match m.as_number() {
            Some(n) => Some(n.clone()),
            None => None,
        },
        None => None,
    };
    match (w, h, vw, vh, d) {
        (Some(width), Some(height), Some(viewport_width), Some(viewport_height), Some(dpr)) => {
            Some(ScreenInfo { width, height, dpr, viewport_width, viewport_height })
        },
        _ => None,
    }
}

/// Decodes a percent-encoded JSON cookie value into a geometry.
pub fn geometry_from_payload(s: &Vec<char>) -> (r: Option<ScreenInfo>)
    ensures
        r == geometry_of_payload(s@),
{
    match percent_decode(s) {
        Some(d) => match parse_json(&d) {
            Some(v) => geometry_from_json(&v),
            None => None,
        },
        None => None,
    }
}

/// Finds the geometry cookie in a `Cookie` header. Total: a missing header, a
/// missing pair, a bad escape or bad JSON all give `None`.
pub fn parse_screen_info(cookie_header: Option<&str>) -> (r: Option<ScreenInfo>)
    ensures
        r == screen_info_of(opt_text(cookie_header)),
{
    let header = match cookie_header {
        Some(h) => h,
        None => return None,
    };
    let parts = split_on(&chars_of(header), ';');
    let prefix = chars_of("screen_info=");
    let mut i: usize = 0;
    assert(views(parts@).subrange(0, parts@.len() as int) =~= views(parts@));
    while i < parts.len()
        invariant
            i <= parts@.len(),
            opt_text(cookie_header) == Some(header@),
            prefix@ == "screen_info="@,
            views(parts@) == pieces(header@, ';'),
            screen_info_of(Some(header@)) == screen_info_in(views(parts@).subrange(i as int, parts@.len() as int)),
        decreases parts@.len() - i,
    {
        let ghost rest = views(parts@).subrange(i as int, parts@.len() as int);
        assert(rest.drop_first() =~= views(parts@).subrange(i + 1, parts@.len() as int));
        assert(rest[0] == parts@[i as int]@);
        let t = trim_chars(&parts[i]);
        if starts_with_seq(&t, &prefix) {
            let value = sub_chars(&t, prefix.len(), t.len());
            let g = geometry_from_payload(&value);
            assert(rest.len() > 0);
            assert(value@ == trimmed(rest[0]).subrange("screen_info="@.len() as int, trimmed(rest[0]).len() as int));
            if g.is_some() {
                return g;
            }
        }
        i = i + 1;
    }
    None
}

} // verus!
