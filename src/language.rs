//! Locale resolution: query override, persisted cookie, `Accept-Language`,
//! configured default, in that order.
use vstd::prelude::*;
use crate::config::{codes, LanguagesConfig};
use crate::text::{
    chars_of, first_piece, has_prefix, lower_of, lowercase, opt_text, pieces, same_chars, split_on,
    starts_with_seq, sub_chars, trim_chars, trimmed, views,
};

verus! {

/// Where a resolved locale came from.
#[derive(PartialEq, Eq, Structural, Clone, Copy, Debug)]
pub enum LanguageSource {
    Query,
    Cookie,
    Inferred,
    Default,
}

/// A resolved locale code and its source.
#[derive(Debug)]
pub struct LanguagePreference {
    pub code: String,
    pub source: LanguageSource,
}

impl LanguagePreference {
    /// Only an explicit choice in the query is persisted.
    pub open spec fn spec_writes_cookie(&self) -> bool {
        self.source == LanguageSource::Query
    }

    /// Whether the response must carry a `lang` cookie.
    pub fn writes_cookie(&self) -> (r: bool)
        ensures
            r == self.spec_writes_cookie(),
    {
        self.source == LanguageSource::Query
    }
}

/// Locale used when no locale is enabled at all.
pub const FALLBACK_LOCALE: &'static str = "en";

pub open spec fn prepared(p: Seq<char>, trim: bool) -> Seq<char> {
    if trim {
        trimmed(p)
    } else {
        p
    }
}

/// The lower-cased value of a `lang=` pair.
pub open spec fn lang_value(p: Seq<char>) -> Seq<char> {
    lower_of(p.subrange("lang="@.len() as int, p.len() as int))
}

/// The value of the first `lang=` pair among `parts` that names an enabled locale.
pub open spec fn lang_pair_in(parts: Seq<Seq<char>>, trim: bool, avail: Seq<Seq<char>>) -> Option<Seq<char>>
    decreases parts.len(),
{
    if parts.len() == 0 {
        None
    } else {
        let p = prepared(parts[0], trim);
        if has_prefix(p, "lang="@) && avail.contains(lang_value(p)) {
            Some(lang_value(p))
        } else {
            lang_pair_in(parts.drop_first(), trim, avail)
        }
    }
}

/// Tier one: a `lang` parameter of the query string.
pub open spec fn query_lang(query: Seq<char>, avail: Seq<Seq<char>>) -> Option<Seq<char>> {
    lang_pair_in(pieces(query, '&'), false, avail)
}

/// Tier two: a `lang` pair of the `Cookie` header.
pub open spec fn cookie_lang(cookie: Option<Seq<char>>, avail: Seq<Seq<char>>) -> Option<Seq<char>> {
    match cookie {
        Some(c) => lang_pair_in(pieces(c, ';'), true, avail),
        None => None,
    }
}

/// The language tag of one `Accept-Language` entry, without its weight.
pub open spec fn primary_tag(part: Seq<char>) -> Seq<char> {
    trimmed(pieces(part, ';')[0])
}

/// The lower-cased first two characters of an entry's tag.
pub open spec fn tag_code(part: Seq<char>) -> Seq<char> {
    let t = primary_tag(part);
    lower_of(t.subrange(0, if t.len() < 2 { t.len() as int } else { 2 }))
}

pub open spec fn accept_lang_in(parts: Seq<Seq<char>>, avail: Seq<Seq<char>>) -> Option<Seq<char>>
    decreases parts.len(),
{
    if parts.len() == 0 {
        None
    } else if avail.contains(tag_code(parts[0])) {
        Some(tag_code(parts[0]))
    } else {
        accept_lang_in(parts.drop_first(), avail)
    }
}

/// Tier three: the first `Accept-Language` entry that names an enabled locale.
pub open spec fn inferred_lang(accept: Option<Seq<char>>, avail: Seq<Seq<char>>) -> Option<Seq<char>> {
    match accept {
        Some(a) => accept_lang_in(pieces(a, ','), avail),
        None => None,
    }
}

/// Tier four: the first enabled locale.
pub open spec fn default_lang(avail: Seq<Seq<char>>) -> Seq<char> {
    if avail.len() > 0 {
        avail[0]
    } else {
        FALLBACK_LOCALE@
    }
}

/// The cascade: the first tier that yields a locale, with that tier.
pub open spec fn language_of(
    query: Seq<char>,
    cookie: Option<Seq<char>>,
    accept: Option<Seq<char>>,
    avail: Seq<Seq<char>>,
) -> (Seq<char>, LanguageSource) {
    if let Some(l) = query_lang(query, avail) {
        (l, LanguageSource::Query)
    } else if let Some(l) = cookie_lang(cookie, avail) {
        (l, LanguageSource::Cookie)
    } else if let Some(l) = inferred_lang(accept, avail) {
        (l, LanguageSource::Inferred)
    } else {
        (default_lang(avail), LanguageSource::Default)
    }
}

/// The position of `code` among the enabled locales.
pub fn locale_index(available: &Vec<String>, code: &Vec<char>) -> (r: Option<usize>)
    ensures
        r is Some ==> r->0 < available@.len() && available@[r->0 as int]@ == code@,
        r is None ==> !codes(available@).contains(code@),
{
    let mut k: usize = 0;
    while k < available.len()
        invariant
            k <= available@.len(),
            forall|j: int| 0 <= j < k ==> available@[j]@ != code@,
        decreases available@.len() - k,
    {
        if same_chars(&chars_of(available[k].as_str()), code) {
            return Some(k);
        }
        k = k + 1;
    }
    proof {
        if codes(available@).contains(code@) {
            let j = choose|j: int| 0 <= j < codes(available@).len() && codes(available@)[j] == code@;
            assert(available@[j]@ == code@);
        }
    }
    None
}

/// Finds the first `lang=` pair of `text` (split at `sep`, pairs trimmed when
/// `trim`) that names an enabled locale; gives that locale's position.
pub(crate) fn find_lang_pair(text: &str, sep: char, trim: bool, available: &Vec<String>) -> (r: Option<usize>)
    ensures
        r is Some ==> r->0 < available@.len()
            && lang_pair_in(pieces(text@, sep), trim, codes(available@)) == Some(available@[r->0 as int]@),
        r is None ==> lang_pair_in(pieces(text@, sep), trim, codes(available@)) is None,
{
    let parts = split_on(&chars_of(text), sep);
    let key = chars_of("lang=");
    let ghost avail = codes(available@);
    let mut i: usize = 0;
    assert(views(parts@).subrange(0, parts@.len() as int) =~= views(parts@));
    while i < parts.len()
        invariant
            i <= parts@.len(),
            key@ == "lang="@,
            avail == codes(available@),
            views(parts@) == pieces(text@, sep),
            lang_pair_in(pieces(text@, sep), trim, avail)
                == lang_pair_in(views(parts@).subrange(i as int, parts@.len() as int), trim, avail),
        decreases parts@.len() - i,
    {
        let ghost rest = views(parts@).subrange(i as int, parts@.len() as int);
        assert(rest.drop_first() =~= views(parts@).subrange(i + 1, parts@.len() as int));
        assert(rest[0] == parts@[i as int]@);
        let p = if trim { trim_chars(&parts[i]) } else { sub_chars(&parts[i], 0, parts[i].len()) };
        assert(p@ == prepared(rest[0], trim)) by {
            assert(parts@[i as int]@.subrange(0, parts@[i as int]@.len() as int) =~= parts@[i as int]@);
        }
        if starts_with_seq(&p, &key) {
            let value = lowercase(&sub_chars(&p, key.len(), p.len()));
            assert(value@ == lang_value(p@));
            match locale_index(available, &value) {
                Some(j) => {
                    assert(avail[j as int] == value@);
                    return Some(j);
                },
                None => {},
            }
        }
        i = i + 1;
    }
    None
}

/// The first two characters of an entry's tag, lower-cased.
fn entry_code(part: &Vec<char>) -> (r: Vec<char>)
    ensures
        r@ == tag_code(part@),
{
    let t = trim_chars(&first_piece(part, ';'));
    let n: usize = if t.len() < 2 { t.len() } else { 2 };
    lowercase(&sub_chars(&t, 0, n))
}

/// Finds the first `Accept-Language` entry that names an enabled locale.
pub(crate) fn find_accepted(accept: &str, available: &Vec<String>) -> (r: Option<usize>)
    ensures
        r is Some ==> r->0 < available@.len()
            && accept_lang_in(pieces(accept@, ','), codes(available@)) == Some(available@[r->0 as int]@),
        r is None ==> accept_lang_in(pieces(accept@, ','), codes(available@)) is None,
{
    let parts = split_on(&chars_of(accept), ',');
    let ghost avail = codes(available@);
    let mut i: usize = 0;
    assert(views(parts@).subrange(0, parts@.len() as int) =~= views(parts@));
    while i < parts.len()
        invariant
            i <= parts@.len(),
            avail == codes(available@),
            views(parts@) == pieces(accept@, ','),
            accept_lang_in(pieces(accept@, ','), avail)
                == accept_lang_in(views(parts@).subrange(i as int, parts@.len() as int), avail),
        decreases parts@.len() - i,
    {
        let ghost rest = views(parts@).subrange(i as int, parts@.len() as int);
        assert(rest.drop_first() =~= views(parts@).subrange(i + 1, parts@.len() as int));
        assert(rest[0] == parts@[i as int]@);
        let code = entry_code(&parts[i]);
        match locale_index(available, &code) {
            Some(j) => {
                assert(avail[j as int] == code@);
                return Some(j);
            },
            None => {},
        }
        i = i + 1;
    }
    None
}

/// Resolves the locale of a request from its query string, `Cookie` header and
/// `Accept-Language` header, restricted to the enabled locales.
pub fn resolve_language(
    query: &str,
    cookie_header: Option<&str>,
    accept_language: Option<&str>,
    languages: &LanguagesConfig,
) -> (r: LanguagePreference)
    ensures
        (r.code@, r.source) == language_of(
            query@,
            opt_text(cookie_header),
            opt_text(accept_language),
            languages.codes(),
        ),
{
    let available = &languages.available;
    if let Some(j) = find_lang_pair(query, '&', false, available) {
        return LanguagePreference { code: available[j].clone(), source: LanguageSource::Query };
    }
    if let Some(c) = cookie_header {
        if let Some(j) = find_lang_pair(c, ';', true, available) {
            return LanguagePreference { code: available[j].clone(), source: LanguageSource::Cookie };
        }
    }
    if let Some(a) = accept_language {
        if let Some(j) = find_accepted(a, available) {
            return LanguagePreference { code: available[j].clone(), source: LanguageSource::Inferred };
        }
    }
    if available.len() > 0 {
        assert(codes(available@)[0] == available@[0]@);
        LanguagePreference { code: available[0].clone(), source: LanguageSource::Default }
    } else {
        LanguagePreference { code: String::from_str(FALLBACK_LOCALE), source: LanguageSource::Default }
    }
}

} // verus!
