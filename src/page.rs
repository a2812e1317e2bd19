//! What to send for a page request: the measuring page, a 404, or a page to
//! render with its context and cookie.
use vstd::prelude::*;
use vstd::string::StringExecFns;
use crate::client::{
    bootstrap_document, client_model_of, detect_client_info, detection_state, detection_state_of,
    generate_screen_detection_html, opt_str, opt_string, ClientInfo, ClientModel, ClientRequest,
    DetectionState,
};
use crate::config::{codes, LanguagesConfig};
use crate::language::{
    cookie_lang, default_lang, find_accepted, find_lang_pair, inferred_lang, language_of,
    locale_index, resolve_language, LanguageSource, FALLBACK_LOCALE,
};
use crate::device::{is_bot_of, ua_device_of, DeviceType};
use crate::geometry::screen_info_of;
use crate::text::{chars_of, has_substring, lower_of, same_chars};
use crate::translations::{entries_view, EntriesModel, Translations};

verus! {

/// Table used when the resolved locale has none.
pub const DEFAULT_TRANSLATION_LOCALE: &'static str = "en-EN";

/// A page to render.
#[derive(Debug)]
pub struct RenderPlan {
    pub client: ClientInfo,
    /// The locale named in the path, for pages addressed by locale.
    pub current_lang: Option<String>,
    /// Key/text table of the locale.
    pub translations: Vec<(String, String)>,
    /// Value of a `lang` cookie to set (path `/`, 365 days, `SameSite=Lax`).
    pub lang_cookie: Option<String>,
}

#[derive(Debug)]
pub enum PagePlan {
    /// The measuring page, sent instead of the content.
    Bootstrap(String),
    /// The locale in the path is not enabled.
    NotFound,
    Render(RenderPlan),
}

pub enum PageModel {
    Bootstrap(Seq<char>),
    NotFound,
    Render {
        client: ClientModel,
        current_lang: Option<Seq<char>>,
        table: EntriesModel,
        lang_cookie: Option<Seq<char>>,
    },
}

impl PagePlan {
    pub open spec fn model(&self) -> PageModel {
        match self {
            PagePlan::Bootstrap(h) => PageModel::Bootstrap(h@),
            PagePlan::NotFound => PageModel::NotFound,
            PagePlan::Render(p) => PageModel::Render {
                client: p.client.model(),
                current_lang: opt_string(p.current_lang),
                table: entries_view(p.translations@),
                lang_cookie: opt_string(p.lang_cookie),
            },
        }
    }
}

/// The translation locale of a resolved language code.
pub open spec fn translation_locale(lang: Seq<char>) -> Seq<char> {
    if lang == "de"@ {
        "de-DE"@
    } else {
        "en-EN"@
    }
}

/// The table for a language: its locale's, else the default locale's, else empty.
pub open spec fn table_for(tr: Translations, lang: Seq<char>) -> EntriesModel {
    match tr.table(translation_locale(lang)) {
        Some(t) => t,
        None => match tr.table(DEFAULT_TRANSLATION_LOCALE@) {
            Some(t) => t,
            None => Seq::<(Seq<char>, Seq<char>)>::empty(),
        },
    }
}

pub open spec fn state_of_request(req: ClientRequest) -> DetectionState {
    detection_state_of(opt_string(req.user_agent), opt_string(req.cookie))
}

/// The page for a request whose locale comes from the cascade.
pub open spec fn detected_page_of(req: ClientRequest, avail: Seq<Seq<char>>, tr: Translations) -> PageModel {
    let ua = opt_string(req.user_agent);
    let cookie = opt_string(req.cookie);
    let accept = opt_string(req.accept_language);
    if state_of_request(req) == DetectionState::AwaitingGeometry {
        PageModel::Bootstrap(bootstrap_document())
    } else {
        let (lang, source) = language_of(req.query@, cookie, accept, avail);
        PageModel::Render {
            client: client_model_of(cookie, accept, ua, lang),
            current_lang: None,
            table: table_for(tr, lang),
            lang_cookie: if source == LanguageSource::Query { Some(lang) } else { None },
        }
    }
}

/// The page for a request whose locale is named in its path.
pub open spec fn lang_page_of(req: ClientRequest, lang: Seq<char>, avail: Seq<Seq<char>>, tr: Translations) -> PageModel {
    let ua = opt_string(req.user_agent);
    let cookie = opt_string(req.cookie);
    let accept = opt_string(req.accept_language);
    if !avail.contains(lang) {
        PageModel::NotFound
    } else if state_of_request(req) == DetectionState::AwaitingGeometry {
        PageModel::Bootstrap(bootstrap_document())
    } else {
        PageModel::Render {
            client: client_model_of(cookie, accept, ua, lang),
            current_lang: Some(lang),
            table: table_for(tr, lang),
            lang_cookie: Some(lang),
        }
    }
}

fn translation_table(translations: &Translations, lang: &str) -> (r: Vec<(String, String)>)
    ensures
        entries_view(r@) == table_for(*translations, lang@),
{
    let locale = if same_chars(&chars_of(lang), &chars_of("de")) { "de-DE" } else { "en-EN" };
    translations.get_locale_with_fallback(locale, DEFAULT_TRANSLATION_LOCALE)
}

/// Plans a page whose locale is resolved from query, cookie and
/// `Accept-Language`. Only a locale chosen in the query sets a cookie.
pub fn plan_detected_page(
    req: &ClientRequest,
    languages: &LanguagesConfig,
    translations: &Translations,
) -> (r: PagePlan)
    ensures
        r.model() == detected_page_of(*req, languages.codes(), *translations),
{
    let cookie = opt_str(&req.cookie);
    let accept = opt_str(&req.accept_language);
    let ua = opt_str(&req.user_agent);
    if detection_state(ua, cookie) == DetectionState::AwaitingGeometry {
        return PagePlan::Bootstrap(generate_screen_detection_html());
    }
    let mut client = detect_client_info(cookie, accept, ua);
    let pref = resolve_language(req.query.as_str(), cookie, accept, languages);
    let lang_cookie = if pref.writes_cookie() { Some(pref.code.clone()) } else { None };
    let table = translation_table(translations, pref.code.as_str());
    client.lang = pref.code;
    PagePlan::Render(RenderPlan { client, current_lang: None, translations: table, lang_cookie })
}

/// Plans a page whose locale is named in its path; a locale that is not
/// enabled gives `NotFound`. The locale is always persisted.
pub fn plan_lang_page(
    req: &ClientRequest,
    lang: &str,
    languages: &LanguagesConfig,
    translations: &Translations,
) -> (r: PagePlan)
    ensures
        r.model() == lang_page_of(*req, lang@, languages.codes(), *translations),
{
    let found = locale_index(&languages.available, &chars_of(lang));
    match found {
        Some(j) => {
            assert(codes(languages.available@)[j as int] == lang@);
        },
        None => {
            return PagePlan::NotFound;
        },
    }
    let cookie = opt_str(&req.cookie);
    let accept = opt_str(&req.accept_language);
    let ua = opt_str(&req.user_agent);
    if detection_state(ua, cookie) == DetectionState::AwaitingGeometry {
        return PagePlan::Bootstrap(generate_screen_detection_html());
    }
    let mut client = detect_client_info(cookie, accept, ua);
    client.lang = String::from_str(lang);
    let table = translation_table(translations, lang);
    PagePlan::Render(RenderPlan {
        client,
        current_lang: Some(String::from_str(lang)),
        translations: table,
        lang_cookie: Some(String::from_str(lang)),
    })
}

/// A client whose User-Agent reads `bot` once lower-cased is classified as a
/// bot and always gets the content, never the measuring page, whatever cookies
/// it sends.
pub proof fn lemma_bots_skip_measuring(req: ClientRequest, lang: Seq<char>, avail: Seq<Seq<char>>, tr: Translations)
    requires
        req.user_agent is Some,
        has_substring(lower_of(req.user_agent->0@), "bot"@),
    ensures
        is_bot_of(opt_string(req.user_agent)),
        ua_device_of(opt_string(req.user_agent)) == DeviceType::Bot,
        state_of_request(req) == DetectionState::Bot,
        detected_page_of(req, avail, tr) is Render,
        avail.contains(lang) ==> lang_page_of(req, lang, avail, tr) is Render,
{
    let lowered = lower_of(req.user_agent->0@);
    assert(crate::device::crawler_markers()[0] == "bot"@);
    assert(crate::device::bot_markers()[0] == "bot"@);
    assert(crate::device::has_any(lowered, crate::device::crawler_markers()));
    assert(crate::device::has_any(lowered, crate::device::bot_markers()));
}

/// A client that is not a bot and has sent no usable geometry gets exactly the
/// measuring page; nothing else about it is worked out.
pub proof fn lemma_unmeasured_gets_bootstrap(req: ClientRequest, lang: Seq<char>, avail: Seq<Seq<char>>, tr: Translations)
    requires
        screen_info_of(opt_string(req.cookie)) is None,
        !is_bot_of(opt_string(req.user_agent)),
    ensures
        detected_page_of(req, avail, tr) == PageModel::Bootstrap(bootstrap_document()),
        avail.contains(lang) ==> lang_page_of(req, lang, avail, tr) == PageModel::Bootstrap(bootstrap_document()),
{
}

/// Planning the same request twice gives the same client context and the same
/// cookie decision: the plan depends on the request and configuration alone.
pub proof fn lemma_planning_idempotent(
    req: ClientRequest,
    avail: Seq<Seq<char>>,
    tr: Translations,
    first: PagePlan,
    second: PagePlan,
)
    requires
        first.model() == detected_page_of(req, avail, tr),
        second.model() == detected_page_of(req, avail, tr),
    ensures
        first.model() == second.model(),
{
}

/// The locale a bare path redirects to: tiers two to four of the cascade,
/// that is an enabled `lang` cookie, else the first enabled `Accept-Language`
/// entry, else the first enabled locale.
pub open spec fn redirect_lang_of(cookie: Option<Seq<char>>, accept: Option<Seq<char>>, avail: Seq<Seq<char>>) -> Seq<char> {
    match cookie_lang(cookie, avail) {
        Some(l) => l,
        None => match inferred_lang(accept, avail) {
            Some(l) => l,
            None => default_lang(avail),
        },
    }
}

/// The redirect picks the locale the cascade gives for a request without a
/// `lang` query parameter: the cookie, then `Accept-Language`, then the first
/// enabled locale.
pub proof fn lemma_redirect_follows_cascade(
    query: Seq<char>,
    cookie: Option<Seq<char>>,
    accept: Option<Seq<char>>,
    avail: Seq<Seq<char>>,
)
    requires
        crate::language::query_lang(query, avail) is None,
    ensures
        redirect_lang_of(cookie, accept, avail) == language_of(query, cookie, accept, avail).0,
        cookie_lang(cookie, avail) is Some ==> redirect_lang_of(cookie, accept, avail) == cookie_lang(cookie, avail)->0,
        cookie_lang(cookie, avail) is None && inferred_lang(accept, avail) is None && avail.len() > 0
            ==> redirect_lang_of(cookie, accept, avail) == avail[0],
{
}

/// The `Location` for a path without a locale: `/<locale><path>`.
pub fn redirect_target(req: &ClientRequest, path: &str, languages: &LanguagesConfig) -> (r: String)
    ensures
        r@ == "/"@ + redirect_lang_of(opt_string(req.cookie), opt_string(req.accept_language), languages.codes())
            + path@,
{
    let available = &languages.available;
    let mut found: Option<usize> = None;
    if let Some(c) = opt_str(&req.cookie) {
        found = find_lang_pair(c, ';', true, available);
    }
    if found.is_none() {
        if let Some(a) = opt_str(&req.accept_language) {
            found = find_accepted(a, available);
        }
    }
    let lang = match found {
        Some(j) => available[j].clone(),
        None => if available.len() > 0 {
            assert(codes(available@)[0] == available@[0]@);
            available[0].clone()
        } else {
            String::from_str(FALLBACK_LOCALE)
        },
    };
    let mut r = String::from_str("/");
    r.append(lang.as_str());
    r.append(path);
    r
}

} // verus!
