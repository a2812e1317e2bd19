use adaptive_site::client::{ClientRequest, SCREEN_DETECTION_HTML};
use adaptive_site::config::LanguagesConfig;
use adaptive_site::device::DeviceType;
use adaptive_site::language::{resolve_language, LanguageSource};
use adaptive_site::page::{plan_detected_page, plan_lang_page, redirect_target, PagePlan};
use adaptive_site::translations::Translations;

const GEOMETRY: &str = "screen_info=%7B%22width%22%3A1920%2C%22height%22%3A1080%2C%22dpr%22%3A1%2C%22viewport_width%22%3A1280%2C%22viewport_height%22%3A720%7D";

fn enabled(codes: &[&str]) -> LanguagesConfig {
    LanguagesConfig { available: codes.iter().map(|c| c.to_string()).collect() }
}

fn request(query: &str, cookie: Option<&str>, accept: Option<&str>, ua: Option<&str>) -> ClientRequest {
    ClientRequest {
        query: query.to_string(),
        cookie: cookie.map(|c| c.to_string()),
        accept_language: accept.map(|a| a.to_string()),
        user_agent: ua.map(|u| u.to_string()),
    }
}

fn catalog() -> Translations {
    Translations::from_csv_text("key;text;locale\nhello;Hallo;de-DE\nhello;Hello;en-EN\nbye;Tschuess;de-DE\n")
}

#[test]
fn query_override_is_case_insensitive_and_persisted() {
    let langs = enabled(&["en", "de"]);
    let pref = resolve_language("lang=DE", Some("lang=en"), Some("en-US"), &langs);
    assert_eq!(pref.code, "de");
    assert_eq!(pref.source, LanguageSource::Query);
    assert!(pref.writes_cookie());
}

#[test]
fn query_override_beats_cookie_in_the_page() {
    let langs = enabled(&["en", "de"]);
    let cookie = format!("lang=en; {}", GEOMETRY);
    let req = request("lang=DE", Some(&cookie), None, Some("Firefox"));
    match plan_detected_page(&req, &langs, &catalog()) {
        PagePlan::Render(plan) => {
            assert_eq!(plan.client.lang, "de");
            assert_eq!(plan.lang_cookie, Some("de".to_string()));
            assert_eq!(plan.translations.len(), 2);
        },
        other => panic!("expected a page, got {:?}", other),
    }
}

#[test]
fn unknown_languages_fall_back_to_default_without_cookie() {
    let langs = enabled(&["en", "de"]);
    let pref = resolve_language("", None, Some("fr-FR,fr;q=0.9"), &langs);
    assert_eq!(pref.code, "en");
    assert_eq!(pref.source, LanguageSource::Default);
    assert!(!pref.writes_cookie());
}

#[test]
fn cookie_tier() {
    let langs = enabled(&["en", "de"]);
    let pref = resolve_language("page=2&lang=xx", Some("theme=dark;  lang=DE "), Some("en"), &langs);
    assert_eq!(pref.code, "de");
    assert_eq!(pref.source, LanguageSource::Cookie);
    assert!(!pref.writes_cookie());
}

#[test]
fn accept_language_tier() {
    let langs = enabled(&["en", "de"]);
    let pref = resolve_language("", Some("lang=fr"), Some("fr-CH, DE-de;q=0.8, en;q=0.5"), &langs);
    assert_eq!(pref.code, "de");
    assert_eq!(pref.source, LanguageSource::Inferred);
    assert!(!pref.writes_cookie());
}

#[test]
fn default_tier_uses_first_enabled_or_fallback() {
    let pref = resolve_language("", None, None, &enabled(&["de", "en"]));
    assert_eq!(pref.code, "de");
    assert_eq!(pref.source, LanguageSource::Default);
    let none = resolve_language("lang=de", None, Some("de"), &enabled(&[]));
    assert_eq!(none.code, "en");
    assert_eq!(none.source, LanguageSource::Default);
}

#[test]
fn first_valid_query_parameter_wins() {
    let langs = enabled(&["en", "de"]);
    let pref = resolve_language("lang=xx&lang=EN&lang=de", None, None, &langs);
    assert_eq!(pref.code, "en");
    assert_eq!(pref.source, LanguageSource::Query);
}

#[test]
fn unmeasured_client_gets_bootstrap() {
    let langs = enabled(&["en", "de"]);
    let req = request("lang=de", Some("lang=de"), Some("de"), Some("Mozilla/5.0 (iPhone)"));
    match plan_detected_page(&req, &langs, &catalog()) {
        PagePlan::Bootstrap(html) => assert_eq!(html, SCREEN_DETECTION_HTML),
        other => panic!("expected the measuring page, got {:?}", other),
    }
    match plan_lang_page(&req, "de", &langs, &catalog()) {
        PagePlan::Bootstrap(html) => assert_eq!(html, SCREEN_DETECTION_HTML),
        other => panic!("expected the measuring page, got {:?}", other),
    }
}

#[test]
fn bots_get_content_at_once() {
    let langs = enabled(&["en", "de"]);
    let req = request("", None, Some("de-DE"), Some("Mozilla/5.0 (compatible; bingbot/2.0)"));
    match plan_detected_page(&req, &langs, &catalog()) {
        PagePlan::Render(plan) => {
            assert_eq!(plan.client.device_type, DeviceType::Bot);
            assert_eq!(plan.client.lang, "de");
            assert_eq!(plan.lang_cookie, None);
            assert!(plan.translations.contains(&("hello".to_string(), "Hallo".to_string())));
        },
        other => panic!("expected a page, got {:?}", other),
    }
}

#[test]
fn planning_twice_gives_the_same_result() {
    let langs = enabled(&["en", "de"]);
    let cookie = format!("{}; lang=de", GEOMETRY);
    let req = request("", Some(&cookie), None, Some("Firefox"));
    let a = plan_detected_page(&req, &langs, &catalog());
    let b = plan_detected_page(&req, &langs, &catalog());
    assert_eq!(format!("{:?}", a), format!("{:?}", b));
}

#[test]
fn lang_page_rejects_disabled_locales() {
    let langs = enabled(&["en", "de"]);
    let req = request("", Some(GEOMETRY), None, Some("Firefox"));
    assert!(matches!(plan_lang_page(&req, "fr", &langs, &catalog()), PagePlan::NotFound));
    assert!(matches!(plan_lang_page(&req, "DE", &langs, &catalog()), PagePlan::NotFound));
}

#[test]
fn lang_page_always_persists_its_locale() {
    let langs = enabled(&["en", "de"]);
    let req = request("lang=en", Some(GEOMETRY), None, Some("Firefox"));
    match plan_lang_page(&req, "de", &langs, &catalog()) {
        PagePlan::Render(plan) => {
            assert_eq!(plan.client.lang, "de");
            assert_eq!(plan.current_lang, Some("de".to_string()));
            assert_eq!(plan.lang_cookie, Some("de".to_string()));
            assert!(plan.translations.contains(&("bye".to_string(), "Tschuess".to_string())));
            assert_eq!(plan.client.viewport_width, Some(1280));
        },
        other => panic!("expected a page, got {:?}", other),
    }
}

#[test]
fn translations_fall_back_to_default_locale() {
    let langs = enabled(&["en", "de", "fr"]);
    let req = request("lang=fr", Some(GEOMETRY), None, Some("Firefox"));
    match plan_detected_page(&req, &langs, &catalog()) {
        PagePlan::Render(plan) => {
            assert_eq!(plan.client.lang, "fr");
            assert_eq!(plan.translations, vec![("hello".to_string(), "Hello".to_string())]);
        },
        other => panic!("expected a page, got {:?}", other),
    }
    let empty = Translations::from_csv_text("key;text;locale\n");
    match plan_detected_page(&req, &langs, &empty) {
        PagePlan::Render(plan) => assert!(plan.translations.is_empty()),
        other => panic!("expected a page, got {:?}", other),
    }
}

#[test]
fn redirect_prefers_cookie_then_browser_then_default() {
    let langs = enabled(&["en", "de"]);
    let from_cookie = request("", Some("lang=DE"), Some("en"), None);
    assert_eq!(redirect_target(&from_cookie, "/portfolio", &langs), "/de/portfolio");
    let from_browser = request("", None, Some("de-AT,en;q=0.5"), None);
    assert_eq!(redirect_target(&from_browser, "/", &langs), "/de/");
    let en_cookie = request("", Some("lang=en"), Some("de"), None);
    assert_eq!(redirect_target(&en_cookie, "/knowledge", &langs), "/en/knowledge");
    let german_browser = request("", Some("lang=en"), Some("de-DE,de;q=0.9"), None);
    assert_eq!(redirect_target(&german_browser, "/portfolio", &langs), "/en/portfolio");
    let nothing = request("", None, Some("fr"), None);
    assert_eq!(redirect_target(&nothing, "/impressum", &enabled(&["de"])), "/de/impressum");
    assert_eq!(redirect_target(&nothing, "/", &enabled(&[])), "/en/");
}
