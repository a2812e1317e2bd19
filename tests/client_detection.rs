use adaptive_site::client::{browser_locale, detect_client_info, detection_state, generate_screen_detection_html, DetectionState, SCREEN_DETECTION_HTML};
use adaptive_site::device::{
    classify_user_agent, detect_breakpoint, detect_device_type, is_bot_request, Breakpoint, DeviceType,
};
use adaptive_site::geometry::{parse_screen_info, ScreenInfo};

const GEOMETRY_JSON: &str =
    r#"{"width":1920,"height":1080,"dpr":2.0,"viewport_width":1280,"viewport_height":720}"#;

fn geometry_cookie(json: &str) -> String {
    format!("screen_info={}", urlencoding::encode(json))
}

fn geometry(viewport_width: u32) -> Option<ScreenInfo> {
    Some(ScreenInfo {
        width: 1000,
        height: 800,
        dpr: serde_json::Number::from(1u32),
        viewport_width,
        viewport_height: 600,
    })
}

#[test]
fn geometry_round_trips_through_the_cookie() {
    let cookie = geometry_cookie(GEOMETRY_JSON);
    let g = parse_screen_info(Some(&cookie)).expect("geometry");
    assert_eq!(g.width, 1920);
    assert_eq!(g.height, 1080);
    assert_eq!(g.dpr.as_f64(), Some(2.0));
    assert_eq!(g.viewport_width, 1280);
    assert_eq!(g.viewport_height, 720);
}

#[test]
fn geometry_found_among_other_cookies() {
    let cookie = format!("theme=dark;  {} ; lang=de", geometry_cookie(GEOMETRY_JSON));
    let g = parse_screen_info(Some(&cookie)).expect("geometry");
    assert_eq!(g.viewport_width, 1280);
}

#[test]
fn geometry_absent_without_cookie() {
    assert!(parse_screen_info(None).is_none());
    assert!(parse_screen_info(Some("")).is_none());
    assert!(parse_screen_info(Some("lang=de; theme=dark")).is_none());
}

#[test]
fn geometry_absent_on_bad_payload() {
    assert!(parse_screen_info(Some("screen_info=not-json")).is_none());
    assert!(parse_screen_info(Some("screen_info=%7B%22width%22%3A1")).is_none());
    assert!(parse_screen_info(Some("screen_info=%FF%FE")).is_none());
    let missing = geometry_cookie(r#"{"width":1,"height":2,"dpr":1}"#);
    assert!(parse_screen_info(Some(&missing)).is_none());
    let negative = geometry_cookie(r#"{"width":-1,"height":2,"dpr":1,"viewport_width":3,"viewport_height":4}"#);
    assert!(parse_screen_info(Some(&negative)).is_none());
    let too_big = geometry_cookie(r#"{"width":4294967296,"height":2,"dpr":1,"viewport_width":3,"viewport_height":4}"#);
    assert!(parse_screen_info(Some(&too_big)).is_none());
    let text_dpr = geometry_cookie(r#"{"width":1,"height":2,"dpr":"x","viewport_width":3,"viewport_height":4}"#);
    assert!(parse_screen_info(Some(&text_dpr)).is_none());
}

#[test]
fn geometry_skips_a_bad_pair_for_a_later_good_one() {
    let cookie = format!("screen_info=broken; {}", geometry_cookie(GEOMETRY_JSON));
    let g = parse_screen_info(Some(&cookie)).expect("geometry");
    assert_eq!(g.width, 1920);
}

#[test]
fn geometry_accepts_an_unencoded_payload() {
    let cookie = format!("screen_info={}", r#"{"width":5,"height":6,"dpr":1.5,"viewport_width":7,"viewport_height":8}"#);
    let g = parse_screen_info(Some(&cookie)).expect("geometry");
    assert_eq!((g.width, g.height, g.viewport_width, g.viewport_height), (5, 6, 7, 8));
}

#[test]
fn user_agent_rules_in_order() {
    assert_eq!(classify_user_agent(None), DeviceType::Desktop);
    assert_eq!(classify_user_agent(Some("Mozilla/5.0 (compatible; Googlebot/2.1)")), DeviceType::Bot);
    assert_eq!(classify_user_agent(Some("SomeCrawler/1.0")), DeviceType::Bot);
    assert_eq!(classify_user_agent(Some("Spider")), DeviceType::Bot);
    assert_eq!(classify_user_agent(Some("Mozilla/5.0 (iPhone; CPU iPhone OS 17_0)")), DeviceType::Mobile);
    assert_eq!(classify_user_agent(Some("Mozilla/5.0 (Linux; Android 14)")), DeviceType::Mobile);
    assert_eq!(classify_user_agent(Some("Windows Phone 10")), DeviceType::Mobile);
    assert_eq!(classify_user_agent(Some("Mozilla/5.0 (iPad; CPU OS 17_0)")), DeviceType::Tablet);
    assert_eq!(classify_user_agent(Some("Kindle/3.0")), DeviceType::Tablet);
    assert_eq!(classify_user_agent(Some("SMART-TV Safari")), DeviceType::Tv);
    assert_eq!(classify_user_agent(Some("AppleTV11,1")), DeviceType::Tv);
    assert_eq!(classify_user_agent(Some("Mozilla/5.0 (PlayStation 5)")), DeviceType::Console);
    assert_eq!(classify_user_agent(Some("Xbox One")), DeviceType::Console);
    assert_eq!(classify_user_agent(Some("Mozilla/5.0 (X11; Linux x86_64) Firefox/120.0")), DeviceType::Desktop);
}

#[test]
fn first_matching_rule_wins() {
    assert_eq!(classify_user_agent(Some("Android Tablet Mobile")), DeviceType::Mobile);
    assert_eq!(classify_user_agent(Some("iPhone bot")), DeviceType::Bot);
    assert_eq!(classify_user_agent(Some("Xbox SmartTV")), DeviceType::Tv);
}

#[test]
fn bot_test_ignores_case_and_other_markers() {
    assert!(is_bot_request(Some("Mozilla/5.0 (iPhone) BOT")));
    assert!(is_bot_request(Some("bingbot/2.0")));
    assert!(is_bot_request(Some("Yandex Spider")));
    assert!(is_bot_request(Some("web crawler")));
    assert!(!is_bot_request(Some("Mozilla/5.0 (iPhone)")));
    assert!(!is_bot_request(None));
}

#[test]
fn viewport_thresholds() {
    let ua = Some("Mozilla/5.0 (X11; Linux x86_64)");
    assert_eq!(detect_device_type(ua, &geometry(0)), DeviceType::Mobile);
    assert_eq!(detect_breakpoint(ua, &geometry(0)), Breakpoint::Phone);
    assert_eq!(detect_device_type(ua, &geometry(559)), DeviceType::Mobile);
    assert_eq!(detect_breakpoint(ua, &geometry(559)), Breakpoint::Phone);
    assert_eq!(detect_device_type(ua, &geometry(560)), DeviceType::Tablet);
    assert_eq!(detect_breakpoint(ua, &geometry(560)), Breakpoint::Tablet);
    assert_eq!(detect_device_type(ua, &geometry(959)), DeviceType::Tablet);
    assert_eq!(detect_breakpoint(ua, &geometry(959)), Breakpoint::Tablet);
    assert_eq!(detect_device_type(ua, &geometry(960)), DeviceType::Desktop);
    assert_eq!(detect_breakpoint(ua, &geometry(960)), Breakpoint::Screen);
    assert_eq!(detect_breakpoint(ua, &geometry(1259)), Breakpoint::Screen);
    assert_eq!(detect_breakpoint(ua, &geometry(1260)), Breakpoint::Wide);
    assert_eq!(detect_device_type(ua, &geometry(1920)), DeviceType::Desktop);
    assert_eq!(detect_device_type(ua, &geometry(1921)), DeviceType::Wide);
    assert_eq!(detect_breakpoint(ua, &geometry(1921)), Breakpoint::Wide);
}

#[test]
fn inconclusive_geometry_falls_back_to_user_agent() {
    let g = geometry(1280);
    assert_eq!(detect_device_type(Some("Xbox"), &g), DeviceType::Console);
    assert_eq!(detect_breakpoint(Some("Xbox"), &g), Breakpoint::Wide);
    assert_eq!(detect_device_type(Some("Googlebot"), &g), DeviceType::Bot);
}

#[test]
fn breakpoint_from_device_type_without_geometry() {
    assert_eq!(detect_breakpoint(Some("iPhone"), &None), Breakpoint::Phone);
    assert_eq!(detect_breakpoint(Some("iPad"), &None), Breakpoint::Tablet);
    assert_eq!(detect_breakpoint(Some("SmartTV"), &None), Breakpoint::Wide);
    assert_eq!(detect_breakpoint(Some("Nintendo Switch"), &None), Breakpoint::Wide);
    assert_eq!(detect_breakpoint(Some("Googlebot"), &None), Breakpoint::Screen);
    assert_eq!(detect_breakpoint(Some("Firefox"), &None), Breakpoint::Screen);
    assert_eq!(detect_breakpoint(None, &None), Breakpoint::Screen);
}

#[test]
fn names_for_templates() {
    assert_eq!(DeviceType::Console.as_str(), "console");
    assert_eq!(DeviceType::Tv.as_str(), "tv");
    assert_eq!(Breakpoint::Screen.as_str(), "screen");
    assert_eq!(Breakpoint::Phone.as_str(), "phone");
}

#[test]
fn browser_locale_from_first_known_tag() {
    assert_eq!(browser_locale(None), "en-EN");
    assert_eq!(browser_locale(Some("fr-FR, de-DE;q=0.8")), "de-DE");
    assert_eq!(browser_locale(Some("en-US,de;q=0.5")), "en-EN");
    assert_eq!(browser_locale(Some("fr-FR,fr;q=0.9")), "en-EN");
    assert_eq!(browser_locale(Some("DE-de")), "en-EN");
}

#[test]
fn client_info_collects_headers() {
    let cookie = geometry_cookie(GEOMETRY_JSON);
    let info = detect_client_info(Some(&cookie), Some("de-DE"), Some("Mozilla/5.0 (iPhone)"));
    assert_eq!(info.language, "de-DE");
    assert_eq!(info.screen_width, Some(1920));
    assert_eq!(info.screen_height, Some(1080));
    assert_eq!(info.viewport_width, Some(1280));
    assert_eq!(info.viewport_height, Some(720));
    assert_eq!(info.dpr.as_ref().and_then(|d| d.as_f64()), Some(2.0));
    assert_eq!(info.device_type, DeviceType::Mobile);
    assert_eq!(info.breakpoint, Breakpoint::Wide);
    assert_eq!(info.lang, "");

    let bare = detect_client_info(None, None, None);
    assert_eq!(bare.screen_width, None);
    assert!(bare.dpr.is_none());
    assert_eq!(bare.device_type, DeviceType::Desktop);
    assert_eq!(bare.breakpoint, Breakpoint::Screen);
    assert_eq!(bare.language, "en-EN");
}

#[test]
fn handshake_states() {
    let cookie = geometry_cookie(GEOMETRY_JSON);
    assert_eq!(detection_state(Some("Firefox"), None), DetectionState::AwaitingGeometry);
    assert_eq!(detection_state(Some("Firefox"), Some("screen_info=garbage")), DetectionState::AwaitingGeometry);
    assert_eq!(detection_state(Some("Firefox"), Some(&cookie)), DetectionState::Resolved);
    assert_eq!(detection_state(Some("Googlebot"), None), DetectionState::Bot);
    assert_eq!(detection_state(Some("Googlebot"), Some(&cookie)), DetectionState::Bot);
    assert_eq!(detection_state(None, None), DetectionState::AwaitingGeometry);
}

#[test]
fn bootstrap_document_measures_and_reloads() {
    let html = generate_screen_detection_html();
    assert_eq!(html, SCREEN_DETECTION_HTML);
    assert!(html.starts_with("<!DOCTYPE html>"));
    assert!(html.contains("document.cookie='screen_info='+encodeURIComponent(JSON.stringify(d))+';path=/;max-age=31536000;SameSite=Lax'"));
    assert!(html.contains("location.reload();"));
}
