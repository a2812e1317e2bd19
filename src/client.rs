//! Per-request client context and the geometry handshake.
use vstd::prelude::*;
use crate::device::{
    breakpoint_of, detect_breakpoint, detect_device_type, device_type_of, is_bot_of,
    is_bot_request, viewport_of, Breakpoint, DeviceType,
};
use crate::geometry::{parse_screen_info, screen_info_of};
use crate::text::{
    chars_of, first_piece, has_prefix, opt_text, pieces, split_on, starts_with_seq, trim_chars,
    trimmed, views,
};

verus! {

/// What templates learn of the client.
#[derive(Debug)]
pub struct ClientInfo {
    pub language: String,
    pub screen_width: Option<u32>,
    pub screen_height: Option<u32>,
    pub viewport_width: Option<u32>,
    pub viewport_height: Option<u32>,
    pub dpr: Option<serde_json::Number>,
    pub device_type: DeviceType,
    pub breakpoint: Breakpoint,
    pub lang: String,
}

/// The headers a request is classified by.
#[derive(Clone, Debug)]
pub struct ClientRequest {
    pub query: String,
    pub cookie: Option<String>,
    pub accept_language: Option<String>,
    pub user_agent: Option<String>,
}

pub open spec fn opt_string(o: Option<String>) -> Option<Seq<char>> {
    match o {
        Some(s) => Some(s@),
        None => None,
    }
}

pub fn opt_str(o: &Option<String>) -> (r: Option<&str>)
    ensures
        opt_text(r) == opt_string(*o),
{
    match o {
        Some(s) => Some(s.as_str()),
        None => None,
    }
}

/// The page a client is sent before its geometry is known: it measures the
/// screen, stores the result in the `screen_info` cookie and reloads.
pub const SCREEN_DETECTION_HTML: &'static str = r#"<!DOCTYPE html>
<html>
<head>
    <meta charset="UTF-8">
    <meta name="viewport" content="width=device-width, initial-scale=1.0">
    <style>body{margin:0;padding:0;}</style>
    <script>
    (function(){
        var d={
            width:screen.width,
            height:screen.height,
            dpr:window.devicePixelRatio||1,
            viewport_width:window.innerWidth||document.documentElement.clientWidth,
            viewport_height:window.innerHeight||document.documentElement.clientHeight
        };
        document.cookie='screen_info='+encodeURIComponent(JSON.stringify(d))+';path=/;max-age=31536000;SameSite=Lax';
        location.reload();
    })();
    </script>
</head>
<body></body>
</html>"#;

pub open spec fn bootstrap_document() -> Seq<char> {
    SCREEN_DETECTION_HTML@
}

/// The self-measuring bootstrap document.
pub fn generate_screen_detection_html() -> (r: String)
    ensures
        r@ == bootstrap_document(),
{
    String::from_str(SCREEN_DETECTION_HTML)
}

/// The locale named by the first `Accept-Language` entry whose tag starts with
/// `de` or `en`.
pub open spec fn browser_locale_in(parts: Seq<Seq<char>>) -> Seq<char>
    decreases parts.len(),
{
    if parts.len() == 0 {
        "en-EN"@
    } else {
        let t = trimmed(pieces(parts[0], ';')[0]);
        if has_prefix(t, "de"@) {
            "de-DE"@
        } else if has_prefix(t, "en"@) {
            "en-EN"@
        } else {
            browser_locale_in(parts.drop_first())
        }
    }
}

pub open spec fn browser_locale_of(accept: Option<Seq<char>>) -> Seq<char> {
    match accept {
        Some(a) => browser_locale_in(pieces(a, ',')),
        None => "en-EN"@,
    }
}

/// The browser's locale, `de-DE` or `en-EN`.
pub fn browser_locale(accept_language: Option<&str>) -> (r: &'static str)
    ensures
        r@ == browser_locale_of(opt_text(accept_language)),
{
    let accept = match accept_language {
        Some(a) => a,
        None => return "en-EN",
    };
    let parts = split_on(&chars_of(accept), ',');
    let de = chars_of("de");
    let en = chars_of("en");
    let mut i: usize = 0;
    assert(views(parts@).subrange(0, parts@.len() as int) =~= views(parts@));
    while i < parts.len()
        invariant
            i <= parts@.len(),
            de@ == "de"@,
            en@ == "en"@,
            opt_text(accept_language) == Some(accept@),
            views(parts@) == pieces(accept@, ','),
            browser_locale_in(pieces(accept@, ','))
                == browser_locale_in(views(parts@).subrange(i as int, parts@.len() as int)),
        decreases parts@.len() - i,
    {
        let ghost rest = views(parts@).subrange(i as int, parts@.len() as int);
        assert(rest.drop_first() =~= views(parts@).subrange(i + 1, parts@.len() as int));
        assert(rest[0] == parts@[i as int]@);
        let tag = trim_chars(&first_piece(&parts[i], ';'));
        if starts_with_seq(&tag, &de) {
            return "de-DE";
        } else if starts_with_seq(&tag, &en) {
            return "en-EN";
        }
        i = i + 1;
    }
    "en-EN"
}

/// The mathematical content of a `ClientInfo`.
pub struct ClientModel {
    pub language: Seq<char>,
    pub screen_width: Option<u32>,
    pub screen_height: Option<u32>,
    pub viewport_width: Option<u32>,
    pub viewport_height: Option<u32>,
    pub dpr: Option<serde_json::Number>,
    pub device_type: DeviceType,
    pub breakpoint: Breakpoint,
    pub lang: Seq<char>,
}

impl ClientInfo {
    pub open spec fn model(&self) -> ClientModel {
        ClientModel {
            language: self.language@,
            screen_width: self.screen_width,
            screen_height: self.screen_height,
            viewport_width: self.viewport_width,
            viewport_height: self.viewport_height,
            dpr: self.dpr,
            device_type: self.device_type,
            breakpoint: self.breakpoint,
            lang: self.lang@,
        }
    }
}

/// What the headers tell of the client, with `lang` as given.
pub open spec fn client_model_of(
    cookie: Option<Seq<char>>,
    accept: Option<Seq<char>>,
    ua: Option<Seq<char>>,
    lang: Seq<char>,
) -> ClientModel {
    let g = screen_info_of(cookie);
    ClientModel {
        language: browser_locale_of(accept),
        screen_width: match g { Some(i) => Some(i.width), None => None },
        screen_height: match g { Some(i) => Some(i.height), None => None },
        viewport_width: viewport_of(g),
        viewport_height: match g { Some(i) => Some(i.viewport_height), None => None },
        dpr: match g { Some(i) => Some(i.dpr), None => None },
        device_type: device_type_of(ua, viewport_of(g)),
        breakpoint: breakpoint_of(ua, viewport_of(g)),
        lang,
    }
}

/// Collects what the headers tell of the client; `lang` starts empty.
pub fn detect_client_info(
    cookie_header: Option<&str>,
    accept_language: Option<&str>,
    user_agent: Option<&str>,
) -> (r: ClientInfo)
    ensures
        r.model() == client_model_of(
            opt_text(cookie_header),
            opt_text(accept_language),
            opt_text(user_agent),
            Seq::<char>::empty(),
        ),
{
    let screen_info = parse_screen_info(cookie_header);
    let language = String::from_str(browser_locale(accept_language));
    let device_type = detect_device_type(user_agent, &screen_info);
    let breakpoint = detect_breakpoint(user_agent, &screen_info);
    match screen_info {
        Some(s) => ClientInfo {
            language,
            screen_width: Some(s.width),
            screen_height: Some(s.height),
            viewport_width: Some(s.viewport_width),
            viewport_height: Some(s.viewport_height),
            dpr: Some(s.dpr),
            device_type,
            breakpoint,
            lang: String::new(),
        },
        None => ClientInfo {
            language,
            screen_width: None,
            screen_height: None,
            viewport_width: None,
            viewport_height: None,
            dpr: None,
            device_type,
            breakpoint,
            lang: String::new(),
        },
    }
}

/// Where a request stands in the geometry handshake.
#[derive(PartialEq, Eq, Structural, Clone, Copy, Debug)]
pub enum DetectionState {
    /// No geometry yet: the client gets the measuring page.
    AwaitingGeometry,
    /// A crawler: served the page at once.
    Bot,
    /// Geometry is known: served the page.
    Resolved,
}

pub open spec fn detection_state_of(ua: Option<Seq<char>>, cookie: Option<Seq<char>>) -> DetectionState {
    if is_bot_of(ua) {
        DetectionState::Bot
    } else if screen_info_of(cookie) is Some {
        DetectionState::Resolved
    } else {
        DetectionState::AwaitingGeometry
    }
}

/// Decides the handshake state from the request alone; no state is kept
/// between requests.
pub fn detection_state(user_agent: Option<&str>, cookie_header: Option<&str>) -> (r: DetectionState)
    ensures
        r == detection_state_of(opt_text(user_agent), opt_text(cookie_header)),
{
    if is_bot_request(user_agent) {
        DetectionState::Bot
    } else if parse_screen_info(cookie_header).is_some() {
        DetectionState::Resolved
    } else {
        DetectionState::AwaitingGeometry
    }
}

} // verus!
