//! Device type and CSS breakpoint: measured geometry first, User-Agent second.
use vstd::prelude::*;
use crate::geometry::ScreenInfo;
use crate::text::{chars_of, contains_seq, has_substring, lower_of, lowercase, opt_text};

verus! {

#[derive(PartialEq, Eq, Structural, Clone, Copy, Debug)]
pub enum DeviceType {
    Mobile,
    Tablet,
    Desktop,
    Wide,
    Tv,
    Console,
    Bot,
}

#[derive(PartialEq, Eq, Structural, Clone, Copy, Debug)]
pub enum Breakpoint {
    Phone,
    Tablet,
    Screen,
    Wide,
}

impl DeviceType {
    pub open spec fn spec_name(self) -> Seq<char> {
        match self {
            DeviceType::Mobile => "mobile"@,
            DeviceType::Tablet => "tablet"@,
            DeviceType::Desktop => "desktop"@,
            DeviceType::Wide => "wide"@,
            DeviceType::Tv => "tv"@,
            DeviceType::Console => "console"@,
            DeviceType::Bot => "bot"@,
        }
    }

    /// The name that templates see.
    pub fn as_str(&self) -> (r: &'static str)
        ensures
            r@ == self.spec_name(),
    {
        match self {
            DeviceType::Mobile => "mobile",
            DeviceType::Tablet => "tablet",
            DeviceType::Desktop => "desktop",
            DeviceType::Wide => "wide",
            DeviceType::Tv => "tv",
            DeviceType::Console => "console",
            DeviceType::Bot => "bot",
        }
    }
}

impl Breakpoint {
    pub open spec fn spec_name(self) -> Seq<char> {
        match self {
            Breakpoint::Phone => "phone"@,
            Breakpoint::Tablet => "tablet"@,
            Breakpoint::Screen => "screen"@,
            Breakpoint::Wide => "wide"@,
        }
    }

    /// The name that templates see.
    pub fn as_str(&self) -> (r: &'static str)
        ensures
            r@ == self.spec_name(),
    {
        match self {
            Breakpoint::Phone => "phone",
            Breakpoint::Tablet => "tablet",
            Breakpoint::Screen => "screen",
            Breakpoint::Wide => "wide",
        }
    }
}

pub open spec fn has_any(s: Seq<char>, markers: Seq<Seq<char>>) -> bool {
    exists|k: int| 0 <= k < markers.len() && has_substring(s, #[trigger] markers[k])
}

pub open spec fn bot_markers() -> Seq<Seq<char>> {
    seq!["bot"@, "crawler"@, "spider"@, "googlebot"@]
}

pub open spec fn mobile_markers() -> Seq<Seq<char>> {
    seq!["mobile"@, "android"@, "iphone"@, "windows phone"@, "blackberry"@]
}

pub open spec fn tablet_markers() -> Seq<Seq<char>> {
    seq!["ipad"@, "tablet"@, "kindle"@, "silk"@]
}

pub open spec fn tv_markers() -> Seq<Seq<char>> {
    seq!["smart-tv"@, "smarttv"@, "googletv"@, "appletv"@]
}

pub open spec fn console_markers() -> Seq<Seq<char>> {
    seq!["playstation"@, "xbox"@, "nintendo"@]
}

/// The markers of the handshake's bot test.
pub open spec fn crawler_markers() -> Seq<Seq<char>> {
    seq!["bot"@, "crawler"@, "spider"@]
}

/// First-match scan of a lower-cased User-Agent.
pub open spec fn class_of_lowered(s: Seq<char>) -> DeviceType {
    if has_any(s, bot_markers()) {
        DeviceType::Bot
    } else if has_any(s, mobile_markers()) {
        DeviceType::Mobile
    } else if has_any(s, tablet_markers()) {
        DeviceType::Tablet
    } else if has_any(s, tv_markers()) {
        DeviceType::Tv
    } else if has_any(s, console_markers()) {
        DeviceType::Console
    } else {
        DeviceType::Desktop
    }
}

/// Device type from the User-Agent header alone; no header means desktop.
pub open spec fn ua_device_of(ua: Option<Seq<char>>) -> DeviceType {
    match ua {
        Some(u) => class_of_lowered(lower_of(u)),
        None => DeviceType::Desktop,
    }
}

/// Whether the handshake treats the client as a bot.
pub open spec fn is_bot_of(ua: Option<Seq<char>>) -> bool {
    match ua {
        Some(u) => has_any(lower_of(u), crawler_markers()),
        None => false,
    }
}

/// Device type that a viewport width decides, if it decides one.
pub open spec fn geometry_device(vw: u32) -> Option<DeviceType> {
    if vw <= 559 {
        Some(DeviceType::Mobile)
    } else if vw <= 959 {
        Some(DeviceType::Tablet)
    } else if vw > 1920 {
        Some(DeviceType::Wide)
    } else {
        None
    }
}

pub open spec fn geometry_breakpoint(vw: u32) -> Breakpoint {
    if vw <= 559 {
        Breakpoint::Phone
    } else if vw <= 959 {
        Breakpoint::Tablet
    } else if vw <= 1259 {
        Breakpoint::Screen
    } else {
        Breakpoint::Wide
    }
}

pub open spec fn breakpoint_of_device(d: DeviceType) -> Breakpoint {
    match d {
        DeviceType::Mobile => Breakpoint::Phone,
        DeviceType::Tablet => Breakpoint::Tablet,
        DeviceType::Wide | DeviceType::Tv | DeviceType::Console => Breakpoint::Wide,
        _ => Breakpoint::Screen,
    }
}

/// Viewport width of the geometry, if any.
pub open spec fn viewport_of(g: Option<ScreenInfo>) -> Option<u32> {
    match g {
        Some(i) => Some(i.viewport_width),
        None => None,
    }
}

pub open spec fn device_type_of(ua: Option<Seq<char>>, vw: Option<u32>) -> DeviceType {
    match vw {
        Some(w) => match geometry_device(w) {
            Some(d) => d,
            None => ua_device_of(ua),
        },
        None => ua_device_of(ua),
    }
}

pub open spec fn breakpoint_of(ua: Option<Seq<char>>, vw: Option<u32>) -> Breakpoint {
    match vw {
        Some(w) => geometry_breakpoint(w),
        None => breakpoint_of_device(ua_device_of(ua)),
    }
}

fn contains_str(hay: &Vec<char>, marker: &str) -> (r: bool)
    ensures
        r == has_substring(hay@, marker@),
{
    contains_seq(hay, &chars_of(marker))
}

/// Whether any of `markers` occurs in `hay`.
fn contains_any(hay: &Vec<char>, markers: &[&str]) -> (r: bool)
    ensures
        r == (exists|k: int| 0 <= k < markers@.len() && has_substring(hay@, #[trigger] markers@[k]@)),
{
    let mut k: usize = 0;
    while k < markers.len()
        invariant
            k <= markers@.len(),
            forall|j: int| 0 <= j < k ==> !has_substring(hay@, #[trigger] markers@[j]@),
        decreases markers@.len() - k,
    {
        if contains_str(hay, markers[k]) {
            return true;
        }
        k = k + 1;
    }
    false
}

proof fn lemma_markers(hay: Seq<char>, markers: &[&str], spec_markers: Seq<Seq<char>>)
    requires
        markers@.len() == spec_markers.len(),
        forall|k: int| 0 <= k < markers@.len() ==> #[trigger] markers@[k]@ == spec_markers[k],
    ensures
        (exists|k: int| 0 <= k < markers@.len() && has_substring(hay, #[trigger] markers@[k]@))
            == has_any(hay, spec_markers),
{
    if has_any(hay, spec_markers) {
        let k = choose|k: int| 0 <= k < spec_markers.len() && has_substring(hay, #[trigger] spec_markers[k]);
        assert(has_substring(hay, markers@[k]@));
    }
}

fn has_markers(hay: &Vec<char>, markers: &[&str], spec_markers: Ghost<Seq<Seq<char>>>) -> (r: bool)
    requires
        markers@.len() == spec_markers@.len(),
        forall|k: int| 0 <= k < markers@.len() ==> #[trigger] markers@[k]@ == spec_markers@[k],
    ensures
        r == has_any(hay@, spec_markers@),
{
    let r = contains_any(hay, markers);
    proof {
        lemma_markers(hay@, markers, spec_markers@);
    }
    r
}

/// First-match classification of a User-Agent that is already lower-cased.
pub fn classify_lowered(lower: &Vec<char>) -> (r: DeviceType)
    ensures
        r == class_of_lowered(lower@),
{
    if has_markers(lower, &["bot", "crawler", "spider", "googlebot"], Ghost(bot_markers())) {
        DeviceType::Bot
    } else if has_markers(lower, &["mobile", "android", "iphone", "windows phone", "blackberry"], Ghost(mobile_markers())) {
        DeviceType::Mobile
    } else if has_markers(lower, &["ipad", "tablet", "kindle", "silk"], Ghost(tablet_markers())) {
        DeviceType::Tablet
    } else if has_markers(lower, &["smart-tv", "smarttv", "googletv", "appletv"], Ghost(tv_markers())) {
        DeviceType::Tv
    } else if has_markers(lower, &["playstation", "xbox", "nintendo"], Ghost(console_markers())) {
        DeviceType::Console
    } else {
        DeviceType::Desktop
    }
}

/// Device type from the User-Agent header alone.
pub fn classify_user_agent(user_agent: Option<&str>) -> (r: DeviceType)
    ensures
        r == ua_device_of(opt_text(user_agent)),
{
    match user_agent {
        Some(u) => classify_lowered(&lowercase(&chars_of(u))),
        None => DeviceType::Desktop,
    }
}

/// Whether the client is a crawler, which is never sent the measuring page.
pub fn is_bot_request(user_agent: Option<&str>) -> (r: bool)
    ensures
        r == is_bot_of(opt_text(user_agent)),
{
    match user_agent {
        Some(u) => {
            let lower = lowercase(&chars_of(u));
            has_markers(&lower, &["bot", "crawler", "spider"], Ghost(crawler_markers()))
        },
        None => false,
    }
}

/// Device type: the viewport width where it decides, else the User-Agent.
pub fn detect_device_type(user_agent: Option<&str>, screen_info: &Option<ScreenInfo>) -> (r: DeviceType)
    ensures
        r == device_type_of(opt_text(user_agent), viewport_of(*screen_info)),
{
    if let Some(info) = screen_info {
        let w = info.viewport_width;
        if w <= 559 {
            return DeviceType::Mobile;
        } else if w <= 959 {
            return DeviceType::Tablet;
        } else if w > 1920 {
            return DeviceType::Wide;
        }
    }
    classify_user_agent(user_agent)
}

/// CSS breakpoint: from the viewport width where known, else from the device type.
pub fn detect_breakpoint(user_agent: Option<&str>, screen_info: &Option<ScreenInfo>) -> (r: Breakpoint)
    ensures
        r == breakpoint_of(opt_text(user_agent), viewport_of(*screen_info)),
{
    if let Some(info) = screen_info {
        let w = info.viewport_width;
        if w <= 559 {
            return Breakpoint::Phone;
        } else if w <= 959 {
            return Breakpoint::Tablet;
        } else if w <= 1259 {
            return Breakpoint::Screen;
        } else {
            return Breakpoint::Wide;
        }
    }
    match detect_device_type(user_agent, screen_info) {
        DeviceType::Mobile => Breakpoint::Phone,
        DeviceType::Tablet => Breakpoint::Tablet,
        DeviceType::Wide | DeviceType::Tv | DeviceType::Console => Breakpoint::Wide,
        DeviceType::Bot => Breakpoint::Screen,
        _ => Breakpoint::Screen,
    }
}

/// The viewport boundary between phones and tablets: 559 is still a phone,
/// 560 is already a tablet, by device type and by breakpoint alike, whatever
/// the User-Agent says.
pub proof fn lemma_phone_tablet_boundary(ua: Option<Seq<char>>, narrow: ScreenInfo, wide: ScreenInfo)
    requires
        narrow.viewport_width == 559,
        wide.viewport_width == 560,
    ensures
        device_type_of(ua, viewport_of(Some(narrow))) == DeviceType::Mobile,
        breakpoint_of(ua, viewport_of(Some(narrow))) == Breakpoint::Phone,
        device_type_of(ua, viewport_of(Some(wide))) == DeviceType::Tablet,
        breakpoint_of(ua, viewport_of(Some(wide))) == Breakpoint::Tablet,
{
}

} // verus!
