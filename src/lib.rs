//! Adaptive rendering context for a server-rendered site.
//!
//! A request is classified without any server-side session: the client's
//! measured screen geometry travels in the `screen_info` cookie, its device
//! type and CSS breakpoint come from that geometry or from its User-Agent,
//! and its locale from a cascade of query, cookie, `Accept-Language` and the
//! configured default. The page planner turns a request into the measuring
//! page, a 404, or a page to render with its context and cookie.
use vstd::prelude::*;

pub mod text;
pub mod geometry;
pub mod device;
pub mod config;
pub mod language;
pub mod client;
pub mod translations;
pub mod page;
pub mod assets;
pub mod auth;

verus! {

} // verus!
