//! Site configuration, as loaded at start-up.
use vstd::prelude::*;

verus! {

#[derive(Clone, Debug)]
pub struct Config {
    pub auth: AuthConfig,
    pub server: ServerConfig,
    pub languages: LanguagesConfig,
}

#[derive(Clone, Debug)]
pub struct AuthConfig {
    pub enabled: bool,
    pub username: String,
    pub password: String,
}

#[derive(Clone, Debug)]
pub struct ServerConfig {
    pub socket_path: String,
}

/// The enabled locales, in order; the first is the default.
#[derive(Clone, Debug)]
pub struct LanguagesConfig {
    pub available: Vec<String>,
}

/// The codes of a list of locales.
pub open spec fn codes(v: Seq<String>) -> Seq<Seq<char>> {
    v.map_values(|s: String| s@)
}

impl LanguagesConfig {
    pub open spec fn codes(&self) -> Seq<Seq<char>> {
        codes(self.available@)
    }
}

} // verus!
