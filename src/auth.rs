//! HTTP basic authentication against the configured credentials.
use vstd::prelude::*;
use crate::config::AuthConfig;
use crate::text::{chars_of, opt_text, same_chars};

verus! {

/// Whether a request may pass: always when authentication is off, else only
/// with the configured user name and a matching password.
pub open spec fn credentials_ok(auth: AuthConfig, user: Seq<char>, password: Option<Seq<char>>) -> bool {
    !auth.enabled || (password == Some(auth.password@) && user == auth.username@)
}

pub fn credentials_accepted(auth: &AuthConfig, user_id: &str, password: Option<&str>) -> (r: bool)
    ensures
        r == credentials_ok(*auth, user_id@, opt_text(password)),
{
    if !auth.enabled {
        return true;
    }
    match password {
        Some(p) => same_chars(&chars_of(user_id), &chars_of(auth.username.as_str()))
            && same_chars(&chars_of(p), &chars_of(auth.password.as_str())),
        None => false,
    }
}

} // verus!
