//! The API key for the hosted hub.

use crate::text;
use crate::text::trim;
use vstd::prelude::*;

verus! {

/// The environment variable that gives the API key.
pub const API_KEY_ENV: &'static str = "VIA_API_KEY";

/// The API key as it is stored.
#[derive(Debug)]
pub struct AuthConfig {
    pub api_key: String,
}

impl AuthConfig {
    /// Whether two configurations are the same.
    pub fn same(&self, other: &AuthConfig) -> (r: bool)
        ensures
            r == (self.api_key@ == other.api_key@),
    {
        text::same(self.api_key.as_str(), other.api_key.as_str())
    }
}

/// A key, unless it is blank.
pub open spec fn key_in(s: Option<Seq<char>>) -> Option<Seq<char>> {
    match s {
        Some(s) => if text::trimmed(s).len() > 0 {
            Some(text::trimmed(s))
        } else {
            None
        },
        None => None,
    }
}

/// The key of a stored configuration.
pub open spec fn stored_key(c: Option<AuthConfig>) -> Option<Seq<char>> {
    match c {
        Some(c) => Some(c.api_key@),
        None => None,
    }
}

/// The contents of what was looked up.
pub open spec fn lookup_view(r: Result<Option<String>, String>) -> Result<
    Option<Seq<char>>,
    Seq<char>,
> {
    match r {
        Ok(k) => Ok(text::opt_text(k)),
        Err(e) => Err(e@),
    }
}

/// The API key: the one that the environment gives, or else the stored one. What is
/// wrong with the stored one does not matter if it is not needed.
pub open spec fn api_key_outcome(
    env: Option<Seq<char>>,
    stored: Result<Option<AuthConfig>, String>,
) -> Result<Option<Seq<char>>, Seq<char>> {
    match key_in(env) {
        Some(k) => Ok(Some(k)),
        None => match stored {
            Ok(c) => Ok(key_in(stored_key(c))),
            Err(e) => Err(e@),
        },
    }
}

/// A key, unless it is blank.
pub fn nonblank(s: Option<&str>) -> (r: Option<String>)
    ensures
        text::opt_text(r) == key_in(text::opt_str(s)),
{
    match s {
        Some(s) => {
            let key = trim(s);
            if key.is_empty() {
                None
            } else {
                Some(key.to_owned())
            }
        },
        None => None,
    }
}

/// The API key, where `env` is what the environment gives and `stored` what came of
/// reading the stored configuration.
pub fn resolve_api_key(env: Option<&str>, stored: Result<Option<AuthConfig>, String>) -> (r: Result<
    Option<String>,
    String,
>)
    ensures
        lookup_view(r) == api_key_outcome(text::opt_str(env), stored),
{
    match nonblank(env) {
        Some(k) => Ok(Some(k)),
        None => match stored {
            Err(e) => Err(e),
            Ok(None) => Ok(None),
            Ok(Some(c)) => Ok(nonblank(Some(c.api_key.as_str()))),
        },
    }
}

/// The configuration for the key that was entered.
pub fn init(entered: &str) -> (r: Result<AuthConfig, String>)
    ensures
        match r {
            Ok(c) => text::trimmed(entered@).len() > 0 && c.api_key@ == text::trimmed(entered@),
            Err(e) => text::trimmed(entered@).len() == 0 && e@ == "API key cannot be empty"@,
        },
{
    let key = trim(entered);
    if key.is_empty() {
        return Err("API key cannot be empty".to_owned());
    }
    Ok(AuthConfig { api_key: key.to_owned() })
}

/// The environment's key is preferred, whatever is stored.
pub proof fn law_environment_comes_first(
    env: Seq<char>,
    stored: Result<Option<AuthConfig>, String>,
)
    requires
        text::trimmed(env).len() > 0,
    ensures
        api_key_outcome(Some(env), stored) == Ok::<Option<Seq<char>>, Seq<char>>(
            Some(text::trimmed(env)),
        ),
{
}

/// A key that was entered and stored is the one that is found without one in the
/// environment.
pub proof fn law_entered_key_is_found(entered: Seq<char>, config: AuthConfig)
    requires
        text::trimmed(entered).len() > 0,
        config.api_key@ == text::trimmed(entered),
    ensures
        api_key_outcome(None, Ok(Some(config))) == Ok::<Option<Seq<char>>, Seq<char>>(
            Some(text::trimmed(entered)),
        ),
{
    text::lemma_trimmed_idempotent(entered);
}

} // verus!
