//! How the server is set up.

use vstd::prelude::*;

use crate::collections::texts;
use crate::text::same_text;

verus! {

/// Where the server runs.
#[derive(Debug, Clone, Copy, PartialEq, Eq, Structural)]
pub enum AppEnv {
    Development,
    Production,
}

/// The surroundings that a setting names. Without a setting it is development.
pub open spec fn named_env(setting: Option<Seq<char>>) -> Option<AppEnv> {
    match setting {
        None => Some(AppEnv::Development),
        Some(name) => if name == "development"@ {
            Some(AppEnv::Development)
        } else if name == "production"@ {
            Some(AppEnv::Production)
        } else {
            None
        },
    }
}

/// The text of a setting, if there is one.
pub open spec fn setting_text(setting: Option<&str>) -> Option<Seq<char>> {
    match setting {
        Some(name) => Some(name@),
        None => None,
    }
}

impl AppEnv {
    /// Whether a setting names surroundings that there are.
    pub fn is_known(setting: Option<&str>) -> (yes: bool)
        ensures
            yes == (named_env(setting_text(setting)) is Some),
    {
        match setting {
            None => true,
            Some(name) => same_text(name, "development") || same_text(name, "production"),
        }
    }

    /// The surroundings that a setting names.
    pub fn from_env(setting: Option<&str>) -> (env: AppEnv)
        requires
            named_env(setting_text(setting)) is Some,
        ensures
            named_env(setting_text(setting)) == Some(env),
    {
        match setting {
            None => AppEnv::Development,
            Some(name) => {
                if same_text(name, "development") {
                    AppEnv::Development
                } else {
                    AppEnv::Production
                }
            },
        }
    }
}

/// Which requests from other sites the server takes.
#[derive(Debug)]
pub enum CorsPolicy {
    /// From every origin, with every method and every header.
    Any,
    /// From one origin, with these methods and these headers.
    Only { origin: String, methods: Vec<String>, headers: Vec<String> },
}

/// Which requests from other sites are taken in each surroundings.
pub fn build_cors(env: AppEnv) -> (policy: CorsPolicy)
    ensures
        match env {
            AppEnv::Development => policy is Any,
            AppEnv::Production => {
                &&& policy matches CorsPolicy::Only { origin, methods, headers }
                &&& origin@ == "https://example.com"@
                &&& texts(methods@) == seq!["GET"@, "POST"@]
                &&& texts(headers@) == seq!["content-type"@, "authorization"@]
            },
        },
{
    match env {
        AppEnv::Development => CorsPolicy::Any,
        AppEnv::Production => {
            let mut methods: Vec<String> = Vec::new();
            methods.push("GET".to_owned());
            methods.push("POST".to_owned());
            let mut headers: Vec<String> = Vec::new();
            headers.push("content-type".to_owned());
            headers.push("authorization".to_owned());
            assert(texts(methods@) =~= seq!["GET"@, "POST"@]);
            assert(texts(headers@) =~= seq!["content-type"@, "authorization"@]);
            CorsPolicy::Only { origin: "https://example.com".to_owned(), methods, headers }
        },
    }
}

} // verus!
