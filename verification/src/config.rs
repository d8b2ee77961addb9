use vstd::prelude::*;

verus! {

/// The GLPI major version the server talks to.
#[derive(Debug, Clone, Copy, PartialEq, Eq, Structural)]
pub enum GlpiVersion {
    V10,
    V11,
}

pub open spec fn spec_api_prefix(v: GlpiVersion) -> Seq<char> {
    match v {
        GlpiVersion::V10 => "/apirest.php"@,
        GlpiVersion::V11 => "/api.php/v1"@,
    }
}

impl GlpiVersion {
    /// REST API path prefix that differs between GLPI 10 and 11.
    pub fn api_prefix(&self) -> (r: &'static str)
        ensures
            r@ == spec_api_prefix(*self),
    {
        match self {
            GlpiVersion::V10 => "/apirest.php",
            GlpiVersion::V11 => "/api.php/v1",
        }
    }
}

/// The language of the labels the server shows.
#[derive(Debug, Clone, Copy, PartialEq, Eq, Structural)]
pub enum Language {
    En,
    Fr,
}

} // verus!
verus! {

broadcast use vstd::string::group_string_axioms;

/// Spellings of "yes" that `parse_bool` accepts (after lowercasing).
pub open spec fn is_truthy(s: Seq<char>) -> bool {
    s == "true"@ || s == "1"@ || s == "yes"@ || s == "on"@
}

/// Spellings of "no" that `parse_bool` accepts (after lowercasing).
pub open spec fn is_falsy(s: Seq<char>) -> bool {
    s == "false"@ || s == "0"@ || s == "no"@ || s == "off"@
}

/// What `parse_bool` decides for a value.
pub open spec fn parse_bool_spec(value: Option<Seq<char>>, default: bool) -> bool {
    match value {
        Some(v) => if is_truthy(crate::text::str_lowercase(v)) {
            true
        } else if is_falsy(crate::text::str_lowercase(v)) {
            false
        } else {
            default
        },
        None => default,
    }
}

/// The view of an optional string slice.
pub open spec fn opt_str_view(v: Option<&str>) -> Option<Seq<char>> {
    match v {
        Some(s) => Some(s@),
        None => None,
    }
}

/// The view of an optional string.
pub open spec fn opt_string_view(v: Option<String>) -> Option<Seq<char>> {
    match v {
        Some(s) => Some(s@),
        None => None,
    }
}

/// Reads a boolean setting, case-insensitively: true/1/yes/on and false/0/no/off;
/// anything else, or no value, gives `default`.
pub fn parse_bool(value: Option<&str>, default: bool) -> (r: bool)
    ensures
        r == parse_bool_spec(opt_str_view(value), default),
{
    match value {
        Some(v) => {
            let lower = crate::text::lowercase(v);
            let l = crate::text::chars_of(lower.as_str());
            let ls = l.as_slice();
            if crate::text::chars_eq_str(ls, "true") || crate::text::chars_eq_str(ls, "1")
                || crate::text::chars_eq_str(ls, "yes") || crate::text::chars_eq_str(ls, "on") {
                true
            } else if crate::text::chars_eq_str(ls, "false") || crate::text::chars_eq_str(ls, "0")
                || crate::text::chars_eq_str(ls, "no") || crate::text::chars_eq_str(ls, "off") {
                false
            } else {
                default
            }
        },
        None => default,
    }
}

/// The settings the server runs with, as read from its environment. The two tokens are
/// secrets: the caller keeps them in a zeroizing box.
#[derive(Debug, PartialEq)]
pub struct ConfigValues {
    pub base_url: String,
    pub app_token: String,
    pub user_token: String,
    pub version: GlpiVersion,
    pub verify_tls: bool,
    pub language: Language,
}

/// The settings, or the error, that the given environment values give.
pub open spec fn config_spec(
    url: Option<Seq<char>>,
    app_token: Option<Seq<char>>,
    user_token: Option<Seq<char>>,
    version: Option<Seq<char>>,
    verify_tls: Option<Seq<char>>,
    lang: Option<Seq<char>>,
) -> Result<(Seq<char>, Seq<char>, Seq<char>, GlpiVersion, bool, Language), Seq<char>> {
    if url is None {
        Err("missing required environment variable: GLPI_URL"@)
    } else if app_token is None {
        Err("missing required environment variable: GLPI_APP_TOKEN"@)
    } else if user_token is None {
        Err("missing required environment variable: GLPI_USER_TOKEN"@)
    } else if version is Some && version != Some("11"@) && version != Some("10"@) {
        Err("invalid configuration: GLPI_VERSION must be \"10\" or \"11\", got \""@ + version.unwrap() + "\""@)
    } else {
        Ok((
            crate::text::trim_end_char(url.unwrap(), '/'),
            app_token.unwrap(),
            user_token.unwrap(),
            if version == Some("11"@) { GlpiVersion::V11 } else { GlpiVersion::V10 },
            parse_bool_spec(verify_tls, false),
            if lang == Some("en"@) { Language::En } else { Language::Fr },
        ))
    }
}

/// The settings held by a `ConfigValues`.
pub open spec fn config_view(c: ConfigValues) -> (Seq<char>, Seq<char>, Seq<char>, GlpiVersion, bool, Language) {
    (c.base_url@, c.app_token@, c.user_token@, c.version, c.verify_tls, c.language)
}

/// Builds the settings from the values of `GLPI_URL`, `GLPI_APP_TOKEN`, `GLPI_USER_TOKEN`,
/// `GLPI_VERSION`, `GLPI_VERIFY_TLS` and `GLPI_LANG` (each `None` when unset or not unicode).
/// The first three are required; the version must be 10 or 11 (10 when unset); TLS is not
/// verified unless asked for; the language is French unless `en` is asked for.
pub fn config_from_vars(
    url: Option<String>,
    app_token: Option<String>,
    user_token: Option<String>,
    version: Option<String>,
    verify_tls: Option<String>,
    lang: Option<String>,
) -> (r: Result<ConfigValues, crate::error::GlpiError>)
    ensures
        (match config_spec(
            opt_string_view(url),
            opt_string_view(app_token),
            opt_string_view(user_token),
            opt_string_view(version),
            opt_string_view(verify_tls),
            opt_string_view(lang),
        ) {
            Ok(c) => r matches Ok(v) && config_view(v) == c,
            Err(t) => r matches Err(e) && crate::error::error_text(e) == t,
        }),
{
    let url = match url {
        Some(u) => u,
        None => {
            proof {
                reveal_strlit("missing required environment variable: GLPI_URL");
                reveal_strlit("missing required environment variable: ");
                reveal_strlit("GLPI_URL");
                assert("missing required environment variable: GLPI_URL"@ =~= "missing required environment variable: "@ + "GLPI_URL"@);
            }
            return Err(crate::error::GlpiError::MissingEnv(crate::json::owned("GLPI_URL")));
        },
    };
    let app_token = match app_token {
        Some(u) => u,
        None => {
            proof {
                reveal_strlit("missing required environment variable: GLPI_APP_TOKEN");
                reveal_strlit("missing required environment variable: ");
                reveal_strlit("GLPI_APP_TOKEN");
                assert("missing required environment variable: GLPI_APP_TOKEN"@ =~= "missing required environment variable: "@ + "GLPI_APP_TOKEN"@);
            }
            return Err(crate::error::GlpiError::MissingEnv(crate::json::owned("GLPI_APP_TOKEN")));
        },
    };
    let user_token = match user_token {
        Some(u) => u,
        None => {
            proof {
                reveal_strlit("missing required environment variable: GLPI_USER_TOKEN");
                reveal_strlit("missing required environment variable: ");
                reveal_strlit("GLPI_USER_TOKEN");
                assert("missing required environment variable: GLPI_USER_TOKEN"@ =~= "missing required environment variable: "@ + "GLPI_USER_TOKEN"@);
            }
            return Err(crate::error::GlpiError::MissingEnv(crate::json::owned("GLPI_USER_TOKEN")));
        },
    };
    let version = match version {
        None => GlpiVersion::V10,
        Some(v) => {
            let vc = crate::text::chars_of(v.as_str());
            if crate::text::chars_eq_str(vc.as_slice(), "11") {
                GlpiVersion::V11
            } else if crate::text::chars_eq_str(vc.as_slice(), "10") {
                GlpiVersion::V10
            } else {
                let mut msg: Vec<char> = Vec::new();
                crate::text::extend_str(&mut msg, "GLPI_VERSION must be \"10\" or \"11\", got \"");
                crate::text::extend(&mut msg, vc.as_slice());
                crate::text::extend_str(&mut msg, "\"");
                proof {
                    reveal_strlit("invalid configuration: GLPI_VERSION must be \"10\" or \"11\", got \"");
                    reveal_strlit("GLPI_VERSION must be \"10\" or \"11\", got \"");
                    reveal_strlit("invalid configuration: ");
                    assert("invalid configuration: GLPI_VERSION must be \"10\" or \"11\", got \""@ =~= "invalid configuration: "@ + "GLPI_VERSION must be \"10\" or \"11\", got \""@);
                }
                return Err(crate::error::GlpiError::InvalidConfig(crate::text::string_of(msg.as_slice())));
            }
        },
    };
    let verify = match &verify_tls {
        Some(v) => parse_bool(Some(v.as_str()), false),
        None => parse_bool(None, false),
    };
    let language = match lang {
        Some(l) => {
            let lc = crate::text::chars_of(l.as_str());
            if crate::text::chars_eq_str(lc.as_slice(), "en") {
                Language::En
            } else {
                Language::Fr
            }
        },
        None => Language::Fr,
    };
    let uc = crate::text::chars_of(url.as_str());
    let base = crate::text::trim_end_matches(uc.as_slice(), '/');
    Ok(ConfigValues {
        base_url: crate::text::string_of(base.as_slice()),
        app_token,
        user_token,
        version,
        verify_tls: verify,
        language,
    })
}

} // verus!
