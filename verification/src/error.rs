//! The errors of talking to GLPI.
use vstd::prelude::*;
use crate::text::{chars_of, extend, extend_str, string_of};

verus! {

broadcast use vstd::string::group_string_axioms;

/// Why a GLPI call or the configuration failed. Errors of the HTTP layer and of the JSON
/// parser are held as the text they display.
#[derive(Debug, PartialEq)]
pub enum GlpiError {
    Http(String),
    Timeout,
    SessionInvalid { code: String, message: String },
    Api { code: String, message: String },
    JsonParse(String),
    InvalidResponse(String),
    MissingEnv(String),
    InvalidConfig(String),
}

/// The text an error displays.
pub open spec fn error_text(e: GlpiError) -> Seq<char> {
    match e {
        GlpiError::Http(t) => "HTTP request failed: "@ + t@,
        GlpiError::Timeout => "request timed out"@,
        GlpiError::SessionInvalid { code, message } => "GLPI session invalid: "@ + code@ + " — "@ + message@,
        GlpiError::Api { code, message } => "GLPI API error "@ + code@ + ": "@ + message@,
        GlpiError::JsonParse(t) => "failed to parse GLPI response: "@ + t@,
        GlpiError::InvalidResponse(t) => "unexpected GLPI response shape: "@ + t@,
        GlpiError::MissingEnv(t) => "missing required environment variable: "@ + t@,
        GlpiError::InvalidConfig(t) => "invalid configuration: "@ + t@,
    }
}

impl GlpiError {
    /// True when GLPI reported an expired/invalid session token and a single re-auth retry is warranted.
    pub fn is_session_expired(&self) -> (r: bool)
        ensures
            r == (*self is SessionInvalid),
    {
        match self {
            GlpiError::SessionInvalid { .. } => true,
            _ => false,
        }
    }

    /// The text the error displays.
    pub fn message(&self) -> (r: String)
        ensures
            r@ == error_text(*self),
    {
        let mut out: Vec<char> = Vec::new();
        match self {
            GlpiError::Http(t) => {
                extend_str(&mut out, "HTTP request failed: ");
                extend_str(&mut out, t.as_str());
            },
            GlpiError::Timeout => {
                extend_str(&mut out, "request timed out");
            },
            GlpiError::SessionInvalid { code, message } => {
                extend_str(&mut out, "GLPI session invalid: ");
                extend_str(&mut out, code.as_str());
                extend_str(&mut out, " — ");
                extend_str(&mut out, message.as_str());
            },
            GlpiError::Api { code, message } => {
                extend_str(&mut out, "GLPI API error ");
                extend_str(&mut out, code.as_str());
                extend_str(&mut out, ": ");
                extend_str(&mut out, message.as_str());
            },
            GlpiError::JsonParse(t) => {
                extend_str(&mut out, "failed to parse GLPI response: ");
                extend_str(&mut out, t.as_str());
            },
            GlpiError::InvalidResponse(t) => {
                extend_str(&mut out, "unexpected GLPI response shape: ");
                extend_str(&mut out, t.as_str());
            },
            GlpiError::MissingEnv(t) => {
                extend_str(&mut out, "missing required environment variable: ");
                extend_str(&mut out, t.as_str());
            },
            GlpiError::InvalidConfig(t) => {
                extend_str(&mut out, "invalid configuration: ");
                extend_str(&mut out, t.as_str());
            },
        }
        proof {
            assert(Seq::<char>::empty() + "request timed out"@ =~= "request timed out"@);
        }
        string_of(out.as_slice())
    }
}

} // verus!
