//! The decisions of the optional HTTP transport: whether to use it, where to listen, which
//! Host headers to accept, and whether a request carries the expected bearer token.
use vstd::prelude::*;
use crate::json::owned;
use crate::text::{chars_of, chars_view, split_on, split_chars, string_of, trim, trim_ws};

verus! {

broadcast use vstd::string::group_string_axioms;

/// Whether the transport setting asks for HTTP (exactly `http`); stdio otherwise.
pub fn http_transport(setting: Option<&str>) -> (r: bool)
    ensures
        r == (setting matches Some(s) && s@ == "http"@),
{
    match setting {
        Some(s) => crate::text::chars_eq_str(chars_of(s).as_slice(), "http"),
        None => false,
    }
}

/// The address to listen on: the setting, or `127.0.0.1:8000`.
pub fn bind_address(setting: Option<String>) -> (r: String)
    ensures
        r@ == match setting {
            Some(s) => s@,
            None => "127.0.0.1:8000"@,
        },
{
    match setting {
        Some(s) => s,
        None => owned("127.0.0.1:8000"),
    }
}

/// The accepted Host headers of a comma-separated list, each trimmed.
pub open spec fn allowed_hosts_spec(list: Seq<char>) -> Seq<Seq<char>> {
    split_on(list, ',').map_values(|h: Seq<char>| trim_ws(h))
}

/// Reads the comma-separated list of accepted Host headers.
pub fn allowed_hosts(list: &str) -> (r: Vec<String>)
    ensures
        crate::markdown::strings_view(r@) == allowed_hosts_spec(list@),
{
    let parts = split_chars(chars_of(list).as_slice(), ',');
    let ghost pv = chars_view(parts@);
    let mut out: Vec<String> = Vec::new();
    let mut i: usize = 0;
    while i < parts.len()
        invariant
            i <= parts.len(),
            pv == chars_view(parts@),
            crate::markdown::strings_view(out@) == pv.take(i as int).map_values(|h: Seq<char>| trim_ws(h)),
        decreases parts.len() - i,
    {
        let h = string_of(trim(parts[i].as_slice()).as_slice());
        let ghost old_out = out@;
        out.push(h);
        assert(crate::markdown::strings_view(out@) =~= crate::markdown::strings_view(old_out).push(h@));
        i = i + 1;
        assert(crate::markdown::strings_view(out@) =~= pv.take(i as int).map_values(|h: Seq<char>| trim_ws(h)));
    }
    assert(pv.take(parts.len() as int) =~= pv);
    out
}

/// Whether an `Authorization` header value is `Bearer ` followed by exactly the token.
pub open spec fn bearer_matches(expected: Seq<char>, header: Option<Seq<char>>) -> bool {
    match header {
        Some(h) => h == "Bearer "@ + expected,
        None => false,
    }
}

/// Checks an `Authorization` header value against the expected token.
pub fn bearer_token_matches(expected: &str, header: Option<&str>) -> (r: bool)
    ensures
        r == bearer_matches(expected@, match header {
            Some(h) => Some(h@),
            None => None,
        }),
{
    match header {
        Some(h) => {
            let mut want: Vec<char> = chars_of("Bearer ");
            crate::text::extend_str(&mut want, expected);
            crate::text::chars_eq_str(want.as_slice(), h)
        },
        None => false,
    }
}

} // verus!
