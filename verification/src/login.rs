use vstd::prelude::*;

use crate::error::Error;
use crate::json::{
    escape_chars, json_obj_lookup, parse_json, sp_escape, sp_json, sp_obj_lookup, Json, JsonV,
};
use crate::text::{chars_to_string, str_to_chars};

verus! {

/// The token the login response's success shape carries: present exactly
/// when the response is an object whose first `jsessionId` member is a
/// string.
pub open spec fn sp_login_token(j: JsonV) -> Option<Seq<char>> {
    match j {
        JsonV::Obj(ms) => match sp_obj_lookup(ms, "jsessionId"@) {
            Some(t) => match t {
                JsonV::Str(cs) => Some(cs),
                _ => None,
            },
            None => None,
        },
        _ => None,
    }
}

/// What a login response body yields: the session token on the success
/// shape; an authentication failure on any other well-formed JSON body;
/// transport trouble on a body that is not JSON.
pub open spec fn sp_login_outcome(s: Seq<char>) -> Result<Seq<char>, Error> {
    match sp_json(s) {
        None => Err(Error::Transport),
        Some(j) => match sp_login_token(j) {
            Some(t) => Ok(t),
            None => Err(Error::AuthenticationFailure),
        },
    }
}

/// Discriminates the login response.  The success shape is attempted
/// first; any structural mismatch of a well-formed body falls back to an
/// authentication failure rather than a parse error.
pub fn parse_login_response(body: &str) -> (r: Result<String, Error>)
    ensures
        match r {
            Ok(t) => sp_login_outcome(body@) == Ok::<Seq<char>, Error>(t@),
            Err(e) => sp_login_outcome(body@) == Err::<Seq<char>, Error>(e),
        },
{
    match parse_json(body) {
        None => Err(Error::Transport),
        Some(doc) => match doc {
            Json::Obj(members) => match json_obj_lookup(&members, "jsessionId") {
                Some(val) => match val {
                    Json::Str(cs) => Ok(chars_to_string(cs)),
                    _ => Err(Error::AuthenticationFailure),
                },
                None => Err(Error::AuthenticationFailure),
            },
            _ => Err(Error::AuthenticationFailure),
        },
    }
}

/// The fixed-shape login request body: the user and password, escaped,
/// and the constant platform, installation, product and app fields the
/// service recognizes.
pub open spec fn sp_login_request(user: Seq<char>, pass: Seq<char>) -> Seq<char> {
    "{\"user\":\""@ + sp_escape(user) + "\",\"pwd\":\""@ + sp_escape(pass)
        + "\",\"osType\":\"ios\",\"uuid\":\"xxx\",\"productCode\":\"life\",\"appCode\":\"life\"}"@
}

/// Builds the login request body for a pair of credentials.
pub fn login_request_body(user: &str, pass: &str) -> (r: String)
    ensures
        r@ == sp_login_request(user@, pass@),
{
    let uc = str_to_chars(user);
    let ue = escape_chars(&uc);
    let pc = str_to_chars(pass);
    let pe = escape_chars(&pc);
    let mut out: String = "{\"user\":\"".to_owned();
    let us = chars_to_string(&ue);
    out.append(us.as_str());
    out.append("\",\"pwd\":\"");
    let ps = chars_to_string(&pe);
    out.append(ps.as_str());
    out.append(
        "\",\"osType\":\"ios\",\"uuid\":\"xxx\",\"productCode\":\"life\",\"appCode\":\"life\"}",
    );
    proof {
        assert(out@ =~= sp_login_request(user@, pass@));
    }
    out
}

} // verus!
