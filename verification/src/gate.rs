//! The authorization gate: a pre-handler that, for requests matching the
//! configured endpoint allow-list, demands a bearer session token that
//! verifies, and otherwise admits the request untouched. Endpoints absent
//! from the list are deliberately unprotected.

use vstd::prelude::*;
use crate::claims::{ClaimsV, SessionClaims};
use crate::http::{
    error_response, spec_auth_view, Request, Response, ResponseV, BodyV, CorsV, ERRNO_AUTH_HEADER,
    ERRNO_UNAUTHORIZED,
};
use crate::pattern::{any_matches, spec_any_matches, spec_split_path, split_path, EndpointPattern, Method};
use crate::strutil::match_at;
use crate::token::{spec_verify, verify};

verus! {

/// What the auth gate decided: run the handler (with the verified claims attached
/// when the endpoint was protected), or short-circuit with a response.
pub enum GateOutcome {
    Admit(Option<SessionClaims>),
    Reject(Response),
}

/// Model of the auth gate's decision.
pub enum GateV {
    Pass(Option<ClaimsV>),
    Fail(u32),
}

/// The token carried by a `Bearer` Authorization header.
pub open spec fn spec_bearer_token(h: Seq<char>) -> Option<Seq<char>> {
    if h.len() >= "Bearer "@.len() && h.subrange(0, "Bearer "@.len() as int) == "Bearer "@ {
        Some(h.skip("Bearer "@.len() as int))
    } else {
        None
    }
}

/// The auth gate's decision: endpoints not on the list pass with no claims; listed
/// endpoints demand an Authorization header with a bearer token (missing or
/// malformed: the authentication-header error) that verifies (otherwise:
/// unauthorized).
pub open spec fn spec_gate(
    eps: Seq<EndpointPattern>,
    m: Method,
    path: Seq<Seq<char>>,
    auth: Option<Seq<char>>,
    secret: Seq<char>,
    now: u64,
) -> GateV {
    if !spec_any_matches(eps, m, path, false) {
        GateV::Pass(None::<ClaimsV>)
    } else {
        match auth {
            None => GateV::Fail(ERRNO_AUTH_HEADER),
            Some(h) => match spec_bearer_token(h) {
                None => GateV::Fail(ERRNO_AUTH_HEADER),
                Some(t) => match spec_verify(t, secret, now) {
                    Ok(c) => GateV::Pass(Some(c)),
                    Err(_) => GateV::Fail(ERRNO_UNAUTHORIZED),
                },
            },
        }
    }
}

/// A request presents a valid session: a bearer header whose token verifies.
pub open spec fn spec_token_admits(auth: Option<Seq<char>>, secret: Seq<char>, now: u64) -> bool {
    match auth {
        None => false,
        Some(h) => match spec_bearer_token(h) {
            None => false,
            Some(t) => spec_verify(t, secret, now) is Ok,
        },
    }
}

/// The response body of a gate rejection: status 401, the errno the auth gate
/// chose, and the fixed message for a missing or malformed header.
pub open spec fn spec_gate_reject_v(e: u32) -> ResponseV {
    ResponseV {
        status: 401,
        body: BodyV::Failure(
            e,
            if e == ERRNO_AUTH_HEADER {
                Some("Missing or malformed authentication header"@)
            } else {
                None
            },
        ),
        cors: None::<CorsV>,
    }
}

/// For every configured endpoint allow-list: a request matching the list
/// that does not present a valid bearer session token is refused by the
/// gate, so the downstream handler never runs for it.
pub proof fn lemma_gate_rejects(
    eps: Seq<EndpointPattern>,
    m: Method,
    path: Seq<Seq<char>>,
    auth: Option<Seq<char>>,
    secret: Seq<char>,
    now: u64,
)
    requires
        spec_any_matches(eps, m, path, false),
        !spec_token_admits(auth, secret, now),
    ensures
        spec_gate(eps, m, path, auth, secret, now) matches GateV::Fail(e) && (e
            == ERRNO_AUTH_HEADER || e == ERRNO_UNAUTHORIZED),
{
}

/// Runs the auth gate on a request.
pub fn gate(eps: &Vec<EndpointPattern>, req: &Request, secret: &str, now: u64) -> (r: GateOutcome)
    ensures
        ({
            let g = spec_gate(
                eps@,
                req.method,
                spec_split_path(req.path@),
                spec_auth_view(*req),
                secret@,
                now,
            );
            match r {
                GateOutcome::Admit(c) => g == GateV::Pass(
                    match c {
                        None => None::<ClaimsV>,
                        Some(cl) => Some(cl@),
                    },
                ),
                GateOutcome::Reject(resp) => (g matches GateV::Fail(e) && resp@
                    == spec_gate_reject_v(e)),
            }
        }),
{
    let path = split_path(req.path.as_str());
    if !any_matches(eps, req.method, &path, false) {
        return GateOutcome::Admit(None);
    }
    let header = match &req.authorization {
        None => {
            return GateOutcome::Reject(
                error_response(
                    401,
                    ERRNO_AUTH_HEADER,
                    Some(String::from_str("Missing or malformed authentication header")),
                ),
            );
        },
        Some(h) => h,
    };
    let hs = header.as_str();
    let hl = hs.unicode_len();
    if !match_at(hs, 0, "Bearer ") {
        return GateOutcome::Reject(
            error_response(
                401,
                ERRNO_AUTH_HEADER,
                Some(String::from_str("Missing or malformed authentication header")),
            ),
        );
    }
    let bl = "Bearer ".unicode_len();
    let tok = hs.substring_char(bl, hl);
    assert(tok@ =~= header@.skip("Bearer "@.len() as int));
    match verify(tok, secret, now) {
        Ok(c) => GateOutcome::Admit(Some(c)),
        Err(_) => GateOutcome::Reject(error_response(401, ERRNO_UNAUTHORIZED, None)),
    }
}

} // verus!
