//! The user-management router core: route resolution, the admin-bootstrap
//! and login flows, and the request pipeline that composes the auth gate
//! (before the handler) and the CORS decorator (after it, on success and
//! error alike). Store access and HTTP transport stay outside; the pipeline
//! hands out the store questions as values and takes the answers back.

use vstd::prelude::*;
use crate::claims::User;
use crate::gate::{gate, spec_gate, spec_gate_reject_v, GateOutcome, GateV};
use crate::http::{
    error_response, make_cors_headers, session_response, spec_auth_view, spec_opt_view,
    spec_std_cors, Body, BodyV, CorsV, Request, Response, ResponseV, ERRNO_AUTH_HEADER,
    ERRNO_GONE, ERRNO_INTERNAL, ERRNO_INVALID_EMAIL, ERRNO_INVALID_PASSWORD,
    ERRNO_INVALID_USERNAME, ERRNO_NOT_FOUND, ERRNO_UNAUTHORIZED,
};
use crate::pattern::{
    any_matches, seg_matches, spec_any_matches, spec_pattern_matches, spec_split_path, split_path,
    EndpointPattern, Method, PatternSeg,
};
use crate::strutil::{find_char, lemma_find, match_at, spec_find, str_eq};
use crate::token::{b64s_dec_of, b64s_decode, from_user, spec_issue, spec_user_claims};

verus! {

/// Manages user-related REST operations.
pub struct UsersRouter;

/// The route handlers this service exposes.
#[derive(Clone, Copy, PartialEq, Eq, Structural, Debug)]
pub enum Route {
    Setup,
    Login,
    CreateUser,
    GetUser,
    GetAllUsers,
    EditUser,
    DeleteUser,
}

/// The decoded body of a setup request; a field the body did not carry is
/// `None`.
pub struct SetupInput {
    pub username: Option<String>,
    pub email: Option<String>,
    pub password: Option<String>,
}

/// Model of a setup body.
pub struct SetupInputV {
    pub username: Option<Seq<char>>,
    pub email: Option<Seq<char>>,
    pub password: Option<Seq<char>>,
}

impl View for SetupInput {
    type V = SetupInputV;

    open spec fn view(&self) -> SetupInputV {
        SetupInputV {
            username: spec_opt_view(self.username),
            email: spec_opt_view(self.email),
            password: spec_opt_view(self.password),
        }
    }
}

/// A new administrator record for the store to persist; the store assigns
/// the id, and the admin flag is implied.
pub struct NewAdmin {
    pub name: String,
    pub email: String,
    pub password: String,
}

/// What the bootstrap decision came to: respond at once, or persist this
/// admin record and then call `setup_created` with the store's answer.
pub enum SetupStep {
    Done(Response),
    CreateAdmin(NewAdmin),
}

/// What the pipeline needs next for a request: a finished response, the
/// store's admin-exists answer (bootstrap), or a credential lookup (login).
pub enum Next {
    Done(Response),
    SetupAdminCheck,
    LoginLookup(String, String),
}

/// An email is plausible when an `@` stands strictly inside it.
pub open spec fn spec_email_plausible(e: Seq<char>) -> bool {
    exists|i: int| 0 < i < e.len() - 1 && e[i] == '@'
}

/// The first failing field of a setup body, in validation order: username
/// present and non-empty, email plausible, password at least 8 characters.
pub open spec fn spec_setup_validation(b: SetupInputV) -> Option<u32> {
    if !(b.username matches Some(u) && u.len() > 0) {
        Some(ERRNO_INVALID_USERNAME)
    } else if !(b.email matches Some(e) && spec_email_plausible(e)) {
        Some(ERRNO_INVALID_EMAIL)
    } else if !(b.password matches Some(p) && p.len() >= 8) {
        Some(ERRNO_INVALID_PASSWORD)
    } else {
        None
    }
}

pub open spec fn spec_validation_message(e: u32) -> Seq<char> {
    if e == ERRNO_INVALID_USERNAME {
        "Invalid user name"@
    } else if e == ERRNO_INVALID_EMAIL {
        "Invalid email"@
    } else {
        "Invalid password. Passwords must have a minimum of 8 chars"@
    }
}

pub open spec fn spec_bad_request_v(e: u32) -> ResponseV {
    ResponseV {
        status: 400,
        body: BodyV::Failure(e, Some(spec_validation_message(e))),
        cors: None::<CorsV>,
    }
}

pub open spec fn spec_gone_v() -> ResponseV {
    ResponseV {
        status: 410,
        body: BodyV::Failure(ERRNO_GONE, Some("There is already an admin account"@)),
        cors: None::<CorsV>,
    }
}

pub open spec fn spec_internal_v() -> ResponseV {
    ResponseV {
        status: 500,
        body: BodyV::Failure(ERRNO_INTERNAL, None::<Seq<char>>),
        cors: None::<CorsV>,
    }
}

pub open spec fn spec_unauthorized_v() -> ResponseV {
    ResponseV {
        status: 401,
        body: BodyV::Failure(ERRNO_UNAUTHORIZED, None::<Seq<char>>),
        cors: None::<CorsV>,
    }
}

pub open spec fn spec_not_found_v() -> ResponseV {
    ResponseV {
        status: 404,
        body: BodyV::Failure(ERRNO_NOT_FOUND, None::<Seq<char>>),
        cors: None::<CorsV>,
    }
}

pub open spec fn spec_auth_header_v() -> ResponseV {
    ResponseV {
        status: 400,
        body: BodyV::Failure(
            ERRNO_AUTH_HEADER,
            Some("Missing or malformed authentication header"@),
        ),
        cors: None::<CorsV>,
    }
}

pub open spec fn spec_session_v(t: Seq<char>) -> ResponseV {
    ResponseV { status: 201, body: BodyV::Session(t), cors: None::<CorsV> }
}

fn email_plausible(e: &str) -> (r: bool)
    ensures
        r == spec_email_plausible(e@),
{
    let n = e.unicode_len();
    if n < 3 {
        return false;
    }
    let f = find_char(e, 1, '@');
    proof {
        lemma_find(e@, 1, '@');
    }
    if f < n - 1 {
        assert(e@[f as int] == '@');
        true
    } else {
        assert(forall|i: int| 0 < i < e@.len() - 1 ==> e@[i] != '@');
        false
    }
}

fn validation_error(e: u32) -> (r: Response)
    requires
        e == ERRNO_INVALID_USERNAME || e == ERRNO_INVALID_EMAIL || e == ERRNO_INVALID_PASSWORD,
    ensures
        r@ == spec_bad_request_v(e),
{
    let msg = if e == ERRNO_INVALID_USERNAME {
        String::from_str("Invalid user name")
    } else if e == ERRNO_INVALID_EMAIL {
        String::from_str("Invalid email")
    } else {
        String::from_str("Invalid password. Passwords must have a minimum of 8 chars")
    };
    error_response(400, e, Some(msg))
}

/// The credential pair carried by a `Basic` Authorization header: the
/// base64 payload decodes, splits at its first `:`, and neither side is
/// empty.
pub open spec fn spec_basic_creds(auth: Option<Seq<char>>) -> Option<(Seq<char>, Seq<char>)> {
    match auth {
        None => None,
        Some(h) => if !(h.len() >= "Basic "@.len() && h.subrange(0, "Basic "@.len() as int)
            == "Basic "@) {
            None
        } else {
            match b64s_dec_of(h.skip("Basic "@.len() as int)) {
                None => None,
                Some(d) => {
                    let ci = spec_find(d, 0, ':');
                    if ci >= d.len() {
                        None
                    } else {
                        let u = d.subrange(0, ci);
                        let pw = d.subrange(ci + 1, d.len() as int);
                        if u.len() == 0 || pw.len() == 0 {
                            None
                        } else {
                            Some((u, pw))
                        }
                    }
                },
            }
        },
    }
}

fn basic_creds(auth: &Option<String>) -> (r: Option<(String, String)>)
    ensures
        ({
            let sc = spec_basic_creds(spec_opt_view(*auth));
            match r {
                Some(p) => sc == Some((p.0@, p.1@)),
                None => sc is None,
            }
        }),
{
    let header = match auth {
        None => {
            return None;
        },
        Some(h) => h,
    };
    let hs = header.as_str();
    let hl = hs.unicode_len();
    if !match_at(hs, 0, "Basic ") {
        return None;
    }
    let bl = "Basic ".unicode_len();
    let enc = hs.substring_char(bl, hl);
    assert(enc@ =~= header@.skip("Basic "@.len() as int));
    let dec = match b64s_decode(enc) {
        None => {
            return None;
        },
        Some(d) => d,
    };
    let ds = dec.as_str();
    let dl = ds.unicode_len();
    let ci = find_char(ds, 0, ':');
    proof {
        lemma_find(dec@, 0, ':');
    }
    if ci == dl {
        return None;
    }
    let u = ds.substring_char(0, ci).to_owned();
    let pw = ds.substring_char(ci + 1, dl).to_owned();
    if u.as_str().is_empty() || pw.as_str().is_empty() {
        return None;
    }
    Some((u, pw))
}

pub open spec fn spec_path2(path: Seq<Seq<char>>, a: Seq<char>, b: Seq<char>) -> bool {
    path.len() == 2 && path[0] == a && path[1] == b
}

pub open spec fn spec_path3_wild(path: Seq<Seq<char>>, a: Seq<char>, b: Seq<char>) -> bool {
    path.len() == 3 && path[0] == a && path[1] == b
}

/// Which handler a request reaches, by method and path.
pub open spec fn spec_route_of(m: Method, path: Seq<Seq<char>>) -> Option<Route> {
    if m == Method::Post && spec_path2(path, "v1"@, "setup"@) {
        Some(Route::Setup)
    } else if m == Method::Post && spec_path2(path, "v1"@, "login"@) {
        Some(Route::Login)
    } else if m == Method::Post && spec_path2(path, "v1"@, "users"@) {
        Some(Route::CreateUser)
    } else if m == Method::Get && spec_path3_wild(path, "v1"@, "users"@) {
        Some(Route::GetUser)
    } else if m == Method::Get && spec_path2(path, "v1"@, "users"@) {
        Some(Route::GetAllUsers)
    } else if m == Method::Put && spec_path3_wild(path, "v1"@, "users"@) {
        Some(Route::EditUser)
    } else if m == Method::Delete && spec_path3_wild(path, "v1"@, "users"@) {
        Some(Route::DeleteUser)
    } else {
        None
    }
}

/// Resolves a request to its route.
pub fn route_of(m: Method, path: &Vec<String>) -> (r: Option<Route>)
    ensures
        r == spec_route_of(m, crate::pattern::path_view(path@)),
{
    proof {
        reveal_strlit("v1");
        reveal_strlit("setup");
        reveal_strlit("login");
        reveal_strlit("users");
        assert("setup"@[0] == 's' && "users"@[0] == 'u' && "login"@[0] == 'l');
        assert("setup"@ != "users"@);
        assert("login"@ != "users"@);
        assert("setup"@ != "login"@);
    }
    if path.len() == 2 && str_eq(path[0].as_str(), "v1") {
        if str_eq(path[1].as_str(), "setup") {
            if m == Method::Post {
                Some(Route::Setup)
            } else {
                None
            }
        } else if str_eq(path[1].as_str(), "login") {
            if m == Method::Post {
                Some(Route::Login)
            } else {
                None
            }
        } else if str_eq(path[1].as_str(), "users") {
            match m {
                Method::Post => Some(Route::CreateUser),
                Method::Get => Some(Route::GetAllUsers),
                _ => None,
            }
        } else {
            None
        }
    } else if path.len() == 3 && str_eq(path[0].as_str(), "v1") && str_eq(
        path[1].as_str(),
        "users",
    ) {
        match m {
            Method::Get => Some(Route::GetUser),
            Method::Put => Some(Route::EditUser),
            Method::Delete => Some(Route::DeleteUser),
            _ => None,
        }
    } else {
        None
    }
}

/// The configured request pipeline: the auth gate's endpoint allow-list and
/// the CORS decorator's. Fixed at startup, immutable for the process
/// lifetime.
pub struct Pipeline {
    pub auth_endpoints: Vec<EndpointPattern>,
    pub cors_endpoints: Vec<EndpointPattern>,
}

/// What the CORS decorator makes of a response: the three fixed headers when
/// the request matches the configured list (OPTIONS preflights count as
/// matching), the response untouched otherwise.
pub open spec fn spec_finish(
    eps: Seq<EndpointPattern>,
    m: Method,
    path: Seq<Seq<char>>,
    resp: ResponseV,
) -> ResponseV {
    if spec_any_matches(eps, m, path, true) {
        ResponseV { status: resp.status, body: resp.body, cors: Some(spec_std_cors()) }
    } else {
        resp
    }
}

/// The CORS policy law: for every configured endpoint list and every
/// response — success and error alike — a matching request leaves with all
/// three CORS headers set to their fixed values, and a request matching no
/// entry leaves with the response exactly as the handler made it, so none
/// of the three headers appear.
pub proof fn lemma_cors_policy(
    eps: Seq<EndpointPattern>,
    m: Method,
    path: Seq<Seq<char>>,
    resp: ResponseV,
)
    requires
        resp.cors is None,
    ensures
        spec_any_matches(eps, m, path, true) ==> spec_finish(eps, m, path, resp).cors == Some(
            spec_std_cors(),
        ),
        !spec_any_matches(eps, m, path, true) ==> spec_finish(eps, m, path, resp).cors is None,
        spec_finish(eps, m, path, resp).status == resp.status,
        spec_finish(eps, m, path, resp).body == resp.body,
{
}

impl Pipeline {
    /// Starts handling a request: runs the auth gate first (its rejection
    /// short-circuits, so the handler never runs for a gated request
    /// without a valid session), then resolves the route. The bootstrap and
    /// login handlers need the store; for them the pipeline hands back what
    /// to ask it.
    pub fn begin(&self, req: &Request, secret: &str, now: u64) -> (r: Next)
        ensures
            ({
                let path = spec_split_path(req.path@);
                let g = spec_gate(
                    self.auth_endpoints@,
                    req.method,
                    path,
                    spec_auth_view(*req),
                    secret@,
                    now,
                );
                let rt = spec_route_of(req.method, path);
                &&& (g matches GateV::Fail(e) ==> (r matches Next::Done(resp) && resp@
                    == spec_gate_reject_v(e)))
                &&& (g is Pass ==> match rt {
                    Option::None => (r matches Next::Done(resp) && resp@ == spec_not_found_v()),
                    Option::Some(rr) => {
                        if rr == Route::Setup {
                            r is SetupAdminCheck
                        } else if rr == Route::Login {
                            match spec_basic_creds(spec_auth_view(*req)) {
                                Option::None => (r matches Next::Done(resp) && resp@
                                    == spec_auth_header_v()),
                                Option::Some(cr) => (r matches Next::LoginLookup(u, pw) && u@
                                    == cr.0 && pw@ == cr.1),
                            }
                        } else {
                            (r matches Next::Done(resp) && resp@ == spec_not_found_v())
                        }
                    },
                })
            }),
    {
        match gate(&self.auth_endpoints, req, secret, now) {
            GateOutcome::Reject(resp) => Next::Done(resp),
            GateOutcome::Admit(_) => {
                let path = split_path(req.path.as_str());
                match route_of(req.method, &path) {
                    None => Next::Done(error_response(404, ERRNO_NOT_FOUND, None)),
                    Some(rt) => match rt {
                        Route::Setup => Next::SetupAdminCheck,
                        Route::Login => match basic_creds(&req.authorization) {
                            None => Next::Done(
                                error_response(
                                    400,
                                    ERRNO_AUTH_HEADER,
                                    Some(
                                        String::from_str(
                                            "Missing or malformed authentication header",
                                        ),
                                    ),
                                ),
                            ),
                            Some(c) => Next::LoginLookup(c.0, c.1),
                        },
                        Route::CreateUser => Next::Done(UsersRouter::create_user(req)),
                        Route::GetUser => Next::Done(UsersRouter::get_user(req)),
                        Route::GetAllUsers => Next::Done(UsersRouter::get_all_users(req)),
                        Route::EditUser => Next::Done(UsersRouter::edit_user(req)),
                        Route::DeleteUser => Next::Done(UsersRouter::delete_user(req)),
                    },
                }
            },
        }
    }

    /// Ends handling a request: applies the CORS decorator to whatever
    /// response came out — the auth gate's rejection, a handler error or a
    /// success alike.
    pub fn finish(&self, req: &Request, resp: Response) -> (r: Response)
        ensures
            r@ == spec_finish(
                self.cors_endpoints@,
                req.method,
                spec_split_path(req.path@),
                resp@,
            ),
    {
        let path = split_path(req.path.as_str());
        if any_matches(&self.cors_endpoints, req.method, &path, true) {
            Response { status: resp.status, body: resp.body, cors: Some(make_cors_headers()) }
        } else {
            resp
        }
    }
}

/// The endpoints the auth gate protects, exactly as `init` configures them.
pub open spec fn spec_auth_covered(m: Method, path: Seq<Seq<char>>) -> bool {
    ||| ((m == Method::Post || m == Method::Get) && spec_path2(path, "v1"@, "users"@))
    ||| ((m == Method::Put || m == Method::Delete) && spec_path3_wild(path, "v1"@, "users"@))
}

/// The endpoints the CORS decorator covers, exactly as `init` configures
/// them; OPTIONS preflights count as matching each entry.
pub open spec fn spec_cors_covered(m: Method, path: Seq<Seq<char>>) -> bool {
    ||| ((m == Method::Post || m == Method::Options) && spec_path2(path, "v1"@, "login"@))
    ||| ((m == Method::Post || m == Method::Get || m == Method::Options) && spec_path2(
        path,
        "v1"@,
        "users"@,
    ))
    ||| ((m == Method::Get || m == Method::Put || m == Method::Delete || m == Method::Options)
        && spec_path3_wild(path, "v1"@, "users"@))
}

fn methods2(a: Method, b: Method) -> (v: Vec<Method>)
    ensures
        v@ == seq![a, b],
{
    let mut v: Vec<Method> = Vec::new();
    v.push(a);
    v.push(b);
    assert(v@ =~= seq![a, b]);
    v
}

fn methods3(a: Method, b: Method, c: Method) -> (v: Vec<Method>)
    ensures
        v@ == seq![a, b, c],
{
    let mut v: Vec<Method> = Vec::new();
    v.push(a);
    v.push(b);
    v.push(c);
    assert(v@ =~= seq![a, b, c]);
    v
}

fn segs2(a: &str, b: &str) -> (v: Vec<PatternSeg>)
    ensures
        v@.len() == 2,
        (v@[0] matches PatternSeg::Literal(l) && l@ == a@),
        (v@[1] matches PatternSeg::Literal(l) && l@ == b@),
{
    let mut v: Vec<PatternSeg> = Vec::new();
    v.push(PatternSeg::Literal(a.to_owned()));
    v.push(PatternSeg::Literal(b.to_owned()));
    v
}

fn segs2_wild(a: &str, b: &str) -> (v: Vec<PatternSeg>)
    ensures
        v@.len() == 3,
        (v@[0] matches PatternSeg::Literal(l) && l@ == a@),
        (v@[1] matches PatternSeg::Literal(l) && l@ == b@),
        v@[2] is Wildcard,
{
    let mut v: Vec<PatternSeg> = Vec::new();
    v.push(PatternSeg::Literal(a.to_owned()));
    v.push(PatternSeg::Literal(b.to_owned()));
    v.push(PatternSeg::Wildcard);
    v
}

impl UsersRouter {
    /// The admin-bootstrap decision: refuse with 410 Gone while an admin
    /// exists (and touch the store no further); otherwise validate the body
    /// fields in order and refuse the first failing one with 400 and its
    /// field errno; otherwise hand back the admin record to create. The
    /// admin check and the creation are not atomic here: true single-admin
    /// enforcement belongs to the store's uniqueness constraint.
    pub fn setup(admins_exist: bool, body: &SetupInput) -> (r: SetupStep)
        ensures
            admins_exist ==> (r matches SetupStep::Done(resp) && resp@ == spec_gone_v()),
            !admins_exist ==> (spec_setup_validation(body@) matches Some(e) ==> (r
                matches SetupStep::Done(resp) && resp@ == spec_bad_request_v(e))),
            !admins_exist ==> (spec_setup_validation(body@) is None ==> (r
                matches SetupStep::CreateAdmin(u) && Some(u.name@) == body@.username && Some(
                u.email@,
            ) == body@.email && Some(u.password@) == body@.password)),
    {
        if admins_exist {
            return SetupStep::Done(
                error_response(
                    410,
                    ERRNO_GONE,
                    Some(String::from_str("There is already an admin account")),
                ),
            );
        }
        let name = match &body.username {
            None => {
                return SetupStep::Done(validation_error(ERRNO_INVALID_USERNAME));
            },
            Some(u) => {
                if u.as_str().is_empty() {
                    return SetupStep::Done(validation_error(ERRNO_INVALID_USERNAME));
                }
                u.clone()
            },
        };
        let email = match &body.email {
            None => {
                return SetupStep::Done(validation_error(ERRNO_INVALID_EMAIL));
            },
            Some(e) => {
                if !email_plausible(e.as_str()) {
                    return SetupStep::Done(validation_error(ERRNO_INVALID_EMAIL));
                }
                e.clone()
            },
        };
        let password = match &body.password {
            None => {
                return SetupStep::Done(validation_error(ERRNO_INVALID_PASSWORD));
            },
            Some(p) => {
                if p.as_str().unicode_len() < 8 {
                    return SetupStep::Done(validation_error(ERRNO_INVALID_PASSWORD));
                }
                p.clone()
            },
        };
        SetupStep::CreateAdmin(NewAdmin { name, email, password })
    }

    /// Finishes the bootstrap after the store attempted to persist the new
    /// admin: a store failure is a bare 500; success issues the admin's
    /// session and responds 201 Created.
    pub fn setup_created(created: Option<&User>, secret: &str, now: u64, ttl: u64) -> (r: Response)
        requires
            now + ttl <= u64::MAX,
        ensures
            created is None ==> r@ == spec_internal_v(),
            created matches Some(u) ==> r@ == spec_session_v(
                spec_issue(spec_user_claims(*u, now, ttl), secret@),
            ),
    {
        match created {
            None => error_response(500, ERRNO_INTERNAL, None),
            Some(u) => session_response(from_user(u, secret, now, ttl)),
        }
    }

    /// Finishes a login after the store looked up the credential pair: a
    /// store failure is a bare 500; anything but exactly one matching user
    /// is 401 (no match and ambiguous match alike); one match issues that
    /// user's session and responds 201 Created.
    pub fn login(users: Option<&Vec<User>>, secret: &str, now: u64, ttl: u64) -> (r: Response)
        requires
            now + ttl <= u64::MAX,
        ensures
            users is None ==> r@ == spec_internal_v(),
            users matches Some(us) ==> ((us@.len() != 1 ==> r@ == spec_unauthorized_v()) && (
            us@.len() == 1 ==> r@ == spec_session_v(
                spec_issue(spec_user_claims(us@[0], now, ttl), secret@),
            ))),
    {
        match users {
            None => error_response(500, ERRNO_INTERNAL, None),
            Some(us) => {
                if us.len() != 1 {
                    error_response(401, ERRNO_UNAUTHORIZED, None)
                } else {
                    session_response(from_user(&us[0], secret, now, ttl))
                }
            },
        }
    }

    pub fn create_user(_req: &Request) -> (r: Response)
        ensures
            r@ == spec_not_found_v(),
    {
        error_response(404, ERRNO_NOT_FOUND, None)
    }

    pub fn get_user(_req: &Request) -> (r: Response)
        ensures
            r@ == spec_not_found_v(),
    {
        error_response(404, ERRNO_NOT_FOUND, None)
    }

    pub fn get_all_users(_req: &Request) -> (r: Response)
        ensures
            r@ == spec_not_found_v(),
    {
        error_response(404, ERRNO_NOT_FOUND, None)
    }

    pub fn edit_user(_req: &Request) -> (r: Response)
        ensures
            r@ == spec_not_found_v(),
    {
        error_response(404, ERRNO_NOT_FOUND, None)
    }

    pub fn delete_user(_req: &Request) -> (r: Response)
        ensures
            r@ == spec_not_found_v(),
    {
        error_response(404, ERRNO_NOT_FOUND, None)
    }

    /// Builds the request pipeline configuration exactly as the service
    /// wires it: the auth gate protects POST/GET `/v1/users` and PUT/DELETE
    /// `/v1/users/:id`; the CORS decorator covers POST `/v1/login`,
    /// POST/GET `/v1/users` and GET/PUT/DELETE `/v1/users/:id` (and their
    /// OPTIONS preflights). `/v1/setup` is on neither list.
    pub fn init() -> (p: Pipeline)
        ensures
            forall|m: Method, path: Seq<Seq<char>>| #![auto]
                spec_any_matches(p.auth_endpoints@, m, path, false) <==> spec_auth_covered(
                    m,
                    path,
                ),
            forall|m: Method, path: Seq<Seq<char>>| #![auto]
                spec_any_matches(p.cors_endpoints@, m, path, true) <==> spec_cors_covered(
                    m,
                    path,
                ),
    {
        let mut auth: Vec<EndpointPattern> = Vec::new();
        auth.push(
            EndpointPattern {
                methods: methods2(Method::Post, Method::Get),
                segments: segs2("v1", "users"),
            },
        );
        auth.push(
            EndpointPattern {
                methods: methods2(Method::Put, Method::Delete),
                segments: segs2_wild("v1", "users"),
            },
        );
        let mut cors: Vec<EndpointPattern> = Vec::new();
        cors.push(
            EndpointPattern { methods: methods1(Method::Post), segments: segs2("v1", "login") },
        );
        cors.push(
            EndpointPattern {
                methods: methods2(Method::Post, Method::Get),
                segments: segs2("v1", "users"),
            },
        );
        cors.push(
            EndpointPattern {
                methods: methods3(Method::Get, Method::Put, Method::Delete),
                segments: segs2_wild("v1", "users"),
            },
        );
        proof {
            let ae = auth@;
            let a0 = ae[0];
            let a1 = ae[1];
            assert(ae.len() == 2);
            assert(a0.methods@ == seq![Method::Post, Method::Get]);
            assert(a1.methods@ == seq![Method::Put, Method::Delete]);
            assert forall|m: Method, path: Seq<Seq<char>>| #![auto]
                spec_any_matches(ae, m, path, false) <==> spec_auth_covered(m, path) by {
                if spec_any_matches(ae, m, path, false) {
                    let j = choose|j: int|
                        0 <= j < ae.len() && spec_pattern_matches(ae[j], m, path, false);
                    if j == 0 {
                        let i = choose|i: int|
                            0 <= i < a0.methods@.len() && a0.methods@[i] == m;
                        assert(m == Method::Post || m == Method::Get);
                        assert(seg_matches(a0.segments@[0], path[0]));
                        assert(seg_matches(a0.segments@[1], path[1]));
                        assert(spec_path2(path, "v1"@, "users"@));
                    } else {
                        let i = choose|i: int|
                            0 <= i < a1.methods@.len() && a1.methods@[i] == m;
                        assert(m == Method::Put || m == Method::Delete);
                        assert(seg_matches(a1.segments@[0], path[0]));
                        assert(seg_matches(a1.segments@[1], path[1]));
                        assert(spec_path3_wild(path, "v1"@, "users"@));
                    }
                }
                if spec_auth_covered(m, path) {
                    if (m == Method::Post || m == Method::Get) && spec_path2(
                        path,
                        "v1"@,
                        "users"@,
                    ) {
                        if m == Method::Post {
                            assert(a0.methods@[0] == m);
                        } else {
                            assert(a0.methods@[1] == m);
                        }
                        assert(a0.methods@.contains(m));
                        assert forall|i: int| 0 <= i < path.len() implies seg_matches(
                            a0.segments@[i],
                            path[i],
                        ) by {}
                        assert(spec_pattern_matches(ae[0], m, path, false));
                        assert(spec_any_matches(ae, m, path, false));
                    } else {
                        if m == Method::Put {
                            assert(a1.methods@[0] == m);
                        } else {
                            assert(a1.methods@[1] == m);
                        }
                        assert(a1.methods@.contains(m));
                        assert forall|i: int| 0 <= i < path.len() implies seg_matches(
                            a1.segments@[i],
                            path[i],
                        ) by {}
                        assert(spec_pattern_matches(ae[1], m, path, false));
                        assert(spec_any_matches(ae, m, path, false));
                    }
                }
            }
            let ce = cors@;
            let c0 = ce[0];
            let c1 = ce[1];
            let c2 = ce[2];
            assert(ce.len() == 3);
            assert(c0.methods@ == seq![Method::Post]);
            assert(c1.methods@ == seq![Method::Post, Method::Get]);
            assert(c2.methods@ == seq![Method::Get, Method::Put, Method::Delete]);
            assert forall|m: Method, path: Seq<Seq<char>>| #![auto]
                spec_any_matches(ce, m, path, true) <==> spec_cors_covered(m, path) by {
                if spec_any_matches(ce, m, path, true) {
                    let j = choose|j: int|
                        0 <= j < ce.len() && spec_pattern_matches(ce[j], m, path, true);
                    if j == 0 {
                        if c0.methods@.contains(m) {
                            let i = choose|i: int|
                                0 <= i < c0.methods@.len() && c0.methods@[i] == m;
                            assert(m == Method::Post);
                        }
                        assert(seg_matches(c0.segments@[0], path[0]));
                        assert(seg_matches(c0.segments@[1], path[1]));
                        assert(spec_path2(path, "v1"@, "login"@));
                    } else if j == 1 {
                        if c1.methods@.contains(m) {
                            let i = choose|i: int|
                                0 <= i < c1.methods@.len() && c1.methods@[i] == m;
                            assert(m == Method::Post || m == Method::Get);
                        }
                        assert(seg_matches(c1.segments@[0], path[0]));
                        assert(seg_matches(c1.segments@[1], path[1]));
                        assert(spec_path2(path, "v1"@, "users"@));
                    } else {
                        if c2.methods@.contains(m) {
                            let i = choose|i: int|
                                0 <= i < c2.methods@.len() && c2.methods@[i] == m;
                            assert(m == Method::Get || m == Method::Put || m == Method::Delete);
                        }
                        assert(seg_matches(c2.segments@[0], path[0]));
                        assert(seg_matches(c2.segments@[1], path[1]));
                        assert(spec_path3_wild(path, "v1"@, "users"@));
                    }
                }
                if spec_cors_covered(m, path) {
                    if (m == Method::Post || m == Method::Options) && spec_path2(
                        path,
                        "v1"@,
                        "login"@,
                    ) {
                        if m == Method::Post {
                            assert(c0.methods@[0] == m);
                            assert(c0.methods@.contains(m));
                        }
                        assert forall|i: int| 0 <= i < path.len() implies seg_matches(
                            c0.segments@[i],
                            path[i],
                        ) by {}
                        assert(spec_pattern_matches(ce[0], m, path, true));
                        assert(spec_any_matches(ce, m, path, true));
                    } else if (m == Method::Post || m == Method::Get || m == Method::Options)
                        && spec_path2(path, "v1"@, "users"@) {
                        if m == Method::Post {
                            assert(c1.methods@[0] == m);
                            assert(c1.methods@.contains(m));
                        } else if m == Method::Get {
                            assert(c1.methods@[1] == m);
                            assert(c1.methods@.contains(m));
                        }
                        assert forall|i: int| 0 <= i < path.len() implies seg_matches(
                            c1.segments@[i],
                            path[i],
                        ) by {}
                        assert(spec_pattern_matches(ce[1], m, path, true));
                        assert(spec_any_matches(ce, m, path, true));
                    } else {
                        if m == Method::Get {
                            assert(c2.methods@[0] == m);
                            assert(c2.methods@.contains(m));
                        } else if m == Method::Put {
                            assert(c2.methods@[1] == m);
                            assert(c2.methods@.contains(m));
                        } else if m == Method::Delete {
                            assert(c2.methods@[2] == m);
                            assert(c2.methods@.contains(m));
                        }
                        assert forall|i: int| 0 <= i < path.len() implies seg_matches(
                            c2.segments@[i],
                            path[i],
                        ) by {}
                        assert(spec_pattern_matches(ce[2], m, path, true));
                        assert(spec_any_matches(ce, m, path, true));
                    }
                }
            }
        }
        Pipeline { auth_endpoints: auth, cors_endpoints: cors }
    }
}

fn methods1(a: Method) -> (v: Vec<Method>)
    ensures
        v@ == seq![a],
{
    let mut v: Vec<Method> = Vec::new();
    v.push(a);
    assert(v@ =~= seq![a]);
    v
}

} // verus!
