//! The request/response model this core works on. The surrounding system
//! maps its HTTP framework's types onto these and back; the core only ever
//! sees plain values.

use vstd::prelude::*;
use crate::pattern::Method;

verus! {

/// Error codes used in error bodies.
pub const ERRNO_INVALID_USERNAME: u32 = 100;

pub const ERRNO_INVALID_EMAIL: u32 = 101;

pub const ERRNO_INVALID_PASSWORD: u32 = 102;

pub const ERRNO_AUTH_HEADER: u32 = 103;

pub const ERRNO_NOT_FOUND: u32 = 404;

pub const ERRNO_UNAUTHORIZED: u32 = 401;

pub const ERRNO_GONE: u32 = 410;

pub const ERRNO_INTERNAL: u32 = 501;

/// The three response headers the CORS decorator sets.
pub struct CorsHeaders {
    pub allow_origin: String,
    pub allow_headers: String,
    pub allow_methods: String,
}

/// Model of the CORS headers.
pub struct CorsV {
    pub origin: Seq<char>,
    pub headers: Seq<char>,
    pub methods: Seq<char>,
}

impl View for CorsHeaders {
    type V = CorsV;

    open spec fn view(&self) -> CorsV {
        CorsV {
            origin: self.allow_origin@,
            headers: self.allow_headers@,
            methods: self.allow_methods@,
        }
    }
}

/// The fixed header values: any origin, the accept/content-type pair, and
/// the full method set.
pub open spec fn spec_std_cors() -> CorsV {
    CorsV {
        origin: "*"@,
        headers: "accept, content-type"@,
        methods: "GET, HEAD, POST, DELETE, OPTIONS, PUT, PATCH"@,
    }
}

pub fn make_cors_headers() -> (h: CorsHeaders)
    ensures
        h@ == spec_std_cors(),
{
    CorsHeaders {
        allow_origin: String::from_str("*"),
        allow_headers: String::from_str("accept, content-type"),
        allow_methods: String::from_str("GET, HEAD, POST, DELETE, OPTIONS, PUT, PATCH"),
    }
}

/// A response body: empty, a session-token envelope, or an error envelope
/// carrying an errno and an optional message.
pub enum Body {
    Empty,
    Session { session_token: String },
    Failure { errno: u32, message: Option<String> },
}

/// Model of a response body.
pub enum BodyV {
    Empty,
    Session(Seq<char>),
    Failure(u32, Option<Seq<char>>),
}

impl View for Body {
    type V = BodyV;

    open spec fn view(&self) -> BodyV {
        match self {
            Body::Empty => BodyV::Empty,
            Body::Session { session_token } => BodyV::Session(session_token@),
            Body::Failure { errno, message } => BodyV::Failure(
                *errno,
                match message {
                    None => None,
                    Some(m) => Some(m@),
                },
            ),
        }
    }
}

/// An HTTP response as this core models it.
pub struct Response {
    pub status: u16,
    pub body: Body,
    pub cors: Option<CorsHeaders>,
}

/// Model of a response.
pub struct ResponseV {
    pub status: u16,
    pub body: BodyV,
    pub cors: Option<CorsV>,
}

impl View for Response {
    type V = ResponseV;

    open spec fn view(&self) -> ResponseV {
        ResponseV {
            status: self.status,
            body: self.body@,
            cors: match self.cors {
                None => None,
                Some(h) => Some(h@),
            },
        }
    }
}

/// An inbound request as this core models it: the method, the raw path, and
/// the Authorization header if one was sent.
pub struct Request {
    pub method: Method,
    pub path: String,
    pub authorization: Option<String>,
}

/// The Authorization header's characters, if one was sent.
pub open spec fn spec_auth_view(req: Request) -> Option<Seq<char>> {
    match req.authorization {
        None => None,
        Some(h) => Some(h@),
    }
}

pub open spec fn spec_opt_view(m: Option<String>) -> Option<Seq<char>> {
    match m {
        None => None,
        Some(s) => Some(s@),
    }
}

/// Builds an error response: the given status, an error body with the given
/// errno and message, and no CORS headers.
pub fn error_response(status: u16, errno: u32, message: Option<String>) -> (r: Response)
    ensures
        r@ == (ResponseV {
            status: status,
            body: BodyV::Failure(errno, spec_opt_view(message)),
            cors: None::<CorsV>,
        }),
{
    Response { status, body: Body::Failure { errno, message }, cors: None }
}

/// Builds the 201 Created response whose body carries a session token.
pub fn session_response(token: String) -> (r: Response)
    ensures
        r@ == (ResponseV {
            status: 201,
            body: BodyV::Session(token@),
            cors: None::<CorsV>,
        }),
{
    Response { status: 201, body: Body::Session { session_token: token }, cors: None }
}

} // verus!
