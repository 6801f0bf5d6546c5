//! Verified core of a user-management REST service: a wildcard endpoint
//! pattern matcher, a signed session-token codec, an authorization gate,
//! a CORS decorator, and the admin-bootstrap and login flows.

pub mod claims;
pub mod decimal;
pub mod gate;
pub mod http;
pub mod pattern;
pub mod strutil;
pub mod token;
pub mod users_router;
