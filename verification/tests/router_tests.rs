use foxbox_users::claims::User;
use foxbox_users::http::{Body, Request, Response};
use foxbox_users::pattern::Method;
use foxbox_users::token::{issue, verify};
use foxbox_users::claims::SessionClaims;
use foxbox_users::users_router::{Next, SetupInput, SetupStep, UsersRouter};

const SECRET: &str = "secret";
const NOW: u64 = 1000;
const TTL: u64 = 3600;

fn request(method: Method, path: &str, authorization: Option<String>) -> Request {
    Request { method, path: String::from(path), authorization }
}

fn basic_auth(user: &str, password: &str) -> String {
    let engine = &base64::engine::general_purpose::STANDARD;
    format!(
        "Basic {}",
        base64::Engine::encode(engine, format!("{}:{}", user, password))
    )
}

fn errno_of(resp: &Response) -> Option<u32> {
    match &resp.body {
        Body::Failure { errno, .. } => Some(*errno),
        _ => None,
    }
}

fn message_of(resp: &Response) -> Option<String> {
    match &resp.body {
        Body::Failure { message, .. } => message.clone(),
        _ => None,
    }
}

fn token_of(resp: &Response) -> Option<String> {
    match &resp.body {
        Body::Session { session_token } => Some(session_token.clone()),
        _ => None,
    }
}

fn stored_user(id: u64, name: &str, password: &str, admin: bool) -> User {
    User {
        id,
        name: String::from(name),
        email: String::from(format!("{}@example.com", name)),
        password: String::from(password),
        is_admin: admin,
    }
}

fn setup_body(username: Option<&str>, email: Option<&str>, password: Option<&str>) -> SetupInput {
    SetupInput {
        username: username.map(String::from),
        email: email.map(String::from),
        password: password.map(String::from),
    }
}

#[test]
fn cors_headers_on_preflight_of_configured_endpoint() {
    let pipeline = UsersRouter::init();
    let req = request(Method::Options, "/v1/login", None);
    let next = pipeline.begin(&req, SECRET, NOW);
    let resp = match next {
        Next::Done(r) => r,
        _ => panic!("preflight does not reach the store"),
    };
    let resp = pipeline.finish(&req, resp);
    let cors = resp.cors.expect("CORS headers set");
    assert_eq!(cors.allow_origin, "*");
    assert_eq!(cors.allow_headers, "accept, content-type");
    assert_eq!(cors.allow_methods, "GET, HEAD, POST, DELETE, OPTIONS, PUT, PATCH");
}

#[test]
fn cors_headers_present_even_on_error_responses() {
    let pipeline = UsersRouter::init();
    let req = request(Method::Post, "/v1/login", None);
    let resp = match pipeline.begin(&req, SECRET, NOW) {
        Next::Done(r) => r,
        _ => panic!("login without credentials fails before the store"),
    };
    assert_eq!(resp.status, 400);
    assert_eq!(errno_of(&resp), Some(103));
    let resp = pipeline.finish(&req, resp);
    assert_eq!(resp.status, 400);
    assert!(resp.cors.is_some());
}

#[test]
fn no_cors_headers_on_unconfigured_endpoint() {
    let pipeline = UsersRouter::init();
    let req = request(Method::Options, "/v1/setup", None);
    let resp = match pipeline.begin(&req, SECRET, NOW) {
        Next::Done(r) => r,
        _ => panic!("OPTIONS /v1/setup is not routed"),
    };
    let resp = pipeline.finish(&req, resp);
    assert!(resp.cors.is_none());
}

#[test]
fn setup_creates_first_admin_and_then_goes_gone() {
    let pipeline = UsersRouter::init();
    let mut store: Vec<User> = Vec::new();
    let req = request(Method::Post, "/v1/setup", None);

    // First call: no admin yet; the body validates and the admin is created.
    assert!(matches!(pipeline.begin(&req, SECRET, NOW), Next::SetupAdminCheck));
    let admins_exist = store.iter().any(|u| u.is_admin);
    let body = setup_body(Some("username"), Some("username@domain.com"), Some("password"));
    let new_admin = match UsersRouter::setup(admins_exist, &body) {
        SetupStep::CreateAdmin(u) => u,
        SetupStep::Done(_) => panic!("first setup call must create the admin"),
    };
    let created = User {
        id: 1,
        name: new_admin.name,
        email: new_admin.email,
        password: new_admin.password,
        is_admin: true,
    };
    store.push(created.clone());
    let resp = UsersRouter::setup_created(Some(&created), SECRET, NOW, TTL);
    assert_eq!(resp.status, 201);
    let token = token_of(&resp).expect("setup responds with a session token");
    let claims = verify(&token, SECRET, NOW).expect("fresh setup token verifies");
    assert_eq!(claims.name, "username");
    assert!(claims.admin);

    // Second call: an admin exists; 410, the fixed message, no new record.
    let admins_exist = store.iter().any(|u| u.is_admin);
    let body = setup_body(Some("u"), Some("u@d"), Some("12345678"));
    let resp = match UsersRouter::setup(admins_exist, &body) {
        SetupStep::Done(r) => r,
        SetupStep::CreateAdmin(_) => panic!("second setup call must not create"),
    };
    assert_eq!(resp.status, 410);
    assert_eq!(errno_of(&resp), Some(410));
    assert_eq!(message_of(&resp).as_deref(), Some("There is already an admin account"));
    assert_eq!(store.len(), 1);
}

#[test]
fn setup_missing_username_is_errno_100() {
    let body = setup_body(None, Some("u@d"), Some("12345678"));
    let resp = match UsersRouter::setup(false, &body) {
        SetupStep::Done(r) => r,
        _ => panic!("invalid body must not create"),
    };
    assert_eq!(resp.status, 400);
    assert_eq!(errno_of(&resp), Some(100));
    assert_eq!(message_of(&resp).as_deref(), Some("Invalid user name"));
}

#[test]
fn setup_missing_email_is_errno_101() {
    let body = setup_body(Some("u"), None, Some("12345678"));
    let resp = match UsersRouter::setup(false, &body) {
        SetupStep::Done(r) => r,
        _ => panic!("invalid body must not create"),
    };
    assert_eq!(resp.status, 400);
    assert_eq!(errno_of(&resp), Some(101));
    assert_eq!(message_of(&resp).as_deref(), Some("Invalid email"));
}

#[test]
fn setup_missing_password_is_errno_102() {
    let body = setup_body(Some("u"), Some("u@d"), None);
    let resp = match UsersRouter::setup(false, &body) {
        SetupStep::Done(r) => r,
        _ => panic!("invalid body must not create"),
    };
    assert_eq!(resp.status, 400);
    assert_eq!(errno_of(&resp), Some(102));
    assert_eq!(
        message_of(&resp).as_deref(),
        Some("Invalid password. Passwords must have a minimum of 8 chars")
    );
}

#[test]
fn setup_validation_order_and_rules() {
    // Empty username comes before a bad email; a 7-character password fails.
    let body = setup_body(Some(""), None, None);
    let resp = match UsersRouter::setup(false, &body) {
        SetupStep::Done(r) => r,
        _ => panic!(),
    };
    assert_eq!(errno_of(&resp), Some(100));
    let body = setup_body(Some("u"), Some("not-an-email"), Some("12345678"));
    let resp = match UsersRouter::setup(false, &body) {
        SetupStep::Done(r) => r,
        _ => panic!(),
    };
    assert_eq!(errno_of(&resp), Some(101));
    let body = setup_body(Some("u"), Some("u@d"), Some("1234567"));
    let resp = match UsersRouter::setup(false, &body) {
        SetupStep::Done(r) => r,
        _ => panic!(),
    };
    assert_eq!(errno_of(&resp), Some(102));
    assert!(matches!(
        UsersRouter::setup(false, &setup_body(Some("u"), Some("u@d"), Some("12345678"))),
        SetupStep::CreateAdmin(_)
    ));
}

#[test]
fn existing_admin_wins_over_body_validation() {
    // The admin check runs before the body is even looked at.
    let body = setup_body(None, None, None);
    let resp = match UsersRouter::setup(true, &body) {
        SetupStep::Done(r) => r,
        _ => panic!("setup with an existing admin never creates"),
    };
    assert_eq!(resp.status, 410);
    assert_eq!(errno_of(&resp), Some(410));
}

#[test]
fn preflight_of_gated_endpoint_passes_the_auth_gate() {
    // OPTIONS is treated as matching only for CORS purposes; the auth list
    // gates the declared methods alone.
    let pipeline = UsersRouter::init();
    let req = request(Method::Options, "/v1/users", None);
    let resp = match pipeline.begin(&req, SECRET, NOW) {
        Next::Done(r) => r,
        _ => panic!("OPTIONS /v1/users is not routed"),
    };
    assert_eq!(resp.status, 404);
    let resp = pipeline.finish(&req, resp);
    assert!(resp.cors.is_some());
}

#[test]
fn login_with_empty_username_is_errno_103() {
    let pipeline = UsersRouter::init();
    let req = request(Method::Post, "/v1/login", Some(basic_auth("", "password")));
    let resp = match pipeline.begin(&req, SECRET, NOW) {
        Next::Done(r) => r,
        _ => panic!("empty username must fail before the store"),
    };
    assert_eq!(resp.status, 400);
    assert_eq!(errno_of(&resp), Some(103));
}

#[test]
fn login_with_empty_password_is_errno_103() {
    let pipeline = UsersRouter::init();
    let req = request(Method::Post, "/v1/login", Some(basic_auth("username", "")));
    let resp = match pipeline.begin(&req, SECRET, NOW) {
        Next::Done(r) => r,
        _ => panic!("empty password must fail before the store"),
    };
    assert_eq!(resp.status, 400);
    assert_eq!(errno_of(&resp), Some(103));
}

#[test]
fn login_without_header_is_errno_103() {
    let pipeline = UsersRouter::init();
    let req = request(Method::Post, "/v1/login", None);
    let resp = match pipeline.begin(&req, SECRET, NOW) {
        Next::Done(r) => r,
        _ => panic!("missing header must fail before the store"),
    };
    assert_eq!(resp.status, 400);
    assert_eq!(errno_of(&resp), Some(103));
}

#[test]
fn login_with_unknown_user_is_401() {
    let pipeline = UsersRouter::init();
    let store = vec![stored_user(1, "username", "password", false)];
    let req = request(Method::Post, "/v1/login", Some(basic_auth("johndoe", "password")));
    let (user, password) = match pipeline.begin(&req, SECRET, NOW) {
        Next::LoginLookup(u, p) => (u, p),
        _ => panic!("well-formed credentials reach the store"),
    };
    let matches: Vec<User> = store
        .iter()
        .filter(|u| u.name == user && u.password == password)
        .cloned()
        .collect();
    let resp = UsersRouter::login(Some(&matches), SECRET, NOW, TTL);
    assert_eq!(resp.status, 401);
    assert_eq!(errno_of(&resp), Some(401));
}

#[test]
fn login_with_valid_credentials_issues_session() {
    let pipeline = UsersRouter::init();
    let store = vec![stored_user(1, "username", "password", false)];
    let req = request(Method::Post, "/v1/login", Some(basic_auth("username", "password")));
    let (user, password) = match pipeline.begin(&req, SECRET, NOW) {
        Next::LoginLookup(u, p) => (u, p),
        _ => panic!("well-formed credentials reach the store"),
    };
    assert_eq!(user, "username");
    assert_eq!(password, "password");
    let matches: Vec<User> = store
        .iter()
        .filter(|u| u.name == user && u.password == password)
        .cloned()
        .collect();
    let resp = UsersRouter::login(Some(&matches), SECRET, NOW, TTL);
    assert_eq!(resp.status, 201);
    let token = token_of(&resp).expect("login responds with a session token");
    let claims = verify(&token, SECRET, NOW).expect("fresh login token verifies");
    assert_eq!(claims.id, 1);
    assert_eq!(claims.name, "username");
}

#[test]
fn ambiguous_credential_match_is_401() {
    let mut users = vec![
        stored_user(1, "username", "password", false),
        stored_user(2, "username", "password", false),
    ];
    let resp = UsersRouter::login(Some(&users), SECRET, NOW, TTL);
    assert_eq!(resp.status, 401);
    users.truncate(0);
    let resp = UsersRouter::login(Some(&users), SECRET, NOW, TTL);
    assert_eq!(resp.status, 401);
}

#[test]
fn store_failures_surface_as_bare_500() {
    let resp = UsersRouter::login(None, SECRET, NOW, TTL);
    assert_eq!(resp.status, 500);
    assert_eq!(errno_of(&resp), Some(501));
    assert_eq!(message_of(&resp), None);
    let resp = UsersRouter::setup_created(None, SECRET, NOW, TTL);
    assert_eq!(resp.status, 500);
    assert_eq!(errno_of(&resp), Some(501));
}

#[test]
fn gated_endpoint_rejects_request_without_token() {
    let pipeline = UsersRouter::init();
    let req = request(Method::Post, "/v1/users", None);
    let resp = match pipeline.begin(&req, SECRET, NOW) {
        Next::Done(r) => r,
        _ => panic!("gate must short-circuit"),
    };
    assert_eq!(resp.status, 401);
    assert_eq!(errno_of(&resp), Some(103));
}

#[test]
fn gated_endpoint_rejects_garbage_token() {
    let pipeline = UsersRouter::init();
    let req = request(
        Method::Put,
        "/v1/users/1",
        Some(String::from("Bearer not.a.token")),
    );
    let resp = match pipeline.begin(&req, SECRET, NOW) {
        Next::Done(r) => r,
        _ => panic!("gate must short-circuit"),
    };
    assert_eq!(resp.status, 401);
    assert_eq!(errno_of(&resp), Some(401));
}

#[test]
fn gated_endpoint_rejects_expired_token() {
    let pipeline = UsersRouter::init();
    let claims = SessionClaims {
        id: 1,
        name: String::from("username"),
        admin: false,
        iat: 0,
        exp: NOW - 1,
    };
    let header = format!("Bearer {}", issue(&claims, SECRET));
    let req = request(Method::Get, "/v1/users", Some(header));
    let resp = match pipeline.begin(&req, SECRET, NOW) {
        Next::Done(r) => r,
        _ => panic!("gate must short-circuit"),
    };
    assert_eq!(resp.status, 401);
    assert_eq!(errno_of(&resp), Some(401));
}

#[test]
fn gated_endpoint_admits_valid_token() {
    let pipeline = UsersRouter::init();
    let claims = SessionClaims {
        id: 1,
        name: String::from("username"),
        admin: true,
        iat: NOW,
        exp: NOW + TTL,
    };
    let header = format!("Bearer {}", issue(&claims, SECRET));
    let req = request(Method::Post, "/v1/users", Some(header));
    // The auth gate admits; the user-management handlers themselves are not
    // implemented and answer 404.
    let resp = match pipeline.begin(&req, SECRET, NOW) {
        Next::Done(r) => r,
        _ => panic!("POST /v1/users has an immediate handler"),
    };
    assert_eq!(resp.status, 404);
    assert_eq!(errno_of(&resp), Some(404));
}

#[test]
fn setup_and_login_are_not_gated() {
    let pipeline = UsersRouter::init();
    let req = request(Method::Post, "/v1/setup", None);
    assert!(matches!(pipeline.begin(&req, SECRET, NOW), Next::SetupAdminCheck));
    let req = request(Method::Post, "/v1/login", Some(basic_auth("u", "p")));
    assert!(matches!(pipeline.begin(&req, SECRET, NOW), Next::LoginLookup(_, _)));
}

#[test]
fn unknown_route_is_404() {
    let pipeline = UsersRouter::init();
    let req = request(Method::Get, "/v1/nothing", None);
    let resp = match pipeline.begin(&req, SECRET, NOW) {
        Next::Done(r) => r,
        _ => panic!("unknown routes answer at once"),
    };
    assert_eq!(resp.status, 404);
}

#[test]
fn crud_handlers_answer_404() {
    let req = request(Method::Post, "/v1/users", None);
    assert_eq!(UsersRouter::create_user(&req).status, 404);
    assert_eq!(UsersRouter::get_user(&req).status, 404);
    assert_eq!(UsersRouter::get_all_users(&req).status, 404);
    assert_eq!(UsersRouter::edit_user(&req).status, 404);
    assert_eq!(UsersRouter::delete_user(&req).status, 404);
}

#[test]
fn basic_credentials_split_at_first_colon() {
    let pipeline = UsersRouter::init();
    let req = request(Method::Post, "/v1/login", Some(basic_auth("user", "pa:ss")));
    match pipeline.begin(&req, SECRET, NOW) {
        Next::LoginLookup(u, p) => {
            assert_eq!(u, "user");
            assert_eq!(p, "pa:ss");
        },
        _ => panic!("credentials with a colon in the password are valid"),
    }
}
