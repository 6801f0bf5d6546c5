use foxbox_users::claims::{claims_json, parse_claims, SessionClaims};
use foxbox_users::decimal::{parse_u64_at, u64_to_dec};

#[test]
fn decimal_rendering_is_canonical() {
    assert_eq!(u64_to_dec(0), "0");
    assert_eq!(u64_to_dec(7), "7");
    assert_eq!(u64_to_dec(10), "10");
    assert_eq!(u64_to_dec(90210), "90210");
    assert_eq!(u64_to_dec(u64::MAX), "18446744073709551615");
}

#[test]
fn decimal_parsing_is_strict() {
    assert_eq!(parse_u64_at("123x", 0), Some((123, 3)));
    assert_eq!(parse_u64_at("a123", 1), Some((123, 4)));
    assert_eq!(parse_u64_at("0", 0), Some((0, 1)));
    assert_eq!(parse_u64_at("0123", 0), None);
    assert_eq!(parse_u64_at("", 0), None);
    assert_eq!(parse_u64_at("abc", 0), None);
    assert_eq!(parse_u64_at("18446744073709551615", 0), Some((u64::MAX, 20)));
    assert_eq!(parse_u64_at("18446744073709551616", 0), None);
    assert_eq!(parse_u64_at("99999999999999999999999", 0), None);
}

#[test]
fn claims_serialize_to_exact_canonical_json() {
    let claims = SessionClaims {
        id: 3,
        name: String::from("bob"),
        admin: false,
        iat: 5,
        exp: 60,
    };
    assert_eq!(
        claims_json(&claims),
        "{\"id\":3,\"name\":\"bob\",\"admin\":false,\"iat\":5,\"exp\":60}"
    );
    let escaped = SessionClaims {
        id: 1,
        name: String::from("a\"b\\c"),
        admin: true,
        iat: 0,
        exp: 1,
    };
    assert_eq!(
        claims_json(&escaped),
        "{\"id\":1,\"name\":\"a\\\"b\\\\c\",\"admin\":true,\"iat\":0,\"exp\":1}"
    );
}

#[test]
fn claims_parse_inverts_serialization() {
    let claims = SessionClaims {
        id: 3,
        name: String::from("bo:b }{\" x"),
        admin: false,
        iat: 5,
        exp: 60,
    };
    let json = claims_json(&claims);
    assert_eq!(parse_claims(&json), Some(claims));
}

#[test]
fn claims_parser_rejects_non_canonical_forms() {
    assert_eq!(
        parse_claims("{\"id\":01,\"name\":\"b\",\"admin\":true,\"iat\":0,\"exp\":1}"),
        None
    );
    assert_eq!(
        parse_claims("{\"name\":\"b\",\"id\":1,\"admin\":true,\"iat\":0,\"exp\":1}"),
        None
    );
    assert_eq!(
        parse_claims("{\"id\":1,\"name\":\"b\",\"admin\":true,\"iat\":0,\"exp\":1} "),
        None
    );
    assert_eq!(
        parse_claims("{\"id\":1,\"name\":\"b\",\"admin\":maybe,\"iat\":0,\"exp\":1}"),
        None
    );
    assert_eq!(
        parse_claims("{\"id\":1,\"name\":\"b\",\"admin\":true,\"iat\":0,\"exp\":99999999999999999999}"),
        None
    );
    assert_eq!(parse_claims("{}"), None);
    assert_eq!(parse_claims(""), None);
    assert_eq!(
        parse_claims("{\"id\":1,\"name\":\"b\\x\",\"admin\":true,\"iat\":0,\"exp\":1}"),
        None
    );
}
