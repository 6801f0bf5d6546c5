use foxbox_users::pattern::{
    any_matches, parse_pattern, pattern_matches, split_path, EndpointPattern, Method, PatternSeg,
};

fn path(segs: &[&str]) -> Vec<String> {
    segs.iter().map(|s| String::from(*s)).collect()
}

#[test]
fn split_path_drops_empty_segments() {
    assert_eq!(split_path("/v1/users"), path(&["v1", "users"]));
    assert_eq!(split_path("/v1/users/"), path(&["v1", "users"]));
    assert_eq!(split_path("v1//users"), path(&["v1", "users"]));
    assert_eq!(split_path(""), path(&[]));
    assert_eq!(split_path("///"), path(&[]));
    assert_eq!(split_path("/v1/users/15"), path(&["v1", "users", "15"]));
}

#[test]
fn parse_pattern_reads_wildcards() {
    let p = parse_pattern(vec![Method::Get], "/v1/users/:id");
    assert_eq!(p.segments.len(), 3);
    assert!(matches!(&p.segments[0], PatternSeg::Literal(l) if l == "v1"));
    assert!(matches!(&p.segments[1], PatternSeg::Literal(l) if l == "users"));
    assert!(matches!(&p.segments[2], PatternSeg::Wildcard));
}

#[test]
fn literal_pattern_matches_exact_path_only() {
    let p = parse_pattern(vec![Method::Post], "/v1/login");
    assert!(pattern_matches(&p, Method::Post, &path(&["v1", "login"]), false));
    assert!(!pattern_matches(&p, Method::Get, &path(&["v1", "login"]), false));
    assert!(!pattern_matches(&p, Method::Post, &path(&["v1", "login", "x"]), false));
    assert!(!pattern_matches(&p, Method::Post, &path(&["v1"]), false));
    assert!(!pattern_matches(&p, Method::Post, &path(&["v1", "setup"]), false));
}

#[test]
fn wildcard_matches_any_single_segment() {
    let p = parse_pattern(vec![Method::Put], "/v1/users/:id");
    assert!(pattern_matches(&p, Method::Put, &path(&["v1", "users", "1"]), false));
    assert!(pattern_matches(&p, Method::Put, &path(&["v1", "users", "abc"]), false));
    assert!(!pattern_matches(&p, Method::Put, &path(&["v1", "users"]), false));
    assert!(!pattern_matches(&p, Method::Put, &path(&["v1", "users", "1", "2"]), false));
}

#[test]
fn early_mismatch_is_not_overwritten_by_later_match() {
    // True conjunction across segments: a mismatch at the first position
    // must not be forgiven because a later position matches.
    let p = parse_pattern(vec![Method::Get], "/aaa/bbb");
    assert!(!pattern_matches(&p, Method::Get, &path(&["xxx", "bbb"]), false));
    assert!(!pattern_matches(&p, Method::Get, &path(&["aaa", "xxx"]), false));
    assert!(pattern_matches(&p, Method::Get, &path(&["aaa", "bbb"]), false));
}

#[test]
fn options_matches_only_when_preflight_allowed() {
    let p = parse_pattern(vec![Method::Post], "/v1/login");
    assert!(!pattern_matches(&p, Method::Options, &path(&["v1", "login"]), false));
    assert!(pattern_matches(&p, Method::Options, &path(&["v1", "login"]), true));
}

#[test]
fn any_matches_scans_the_whole_list() {
    let pats: Vec<EndpointPattern> = vec![
        parse_pattern(vec![Method::Post], "/v1/login"),
        parse_pattern(vec![Method::Get], "/v1/users/:id"),
    ];
    assert!(any_matches(&pats, Method::Post, &path(&["v1", "login"]), false));
    assert!(any_matches(&pats, Method::Get, &path(&["v1", "users", "9"]), false));
    assert!(!any_matches(&pats, Method::Get, &path(&["v1", "login"]), false));
    assert!(!any_matches(&pats, Method::Post, &path(&["v1", "setup"]), false));
    let none: Vec<EndpointPattern> = Vec::new();
    assert!(!any_matches(&none, Method::Post, &path(&["v1", "login"]), true));
}
