//! Tests for the atomic conditions, AndGroups and rule sets.

use carrier2::{
    GefyraRequest, MatchAndCondition, MatchHeader, MatchOrCondition, MatchPath, MatchRule,
    MatchType,
};

fn path(pattern: &str, match_type: MatchType) -> MatchPath {
    MatchPath::new(pattern.to_string(), match_type).unwrap()
}

fn header(name: &str, value: &str, match_type: MatchType) -> MatchHeader {
    MatchHeader::new(name.to_string(), value.to_string(), match_type).unwrap()
}

fn request(path_and_query: &str) -> GefyraRequest {
    GefyraRequest { path_and_query: path_and_query.to_string(), headers: Vec::new() }
}

#[test]
fn lib_match_path() {
    let m1 = path("/my-path_123", MatchType::ExactLookup);
    assert!(m1.is_hit("/my-path_123"));
    assert!(!m1.is_hit("/my-path_1234"));
    assert!(!m1.is_hit("/my-path_123?query=1234"));

    let m2 = path("/my-path_123", MatchType::PrefixLookup);
    assert!(m2.is_hit("/my-path_123"));
    assert!(m2.is_hit("/my-path_1234"));
    assert!(m2.is_hit("/my-path_123?query=1234"));
    assert!(!m2.is_hit("/other-path_123"));

    let regex1 = path("^/", MatchType::RegexLookup);
    assert!(regex1.is_hit("/my-path_123/456"));
    assert!(regex1.is_hit("/"));
    assert!(!regex1.is_hit("#123"));

    let regex2 = path("^/[a-z0-9-.]", MatchType::RegexLookup);
    assert!(regex2.is_hit("/my-path_123/456"));
    assert!(!regex2.is_hit("/"));
    assert!(!regex2.is_hit("#123"));

    let regex3 = path("^/[a-z0-9-.]{2,}/michael", MatchType::RegexLookup);
    assert!(regex3.is_hit("/my-path/michael"));
    assert!(!regex3.is_hit("/m/michael"));
    assert!(!regex3.is_hit("/my-path/joe"));
    assert!(!regex3.is_hit("/"));
    assert!(!regex3.is_hit("#123"));

    let regex4 = path("x-gefyra=michael", MatchType::RegexLookup);
    assert!(regex4.is_hit("/my-path/?x-gefyra=michael"));
    assert!(!regex4.is_hit("/my-path/?x-gefyra=joe"));
    assert!(!regex4.is_hit("/"));
    assert!(!regex4.is_hit("#123"));
}

#[test]
fn matching_match_path() {
    let m1 = path("/my-path_123", MatchType::ExactLookup);
    assert!(m1.is_hit("/my-path_123"));
    assert!(!m1.is_hit("/my-path_1234"));
    assert!(!m1.is_hit("/my-path_123?query=1234"));

    let m2 = path("/my-path_123", MatchType::PrefixLookup);
    assert!(m2.is_hit("/my-path_123"));
    assert!(m2.is_hit("/my-path_1234"));
    assert!(m2.is_hit("/my-path_123?query=1234"));
    assert!(!m2.is_hit("/other-path_123"));

    let regex1 = path("^/", MatchType::RegexLookup);
    assert!(regex1.is_hit("/my-path_123/456"));
    assert!(regex1.is_hit("/"));
    assert!(!regex1.is_hit("#123"));

    let regex2 = path("^/[a-z0-9-.]", MatchType::RegexLookup);
    assert!(regex2.is_hit("/my-path_123/456"));
    assert!(!regex2.is_hit("/"));
    assert!(!regex2.is_hit("#123"));

    let regex3 = path("^/[a-z0-9-.]{2,}/michael", MatchType::RegexLookup);
    assert!(regex3.is_hit("/my-path/michael"));
    assert!(!regex3.is_hit("/m/michael"));
    assert!(!regex3.is_hit("/my-path/joe"));
    assert!(!regex3.is_hit("/"));
    assert!(!regex3.is_hit("#123"));

    let regex4 = path("x-gefyra=michael", MatchType::RegexLookup);
    assert!(regex4.is_hit("/my-path/?x-gefyra=michael"));
    assert!(!regex4.is_hit("/my-path/?x-gefyra=joe"));
    assert!(!regex4.is_hit("/"));
    assert!(!regex4.is_hit("#123"));
}

#[test]
fn lib_match_header() {
    let m1 = header("x-gefyra", "michael", MatchType::ExactLookup);
    assert!(m1.is_hit("x-gefyra", "michael"));
    assert!(!m1.is_hit("g-gefyra", "michael"));
    assert!(!m1.is_hit("x-gefyra", "michael1"));

    let m2 = header("x-gefyra", "michael", MatchType::PrefixLookup);
    assert!(m2.is_hit("x-gefyra", "michael123"));
    assert!(m2.is_hit("x-gefyra", "michael"));
    assert!(!m2.is_hit("g-gefyra", "michael"));
    assert!(m2.is_hit("x-gefyra", "michael"));
    assert!(!m2.is_hit("x-gefyra123", "michael"));

    let m3 = header("x-gefyra-[a-z0-9]*", "michael[1-9]{0,2}$", MatchType::RegexLookup);
    assert!(m3.is_hit("x-gefyra-from123", "michael"));
    assert!(m3.is_hit("x-gefyra-from123", "michael12"));
    assert!(!m3.is_hit("x-gefyra-from123", "michael123"));
    assert!(m3.is_hit("x-gefyra-", "michael"));
    assert!(!m3.is_hit("g-gefyra", "michael"));
    assert!(!m3.is_hit("x-gefyra", "michael12"));
    assert!(!m3.is_hit("x-gefyra123", "michael"));
}

#[test]
fn matching_match_header() {
    let m1 = header("x-gefyra", "michael", MatchType::ExactLookup);
    assert!(m1.is_hit("x-gefyra", "michael"));
    assert!(!m1.is_hit("g-gefyra", "michael"));
    assert!(!m1.is_hit("x-gefyra", "michael1"));

    let m2 = header("x-gefyra", "michael", MatchType::PrefixLookup);
    assert!(m2.is_hit("x-gefyra", "michael123"));
    assert!(m2.is_hit("x-gefyra", "michael"));
    assert!(!m2.is_hit("g-gefyra", "michael"));
    assert!(m2.is_hit("x-gefyra", "michael"));
    assert!(!m2.is_hit("x-gefyra123", "michael"));

    let m3 = header("x-gefyra-[a-z0-9]*", "michael[1-9]{0,2}$", MatchType::RegexLookup);
    assert!(m3.is_hit("x-gefyra-from123", "michael"));
    assert!(m3.is_hit("x-gefyra-from123", "michael12"));
    assert!(!m3.is_hit("x-gefyra-from123", "michael123"));
    assert!(m3.is_hit("x-gefyra-", "michael"));
    assert!(!m3.is_hit("g-gefyra", "michael"));
    assert!(!m3.is_hit("x-gefyra", "michael12"));
    assert!(!m3.is_hit("x-gefyra123", "michael"));
}

#[test]
fn lib_match_conditions() {
    let and_cond1 = MatchAndCondition {
        and_match: vec![
            MatchRule::Header(header("x-gefyra", "jon", MatchType::ExactLookup)),
            MatchRule::Path(path("/my-path_123", MatchType::ExactLookup)),
        ],
    };

    let and_cond2 = MatchAndCondition {
        and_match: vec![MatchRule::Path(path("/always", MatchType::ExactLookup))],
    };
    let mut req1 = request("/my-path_123");
    let mut req2 = request("/always");
    let mut req3 = request("/never");
    assert!(!and_cond1.is_hit(&req1));
    assert!(!and_cond1.is_hit(&req2));
    assert!(!and_cond1.is_hit(&req3));
    req1.headers.push(("x-gefyra".to_string(), "jon".to_string()));
    req2.headers.push(("x-gefyra".to_string(), "jon".to_string()));
    req3.headers.push(("x-gefyra".to_string(), "balu".to_string()));
    assert!(and_cond1.is_hit(&req1));
    assert!(!and_cond1.is_hit(&req2));
    assert!(!and_cond1.is_hit(&req3));

    assert!(and_cond2.is_hit(&req2));

    // chain the and-conditions from above with the or-operator
    let or_cond1 = MatchOrCondition { or_rules: vec![and_cond1, and_cond2] };

    assert!(or_cond1.is_hit(&req1));
    assert!(or_cond1.is_hit(&req2));
    assert!(!or_cond1.is_hit(&req3));
}

#[test]
fn matching_match_conditions() {
    let _cond1 = MatchAndCondition {
        and_match: vec![
            MatchRule::Header(header("x-gefyra", "michael", MatchType::ExactLookup)),
            MatchRule::Path(path("/my-path_123", MatchType::ExactLookup)),
        ],
    };
}

#[test]
fn path_exact_hits_only_the_full_string() {
    let c = path("/a", MatchType::ExactLookup);
    assert!(c.is_hit("/a"));
    assert!(!c.is_hit("/a?x=1"));
    assert!(!c.is_hit("/ab"));
}

#[test]
fn path_prefix_hits_every_extension() {
    let c = path("/a", MatchType::PrefixLookup);
    assert!(c.is_hit("/a"));
    assert!(c.is_hit("/ab"));
    assert!(c.is_hit("/a/b"));
    assert!(!c.is_hit("/b"));
}

#[test]
fn path_regex_is_an_unanchored_search() {
    let c = path("^/[a-z]+$", MatchType::RegexLookup);
    assert!(c.is_hit("/abc"));
    assert!(!c.is_hit("/abc123"));
    assert!(!c.is_hit("/"));
}

#[test]
fn header_exact_needs_the_exact_header() {
    let group = MatchAndCondition {
        and_match: vec![MatchRule::Header(header("x-gefyra", "user-1", MatchType::ExactLookup))],
    };
    let mut carrying = request("/");
    carrying.headers.push(("x-gefyra".to_string(), "user-1".to_string()));
    let mut longer = request("/");
    longer.headers.push(("x-gefyra".to_string(), "user-12".to_string()));
    let absent = request("/");
    assert!(group.is_hit(&carrying));
    assert!(!group.is_hit(&longer));
    assert!(!group.is_hit(&absent));
}

#[test]
fn and_group_needs_both_conditions() {
    let both = MatchAndCondition {
        and_match: vec![
            MatchRule::Path(path("/svc", MatchType::ExactLookup)),
            MatchRule::Header(header("x-gefyra", "user-1", MatchType::ExactLookup)),
        ],
    };
    let mut path_and_header = request("/svc");
    path_and_header.headers.push(("x-gefyra".to_string(), "user-1".to_string()));
    let path_only = request("/svc");
    let mut header_only = request("/other");
    header_only.headers.push(("x-gefyra".to_string(), "user-1".to_string()));
    assert!(both.is_hit(&path_and_header));
    assert!(!both.is_hit(&path_only));
    assert!(!both.is_hit(&header_only));
}

#[test]
fn rule_set_hits_when_only_the_second_group_hits() {
    let group_a = MatchAndCondition {
        and_match: vec![MatchRule::Path(path("/a", MatchType::ExactLookup))],
    };
    let group_b = MatchAndCondition {
        and_match: vec![MatchRule::Path(path("/b", MatchType::ExactLookup))],
    };
    let rule_set = MatchOrCondition { or_rules: vec![group_a, group_b] };
    assert!(rule_set.is_hit(&request("/a")));
    assert!(rule_set.is_hit(&request("/b")));
    assert!(!rule_set.is_hit(&request("/c")));
}

#[test]
fn empty_rule_set_never_hits() {
    let rule_set = MatchOrCondition { or_rules: Vec::new() };
    assert!(!rule_set.is_hit(&request("/")));
    assert!(!rule_set.is_hit(&request("/anything")));
}

#[test]
fn empty_and_group_is_vacuously_true() {
    let group = MatchAndCondition { and_match: Vec::new() };
    assert!(group.is_hit(&request("/")));
}

#[test]
fn invalid_regex_is_rejected_at_construction() {
    assert!(MatchPath::new("foo(bar".to_string(), MatchType::RegexLookup).is_err());
    let err = MatchPath::new("[".to_string(), MatchType::RegexLookup).unwrap_err();
    assert_eq!(err.pattern, "[");
    assert!(MatchHeader::new("[".to_string(), "v".to_string(), MatchType::RegexLookup).is_err());
    assert!(MatchHeader::new("n".to_string(), "[".to_string(), MatchType::RegexLookup).is_err());
    // the same patterns are fine as exact comparisons
    assert!(MatchPath::new("foo(bar".to_string(), MatchType::ExactLookup).is_ok());
}

#[test]
fn default_match_type_is_exact() {
    assert_eq!(MatchType::default(), MatchType::ExactLookup);
}
