use lokan_hub::rbac::{parse_role, RawRoleEntry, RawRoute, RbacPolicy, Role};

fn role_entry(name: &str, inherits: &[&str]) -> RawRoleEntry {
    RawRoleEntry {
        name: name.to_string(),
        inherits: inherits.iter().map(|s| s.to_string()).collect(),
    }
}

fn route(pattern: &str, methods: &[&str], roles: &[&str]) -> RawRoute {
    RawRoute {
        pattern: pattern.to_string(),
        methods: methods.iter().map(|s| s.to_string()).collect(),
        roles: roles.iter().map(|s| s.to_string()).collect(),
        audit_action: None,
    }
}

fn chain_policy() -> RbacPolicy {
    let roles = vec![
        role_entry("owner", &["admin"]),
        role_entry("admin", &["member"]),
        role_entry("member", &["guest"]),
        role_entry("guest", &[]),
    ];
    let routes = vec![
        route("/v1/info", &["GET"], &["guest"]),
        route("/v1/devices", &["GET"], &["member"]),
    ];
    RbacPolicy::from_raw(&roles, &routes).expect("policy")
}

#[test]
fn deny_by_default() {
    let policy = chain_policy();
    assert!(policy.authorize(Role::Guest, "GET", "/v1/info").allowed);
    assert!(!policy.authorize(Role::Guest, "GET", "/v1/devices").allowed);
    assert!(policy.authorize(Role::Member, "GET", "/v1/devices").allowed);
}

#[test]
fn inheritance_grants_parent_permissions() {
    let policy = chain_policy();
    // admin inherits member inherits guest: both routes are allowed.
    assert!(policy.authorize(Role::Admin, "GET", "/v1/devices").allowed);
    assert!(policy.authorize(Role::Admin, "GET", "/v1/info").allowed);
    assert!(policy.authorize(Role::Owner, "GET", "/v1/devices").allowed);
    // No rule matches an unknown path: deny with no audit action.
    let decision = policy.authorize(Role::Owner, "GET", "/v1/unknown");
    assert!(!decision.allowed);
    assert!(decision.audit_action.is_none());
}

#[test]
fn first_matching_rule_decides() {
    let roles = vec![role_entry("guest", &[]), role_entry("admin", &[])];
    let routes = vec![
        route("/v1/*", &["GET"], &["admin"]),
        route("/v1/info", &["GET"], &["guest"]),
    ];
    let policy = RbacPolicy::from_raw(&roles, &routes).expect("policy");
    // The wildcard rule matches first, so guest is denied even though the
    // later exact rule would allow it.
    assert!(!policy.authorize(Role::Guest, "GET", "/v1/info").allowed);
    assert!(policy.authorize(Role::Admin, "GET", "/v1/info").allowed);
}

#[test]
fn method_must_match() {
    let policy = chain_policy();
    assert!(!policy.authorize(Role::Member, "POST", "/v1/devices").allowed);
}

#[test]
fn wildcard_patterns_match_prefixes() {
    let roles = vec![role_entry("member", &[])];
    let routes = vec![route("/v1/devices*", &["GET"], &["member"])];
    let policy = RbacPolicy::from_raw(&roles, &routes).expect("policy");
    assert!(policy.authorize(Role::Member, "GET", "/v1/devices").allowed);
    assert!(policy.authorize(Role::Member, "GET", "/v1/devices/42").allowed);
    assert!(!policy.authorize(Role::Member, "GET", "/v1/device").allowed);
}

#[test]
fn empty_methods_default_to_get() {
    let roles = vec![role_entry("guest", &[])];
    let routes = vec![route("/v1/info", &[], &["guest"])];
    let policy = RbacPolicy::from_raw(&roles, &routes).expect("policy");
    assert!(policy.authorize(Role::Guest, "GET", "/v1/info").allowed);
    assert!(!policy.authorize(Role::Guest, "POST", "/v1/info").allowed);
}

#[test]
fn unknown_role_and_method_are_load_errors() {
    let bad_role = vec![role_entry("wizard", &[])];
    let err = RbacPolicy::from_raw(&bad_role, &Vec::new()).unwrap_err();
    assert!(matches!(err, lokan_hub::rbac::PolicyError::UnknownRole(n) if n == "wizard"));

    let roles = vec![role_entry("guest", &[])];
    let bad_method = vec![route("/v1/info", &["GE T"], &["guest"])];
    let err = RbacPolicy::from_raw(&roles, &bad_method).unwrap_err();
    assert!(matches!(err, lokan_hub::rbac::PolicyError::InvalidMethod(m) if m == "GE T"));

    let bad_route_role = vec![route("/v1/info", &["GET"], &["wizard"])];
    let roles = vec![role_entry("guest", &[])];
    let err = RbacPolicy::from_raw(&roles, &bad_route_role).unwrap_err();
    assert!(matches!(err, lokan_hub::rbac::PolicyError::UnknownRole(n) if n == "wizard"));
}

#[test]
fn role_names_parse_case_insensitively() {
    assert_eq!(parse_role("Owner"), Some(Role::Owner));
    assert_eq!(parse_role("ADMIN"), Some(Role::Admin));
    assert_eq!(parse_role("member"), Some(Role::Member));
    assert_eq!(parse_role("gUeSt"), Some(Role::Guest));
    assert_eq!(parse_role("wizard"), None);
    assert_eq!(Role::Owner.as_str(), "Owner");
}

#[test]
fn summaries_describe_the_rules() {
    let roles = vec![role_entry("guest", &[]), role_entry("member", &[])];
    let routes = vec![
        RawRoute {
            pattern: "/v1/info".to_string(),
            methods: vec!["GET".to_string(), "POST".to_string()],
            roles: vec!["member".to_string(), "guest".to_string()],
            audit_action: Some("info.read".to_string()),
        },
        route("/v1/devices*", &[], &["member"]),
    ];
    let policy = RbacPolicy::from_raw(&roles, &routes).expect("policy");
    let summaries = policy.summaries();
    assert_eq!(summaries.len(), 2);
    assert_eq!(summaries[0].pattern, "/v1/info");
    assert_eq!(summaries[0].methods, vec!["GET", "POST"]);
    assert_eq!(summaries[0].allowed_roles, vec!["Guest", "Member"]);
    assert_eq!(summaries[0].audit_action.as_deref(), Some("info.read"));
    assert_eq!(summaries[1].methods, vec!["GET"]);
    assert_eq!(summaries[1].allowed_roles, vec!["Member"]);
    assert!(summaries[1].audit_action.is_none());
}

#[test]
fn inheritance_cycles_terminate() {
    let roles = vec![
        role_entry("admin", &["member"]),
        role_entry("member", &["admin"]),
        role_entry("guest", &[]),
    ];
    let routes = vec![route("/v1/x", &["GET"], &["member"])];
    let policy = RbacPolicy::from_raw(&roles, &routes).expect("policy");
    assert!(policy.authorize(Role::Admin, "GET", "/v1/x").allowed);
    assert!(policy.authorize(Role::Member, "GET", "/v1/x").allowed);
    assert!(!policy.authorize(Role::Guest, "GET", "/v1/x").allowed);
}
