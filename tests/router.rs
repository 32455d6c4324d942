use gust::Router;

#[test]
fn lib_test_static_routes() {
    let mut router = Router::new();
    router.insert("GET", "/", 0);
    router.insert("GET", "/users", 1);
    router.insert("GET", "/users/list", 2);
    router.insert("POST", "/users", 3);

    assert_eq!(router.find("GET", "/").unwrap().handler_id, 0);
    assert_eq!(router.find("GET", "/users").unwrap().handler_id, 1);
    assert_eq!(router.find("GET", "/users/list").unwrap().handler_id, 2);
    assert_eq!(router.find("POST", "/users").unwrap().handler_id, 3);
    assert!(router.find("GET", "/unknown").is_none());
    assert!(router.find("DELETE", "/users").is_none());
}

#[test]
fn lib_test_param_routes() {
    let mut router = Router::new();
    router.insert("GET", "/users/:id", 1);
    router.insert("GET", "/users/:id/posts/:post_id", 2);

    let m = router.find("GET", "/users/42").unwrap();
    assert_eq!(m.handler_id, 1);
    assert_eq!(m.params, vec![("id".to_string(), "42".to_string())]);

    let m = router.find("GET", "/users/42/posts/99").unwrap();
    assert_eq!(m.handler_id, 2);
    assert_eq!(
        m.params,
        vec![
            ("id".to_string(), "42".to_string()),
            ("post_id".to_string(), "99".to_string()),
        ]
    );
}

#[test]
fn test_named_wildcard() {
    let mut router = Router::new();
    router.insert("GET", "/files/*path", 1);

    let m = router.find("GET", "/files/docs/readme.md").unwrap();
    assert_eq!(m.handler_id, 1);
    assert_eq!(m.params, vec![("path".to_string(), "docs/readme.md".to_string())]);
}

#[test]
fn test_bare_wildcard() {
    let mut router = Router::new();
    router.insert("GET", "/static/*", 1);

    let m = router.find("GET", "/static/js/app.js").unwrap();
    assert_eq!(m.handler_id, 1);
    assert_eq!(m.params, vec![("*".to_string(), "js/app.js".to_string())]);
}

#[test]
fn test_priority_exact_over_param() {
    let mut router = Router::new();
    router.insert("GET", "/users/:id", 1);
    router.insert("GET", "/users/me", 2);

    assert_eq!(router.find("GET", "/users/me").unwrap().handler_id, 2);
    assert_eq!(router.find("GET", "/users/123").unwrap().handler_id, 1);
}

#[test]
fn test_priority_param_over_wildcard() {
    let mut router = Router::new();
    router.insert("GET", "/api/:version", 1);
    router.insert("GET", "/api/*", 2);

    assert_eq!(router.find("GET", "/api/v1").unwrap().handler_id, 1);
    assert_eq!(router.find("GET", "/api/v1/users").unwrap().handler_id, 2);
}

#[test]
fn test_complex_nested_params() {
    let mut router = Router::new();
    router.insert("GET", "/api/v1/orgs/:orgId/teams/:teamId/members/:memberId", 1);

    let m = router.find("GET", "/api/v1/orgs/org1/teams/team2/members/mem3").unwrap();
    assert_eq!(m.handler_id, 1);
    assert_eq!(
        m.params,
        vec![
            ("orgId".to_string(), "org1".to_string()),
            ("teamId".to_string(), "team2".to_string()),
            ("memberId".to_string(), "mem3".to_string()),
        ]
    );
}

#[test]
fn test_params_map() {
    let mut router = Router::new();
    router.insert("GET", "/users/:id", 1);

    let m = router.find("GET", "/users/42").unwrap();
    let map = m.params_map();
    assert_eq!(map.get("id"), Some(&"42".to_string()));
}

#[test]
fn lib_test_methods() {
    let mut router = Router::new();
    router.insert("GET", "/users", 1);
    router.insert("POST", "/users", 2);
    router.insert("DELETE", "/users/:id", 3);

    assert!(router.has_method("GET"));
    assert!(router.has_method("POST"));
    assert!(router.has_method("DELETE"));
    assert!(!router.has_method("PUT"));

    let methods = router.methods();
    assert!(methods.contains(&"GET".to_string()));
    assert!(methods.contains(&"POST".to_string()));
    assert!(methods.contains(&"DELETE".to_string()));
}

#[test]
fn test_case_insensitive_method() {
    let mut router = Router::new();
    router.insert("get", "/users", 1);

    assert_eq!(router.find("GET", "/users").unwrap().handler_id, 1);
    assert_eq!(router.find("get", "/users").unwrap().handler_id, 1);
    assert_eq!(router.find("Get", "/users").unwrap().handler_id, 1);
}

#[test]
fn test_root_path() {
    let mut router = Router::new();
    router.insert("GET", "/", 0);
    router.insert("GET", "/api", 1);

    assert_eq!(router.find("GET", "/").unwrap().handler_id, 0);
    assert_eq!(router.find("GET", "/api").unwrap().handler_id, 1);
}

#[test]
fn test_trailing_slash() {
    let mut router = Router::new();
    router.insert("GET", "/users/", 1);

    assert_eq!(router.find("GET", "/users").unwrap().handler_id, 1);
    assert_eq!(router.find("GET", "/users/").unwrap().handler_id, 1);
}

#[test]
fn router_test_static_routes() {
    let mut router = Router::new();
    router.insert("GET", "/", 0);
    router.insert("GET", "/users", 1);
    router.insert("GET", "/users/list", 2);

    assert_eq!(router.find("GET", "/").unwrap().handler_id, 0);
    assert_eq!(router.find("GET", "/users").unwrap().handler_id, 1);
    assert_eq!(router.find("GET", "/users/list").unwrap().handler_id, 2);
    assert!(router.find("GET", "/unknown").is_none());
}

#[test]
fn router_test_param_routes() {
    let mut router = Router::new();
    router.insert("GET", "/users/:id", 1);
    router.insert("GET", "/users/:id/posts/:post_id", 2);

    let m = router.find("GET", "/users/42").unwrap();
    assert_eq!(m.handler_id, 1);
    assert_eq!(m.params, vec![("id".to_string(), "42".to_string())]);

    let m = router.find("GET", "/users/42/posts/99").unwrap();
    assert_eq!(m.handler_id, 2);
    assert_eq!(
        m.params,
        vec![("id".to_string(), "42".to_string()), ("post_id".to_string(), "99".to_string())]
    );
}

#[test]
fn router_test_wildcard_routes() {
    let mut router = Router::new();
    router.insert("GET", "/static/*", 1);

    let m = router.find("GET", "/static/js/app.js").unwrap();
    assert_eq!(m.handler_id, 1);
    assert_eq!(m.params, vec![("*".to_string(), "js/app.js".to_string())]);
}

#[test]
fn router_test_priority() {
    let mut router = Router::new();
    router.insert("GET", "/users/:id", 1);
    router.insert("GET", "/users/me", 2);

    assert_eq!(router.find("GET", "/users/me").unwrap().handler_id, 2);
    assert_eq!(router.find("GET", "/users/123").unwrap().handler_id, 1);
}

#[test]
fn router_test_methods() {
    let mut router = Router::new();
    router.insert("GET", "/users", 1);
    router.insert("POST", "/users", 2);

    assert_eq!(router.find("GET", "/users").unwrap().handler_id, 1);
    assert_eq!(router.find("POST", "/users").unwrap().handler_id, 2);
    assert!(router.find("DELETE", "/users").is_none());
}

#[test]
fn priority_scenario_params() {
    let mut router = Router::new();
    router.insert("GET", "/users/:id", 10);
    router.insert("GET", "/users/me", 20);
    let m = router.find("GET", "/users/me").unwrap();
    assert_eq!(m.handler_id, 20);
    assert!(m.params.is_empty());
    let m = router.find("GET", "/users/123").unwrap();
    assert_eq!(m.handler_id, 10);
    assert_eq!(m.params, vec![("id".to_string(), "123".to_string())]);
}

#[test]
fn method_isolation() {
    let mut router = Router::new();
    router.insert("POST", "/items", 1);
    assert!(router.find("GET", "/items").is_none());
    assert!(router.find("post", "/items").is_some());
}

#[test]
fn slashes_are_insignificant() {
    let mut router = Router::new();
    router.insert("GET", "/users", 5);
    for p in ["/users", "/users/", "//users//", "users"] {
        assert_eq!(router.find("GET", p).unwrap().handler_id, 5);
    }
}

#[test]
fn backtracks_from_param_to_wildcard() {
    let mut router = Router::new();
    router.insert("GET", "/a/:x/end", 1);
    router.insert("GET", "/a/*rest", 2);
    let m = router.find("GET", "/a/b/c").unwrap();
    assert_eq!(m.handler_id, 2);
    assert_eq!(m.params, vec![("rest".to_string(), "b/c".to_string())]);
    let m = router.find("GET", "/a/b/end").unwrap();
    assert_eq!(m.handler_id, 1);
    assert_eq!(m.params, vec![("x".to_string(), "b".to_string())]);
}

#[test]
fn wildcard_needs_a_segment() {
    let mut router = Router::new();
    router.insert("GET", "/files/*path", 1);
    assert!(router.find("GET", "/files").is_none());
}

#[test]
fn first_param_name_is_kept() {
    let mut router = Router::new();
    router.insert("GET", "/u/:id", 1);
    router.insert("GET", "/u/:name/x", 2);
    let m = router.find("GET", "/u/7/x").unwrap();
    assert_eq!(m.handler_id, 2);
    assert_eq!(m.params, vec![("id".to_string(), "7".to_string())]);
}
