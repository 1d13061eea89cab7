use fiducia_mcp_server::env_map::EnvMap;
use fiducia_mcp_server::http::{HttpOutcome, HttpStatus};
use fiducia_mcp_server::json::{parse_json, Json};
use fiducia_mcp_server::upstream::{
    check_url_parts, format_client_error, urlencode, validate_base_url, ClientError, Config,
    NodeRoute, Plane, Upstream, UrlParts, AGENT_CP_URL_ENV, API_KEY_ENV, CONTROL_PLANE_SECRET_ENV,
    INTERNAL_SECRET_ENV, NODE_URL_ENV, ORG_ID_ENV,
};

fn cfg() -> Config {
    Config {
        node_url: "http://node:8090/".into(),
        brain_url: "http://brain:8095".into(),
        agent_cp_url: None,
        internal_secret: Some("s3cret".into()),
        org_id: Some("org-1".into()),
        control_plane_secret: Some("cp-s3cret".into()),
        api_key: None,
    }
}

fn env(entries: &[(&str, &str)]) -> EnvMap {
    let mut map = EnvMap::new();
    for (key, value) in entries {
        map.insert(key.to_string(), value.to_string());
    }
    map
}

fn reply(code: u16, body: &str) -> HttpOutcome {
    HttpOutcome::Reply(HttpStatus::new(code).unwrap(), body.to_string())
}

#[test]
fn base_url_trims_trailing_slash() {
    assert_eq!(cfg().base_url(Plane::Node).unwrap(), "http://node:8090");
    assert_eq!(cfg().base_url(Plane::Brain).unwrap(), "http://brain:8095");
}

#[test]
fn agent_cp_requires_url() {
    let config = cfg();
    let err = config.base_url(Plane::AgentControlPlane).unwrap_err();
    assert!(err.contains(AGENT_CP_URL_ENV));
}

#[test]
fn node_headers_internal_mode() {
    let headers = cfg().headers(Plane::Node).unwrap();
    assert_eq!(
        headers,
        vec![
            ("x-fiducia-internal-auth", "s3cret".to_string()),
            ("x-fiducia-org-id", "org-1".to_string()),
        ]
    );
}

#[test]
fn node_headers_bearer_mode_wins() {
    let mut c = cfg();
    c.api_key = Some("fk_live_abc".into());
    let headers = c.headers(Plane::Node).unwrap();
    assert_eq!(
        headers,
        vec![("authorization", "Bearer fk_live_abc".to_string())]
    );
}

#[test]
fn node_headers_require_org_in_internal_mode() {
    let mut c = cfg();
    c.org_id = None;
    let err = c.headers(Plane::Node).unwrap_err();
    assert!(err.contains(ORG_ID_ENV));
}

#[test]
fn brain_headers_no_org_scope() {
    let headers = cfg().headers(Plane::Brain).unwrap();
    assert_eq!(
        headers,
        vec![("x-fiducia-internal-auth", "s3cret".to_string())]
    );
}

#[test]
fn agent_cp_uses_x_internal_auth() {
    let headers = cfg().headers(Plane::AgentControlPlane).unwrap();
    assert_eq!(headers, vec![("x-internal-auth", "cp-s3cret".to_string())]);
}

#[test]
fn node_client_is_built_for_internal_mode_only() {
    assert!(Upstream::new(cfg()).node_client.is_some());

    let mut bearer = cfg();
    bearer.api_key = Some("fk_live_abc".into());
    assert!(
        Upstream::new(bearer).node_client.is_none(),
        "bearer mode must use the redirect-safe reqwest client"
    );

    let mut bare = cfg();
    bare.internal_secret = None;
    bare.control_plane_secret = None;
    assert!(Upstream::new(bare).node_client.is_none());
}

#[test]
fn urlencode_reserved_chars() {
    assert_eq!(urlencode("orders/checkout"), "orders%2Fcheckout");
    assert_eq!(urlencode("a b&c=d"), "a%20b%26c%3Dd");
    assert_eq!(urlencode("plain-key_1.2~x"), "plain-key_1.2~x");
}

#[test]
fn urlencode_goes_by_bytes() {
    assert_eq!(urlencode("é"), "%C3%A9");
    assert_eq!(urlencode("%"), "%25");
    assert_eq!(urlencode(""), "");
}

#[test]
fn missing_credentials_name_their_variables() {
    let bare = Config::default();
    let node = bare.headers(Plane::Node).unwrap_err();
    assert_eq!(
        node,
        "no credentials for the node data plane: set FIDUCIA_API_KEY (via load balancer) or \
         FIDUCIA_INTERNAL_SECRET + FIDUCIA_ORG_ID (direct to a node)"
    );
    assert!(node.contains(API_KEY_ENV));
    let brain = bare.headers(Plane::Brain).unwrap_err();
    assert_eq!(
        brain,
        "FIDUCIA_INTERNAL_SECRET is required for brain (control plane) calls"
    );
    let agent = bare.headers(Plane::AgentControlPlane).unwrap_err();
    assert_eq!(
        agent,
        "FIDUCIA_CONTROL_PLANE_SECRET (or FIDUCIA_INTERNAL_SECRET) is required for ai-agent \
         control plane calls"
    );
}

#[test]
fn from_env_falls_back() {
    let none = Config::from_env(&EnvMap::new());
    assert_eq!(none.node_url, "http://localhost:8090");
    assert_eq!(none.brain_url, "http://localhost:8095");
    assert_eq!(none.agent_cp_url, None);
    assert_eq!(none.control_plane_secret, None);

    let some = Config::from_env(&env(&[
        (NODE_URL_ENV, "http://n"),
        (INTERNAL_SECRET_ENV, "a"),
        (ORG_ID_ENV, "   "),
    ]));
    assert_eq!(some.node_url, "http://n");
    assert_eq!(some.org_id, None, "only white space counts as missing");
    assert_eq!(some.control_plane_secret, Some("a".to_string()));

    let own = Config::from_env(&env(&[
        (INTERNAL_SECRET_ENV, "a"),
        (CONTROL_PLANE_SECRET_ENV, "b"),
    ]));
    assert_eq!(own.control_plane_secret, Some("b".to_string()));
}

#[test]
fn base_urls_are_checked() {
    let ok = |url: &str| validate_base_url(url).is_ok();
    assert!(ok("http://node:8090"));
    assert!(ok("  https://brain.fiducia.cloud/v1/  "));
    assert!(ok("http://169.253.0.1"));
    let message = |url: &str| validate_base_url(url).unwrap_err();
    assert_eq!(message("no url"), "upstream base URL contains invalid characters");
    assert_eq!(message(&"x".repeat(2049)), "upstream base URL contains invalid characters");
    assert_eq!(message("node"), "upstream base URL is invalid");
    assert_eq!(
        message("ftp://node"),
        "upstream base URL must use http(s) and include a host"
    );
    assert_eq!(
        message("http://user@node"),
        "upstream base URL must not contain credentials"
    );
    assert_eq!(
        message("http://:pw@node"),
        "upstream base URL must not contain credentials"
    );
    assert_eq!(
        message("http://node?x=1"),
        "upstream base URL must not contain a query or fragment"
    );
    assert_eq!(
        message("http://node#x"),
        "upstream base URL must not contain a query or fragment"
    );
    for url in [
        "http://169.254.169.254/latest",
        "http://0.0.0.0",
        "http://Metadata.Google.Internal.",
        "http://metadata.azure.internal",
    ] {
        assert_eq!(message(url), "cloud metadata endpoints are not allowed");
    }
}

#[test]
fn parts_of_a_url_are_checked() {
    let parts = |host: Option<&str>| UrlParts {
        scheme: "https".to_string(),
        host: host.map(str::to_string),
        username: String::new(),
        password: None,
        query: None,
        fragment: None,
    };
    assert!(check_url_parts(&parts(Some("node"))).is_ok());
    assert!(check_url_parts(&parts(Some("169.254.1"))).is_ok());
    assert!(check_url_parts(&parts(Some("169.254.1.256"))).is_ok());
    assert!(check_url_parts(&parts(Some("169.254.01.2"))).is_ok());
    assert!(check_url_parts(&parts(Some("169.254.1.255"))).is_err());
    assert_eq!(
        check_url_parts(&parts(None)).unwrap_err(),
        "upstream base URL must use http(s) and include a host"
    );
}

#[test]
fn get_requests_carry_the_headers_of_their_plane() {
    let upstream = Upstream::new(cfg());
    let request = upstream.get_json(Plane::Brain, "/v1/status").ok().unwrap();
    assert_eq!(request.url, "http://brain:8095/v1/status");
    assert_eq!(
        request.headers,
        vec![("x-fiducia-internal-auth", "s3cret".to_string())]
    );
    assert_eq!(
        request.answer(&reply(200, "{\"ok\":true}")),
        parse_json("{\"ok\":true}")
    );
    assert_eq!(
        request.answer(&reply(200, "not json")),
        Ok(Json::Text("not json".to_string()))
    );
    assert_eq!(
        request.answer(&reply(404, "{ \"error\": \"gone\" }")),
        Err("http://brain:8095/v1/status returned 404 Not Found: {\"error\":\"gone\"}".to_string())
    );
    assert_eq!(
        request.answer(&HttpOutcome::Unsent("refused".to_string())),
        Err("request to http://brain:8095/v1/status failed: refused".to_string())
    );
    assert_eq!(
        request.answer(&HttpOutcome::Unread("reset".to_string())),
        Err("reading response from http://brain:8095/v1/status failed: reset".to_string())
    );
    assert_eq!(
        request.judge(&HttpStatus::new(500).unwrap(), Json::Null),
        Err("http://brain:8095/v1/status returned 500 Internal Server Error: null".to_string())
    );
}

#[test]
fn node_questions_take_the_client_in_internal_mode() {
    let internal = Upstream::new(cfg());
    assert!(matches!(internal.node_call("/v1/status"), Ok(NodeRoute::Client)));
    let client = internal.node_client.unwrap();
    assert_eq!(client.base_url, "http://node:8090/");
    assert_eq!(client.internal_secret, "s3cret");
    assert_eq!(client.org_id, "org-1");

    let mut bearer = cfg();
    bearer.api_key = Some("k".into());
    match Upstream::new(bearer).node_call("/v1/status") {
        Ok(NodeRoute::Get(request)) => {
            assert_eq!(request.url, "http://node:8090/v1/status");
            assert_eq!(request.headers, vec![("authorization", "Bearer k".to_string())]);
        }
        _ => panic!("bearer mode makes a GET"),
    }

    let mut broken = cfg();
    broken.node_url = "http://0.0.0.0".into();
    let broken = Upstream::new(broken);
    assert!(broken.node_client.is_none());
    assert_eq!(
        broken.node_call("/v1/status").err(),
        Some("cloud metadata endpoints are not allowed".to_string())
    );
}

#[test]
fn credentials_are_reported_before_the_url() {
    let mut broken = cfg();
    broken.brain_url = "no url".into();
    assert_eq!(
        Upstream::new(broken.clone()).get_json(Plane::Brain, "/v1/status").err(),
        Some("upstream base URL contains invalid characters".to_string())
    );
    broken.internal_secret = None;
    assert_eq!(
        Upstream::new(broken).get_json(Plane::Brain, "/v1/status").err(),
        Some("FIDUCIA_INTERNAL_SECRET is required for brain (control plane) calls".to_string())
    );
}

#[test]
fn client_errors_are_rendered() {
    let body = parse_json("{\"error\":\"no leader\"}").unwrap();
    assert_eq!(
        format_client_error(&ClientError::Http { status: 503, body: Some(body) }),
        "node returned 503: {\"error\":\"no leader\"}"
    );
    assert_eq!(
        format_client_error(&ClientError::Http { status: 404, body: None }),
        "node returned 404: (empty body)"
    );
    assert_eq!(
        format_client_error(&ClientError::Transport("refused".to_string())),
        "node request failed: refused"
    );
    assert_eq!(
        format_client_error(&ClientError::Task("cancelled".to_string())),
        "node client task failed: cancelled"
    );
}
