use fiducia_mcp_server::cloudflare::{CfMethod, ALLOW_MUTATIONS_ENV, CF_TOKEN_ENV};
use fiducia_mcp_server::domains::RdapOutcome;
use fiducia_mcp_server::env_map::EnvMap;
use fiducia_mcp_server::http::{HttpOutcome, HttpStatus};
use fiducia_mcp_server::json::{parse_json, Json};
use fiducia_mcp_server::k8s::KubectlOutcome;
use fiducia_mcp_server::repo_map::REPO_MAP;
use fiducia_mcp_server::server::{
    render, CloudflareDeleteParams, CloudflareUpsertParams, CloudflareZoneParams, DnsCheckParams,
    DomainParams, FiduciaMcp, FileLeaseParams, K8sEventsParams, K8sRolloutParams,
    K8sServiceParams, K8sWorkloadsParams, KvGetParams, LockGetParams, NodeQuestion, ObserveParams,
    PlacementParams, RouteKeyParams, ServicesParams, ToolCall, ToolEvent, ToolReply, ToolStep,
};
use fiducia_mcp_server::upstream::{
    ClientError, Config, Upstream, API_KEY_ENV, CONTROL_PLANE_SECRET_ENV, INTERNAL_SECRET_ENV,
    ORG_ID_ENV,
};

fn server() -> FiduciaMcp {
    FiduciaMcp::new(Upstream::new(Config::default()), &EnvMap::new())
}

/// A server with credentials for every plane.
fn ready(api_key: Option<&str>) -> FiduciaMcp {
    let config = Config {
        node_url: "http://node".into(),
        brain_url: "http://brain/".into(),
        agent_cp_url: Some("http://agents".into()),
        internal_secret: Some("s".into()),
        org_id: Some("o".into()),
        control_plane_secret: Some("c".into()),
        api_key: api_key.map(str::to_string),
    };
    let mut env = EnvMap::new();
    env.insert(CF_TOKEN_ENV.to_string(), "tok".to_string());
    FiduciaMcp::new(Upstream::new(config), &env)
}

fn reply(step: ToolStep) -> ToolReply {
    match step {
        ToolStep::Done(reply) => reply,
        _ => panic!("the tool is not done"),
    }
}

fn url(step: ToolStep) -> String {
    match step {
        ToolStep::Get(request) => request.url,
        _ => panic!("the tool makes a GET"),
    }
}

fn ok(body: &str) -> ToolEvent {
    ToolEvent::Http(HttpOutcome::Reply(HttpStatus::new(200).unwrap(), body.to_string()))
}

fn upsert() -> CloudflareUpsertParams {
    CloudflareUpsertParams {
        zone: "0123456789abcdef0123456789abcdef".into(),
        record_type: "TXT".into(),
        name: "n.fiducia.cloud".into(),
        content: "c".into(),
        ttl: None,
        proxied: None,
    }
}

#[test]
fn repo_map_is_served_verbatim() {
    let result = reply(server().repo_map());
    assert!(!result.is_error);
    assert_eq!(result.text, REPO_MAP);
}

#[test]
fn observe_rejects_unknown_kind() {
    let result = reply(server().observe(ObserveParams { what: "raft".into() }));
    assert!(result.is_error);
    assert_eq!(
        result.text,
        "unknown observe kind \"raft\"; expected one of \
         [\"locks\", \"semaphores\", \"elections\", \"shards\", \"metrics\"]"
    );
}

#[test]
fn kv_get_requires_exactly_one_selector() {
    let both = reply(server().kv_get(KvGetParams {
        key: Some("a".into()),
        prefix: Some("b".into()),
    }));
    assert!(both.is_error);

    let neither = reply(server().kv_get(KvGetParams { key: None, prefix: None }));
    assert!(neither.is_error);
    assert_eq!(neither.text, "provide exactly one of `key` or `prefix`");
}

#[test]
fn missing_credentials_surface_as_tool_error_not_crash() {
    // The default configuration has no secrets: the call to the brain is answered
    // with an error that says which variable to set.
    let result = reply(server().cluster_status());
    assert!(result.is_error);
    assert!(result.text.contains(INTERNAL_SECRET_ENV), "{}", result.text);
    assert_eq!(
        result.text,
        "FIDUCIA_INTERNAL_SECRET is required for brain (control plane) calls"
    );
}

#[test]
fn missing_credentials_of_every_plane_are_named() {
    let node = reply(server().node_status());
    assert!(node.is_error);
    assert!(node.text.contains(API_KEY_ENV) && node.text.contains(ORG_ID_ENV), "{}", node.text);
    let observe = reply(server().observe(ObserveParams { what: "locks".into() }));
    assert_eq!(observe.text, node.text);
}

#[test]
fn an_unset_agent_url_is_named_before_its_secret() {
    let lease = |agent_cp_url: Option<&str>, secret: Option<&str>| {
        let config = Config {
            agent_cp_url: agent_cp_url.map(String::from),
            control_plane_secret: secret.map(String::from),
            ..Config::default()
        };
        let params = FileLeaseParams { repository: "r".into(), path: "p".into() };
        reply(FiduciaMcp::new(Upstream::new(config), &EnvMap::new()).file_lease(params))
    };
    for secret in [None, Some("s")] {
        let unset = lease(None, secret);
        assert!(unset.is_error);
        assert_eq!(
            unset.text,
            "FIDUCIA_AGENT_CONTROL_PLANE_URL is not set; point it at the \
             fiducia-ai-agent-control-plane base URL to use file-lease tools"
        );
    }
    for url in ["http://agents", "no url"] {
        let locked = lease(Some(url), None);
        assert!(locked.is_error);
        assert!(locked.text.contains(CONTROL_PLANE_SECRET_ENV), "{}", locked.text);
    }
    let wrong = lease(Some("no url"), Some("s"));
    assert_eq!(wrong.text, "upstream base URL contains invalid characters");
}

#[test]
fn questions_to_the_brain() {
    let s = ready(None);
    assert_eq!(url(s.cluster_status()), "http://brain/v1/status");
    assert_eq!(url(s.cluster_nodes()), "http://brain/v1/nodes");
    assert_eq!(
        url(s.placement(PlacementParams { shard: None })),
        "http://brain/v1/placement"
    );
    assert_eq!(
        url(s.placement(PlacementParams { shard: Some(17) })),
        "http://brain/v1/placement/17"
    );
    assert_eq!(
        url(s.route_key(RouteKeyParams { key: "orders/checkout".into() })),
        "http://brain/v1/route?key=orders%2Fcheckout"
    );
}

#[test]
fn questions_to_the_node() {
    let s = ready(Some("k"));
    assert_eq!(url(s.node_status()), "http://node/v1/status");
    assert_eq!(
        url(s.observe(ObserveParams { what: " Locks ".into() })),
        "http://node/v1/observe/locks"
    );
    assert_eq!(
        url(s.kv_get(KvGetParams { key: Some("a b".into()), prefix: None })),
        "http://node/v1/kv?key=a%20b"
    );
    assert_eq!(
        url(s.kv_get(KvGetParams { key: None, prefix: Some("p/".into()) })),
        "http://node/v1/kv?prefix=p%2F"
    );
    assert_eq!(
        url(s.lock_get(LockGetParams { key: "l".into() })),
        "http://node/v1/locks?key=l"
    );
    assert_eq!(
        url(s.services(ServicesParams { service: None })),
        "http://node/v1/services"
    );
    assert_eq!(
        url(s.services(ServicesParams { service: Some("a/b".into()) })),
        "http://node/v1/services/a%2Fb"
    );
    assert_eq!(
        url(s.file_lease(FileLeaseParams { repository: "r/s".into(), path: "src/main.rs".into() })),
        "http://agents/v1/file-leases?repository=r%2Fs&path=src%2Fmain.rs"
    );
}

#[test]
fn node_tools_take_the_client_in_internal_mode() {
    let s = ready(None);
    assert!(matches!(s.node_status(), ToolStep::Node(NodeQuestion::Status)));
    match s.kv_get(KvGetParams { key: None, prefix: Some("p".into()) }) {
        ToolStep::Node(NodeQuestion::KvList(prefix)) => assert_eq!(prefix, "p"),
        _ => panic!("the client is asked"),
    }
    match s.services(ServicesParams { service: Some("web".into()) }) {
        ToolStep::Node(NodeQuestion::ServiceInstances(service)) => assert_eq!(service, "web"),
        _ => panic!("the client is asked"),
    }
    assert_eq!(
        url(s.observe(ObserveParams { what: "metrics".into() })),
        "http://node/v1/observe/metrics"
    );
    let done = s.resume(
        s.node_status(),
        ToolEvent::Node(Err(ClientError::Http { status: 503, body: None })),
    );
    assert_eq!(reply(done).text, "node returned 503: (empty body)");
    let done = s.resume(s.node_status(), ToolEvent::Node(Ok(Json::Bool(true))));
    assert_eq!(reply(done).text, "true");
}

#[test]
fn trees_are_shown_over_several_lines() {
    let tree = parse_json("{\"b\":[1],\"a\":null}").unwrap();
    let shown = render(Ok(tree));
    assert!(!shown.is_error);
    assert_eq!(shown.text, "{\n  \"a\": null,\n  \"b\": [\n    1\n  ]\n}");
    let failed = render(Err("why".to_string()));
    assert!(failed.is_error);
    assert_eq!(failed.text, "why");
}

#[test]
fn a_call_goes_step_by_step() {
    let s = ready(None);
    let step = s.call(&EnvMap::new(), ToolCall::ClusterNodes);
    let done = reply(s.resume(step, ok("[]")));
    assert!(!done.is_error);
    assert_eq!(done.text, "[]");

    // What is no outcome of the step changes nothing.
    let step = s.call(&EnvMap::new(), ToolCall::ClusterNodes);
    let step = s.resume(step, ToolEvent::Kubectl(KubectlOutcome::TimedOut(1)));
    assert_eq!(url(step), "http://brain/v1/nodes");

    let step = s.call(
        &EnvMap::new(),
        ToolCall::DomainRegistrarStatus(DomainParams { domain: "fiducia.cloud".into() }),
    );
    let done = reply(s.resume(step, ToolEvent::Rdap(RdapOutcome::Unsent("off".into()))));
    assert_eq!(
        done.text,
        "RDAP request to https://rdap.org/domain/fiducia.cloud failed: off"
    );

    let step = s.call(
        &EnvMap::new(),
        ToolCall::DnsCheck(DnsCheckParams {
            name: Some("a.b".into()),
            record_type: None,
            values: None,
            preset: None,
        }),
    );
    match &step {
        ToolStep::Dns(input) => assert_eq!(input.name, Some("a.b".to_string())),
        _ => panic!("a resolver is asked"),
    }
    let done = reply(s.resume(step, ToolEvent::Dns(Err("why".into()))));
    assert!(done.is_error);
}

#[test]
fn writes_are_locked_by_default() {
    let s = ready(None);
    for call in [
        ToolCall::CloudflareDnsUpsert(upsert()),
        ToolCall::CloudflareDnsDelete(CloudflareDeleteParams {
            zone: "z".into(),
            record_id: "r".into(),
        }),
    ] {
        let done = reply(s.call(&EnvMap::new(), call));
        assert!(done.is_error);
        assert_eq!(
            done.text,
            "mutations are disabled (this server is read-only by default). Set \
             FIDUCIA_MCP_ALLOW_MUTATIONS=1 to allow Cloudflare DNS writes — the only mutating \
             tools here."
        );
    }
}

#[test]
fn unlocked_writes_are_sent() {
    let s = ready(None);
    let mut env = EnvMap::new();
    env.insert(ALLOW_MUTATIONS_ENV.to_string(), "1".to_string());
    let step = s.call(&env, ToolCall::CloudflareDnsUpsert(upsert()));
    let step = s.resume(step, ok("{\"success\":true,\"result\":[]}"));
    let step = match step {
        ToolStep::Cloudflare(request, task) => {
            assert_eq!(request.method, CfMethod::Post);
            assert_eq!(request.token, "tok");
            ToolStep::Cloudflare(request, task)
        }
        _ => panic!("the record is created"),
    };
    let done = reply(s.resume(step, ok("{\"success\":true,\"result\":{\"id\":\"r\"}}")));
    assert!(!done.is_error);
    assert!(done.text.contains("\"action\": \"created\""));
}

#[test]
fn cloudflare_tools_read_with_get() {
    let s = ready(None);
    for step in [
        s.call(&EnvMap::new(), ToolCall::CloudflareZones),
        s.call(
            &EnvMap::new(),
            ToolCall::CloudflareDnsRecords(CloudflareZoneParams { zone: "fiducia.cloud".into() }),
        ),
    ] {
        match step {
            ToolStep::Cloudflare(request, _) => {
                assert_eq!(request.method, CfMethod::Get);
                assert!(request.body.is_none());
            }
            _ => panic!("a request is made"),
        }
    }
}

#[test]
fn kubectl_tools_check_the_context_first() {
    let s = ready(None);
    let env = EnvMap::new();
    for call in [
        ToolCall::K8sContexts,
        ToolCall::K8sWorkloads(K8sWorkloadsParams { context: "c".into(), namespace: None }),
        ToolCall::K8sRolloutStatus(K8sRolloutParams {
            context: "c".into(),
            kind: "deployment".into(),
            name: "n".into(),
            namespace: None,
        }),
        ToolCall::K8sEvents(K8sEventsParams { context: "c".into(), namespace: None, last: None }),
        ToolCall::K8sServiceEndpoints(K8sServiceParams {
            context: "c".into(),
            namespace: Some("ns".into()),
            service: "s".into(),
        }),
    ] {
        match s.call(&env, call) {
            ToolStep::Kubectl(run) => {
                assert_eq!(run.args(), vec!["config", "get-contexts", "-o", "name"]);
            }
            _ => panic!("a command is run"),
        }
    }
}
