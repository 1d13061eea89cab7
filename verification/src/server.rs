//! The tools: one for each question about the fiducia.cloud stack. A tool is
//! called with its parameters and leads, step by step, to a reply; the exchanges
//! and the commands between the steps are made elsewhere.
//!
//! The tools only read, but for the two that write DNS records behind a switch.
//! Acquiring locks, moving shards and releasing leases is left to the clients
//! that handle fencing tokens.

use vstd::prelude::*;
use crate::cloudflare::{
    self, CfMethod, CfRequest, CfRequestView, CfStep, CfStepView, CfTask, Cloudflare,
    CloudflareView, GoalView, TaskView, UpsertParams, UpsertView, CF_API_BASE, CF_TOKEN_ENV,
};
use crate::domains::{
    self, meant_domain, rdap_resumed, DnsCheckInput, RdapOutcome, RdapOutcomeView, RdapStep,
    RdapStepView, RdapTask, RdapTaskView, RDAP_BASE,
};
use crate::env_map::{nonempty_value, EnvMap};
use crate::http::{HttpOutcome, HttpOutcomeView};
use crate::json::{pretty_text_of_json, res_json_view, Json, JsonView};
use crate::k8s::{
    self, K8sRun, K8sStep, KubectlOutcome, OutcomeView, QueryView, RunStateView, StepView,
};
use crate::repo_map::REPO_MAP;
use crate::text::{
    ascii_lower, begins_with, cat2, cat4, debug_text, decimal, decimal_of, lemma_mentions, lowered,
    mentions, quoted, same_text, trim, trimmed, without_end,
};
use crate::upstream::{
    base_url_fault, client_error_text, format_client_error, get_answer, has_url, no_agent_url, node_client_of,
    node_route, opt_client_view, plane_headers, plane_request, same_but_secrets,
    secrets_are_only_headers, urlencode, urlencoded, ClientError, ConfigView, GetRequest,
    GetRequestView, NodeClientView, NodeRoute, NodeRouteView, Plane, Upstream, AGENT_CP_URL_ENV,
};

verus! {

// ---------------------------------------------------------------- parameters

#[derive(Debug)]
pub struct ObserveParams {
    /// What to observe on the node: "locks", "semaphores", "elections",
    /// "shards" or "metrics".
    pub what: String,
}

#[derive(Debug)]
pub struct PlacementParams {
    /// The shard to look up; the full shard map where there is none.
    pub shard: Option<u32>,
}

#[derive(Debug)]
pub struct RouteKeyParams {
    /// The coordination key to resolve, such as "orders/checkout".
    pub key: String,
}

#[derive(Debug)]
pub struct KvGetParams {
    /// The key to read. Exactly one of `key` and `prefix` is to be given.
    pub key: Option<String>,
    /// The key prefix to list.
    pub prefix: Option<String>,
}

#[derive(Debug)]
pub struct LockGetParams {
    /// The key of the lock to inspect: holder, fencing token, wait queue.
    pub key: String,
}

#[derive(Debug)]
pub struct ServicesParams {
    /// The service to list live instances of; all services where there is none.
    pub service: Option<String>,
}

#[derive(Debug)]
pub struct FileLeaseParams {
    /// The repository of the file, such as "fiducia-cloud/fiducia-node.rs".
    pub repository: String,
    /// The path of the file in the repository, such as "src/main.rs".
    pub path: String,
}

#[derive(Debug)]
pub struct CloudflareZoneParams {
    /// The name (such as "fiducia.cloud") or the id of a zone.
    pub zone: String,
}

#[derive(Debug)]
pub struct CloudflareUpsertParams {
    /// The name or the id of the zone of the record.
    pub zone: String,
    /// A, AAAA, CNAME, TXT or MX.
    pub record_type: String,
    /// The full name of the record, such as "app.fiducia.cloud".
    pub name: String,
    /// An address, a host name or a text.
    pub content: String,
    /// In seconds; 1 means automatic, and is meant where none is given.
    pub ttl: Option<i64>,
    /// Whether to proxy through Cloudflare; only for A, AAAA and CNAME.
    pub proxied: Option<bool>,
}

#[derive(Debug)]
pub struct CloudflareDeleteParams {
    /// The name or the id of a zone.
    pub zone: String,
    /// The id of the record to delete.
    pub record_id: String,
}

#[derive(Debug)]
pub struct DomainParams {
    /// The domain to look up, such as "fiducia.cloud".
    pub domain: String,
}

#[derive(Debug)]
pub struct DnsCheckParams {
    /// The name to check, such as "app.fiducia.cloud"; none with a `preset`.
    pub name: Option<String>,
    /// A, AAAA, CNAME, NS, TXT or MX; A where none is given.
    pub record_type: Option<String>,
    /// The expected values; the check passes if any of them is observed.
    pub values: Option<Vec<String>>,
    /// A built-in set of checks: "fiducia".
    pub preset: Option<String>,
}

#[derive(Debug)]
pub struct K8sWorkloadsParams {
    /// The context of `kubectl`, which is checked before use.
    pub context: String,
    /// The namespace; "fiducia" where none is given.
    pub namespace: Option<String>,
}

#[derive(Debug)]
pub struct K8sRolloutParams {
    /// The context of `kubectl`, which is checked before use.
    pub context: String,
    /// "deployment" or "statefulset".
    pub kind: String,
    /// The name of the workload.
    pub name: String,
    /// The namespace; "fiducia" where none is given.
    pub namespace: Option<String>,
}

#[derive(Debug)]
pub struct K8sEventsParams {
    /// The context of `kubectl`, which is checked before use.
    pub context: String,
    /// The namespace; "fiducia" where none is given.
    pub namespace: Option<String>,
    /// How many recent events to show; 30 where nothing is said.
    pub last: Option<usize>,
}

#[derive(Debug)]
pub struct K8sServiceParams {
    /// The context of `kubectl`, which is checked before use.
    pub context: String,
    /// The namespace; "fiducia" where none is given.
    pub namespace: Option<String>,
    /// The service to show the endpoints of.
    pub service: String,
}

// ---------------------------------------------------------------- replies

/// The reply of a tool.
#[derive(Debug)]
pub struct ToolReply {
    pub is_error: bool,
    pub text: String,
}

/// What a [`ToolReply`] stands for.
pub struct ReplyView {
    pub is_error: bool,
    pub text: Seq<char>,
}

impl View for ToolReply {
    type V = ReplyView;

    open spec fn view(&self) -> ReplyView {
        ReplyView { is_error: self.is_error, text: self.text@ }
    }
}

/// The reply that shows a text.
pub open spec fn shown(text: Seq<char>) -> ReplyView {
    ReplyView { is_error: false, text }
}

/// The reply that reports an error.
pub open spec fn failed(message: Seq<char>) -> ReplyView {
    ReplyView { is_error: true, text: message }
}

/// The reply that shows a tree or reports an error.
pub open spec fn rendered(result: Result<JsonView, Seq<char>>) -> ReplyView {
    match result {
        Ok(tree) => shown(pretty_text_of_json(tree)),
        Err(message) => failed(message),
    }
}

/// The reply that shows a tree, over several lines.
pub fn ok_json(value: &Json) -> (r: ToolReply)
    ensures
        r@ == shown(pretty_text_of_json(value@)),
{
    ToolReply { is_error: false, text: value.to_pretty_text() }
}

/// The reply that reports an error.
pub fn err_text(message: String) -> (r: ToolReply)
    ensures
        r@ == failed(message@),
{
    ToolReply { is_error: true, text: message }
}

/// The reply that shows a tree or reports an error.
pub fn render(result: Result<Json, String>) -> (r: ToolReply)
    ensures
        r@ == rendered(res_json_view(result)),
{
    match result {
        Ok(value) => ok_json(&value),
        Err(message) => err_text(message),
    }
}

// ---------------------------------------------------------------- steps

/// A question that the client library of the node plane is asked.
#[derive(Debug)]
pub enum NodeQuestion {
    Status,
    KvGet(String),
    KvList(String),
    LockGet(String),
    ServiceInstances(String),
    ServiceList,
}

/// What a [`NodeQuestion`] stands for.
pub enum NodeQuestionView {
    Status,
    KvGet(Seq<char>),
    KvList(Seq<char>),
    LockGet(Seq<char>),
    ServiceInstances(Seq<char>),
    ServiceList,
}

impl View for NodeQuestion {
    type V = NodeQuestionView;

    open spec fn view(&self) -> NodeQuestionView {
        match self {
            NodeQuestion::Status => NodeQuestionView::Status,
            NodeQuestion::KvGet(key) => NodeQuestionView::KvGet(key@),
            NodeQuestion::KvList(prefix) => NodeQuestionView::KvList(prefix@),
            NodeQuestion::LockGet(key) => NodeQuestionView::LockGet(key@),
            NodeQuestion::ServiceInstances(service) => NodeQuestionView::ServiceInstances(service@),
            NodeQuestion::ServiceList => NodeQuestionView::ServiceList,
        }
    }
}

/// What a tool does next.
pub enum ToolStep {
    /// Nothing; this is its reply.
    Done(ToolReply),
    /// It makes this GET request.
    Get(GetRequest),
    /// It asks the client library of the node plane.
    Node(NodeQuestion),
    /// It makes this request to Cloudflare.
    Cloudflare(CfRequest, CfTask),
    /// It makes the request of this RDAP exchange.
    Rdap(RdapTask),
    /// It runs this command.
    Kubectl(K8sRun),
    /// It checks DNS records with a resolver.
    Dns(DnsCheckInput),
}

/// What a [`ToolStep`] stands for.
pub enum ToolStepView {
    Done(ReplyView),
    Get(GetRequestView),
    Node(NodeQuestionView),
    Cloudflare(CfRequestView, TaskView),
    Rdap(RdapTaskView),
    Kubectl(RunStateView),
    Dns(DnsCheckInput),
}

impl View for ToolStep {
    type V = ToolStepView;

    open spec fn view(&self) -> ToolStepView {
        match self {
            ToolStep::Done(reply) => ToolStepView::Done(reply@),
            ToolStep::Get(request) => ToolStepView::Get(request@),
            ToolStep::Node(question) => ToolStepView::Node(question@),
            ToolStep::Cloudflare(request, task) => ToolStepView::Cloudflare(request@, task@),
            ToolStep::Rdap(task) => ToolStepView::Rdap(task@),
            ToolStep::Kubectl(run) => ToolStepView::Kubectl(run@),
            ToolStep::Dns(input) => ToolStepView::Dns(*input),
        }
    }
}

/// How a step ended.
pub enum ToolEvent {
    /// A request, to a plane or to Cloudflare.
    Http(HttpOutcome),
    /// A question to the client library of the node plane.
    Node(Result<Json, ClientError>),
    /// An RDAP exchange.
    Rdap(RdapOutcome),
    /// A command.
    Kubectl(KubectlOutcome),
    /// A check of DNS records.
    Dns(Result<Json, String>),
}

/// What a [`ToolEvent`] stands for.
pub enum ToolEventView {
    Http(HttpOutcomeView),
    Node(Result<JsonView, Seq<char>>),
    Rdap(RdapOutcomeView),
    Kubectl(OutcomeView),
    Dns(Result<JsonView, Seq<char>>),
}

impl View for ToolEvent {
    type V = ToolEventView;

    open spec fn view(&self) -> ToolEventView {
        match self {
            ToolEvent::Http(outcome) => ToolEventView::Http(outcome@),
            ToolEvent::Node(result) => ToolEventView::Node(
                match result {
                    Ok(tree) => Ok(tree@),
                    Err(error) => Err(client_error_text(*error)),
                },
            ),
            ToolEvent::Rdap(outcome) => ToolEventView::Rdap(outcome@),
            ToolEvent::Kubectl(outcome) => ToolEventView::Kubectl(outcome@),
            ToolEvent::Dns(result) => ToolEventView::Dns(res_json_view(*result)),
        }
    }
}

pub open spec fn of_cloudflare(step: CfStepView) -> ToolStepView {
    match step {
        CfStepView::Send(request, task) => ToolStepView::Cloudflare(request, task),
        CfStepView::Done(result) => ToolStepView::Done(rendered(result)),
    }
}

fn from_cloudflare(step: CfStep) -> (r: ToolStep)
    ensures
        r@ == of_cloudflare(step@),
{
    match step {
        CfStep::Send(request, task) => ToolStep::Cloudflare(request, task),
        CfStep::Done(result) => ToolStep::Done(render(result)),
    }
}

pub open spec fn of_rdap(step: RdapStepView) -> ToolStepView {
    match step {
        RdapStepView::Send(task) => ToolStepView::Rdap(task),
        RdapStepView::Done(result) => ToolStepView::Done(rendered(result)),
    }
}

fn from_rdap(step: RdapStep) -> (r: ToolStep)
    ensures
        r@ == of_rdap(step@),
{
    match step {
        RdapStep::Send(task) => ToolStep::Rdap(task),
        RdapStep::Done(result) => ToolStep::Done(render(result)),
    }
}

pub open spec fn of_kubectl(step: StepView) -> ToolStepView {
    match step {
        StepView::Run(run) => ToolStepView::Kubectl(run),
        StepView::Done(result) => ToolStepView::Done(rendered(result)),
    }
}

fn from_kubectl(step: K8sStep) -> (r: ToolStep)
    ensures
        r@ == of_kubectl(step@),
{
    match step {
        K8sStep::Run(run) => ToolStep::Kubectl(run),
        K8sStep::Done(result) => ToolStep::Done(render(result)),
    }
}

// ---------------------------------------------------------------- tools

/// A call of a tool.
#[derive(Debug)]
pub enum ToolCall {
    RepoMap,
    ClusterStatus,
    ClusterNodes,
    Placement(PlacementParams),
    RouteKey(RouteKeyParams),
    NodeStatus,
    Observe(ObserveParams),
    KvGet(KvGetParams),
    LockGet(LockGetParams),
    Services(ServicesParams),
    FileLease(FileLeaseParams),
    CloudflareZones,
    CloudflareDnsRecords(CloudflareZoneParams),
    CloudflareDnsUpsert(CloudflareUpsertParams),
    CloudflareDnsDelete(CloudflareDeleteParams),
    DomainRegistrarStatus(DomainParams),
    DnsCheck(DnsCheckParams),
    K8sContexts,
    K8sWorkloads(K8sWorkloadsParams),
    K8sRolloutStatus(K8sRolloutParams),
    K8sEvents(K8sEventsParams),
    K8sServiceEndpoints(K8sServiceParams),
}

/// The tools over the upstream planes and Cloudflare.
pub struct FiduciaMcp {
    upstream: Upstream,
    cloudflare: Cloudflare,
}

/// What a [`FiduciaMcp`] stands for.
pub struct ServerView {
    pub config: ConfigView,
    pub node_client: Option<NodeClientView>,
    pub cloudflare: CloudflareView,
}

impl View for FiduciaMcp {
    type V = ServerView;

    closed spec fn view(&self) -> ServerView {
        ServerView {
            config: self.upstream.config@,
            node_client: opt_client_view(self.upstream.node_client),
            cloudflare: self.cloudflare@,
        }
    }
}

/// A question to a plane by a GET.
pub open spec fn asked_plane(server: ServerView, plane: Plane, path: Seq<char>) -> ToolStepView {
    match plane_request(server.config, plane, path) {
        Ok(request) => ToolStepView::Get(request),
        Err(message) => ToolStepView::Done(failed(message)),
    }
}

/// A question to the node plane, through its client library where that is set up
/// and by a GET otherwise.
pub open spec fn asked_node(
    server: ServerView,
    question: NodeQuestionView,
    path: Seq<char>,
) -> ToolStepView {
    match node_route(server.config, server.node_client, path) {
        Ok(NodeRouteView::Client) => ToolStepView::Node(question),
        Ok(NodeRouteView::Get(request)) => ToolStepView::Get(request),
        Err(message) => ToolStepView::Done(failed(message)),
    }
}

/// The path of the placement of a shard, or of all.
pub open spec fn placement_path(shard: Option<u32>) -> Seq<char> {
    match shard {
        Some(shard) => "/v1/placement/"@ + decimal_of(shard as nat),
        None => "/v1/placement"@,
    }
}

/// Whether the node can be observed for this.
pub open spec fn is_observe_kind(what: Seq<char>) -> bool {
    what == "locks"@ || what == "semaphores"@ || what == "elections"@ || what == "shards"@ || what
        == "metrics"@
}

/// The message for what the node cannot be observed for.
pub open spec fn unknown_kind(what: Seq<char>) -> Seq<char> {
    "unknown observe kind "@ + debug_text(what) + "; expected one of "@
        + "[\"locks\", \"semaphores\", \"elections\", \"shards\", \"metrics\"]"@
}

/// The first step of the tool `observe`.
pub open spec fn observed(server: ServerView, what: Seq<char>) -> ToolStepView {
    let what = lowered(trimmed(what));
    if is_observe_kind(what) {
        asked_plane(server, Plane::Node, "/v1/observe/"@ + what)
    } else {
        ToolStepView::Done(failed(unknown_kind(what)))
    }
}

/// The first step of the tool `kv_get`.
pub open spec fn kv_asked(server: ServerView, params: KvGetParams) -> ToolStepView {
    match (params.key, params.prefix) {
        (Some(key), None) => asked_node(
            server,
            NodeQuestionView::KvGet(key@),
            "/v1/kv?key="@ + urlencoded(key@),
        ),
        (None, Some(prefix)) => asked_node(
            server,
            NodeQuestionView::KvList(prefix@),
            "/v1/kv?prefix="@ + urlencoded(prefix@),
        ),
        _ => ToolStepView::Done(failed("provide exactly one of `key` or `prefix`"@)),
    }
}

/// The first step of the tool `services`.
pub open spec fn services_asked(server: ServerView, service: Option<String>) -> ToolStepView {
    match service {
        Some(service) => asked_node(
            server,
            NodeQuestionView::ServiceInstances(service@),
            "/v1/services/"@ + urlencoded(service@),
        ),
        None => asked_node(server, NodeQuestionView::ServiceList, "/v1/services"@),
    }
}

/// The path of the lease of a file.
pub open spec fn lease_path(repository: Seq<char>, path: Seq<char>) -> Seq<char> {
    "/v1/file-leases?repository="@ + urlencoded(repository) + "&path="@ + urlencoded(path)
}

/// What a write of a record is given by the parameters of its tool.
pub open spec fn upsert_view(params: CloudflareUpsertParams) -> UpsertView {
    UpsertView {
        zone: params.zone@,
        record_type: params.record_type@,
        name: params.name@,
        content: params.content@,
        ttl: params.ttl,
        proxied: params.proxied,
    }
}

/// The text, or none.
pub open spec fn or_empty(s: Option<String>) -> Seq<char> {
    match s {
        Some(s) => s@,
        None => ""@,
    }
}

fn text_or_empty(s: &Option<String>) -> (r: &str)
    ensures
        r@ == or_empty(*s),
{
    match s {
        Some(s) => s.as_str(),
        None => "",
    }
}

/// The question for the status of a domain.
pub open spec fn status_asked(domain: Seq<char>) -> RdapStepView {
    if meant_domain(domain).len() == 0 {
        RdapStepView::Done(Err("`domain` is required"@))
    } else {
        RdapStepView::Send(
            RdapTaskView::First { base: RDAP_BASE@, domain: meant_domain(domain) },
        )
    }
}

/// The first step of a call.
pub open spec fn called(
    server: ServerView,
    env: Map<Seq<char>, Seq<char>>,
    call: ToolCall,
) -> ToolStepView {
    let cf = server.cloudflare;
    match call {
        ToolCall::RepoMap => ToolStepView::Done(shown(REPO_MAP@)),
        ToolCall::ClusterStatus => asked_plane(server, Plane::Brain, "/v1/status"@),
        ToolCall::ClusterNodes => asked_plane(server, Plane::Brain, "/v1/nodes"@),
        ToolCall::Placement(p) => asked_plane(server, Plane::Brain, placement_path(p.shard)),
        ToolCall::RouteKey(p) => asked_plane(
            server,
            Plane::Brain,
            "/v1/route?key="@ + urlencoded(p.key@),
        ),
        ToolCall::NodeStatus => asked_node(server, NodeQuestionView::Status, "/v1/status"@),
        ToolCall::Observe(p) => observed(server, p.what@),
        ToolCall::KvGet(p) => kv_asked(server, p),
        ToolCall::LockGet(p) => asked_node(
            server,
            NodeQuestionView::LockGet(p.key@),
            "/v1/locks?key="@ + urlencoded(p.key@),
        ),
        ToolCall::Services(p) => services_asked(server, p.service),
        ToolCall::FileLease(p) => asked_plane(
            server,
            Plane::AgentControlPlane,
            lease_path(p.repository@, p.path@),
        ),
        ToolCall::CloudflareZones => of_cloudflare(cloudflare::sent(cf, TaskView::Zones)),
        ToolCall::CloudflareDnsRecords(p) => of_cloudflare(
            cloudflare::in_zone(cf, p.zone@, GoalView::Records),
        ),
        ToolCall::CloudflareDnsUpsert(p) => of_cloudflare(
            cloudflare::upserted(cf, env, upsert_view(p)),
        ),
        ToolCall::CloudflareDnsDelete(p) => of_cloudflare(
            cloudflare::deleted(cf, env, p.zone@, p.record_id@),
        ),
        ToolCall::DomainRegistrarStatus(p) => of_rdap(status_asked(p.domain@)),
        ToolCall::DnsCheck(p) => ToolStepView::Dns(
            DnsCheckInput {
                name: p.name,
                record_type: p.record_type,
                values: p.values,
                preset: p.preset,
            },
        ),
        ToolCall::K8sContexts => of_kubectl(
            StepView::Run(RunStateView::ListContexts { allow: k8s::allowed_contexts(env) }),
        ),
        ToolCall::K8sWorkloads(p) => of_kubectl(
            k8s::asked(env, p.context@, QueryView::Workloads { namespace: or_empty(p.namespace) }),
        ),
        ToolCall::K8sRolloutStatus(p) => of_kubectl(
            k8s::asked(
                env,
                p.context@,
                QueryView::Rollout {
                    kind: p.kind@,
                    name: p.name@,
                    namespace: or_empty(p.namespace),
                },
            ),
        ),
        ToolCall::K8sEvents(p) => of_kubectl(
            k8s::asked(
                env,
                p.context@,
                QueryView::Events {
                    namespace: or_empty(p.namespace),
                    last: match p.last {
                        Some(last) => last as nat,
                        None => 0,
                    },
                },
            ),
        ),
        ToolCall::K8sServiceEndpoints(p) => of_kubectl(
            k8s::asked(
                env,
                p.context@,
                QueryView::Endpoints { namespace: or_empty(p.namespace), service: p.service@ },
            ),
        ),
    }
}

/// What comes after a step. What is no outcome of the step changes nothing.
pub open spec fn advanced(
    server: ServerView,
    step: ToolStepView,
    event: ToolEventView,
) -> ToolStepView {
    match (step, event) {
        (ToolStepView::Get(request), ToolEventView::Http(outcome)) => ToolStepView::Done(
            rendered(get_answer(request.url, outcome)),
        ),
        (ToolStepView::Node(_), ToolEventView::Node(result)) => ToolStepView::Done(rendered(result)),
        (ToolStepView::Cloudflare(_, task), ToolEventView::Http(outcome)) => of_cloudflare(
            cloudflare::continued(server.cloudflare, task, outcome),
        ),
        (ToolStepView::Rdap(task), ToolEventView::Rdap(outcome)) => of_rdap(
            rdap_resumed(task, outcome),
        ),
        (ToolStepView::Kubectl(run), ToolEventView::Kubectl(outcome)) => of_kubectl(
            k8s::resumed(run, outcome),
        ),
        (ToolStepView::Dns(_), ToolEventView::Dns(result)) => ToolStepView::Done(rendered(result)),
        _ => step,
    }
}

impl FiduciaMcp {
    /// The tools over these planes, with the Cloudflare token of the environment.
    pub fn new(upstream: Upstream, env: &EnvMap) -> (r: FiduciaMcp)
        ensures
            r@.config == upstream.config@,
            r@.node_client == opt_client_view(upstream.node_client),
            r@.cloudflare == (CloudflareView {
                base: without_end(CF_API_BASE@, '/'),
                token: nonempty_value(env@, CF_TOKEN_ENV@),
            }),
    {
        FiduciaMcp { upstream, cloudflare: Cloudflare::from_env(env) }
    }

    fn ask_plane(&self, plane: Plane, path: &str) -> (r: ToolStep)
        ensures
            r@ == asked_plane(self@, plane, path@),
    {
        match self.upstream.get_json(plane, path) {
            Ok(request) => ToolStep::Get(request),
            Err(message) => ToolStep::Done(err_text(message)),
        }
    }

    fn ask_node(&self, question: NodeQuestion, path: &str) -> (r: ToolStep)
        ensures
            r@ == asked_node(self@, question@, path@),
    {
        match self.upstream.node_call(path) {
            Ok(NodeRoute::Client) => ToolStep::Node(question),
            Ok(NodeRoute::Get(request)) => ToolStep::Get(request),
            Err(message) => ToolStep::Done(err_text(message)),
        }
    }

    /// Which repository does what, the request path, ports, headers, invariants.
    pub fn repo_map(&self) -> (r: ToolStep)
        ensures
            r@ == ToolStepView::Done(shown(REPO_MAP@)),
    {
        ToolStep::Done(ToolReply { is_error: false, text: REPO_MAP.to_string() })
    }

    /// The health of the cluster, from the brain.
    pub fn cluster_status(&self) -> (r: ToolStep)
        ensures
            r@ == asked_plane(self@, Plane::Brain, "/v1/status"@),
    {
        self.ask_plane(Plane::Brain, "/v1/status")
    }

    /// The members of the cluster, from the brain.
    pub fn cluster_nodes(&self) -> (r: ToolStep)
        ensures
            r@ == asked_plane(self@, Plane::Brain, "/v1/nodes"@),
    {
        self.ask_plane(Plane::Brain, "/v1/nodes")
    }

    /// The placement of a shard, or the full shard map, from the brain.
    pub fn placement(&self, params: PlacementParams) -> (r: ToolStep)
        ensures
            r@ == asked_plane(self@, Plane::Brain, placement_path(params.shard)),
    {
        let path = match params.shard {
            Some(shard) => cat2("/v1/placement/", decimal(shard as u64).as_str()),
            None => "/v1/placement".to_string(),
        };
        self.ask_plane(Plane::Brain, path.as_str())
    }

    /// The shard that owns a key, from the brain.
    pub fn route_key(&self, params: RouteKeyParams) -> (r: ToolStep)
        ensures
            r@ == asked_plane(
                self@,
                Plane::Brain,
                "/v1/route?key="@ + urlencoded(params.key@),
            ),
    {
        let path = cat2("/v1/route?key=", urlencode(params.key.as_str()).as_str());
        self.ask_plane(Plane::Brain, path.as_str())
    }

    /// The version and the consensus state of the node.
    pub fn node_status(&self) -> (r: ToolStep)
        ensures
            r@ == asked_node(self@, NodeQuestionView::Status, "/v1/status"@),
    {
        self.ask_node(NodeQuestion::Status, "/v1/status")
    }

    /// What can be observed on the node: locks, semaphores, elections, shards, metrics.
    pub fn observe(&self, params: ObserveParams) -> (r: ToolStep)
        ensures
            r@ == observed(self@, params.what@),
    {
        let lower = ascii_lower(trim(params.what.as_str()));
        let what = lower.as_str();
        if same_text(what, "locks") || same_text(what, "semaphores") || same_text(what, "elections")
            || same_text(what, "shards") || same_text(what, "metrics") {
            self.ask_plane(Plane::Node, cat2("/v1/observe/", what).as_str())
        } else {
            ToolStep::Done(
                err_text(
                    cat4(
                        "unknown observe kind ",
                        quoted(what).as_str(),
                        "; expected one of ",
                        "[\"locks\", \"semaphores\", \"elections\", \"shards\", \"metrics\"]",
                    ),
                ),
            )
        }
    }

    /// The entry of a key, or the entries under a prefix.
    pub fn kv_get(&self, params: KvGetParams) -> (r: ToolStep)
        ensures
            r@ == kv_asked(self@, params),
    {
        match (params.key, params.prefix) {
            (Some(key), None) => {
                let path = cat2("/v1/kv?key=", urlencode(key.as_str()).as_str());
                self.ask_node(NodeQuestion::KvGet(key), path.as_str())
            },
            (None, Some(prefix)) => {
                let path = cat2("/v1/kv?prefix=", urlencode(prefix.as_str()).as_str());
                self.ask_node(NodeQuestion::KvList(prefix), path.as_str())
            },
            _ => ToolStep::Done(err_text("provide exactly one of `key` or `prefix`".to_string())),
        }
    }

    /// The holder, the fencing token and the wait queue of a lock.
    pub fn lock_get(&self, params: LockGetParams) -> (r: ToolStep)
        ensures
            r@ == asked_node(
                self@,
                NodeQuestionView::LockGet(params.key@),
                "/v1/locks?key="@ + urlencoded(params.key@),
            ),
    {
        let path = cat2("/v1/locks?key=", urlencode(params.key.as_str()).as_str());
        self.ask_node(NodeQuestion::LockGet(params.key), path.as_str())
    }

    /// The services, or the live instances of one.
    pub fn services(&self, params: ServicesParams) -> (r: ToolStep)
        ensures
            r@ == services_asked(self@, params.service),
    {
        match params.service {
            Some(service) => {
                let path = cat2("/v1/services/", urlencode(service.as_str()).as_str());
                self.ask_node(NodeQuestion::ServiceInstances(service), path.as_str())
            },
            None => self.ask_node(NodeQuestion::ServiceList, "/v1/services"),
        }
    }

    /// Which agent holds the lease of a file.
    pub fn file_lease(&self, params: FileLeaseParams) -> (r: ToolStep)
        ensures
            r@ == asked_plane(
                self@,
                Plane::AgentControlPlane,
                lease_path(params.repository@, params.path@),
            ),
    {
        let path = cat4(
            "/v1/file-leases?repository=",
            urlencode(params.repository.as_str()).as_str(),
            "&path=",
            urlencode(params.path.as_str()).as_str(),
        );
        self.ask_plane(Plane::AgentControlPlane, path.as_str())
    }

    /// The zones of the Cloudflare account.
    pub fn cloudflare_zones(&self) -> (r: ToolStep)
        ensures
            r@ == of_cloudflare(cloudflare::sent(self@.cloudflare, TaskView::Zones)),
    {
        from_cloudflare(self.cloudflare.zones())
    }

    /// The DNS records of a zone.
    pub fn cloudflare_dns_records(&self, params: CloudflareZoneParams) -> (r: ToolStep)
        ensures
            r@ == of_cloudflare(
                cloudflare::in_zone(self@.cloudflare, params.zone@, GoalView::Records),
            ),
    {
        from_cloudflare(self.cloudflare.dns_records(params.zone.as_str()))
    }

    /// Creates or updates a DNS record, where writes are allowed.
    pub fn cloudflare_dns_upsert(&self, env: &EnvMap, params: CloudflareUpsertParams) -> (r: ToolStep)
        ensures
            r@ == of_cloudflare(
                cloudflare::upserted(self@.cloudflare, env@, upsert_view(params)),
            ),
    {
        let params = UpsertParams {
            zone: params.zone,
            record_type: params.record_type,
            name: params.name,
            content: params.content,
            ttl: params.ttl,
            proxied: params.proxied,
        };
        from_cloudflare(self.cloudflare.dns_upsert(env, params))
    }

    /// Deletes a DNS record, where writes are allowed.
    pub fn cloudflare_dns_delete(&self, env: &EnvMap, params: CloudflareDeleteParams) -> (r: ToolStep)
        ensures
            r@ == of_cloudflare(
                cloudflare::deleted(self@.cloudflare, env@, params.zone@, params.record_id@),
            ),
    {
        from_cloudflare(
            self.cloudflare.dns_delete(env, params.zone.as_str(), params.record_id.as_str()),
        )
    }

    /// The registrar, the name servers, the status and the expiry of a domain.
    pub fn domain_registrar_status(&self, params: DomainParams) -> (r: ToolStep)
        ensures
            r@ == of_rdap(status_asked(params.domain@)),
    {
        from_rdap(domains::registrar_status(RDAP_BASE, params.domain.as_str()))
    }

    /// Checks DNS records from the outside.
    pub fn dns_check(&self, params: DnsCheckParams) -> (r: ToolStep)
        ensures
            r@ == ToolStepView::Dns(
                DnsCheckInput {
                    name: params.name,
                    record_type: params.record_type,
                    values: params.values,
                    preset: params.preset,
                },
            ),
    {
        ToolStep::Dns(
            DnsCheckInput {
                name: params.name,
                record_type: params.record_type,
                values: params.values,
                preset: params.preset,
            },
        )
    }

    /// The contexts of `kubectl`, and which of them are allowed.
    pub fn k8s_contexts(&self, env: &EnvMap) -> (r: ToolStep)
        ensures
            r@ == of_kubectl(
                StepView::Run(RunStateView::ListContexts { allow: k8s::allowed_contexts(env@) }),
            ),
    {
        from_kubectl(k8s::contexts(env))
    }

    /// The workloads and the pods of a namespace.
    pub fn k8s_workloads(&self, env: &EnvMap, params: K8sWorkloadsParams) -> (r: ToolStep)
        ensures
            r@ == called(self@, env@, ToolCall::K8sWorkloads(params)),
    {
        from_kubectl(
            k8s::workloads(env, params.context.as_str(), text_or_empty(&params.namespace)),
        )
    }

    /// How far a rollout is.
    pub fn k8s_rollout_status(&self, env: &EnvMap, params: K8sRolloutParams) -> (r: ToolStep)
        ensures
            r@ == called(self@, env@, ToolCall::K8sRolloutStatus(params)),
    {
        from_kubectl(
            k8s::rollout_status(
                env,
                params.context.as_str(),
                params.kind.as_str(),
                params.name.as_str(),
                text_or_empty(&params.namespace),
            ),
        )
    }

    /// The most recent events of a namespace.
    pub fn k8s_events(&self, env: &EnvMap, params: K8sEventsParams) -> (r: ToolStep)
        ensures
            r@ == called(self@, env@, ToolCall::K8sEvents(params)),
    {
        let last: usize = match params.last {
            Some(last) => last,
            None => 0,
        };
        from_kubectl(
            k8s::events(env, params.context.as_str(), text_or_empty(&params.namespace), last),
        )
    }

    /// The backend addresses of a service.
    pub fn k8s_service_endpoints(&self, env: &EnvMap, params: K8sServiceParams) -> (r: ToolStep)
        ensures
            r@ == called(self@, env@, ToolCall::K8sServiceEndpoints(params)),
    {
        from_kubectl(
            k8s::service_endpoints(
                env,
                params.context.as_str(),
                text_or_empty(&params.namespace),
                params.service.as_str(),
            ),
        )
    }

    /// The first step of a call.
    pub fn call(&self, env: &EnvMap, call: ToolCall) -> (r: ToolStep)
        ensures
            r@ == called(self@, env@, call),
    {
        match call {
            ToolCall::RepoMap => self.repo_map(),
            ToolCall::ClusterStatus => self.cluster_status(),
            ToolCall::ClusterNodes => self.cluster_nodes(),
            ToolCall::Placement(p) => self.placement(p),
            ToolCall::RouteKey(p) => self.route_key(p),
            ToolCall::NodeStatus => self.node_status(),
            ToolCall::Observe(p) => self.observe(p),
            ToolCall::KvGet(p) => self.kv_get(p),
            ToolCall::LockGet(p) => self.lock_get(p),
            ToolCall::Services(p) => self.services(p),
            ToolCall::FileLease(p) => self.file_lease(p),
            ToolCall::CloudflareZones => self.cloudflare_zones(),
            ToolCall::CloudflareDnsRecords(p) => self.cloudflare_dns_records(p),
            ToolCall::CloudflareDnsUpsert(p) => self.cloudflare_dns_upsert(env, p),
            ToolCall::CloudflareDnsDelete(p) => self.cloudflare_dns_delete(env, p),
            ToolCall::DomainRegistrarStatus(p) => self.domain_registrar_status(p),
            ToolCall::DnsCheck(p) => self.dns_check(p),
            ToolCall::K8sContexts => self.k8s_contexts(env),
            ToolCall::K8sWorkloads(p) => self.k8s_workloads(env, p),
            ToolCall::K8sRolloutStatus(p) => self.k8s_rollout_status(env, p),
            ToolCall::K8sEvents(p) => self.k8s_events(env, p),
            ToolCall::K8sServiceEndpoints(p) => self.k8s_service_endpoints(env, p),
        }
    }

    /// What comes after a step. What is no outcome of the step changes nothing.
    pub fn resume(&self, step: ToolStep, event: ToolEvent) -> (r: ToolStep)
        ensures
            r@ == advanced(self@, step@, event@),
    {
        match (step, event) {
            (ToolStep::Get(request), ToolEvent::Http(outcome)) => ToolStep::Done(
                render(request.answer(&outcome)),
            ),
            (ToolStep::Node(_), ToolEvent::Node(result)) => ToolStep::Done(
                match result {
                    Ok(tree) => ok_json(&tree),
                    Err(error) => err_text(format_client_error(&error)),
                },
            ),
            (ToolStep::Cloudflare(_, task), ToolEvent::Http(outcome)) => from_cloudflare(
                self.cloudflare.resume(task, &outcome),
            ),
            (ToolStep::Rdap(task), ToolEvent::Rdap(outcome)) => from_rdap(task.resume(outcome)),
            (ToolStep::Kubectl(run), ToolEvent::Kubectl(outcome)) => from_kubectl(
                run.resume(outcome),
            ),
            (ToolStep::Dns(_), ToolEvent::Dns(result)) => ToolStep::Done(render(result)),
            (step, _) => step,
        }
    }
}

// ---------------------------------------------------------------- laws

/// Where a call stands after these events.
pub open spec fn after(
    server: ServerView,
    first: ToolStepView,
    events: Seq<ToolEventView>,
) -> ToolStepView
    decreases events.len(),
{
    if events.len() == 0 {
        first
    } else {
        advanced(server, after(server, first, events.drop_last()), events.last())
    }
}

/// Whether a step only reads. A GET, a question to the client library, an RDAP
/// exchange and a DNS lookup are for reading by themselves; a request to
/// Cloudflare and a command are so by what they hold.
pub open spec fn only_reads(step: ToolStepView) -> bool {
    match step {
        ToolStepView::Cloudflare(request, _) => request.method == CfMethod::Get && request.body
            is None,
        ToolStepView::Kubectl(run) => k8s::only_reads(k8s::arguments(run)),
        _ => true,
    }
}

/// Whether a call is of one of the two tools that write.
pub open spec fn may_write(call: ToolCall) -> bool {
    call is CloudflareDnsUpsert || call is CloudflareDnsDelete
}

/// The tools only read, whatever comes in between, but for the two that write DNS
/// records, and those too unless `FIDUCIA_MCP_ALLOW_MUTATIONS` is `1`.
pub proof fn only_unlocked_tools_write(
    server: ServerView,
    env: Map<Seq<char>, Seq<char>>,
    call: ToolCall,
    events: Seq<ToolEventView>,
)
    ensures
        only_reads(after(server, called(server, env, call), events)) || (may_write(call)
            && cloudflare::may_mutate(env)),
{
    if may_write(call) {
        if !cloudflare::may_mutate(env) {
            lemma_done(server, called(server, env, call), events);
        }
    } else {
        lemma_reading(server, called(server, env, call), events);
    }
}

/// Whether a step is one of those that lead to reading only.
pub open spec fn is_reading(step: ToolStepView) -> bool {
    step matches ToolStepView::Cloudflare(request, task) ==> cloudflare::is_reading(task)
        && request.method == CfMethod::Get && request.body is None
}

proof fn lemma_reading(server: ServerView, first: ToolStepView, events: Seq<ToolEventView>)
    requires
        is_reading(first),
    ensures
        is_reading(after(server, first, events)),
        only_reads(after(server, first, events)),
    decreases events.len(),
{
    if events.len() > 0 {
        lemma_reading(server, first, events.drop_last());
    }
    if let ToolStepView::Kubectl(run) = after(server, first, events) {
        k8s::every_command_only_reads(run);
    }
}

/// A reply stays.
proof fn lemma_done(server: ServerView, first: ToolStepView, events: Seq<ToolEventView>)
    requires
        first is Done,
    ensures
        after(server, first, events) == first,
    decreases events.len(),
{
    if events.len() > 0 {
        lemma_done(server, first, events.drop_last());
    }
}

/// While writes are not allowed, the tools that write reply with an error that
/// says how to allow them, and do nothing else.
pub proof fn a_locked_tool_explains_itself(
    server: ServerView,
    env: Map<Seq<char>, Seq<char>>,
    call: ToolCall,
)
    requires
        may_write(call),
        !cloudflare::may_mutate(env),
    ensures
        called(server, env, call) == ToolStepView::Done(failed(cloudflare::locked_message())),
{
}

/// Without a base URL for the agent control plane nothing is asked of it, whatever
/// else is missing: the reply is the error that says which variable to set.
pub proof fn a_missing_url_is_reported(server: ServerView, path: Seq<char>)
    requires
        server.config.agent_cp_url is None,
    ensures
        asked_plane(server, Plane::AgentControlPlane, path) == ToolStepView::Done(
            failed(no_agent_url()),
        ),
        begins_with(no_agent_url(), AGENT_CP_URL_ENV@),
{
    assert(no_agent_url().take(AGENT_CP_URL_ENV@.len() as int) =~= AGENT_CP_URL_ENV@);
}

/// Without credentials for a plane whose base URL is set nothing is asked of it,
/// whatever that URL is: the reply is the error that says which variables to set.
pub proof fn missing_credentials_are_reported(
    server: ServerView,
    plane: Plane,
    path: Seq<char>,
    message: Seq<char>,
)
    requires
        has_url(server.config, plane),
        plane_headers(server.config, plane) == Err::<Seq<(Seq<char>, Seq<char>)>, Seq<char>>(
            message,
        ),
    ensures
        asked_plane(server, plane, path) == ToolStepView::Done(failed(message)),
{
}

/// Without credentials for the node plane, and so without its client library,
/// nothing is asked of it either: the reply is the same error.
pub proof fn missing_node_credentials_are_reported(
    server: ServerView,
    question: NodeQuestionView,
    path: Seq<char>,
    message: Seq<char>,
)
    requires
        server.node_client == node_client_of(server.config),
        plane_headers(server.config, Plane::Node) == Err::<
            Seq<(Seq<char>, Seq<char>)>,
            Seq<char>,
        >(message),
    ensures
        asked_node(server, question, path) == ToolStepView::Done(failed(message)),
{
}

/// Neither the Cloudflare token nor its absence changes what the other tools do.
pub proof fn other_tools_need_no_token(
    server: ServerView,
    other: ServerView,
    env: Map<Seq<char>, Seq<char>>,
    call: ToolCall,
)
    requires
        server.config == other.config,
        server.node_client == other.node_client,
        !may_write(call),
        !(call is CloudflareZones),
        !(call is CloudflareDnsRecords),
    ensures
        called(server, env, call) == called(other, env, call),
{
}

/// Whether two servers differ in nothing but the values of their secrets.
pub open spec fn same_but_secret_values(one: ServerView, other: ServerView) -> bool {
    &&& same_but_secrets(one.config, other.config)
    &&& one.node_client is Some == other.node_client is Some
    &&& one.cloudflare.base == other.cloudflare.base
    &&& one.cloudflare.token is Some == other.cloudflare.token is Some
}

/// Whether two steps differ in nothing but the headers of a request.
pub open spec fn same_but_headers(one: ToolStepView, other: ToolStepView) -> bool {
    match (one, other) {
        (ToolStepView::Get(a), ToolStepView::Get(b)) => a.url == b.url,
        (ToolStepView::Cloudflare(a, t), ToolStepView::Cloudflare(b, u)) => t == u && a.method
            == b.method && a.url == b.url && a.body == b.body,
        _ => one == other,
    }
}

/// No secret is shown: with other values for the secrets and the same events, a
/// call goes the same way, and its reply is the same.
pub proof fn no_secret_is_shown(
    one: ServerView,
    other: ServerView,
    env: Map<Seq<char>, Seq<char>>,
    call: ToolCall,
    events: Seq<ToolEventView>,
)
    requires
        same_but_secret_values(one, other),
    ensures
        same_but_headers(
            after(one, called(one, env, call), events),
            after(other, called(other, env, call), events),
        ),
        after(one, called(one, env, call), events) matches ToolStepView::Done(reply) ==> after(
            other,
            called(other, env, call),
            events,
        ) == ToolStepView::Done(reply),
    decreases events.len(),
{
    if events.len() == 0 {
        lemma_called_alike(one, other, env, call);
    } else {
        no_secret_is_shown(one, other, env, call, events.drop_last());
        lemma_advanced_alike(
            one,
            other,
            after(one, called(one, env, call), events.drop_last()),
            after(other, called(other, env, call), events.drop_last()),
            events.last(),
        );
    }
}

proof fn lemma_plane_alike(one: ServerView, other: ServerView, plane: Plane, path: Seq<char>)
    requires
        same_but_secret_values(one, other),
    ensures
        same_but_headers(asked_plane(one, plane, path), asked_plane(other, plane, path)),
{
    secrets_are_only_headers(one.config, other.config, plane, path);
}

proof fn lemma_node_alike(
    one: ServerView,
    other: ServerView,
    question: NodeQuestionView,
    path: Seq<char>,
)
    requires
        same_but_secret_values(one, other),
    ensures
        same_but_headers(asked_node(one, question, path), asked_node(other, question, path)),
{
    secrets_are_only_headers(one.config, other.config, Plane::Node, path);
}

proof fn lemma_sent_alike(one: CloudflareView, other: CloudflareView, task: TaskView)
    requires
        one.base == other.base,
        one.token is Some == other.token is Some,
    ensures
        same_but_headers(
            of_cloudflare(cloudflare::sent(one, task)),
            of_cloudflare(cloudflare::sent(other, task)),
        ),
{
}

proof fn lemma_zone_alike(
    one: CloudflareView,
    other: CloudflareView,
    zone: Seq<char>,
    goal: GoalView,
)
    requires
        one.base == other.base,
        one.token is Some == other.token is Some,
    ensures
        same_but_headers(
            of_cloudflare(cloudflare::in_zone(one, zone, goal)),
            of_cloudflare(cloudflare::in_zone(other, zone, goal)),
        ),
{
    let zone = trimmed(zone);
    lemma_sent_alike(one, other, cloudflare::goal_task(zone, goal));
    lemma_sent_alike(one, other, TaskView::FindZone { zone, goal });
}

#[verifier::spinoff_prover]
proof fn lemma_called_alike(
    one: ServerView,
    other: ServerView,
    env: Map<Seq<char>, Seq<char>>,
    call: ToolCall,
)
    requires
        same_but_secret_values(one, other),
    ensures
        same_but_headers(called(one, env, call), called(other, env, call)),
{
    let cf = one.cloudflare;
    let cf2 = other.cloudflare;
    match call {
        ToolCall::ClusterStatus => lemma_plane_alike(one, other, Plane::Brain, "/v1/status"@),
        ToolCall::ClusterNodes => lemma_plane_alike(one, other, Plane::Brain, "/v1/nodes"@),
        ToolCall::Placement(p) => lemma_plane_alike(
            one,
            other,
            Plane::Brain,
            placement_path(p.shard),
        ),
        ToolCall::RouteKey(p) => lemma_plane_alike(
            one,
            other,
            Plane::Brain,
            "/v1/route?key="@ + urlencoded(p.key@),
        ),
        ToolCall::NodeStatus => lemma_node_alike(
            one,
            other,
            NodeQuestionView::Status,
            "/v1/status"@,
        ),
        ToolCall::Observe(p) => lemma_plane_alike(
            one,
            other,
            Plane::Node,
            "/v1/observe/"@ + lowered(trimmed(p.what@)),
        ),
        ToolCall::KvGet(p) => {
            if let Some(key) = p.key {
                lemma_node_alike(
                    one,
                    other,
                    NodeQuestionView::KvGet(key@),
                    "/v1/kv?key="@ + urlencoded(key@),
                );
            }
            if let Some(prefix) = p.prefix {
                lemma_node_alike(
                    one,
                    other,
                    NodeQuestionView::KvList(prefix@),
                    "/v1/kv?prefix="@ + urlencoded(prefix@),
                );
            }
        },
        ToolCall::LockGet(p) => lemma_node_alike(
            one,
            other,
            NodeQuestionView::LockGet(p.key@),
            "/v1/locks?key="@ + urlencoded(p.key@),
        ),
        ToolCall::Services(p) => {
            lemma_node_alike(one, other, NodeQuestionView::ServiceList, "/v1/services"@);
            if let Some(service) = p.service {
                lemma_node_alike(
                    one,
                    other,
                    NodeQuestionView::ServiceInstances(service@),
                    "/v1/services/"@ + urlencoded(service@),
                );
            }
        },
        ToolCall::FileLease(p) => lemma_plane_alike(
            one,
            other,
            Plane::AgentControlPlane,
            lease_path(p.repository@, p.path@),
        ),
        ToolCall::CloudflareZones => lemma_sent_alike(cf, cf2, TaskView::Zones),
        ToolCall::CloudflareDnsRecords(p) => lemma_zone_alike(cf, cf2, p.zone@, GoalView::Records),
        ToolCall::CloudflareDnsUpsert(p) => {
            if let Ok(record) = cloudflare::new_record(upsert_view(p)) {
                lemma_zone_alike(cf, cf2, p.zone@, GoalView::Upsert(record));
            }
        },
        ToolCall::CloudflareDnsDelete(p) => lemma_zone_alike(
            cf,
            cf2,
            p.zone@,
            GoalView::Delete(trimmed(p.record_id@)),
        ),
        _ => {},
    }
}

proof fn lemma_continued_alike(
    one: CloudflareView,
    other: CloudflareView,
    task: TaskView,
    outcome: HttpOutcomeView,
)
    requires
        one.base == other.base,
        one.token is Some == other.token is Some,
    ensures
        same_but_headers(
            of_cloudflare(cloudflare::continued(one, task, outcome)),
            of_cloudflare(cloudflare::continued(other, task, outcome)),
        ),
{
}

#[verifier::spinoff_prover]
proof fn lemma_advanced_alike(
    one: ServerView,
    other: ServerView,
    step: ToolStepView,
    step2: ToolStepView,
    event: ToolEventView,
)
    requires
        same_but_secret_values(one, other),
        same_but_headers(step, step2),
    ensures
        same_but_headers(advanced(one, step, event), advanced(other, step2, event)),
{
    if let ToolStepView::Cloudflare(_, task) = step {
        if let ToolEventView::Http(outcome) = event {
            lemma_continued_alike(one.cloudflare, other.cloudflare, task, outcome);
        }
    }
}

/// A reply reports an error exactly where the result is one, and then shows its
/// message; otherwise it shows the tree.
pub proof fn a_reply_tells_success_from_failure(tree: JsonView, message: Seq<char>)
    ensures
        !rendered(Ok(tree)).is_error,
        rendered(Ok(tree)).text == pretty_text_of_json(tree),
        rendered(Err(message)).is_error,
        rendered(Err(message)).text == message,
{
}

/// Whether this is a GET of a path of a plane, or the error that says why none can be
/// made.
pub open spec fn gets(step: ToolStepView, server: ServerView, plane: Plane, path: Seq<char>) -> bool {
    match plane_request(server.config, plane, path) {
        Ok(request) => step == ToolStepView::Get(request),
        Err(message) => step matches ToolStepView::Done(reply) && reply.is_error && reply.text
            == message,
    }
}

/// Whether this is a question to the node: to its client library where that is set
/// up, and otherwise a GET; or the error that says why neither can be made.
pub open spec fn asks(
    step: ToolStepView,
    server: ServerView,
    question: NodeQuestionView,
    path: Seq<char>,
) -> bool {
    match server.node_client {
        Some(_) => match base_url_fault(server.config.node_url) {
            None => step == ToolStepView::Node(question),
            Some(message) => step matches ToolStepView::Done(reply) && reply.is_error && reply.text
                == message,
        },
        None => gets(step, server, Plane::Node, path),
    }
}

/// Each tool for the cluster asks the brain for its own path.
pub proof fn the_cluster_is_asked_for(
    server: ServerView,
    env: Map<Seq<char>, Seq<char>>,
    placement: PlacementParams,
    route: RouteKeyParams,
)
    ensures
        gets(called(server, env, ToolCall::ClusterStatus), server, Plane::Brain, "/v1/status"@),
        gets(called(server, env, ToolCall::ClusterNodes), server, Plane::Brain, "/v1/nodes"@),
        placement.shard is None ==> gets(
            called(server, env, ToolCall::Placement(placement)),
            server,
            Plane::Brain,
            "/v1/placement"@,
        ),
        placement.shard matches Some(shard) ==> gets(
            called(server, env, ToolCall::Placement(placement)),
            server,
            Plane::Brain,
            "/v1/placement/"@ + decimal_of(shard as nat),
        ),
        gets(
            called(server, env, ToolCall::RouteKey(route)),
            server,
            Plane::Brain,
            "/v1/route?key="@ + urlencoded(route.key@),
        ),
{
}

/// Each tool for the node asks it its own question.
pub proof fn the_node_is_asked_for(
    server: ServerView,
    env: Map<Seq<char>, Seq<char>>,
    lock: LockGetParams,
    services: ServicesParams,
)
    ensures
        asks(
            called(server, env, ToolCall::NodeStatus),
            server,
            NodeQuestionView::Status,
            "/v1/status"@,
        ),
        asks(
            called(server, env, ToolCall::LockGet(lock)),
            server,
            NodeQuestionView::LockGet(lock.key@),
            "/v1/locks?key="@ + urlencoded(lock.key@),
        ),
        services.service is None ==> asks(
            called(server, env, ToolCall::Services(services)),
            server,
            NodeQuestionView::ServiceList,
            "/v1/services"@,
        ),
        services.service matches Some(service) ==> asks(
            called(server, env, ToolCall::Services(services)),
            server,
            NodeQuestionView::ServiceInstances(service@),
            "/v1/services/"@ + urlencoded(service@),
        ),
{
}

/// Exactly one of a key and a prefix is read; anything else is an error.
pub proof fn a_key_or_a_prefix_is_read(
    server: ServerView,
    env: Map<Seq<char>, Seq<char>>,
    params: KvGetParams,
)
    ensures
        match (params.key, params.prefix) {
            (Some(key), None) => asks(
                called(server, env, ToolCall::KvGet(params)),
                server,
                NodeQuestionView::KvGet(key@),
                "/v1/kv?key="@ + urlencoded(key@),
            ),
            (None, Some(prefix)) => asks(
                called(server, env, ToolCall::KvGet(params)),
                server,
                NodeQuestionView::KvList(prefix@),
                "/v1/kv?prefix="@ + urlencoded(prefix@),
            ),
            _ => called(server, env, ToolCall::KvGet(params)) matches ToolStepView::Done(reply)
                && reply.is_error && reply.text == "provide exactly one of `key` or `prefix`"@,
        },
{
}

/// The node is observed for locks, semaphores, elections, shards and metrics, in any
/// case and with white space around it, and for nothing else.
pub proof fn the_node_is_observed(
    server: ServerView,
    env: Map<Seq<char>, Seq<char>>,
    params: ObserveParams,
)
    ensures
        ({
            let what = lowered(trimmed(params.what@));
            let step = called(server, env, ToolCall::Observe(params));
            if what == "locks"@ || what == "semaphores"@ || what == "elections"@ || what
                == "shards"@ || what == "metrics"@ {
                gets(step, server, Plane::Node, "/v1/observe/"@ + what)
            } else {
                step matches ToolStepView::Done(reply) && reply.is_error && mentions(
                    reply.text,
                    debug_text(what),
                )
            }
        }),
{
    let what = lowered(trimmed(params.what@));
    let start = "unknown observe kind "@;
    let list = "[\"locks\", \"semaphores\", \"elections\", \"shards\", \"metrics\"]"@;
    lemma_mentions(start, debug_text(what), "; expected one of "@ + list);
    assert(start + debug_text(what) + ("; expected one of "@ + list) =~= unknown_kind(what));
}

/// The lease of a file is asked of the agent control plane, by its repository and its
/// path.
pub proof fn a_lease_is_asked_for(
    server: ServerView,
    env: Map<Seq<char>, Seq<char>>,
    params: FileLeaseParams,
)
    ensures
        gets(
            called(server, env, ToolCall::FileLease(params)),
            server,
            Plane::AgentControlPlane,
            "/v1/file-leases?repository="@ + urlencoded(params.repository@) + "&path="@
                + urlencoded(params.path@),
        ),
{
}

/// The map of the organisation is shown at once.
pub proof fn the_map_is_shown(server: ServerView, env: Map<Seq<char>, Seq<char>>)
    ensures
        called(server, env, ToolCall::RepoMap) matches ToolStepView::Done(reply) && !reply.is_error
            && reply.text == REPO_MAP@,
{
}

/// A domain is asked of `https://rdap.org`, without the white space around it and the
/// dots at its end; nothing is asked where nothing is left of it. The checks of DNS
/// records go to the resolver as they are given.
pub proof fn a_domain_is_asked_of_rdap(
    server: ServerView,
    env: Map<Seq<char>, Seq<char>>,
    domain: DomainParams,
    check: DnsCheckParams,
)
    ensures
        ({
            let meant = without_end(trimmed(domain.domain@), '.');
            let step = called(server, env, ToolCall::DomainRegistrarStatus(domain));
            if meant.len() > 0 {
                step == ToolStepView::Rdap(
                    RdapTaskView::First { base: "https://rdap.org"@, domain: meant },
                )
            } else {
                step matches ToolStepView::Done(reply) && reply.is_error && reply.text
                    == "`domain` is required"@
            }
        }),
        called(server, env, ToolCall::DnsCheck(check)) matches ToolStepView::Dns(input)
            && input.name == check.name && input.record_type == check.record_type && input.values
            == check.values && input.preset == check.preset,
{
}

/// What a tool for Cloudflare is given is what is asked of Cloudflare: the zones, the
/// records of the zone, the record to write, the record to delete.
pub proof fn cloudflare_is_asked_for_what_is_given(
    server: ServerView,
    env: Map<Seq<char>, Seq<char>>,
    zone: CloudflareZoneParams,
    record: CloudflareUpsertParams,
    gone: CloudflareDeleteParams,
)
    ensures
        ({
            let cf = server.cloudflare;
            let params = UpsertView {
                zone: record.zone@,
                record_type: record.record_type@,
                name: record.name@,
                content: record.content@,
                ttl: record.ttl,
                proxied: record.proxied,
            };
            &&& leads_to(
                called(server, env, ToolCall::CloudflareZones),
                cloudflare::sent(cf, TaskView::Zones),
            )
            &&& leads_to(
                called(server, env, ToolCall::CloudflareDnsRecords(zone)),
                cloudflare::in_zone(cf, zone.zone@, GoalView::Records),
            )
            &&& leads_to(
                called(server, env, ToolCall::CloudflareDnsUpsert(record)),
                cloudflare::upserted(cf, env, params),
            )
            &&& leads_to(
                called(server, env, ToolCall::CloudflareDnsDelete(gone)),
                cloudflare::deleted(cf, env, gone.zone@, gone.record_id@),
            )
        }),
{
}

/// Whether a step is this one of Cloudflare: the same request, or the reply that shows
/// its result.
pub open spec fn leads_to(step: ToolStepView, cf: CfStepView) -> bool {
    match cf {
        CfStepView::Send(request, task) => step == ToolStepView::Cloudflare(request, task),
        CfStepView::Done(Ok(tree)) => step matches ToolStepView::Done(reply) && !reply.is_error
            && reply.text == pretty_text_of_json(tree),
        CfStepView::Done(Err(message)) => step matches ToolStepView::Done(reply) && reply.is_error
            && reply.text == message,
    }
}

/// Whether a step is this one of `kubectl`: the same command, or the reply that shows
/// its result.
pub open spec fn runs(step: ToolStepView, k8s: StepView) -> bool {
    match k8s {
        StepView::Run(run) => step == ToolStepView::Kubectl(run),
        StepView::Done(Ok(tree)) => step matches ToolStepView::Done(reply) && !reply.is_error
            && reply.text == pretty_text_of_json(tree),
        StepView::Done(Err(message)) => step matches ToolStepView::Done(reply) && reply.is_error
            && reply.text == message,
    }
}

/// What a tool for Kubernetes is given is what is asked of `kubectl`. A namespace and
/// a number of events that are not given are left empty and zero.
pub proof fn kubectl_is_asked_for_what_is_given(
    server: ServerView,
    env: Map<Seq<char>, Seq<char>>,
    workloads: K8sWorkloadsParams,
    rollout: K8sRolloutParams,
    events: K8sEventsParams,
    service: K8sServiceParams,
    namespace: Seq<char>,
)
    requires
        match workloads.namespace {
            Some(given) => namespace == given@,
            None => namespace == ""@,
        },
        rollout.namespace == workloads.namespace,
        events.namespace == workloads.namespace,
        service.namespace == workloads.namespace,
    ensures
        called(server, env, ToolCall::K8sContexts) matches ToolStepView::Kubectl(
            RunStateView::ListContexts { allow },
        ) && allow == k8s::allowed_contexts(env),
        runs(
            called(server, env, ToolCall::K8sWorkloads(workloads)),
            k8s::asked(env, workloads.context@, QueryView::Workloads { namespace }),
        ),
        runs(
            called(server, env, ToolCall::K8sRolloutStatus(rollout)),
            k8s::asked(
                env,
                rollout.context@,
                QueryView::Rollout { kind: rollout.kind@, name: rollout.name@, namespace },
            ),
        ),
        events.last matches Some(last) ==> runs(
            called(server, env, ToolCall::K8sEvents(events)),
            k8s::asked(env, events.context@, QueryView::Events { namespace, last: last as nat }),
        ),
        events.last is None ==> runs(
            called(server, env, ToolCall::K8sEvents(events)),
            k8s::asked(env, events.context@, QueryView::Events { namespace, last: 0 }),
        ),
        runs(
            called(server, env, ToolCall::K8sServiceEndpoints(service)),
            k8s::asked(
                env,
                service.context@,
                QueryView::Endpoints { namespace, service: service.service@ },
            ),
        ),
{
}

/// What comes back is what is shown: the answer of a plane, of the client library and
/// of the resolver at once, and that of Cloudflare, of RDAP and of `kubectl` as their
/// next step says.
pub proof fn what_comes_back_is_shown(
    server: ServerView,
    request: GetRequestView,
    question: NodeQuestionView,
    input: DnsCheckInput,
    sent: CfRequestView,
    task: TaskView,
    rdap: RdapTaskView,
    run: RunStateView,
    http: HttpOutcomeView,
    result: Result<JsonView, Seq<char>>,
    answer: RdapOutcomeView,
    outcome: OutcomeView,
)
    ensures
        shows_result(
            advanced(server, ToolStepView::Get(request), ToolEventView::Http(http)),
            get_answer(request.url, http),
        ),
        shows_result(
            advanced(server, ToolStepView::Node(question), ToolEventView::Node(result)),
            result,
        ),
        shows_result(
            advanced(server, ToolStepView::Dns(input), ToolEventView::Dns(result)),
            result,
        ),
        leads_to(
            advanced(server, ToolStepView::Cloudflare(sent, task), ToolEventView::Http(http)),
            cloudflare::continued(server.cloudflare, task, http),
        ),
        match rdap_resumed(rdap, answer) {
            RdapStepView::Send(next) => advanced(
                server,
                ToolStepView::Rdap(rdap),
                ToolEventView::Rdap(answer),
            ) == ToolStepView::Rdap(next),
            RdapStepView::Done(shown) => shows_result(
                advanced(server, ToolStepView::Rdap(rdap), ToolEventView::Rdap(answer)),
                shown,
            ),
        },
        runs(
            advanced(server, ToolStepView::Kubectl(run), ToolEventView::Kubectl(outcome)),
            k8s::resumed(run, outcome),
        ),
{
}

/// Whether a step is the reply that shows this result.
pub open spec fn shows_result(step: ToolStepView, result: Result<JsonView, Seq<char>>) -> bool {
    step matches ToolStepView::Done(reply) && match result {
        Ok(tree) => !reply.is_error && reply.text == pretty_text_of_json(tree),
        Err(message) => reply.is_error && reply.text == message,
    }
}

} // verus!
