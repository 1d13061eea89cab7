//! Access to the upstream planes: configuration, base URLs, credentials, and
//! what a GET of a plane asks for and answers.
//!
//! Three planes, three auth conventions:
//! - node  (data plane):    `x-fiducia-internal-auth` + `x-fiducia-org-id`
//! - brain (control plane): `x-fiducia-internal-auth` only (not tenant-scoped)
//! - agent control plane:   `x-internal-auth`
//!
//! Where an API key is configured, node-plane requests carry
//! `Authorization: Bearer <key>` instead, for going through the load balancer.

use vstd::prelude::*;
use crate::env_map::{env_nonempty, nonempty_value, EnvMap};
use crate::http::{is_success_code, status_text, HttpOutcome, HttpOutcomeView, HttpStatus};
use crate::json::{json_or_text, parse_json_or_text, res_json_view, text_of_json, Json, JsonView};
use crate::text::{
    a_beginning_and_an_end, a_decimal_text_stands_for_its_number, a_split_text_is_joined_again,
    ascii_lower, begins_with, cat2, cat3, cat4, cat5, chars_of, control, decimal, decimal_of,
    decimal_value, digit, finishes_with, is_control, is_white_space, joined, lemma_mentions,
    lemma_split_one, lemma_split_parts, lowered, mentions, opt_string_view, res_str_view,
    res_unit_view, same_text, split, split_text, texts, trim, trim_end_char, trimmed, white_space,
    without_end,
};

verus! {

pub const NODE_URL_ENV: &'static str = "FIDUCIA_NODE_URL";

pub const BRAIN_URL_ENV: &'static str = "FIDUCIA_BRAIN_URL";

pub const AGENT_CP_URL_ENV: &'static str = "FIDUCIA_AGENT_CONTROL_PLANE_URL";

pub const INTERNAL_SECRET_ENV: &'static str = "FIDUCIA_INTERNAL_SECRET";

pub const ORG_ID_ENV: &'static str = "FIDUCIA_ORG_ID";

pub const CONTROL_PLANE_SECRET_ENV: &'static str = "FIDUCIA_CONTROL_PLANE_SECRET";

pub const API_KEY_ENV: &'static str = "FIDUCIA_API_KEY";

pub const DEFAULT_NODE_URL: &'static str = "http://localhost:8090";

pub const DEFAULT_BRAIN_URL: &'static str = "http://localhost:8095";

// ---------------------------------------------------------------- percent-encoding

/// Whether a byte stands for itself in a query string.
pub open spec fn is_unreserved(b: u8) -> bool {
    ||| 0x41 <= b <= 0x5a
    ||| 0x61 <= b <= 0x7a
    ||| 0x30 <= b <= 0x39
    ||| b == 0x2d
    ||| b == 0x5f
    ||| b == 0x2e
    ||| b == 0x7e
}

/// The hexadecimal digit, a capital from ten on, for a number below sixteen.
pub open spec fn hex_digit(n: int) -> char {
    if n < 10 {
        ((48 + n) as u8) as char
    } else {
        ((55 + n) as u8) as char
    }
}

/// A byte as it is written inside a query string.
pub open spec fn encoded_byte(b: u8) -> Seq<char> {
    if is_unreserved(b) {
        seq![b as char]
    } else {
        seq!['%', hex_digit(b as int / 16), hex_digit(b as int % 16)]
    }
}

/// Bytes as they are written inside a query string.
pub open spec fn percent_encoded(bytes: Seq<u8>) -> Seq<char>
    decreases bytes.len(),
{
    if bytes.len() == 0 {
        Seq::empty()
    } else {
        percent_encoded(bytes.drop_last()) + encoded_byte(bytes.last())
    }
}

/// A text as it is written inside a query string.
pub open spec fn urlencoded(s: Seq<char>) -> Seq<char> {
    percent_encoded(vstd::utf8::encode_utf8(s))
}

fn hex(n: u8) -> (r: char)
    requires
        n < 16,
    ensures
        r == hex_digit(n as int),
{
    if n < 10 {
        (48 + n) as char
    } else {
        (55 + n) as char
    }
}

/// Percent-encodes a value for use inside a query string.
pub fn urlencode(value: &str) -> (r: String)
    ensures
        r@ == urlencoded(value@),
{
    let bytes = value.as_bytes();
    let mut out = String::new();
    assert(bytes@.take(0) =~= Seq::<u8>::empty());
    for i in 0..bytes.len()
        invariant
            out@ == percent_encoded(bytes@.take(i as int)),
    {
        let b = bytes[i];
        let ghost before = out@;
        assert(bytes@.take(i + 1).drop_last() =~= bytes@.take(i as int));
        if (0x41 <= b && b <= 0x5a) || (0x61 <= b && b <= 0x7a) || (0x30 <= b && b <= 0x39) || b
            == 0x2d || b == 0x5f || b == 0x2e || b == 0x7e {
            out.push(b as char);
            assert(out@ =~= before + encoded_byte(b));
        } else {
            out.push('%');
            out.push(hex(b / 16));
            out.push(hex(b % 16));
            assert(out@ =~= before + encoded_byte(b));
        }
    }
    assert(bytes@.take(bytes@.len() as int) =~= bytes@);
    out
}

// ---------------------------------------------------------------- base URLs

/// The parts of an absolute URL that the rules on base URLs speak of.
#[derive(Debug)]
pub struct UrlParts {
    pub scheme: String,
    pub host: Option<String>,
    pub username: String,
    pub password: Option<String>,
    pub query: Option<String>,
    pub fragment: Option<String>,
}

/// What [`UrlParts`] stand for.
pub struct UrlView {
    pub scheme: Seq<char>,
    pub host: Option<Seq<char>>,
    pub username: Seq<char>,
    pub password: Option<Seq<char>>,
    pub query: Option<Seq<char>>,
    pub fragment: Option<Seq<char>>,
}

impl View for UrlParts {
    type V = UrlView;

    open spec fn view(&self) -> UrlView {
        UrlView {
            scheme: self.scheme@,
            host: opt_string_view(self.host),
            username: self.username@,
            password: opt_string_view(self.password),
            query: opt_string_view(self.query),
            fragment: opt_string_view(self.fragment),
        }
    }
}

/// What `reqwest::Url::parse` reads from a text: the parts of the URL, or
/// nothing where the text is not an absolute URL.
pub uninterp spec fn url_of_text(text: Seq<char>) -> Option<UrlView>;

/// `reqwest::Url::parse` and the accessors of the parsed URL. The result is a
/// function of the text alone and has the name `url_of_text`; which texts are
/// URLs and where their parts begin and end is not stated.
#[verifier::external_body]
fn read_url(text: &str) -> (r: Option<UrlParts>)
    ensures
        r is Some <==> url_of_text(text@) is Some,
        r matches Some(parts) ==> parts@ == url_of_text(text@)->0,
{
    let url = reqwest::Url::parse(text).ok()?;
    Some(UrlParts {
        scheme: url.scheme().to_string(),
        host: url.host_str().map(str::to_string),
        username: url.username().to_string(),
        password: url.password().map(str::to_string),
        query: url.query().map(str::to_string),
        fragment: url.fragment().map(str::to_string),
    })
}

/// The number that a text of decimal digits stands for.
pub open spec fn digits_value(s: Seq<char>) -> int
    decreases s.len(),
{
    if s.len() == 0 {
        0
    } else {
        digits_value(s.drop_last()) * 10 + (s.last() as int - '0' as int)
    }
}

/// Whether a text is one number of a dotted IPv4 address: at most 255, in
/// decimal digits without a leading zero.
pub open spec fn is_octet(s: Seq<char>) -> bool {
    &&& 1 <= s.len() <= 3
    &&& forall|i: int| 0 <= i < s.len() ==> '0' <= #[trigger] s[i] <= '9'
    &&& s.len() > 1 ==> s[0] != '0'
    &&& digits_value(s) <= 255
}

/// Whether a host is the unspecified IPv4 address or a link-local one
/// (`169.254.0.0/16`). The host of a URL writes an IPv6 address in brackets,
/// which makes it no address by itself.
pub open spec fn is_blocked_address(host: Seq<char>) -> bool {
    let parts = split(host, '.');
    ||| host == "0.0.0.0"@
    ||| parts.len() == 4 && parts[0] == "169"@ && parts[1] == "254"@ && is_octet(parts[2])
        && is_octet(parts[3])
}

/// Whether a host is the name of a cloud metadata service.
pub open spec fn is_metadata_name(host: Seq<char>) -> bool {
    let name = lowered(without_end(host, '.'));
    name == "metadata.google.internal"@ || name == "metadata.azure.internal"@
}

/// What is wrong with a base URL that has these parts.
pub open spec fn parts_fault(url: UrlView) -> Option<Seq<char>> {
    if !(url.scheme == "http"@ || url.scheme == "https"@) || url.host is None {
        Some("upstream base URL must use http(s) and include a host"@)
    } else if url.username.len() > 0 || url.password is Some {
        Some("upstream base URL must not contain credentials"@)
    } else if url.query is Some || url.fragment is Some {
        Some("upstream base URL must not contain a query or fragment"@)
    } else if is_blocked_address(url.host->0) || is_metadata_name(url.host->0) {
        Some("cloud metadata endpoints are not allowed"@)
    } else {
        None
    }
}

/// Whether a trimmed base URL is too long or holds a character that no URL has.
pub open spec fn has_invalid_characters(url: Seq<char>) -> bool {
    ||| vstd::utf8::encode_utf8(url).len() > 2048
    ||| exists|i: int| 0 <= i < url.len() && (is_control(#[trigger] url[i]) || is_white_space(url[i]))
}

/// What is wrong with a base URL.
pub open spec fn base_url_fault(raw: Seq<char>) -> Option<Seq<char>> {
    let url = trimmed(raw);
    if has_invalid_characters(url) {
        Some("upstream base URL contains invalid characters"@)
    } else {
        match url_of_text(url) {
            None => Some("upstream base URL is invalid"@),
            Some(parts) => parts_fault(parts),
        }
    }
}

/// A fault as the result of a check.
pub open spec fn checked(fault: Option<Seq<char>>) -> Result<(), Seq<char>> {
    match fault {
        Some(message) => Err(message),
        None => Ok(()),
    }
}

fn octet(s: &str) -> (r: bool)
    ensures
        r == is_octet(s@),
{
    let chars = chars_of(s);
    let n = chars.len();
    if n == 0 || n > 3 || (n > 1 && chars[0] == '0') {
        return false;
    }
    let mut value: u32 = 0;
    assert(s@.take(0) =~= Seq::<char>::empty());
    for i in 0..n
        invariant
            chars@ == s@,
            n == chars@.len(),
            n <= 3,
            value == digits_value(s@.take(i as int)),
            i == 0 ==> value == 0,
            i == 1 ==> value <= 9,
            i == 2 ==> value <= 99,
            i == 3 ==> value <= 999,
            forall|k: int| 0 <= k < i ==> '0' <= #[trigger] s@[k] <= '9',
    {
        let c = chars[i];
        if !('0' <= c && c <= '9') {
            return false;
        }
        assert(s@.take(i + 1).drop_last() =~= s@.take(i as int));
        value = value * 10 + (c as u32 - '0' as u32);
    }
    assert(s@.take(n as int) =~= s@);
    value <= 255
}

fn blocked_address(host: &str) -> (r: bool)
    ensures
        r == is_blocked_address(host@),
{
    if same_text(host, "0.0.0.0") {
        return true;
    }
    let parts = split_text(host, '.');
    let ghost all = texts(parts@);
    parts.len() == 4 && same_text(parts[0].as_str(), "169") && same_text(parts[1].as_str(), "254")
        && octet(parts[2].as_str()) && octet(parts[3].as_str())
}

fn metadata_name(host: &str) -> (r: bool)
    ensures
        r == is_metadata_name(host@),
{
    let name = ascii_lower(trim_end_char(host, '.'));
    same_text(name.as_str(), "metadata.google.internal") || same_text(
        name.as_str(),
        "metadata.azure.internal",
    )
}

/// Checks the parts of a base URL: http(s) with a host, no credentials, no
/// query, no fragment, and no cloud metadata endpoint.
pub fn check_url_parts(url: &UrlParts) -> (r: Result<(), String>)
    ensures
        res_unit_view(r) == checked(parts_fault(url@)),
{
    let web = same_text(url.scheme.as_str(), "http") || same_text(url.scheme.as_str(), "https");
    match &url.host {
        Some(host) if web => {
            if !url.username.as_str().is_empty() || url.password.is_some() {
                return Err("upstream base URL must not contain credentials".to_string());
            }
            if url.query.is_some() || url.fragment.is_some() {
                return Err("upstream base URL must not contain a query or fragment".to_string());
            }
            if blocked_address(host.as_str()) || metadata_name(host.as_str()) {
                return Err("cloud metadata endpoints are not allowed".to_string());
            }
            Ok(())
        },
        _ => Err("upstream base URL must use http(s) and include a host".to_string()),
    }
}

fn invalid_characters(url: &str) -> (r: bool)
    ensures
        r == has_invalid_characters(url@),
{
    if url.as_bytes().len() > 2048 {
        return true;
    }
    let chars = chars_of(url);
    for i in 0..chars.len()
        invariant
            chars@ == url@,
            forall|k: int| 0 <= k < i ==> !is_control(#[trigger] url@[k]) && !is_white_space(url@[k]),
    {
        if control(chars[i]) || white_space(chars[i]) {
            assert(is_control(url@[i as int]) || is_white_space(url@[i as int]));
            return true;
        }
    }
    false
}

/// Checks a base URL before anything is sent to it.
pub fn validate_base_url(raw: &str) -> (r: Result<(), String>)
    ensures
        res_unit_view(r) == checked(base_url_fault(raw@)),
{
    let url = trim(raw);
    if invalid_characters(url) {
        return Err("upstream base URL contains invalid characters".to_string());
    }
    match read_url(url) {
        Some(parts) => check_url_parts(&parts),
        None => Err("upstream base URL is invalid".to_string()),
    }
}

// ---------------------------------------------------------------- configuration

/// A group of upstream services with one base URL and one way to authenticate.
#[derive(Debug, Clone, Copy, PartialEq, Eq, Structural)]
pub enum Plane {
    Node,
    Brain,
    AgentControlPlane,
}

/// Where the planes are and what authenticates a request to them.
#[derive(Debug)]
pub struct Config {
    pub node_url: String,
    pub brain_url: String,
    pub agent_cp_url: Option<String>,
    pub internal_secret: Option<String>,
    pub org_id: Option<String>,
    pub control_plane_secret: Option<String>,
    pub api_key: Option<String>,
}

/// What a [`Config`] stands for.
pub struct ConfigView {
    pub node_url: Seq<char>,
    pub brain_url: Seq<char>,
    pub agent_cp_url: Option<Seq<char>>,
    pub internal_secret: Option<Seq<char>>,
    pub org_id: Option<Seq<char>>,
    pub control_plane_secret: Option<Seq<char>>,
    pub api_key: Option<Seq<char>>,
}

impl View for Config {
    type V = ConfigView;

    open spec fn view(&self) -> ConfigView {
        ConfigView {
            node_url: self.node_url@,
            brain_url: self.brain_url@,
            agent_cp_url: opt_string_view(self.agent_cp_url),
            internal_secret: opt_string_view(self.internal_secret),
            org_id: opt_string_view(self.org_id),
            control_plane_secret: opt_string_view(self.control_plane_secret),
            api_key: opt_string_view(self.api_key),
        }
    }
}

/// The value, or `default` where there is none.
pub open spec fn or_default(value: Option<Seq<char>>, default: Seq<char>) -> Seq<char> {
    match value {
        Some(v) => v,
        None => default,
    }
}

/// The value, or `other` where there is none.
pub open spec fn or_else(value: Option<Seq<char>>, other: Option<Seq<char>>) -> Option<Seq<char>> {
    match value {
        Some(v) => Some(v),
        None => other,
    }
}

/// The configuration that an environment holds.
pub open spec fn config_of_env(env: Map<Seq<char>, Seq<char>>) -> ConfigView {
    ConfigView {
        node_url: or_default(nonempty_value(env, NODE_URL_ENV@), DEFAULT_NODE_URL@),
        brain_url: or_default(nonempty_value(env, BRAIN_URL_ENV@), DEFAULT_BRAIN_URL@),
        agent_cp_url: nonempty_value(env, AGENT_CP_URL_ENV@),
        internal_secret: nonempty_value(env, INTERNAL_SECRET_ENV@),
        org_id: nonempty_value(env, ORG_ID_ENV@),
        control_plane_secret: or_else(
            nonempty_value(env, CONTROL_PLANE_SECRET_ENV@),
            nonempty_value(env, INTERNAL_SECRET_ENV@),
        ),
        api_key: nonempty_value(env, API_KEY_ENV@),
    }
}

/// The message for a missing URL of the agent control plane.
pub open spec fn no_agent_url() -> Seq<char> {
    AGENT_CP_URL_ENV@
        + " is not set; point it at the fiducia-ai-agent-control-plane base URL to use file-lease tools"@
}

/// The base URL of a plane without the slashes at its end, or why it cannot be used.
pub open spec fn plane_url(config: ConfigView, plane: Plane) -> Result<Seq<char>, Seq<char>> {
    let url = match plane {
        Plane::Node => Some(config.node_url),
        Plane::Brain => Some(config.brain_url),
        Plane::AgentControlPlane => config.agent_cp_url,
    };
    match url {
        None => Err(no_agent_url()),
        Some(url) => match base_url_fault(url) {
            Some(message) => Err(message),
            None => Ok(without_end(url, '/')),
        },
    }
}

/// The message for missing credentials of the node plane.
pub open spec fn no_node_credentials() -> Seq<char> {
    "no credentials for the node data plane: set "@ + API_KEY_ENV@ + " (via load balancer) or "@
        + INTERNAL_SECRET_ENV@ + " + "@ + ORG_ID_ENV@ + " (direct to a node)"@
}

/// The message for a missing organisation in direct node requests.
pub open spec fn no_org() -> Seq<char> {
    ORG_ID_ENV@ + " is required for direct node calls (x-fiducia-org-id)"@
}

/// The message for missing credentials of the brain.
pub open spec fn no_brain_secret() -> Seq<char> {
    INTERNAL_SECRET_ENV@ + " is required for brain (control plane) calls"@
}

/// The message for missing credentials of the agent control plane.
pub open spec fn no_agent_secret() -> Seq<char> {
    CONTROL_PLANE_SECRET_ENV@ + " (or "@ + INTERNAL_SECRET_ENV@
        + ") is required for ai-agent control plane calls"@
}

/// The headers that authenticate a request to a plane, or what is missing.
pub open spec fn plane_headers(config: ConfigView, plane: Plane) -> Result<
    Seq<(Seq<char>, Seq<char>)>,
    Seq<char>,
> {
    match plane {
        Plane::Node => match (config.api_key, config.internal_secret, config.org_id) {
            (Some(key), _, _) => Ok(seq![("authorization"@, "Bearer "@ + key)]),
            (None, None, _) => Err(no_node_credentials()),
            (None, Some(_), None) => Err(no_org()),
            (None, Some(secret), Some(org)) => Ok(
                seq![("x-fiducia-internal-auth"@, secret), ("x-fiducia-org-id"@, org)],
            ),
        },
        Plane::Brain => match config.internal_secret {
            Some(secret) => Ok(seq![("x-fiducia-internal-auth"@, secret)]),
            None => Err(no_brain_secret()),
        },
        Plane::AgentControlPlane => match config.control_plane_secret {
            Some(secret) => Ok(seq![("x-internal-auth"@, secret)]),
            None => Err(no_agent_secret()),
        },
    }
}

/// What a list of headers stands for.
pub open spec fn headers_view(list: Seq<(&'static str, String)>) -> Seq<(Seq<char>, Seq<char>)> {
    list.map_values(|h: (&'static str, String)| (h.0@, h.1@))
}

/// What a list of headers or a message stands for.
pub open spec fn res_headers_view(r: Result<Vec<(&'static str, String)>, String>) -> Result<
    Seq<(Seq<char>, Seq<char>)>,
    Seq<char>,
> {
    match r {
        Ok(list) => Ok(headers_view(list@)),
        Err(message) => Err(message@),
    }
}

impl Default for Config {
    fn default() -> (r: Self)
        ensures
            r@ == (ConfigView {
                node_url: Seq::empty(),
                brain_url: Seq::empty(),
                agent_cp_url: None,
                internal_secret: None,
                org_id: None,
                control_plane_secret: None,
                api_key: None,
            }),
    {
        Config {
            node_url: String::new(),
            brain_url: String::new(),
            agent_cp_url: None,
            internal_secret: None,
            org_id: None,
            control_plane_secret: None,
            api_key: None,
        }
    }
}

impl Clone for Config {
    fn clone(&self) -> (r: Self)
        ensures
            r@ == self@,
    {
        Config {
            node_url: self.node_url.clone(),
            brain_url: self.brain_url.clone(),
            agent_cp_url: clone_opt(&self.agent_cp_url),
            internal_secret: clone_opt(&self.internal_secret),
            org_id: clone_opt(&self.org_id),
            control_plane_secret: clone_opt(&self.control_plane_secret),
            api_key: clone_opt(&self.api_key),
        }
    }
}

fn clone_opt(value: &Option<String>) -> (r: Option<String>)
    ensures
        opt_string_view(r) == opt_string_view(*value),
{
    match value {
        Some(v) => Some(v.clone()),
        None => None,
    }
}

fn agent_url_missing() -> (r: String)
    ensures
        r@ == no_agent_url(),
{
    cat2(
        AGENT_CP_URL_ENV,
        " is not set; point it at the fiducia-ai-agent-control-plane base URL to use file-lease tools",
    )
}

impl Config {
    /// The configuration that the environment `env` holds. A variable that is
    /// only white space counts as missing. The secret of the agent control
    /// plane falls back to the internal secret.
    pub fn from_env(env: &EnvMap) -> (r: Config)
        ensures
            r@ == config_of_env(env@),
    {
        let control_plane_secret = match env_nonempty(env, CONTROL_PLANE_SECRET_ENV) {
            Some(secret) => Some(secret),
            None => env_nonempty(env, INTERNAL_SECRET_ENV),
        };
        Config {
            node_url: match env_nonempty(env, NODE_URL_ENV) {
                Some(url) => url,
                None => DEFAULT_NODE_URL.to_string(),
            },
            brain_url: match env_nonempty(env, BRAIN_URL_ENV) {
                Some(url) => url,
                None => DEFAULT_BRAIN_URL.to_string(),
            },
            agent_cp_url: env_nonempty(env, AGENT_CP_URL_ENV),
            internal_secret: env_nonempty(env, INTERNAL_SECRET_ENV),
            org_id: env_nonempty(env, ORG_ID_ENV),
            control_plane_secret,
            api_key: env_nonempty(env, API_KEY_ENV),
        }
    }

    /// The base URL of a plane without the slashes at its end.
    pub fn base_url(&self, plane: Plane) -> (r: Result<&str, String>)
        ensures
            res_str_view(r) == plane_url(self@, plane),
    {
        let url = match plane {
            Plane::Node => self.node_url.as_str(),
            Plane::Brain => self.brain_url.as_str(),
            Plane::AgentControlPlane => match &self.agent_cp_url {
                Some(url) => url.as_str(),
                None => {
                    return Err(agent_url_missing());
                },
            },
        };
        match validate_base_url(url) {
            Ok(_) => Ok(trim_end_char(url, '/')),
            Err(message) => Err(message),
        }
    }

    /// The headers that authenticate a request to a plane, as (name, value)
    /// pairs. An API key wins on the node plane: the load balancer strips the
    /// internal headers of clients anyway.
    pub fn headers(&self, plane: Plane) -> (r: Result<Vec<(&'static str, String)>, String>)
        ensures
            res_headers_view(r) == plane_headers(self@, plane),
    {
        let mut out: Vec<(&'static str, String)> = Vec::new();
        let ghost want = plane_headers(self@, plane);
        match plane {
            Plane::Node => {
                if let Some(key) = &self.api_key {
                    out.push(("authorization", cat2("Bearer ", key.as_str())));
                    assert(headers_view(out@) =~= want->Ok_0);
                    return Ok(out);
                }
                let secret = match &self.internal_secret {
                    Some(secret) => secret,
                    None => {
                        let start = cat5(
                            "no credentials for the node data plane: set ",
                            API_KEY_ENV,
                            " (via load balancer) or ",
                            INTERNAL_SECRET_ENV,
                            " + ",
                        );
                        return Err(cat3(start.as_str(), ORG_ID_ENV, " (direct to a node)"));
                    },
                };
                let org = match &self.org_id {
                    Some(org) => org,
                    None => {
                        return Err(
                            cat2(
                                ORG_ID_ENV,
                                " is required for direct node calls (x-fiducia-org-id)",
                            ),
                        );
                    },
                };
                out.push(("x-fiducia-internal-auth", secret.clone()));
                out.push(("x-fiducia-org-id", org.clone()));
                assert(headers_view(out@) =~= want->Ok_0);
            },
            Plane::Brain => {
                let secret = match &self.internal_secret {
                    Some(secret) => secret,
                    None => {
                        return Err(
                            cat2(
                                INTERNAL_SECRET_ENV,
                                " is required for brain (control plane) calls",
                            ),
                        );
                    },
                };
                out.push(("x-fiducia-internal-auth", secret.clone()));
                assert(headers_view(out@) =~= want->Ok_0);
            },
            Plane::AgentControlPlane => {
                let secret = match &self.control_plane_secret {
                    Some(secret) => secret,
                    None => {
                        return Err(
                            cat4(
                                CONTROL_PLANE_SECRET_ENV,
                                " (or ",
                                INTERNAL_SECRET_ENV,
                                ") is required for ai-agent control plane calls",
                            ),
                        );
                    },
                };
                out.push(("x-internal-auth", secret.clone()));
                assert(headers_view(out@) =~= want->Ok_0);
            },
        }
        Ok(out)
    }
}

// ---------------------------------------------------------------- requests

/// A GET request: the URL and the headers to send.
pub struct GetRequest {
    pub url: String,
    pub headers: Vec<(&'static str, String)>,
}

/// What a [`GetRequest`] stands for.
pub struct GetRequestView {
    pub url: Seq<char>,
    pub headers: Seq<(Seq<char>, Seq<char>)>,
}

impl View for GetRequest {
    type V = GetRequestView;

    open spec fn view(&self) -> GetRequestView {
        GetRequestView { url: self.url@, headers: headers_view(self.headers@) }
    }
}

/// Whether the base URL of a plane is set. Only that of the agent control plane
/// has no default.
pub open spec fn has_url(config: ConfigView, plane: Plane) -> bool {
    plane == Plane::AgentControlPlane ==> config.agent_cp_url is Some
}

/// The request for a path of a plane, or why it cannot be made. A base URL that is
/// not set is reported first, then missing credentials, then what is wrong with the
/// base URL that is set.
pub open spec fn plane_request(config: ConfigView, plane: Plane, path: Seq<char>) -> Result<
    GetRequestView,
    Seq<char>,
> {
    if !has_url(config, plane) {
        Err(no_agent_url())
    } else {
        match plane_headers(config, plane) {
            Err(message) => Err(message),
            Ok(headers) => match plane_url(config, plane) {
                Err(message) => Err(message),
                Ok(base) => Ok(GetRequestView { url: base + path, headers }),
            },
        }
    }
}

/// What a request or a message stands for.
pub open spec fn res_request_view(r: Result<GetRequest, String>) -> Result<
    GetRequestView,
    Seq<char>,
> {
    match r {
        Ok(request) => Ok(request@),
        Err(message) => Err(message@),
    }
}

/// What the exchange with `url` amounts to: the body as JSON (or as a JSON
/// string where it is not JSON), or a message. The message for a status that
/// reports no success carries the body.
pub open spec fn get_answer(url: Seq<char>, outcome: HttpOutcomeView) -> Result<
    JsonView,
    Seq<char>,
> {
    match outcome {
        HttpOutcomeView::Unsent(e) => Err("request to "@ + url + " failed: "@ + e),
        HttpOutcomeView::Unread(e) => Err("reading response from "@ + url + " failed: "@ + e),
        HttpOutcomeView::Reply(code, body) => judged_answer(url, code, json_or_text(body)),
    }
}

/// What an answer with this status and this body amounts to.
pub open spec fn judged_answer(url: Seq<char>, code: u16, body: JsonView) -> Result<
    JsonView,
    Seq<char>,
> {
    if is_success_code(code) {
        Ok(body)
    } else {
        Err(url + " returned "@ + status_text(code) + ": "@ + text_of_json(body))
    }
}

impl GetRequest {
    /// What the exchange amounts to.
    pub fn answer(&self, outcome: &HttpOutcome) -> (r: Result<Json, String>)
        ensures
            res_json_view(r) == get_answer(self@.url, outcome@),
    {
        let url = self.url.as_str();
        match outcome {
            HttpOutcome::Unsent(e) => Err(cat4("request to ", url, " failed: ", e.as_str())),
            HttpOutcome::Unread(e) => Err(
                cat4("reading response from ", url, " failed: ", e.as_str()),
            ),
            HttpOutcome::Reply(status, body) => self.judge(
                status,
                parse_json_or_text(body.as_str()),
            ),
        }
    }

    /// What an answer with this status and this body amounts to.
    pub fn judge(&self, status: &HttpStatus, body: Json) -> (r: Result<Json, String>)
        ensures
            res_json_view(r) == judged_answer(self@.url, status@, body@),
    {
        if status.is_success() {
            Ok(body)
        } else {
            Err(
                cat5(
                    self.url.as_str(),
                    " returned ",
                    status.line().as_str(),
                    ": ",
                    body.to_text().as_str(),
                ),
            )
        }
    }
}

/// What the client library of the node plane is set up with: base URL, secret
/// and organisation.
pub struct NodeClient {
    pub base_url: String,
    pub internal_secret: String,
    pub org_id: String,
}

/// What a [`NodeClient`] stands for.
pub struct NodeClientView {
    pub base_url: Seq<char>,
    pub internal_secret: Seq<char>,
    pub org_id: Seq<char>,
}

impl View for NodeClient {
    type V = NodeClientView;

    open spec fn view(&self) -> NodeClientView {
        NodeClientView {
            base_url: self.base_url@,
            internal_secret: self.internal_secret@,
            org_id: self.org_id@,
        }
    }
}

/// What a node client that may be missing stands for.
pub open spec fn opt_client_view(c: Option<NodeClient>) -> Option<NodeClientView> {
    match c {
        Some(c) => Some(c@),
        None => None,
    }
}

/// The node client that a configuration calls for: only in internal mode, that
/// is with a secret and an organisation and without an API key, and only for a
/// base URL that may be used.
pub open spec fn node_client_of(config: ConfigView) -> Option<NodeClientView> {
    match (config.api_key, config.internal_secret, config.org_id) {
        (None, Some(internal_secret), Some(org_id)) => if base_url_fault(config.node_url) is None {
            Some(NodeClientView { base_url: config.node_url, internal_secret, org_id })
        } else {
            None
        },
        _ => None,
    }
}

/// The upstream planes under one configuration.
pub struct Upstream {
    pub node_client: Option<NodeClient>,
    pub config: Config,
}

/// How a question to the node plane is put.
pub enum NodeRoute {
    /// Through the client library, set up in [`Upstream::node_client`].
    Client,
    /// By a plain GET.
    Get(GetRequest),
}

/// What a [`NodeRoute`] stands for.
pub enum NodeRouteView {
    Client,
    Get(GetRequestView),
}

impl View for NodeRoute {
    type V = NodeRouteView;

    open spec fn view(&self) -> NodeRouteView {
        match self {
            NodeRoute::Client => NodeRouteView::Client,
            NodeRoute::Get(request) => NodeRouteView::Get(request@),
        }
    }
}

/// What a route or a message stands for.
pub open spec fn res_route_view(r: Result<NodeRoute, String>) -> Result<NodeRouteView, Seq<char>> {
    match r {
        Ok(route) => Ok(route@),
        Err(message) => Err(message@),
    }
}

/// How a question to the node plane is put, or why it cannot be.
pub open spec fn node_route(
    config: ConfigView,
    client: Option<NodeClientView>,
    path: Seq<char>,
) -> Result<NodeRouteView, Seq<char>> {
    match client {
        Some(_) => match base_url_fault(config.node_url) {
            Some(message) => Err(message),
            None => Ok(NodeRouteView::Client),
        },
        None => match plane_request(config, Plane::Node, path) {
            Ok(request) => Ok(NodeRouteView::Get(request)),
            Err(message) => Err(message),
        },
    }
}

impl Upstream {
    /// The planes under `config`, with a node client in internal mode.
    pub fn new(config: Config) -> (r: Upstream)
        ensures
            r.config@ == config@,
            opt_client_view(r.node_client) == node_client_of(config@),
    {
        let usable = validate_base_url(config.node_url.as_str()).is_ok();
        let node_client = match (&config.api_key, &config.internal_secret, &config.org_id) {
            (None, Some(secret), Some(org)) if usable => Some(
                NodeClient {
                    base_url: config.node_url.clone(),
                    internal_secret: secret.clone(),
                    org_id: org.clone(),
                },
            ),
            _ => None,
        };
        Upstream { node_client, config }
    }

    /// How to put a question to the node plane: through the client library in
    /// internal mode, else by a GET of `fallback_path`.
    pub fn node_call(&self, fallback_path: &str) -> (r: Result<NodeRoute, String>)
        ensures
            res_route_view(r) == node_route(
                self.config@,
                opt_client_view(self.node_client),
                fallback_path@,
            ),
    {
        match &self.node_client {
            Some(_) => match validate_base_url(self.config.node_url.as_str()) {
                Ok(_) => Ok(NodeRoute::Client),
                Err(message) => Err(message),
            },
            None => match self.get_json(Plane::Node, fallback_path) {
                Ok(request) => Ok(NodeRoute::Get(request)),
                Err(message) => Err(message),
            },
        }
    }

    /// The GET request for a path (and query) of a plane, with the plane's auth
    /// headers.
    pub fn get_json(&self, plane: Plane, path_and_query: &str) -> (r: Result<GetRequest, String>)
        ensures
            res_request_view(r) == plane_request(self.config@, plane, path_and_query@),
    {
        if let (Plane::AgentControlPlane, None) = (plane, &self.config.agent_cp_url) {
            return Err(agent_url_missing());
        }
        let headers = match self.config.headers(plane) {
            Ok(headers) => headers,
            Err(message) => {
                return Err(message);
            },
        };
        match self.config.base_url(plane) {
            Ok(base) => Ok(GetRequest { url: cat2(base, path_and_query), headers }),
            Err(message) => Err(message),
        }
    }
}

/// What went wrong in the client library of the node plane.
#[derive(Debug)]
pub enum ClientError {
    /// The node answered with this status and, maybe, this body.
    Http { status: u16, body: Option<Json> },
    /// The node was not reached.
    Transport(String),
    /// The call did not come back.
    Task(String),
}

/// The message for an error of the node client.
pub open spec fn client_error_text(error: ClientError) -> Seq<char> {
    match error {
        ClientError::Http { status, body } => "node returned "@ + decimal_of(status as nat) + ": "@ + (match body {
            Some(tree) => text_of_json(tree@),
            None => "(empty body)"@,
        }),
        ClientError::Transport(message) => "node request failed: "@ + message@,
        ClientError::Task(message) => "node client task failed: "@ + message@,
    }
}

/// Renders an error of the node client as the GET path renders HTTP failures:
/// with the body, which is structured and worth showing.
pub fn format_client_error(error: &ClientError) -> (r: String)
    ensures
        r@ == client_error_text(*error),
{
    match error {
        ClientError::Http { status, body } => {
            let shown = match body {
                Some(tree) => tree.to_text(),
                None => "(empty body)".to_string(),
            };
            cat4(
                "node returned ",
                decimal(*status as u64).as_str(),
                ": ",
                shown.as_str(),
            )
        },
        ClientError::Transport(message) => cat2("node request failed: ", message.as_str()),
        ClientError::Task(message) => cat2("node client task failed: ", message.as_str()),
    }
}

// ---------------------------------------------------------------- laws

/// The number that a hexadecimal digit stands for.
pub open spec fn hex_value(c: char) -> int {
    if '0' <= c && c <= '9' {
        c as int - '0' as int
    } else {
        c as int - 'A' as int + 10
    }
}

/// The bytes that a percent-encoded text stands for.
pub open spec fn percent_decoded(s: Seq<char>) -> Seq<u8>
    decreases s.len(),
{
    if s.len() == 0 {
        Seq::empty()
    } else if s[0] == '%' && s.len() >= 3 {
        seq![(hex_value(s[1]) * 16 + hex_value(s[2])) as u8] + percent_decoded(s.skip(3))
    } else {
        seq![s[0] as u8] + percent_decoded(s.skip(1))
    }
}

/// Decoding what was encoded gives the text back, so no two texts are encoded
/// alike.
pub proof fn percent_encoding_is_undone(s: Seq<char>)
    ensures
        vstd::utf8::decode_utf8(percent_decoded(urlencoded(s))) == s,
{
    lemma_percent_decoded(vstd::utf8::encode_utf8(s));
    vstd::utf8::encode_utf8_decode_utf8(s);
}

proof fn lemma_percent_decoded(bytes: Seq<u8>)
    ensures
        percent_decoded(percent_encoded(bytes)) == bytes,
    decreases bytes.len(),
{
    if bytes.len() > 0 {
        let b = bytes[0];
        let rest = bytes.skip(1);
        lemma_percent_decoded(rest);
        lemma_percent_encoded_front(bytes);
        let s = percent_encoded(bytes);
        let one = encoded_byte(b);
        assert(s =~= one + percent_encoded(rest));
        assert(s.skip(one.len() as int) =~= percent_encoded(rest));
        lemma_one_byte(b);
        assert(s[0] == one[0]);
        if !is_unreserved(b) {
            assert(s[1] == one[1] && s[2] == one[2]);
        }
        assert(percent_decoded(s) =~= seq![b] + percent_decoded(percent_encoded(rest)));
        assert(seq![b] + rest =~= bytes);
    } else {
        assert(percent_decoded(percent_encoded(bytes)) =~= bytes);
    }
}

proof fn lemma_one_byte(b: u8)
    ensures
        is_unreserved(b) ==> b as char != '%' && (b as char) as u8 == b,
        (hex_value(hex_digit(b as int / 16)) * 16 + hex_value(hex_digit(b as int % 16))) as u8 == b,
{
    let high = b as int / 16;
    let low = b as int % 16;
    assert(0 <= high < 16 && 0 <= low < 16 && high * 16 + low == b);
    lemma_hex_digit(high);
    lemma_hex_digit(low);
}

proof fn lemma_hex_digit(n: int)
    requires
        0 <= n < 16,
    ensures
        hex_value(hex_digit(n)) == n,
{
}

proof fn lemma_percent_encoded_front(bytes: Seq<u8>)
    requires
        bytes.len() > 0,
    ensures
        percent_encoded(bytes) == encoded_byte(bytes[0]) + percent_encoded(bytes.skip(1)),
    decreases bytes.len(),
{
    if bytes.len() == 1 {
        assert(bytes.drop_last() =~= Seq::empty());
        assert(bytes.skip(1) =~= Seq::empty());
        assert(percent_encoded(bytes) =~= encoded_byte(bytes[0]) + percent_encoded(bytes.skip(1)));
    } else {
        lemma_percent_encoded_front(bytes.drop_last());
        assert(bytes.drop_last().skip(1) =~= bytes.skip(1).drop_last());
        assert(percent_encoded(bytes) =~= encoded_byte(bytes[0]) + percent_encoded(bytes.skip(1)));
    }
}

/// Whether a character may stand in an encoded text.
pub open spec fn is_encoded_char(c: char) -> bool {
    c == '%' || exists|b: u8| is_unreserved(b) && c == #[trigger] (b as char)
}

/// An encoded text holds only letters, digits, `-`, `_`, `.`, `~` and `%`, so it
/// cannot end the value of a query or begin another.
pub proof fn an_encoded_text_stays_in_its_place(s: Seq<char>, i: int)
    requires
        0 <= i < urlencoded(s).len(),
    ensures
        is_encoded_char(urlencoded(s)[i]),
{
    lemma_encoded_chars(vstd::utf8::encode_utf8(s), i);
}

proof fn lemma_encoded_chars(bytes: Seq<u8>, i: int)
    requires
        0 <= i < percent_encoded(bytes).len(),
    ensures
        is_encoded_char(percent_encoded(bytes)[i]),
    decreases bytes.len(),
{
    let start = percent_encoded(bytes.drop_last());
    if i < start.len() {
        lemma_encoded_chars(bytes.drop_last(), i);
    } else {
        let b = bytes.last();
        if is_unreserved(b) {
            assert(percent_encoded(bytes)[i] == b as char);
        } else {
            let high = b as int / 16;
            let low = b as int % 16;
            assert(0 <= high < 16 && 0 <= low < 16);
            lemma_hex_is_unreserved(high);
            lemma_hex_is_unreserved(low);
        }
    }
}

proof fn lemma_hex_is_unreserved(n: int)
    requires
        0 <= n < 16,
    ensures
        is_encoded_char(hex_digit(n)),
{
    let b = if n < 10 {
        (48 + n) as u8
    } else {
        (55 + n) as u8
    };
    assert(is_unreserved(b) && hex_digit(n) == b as char);
}

/// Where credentials are missing, the message names the variables that are to be
/// set.
pub proof fn missing_credentials_are_named(config: ConfigView, plane: Plane)
    ensures
        plane_headers(config, plane) matches Err(e) ==> match plane {
            Plane::Node => mentions(e, ORG_ID_ENV@) && (config.internal_secret is None ==> mentions(
                e,
                API_KEY_ENV@,
            ) && mentions(e, INTERNAL_SECRET_ENV@)),
            Plane::Brain => mentions(e, INTERNAL_SECRET_ENV@),
            Plane::AgentControlPlane => mentions(e, CONTROL_PLANE_SECRET_ENV@) && mentions(
                e,
                INTERNAL_SECRET_ENV@,
            ),
        },
{
    let none = Seq::<char>::empty();
    let e = no_node_credentials();
    let a = "no credentials for the node data plane: set "@;
    let b = " (via load balancer) or "@;
    let c = " + "@;
    let d = " (direct to a node)"@;
    lemma_mentions(a, API_KEY_ENV@, b + INTERNAL_SECRET_ENV@ + c + ORG_ID_ENV@ + d);
    assert(a + API_KEY_ENV@ + (b + INTERNAL_SECRET_ENV@ + c + ORG_ID_ENV@ + d) =~= e);
    lemma_mentions(a + API_KEY_ENV@ + b, INTERNAL_SECRET_ENV@, c + ORG_ID_ENV@ + d);
    assert(a + API_KEY_ENV@ + b + INTERNAL_SECRET_ENV@ + (c + ORG_ID_ENV@ + d) =~= e);
    lemma_mentions(a + API_KEY_ENV@ + b + INTERNAL_SECRET_ENV@ + c, ORG_ID_ENV@, d);
    let org = " is required for direct node calls (x-fiducia-org-id)"@;
    lemma_mentions(none, ORG_ID_ENV@, org);
    assert(none + ORG_ID_ENV@ + org =~= no_org());
    let brain = " is required for brain (control plane) calls"@;
    lemma_mentions(none, INTERNAL_SECRET_ENV@, brain);
    assert(none + INTERNAL_SECRET_ENV@ + brain =~= no_brain_secret());
    let agent = ") is required for ai-agent control plane calls"@;
    lemma_mentions(CONTROL_PLANE_SECRET_ENV@ + " (or "@, INTERNAL_SECRET_ENV@, agent);
    lemma_mentions(none, CONTROL_PLANE_SECRET_ENV@, " (or "@ + INTERNAL_SECRET_ENV@ + agent);
    assert(none + CONTROL_PLANE_SECRET_ENV@ + (" (or "@ + INTERNAL_SECRET_ENV@ + agent)
        =~= no_agent_secret());
}

/// An API key wins on the node plane: with one, neither the internal secret nor
/// the organisation is sent, whatever they are.
pub proof fn an_api_key_wins(config: ConfigView, key: Seq<char>)
    requires
        config.api_key == Some(key),
    ensures
        plane_headers(config, Plane::Node) == Ok::<Seq<(Seq<char>, Seq<char>)>, Seq<char>>(
            seq![("authorization"@, "Bearer "@ + key)],
        ),
        node_client_of(config) is None,
{
}

/// Each credential goes to its own plane only: what the brain and the agent
/// control plane are sent does not depend on the API key or the organisation, and
/// what the agent control plane is sent depends on its own secret alone.
pub proof fn credentials_go_to_their_plane(config: ConfigView, other: ConfigView)
    ensures
        config.internal_secret == other.internal_secret ==> plane_headers(config, Plane::Brain)
            == plane_headers(other, Plane::Brain),
        config.control_plane_secret == other.control_plane_secret ==> plane_headers(
            config,
            Plane::AgentControlPlane,
        ) == plane_headers(other, Plane::AgentControlPlane),
        config.api_key == other.api_key && config.internal_secret == other.internal_secret
            && config.org_id == other.org_id ==> plane_headers(config, Plane::Node) == plane_headers(
            other,
            Plane::Node,
        ),
{
}

/// Whether two configurations differ in nothing but the values of their secrets:
/// each of these is there in both or in neither.
pub open spec fn same_but_secrets(one: ConfigView, other: ConfigView) -> bool {
    &&& one.node_url == other.node_url
    &&& one.brain_url == other.brain_url
    &&& one.agent_cp_url == other.agent_cp_url
    &&& one.internal_secret is Some == other.internal_secret is Some
    &&& one.org_id is Some == other.org_id is Some
    &&& one.control_plane_secret is Some == other.control_plane_secret is Some
    &&& one.api_key is Some == other.api_key is Some
}

/// Secrets stand in headers and nowhere else: the URL of a request, or why it
/// cannot be made, does not depend on their values.
pub proof fn secrets_are_only_headers(
    one: ConfigView,
    other: ConfigView,
    plane: Plane,
    path: Seq<char>,
)
    requires
        same_but_secrets(one, other),
    ensures
        match (plane_request(one, plane, path), plane_request(other, plane, path)) {
            (Ok(a), Ok(b)) => a.url == b.url,
            (Err(a), Err(b)) => a == b,
            _ => false,
        },
{
}

/// The client library of the node plane is set up only where a GET would carry
/// the internal headers, and with the same secret and organisation.
pub proof fn the_node_client_has_the_same_credentials(config: ConfigView)
    ensures
        node_client_of(config) matches Some(client) ==> plane_headers(config, Plane::Node) == Ok::<
            Seq<(Seq<char>, Seq<char>)>,
            Seq<char>,
        >(
            seq![
                ("x-fiducia-internal-auth"@, client.internal_secret),
                ("x-fiducia-org-id"@, client.org_id),
            ],
        ),
{
}

/// A base URL that is used is an absolute http(s) URL with a host, without
/// credentials, query or fragment, and of no cloud metadata endpoint.
pub proof fn a_used_base_url_is_sound(config: ConfigView, plane: Plane, path: Seq<char>)
    ensures
        plane_request(config, plane, path) matches Ok(request) ==> exists|raw: Seq<char>, parts: UrlView|
            request.url == #[trigger] without_end(raw, '/') + path && #[trigger] is_sound_url(
                raw,
                parts,
            ),
{
    if let Ok(request) = plane_request(config, plane, path) {
        let raw = match plane {
            Plane::Node => config.node_url,
            Plane::Brain => config.brain_url,
            Plane::AgentControlPlane => config.agent_cp_url->0,
        };
        let parts = url_of_text(trimmed(raw))->0;
        assert(is_sound_url(raw, parts));
        assert(request.url == without_end(raw, '/') + path);
    }
}

/// Whether a text, without the white space around it, is a URL of these parts
/// that may be used as a base URL.
pub open spec fn is_sound_url(raw: Seq<char>, parts: UrlView) -> bool {
    &&& url_of_text(trimmed(raw)) == Some(parts)
    &&& parts.scheme == "http"@ || parts.scheme == "https"@
    &&& parts.host matches Some(host) && !is_blocked_address(host) && !is_metadata_name(host)
    &&& parts.username.len() == 0
    &&& parts.password is None
    &&& parts.query is None
    &&& parts.fragment is None
}

/// The message for a status that reports no success shows the URL and the body.
pub proof fn a_refusal_is_shown_with_its_body(url: Seq<char>, code: u16, body: Seq<char>)
    requires
        !is_success_code(code),
    ensures
        get_answer(url, HttpOutcomeView::Reply(code, body)) matches Err(e) && mentions(e, url)
            && mentions(e, text_of_json(json_or_text(body))),
{
    let none = Seq::<char>::empty();
    let middle = " returned "@ + status_text(code) + ": "@;
    let shown = text_of_json(json_or_text(body));
    let e = url + " returned "@ + status_text(code) + ": "@ + shown;
    lemma_mentions(none, url, middle + shown);
    assert(none + url + (middle + shown) =~= e);
    lemma_mentions(url + middle, shown, none);
    assert(url + middle + shown + none =~= e);
}

/// The value of a variable that is set to more than white space.
pub open spec fn said(env: Map<Seq<char>, Seq<char>>, key: Seq<char>) -> Option<Seq<char>> {
    if env.contains_key(key) && trimmed(env[key]).len() > 0 {
        Some(env[key])
    } else {
        None
    }
}

/// Each part of the configuration comes from its own variable. The URLs of the node
/// and of the brain have defaults, and the secret of the agent control plane falls
/// back to the internal one.
pub proof fn the_configuration_comes_from_its_variables(env: Map<Seq<char>, Seq<char>>)
    ensures
        ({
            let config = config_of_env(env);
            &&& match said(env, "FIDUCIA_NODE_URL"@) {
                Some(url) => config.node_url == url,
                None => config.node_url == "http://localhost:8090"@,
            }
            &&& match said(env, "FIDUCIA_BRAIN_URL"@) {
                Some(url) => config.brain_url == url,
                None => config.brain_url == "http://localhost:8095"@,
            }
            &&& config.agent_cp_url == said(env, "FIDUCIA_AGENT_CONTROL_PLANE_URL"@)
            &&& config.internal_secret == said(env, "FIDUCIA_INTERNAL_SECRET"@)
            &&& config.org_id == said(env, "FIDUCIA_ORG_ID"@)
            &&& config.api_key == said(env, "FIDUCIA_API_KEY"@)
            &&& match said(env, "FIDUCIA_CONTROL_PLANE_SECRET"@) {
                Some(secret) => config.control_plane_secret == Some(secret),
                None => config.control_plane_secret == said(env, "FIDUCIA_INTERNAL_SECRET"@),
            }
        }),
{
}

/// A request to a plane carries the credentials of that plane under their own names:
/// the node gets the API key as a bearer, or else the internal secret and the
/// organisation; the brain gets the internal secret; the agent control plane gets its
/// own. Without them there is no request.
pub proof fn each_plane_gets_its_credentials(config: ConfigView, plane: Plane)
    ensures
        match plane_headers(config, plane) {
            Ok(headers) => match plane {
                Plane::Node => match config.api_key {
                    Some(key) => headers == seq![("authorization"@, "Bearer "@ + key)],
                    None => config.internal_secret is Some && config.org_id is Some && headers
                        == seq![
                        ("x-fiducia-internal-auth"@, config.internal_secret->0),
                        ("x-fiducia-org-id"@, config.org_id->0),
                    ],
                },
                Plane::Brain => config.internal_secret is Some && headers == seq![
                    ("x-fiducia-internal-auth"@, config.internal_secret->0),
                ],
                Plane::AgentControlPlane => config.control_plane_secret is Some && headers == seq![
                    ("x-internal-auth"@, config.control_plane_secret->0),
                ],
            },
            Err(_) => match plane {
                Plane::Node => config.api_key is None && (config.internal_secret is None
                    || config.org_id is None),
                Plane::Brain => config.internal_secret is None,
                Plane::AgentControlPlane => config.control_plane_secret is None,
            },
        },
{
}

/// A request goes to the base URL of its own plane, without the slashes at its end,
/// and to the path behind it, with the credentials of the plane. It is made exactly
/// where the URL is set and sound and the credentials are there; what is missing first
/// in the order of URL, credentials and a sound URL is the answer.
pub proof fn a_request_goes_to_its_plane(config: ConfigView, plane: Plane, path: Seq<char>)
    ensures
        ({
            let raw = match plane {
                Plane::Node => Some(config.node_url),
                Plane::Brain => Some(config.brain_url),
                Plane::AgentControlPlane => config.agent_cp_url,
            };
            match plane_request(config, plane, path) {
                Ok(request) => {
                    &&& raw is Some
                    &&& request.url == without_end(raw->0, '/') + path
                    &&& plane_headers(config, plane) == Ok::<
                        Seq<(Seq<char>, Seq<char>)>,
                        Seq<char>,
                    >(request.headers)
                },
                Err(e) => match raw {
                    None => e == "FIDUCIA_AGENT_CONTROL_PLANE_URL"@
                        + " is not set; point it at the fiducia-ai-agent-control-plane base URL to use file-lease tools"@,
                    Some(url) => match plane_headers(config, plane) {
                        Err(missing) => e == missing,
                        Ok(_) => base_url_fault(url) == Some(e),
                    },
                },
            }
        }),
{
}

/// Whether a text, without the white space around it, can be the base URL of a plane:
/// a URL of at most 2048 bytes without control characters and white space inside,
/// over http or https, with a host, without credentials, query and fragment, and not
/// of a cloud metadata endpoint.
pub open spec fn is_usable(raw: Seq<char>) -> bool {
    let text = trimmed(raw);
    &&& vstd::utf8::encode_utf8(text).len() <= 2048
    &&& forall|i: int|
        0 <= i < text.len() ==> !((#[trigger] text[i]) as u32 <= 0x1f || 0x7f <= text[i] as u32
            <= 0x9f || is_white_space(text[i]))
    &&& url_of_text(text) matches Some(url) && {
        &&& url.scheme == "http"@ || url.scheme == "https"@
        &&& url.host matches Some(host) && !is_link_local(host) && host != "0.0.0.0"@ && lowered(
            without_end(host, '.'),
        ) != "metadata.google.internal"@ && lowered(without_end(host, '.'))
            != "metadata.azure.internal"@
        &&& url.username.len() == 0
        &&& url.password is None
        &&& url.query is None
        &&& url.fragment is None
    }
}

/// Whether a host is a link-local IPv4 address.
pub open spec fn is_link_local(host: Seq<char>) -> bool {
    exists|a: nat, b: nat|
        a <= 255 && b <= 255 && host == "169.254."@ + #[trigger] decimal_of(a) + "."@
            + #[trigger] decimal_of(b)
}

proof fn lemma_digits_value(s: Seq<char>)
    ensures
        digits_value(s) == decimal_value(s),
    decreases s.len(),
{
    if s.len() > 0 {
        lemma_digits_value(s.drop_last());
    }
}

proof fn lemma_octet_is_decimal(s: Seq<char>)
    requires
        s.len() >= 1,
        forall|i: int| 0 <= i < s.len() ==> '0' <= #[trigger] s[i] <= '9',
        s.len() > 1 ==> s[0] != '0',
    ensures
        digits_value(s) >= 0,
        s[0] != '0' ==> digits_value(s) >= 1,
        decimal_of(digits_value(s) as nat) == s,
    decreases s.len(),
{
    let head = s.drop_last();
    let d = s.last() as int - '0' as int;
    assert(s[s.len() - 1] == s.last());
    assert(0 <= d <= 9);
    if s.len() == 1 {
        assert(head =~= Seq::empty());
        assert(digits_value(head) == 0);
        assert(digits_value(s) == d);
        assert(s =~= seq![digit(d)]);
    } else {
        assert forall|i: int| 0 <= i < head.len() implies '0' <= #[trigger] head[i] <= '9' by {
            assert(head[i] == s[i]);
        }
        assert(head[0] == s[0]);
        lemma_octet_is_decimal(head);
        let v = digits_value(head);
        assert(digits_value(s) == v * 10 + d);
        assert((v * 10 + d) / 10 == v && (v * 10 + d) % 10 == d);
        assert(decimal_of(digits_value(s) as nat) =~= decimal_of(v as nat).push(digit(d)));
        assert(s =~= head.push(digit(d)));
    }
}

proof fn lemma_decimal_is_octet(n: nat)
    requires
        n <= 255,
    ensures
        is_octet(decimal_of(n)),
        !decimal_of(n).contains('.'),
{
    a_decimal_text_stands_for_its_number(n);
    lemma_digits_value(decimal_of(n));
    reveal_with_fuel(decimal_of, 4);
    assert(decimal_of(n).len() <= 3);
}

proof fn lemma_split_two(a: Seq<char>, b: Seq<char>, sep: char)
    ensures
        split(a + seq![sep] + b, sep) == split(a, sep) + split(b, sep),
    decreases b.len(),
{
    let all = a + seq![sep] + b;
    lemma_split_parts(a, sep);
    lemma_split_parts(b, sep);
    if b.len() == 0 {
        assert(all.drop_last() =~= a);
        assert(split(all, sep) =~= split(a, sep) + split(b, sep));
    } else {
        let head = b.drop_last();
        lemma_split_two(a, head, sep);
        lemma_split_parts(head, sep);
        assert(all.drop_last() =~= a + seq![sep] + head);
        assert(split(all, sep) =~= split(a, sep) + split(b, sep));
    }
}

proof fn lemma_link_local_start()
    ensures
        "169.254."@ == "169"@ + seq!['.'] + "254"@ + seq!['.'],
        "."@ == seq!['.'],
        !"169"@.contains('.'),
        !"254"@.contains('.'),
{
    reveal_strlit("169");
    reveal_strlit("254");
    reveal_strlit("169.254.");
    reveal_strlit(".");
    assert("."@ =~= seq!['.']);
    assert("169.254."@ =~= "169"@ + seq!['.'] + "254"@ + seq!['.']);
}

proof fn lemma_four_parts(host: Seq<char>)
    requires
        split(host, '.').len() == 4,
        split(host, '.')[0] == "169"@,
        split(host, '.')[1] == "254"@,
        is_octet(split(host, '.')[2]),
        is_octet(split(host, '.')[3]),
    ensures
        is_link_local(host),
{
    let dot = seq!['.'];
    let parts = split(host, '.');
    a_split_text_is_joined_again(host, '.');
    lemma_link_local_start();
    lemma_octet_is_decimal(parts[2]);
    lemma_octet_is_decimal(parts[3]);
    let a = digits_value(parts[2]) as nat;
    let b = digits_value(parts[3]) as nat;
    let three = parts.drop_last();
    let two = three.drop_last();
    let one = two.drop_last();
    assert(joined(one, dot) == "169"@);
    assert(joined(two, dot) == "169"@ + dot + "254"@);
    assert(joined(three, dot) == "169"@ + dot + "254"@ + dot + decimal_of(a));
    assert(joined(parts, dot) == "169"@ + dot + "254"@ + dot + decimal_of(a) + dot + decimal_of(b));
    assert(host == "169.254."@ + decimal_of(a) + "."@ + decimal_of(b));
}

proof fn lemma_two_numbers(host: Seq<char>, a: nat, b: nat)
    requires
        a <= 255,
        b <= 255,
        host == "169.254."@ + decimal_of(a) + "."@ + decimal_of(b),
    ensures
        is_blocked_address(host),
{
    let dot = seq!['.'];
    let x = decimal_of(a);
    let y = decimal_of(b);
    lemma_link_local_start();
    lemma_decimal_is_octet(a);
    lemma_decimal_is_octet(b);
    let tail = x + dot + y;
    let rest = "254"@ + dot + tail;
    assert(host =~= "169"@ + dot + rest);
    lemma_split_two("169"@, rest, '.');
    lemma_split_two("254"@, tail, '.');
    lemma_split_two(x, y, '.');
    lemma_split_one(x, '.');
    lemma_split_one(y, '.');
    lemma_split_one("169"@, '.');
    lemma_split_one("254"@, '.');
    assert(split(host, '.') =~= seq!["169"@, "254"@, x, y]);
}

proof fn lemma_link_local(host: Seq<char>)
    ensures
        is_blocked_address(host) == (host == "0.0.0.0"@ || is_link_local(host)),
{
    if is_blocked_address(host) && host != "0.0.0.0"@ {
        lemma_four_parts(host);
    }
    if is_link_local(host) {
        let (a, b) = choose|a: nat, b: nat|
            a <= 255 && b <= 255 && host == "169.254."@ + #[trigger] decimal_of(a) + "."@
                + #[trigger] decimal_of(b);
        lemma_two_numbers(host, a, b);
    }
}

/// A base URL is refused exactly where it cannot be used.
pub proof fn an_unusable_base_url_is_refused(raw: Seq<char>)
    ensures
        base_url_fault(raw) is None <==> is_usable(raw),
        has_invalid_characters(trimmed(raw)) ==> base_url_fault(raw) == Some(
            "upstream base URL contains invalid characters"@,
        ),
        !has_invalid_characters(trimmed(raw)) && url_of_text(trimmed(raw)) is None ==> base_url_fault(
            raw,
        ) == Some("upstream base URL is invalid"@),
{
    let text = trimmed(raw);
    if let Some(url) = url_of_text(text) {
        if let Some(host) = url.host {
            lemma_link_local(host);
        }
    }
    if has_invalid_characters(text) && vstd::utf8::encode_utf8(text).len() <= 2048 {
        let i = choose|i: int|
            0 <= i < text.len() && (is_control(#[trigger] text[i]) || is_white_space(text[i]));
        assert(text[i] as u32 <= 0x1f || 0x7f <= text[i] as u32 <= 0x9f || is_white_space(text[i]));
    }
}

/// A base URL that is refused for its parts says for which: its scheme or its missing
/// host first, then credentials, then a query or a fragment, and then that it is a
/// cloud metadata endpoint.
pub proof fn a_refused_base_url_says_why(raw: Seq<char>, url: UrlView)
    requires
        url_of_text(trimmed(raw)) == Some(url),
        !has_invalid_characters(trimmed(raw)),
    ensures
        ({
            let web = url.host is Some && (url.scheme == "http"@ || url.scheme == "https"@);
            let secret = url.username.len() > 0 || url.password is Some;
            let more = url.query is Some || url.fragment is Some;
            &&& !web ==> base_url_fault(raw) == Some(
                "upstream base URL must use http(s) and include a host"@,
            )
            &&& web && secret ==> base_url_fault(raw) == Some(
                "upstream base URL must not contain credentials"@,
            )
            &&& web && !secret && more ==> base_url_fault(raw) == Some(
                "upstream base URL must not contain a query or fragment"@,
            )
            &&& web && !secret && !more && !is_usable(raw) ==> base_url_fault(raw) == Some(
                "cloud metadata endpoints are not allowed"@,
            )
        }),
{
    an_unusable_base_url_is_refused(raw);
}

/// Whether a character stands for itself in a URL.
pub open spec fn stands_for_itself(c: char) -> bool {
    'A' <= c <= 'Z' || 'a' <= c <= 'z' || '0' <= c <= '9' || c == '-' || c == '_' || c == '.' || c
        == '~'
}

/// An encoded text holds only characters that stand for themselves and percent signs.
pub proof fn an_encoded_text_is_harmless(s: Seq<char>, i: int)
    requires
        0 <= i < urlencoded(s).len(),
    ensures
        urlencoded(s)[i] == '%' || stands_for_itself(urlencoded(s)[i]),
{
    an_encoded_text_stays_in_its_place(s, i);
    let c = urlencoded(s)[i];
    if c != '%' {
        let b = choose|b: u8| is_unreserved(b) && c == #[trigger] (b as char);
        assert(stands_for_itself(b as char));
    }
}

/// A text whose characters all stand for themselves is not changed by encoding.
pub proof fn a_plain_text_is_not_encoded(s: Seq<char>)
    requires
        forall|i: int| 0 <= i < s.len() ==> stands_for_itself(#[trigger] s[i]),
    ensures
        urlencoded(s) == s,
    decreases s.len(),
{
    let bytes = vstd::utf8::encode_utf8(s);
    if s.len() == 0 {
        assert(urlencoded(s) =~= s);
    } else {
        let rest = s.drop_first();
        assert forall|i: int| 0 <= i < rest.len() implies stands_for_itself(#[trigger] rest[i]) by {
            assert(rest[i] == s[i + 1]);
        }
        a_plain_text_is_not_encoded(rest);
        let c = s[0];
        assert(stands_for_itself(c));
        let b = c as u8;
        assert(bytes =~= seq![b] + vstd::utf8::encode_utf8(rest)) by {
            assert(vstd::utf8::encode_scalar(c as u32) =~= seq![b]) by {
                lemma_ascii_scalar(c);
            }
        }
        assert(bytes.skip(1) =~= vstd::utf8::encode_utf8(rest));
        lemma_percent_encoded_front(bytes);
        assert(b as char == c);
        assert(is_unreserved(b));
        assert(seq![c] + rest =~= s);
    }
}

proof fn lemma_ascii_scalar(c: char)
    requires
        c as u32 <= 0x7f,
    ensures
        vstd::utf8::encode_scalar(c as u32) == seq![c as u8],
{
    let n = c as u32;
    assert(vstd::utf8::has_width_1_encoding(n));
    assert(vstd::utf8::leading_byte_width_1(n) == n as u8) by {
        assert(n <= 0x7f ==> (n & 0x7f) as u8 == n as u8) by (bit_vector);
    }
}

/// The body of an answer with a status from 200 to 299 is the answer, as JSON where
/// it is JSON. Every other exchange ends in an error: one that was answered shows the
/// status, and one that was not shows the URL and the reason.
pub proof fn an_answer_is_judged_by_its_status(
    url: Seq<char>,
    code: u16,
    body: Seq<char>,
    e: Seq<char>,
)
    ensures
        200 <= code < 300 ==> get_answer(url, HttpOutcomeView::Reply(code, body)) == Ok::<
            JsonView,
            Seq<char>,
        >(json_or_text(body)),
        !(200 <= code < 300) ==> (get_answer(url, HttpOutcomeView::Reply(code, body)) matches Err(m)
            && mentions(m, url) && mentions(m, status_text(code)) && mentions(
            m,
            text_of_json(json_or_text(body)),
        )),
        get_answer(url, HttpOutcomeView::Unsent(e)) matches Err(m) && mentions(m, url) && mentions(
            m,
            e,
        ),
        get_answer(url, HttpOutcomeView::Unread(e)) matches Err(m) && mentions(m, url) && mentions(
            m,
            e,
        ),
{
    let none = Seq::<char>::empty();
    let line = status_text(code);
    let shown = text_of_json(json_or_text(body));
    if !(200 <= code < 300) {
        a_refusal_is_shown_with_its_body(url, code, body);
        lemma_mentions(url + " returned "@, line, ": "@ + shown);
        assert(url + " returned "@ + line + (": "@ + shown) =~= url + " returned "@ + line + ": "@
            + shown);
    }
    let a = "request to "@;
    let b = "reading response from "@;
    let f = " failed: "@;
    lemma_mentions(a, url, f + e);
    assert(a + url + (f + e) =~= a + url + f + e);
    lemma_mentions(a + url + f, e, none);
    assert(a + url + f + e + none =~= a + url + f + e);
    lemma_mentions(b, url, f + e);
    assert(b + url + (f + e) =~= b + url + f + e);
    lemma_mentions(b + url + f, e, none);
    assert(b + url + f + e + none =~= b + url + f + e);
}

/// The client library of the node plane is set up exactly where there is a secret and
/// an organisation and no API key, and the URL can be used; it has that URL, that
/// secret and that organisation. Where it is set up it is asked, and otherwise a GET
/// is made.
pub proof fn the_node_client_is_for_internal_mode(
    config: ConfigView,
    client: Option<NodeClientView>,
    path: Seq<char>,
)
    ensures
        match node_client_of(config) {
            Some(made) => config.api_key is None && config.internal_secret == Some(
                made.internal_secret,
            ) && config.org_id == Some(made.org_id) && made.base_url == config.node_url
                && base_url_fault(config.node_url) is None,
            None => config.api_key is Some || config.internal_secret is None || config.org_id is None
                || base_url_fault(config.node_url) is Some,
        },
        match node_route(config, client, path) {
            Ok(NodeRouteView::Client) => client is Some,
            Ok(NodeRouteView::Get(request)) => client is None && plane_request(
                config,
                Plane::Node,
                path,
            ) == Ok::<GetRequestView, Seq<char>>(request),
            Err(_) => base_url_fault(config.node_url) is Some || (client is None && plane_headers(
                config,
                Plane::Node,
            ) is Err),
        },
{
}

/// An error of the client library with an answer is shown by the status and the body
/// of the answer, or by a note where there is no body.
pub proof fn a_client_answer_is_shown(status: u16, error: ClientError)
    requires
        error matches ClientError::Http { status: code, .. } && code == status,
    ensures
        begins_with(client_error_text(error), "node returned "@ + decimal_of(status as nat) + ": "@),
        error matches ClientError::Http { body: Some(tree), .. } ==> finishes_with(
            client_error_text(error),
            text_of_json(tree@),
        ),
        error matches ClientError::Http { body: None, .. } ==> finishes_with(
            client_error_text(error),
            "(empty body)"@,
        ),
{
    let start = "node returned "@ + decimal_of(status as nat) + ": "@;
    let rest = match error {
        ClientError::Http { body: Some(tree), .. } => text_of_json(tree@),
        _ => "(empty body)"@,
    };
    a_beginning_and_an_end(start + rest, start, rest);
    a_beginning_and_an_end(start + rest, rest, start);
}

/// An error of the client library without an answer is shown by its reason.
pub proof fn a_client_failure_is_shown(reason: String)
    ensures
        mentions(client_error_text(ClientError::Transport(reason)), reason@),
        mentions(client_error_text(ClientError::Task(reason)), reason@),
{
    lemma_mentions_last("node request failed: "@, reason@);
    lemma_mentions_last("node client task failed: "@, reason@);
}

proof fn lemma_mentions_last(start: Seq<char>, part: Seq<char>)
    ensures
        mentions(start + part, part),
{
    lemma_mentions(start, part, Seq::empty());
    assert(start + part + Seq::<char>::empty() =~= start + part);
}

} // verus!
