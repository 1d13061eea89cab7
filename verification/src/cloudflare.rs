//! DNS through the Cloudflare v4 API: zones and records are read, and behind a
//! switch records are created, updated and deleted. The exchanges themselves are
//! made elsewhere; here is what to send, in which order, and what the answers
//! amount to.
//!
//! - The token stands in the bearer field of a request and nowhere else.
//! - Writes need `FIDUCIA_MCP_ALLOW_MUTATIONS=1`; without it a message explains
//!   the switch and nothing is sent.

use vstd::prelude::*;
use crate::env_map::{env_nonempty, nonempty_value, EnvMap};
use crate::http::{status_text, HttpOutcome, HttpOutcomeView, HttpStatus};
use crate::json::{
    group_json_view, items_view, json_or_text, lemma_member_push, no_members, parse_json_or_text,
    res_json_view, Json, JsonView, Members,
};
use crate::text::{
    ascii_upper, cat2, cat3, cat4, cat5, chars_of, debug_text, decimal, decimal_of, join, joined,
    lemma_mentions, lemma_mentions_after, lemma_mentions_joined, lemma_mentions_within, mentions,
    opt_string_view, quoted, res_str_view, res_unit_view, same_text, signed_decimal,
    signed_decimal_of, texts, trim, trim_end_char, trimmed, uppered, without_end,
};
use crate::upstream::{urlencode, urlencoded};

verus! {

broadcast use group_json_view;

pub const CF_TOKEN_ENV: &'static str = "CLOUDFLARE_API_TOKEN";

pub const ALLOW_MUTATIONS_ENV: &'static str = "FIDUCIA_MCP_ALLOW_MUTATIONS";

pub const CF_API_BASE: &'static str = "https://api.cloudflare.com/client/v4";

/// How long an exchange may take, in seconds.
pub const TIMEOUT_SECONDS: u64 = 15;

// ---------------------------------------------------------------- the switch for writes

/// Whether writes are allowed.
pub open spec fn may_mutate(env: Map<Seq<char>, Seq<char>>) -> bool {
    nonempty_value(env, ALLOW_MUTATIONS_ENV@) == Some("1"@)
}

/// Whether `FIDUCIA_MCP_ALLOW_MUTATIONS` is `1`, which alone allows writes.
pub fn mutations_allowed(env: &EnvMap) -> (r: bool)
    ensures
        r == may_mutate(env@),
{
    match env_nonempty(env, ALLOW_MUTATIONS_ENV) {
        Some(value) => same_text(value.as_str(), "1"),
        None => false,
    }
}

/// What a write is answered where writes are not allowed.
pub open spec fn locked_message() -> Seq<char> {
    "mutations are disabled (this server is read-only by default). Set "@ + ALLOW_MUTATIONS_ENV@
        + "=1 to allow Cloudflare DNS writes — the only mutating tools here."@
}

/// Lets a write through, or explains why not.
pub fn mutation_gate(env: &EnvMap) -> (r: Result<(), String>)
    ensures
        res_unit_view(r) == if may_mutate(env@) {
            Ok::<(), Seq<char>>(())
        } else {
            Err(locked_message())
        },
{
    if mutations_allowed(env) {
        Ok(())
    } else {
        Err(
            cat3(
                "mutations are disabled (this server is read-only by default). Set ",
                ALLOW_MUTATIONS_ENV,
                "=1 to allow Cloudflare DNS writes — the only mutating tools here.",
            ),
        )
    }
}

// ---------------------------------------------------------------- zones and records

/// Whether a character is a hexadecimal digit in lower case.
pub open spec fn is_hex(c: char) -> bool {
    ('0' <= c && c <= '9') || ('a' <= c && c <= 'f')
}

/// Whether a text is the id of a zone: 32 hexadecimal digits in lower
/// case. No domain name is.
pub open spec fn looks_like_zone_id(s: Seq<char>) -> bool {
    s.len() == 32 && forall|i: int| 0 <= i < s.len() ==> is_hex(#[trigger] s[i])
}

/// Whether a text is the id of a zone, and not its name.
pub fn is_zone_id(s: &str) -> (r: bool)
    ensures
        r == looks_like_zone_id(s@),
{
    let chars = chars_of(s);
    if chars.len() != 32 {
        return false;
    }
    for i in 0..chars.len()
        invariant
            chars@ == s@,
            forall|k: int| 0 <= k < i ==> is_hex(#[trigger] s@[k]),
    {
        let c = chars[i];
        let hex = ('0' <= c && c <= '9') || ('a' <= c && c <= 'f');
        if !hex {
            assert(!is_hex(s@[i as int]));
            return false;
        }
    }
    true
}

/// What is shown of a record.
pub open spec fn record_summary(record: JsonView) -> JsonView {
    JsonView::Object(
        no_members()
            .push(("id"@, JsonView::or_null(record.get("id"@))))
            .push(("type"@, JsonView::or_null(record.get("type"@))))
            .push(("name"@, JsonView::or_null(record.get("name"@))))
            .push(("content"@, JsonView::or_null(record.get("content"@))))
            .push(("proxied"@, JsonView::or_null(record.get("proxied"@))))
            .push(("ttl"@, JsonView::or_null(record.get("ttl"@)))),
    )
}

/// What is shown of a record.
pub fn summarize_record(record: &Json) -> (r: Json)
    ensures
        r@ == record_summary(record@),
{
    Members::new()
        .with("id", Json::or_null(record.get("id")))
        .with("type", Json::or_null(record.get("type")))
        .with("name", Json::or_null(record.get("name")))
        .with("content", Json::or_null(record.get("content")))
        .with("proxied", Json::or_null(record.get("proxied")))
        .with("ttl", Json::or_null(record.get("ttl")))
        .object()
}

/// What is shown of the records of an answer.
pub open spec fn record_summaries(reply: JsonView) -> Seq<JsonView> {
    reply.items_at("result"@).map_values(|r: JsonView| record_summary(r))
}

fn add_records(reply: &Json, records: Vec<Json>) -> (r: Vec<Json>)
    ensures
        items_view(r@) == items_view(records@) + record_summaries(reply@),
{
    let ghost before = items_view(records@);
    let ghost more = record_summaries(reply@);
    let mut records = records;
    assert(items_view(records@) =~= before + more.take(0));
    if let Some(list) = reply.array_at("result") {
        for i in 0..list.len()
            invariant
                more == items_view(list@).map_values(|r: JsonView| record_summary(r)),
                items_view(records@) == before + more.take(i as int),
        {
            let ghost so_far = items_view(records@);
            let shown = summarize_record(&list[i]);
            records.push(shown);
            assert(items_view(records@) =~= so_far.push(shown@));
            assert(more.take(i + 1) =~= more.take(i as int).push(more[i as int]));
            assert(items_view(records@) =~= before + more.take(i + 1));
        }
    }
    assert(more.take(more.len() as int) =~= more);
    records
}

/// What is shown of a zone.
pub open spec fn zone_summary(zone: JsonView) -> JsonView {
    JsonView::Object(
        no_members()
            .push(("name"@, JsonView::or_null(zone.get("name"@))))
            .push(("id"@, JsonView::or_null(zone.get("id"@))))
            .push(("status"@, JsonView::or_null(zone.get("status"@))))
            .push(("name_servers"@, JsonView::or_null(zone.get("name_servers"@)))),
    )
}

/// What is shown of a zone.
pub fn summarize_zone(zone: &Json) -> (r: Json)
    ensures
        r@ == zone_summary(zone@),
{
    Members::new()
        .with("name", Json::or_null(zone.get("name")))
        .with("id", Json::or_null(zone.get("id")))
        .with("status", Json::or_null(zone.get("status")))
        .with("name_servers", Json::or_null(zone.get("name_servers")))
        .object()
}

/// The zones of an answer, with their number.
pub open spec fn zones_reply(reply: JsonView) -> JsonView {
    let zones = reply.items_at("result"@).map_values(|z: JsonView| zone_summary(z));
    JsonView::Object(
        no_members()
            .push(("count"@, JsonView::natural_number(zones.len() as u64)))
            .push(("zones"@, JsonView::Array(zones))),
    )
}

fn show_zones(reply: &Json) -> (r: Json)
    ensures
        r@ == zones_reply(reply@),
{
    let ghost want = reply@.items_at("result"@).map_values(|z: JsonView| zone_summary(z));
    let mut zones: Vec<Json> = Vec::new();
    if let Some(list) = reply.array_at("result") {
        for i in 0..list.len()
            invariant
                zones@.len() == i,
                forall|k: int| 0 <= k < i ==> (#[trigger] zones@[k])@ == zone_summary(list@[k]@),
        {
            zones.push(summarize_zone(&list[i]));
        }
    }
    assert(items_view(zones@) =~= want);
    Members::new()
        .with("count", Json::natural(zones.len() as u64))
        .with("zones", Json::Array(zones))
        .object()
}

// ---------------------------------------------------------------- errors

/// An error of an answer: its code and its message.
pub open spec fn error_part(error: JsonView) -> Seq<char> {
    let code = match error.get("code"@) {
        Some(code) => match code.integer() {
            Some(n) => n as int,
            None => 0,
        },
        None => 0,
    };
    let message = match error.text_at("message"@) {
        Some(message) => message,
        None => "(no message)"@,
    };
    "["@ + signed_decimal_of(code) + "] "@ + message
}

fn show_error(error: &Json) -> (r: String)
    ensures
        r@ == error_part(error@),
{
    let code: i64 = match error.get("code") {
        Some(code) => match code.as_i64() {
            Some(n) => n,
            None => 0,
        },
        None => 0,
    };
    let message = match error.text_at("message") {
        Some(message) => message,
        None => "(no message)",
    };
    cat4("[", signed_decimal(code).as_str(), "] ", message)
}

/// The message for an answer that reports no success. Only the codes and the
/// messages of the answer, and its status, are in it.
pub open spec fn cf_error_text(reply: JsonView, code: u16) -> Seq<char> {
    let errors = reply.items_at("errors"@);
    if errors.len() > 0 {
        "Cloudflare API error ("@ + status_text(code) + "): "@ + joined(
            errors.map_values(|e: JsonView| error_part(e)),
            "; "@,
        )
    } else {
        "Cloudflare API error ("@ + status_text(code) + ")"@
    }
}

/// The message for an answer that reports no success.
pub fn cf_error(reply: &Json, status: &HttpStatus) -> (r: String)
    ensures
        r@ == cf_error_text(reply@, status@),
{
    let ghost want = reply@.items_at("errors"@).map_values(|e: JsonView| error_part(e));
    if let Some(errors) = reply.array_at("errors") {
        if errors.len() > 0 {
            let mut parts: Vec<String> = Vec::new();
            for i in 0..errors.len()
                invariant
                    parts@.len() == i,
                    forall|k: int| 0 <= k < i ==> (#[trigger] parts@[k])@ == error_part(errors@[k]@),
            {
                parts.push(show_error(&errors[i]));
            }
            assert(texts(parts@) =~= want);
            return cat4(
                "Cloudflare API error (",
                status.line().as_str(),
                "): ",
                join(&parts, "; ").as_str(),
            );
        }
    }
    cat3("Cloudflare API error (", status.line().as_str(), ")")
}

/// Whether the envelope of an answer says `"success": true`.
pub open spec fn reports_success(reply: JsonView) -> bool {
    reply.get("success"@) matches Some(flag) && flag.boolean() == Some(true)
}

/// The answer where it reports success, whatever its status is, or else a message.
pub open spec fn judged(reply: JsonView, code: u16) -> Result<JsonView, Seq<char>> {
    if reports_success(reply) {
        Ok(reply)
    } else {
        Err(cf_error_text(reply, code))
    }
}

/// The answer where it reports success, whatever its status is, or else a message.
pub fn judge(reply: Json, status: &HttpStatus) -> (r: Result<Json, String>)
    ensures
        res_json_view(r) == judged(reply@, status@),
{
    let success = match reply.get("success") {
        Some(flag) => match flag.as_bool() {
            Some(b) => b,
            None => false,
        },
        None => false,
    };
    if success {
        Ok(reply)
    } else {
        Err(cf_error(&reply, status))
    }
}

/// What the exchange with `url` amounts to: the answer where it reports success,
/// or else a message.
pub open spec fn received(url: Seq<char>, outcome: HttpOutcomeView) -> Result<JsonView, Seq<char>> {
    match outcome {
        HttpOutcomeView::Unsent(e) => Err("Cloudflare request to "@ + url + " failed: "@ + e),
        HttpOutcomeView::Unread(e) => Err(
            "reading Cloudflare response from "@ + url + " failed: "@ + e,
        ),
        HttpOutcomeView::Reply(code, body) => judged(json_or_text(body), code),
    }
}

/// What the exchange with `url` amounts to.
pub fn receive(url: &str, outcome: &HttpOutcome) -> (r: Result<Json, String>)
    ensures
        res_json_view(r) == received(url@, outcome@),
{
    match outcome {
        HttpOutcome::Unsent(e) => Err(
            cat4("Cloudflare request to ", url, " failed: ", e.as_str()),
        ),
        HttpOutcome::Unread(e) => Err(
            cat4("reading Cloudflare response from ", url, " failed: ", e.as_str()),
        ),
        HttpOutcome::Reply(status, body) => judge(parse_json_or_text(body.as_str()), status),
    }
}

// ---------------------------------------------------------------- requests

/// What a write of a record is given.
#[derive(Debug)]
pub struct UpsertParams {
    pub zone: String,
    pub record_type: String,
    pub name: String,
    pub content: String,
    /// In seconds; `1` means automatic, and is meant where none is given.
    pub ttl: Option<i64>,
    /// Whether to proxy through Cloudflare; only for A, AAAA and CNAME. Not
    /// where nothing is said.
    pub proxied: Option<bool>,
}

/// What an [`UpsertParams`] stands for.
pub struct UpsertView {
    pub zone: Seq<char>,
    pub record_type: Seq<char>,
    pub name: Seq<char>,
    pub content: Seq<char>,
    pub ttl: Option<i64>,
    pub proxied: Option<bool>,
}

impl View for UpsertParams {
    type V = UpsertView;

    open spec fn view(&self) -> UpsertView {
        UpsertView {
            zone: self.zone@,
            record_type: self.record_type@,
            name: self.name@,
            content: self.content@,
            ttl: self.ttl,
            proxied: self.proxied,
        }
    }
}

/// A record to be written.
#[derive(Debug)]
pub struct NewRecord {
    pub record_type: String,
    pub name: String,
    pub content: String,
    pub ttl: i64,
    /// `None` where the type takes no such flag.
    pub proxied: Option<bool>,
}

/// What a [`NewRecord`] stands for.
pub struct NewRecordView {
    pub record_type: Seq<char>,
    pub name: Seq<char>,
    pub content: Seq<char>,
    pub ttl: i64,
    pub proxied: Option<bool>,
}

impl View for NewRecord {
    type V = NewRecordView;

    open spec fn view(&self) -> NewRecordView {
        NewRecordView {
            record_type: self.record_type@,
            name: self.name@,
            content: self.content@,
            ttl: self.ttl,
            proxied: self.proxied,
        }
    }
}

/// Whether a record of this type may be written.
pub open spec fn is_upsert_type(t: Seq<char>) -> bool {
    t == "A"@ || t == "AAAA"@ || t == "CNAME"@ || t == "TXT"@ || t == "MX"@
}

/// Whether a record of this type can be proxied.
pub open spec fn is_proxyable(t: Seq<char>) -> bool {
    t == "A"@ || t == "AAAA"@ || t == "CNAME"@
}

/// The record that a write asks for, or what is wrong with what it was given.
pub open spec fn new_record(params: UpsertView) -> Result<NewRecordView, Seq<char>> {
    let t = uppered(trimmed(params.record_type));
    if !is_upsert_type(t) {
        Err(
            "record type "@ + debug_text(t) + " is not allowed for dns_upsert; allowed types: "@
                + "[\"A\", \"AAAA\", \"CNAME\", \"TXT\", \"MX\"]"@,
        )
    } else if trimmed(params.name).len() == 0 || trimmed(params.content).len() == 0 {
        Err("both `name` and `content` are required for dns_upsert"@)
    } else {
        Ok(
            NewRecordView {
                record_type: t,
                name: trimmed(params.name),
                content: trimmed(params.content),
                ttl: match params.ttl {
                    Some(ttl) => ttl,
                    None => 1,
                },
                proxied: if is_proxyable(t) {
                    Some(params.proxied == Some(true))
                } else {
                    None
                },
            },
        )
    }
}

pub open spec fn res_record_view(r: Result<NewRecord, String>) -> Result<NewRecordView, Seq<char>> {
    match r {
        Ok(record) => Ok(record@),
        Err(e) => Err(e@),
    }
}

/// The record that a write asks for, or what is wrong with what it was given.
pub fn record_to_write(params: &UpsertParams) -> (r: Result<NewRecord, String>)
    ensures
        res_record_view(r) == new_record(params@),
{
    let t = ascii_upper(trim(params.record_type.as_str()));
    let kind = t.as_str();
    let proxyable = same_text(kind, "A") || same_text(kind, "AAAA") || same_text(kind, "CNAME");
    if !proxyable && !same_text(kind, "TXT") && !same_text(kind, "MX") {
        return Err(
            cat4(
                "record type ",
                quoted(kind).as_str(),
                " is not allowed for dns_upsert; allowed types: ",
                "[\"A\", \"AAAA\", \"CNAME\", \"TXT\", \"MX\"]",
            ),
        );
    }
    let name = trim(params.name.as_str());
    let content = trim(params.content.as_str());
    if name.is_empty() || content.is_empty() {
        return Err("both `name` and `content` are required for dns_upsert".to_string());
    }
    let ttl: i64 = match params.ttl {
        Some(ttl) => ttl,
        None => 1,
    };
    let proxied = if proxyable {
        Some(
            match params.proxied {
                Some(p) => p,
                None => false,
            },
        )
    } else {
        None
    };
    Ok(NewRecord { name: name.to_string(), content: content.to_string(), record_type: t, ttl, proxied })
}

/// The body that writes a record.
pub open spec fn record_body(record: NewRecordView) -> JsonView {
    let body = no_members()
        .push(("type"@, JsonView::Text(record.record_type)))
        .push(("name"@, JsonView::Text(record.name)))
        .push(("content"@, JsonView::Text(record.content)))
        .push(("ttl"@, JsonView::integer_number(record.ttl)));
    JsonView::Object(
        match record.proxied {
            Some(p) => body.push(("proxied"@, JsonView::Bool(p))),
            None => body,
        },
    )
}

/// The body that writes a record.
pub fn body_of(record: &NewRecord) -> (r: Json)
    ensures
        r@ == record_body(record@),
{
    let body = Members::new()
        .with("type", Json::text(record.record_type.as_str()))
        .with("name", Json::text(record.name.as_str()))
        .with("content", Json::text(record.content.as_str()))
        .with("ttl", Json::integer(record.ttl));
    match record.proxied {
        Some(p) => body.with("proxied", Json::Bool(p)).object(),
        None => body.object(),
    }
}

/// The method of a request.
#[derive(Debug, Clone, Copy, PartialEq, Eq, Structural)]
pub enum CfMethod {
    Get,
    Post,
    Put,
    Delete,
}

/// A request: its method, its URL, the token to send as the bearer, and its body.
pub struct CfRequest {
    pub method: CfMethod,
    pub url: String,
    pub token: String,
    pub body: Option<Json>,
}

/// What a [`CfRequest`] stands for.
pub struct CfRequestView {
    pub method: CfMethod,
    pub url: Seq<char>,
    pub token: Seq<char>,
    pub body: Option<JsonView>,
}

impl View for CfRequest {
    type V = CfRequestView;

    open spec fn view(&self) -> CfRequestView {
        CfRequestView {
            method: self.method,
            url: self.url@,
            token: self.token@,
            body: match self.body {
                Some(tree) => Some(tree@),
                None => None,
            },
        }
    }
}

/// What a zone is looked up for.
#[derive(Debug)]
enum Goal {
    Records,
    Upsert(NewRecord),
    Delete(String),
}

/// What a zone is looked up for.
pub enum GoalView {
    Records,
    Upsert(NewRecordView),
    Delete(Seq<char>),
}

impl View for Goal {
    type V = GoalView;

    closed spec fn view(&self) -> GoalView {
        match self {
            Goal::Records => GoalView::Records,
            Goal::Upsert(record) => GoalView::Upsert(record@),
            Goal::Delete(id) => GoalView::Delete(id@),
        }
    }
}

/// What an exchange is made for.
#[derive(Debug)]
enum Task {
    /// List the zones.
    Zones,
    /// Find the id of the zone of this name.
    FindZone { zone: String, goal: Goal },
    /// Fetch a page of the records of a zone; `records` holds those of the pages
    /// before it.
    Page { id: String, page: u32, records: Vec<Json> },
    /// Find a record of the same type and name.
    FindRecord { id: String, record: NewRecord },
    Update { id: String, existing: String, record: NewRecord },
    Create { id: String, record: NewRecord },
    Delete { id: String, record_id: String },
}

/// What an exchange is made for.
pub enum TaskView {
    Zones,
    FindZone { zone: Seq<char>, goal: GoalView },
    Page { id: Seq<char>, page: u32, records: Seq<JsonView> },
    FindRecord { id: Seq<char>, record: NewRecordView },
    Update { id: Seq<char>, existing: Seq<char>, record: NewRecordView },
    Create { id: Seq<char>, record: NewRecordView },
    Delete { id: Seq<char>, record_id: Seq<char> },
}

impl View for Task {
    type V = TaskView;

    closed spec fn view(&self) -> TaskView {
        match self {
            Task::Zones => TaskView::Zones,
            Task::FindZone { zone, goal } => TaskView::FindZone { zone: zone@, goal: goal@ },
            Task::Page { id, page, records } => TaskView::Page {
                id: id@,
                page: *page,
                records: items_view(records@),
            },
            Task::FindRecord { id, record } => TaskView::FindRecord { id: id@, record: record@ },
            Task::Update { id, existing, record } => TaskView::Update {
                id: id@,
                existing: existing@,
                record: record@,
            },
            Task::Create { id, record } => TaskView::Create { id: id@, record: record@ },
            Task::Delete { id, record_id } => TaskView::Delete {
                id: id@,
                record_id: record_id@,
            },
        }
    }
}

/// What an exchange is made for. It comes with the exchange and goes back with its
/// outcome, and cannot be made up in between.
#[derive(Debug)]
pub struct CfTask {
    task: Task,
}

impl View for CfTask {
    type V = TaskView;

    closed spec fn view(&self) -> TaskView {
        self.task@
    }
}

/// The method of the exchange for a task.
pub open spec fn method_of(task: TaskView) -> CfMethod {
    match task {
        TaskView::Update { .. } => CfMethod::Put,
        TaskView::Create { .. } => CfMethod::Post,
        TaskView::Delete { .. } => CfMethod::Delete,
        _ => CfMethod::Get,
    }
}

/// The path, with its query, of the exchange for a task.
pub open spec fn path_of(task: TaskView) -> Seq<char> {
    match task {
        TaskView::Zones => "/zones?per_page=50"@,
        TaskView::FindZone { zone, .. } => "/zones?name="@ + urlencoded(zone),
        TaskView::Page { id, page, .. } => "/zones/"@ + id + "/dns_records?per_page=100&page="@
            + decimal_of(page as nat),
        TaskView::FindRecord { id, record } => "/zones/"@ + id + "/dns_records?type="@ + urlencoded(
            record.record_type,
        ) + ("&name="@ + urlencoded(record.name)),
        TaskView::Update { id, existing, .. } => "/zones/"@ + id + "/dns_records/"@ + existing,
        TaskView::Create { id, .. } => "/zones/"@ + id + "/dns_records"@,
        TaskView::Delete { id, record_id } => "/zones/"@ + id + "/dns_records/"@ + record_id,
    }
}

/// The body of the exchange for a task.
pub open spec fn body_for(task: TaskView) -> Option<JsonView> {
    match task {
        TaskView::Update { record, .. } => Some(record_body(record)),
        TaskView::Create { record, .. } => Some(record_body(record)),
        _ => None,
    }
}

impl Task {
    fn method(&self) -> (r: CfMethod)
        ensures
            r == method_of(self@),
    {
        match self {
            Task::Update { .. } => CfMethod::Put,
            Task::Create { .. } => CfMethod::Post,
            Task::Delete { .. } => CfMethod::Delete,
            _ => CfMethod::Get,
        }
    }

    fn path(&self) -> (r: String)
        ensures
            r@ == path_of(self@),
    {
        match self {
            Task::Zones => "/zones?per_page=50".to_string(),
            Task::FindZone { zone, .. } => cat2(
                "/zones?name=",
                urlencode(zone.as_str()).as_str(),
            ),
            Task::Page { id, page, .. } => cat4(
                "/zones/",
                id.as_str(),
                "/dns_records?per_page=100&page=",
                decimal(*page as u64).as_str(),
            ),
            Task::FindRecord { id, record } => cat5(
                "/zones/",
                id.as_str(),
                "/dns_records?type=",
                urlencode(record.record_type.as_str()).as_str(),
                cat2("&name=", urlencode(record.name.as_str()).as_str()).as_str(),
            ),
            Task::Update { id, existing, .. } => cat4(
                "/zones/",
                id.as_str(),
                "/dns_records/",
                existing.as_str(),
            ),
            Task::Create { id, .. } => cat3("/zones/", id.as_str(), "/dns_records"),
            Task::Delete { id, record_id } => cat4(
                "/zones/",
                id.as_str(),
                "/dns_records/",
                record_id.as_str(),
            ),
        }
    }

    fn body(&self) -> (r: Option<Json>)
        ensures
            body_for(self@) == match r {
                Some(tree) => Some(tree@),
                None => None,
            },
    {
        match self {
            Task::Update { record, .. } => Some(body_of(record)),
            Task::Create { record, .. } => Some(body_of(record)),
            _ => None,
        }
    }
}

/// The Cloudflare API under a base URL, with a token that may be missing.
pub struct Cloudflare {
    base: String,
    token: Option<String>,
}

/// What a [`Cloudflare`] stands for.
pub struct CloudflareView {
    pub base: Seq<char>,
    pub token: Option<Seq<char>>,
}

impl View for Cloudflare {
    type V = CloudflareView;

    closed spec fn view(&self) -> CloudflareView {
        CloudflareView { base: self.base@, token: opt_string_view(self.token) }
    }
}

/// What is answered where the token is missing.
pub open spec fn no_token() -> Seq<char> {
    CF_TOKEN_ENV@
        + " is not set; create a Cloudflare API token (Zone:Read + DNS:Edit) and export it to use the cloudflare_* tools"@
}

/// What to do next: make an exchange and come back with its outcome, or nothing,
/// for the answer is there.
pub enum CfStep {
    Send(CfRequest, CfTask),
    Done(Result<Json, String>),
}

/// What a [`CfStep`] stands for.
pub enum CfStepView {
    Send(CfRequestView, TaskView),
    Done(Result<JsonView, Seq<char>>),
}

impl View for CfStep {
    type V = CfStepView;

    open spec fn view(&self) -> CfStepView {
        match self {
            CfStep::Send(request, task) => CfStepView::Send(request@, task@),
            CfStep::Done(r) => CfStepView::Done(res_json_view(*r)),
        }
    }
}

/// The request for a task.
pub open spec fn request_for(base: Seq<char>, token: Seq<char>, task: TaskView) -> CfRequestView {
    CfRequestView {
        method: method_of(task),
        url: base + path_of(task),
        token,
        body: body_for(task),
    }
}

/// The step that makes the exchange for a task. Without a token it is not made.
pub open spec fn sent(cf: CloudflareView, task: TaskView) -> CfStepView {
    match cf.token {
        None => CfStepView::Done(Err(no_token())),
        Some(token) => CfStepView::Send(request_for(cf.base, token, task), task),
    }
}

/// What the exchange for a task amounts to.
pub open spec fn answered(
    cf: CloudflareView,
    task: TaskView,
    outcome: HttpOutcomeView,
) -> Result<JsonView, Seq<char>> {
    received(cf.base + path_of(task), outcome)
}

impl Cloudflare {
    /// The API with the token that the environment holds.
    pub fn from_env(env: &EnvMap) -> (r: Cloudflare)
        ensures
            r@ == (CloudflareView {
                base: without_end(CF_API_BASE@, '/'),
                token: nonempty_value(env@, CF_TOKEN_ENV@),
            }),
    {
        Cloudflare::with_base(CF_API_BASE.to_string(), env_nonempty(env, CF_TOKEN_ENV))
    }

    /// The API under this base URL and with this token.
    pub fn with_base(base: String, token: Option<String>) -> (r: Cloudflare)
        ensures
            r@ == (CloudflareView {
                base: without_end(base@, '/'),
                token: opt_string_view(token),
            }),
    {
        Cloudflare { base: trim_end_char(base.as_str(), '/').to_string(), token }
    }

    fn token(&self) -> (r: Result<&str, String>)
        ensures
            res_str_view(r) == match self@.token {
                Some(token) => Ok::<Seq<char>, Seq<char>>(token),
                None => Err(no_token()),
            },
    {
        match &self.token {
            Some(token) => Ok(token.as_str()),
            None => Err(
                cat2(
                    CF_TOKEN_ENV,
                    " is not set; create a Cloudflare API token (Zone:Read + DNS:Edit) and export it to use the cloudflare_* tools",
                ),
            ),
        }
    }

    fn url(&self, task: &CfTask) -> (r: String)
        ensures
            r@ == self@.base + path_of(task@),
    {
        cat2(self.base.as_str(), task.task.path().as_str())
    }

    /// The step that makes the exchange for a task.
    pub fn send(&self, task: CfTask) -> (r: CfStep)
        ensures
            r@ == sent(self@, task@),
    {
        match self.token() {
            Err(e) => CfStep::Done(Err(e)),
            Ok(token) => {
                let request = CfRequest {
                    method: task.task.method(),
                    url: self.url(&task),
                    token: token.to_string(),
                    body: task.task.body(),
                };
                CfStep::Send(request, task)
            },
        }
    }

    /// What the exchange for a task amounts to.
    pub fn answer(&self, task: &CfTask, outcome: &HttpOutcome) -> (r: Result<Json, String>)
        ensures
            res_json_view(r) == answered(self@, task@, outcome@),
    {
        receive(self.url(task).as_str(), outcome)
    }
}

// ---------------------------------------------------------------- steps

/// The first task for a goal in the zone of this id.
pub open spec fn goal_task(id: Seq<char>, goal: GoalView) -> TaskView {
    match goal {
        GoalView::Records => TaskView::Page { id, page: 1, records: Seq::empty() },
        GoalView::Upsert(record) => TaskView::FindRecord { id, record },
        GoalView::Delete(record_id) => TaskView::Delete { id, record_id },
    }
}

fn first_task(id: String, goal: Goal) -> (r: CfTask)
    ensures
        r@ == goal_task(id@, goal@),
{
    let task = match goal {
        Goal::Records => {
            let records: Vec<Json> = Vec::new();
            assert(items_view(records@) =~= Seq::empty());
            Task::Page { id, page: 1, records }
        },
        Goal::Upsert(record) => Task::FindRecord { id, record },
        Goal::Delete(record_id) => Task::Delete { id, record_id },
    };
    CfTask { task }
}

/// The first step towards a goal in a zone given by its name or its id: a name
/// is looked up, an id is taken as it is.
pub open spec fn in_zone(cf: CloudflareView, zone: Seq<char>, goal: GoalView) -> CfStepView {
    if looks_like_zone_id(trimmed(zone)) {
        sent(cf, goal_task(trimmed(zone), goal))
    } else {
        sent(cf, TaskView::FindZone { zone: trimmed(zone), goal })
    }
}

/// The id of the first result of an answer.
pub open spec fn first_id(reply: JsonView) -> Option<Seq<char>> {
    let results = reply.items_at("result"@);
    if results.len() > 0 {
        results[0].text_at("id"@)
    } else {
        None
    }
}

/// The id of the first result of an answer.
pub fn id_of_first(reply: &Json) -> (r: Option<String>)
    ensures
        opt_string_view(r) == first_id(reply@),
{
    match reply.array_at("result") {
        Some(list) => if list.len() > 0 {
            match list[0].text_at("id") {
                Some(id) => Some(id.to_string()),
                None => None,
            }
        } else {
            None
        },
        None => None,
    }
}

/// How many pages there are, as an answer says; one where it says nothing. The
/// number is cut to 32 bits.
pub open spec fn total_pages(reply: JsonView) -> u32 {
    match reply.natural_at2("result_info"@, "total_pages"@) {
        Some(n) => n as u32,
        None => 1,
    }
}

/// The records of a zone.
pub open spec fn records_reply(id: Seq<char>, records: Seq<JsonView>) -> JsonView {
    JsonView::Object(
        no_members()
            .push(("zone_id"@, JsonView::Text(id)))
            .push(("count"@, JsonView::natural_number(records.len() as u64)))
            .push(("records"@, JsonView::Array(records))),
    )
}

/// What was done to a record.
pub open spec fn written_reply(action: Seq<char>, id: Seq<char>, reply: JsonView) -> JsonView {
    JsonView::Object(
        no_members()
            .push(("action"@, JsonView::Text(action)))
            .push(("zone_id"@, JsonView::Text(id)))
            .push(
                (
                    "record"@,
                    match reply.get("result"@) {
                        Some(record) => record_summary(record),
                        None => JsonView::Null,
                    },
                ),
            ),
    )
}

fn show_written(action: &str, id: &str, reply: &Json) -> (r: Json)
    ensures
        r@ == written_reply(action@, id@, reply@),
{
    let record = match reply.get("result") {
        Some(record) => summarize_record(record),
        None => Json::Null,
    };
    Members::new()
        .with("action", Json::text(action))
        .with("zone_id", Json::text(id))
        .with("record", record)
        .object()
}

/// What the deletion of a record was answered.
pub open spec fn deleted_reply(id: Seq<char>, reply: JsonView) -> JsonView {
    JsonView::Object(
        no_members()
            .push(("action"@, JsonView::Text("deleted"@)))
            .push(("zone_id"@, JsonView::Text(id)))
            .push(("result"@, JsonView::or_null(reply.get("result"@)))),
    )
}

/// What comes after the exchange for a task, given the answer, which reports
/// success.
pub open spec fn proceeded(cf: CloudflareView, task: TaskView, reply: JsonView) -> CfStepView {
    match task {
        TaskView::Zones => CfStepView::Done(Ok(zones_reply(reply))),
        TaskView::FindZone { zone, goal } => match first_id(reply) {
            Some(id) => sent(cf, goal_task(id, goal)),
            None => CfStepView::Done(
                Err("no Cloudflare zone found for name "@ + debug_text(zone)),
            ),
        },
        TaskView::Page { id, page, records } => {
            let records = records + record_summaries(reply);
            if page >= total_pages(reply) {
                CfStepView::Done(Ok(records_reply(id, records)))
            } else {
                sent(cf, TaskView::Page { id, page: (page + 1) as u32, records })
            }
        },
        TaskView::FindRecord { id, record } => match first_id(reply) {
            Some(existing) => sent(cf, TaskView::Update { id, existing, record }),
            None => sent(cf, TaskView::Create { id, record }),
        },
        TaskView::Update { id, .. } => CfStepView::Done(Ok(written_reply("updated"@, id, reply))),
        TaskView::Create { id, .. } => CfStepView::Done(Ok(written_reply("created"@, id, reply))),
        TaskView::Delete { id, .. } => CfStepView::Done(Ok(deleted_reply(id, reply))),
    }
}

/// What comes after the exchange for a task.
pub open spec fn continued(cf: CloudflareView, task: TaskView, outcome: HttpOutcomeView) -> CfStepView {
    match answered(cf, task, outcome) {
        Err(e) => CfStepView::Done(Err(e)),
        Ok(reply) => proceeded(cf, task, reply),
    }
}

impl Cloudflare {
    /// What comes after the exchange for a task, given the answer, which reports
    /// success.
    pub fn proceed(&self, task: CfTask, reply: Json) -> (r: CfStep)
        ensures
            r@ == proceeded(self@, task@, reply@),
    {
        match task.task {
            Task::Zones => CfStep::Done(Ok(show_zones(&reply))),
            Task::FindZone { zone, goal } => match id_of_first(&reply) {
                Some(id) => self.send(first_task(id, goal)),
                None => CfStep::Done(
                    Err(
                        cat2(
                            "no Cloudflare zone found for name ",
                            quoted(zone.as_str()).as_str(),
                        ),
                    ),
                ),
            },
            Task::Page { id, page, records } => {
                let records = add_records(&reply, records);
                let total: u32 = match reply.natural_at2("result_info", "total_pages") {
                    Some(n) => #[verifier::truncate]
                    (n as u32),
                    None => 1,
                };
                if page >= total {
                    CfStep::Done(
                        Ok(
                            Members::new()
                                .with("zone_id", Json::text(id.as_str()))
                                .with("count", Json::natural(records.len() as u64))
                                .with("records", Json::Array(records))
                                .object(),
                        ),
                    )
                } else {
                    self.send(CfTask { task: Task::Page { id, page: page + 1, records } })
                }
            },
            Task::FindRecord { id, record } => match id_of_first(&reply) {
                Some(existing) => self.send(CfTask { task: Task::Update { id, existing, record } }),
                None => self.send(CfTask { task: Task::Create { id, record } }),
            },
            Task::Update { id, .. } => CfStep::Done(
                Ok(show_written("updated", id.as_str(), &reply)),
            ),
            Task::Create { id, .. } => CfStep::Done(
                Ok(show_written("created", id.as_str(), &reply)),
            ),
            Task::Delete { id, .. } => CfStep::Done(
                Ok(
                    Members::new()
                        .with("action", Json::text("deleted"))
                        .with("zone_id", Json::text(id.as_str()))
                        .with("result", Json::or_null(reply.get("result")))
                        .object(),
                ),
            ),
        }
    }

    /// What comes after the exchange for a task.
    pub fn resume(&self, task: CfTask, outcome: &HttpOutcome) -> (r: CfStep)
        ensures
            r@ == continued(self@, task@, outcome@),
    {
        match self.answer(&task, outcome) {
            Err(e) => CfStep::Done(Err(e)),
            Ok(reply) => self.proceed(task, reply),
        }
    }

    fn zone_id(&self, zone: &str, goal: Goal) -> (r: CfStep)
        ensures
            r@ == in_zone(self@, zone@, goal@),
    {
        let zone = trim(zone);
        if is_zone_id(zone) {
            self.send(first_task(zone.to_string(), goal))
        } else {
            self.send(CfTask { task: Task::FindZone { zone: zone.to_string(), goal } })
        }
    }

    /// The zones: name, id, status and name servers of each.
    pub fn zones(&self) -> (r: CfStep)
        ensures
            r@ == sent(self@, TaskView::Zones),
    {
        self.send(CfTask { task: Task::Zones })
    }

    /// The records of a zone, page after page.
    pub fn dns_records(&self, zone: &str) -> (r: CfStep)
        ensures
            r@ == in_zone(self@, zone@, GoalView::Records),
    {
        self.zone_id(zone, Goal::Records)
    }

    /// Writes a record over the one of the same type and name, or creates it.
    pub fn dns_upsert(&self, env: &EnvMap, params: UpsertParams) -> (r: CfStep)
        ensures
            r@ == upserted(self@, env@, params@),
    {
        if let Err(e) = mutation_gate(env) {
            return CfStep::Done(Err(e));
        }
        match record_to_write(&params) {
            Err(e) => CfStep::Done(Err(e)),
            Ok(record) => self.zone_id(params.zone.as_str(), Goal::Upsert(record)),
        }
    }

    /// Deletes the record of this id.
    pub fn dns_delete(&self, env: &EnvMap, zone: &str, record_id: &str) -> (r: CfStep)
        ensures
            r@ == deleted(self@, env@, zone@, record_id@),
    {
        if let Err(e) = mutation_gate(env) {
            return CfStep::Done(Err(e));
        }
        let record_id = trim(record_id);
        if record_id.is_empty() {
            return CfStep::Done(
                Err("`record_id` is required for cloudflare_dns_delete".to_string()),
            );
        }
        self.zone_id(zone, Goal::Delete(record_id.to_string()))
    }
}

/// The first step of a write.
pub open spec fn upserted(
    cf: CloudflareView,
    env: Map<Seq<char>, Seq<char>>,
    params: UpsertView,
) -> CfStepView {
    if !may_mutate(env) {
        CfStepView::Done(Err(locked_message()))
    } else {
        match new_record(params) {
            Err(e) => CfStepView::Done(Err(e)),
            Ok(record) => in_zone(cf, params.zone, GoalView::Upsert(record)),
        }
    }
}

/// The first step of a deletion.
pub open spec fn deleted(
    cf: CloudflareView,
    env: Map<Seq<char>, Seq<char>>,
    zone: Seq<char>,
    record_id: Seq<char>,
) -> CfStepView {
    if !may_mutate(env) {
        CfStepView::Done(Err(locked_message()))
    } else if trimmed(record_id).len() == 0 {
        CfStepView::Done(Err("`record_id` is required for cloudflare_dns_delete"@))
    } else {
        in_zone(cf, zone, GoalView::Delete(trimmed(record_id)))
    }
}

// ---------------------------------------------------------------- laws

/// Where things stand after these outcomes.
pub open spec fn after(cf: CloudflareView, first: CfStepView, outcomes: Seq<HttpOutcomeView>) -> CfStepView
    decreases outcomes.len(),
{
    if outcomes.len() == 0 {
        first
    } else {
        match after(cf, first, outcomes.drop_last()) {
            CfStepView::Send(_, task) => continued(cf, task, outcomes.last()),
            CfStepView::Done(r) => CfStepView::Done(r),
        }
    }
}

/// While writes are not allowed nothing is sent: a write is answered at once, by
/// a message that names the variable that allows them.
pub proof fn a_write_needs_the_switch(
    cf: CloudflareView,
    env: Map<Seq<char>, Seq<char>>,
    params: UpsertView,
    zone: Seq<char>,
    record_id: Seq<char>,
)
    requires
        !may_mutate(env),
    ensures
        upserted(cf, env, params) == CfStepView::Done(Err(locked_message())),
        deleted(cf, env, zone, record_id) == CfStepView::Done(Err(locked_message())),
        mentions(locked_message(), ALLOW_MUTATIONS_ENV@),
{
    lemma_mentions(
        "mutations are disabled (this server is read-only by default). Set "@,
        ALLOW_MUTATIONS_ENV@,
        "=1 to allow Cloudflare DNS writes — the only mutating tools here."@,
    );
}

/// Without a token nothing is sent: every question is answered at once, by a
/// message that names the variable of the token unless something else is wrong.
pub proof fn a_missing_token_sends_nothing(
    cf: CloudflareView,
    task: TaskView,
    zone: Seq<char>,
    goal: GoalView,
)
    requires
        cf.token is None,
    ensures
        sent(cf, task) == CfStepView::Done(Err(no_token())),
        in_zone(cf, zone, goal) == CfStepView::Done(Err(no_token())),
        mentions(no_token(), CF_TOKEN_ENV@),
{
    let rest = " is not set; create a Cloudflare API token (Zone:Read + DNS:Edit) and export it to use the cloudflare_* tools"@;
    lemma_mentions(Seq::empty(), CF_TOKEN_ENV@, rest);
    assert(Seq::<char>::empty() + CF_TOKEN_ENV@ + rest =~= no_token());
}

/// Whether a step makes an exchange that only reads.
pub open spec fn only_reads(step: CfStepView) -> bool {
    step matches CfStepView::Send(request, _) ==> request.method == CfMethod::Get && request.body
        is None
}

/// Whether a task is one of those for reading.
pub open spec fn is_reading(task: TaskView) -> bool {
    match task {
        TaskView::Zones => true,
        TaskView::Page { .. } => true,
        TaskView::FindZone { goal, .. } => goal is Records,
        _ => false,
    }
}

/// Listing zones or records never writes, whatever is answered.
pub proof fn listing_only_reads(
    cf: CloudflareView,
    zone: Seq<char>,
    outcomes: Seq<HttpOutcomeView>,
)
    ensures
        only_reads(after(cf, sent(cf, TaskView::Zones), outcomes)),
        only_reads(after(cf, in_zone(cf, zone, GoalView::Records), outcomes)),
{
    lemma_reading(cf, sent(cf, TaskView::Zones), outcomes);
    lemma_reading(cf, in_zone(cf, zone, GoalView::Records), outcomes);
}

proof fn lemma_reading(cf: CloudflareView, first: CfStepView, outcomes: Seq<HttpOutcomeView>)
    requires
        first matches CfStepView::Send(_, task) ==> is_reading(task),
        only_reads(first),
    ensures
        after(cf, first, outcomes) matches CfStepView::Send(_, task) ==> is_reading(task),
        only_reads(after(cf, first, outcomes)),
    decreases outcomes.len(),
{
    if outcomes.len() > 0 {
        lemma_reading(cf, first, outcomes.drop_last());
    }
}

/// A step with its token replaced.
pub open spec fn with_token(step: CfStepView, token: Seq<char>) -> CfStepView {
    match step {
        CfStepView::Send(request, task) => CfStepView::Send(
            CfRequestView { token, ..request },
            task,
        ),
        CfStepView::Done(r) => CfStepView::Done(r),
    }
}

/// One exchange does not show the token: with another token the request is the
/// same but for its bearer, and what the exchange amounts to, the answer or the
/// message, is the same.
pub proof fn an_exchange_does_not_show_the_token(
    one: CloudflareView,
    other: CloudflareView,
    task: TaskView,
    outcome: HttpOutcomeView,
)
    requires
        one.base == other.base,
        one.token is Some,
        other.token is Some,
    ensures
        sent(one, task) matches CfStepView::Send(request, _) && Some(request.token) == one.token,
        sent(other, task) == with_token(sent(one, task), other.token->0),
        answered(one, task, outcome) == answered(other, task, outcome),
{
}

/// The token stands in the bearer field of the requests and nowhere else: with
/// another token and the same outcomes everything else is the same, every URL,
/// every body, every answer and every message.
pub proof fn the_token_is_only_the_bearer(
    cf: CloudflareView,
    token: Seq<char>,
    other: Seq<char>,
    task: TaskView,
    outcomes: Seq<HttpOutcomeView>,
)
    requires
        cf.token == Some(token),
    ensures
        after(
            CloudflareView { token: Some(other), ..cf },
            sent(CloudflareView { token: Some(other), ..cf }, task),
            outcomes,
        ) == with_token(after(cf, sent(cf, task), outcomes), other),
        after(cf, sent(cf, task), outcomes) matches CfStepView::Send(request, _) ==> request.token
            == token,
    decreases outcomes.len(),
{
    if outcomes.len() > 0 {
        the_token_is_only_the_bearer(cf, token, other, task, outcomes.drop_last());
    }
}

/// The records of the answers of these pages, one page after the other.
pub open spec fn records_of_pages(replies: Seq<JsonView>) -> Seq<JsonView>
    decreases replies.len(),
{
    if replies.len() == 0 {
        Seq::empty()
    } else {
        records_of_pages(replies.drop_last()) + record_summaries(replies.last())
    }
}

/// Whether the outcome is this answer, which reports success.
pub open spec fn is_reply(outcome: HttpOutcomeView, reply: JsonView) -> bool {
    &&& outcome matches HttpOutcomeView::Reply(_, body)
    &&& json_or_text(body) == reply
    &&& reports_success(reply)
}

/// Whether the outcomes are the pages of a listing: every one is an answer that
/// reports success, and says that there are more pages unless it is the last.
pub open spec fn are_all_pages(outcomes: Seq<HttpOutcomeView>, replies: Seq<JsonView>) -> bool {
    &&& 1 <= replies.len() <= u32::MAX
    &&& outcomes.len() == replies.len()
    &&& forall|i: int|
        0 <= i < replies.len() ==> is_reply(#[trigger] outcomes[i], replies[i])
    &&& forall|i: int| 0 <= i < replies.len() - 1 ==> total_pages(#[trigger] replies[i]) > i + 1
    &&& total_pages(replies.last()) <= replies.len()
}

/// A zone that is given by its id needs no search. One that is given by its name
/// is searched for, and the first id of the answer is taken.
pub proof fn a_zone_is_found_by_name_or_id(
    cf: CloudflareView,
    zone: Seq<char>,
    goal: GoalView,
    reply: JsonView,
)
    ensures
        looks_like_zone_id(trimmed(zone)) ==> in_zone(cf, zone, goal) == sent(
            cf,
            goal_task(trimmed(zone), goal),
        ),
        !looks_like_zone_id(trimmed(zone)) ==> in_zone(cf, zone, goal) == sent(
            cf,
            TaskView::FindZone { zone: trimmed(zone), goal },
        ),
        first_id(reply) matches Some(id) ==> proceeded(
            cf,
            TaskView::FindZone { zone: trimmed(zone), goal },
            reply,
        ) == sent(cf, goal_task(id, goal)),
        first_id(reply) is None ==> proceeded(
            cf,
            TaskView::FindZone { zone: trimmed(zone), goal },
            reply,
        ) is Done,
{
}

/// Once the zone is known, the records of all its pages are listed, in the order
/// of the pages.
pub proof fn all_pages_are_listed(
    cf: CloudflareView,
    id: Seq<char>,
    outcomes: Seq<HttpOutcomeView>,
    replies: Seq<JsonView>,
)
    requires
        cf.token is Some,
        are_all_pages(outcomes, replies),
    ensures
        after(cf, sent(cf, goal_task(id, GoalView::Records)), outcomes) == CfStepView::Done(
            Ok(records_reply(id, records_of_pages(replies))),
        ),
{
    let n = replies.len() as int;
    lemma_pages(cf, id, outcomes, replies, n - 1);
    assert(outcomes.take(n - 1) =~= outcomes.drop_last());
    assert(replies.take(n - 1) =~= replies.drop_last());
    assert(outcomes[n - 1] is Reply);
}

proof fn lemma_pages(
    cf: CloudflareView,
    id: Seq<char>,
    outcomes: Seq<HttpOutcomeView>,
    replies: Seq<JsonView>,
    k: int,
)
    requires
        cf.token is Some,
        are_all_pages(outcomes, replies),
        0 <= k < replies.len(),
    ensures
        after(cf, sent(cf, goal_task(id, GoalView::Records)), outcomes.take(k)) == sent(
            cf,
            TaskView::Page {
                id,
                page: (k + 1) as u32,
                records: records_of_pages(replies.take(k)),
            },
        ),
    decreases k,
{
    if k == 0 {
        assert(records_of_pages(replies.take(0)) =~= Seq::empty());
    } else {
        lemma_pages(cf, id, outcomes, replies, k - 1);
        assert(outcomes.take(k).drop_last() =~= outcomes.take(k - 1));
        assert(replies.take(k).drop_last() =~= replies.take(k - 1));
        assert(outcomes[k - 1] is Reply);
        assert(total_pages(replies[k - 1]) > k);
    }
}

/// What a write sends, whatever is answered: a `GET` without a body, or a `PUT`
/// or `POST` of the record that was asked for, whose type is one of those that
/// may be written. Nothing is deleted.
pub proof fn a_write_sends_the_record(
    cf: CloudflareView,
    env: Map<Seq<char>, Seq<char>>,
    params: UpsertView,
    outcomes: Seq<HttpOutcomeView>,
)
    ensures
        after(cf, upserted(cf, env, params), outcomes) matches CfStepView::Send(request, _) ==> {
            &&& may_mutate(env)
            &&& new_record(params) matches Ok(record) && {
                &&& is_upsert_type(record.record_type)
                &&& match request.method {
                    CfMethod::Get => request.body is None,
                    CfMethod::Put => request.body == Some(record_body(record)),
                    CfMethod::Post => request.body == Some(record_body(record)),
                    CfMethod::Delete => false,
                }
            }
        },
{
    if may_mutate(env) {
        if let Ok(record) = new_record(params) {
            lemma_writing(cf, record, in_zone(cf, params.zone, GoalView::Upsert(record)), outcomes);
        } else {
            lemma_done(cf, upserted(cf, env, params), outcomes);
        }
    } else {
        lemma_done(cf, upserted(cf, env, params), outcomes);
    }
}

/// Whether a step is one of those that write this record.
pub open spec fn is_writing(step: CfStepView, record: NewRecordView) -> bool {
    step matches CfStepView::Send(request, task) ==> {
        &&& request.method == method_of(task)
        &&& request.body == body_for(task)
        &&& match task {
            TaskView::FindZone { goal, .. } => goal == GoalView::Upsert(record),
            TaskView::FindRecord { record: r, .. } => r == record,
            TaskView::Update { record: r, .. } => r == record,
            TaskView::Create { record: r, .. } => r == record,
            _ => false,
        }
    }
}

proof fn lemma_writing(
    cf: CloudflareView,
    record: NewRecordView,
    first: CfStepView,
    outcomes: Seq<HttpOutcomeView>,
)
    requires
        is_writing(first, record),
    ensures
        is_writing(after(cf, first, outcomes), record),
    decreases outcomes.len(),
{
    if outcomes.len() > 0 {
        lemma_writing(cf, record, first, outcomes.drop_last());
    }
}

/// An answer stays.
proof fn lemma_done(cf: CloudflareView, first: CfStepView, outcomes: Seq<HttpOutcomeView>)
    requires
        first is Done,
    ensures
        after(cf, first, outcomes) == first,
    decreases outcomes.len(),
{
    if outcomes.len() > 0 {
        lemma_done(cf, first, outcomes.drop_last());
    }
}

/// A write searches the zone for a record of the same type and name. The record
/// that is found is overwritten in its place, and where none is found one is
/// created.
pub proof fn an_existing_record_is_updated(
    cf: CloudflareView,
    token: Seq<char>,
    id: Seq<char>,
    record: NewRecordView,
    reply: JsonView,
)
    requires
        cf.token == Some(token),
    ensures
        sent(cf, TaskView::FindRecord { id, record }) matches CfStepView::Send(request, _)
            && request.method == CfMethod::Get && request.url == cf.base + ("/zones/"@ + id
            + "/dns_records?type="@ + urlencoded(record.record_type) + ("&name="@ + urlencoded(
            record.name,
        ))),
        proceeded(cf, TaskView::FindRecord { id, record }, reply) matches CfStepView::Send(
            request,
            _,
        ) && request.body == Some(record_body(record)) && match first_id(reply) {
            Some(existing) => request.method == CfMethod::Put && request.url == cf.base + ("/zones/"@
                + id + "/dns_records/"@ + existing),
            None => request.method == CfMethod::Post && request.url == cf.base + ("/zones/"@ + id
                + "/dns_records"@),
        },
{
}

/// A deletion sends nothing but `GET` to find the zone, and one `DELETE` to the
/// record of the given id.
pub proof fn a_deletion_deletes_the_record(
    cf: CloudflareView,
    env: Map<Seq<char>, Seq<char>>,
    zone: Seq<char>,
    record_id: Seq<char>,
    outcomes: Seq<HttpOutcomeView>,
)
    ensures
        after(cf, deleted(cf, env, zone, record_id), outcomes) matches CfStepView::Send(request, task)
            ==> {
            &&& may_mutate(env)
            &&& request.body is None
            &&& match task {
                TaskView::FindZone { .. } => request.method == CfMethod::Get,
                TaskView::Delete { id, .. } => request.method == CfMethod::Delete && request.url
                    == cf.base + ("/zones/"@ + id + "/dns_records/"@ + trimmed(record_id)),
                _ => false,
            }
        },
    decreases outcomes.len(),
{
    if outcomes.len() > 0 {
        a_deletion_deletes_the_record(cf, env, zone, record_id, outcomes.drop_last());
        lemma_deleting(cf, env, zone, record_id, outcomes.drop_last());
    }
}

proof fn lemma_deleting(
    cf: CloudflareView,
    env: Map<Seq<char>, Seq<char>>,
    zone: Seq<char>,
    record_id: Seq<char>,
    outcomes: Seq<HttpOutcomeView>,
)
    ensures
        after(cf, deleted(cf, env, zone, record_id), outcomes) matches CfStepView::Send(_, task) ==> {
            &&& may_mutate(env)
            &&& match task {
                TaskView::FindZone { goal, .. } => goal == GoalView::Delete(trimmed(record_id)),
                TaskView::Delete { record_id: r, .. } => r == trimmed(record_id),
                _ => false,
            }
        },
    decreases outcomes.len(),
{
    if outcomes.len() > 0 {
        lemma_deleting(cf, env, zone, record_id, outcomes.drop_last());
    }
}

/// The message for an answer that reports no success shows the message of each
/// of its errors.
pub proof fn every_error_is_shown(reply: JsonView, code: u16, i: int, message: Seq<char>)
    requires
        !reports_success(reply),
        0 <= i < reply.items_at("errors"@).len(),
        reply.items_at("errors"@)[i].text_at("message"@) == Some(message),
    ensures
        judged(reply, code) matches Err(e) && mentions(e, message),
{
    let parts = reply.items_at("errors"@).map_values(|e: JsonView| error_part(e));
    let start = "Cloudflare API error ("@ + status_text(code) + "): "@;
    let code_shown = parts[i].take(parts[i].len() - message.len());
    lemma_mentions(code_shown, message, Seq::empty());
    assert(code_shown + message + Seq::<char>::empty() =~= parts[i]);
    lemma_mentions_joined(parts, "; "@, i);
    lemma_mentions_within(joined(parts, "; "@), parts[i], message);
    lemma_mentions_after(start, joined(parts, "; "@), message);
}

/// Whether a record is shown so: each of its id, its type, its name, its content,
/// its proxy flag and its time to live is that of the record, null where it has none,
/// and nothing else is shown.
pub open spec fn shows_record(shown: JsonView, record: JsonView) -> bool {
    &&& forall|k: Seq<char>|
        k == "id"@ || k == "type"@ || k == "name"@ || k == "content"@ || k == "proxied"@ || k
            == "ttl"@ ==> #[trigger] shown.get(k) == Some(
            match record.get(k) {
                Some(value) => value,
                None => JsonView::Null,
            },
        )
    &&& forall|k: Seq<char>|
        (#[trigger] shown.get(k)) is Some ==> k == "id"@ || k == "type"@ || k == "name"@ || k
            == "content"@ || k == "proxied"@ || k == "ttl"@
}

/// Every record is shown as it is.
pub proof fn a_record_is_shown_as_it_is(record: JsonView)
    ensures
        shows_record(record_summary(record), record),
        forall|k: Seq<char>|
            k == "id"@ || k == "type"@ || k == "name"@ || k == "content"@ || k == "proxied"@ || k
                == "ttl"@ ==> #[trigger] record_summary(record).get(k) == Some(
                match record.get(k) {
                    Some(value) => value,
                    None => JsonView::Null,
                },
            ),
        forall|k: Seq<char>|
            (#[trigger] record_summary(record).get(k)) is Some ==> k == "id"@ || k == "type"@ || k
                == "name"@ || k == "content"@ || k == "proxied"@ || k == "ttl"@,
{
    broadcast use lemma_member_push;

    reveal_strlit("id");
    reveal_strlit("type");
    reveal_strlit("name");
    reveal_strlit("content");
    reveal_strlit("proxied");
    reveal_strlit("ttl");
    assert("id"@.len() == 2 && "type"@.len() == 4 && "name"@.len() == 4 &&
        "content"@.len() == 7 && "proxied"@.len() == 7 && "ttl"@.len() == 3 &&
        "content"@[0] == 'c' && "name"@[0] == 'n' && "proxied"@[0] == 'p' && "type"@[0] == 't');
}

/// How many records the first `n` of these answers hold.
pub open spec fn records_before(replies: Seq<JsonView>, n: int) -> nat
    decreases n,
{
    if n <= 0 {
        0
    } else {
        records_before(replies, n - 1) + replies[n - 1].items_at("result"@).len()
    }
}

proof fn lemma_records_before(replies: Seq<JsonView>, n: int)
    requires
        n < replies.len(),
    ensures
        records_before(replies.drop_last(), n) == records_before(replies, n),
    decreases n,
{
    if n > 0 {
        lemma_records_before(replies, n - 1);
    }
}

proof fn lemma_record_count(replies: Seq<JsonView>)
    ensures
        records_of_pages(replies).len() == records_before(replies, replies.len() as int),
    decreases replies.len(),
{
    if replies.len() > 0 {
        lemma_record_count(replies.drop_last());
        lemma_records_before(replies, replies.len() - 1);
    }
}

proof fn lemma_record_place(replies: Seq<JsonView>, p: int, i: int)
    requires
        0 <= p < replies.len(),
        0 <= i < replies[p].items_at("result"@).len(),
    ensures
        records_before(replies, p) + i < records_of_pages(replies).len(),
        records_of_pages(replies)[records_before(replies, p) + i] == record_summary(
            replies[p].items_at("result"@)[i],
        ),
    decreases replies.len(),
{
    lemma_record_count(replies.drop_last());
    if p < replies.len() - 1 {
        lemma_record_place(replies.drop_last(), p, i);
    }
    lemma_records_before(replies, p);
}

/// Every record of every page is listed, in the order of the pages and each as it
/// is, and nothing else is; the listing names the zone and counts its records.
pub proof fn every_record_is_listed(
    cf: CloudflareView,
    id: Seq<char>,
    outcomes: Seq<HttpOutcomeView>,
    replies: Seq<JsonView>,
)
    requires
        cf.token is Some,
        are_all_pages(outcomes, replies),
    ensures
        after(cf, sent(cf, goal_task(id, GoalView::Records)), outcomes) matches CfStepView::Done(
            Ok(listing),
        ) && {
            let listed = listing.items_at("records"@);
            &&& listing.text_at("zone_id"@) == Some(id)
            &&& listing.natural_at("count"@) == Some(listed.len() as u64)
            &&& listed.len() == records_before(replies, replies.len() as int)
            &&& forall|p: int, i: int|
                0 <= p < replies.len() && 0 <= i < replies[p].items_at("result"@).len()
                    ==> shows_record(
                    listed[records_before(replies, p) + i],
                    #[trigger] replies[p].items_at("result"@)[i],
                )
            &&& forall|p: int, i: int, k: Seq<char>|
                0 <= p < replies.len() && 0 <= i < replies[p].items_at("result"@).len() && (k
                    == "id"@ || k == "type"@ || k == "name"@ || k == "content"@ || k == "proxied"@
                    || k == "ttl"@) ==> listed[records_before(replies, p) + i].get(k) == Some(
                    match (#[trigger] replies[p].items_at("result"@)[i].get(k)) {
                        Some(value) => value,
                        None => JsonView::Null,
                    },
                )
        },
{
    broadcast use lemma_member_push;

    all_pages_are_listed(cf, id, outcomes, replies);
    lemma_record_count(replies);
    reveal_strlit("zone_id");
    reveal_strlit("count");
    reveal_strlit("records");
    assert("zone_id"@.len() == 7 && "count"@.len() == 5 && "records"@.len() == 7 &&
        "records"@[0] == 'r' && "zone_id"@[0] == 'z');
    assert forall|p: int, i: int|
        0 <= p < replies.len() && 0 <= i < replies[p].items_at("result"@).len() implies shows_record(
        records_of_pages(replies)[records_before(replies, p) + i],
        #[trigger] replies[p].items_at("result"@)[i],
    ) by {
        lemma_record_place(replies, p, i);
        a_record_is_shown_as_it_is(replies[p].items_at("result"@)[i]);
    }
    assert forall|p: int, i: int, k: Seq<char>|
        0 <= p < replies.len() && 0 <= i < replies[p].items_at("result"@).len() && (k == "id"@ || k
            == "type"@ || k == "name"@ || k == "content"@ || k == "proxied"@ || k
            == "ttl"@) implies records_of_pages(replies)[records_before(replies, p) + i].get(k)
        == Some(
        match (#[trigger] replies[p].items_at("result"@)[i].get(k)) {
            Some(value) => value,
            None => JsonView::Null,
        },
    ) by {
        let record = replies[p].items_at("result"@)[i];
        lemma_record_place(replies, p, i);
        a_record_is_shown_as_it_is(record);
        assert(record_summary(record).get(k) is Some);
    }
}

/// How many pages there are stands in `result_info.total_pages` of an answer; there
/// is one where nothing is said. The number is cut to 32 bits.
pub proof fn an_answer_says_how_many_pages_there_are(reply: JsonView, info: JsonView, n: u64)
    ensures
        reply.get("result_info"@) == Some(info) && info.natural_at("total_pages"@) == Some(n)
            ==> total_pages(reply) == n as u32,
        reply.get("result_info"@) == Some(info) && info.natural_at("total_pages"@) is None
            ==> total_pages(reply) == 1,
        reply.get("result_info"@) is None ==> total_pages(reply) == 1,
{
}

/// All zones of an answer are shown, in their order, each with its name, its id, its
/// status and its name servers, null where it has none.
pub proof fn every_zone_is_shown(cf: CloudflareView, reply: JsonView)
    ensures
        proceeded(cf, TaskView::Zones, reply) matches CfStepView::Done(Ok(listing)) && {
            let zones = reply.items_at("result"@);
            let shown = listing.items_at("zones"@);
            &&& shown.len() == zones.len()
            &&& listing.natural_at("count"@) == Some(zones.len() as u64)
            &&& forall|i: int, k: Seq<char>|
                0 <= i < zones.len() && (k == "name"@ || k == "id"@ || k == "status"@ || k
                    == "name_servers"@) ==> #[trigger] shown[i].get(k) == Some(
                    match zones[i].get(k) {
                        Some(value) => value,
                        None => JsonView::Null,
                    },
                )
        },
{
    broadcast use lemma_member_push;

    reveal_strlit("count");
    reveal_strlit("zones");
    reveal_strlit("name");
    reveal_strlit("id");
    reveal_strlit("status");
    reveal_strlit("name_servers");
    assert("count"@.len() == 5 && "zones"@.len() == 5 && "name"@.len() == 4 &&
        "id"@.len() == 2 && "status"@.len() == 6 && "name_servers"@.len() == 12 &&
        "count"@[0] == 'c' && "zones"@[0] == 'z');
}

/// The id of the first result of an answer is the text `id` of that result, and
/// there is none where there is no result.
pub proof fn the_first_result_is_taken(reply: JsonView)
    ensures
        reply.items_at("result"@).len() > 0 ==> first_id(reply) == reply.items_at(
            "result"@,
        )[0].text_at("id"@),
        reply.items_at("result"@).len() == 0 ==> first_id(reply) is None,
{
}

/// Each exchange has its own method and its own URL, and only those that write have
/// a body. An exchange may take 15 seconds.
pub proof fn each_exchange_has_its_url(
    cf: CloudflareView,
    token: Seq<char>,
    zone: Seq<char>,
    goal: GoalView,
    id: Seq<char>,
    page: u32,
    records: Seq<JsonView>,
    record: NewRecordView,
    other: Seq<char>,
)
    requires
        cf.token == Some(token),
    ensures
        TIMEOUT_SECONDS == 15,
        sent(cf, TaskView::Zones) matches CfStepView::Send(r, _) && r.method == CfMethod::Get
            && r.url == cf.base + "/zones?per_page=50"@ && r.body is None && r.token == token,
        sent(cf, TaskView::FindZone { zone, goal }) matches CfStepView::Send(r, _) && r.method
            == CfMethod::Get && r.url == cf.base + ("/zones?name="@ + urlencoded(zone)) && r.body
            is None && r.token == token,
        sent(cf, TaskView::Page { id, page, records }) matches CfStepView::Send(r, _) && r.method
            == CfMethod::Get && r.url == cf.base + ("/zones/"@ + id
            + "/dns_records?per_page=100&page="@ + decimal_of(page as nat)) && r.body is None
            && r.token == token,
        sent(cf, TaskView::FindRecord { id, record }) matches CfStepView::Send(r, _) && r.method
            == CfMethod::Get && r.body is None && r.token == token,
        sent(cf, TaskView::Update { id, existing: other, record }) matches CfStepView::Send(r, _)
            && r.method == CfMethod::Put && r.url == cf.base + ("/zones/"@ + id + "/dns_records/"@
            + other) && r.body is Some && r.token == token,
        sent(cf, TaskView::Create { id, record }) matches CfStepView::Send(r, _) && r.method
            == CfMethod::Post && r.url == cf.base + ("/zones/"@ + id + "/dns_records"@) && r.body
            is Some && r.token == token,
        sent(cf, TaskView::Delete { id, record_id: other }) matches CfStepView::Send(r, _)
            && r.method == CfMethod::Delete && r.url == cf.base + ("/zones/"@ + id + "/dns_records/"@
            + other) && r.body is None && r.token == token,
{
}

/// Whether a text is 32 digits and letters from `a` to `f`.
pub open spec fn is_id(s: Seq<char>) -> bool {
    s.len() == 32 && forall|i: int|
        0 <= i < s.len() ==> '0' <= #[trigger] s[i] <= '9' || 'a' <= s[i] <= 'f'
}

proof fn lemma_is_id(s: Seq<char>)
    ensures
        is_id(s) == looks_like_zone_id(s),
{
    if looks_like_zone_id(s) {
        assert forall|i: int| 0 <= i < s.len() implies '0' <= #[trigger] s[i] <= '9' || 'a' <= s[i]
            <= 'f' by {
            assert(is_hex(s[i]));
        }
    }
}

/// The records of a zone are listed from its first page on. A zone that is given by
/// its id is taken as it is, and one that is given by its name is searched for first;
/// the id of the first zone that is found is taken, and where none is found the
/// answer names the zone.
pub proof fn a_listing_begins_with_the_first_page(
    cf: CloudflareView,
    token: Seq<char>,
    zone: Seq<char>,
    reply: JsonView,
    id: Seq<char>,
)
    requires
        cf.token == Some(token),
    ensures
        ({
            let meant = trimmed(zone);
            let first = in_zone(cf, zone, GoalView::Records);
            let found = reply.items_at("result"@);
            let search = TaskView::FindZone { zone: meant, goal: GoalView::Records };
            &&& is_id(meant) ==> (first matches CfStepView::Send(r, _) && r.url == cf.base
                + ("/zones/"@ + meant + "/dns_records?per_page=100&page=1"@))
            &&& !is_id(meant) ==> (first matches CfStepView::Send(r, task) && task == search
                && r.url == cf.base + ("/zones?name="@ + urlencoded(meant)))
            &&& found.len() > 0 && found[0].text_at("id"@) == Some(id) ==> (proceeded(
                cf,
                search,
                reply,
            ) matches CfStepView::Send(r, _) && r.url == cf.base + ("/zones/"@ + id
                + "/dns_records?per_page=100&page=1"@))
            &&& found.len() == 0 || found[0].text_at("id"@) is None ==> (proceeded(
                cf,
                search,
                reply,
            ) matches CfStepView::Done(Err(e)) && mentions(e, debug_text(meant)))
        }),
{
    let meant = trimmed(zone);
    lemma_is_id(meant);
    reveal_strlit("/dns_records?per_page=100&page=");
    reveal_strlit("/dns_records?per_page=100&page=1");
    assert("/dns_records?per_page=100&page="@.len() == 31 &&
        "/dns_records?per_page=100&page=1"@.len() == 32);
    assert(decimal_of(1) =~= seq!['1']);
    assert("/dns_records?per_page=100&page=1"@ =~= "/dns_records?per_page=100&page="@ + seq!['1']);
    assert("/zones/"@ + meant + "/dns_records?per_page=100&page="@ + seq!['1'] =~= "/zones/"@ + meant
        + "/dns_records?per_page=100&page=1"@);
    assert("/zones/"@ + id + "/dns_records?per_page=100&page="@ + seq!['1'] =~= "/zones/"@ + id
        + "/dns_records?per_page=100&page=1"@);
    let start = "no Cloudflare zone found for name "@;
    lemma_mentions(start, debug_text(meant), Seq::empty());
    assert(start + debug_text(meant) + Seq::<char>::empty() =~= start + debug_text(meant));
}

/// Whether a body writes the record that is asked for: its type in capitals, its name
/// and its content without the white space around them, the given time to live or
/// else 1, and, of the types A, AAAA and CNAME alone, the given proxy flag or else
/// `false`.
pub open spec fn writes_what_is_asked(body: JsonView, params: UpsertView) -> bool {
    let t = uppered(trimmed(params.record_type));
    &&& body.text_at("type"@) == Some(t)
    &&& body.text_at("name"@) == Some(trimmed(params.name))
    &&& body.text_at("content"@) == Some(trimmed(params.content))
    &&& body.get("ttl"@) matches Some(ttl) && ttl.integer() == match params.ttl {
        Some(n) => Some(n),
        None => Some(1),
    }
    &&& t == "A"@ || t == "AAAA"@ || t == "CNAME"@ ==> body.get("proxied"@) == Some(
        JsonView::Bool(
            match params.proxied {
                Some(flag) => flag,
                None => false,
            },
        ),
    )
    &&& t == "TXT"@ || t == "MX"@ ==> body.get("proxied"@) is None
}

proof fn lemma_types_differ()
    ensures
        "TXT"@ != "A"@,
        "TXT"@ != "AAAA"@,
        "TXT"@ != "CNAME"@,
        "MX"@ != "A"@,
        "MX"@ != "AAAA"@,
        "MX"@ != "CNAME"@,
{
    reveal_strlit("A");
    reveal_strlit("AAAA");
    reveal_strlit("CNAME");
    reveal_strlit("TXT");
    reveal_strlit("MX");
    assert("A"@.len() == 1 && "AAAA"@.len() == 4 && "CNAME"@.len() == 5 && "TXT"@.len() == 3 &&
        "MX"@.len() == 2);
}

/// Every body that a write sends, whatever is answered, writes the record that was
/// asked for, and its type is A, AAAA, CNAME, TXT or MX.
pub proof fn a_write_writes_what_is_asked(
    cf: CloudflareView,
    env: Map<Seq<char>, Seq<char>>,
    params: UpsertView,
    outcomes: Seq<HttpOutcomeView>,
)
    ensures
        after(cf, upserted(cf, env, params), outcomes) matches CfStepView::Send(request, _) ==> {
            let t = uppered(trimmed(params.record_type));
            &&& t == "A"@ || t == "AAAA"@ || t == "CNAME"@ || t == "TXT"@ || t == "MX"@
            &&& request.method == CfMethod::Get || request.method == CfMethod::Put || request.method
                == CfMethod::Post
            &&& request.method == CfMethod::Get <==> request.body is None
            &&& request.body matches Some(body) ==> {
                &&& writes_what_is_asked(body, params)
                &&& t == "A"@ || t == "AAAA"@ || t == "CNAME"@ ==> body.get("proxied"@) == Some(
                    JsonView::Bool(
                        match params.proxied {
                            Some(flag) => flag,
                            None => false,
                        },
                    ),
                )
                &&& t == "TXT"@ || t == "MX"@ ==> body.get("proxied"@) is None
            }
        },
{
    broadcast use lemma_member_push;

    a_write_sends_the_record(cf, env, params, outcomes);
    lemma_types_differ();
    reveal_strlit("type");
    reveal_strlit("name");
    reveal_strlit("content");
    reveal_strlit("ttl");
    reveal_strlit("proxied");
    assert("type"@.len() == 4 && "name"@.len() == 4 && "content"@.len() == 7 &&
        "ttl"@.len() == 3 && "proxied"@.len() == 7 && "content"@[0] == 'c' &&
        "name"@[0] == 'n' && "proxied"@[0] == 'p' && "type"@[0] == 't');
}

/// A write that is incomplete sends nothing. What is wrong with it is named, the first
/// thing first: the type of the record, which is shown as it is understood, then a
/// missing name or content. A deletion needs the id of the record.
pub proof fn an_incomplete_write_is_refused(
    cf: CloudflareView,
    env: Map<Seq<char>, Seq<char>>,
    params: UpsertView,
    zone: Seq<char>,
    record_id: Seq<char>,
)
    requires
        may_mutate(env),
    ensures
        ({
            let t = uppered(trimmed(params.record_type));
            let good = t == "A"@ || t == "AAAA"@ || t == "CNAME"@ || t == "TXT"@ || t == "MX"@;
            &&& !good ==> upserted(cf, env, params) == CfStepView::Done(
                Err(
                    "record type "@ + debug_text(t)
                        + " is not allowed for dns_upsert; allowed types: "@
                        + "[\"A\", \"AAAA\", \"CNAME\", \"TXT\", \"MX\"]"@,
                ),
            )
            &&& good && (trimmed(params.name).len() == 0 || trimmed(params.content).len() == 0)
                ==> upserted(cf, env, params) == CfStepView::Done(
                Err("both `name` and `content` are required for dns_upsert"@),
            )
            &&& trimmed(record_id).len() == 0 ==> deleted(cf, env, zone, record_id)
                == CfStepView::Done(Err("`record_id` is required for cloudflare_dns_delete"@))
        }),
{
}

/// A write that is allowed and complete goes to the zone, and begins with a search
/// in it for a record of the same type and name. One of another type, or without a
/// name or a content, is answered at once.
pub proof fn a_complete_write_is_made(
    cf: CloudflareView,
    token: Seq<char>,
    env: Map<Seq<char>, Seq<char>>,
    params: UpsertView,
)
    requires
        cf.token == Some(token),
        may_mutate(env),
    ensures
        ({
            let t = uppered(trimmed(params.record_type));
            let meant = trimmed(params.zone);
            let complete = (t == "A"@ || t == "AAAA"@ || t == "CNAME"@ || t == "TXT"@ || t == "MX"@)
                && trimmed(params.name).len() > 0 && trimmed(params.content).len() > 0;
            &&& !complete ==> (upserted(cf, env, params) matches CfStepView::Done(Err(_)))
            &&& complete && !is_id(meant) ==> (upserted(cf, env, params) matches CfStepView::Send(r, _)
                && r.url == cf.base + ("/zones?name="@ + urlencoded(meant)))
            &&& complete && is_id(meant) ==> (upserted(cf, env, params) matches CfStepView::Send(r, _)
                && r.url == cf.base + ("/zones/"@ + meant + "/dns_records?type="@ + urlencoded(t) + (
            "&name="@ + urlencoded(trimmed(params.name)))))
        }),
{
    let meant = trimmed(params.zone);
    lemma_is_id(meant);
}

/// A zone that was searched for by its name is where the write or the deletion goes
/// on: under the id of the first zone that was found.
pub proof fn a_found_zone_is_written_to(
    cf: CloudflareView,
    token: Seq<char>,
    zone: Seq<char>,
    record: NewRecordView,
    record_id: Seq<char>,
    reply: JsonView,
    id: Seq<char>,
)
    requires
        cf.token == Some(token),
        reply.items_at("result"@).len() > 0,
        reply.items_at("result"@)[0].text_at("id"@) == Some(id),
    ensures
        proceeded(
            cf,
            TaskView::FindZone { zone, goal: GoalView::Upsert(record) },
            reply,
        ) matches CfStepView::Send(r, _) && r.method == CfMethod::Get && r.url == cf.base + (
        "/zones/"@ + id + "/dns_records?type="@ + urlencoded(record.record_type) + ("&name="@
            + urlencoded(record.name))),
        proceeded(
            cf,
            TaskView::FindZone { zone, goal: GoalView::Delete(record_id) },
            reply,
        ) matches CfStepView::Send(r, _) && r.method == CfMethod::Delete && r.url == cf.base + (
        "/zones/"@ + id + "/dns_records/"@ + record_id),
{
}

/// A deletion that is allowed and names a record goes to the zone; one that names
/// none is answered at once.
pub proof fn a_complete_deletion_is_made(
    cf: CloudflareView,
    token: Seq<char>,
    env: Map<Seq<char>, Seq<char>>,
    zone: Seq<char>,
    record_id: Seq<char>,
)
    requires
        cf.token == Some(token),
        may_mutate(env),
    ensures
        ({
            let meant = trimmed(zone);
            let named = trimmed(record_id);
            &&& named.len() == 0 ==> (deleted(cf, env, zone, record_id) matches CfStepView::Done(
                Err(_),
            ))
            &&& named.len() > 0 && !is_id(meant) ==> (deleted(cf, env, zone, record_id) matches CfStepView::Send(
                r,
                _,
            ) && r.url == cf.base + ("/zones?name="@ + urlencoded(meant)))
            &&& named.len() > 0 && is_id(meant) ==> (deleted(cf, env, zone, record_id) matches CfStepView::Send(
                r,
                _,
            ) && r.method == CfMethod::Delete && r.url == cf.base + ("/zones/"@ + meant
                + "/dns_records/"@ + named))
        }),
{
    let meant = trimmed(zone);
    lemma_is_id(meant);
}

/// What was done to a record is told: which action it was, in which zone, and the
/// record as the answer holds it, or what a deletion was answered.
pub proof fn what_was_done_is_told(
    cf: CloudflareView,
    id: Seq<char>,
    record: NewRecordView,
    other: Seq<char>,
    reply: JsonView,
)
    ensures
        proceeded(
            cf,
            TaskView::Update { id, existing: other, record },
            reply,
        ) matches CfStepView::Done(Ok(told)) && tells(told, "updated"@, id, reply),
        proceeded(cf, TaskView::Create { id, record }, reply) matches CfStepView::Done(Ok(told))
            && tells(told, "created"@, id, reply),
        proceeded(cf, TaskView::Delete { id, record_id: other }, reply) matches CfStepView::Done(
            Ok(told),
        ) && told.text_at("action"@) == Some("deleted"@) && told.text_at("zone_id"@) == Some(id)
            && told.get("result"@) == Some(
            match reply.get("result"@) {
                Some(result) => result,
                None => JsonView::Null,
            },
        ),
{
    broadcast use lemma_member_push;

    if let Some(result) = reply.get("result"@) {
        a_record_is_shown_as_it_is(result);
    }
    reveal_strlit("action");
    reveal_strlit("zone_id");
    reveal_strlit("record");
    reveal_strlit("result");
    assert("action"@.len() == 6 && "zone_id"@.len() == 7 && "record"@.len() == 6 &&
        "result"@.len() == 6 && "action"@[0] == 'a' && "record"@[0] == 'r' &&
        "record"@[2] == 'c' && "result"@[0] == 'r' && "result"@[2] == 's');
}

/// Whether this tells of an action on a record: in which zone, and the record as the
/// answer holds it.
pub open spec fn tells(told: JsonView, action: Seq<char>, id: Seq<char>, reply: JsonView) -> bool {
    &&& told.text_at("action"@) == Some(action)
    &&& told.text_at("zone_id"@) == Some(id)
    &&& match reply.get("result"@) {
        Some(result) => told.get("record"@) matches Some(shown) && shows_record(shown, result),
        None => told.get("record"@) == Some(JsonView::Null),
    }
}

/// An answer counts as a success exactly where its member `success` is `true`,
/// whatever its status is. Every other exchange ends in an error: one that was
/// answered shows the status, and one that was not shows the URL and the reason.
pub proof fn an_answer_is_judged_by_its_envelope(
    url: Seq<char>,
    code: u16,
    body: Seq<char>,
    e: Seq<char>,
)
    ensures
        ({
            let reply = json_or_text(body);
            let result = received(url, HttpOutcomeView::Reply(code, body));
            &&& reply.get("success"@) == Some(JsonView::Bool(true)) ==> result == Ok::<
                JsonView,
                Seq<char>,
            >(reply)
            &&& reply.get("success"@) != Some(JsonView::Bool(true)) ==> (result matches Err(message)
                && mentions(message, status_text(code)))
        }),
        received(url, HttpOutcomeView::Unsent(e)) matches Err(message) && mentions(message, url)
            && mentions(message, e),
        received(url, HttpOutcomeView::Unread(e)) matches Err(message) && mentions(message, url)
            && mentions(message, e),
{
    let none = Seq::<char>::empty();
    let reply = json_or_text(body);
    let start = "Cloudflare API error ("@;
    let parts = joined(
        reply.items_at("errors"@).map_values(|e: JsonView| error_part(e)),
        "; "@,
    );
    lemma_mentions(start, status_text(code), "): "@ + parts);
    assert(start + status_text(code) + ("): "@ + parts) =~= start + status_text(code) + "): "@
        + parts);
    lemma_mentions(start, status_text(code), ")"@);
    let a = "Cloudflare request to "@;
    let b = "reading Cloudflare response from "@;
    let f = " failed: "@;
    lemma_mentions(a, url, f + e);
    assert(a + url + (f + e) =~= a + url + f + e);
    lemma_mentions(a + url + f, e, none);
    assert(a + url + f + e + none =~= a + url + f + e);
    lemma_mentions(b, url, f + e);
    assert(b + url + (f + e) =~= b + url + f + e);
    lemma_mentions(b + url + f, e, none);
    assert(b + url + f + e + none =~= b + url + f + e);
}

/// An error of an answer is shown by its code in square brackets and its message:
/// 0 where it has no code, and a note where it has no message.
pub proof fn an_error_is_shown_with_its_code(
    reply: JsonView,
    code: u16,
    i: int,
    number: i64,
    message: Seq<char>,
)
    requires
        !reports_success(reply),
        0 <= i < reply.items_at("errors"@).len(),
        match reply.items_at("errors"@)[i].get("code"@) {
            Some(value) => value.integer() == Some(number) || (value.integer() is None && number
                == 0),
            None => number == 0,
        },
        match reply.items_at("errors"@)[i].text_at("message"@) {
            Some(said) => message == said,
            None => message == "(no message)"@,
        },
    ensures
        judged(reply, code) matches Err(e) && mentions(
            e,
            "["@ + signed_decimal_of(number as int) + "] "@ + message,
        ),
{
    let parts = reply.items_at("errors"@).map_values(|e: JsonView| error_part(e));
    let start = "Cloudflare API error ("@ + status_text(code) + "): "@;
    lemma_mentions_joined(parts, "; "@, i);
    lemma_mentions_after(start, joined(parts, "; "@), parts[i]);
}

/// Writes are allowed exactly where `FIDUCIA_MCP_ALLOW_MUTATIONS` is `1`, the token
/// is the value of `CLOUDFLARE_API_TOKEN`, and the exchanges are made with the
/// Cloudflare API.
pub proof fn the_environment_decides(env: Map<Seq<char>, Seq<char>>)
    ensures
        may_mutate(env) <==> env.contains_key("FIDUCIA_MCP_ALLOW_MUTATIONS"@)
            && env["FIDUCIA_MCP_ALLOW_MUTATIONS"@] == "1"@,
        nonempty_value(env, CF_TOKEN_ENV@) == (if env.contains_key("CLOUDFLARE_API_TOKEN"@)
            && trimmed(env["CLOUDFLARE_API_TOKEN"@]).len() > 0 {
            Some(env["CLOUDFLARE_API_TOKEN"@])
        } else {
            None
        }),
        without_end(CF_API_BASE@, '/') == "https://api.cloudflare.com/client/v4"@,
{
    reveal_strlit("1");
    reveal_strlit("https://api.cloudflare.com/client/v4");
    assert("1"@.len() == 1 && "1"@[0] == '1');
    assert("1"@.first() == '1' && "1"@.last() == '1');
    assert(trimmed("1"@) == "1"@);
    assert("https://api.cloudflare.com/client/v4"@.last() == '4');
}

} // verus!
