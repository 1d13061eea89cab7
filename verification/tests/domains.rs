use fiducia_mcp_server::domains::{
    classify, cloudflare_ns_check, dns_check, first_answer, fqdn, last_answer, parse_rdap, query,
    record_edge, record_pages, record_servers, record_values, registrar_status, resolve_location,
    vcard_fn, DnsCheckInput, DnsType, QueryOutcome, QueryReply, RdapOutcome, RdapStep, Resolve,
};
use fiducia_mcp_server::http::HttpStatus;
use fiducia_mcp_server::json::{parse_json, Json};
use std::collections::HashMap;

/// Answers from canned records, keyed by the name with its dot and the type.
struct MockResolver {
    records: HashMap<(String, DnsType), Vec<String>>,
}

impl MockResolver {
    fn new() -> Self {
        Self { records: HashMap::new() }
    }

    fn with(mut self, name: &str, t: DnsType, values: &[&str]) -> Self {
        self.records.insert(
            (fqdn(name), t),
            values.iter().map(|s| s.to_string()).collect(),
        );
        self
    }
}

impl Resolve for MockResolver {
    fn lookup(&self, name: &str, record: DnsType) -> Result<Vec<String>, String> {
        let key = (fqdn(name), record);
        Ok(self.records.get(&key).cloned().unwrap_or_default())
    }
}

/// Fails every lookup.
struct BrokenResolver;

impl Resolve for BrokenResolver {
    fn lookup(&self, name: &str, record: DnsType) -> Result<Vec<String>, String> {
        Err(format!("no answer for {name} {}", record.as_str()))
    }
}

fn json(text: &str) -> Json {
    parse_json(text).unwrap()
}

fn list(values: &[&str]) -> Vec<String> {
    values.iter().map(|s| s.to_string()).collect()
}

fn text<'a>(tree: &'a Json, key: &str) -> &'a str {
    tree.get(key).and_then(|v| v.as_str()).unwrap_or("?")
}

fn items<'a>(tree: &'a Json, key: &str) -> &'a Vec<Json> {
    tree.get(key).and_then(|v| v.as_array()).unwrap()
}

fn count(tree: &Json, key: &str) -> u64 {
    tree.get("summary")
        .and_then(|s| s.get(key))
        .and_then(|n| n.as_u64())
        .unwrap()
}

fn preset() -> DnsCheckInput {
    DnsCheckInput {
        name: None,
        record_type: None,
        values: None,
        preset: Some("fiducia".into()),
    }
}

#[test]
fn preset_all_correct_passes() {
    let resolver = MockResolver::new()
        .with("fiducia.cloud", DnsType::A, &["185.199.108.153"])
        .with("www.fiducia.cloud", DnsType::Cname, &["fiducia-cloud.github.io"])
        .with("app.fiducia.cloud", DnsType::A, &["95.217.171.250"])
        .with("admin.fiducia.cloud", DnsType::A, &["95.217.171.250"])
        .with(
            "fiducia.cloud",
            DnsType::Ns,
            &["ana.ns.cloudflare.com", "bob.ns.cloudflare.com"],
        );
    let out = dns_check(&resolver, preset()).unwrap();
    assert_eq!(count(&out, "pass"), 5, "all five checks pass: {}", out.to_text());
    assert_eq!(count(&out, "pending"), 0);
    assert_eq!(count(&out, "mismatch"), 0);
}

#[test]
fn preset_reports_pending_and_mismatch() {
    // app is missing, admin has a wrong address, and the name servers are still
    // those of the registrar; the pages records are there.
    let resolver = MockResolver::new()
        .with("fiducia.cloud", DnsType::A, &["185.199.109.153"])
        .with("www.fiducia.cloud", DnsType::A, &["185.199.110.153"])
        .with("admin.fiducia.cloud", DnsType::A, &["203.0.113.9"])
        .with("fiducia.cloud", DnsType::Ns, &["ns1.squarespacedns.com"]);
    let out = dns_check(&resolver, preset()).unwrap();
    let checks = items(&out, "checks");
    let by_name = |n: &str| checks.iter().find(|c| text(c, "name") == n).unwrap();
    assert_eq!(text(by_name("fiducia.cloud"), "status"), "PASS");
    assert_eq!(text(by_name("www.fiducia.cloud"), "status"), "PASS");
    assert_eq!(text(by_name("app.fiducia.cloud"), "status"), "PENDING");
    assert_eq!(text(by_name("admin.fiducia.cloud"), "status"), "MISMATCH");
    // The check of the name servers has the same name; it is found by what it
    // expects.
    let ns_check = checks
        .iter()
        .find(|c| text(c, "expect").contains("cloudflare"))
        .unwrap();
    assert_eq!(text(ns_check, "status"), "MISMATCH");
    assert_eq!(count(&out, "pass"), 2);
    assert_eq!(count(&out, "pending"), 1);
    assert_eq!(count(&out, "mismatch"), 2);
}

#[test]
fn cloudflare_ns_detection() {
    let good = MockResolver::new().with(
        "fiducia.cloud",
        DnsType::Ns,
        &["ana.ns.cloudflare.com", "bob.ns.cloudflare.com"],
    );
    assert_eq!(text(&cloudflare_ns_check(&good, "fiducia.cloud"), "status"), "PASS");

    let mixed = MockResolver::new().with(
        "fiducia.cloud",
        DnsType::Ns,
        &["ana.ns.cloudflare.com", "ns1.squarespacedns.com"],
    );
    assert_eq!(
        text(&cloudflare_ns_check(&mixed, "fiducia.cloud"), "status"),
        "MISMATCH"
    );

    let none = MockResolver::new();
    assert_eq!(
        text(&cloudflare_ns_check(&none, "fiducia.cloud"), "status"),
        "PENDING"
    );
}

#[test]
fn custom_check_matches_expected_value() {
    let resolver = MockResolver::new().with("x.fiducia.cloud", DnsType::A, &["10.0.0.1"]);
    let out = dns_check(
        &resolver,
        DnsCheckInput {
            name: Some("x.fiducia.cloud".into()),
            record_type: Some("A".into()),
            values: Some(vec!["10.0.0.1".into()]),
            preset: None,
        },
    )
    .unwrap();
    assert_eq!(text(&items(&out, "checks")[0], "status"), "PASS");
}

#[test]
fn dns_check_requires_name_or_preset() {
    let resolver = MockResolver::new();
    let err = dns_check(
        &resolver,
        DnsCheckInput { name: None, record_type: None, values: None, preset: None },
    )
    .unwrap_err();
    assert!(err.contains("preset"));
}

#[test]
fn dns_check_refuses_what_it_does_not_know() {
    let resolver = MockResolver::new();
    let input = |preset: Option<&str>, name: Option<&str>, record_type: Option<&str>| DnsCheckInput {
        name: name.map(str::to_string),
        record_type: record_type.map(str::to_string),
        values: None,
        preset: preset.map(str::to_string),
    };
    assert_eq!(
        dns_check(&resolver, input(Some("other"), None, None)),
        Err("unknown preset \"other\"; the only built-in preset is \"fiducia\"".to_string())
    );
    assert_eq!(
        dns_check(&resolver, input(Some("  "), Some(" "), None)),
        Err("provide `name` (optionally with `type` + `values`), or preset:\"fiducia\"".to_string())
    );
    assert_eq!(
        dns_check(&resolver, input(None, Some("a.b"), Some("srv"))),
        Err("unsupported DNS record type \"SRV\"".to_string())
    );
    let out = dns_check(&resolver, input(None, Some(" a.b "), None)).unwrap();
    assert_eq!(
        out.to_text(),
        "{\"checks\":[{\"expected\":null,\"found\":[],\"name\":\"a.b\",\"status\":\"PENDING\",\
         \"type\":\"A\"}],\"name\":\"a.b\",\"type\":\"A\"}"
    );
}

#[test]
fn failed_lookups_are_errors_or_count_as_empty() {
    let out = dns_check(&BrokenResolver, preset()).unwrap();
    let checks = items(&out, "checks");
    assert_eq!(text(&checks[0], "status"), "PENDING");
    assert_eq!(text(&checks[2], "status"), "ERROR");
    assert_eq!(text(&checks[2], "error"), "no answer for app.fiducia.cloud A");
    assert_eq!(text(&checks[4], "status"), "PENDING");
    assert_eq!(count(&out, "pending"), 3);
    assert_eq!(count(&out, "mismatch"), 2);

    let check = record_values("n", DnsType::Txt, None, &Err("down".to_string()));
    assert_eq!(
        check.to_text(),
        "{\"error\":\"down\",\"name\":\"n\",\"status\":\"ERROR\",\"type\":\"TXT\"}"
    );
}

#[test]
fn values_are_classified() {
    let none: Vec<String> = Vec::new();
    assert_eq!(classify(&none, None), "PENDING");
    assert_eq!(classify(&none, Some(&list(&["a"]))), "PENDING");
    assert_eq!(classify(&list(&["a"]), None), "PASS");
    assert_eq!(classify(&list(&["x", "A"]), Some(&list(&["b", "a"]))), "PASS");
    assert_eq!(classify(&list(&["x"]), Some(&list(&["b", "a"]))), "MISMATCH");
    assert_eq!(classify(&list(&["x"]), Some(&none)), "MISMATCH");
}

#[test]
fn checks_are_recorded() {
    let pages = record_pages("p", Err("e".into()), Ok(list(&["Fiducia-Cloud.github.io"])));
    assert_eq!(text(&pages, "status"), "PASS");
    let pages = record_pages("p", Ok(list(&["1.2.3.4"])), Ok(Vec::new()));
    assert_eq!(text(&pages, "status"), "MISMATCH");
    assert_eq!(
        pages.get("found").unwrap().to_text(),
        "{\"A\":[\"1.2.3.4\"],\"CNAME\":[]}"
    );
    let edge = record_edge("e", &Ok(list(&["95.217.171.250"])));
    assert_eq!(text(&edge, "status"), "PASS");
    assert_eq!(text(&edge, "expect"), "A 95.217.171.250 (Hetzner edge)");
    let servers = record_servers("s", Ok(list(&["A.NS.Cloudflare.com"])));
    assert_eq!(text(&servers, "status"), "PASS");
}

#[test]
fn record_types_are_read_from_their_names() {
    for t in [
        DnsType::A,
        DnsType::Aaaa,
        DnsType::Cname,
        DnsType::Ns,
        DnsType::Txt,
        DnsType::Mx,
    ] {
        assert_eq!(DnsType::parse(t.as_str()), Ok(t));
        assert_eq!(DnsType::parse(&format!(" {} ", t.as_str().to_lowercase())), Ok(t));
    }
    assert_eq!(
        DnsType::parse("ptr"),
        Err("unsupported DNS record type \"PTR\"".to_string())
    );
}

#[test]
fn names_get_one_dot() {
    assert_eq!(fqdn(" fiducia.cloud "), "fiducia.cloud.");
    assert_eq!(fqdn("fiducia.cloud."), "fiducia.cloud.");
    assert_eq!(fqdn(""), ".");
}

#[test]
fn queries_keep_the_records_of_their_type() {
    let records = vec![
        ("CNAME".to_string(), "alias.example.".to_string()),
        ("A".to_string(), "1.2.3.4".to_string()),
    ];
    match query("n.", DnsType::A, QueryReply::Records(records)) {
        QueryOutcome::Values(values) => assert_eq!(values, list(&["1.2.3.4"])),
        other => panic!("{other:?}"),
    }
    let records = vec![("NS".to_string(), "a.ns.example.".to_string())];
    match query("n.", DnsType::Ns, QueryReply::Records(records)) {
        QueryOutcome::Values(values) => assert_eq!(values, list(&["a.ns.example"])),
        other => panic!("{other:?}"),
    }
    match query("n.", DnsType::Mx, QueryReply::Failed("timeout".to_string())) {
        QueryOutcome::Soft(e) => assert_eq!(e, "DNS lookup for n. MX failed: timeout"),
        other => panic!("{other:?}"),
    }
}

#[test]
fn later_servers_are_asked_after_a_failure_only() {
    assert_eq!(
        first_answer(QueryOutcome::Values(list(&["a"]))),
        Some(list(&["a"]))
    );
    assert_eq!(
        first_answer(query("n.", DnsType::A, QueryReply::NoRecords)),
        Some(Vec::new())
    );
    assert_eq!(first_answer(QueryOutcome::Soft("e".into())), None);
    assert_eq!(last_answer(QueryOutcome::Soft("e".into())), Err("e".to_string()));
    assert_eq!(last_answer(QueryOutcome::Empty), Ok(Vec::new()));
    assert_eq!(last_answer(QueryOutcome::Values(list(&["a"]))), Ok(list(&["a"])));
}

const CANNED_RDAP: &str = r#"{
    "objectClassName": "domain",
    "ldhName": "fiducia.cloud",
    "status": ["client transfer prohibited", "active"],
    "nameservers": [
        { "objectClassName": "nameserver", "ldhName": "ana.ns.cloudflare.com" },
        { "objectClassName": "nameserver", "ldhName": "bob.ns.cloudflare.com" }
    ],
    "entities": [{
        "objectClassName": "entity",
        "handle": "123",
        "roles": ["registrar"],
        "vcardArray": ["vcard", [
            ["version", {}, "text", "4.0"],
            ["fn", {}, "text", "Squarespace Domains II LLC"]
        ]]
    }],
    "events": [
        { "eventAction": "registration", "eventDate": "2020-01-01T00:00:00Z" },
        { "eventAction": "expiration", "eventDate": "2027-01-01T00:00:00Z" }
    ]
}"#;

fn rdap_reply(code: u16, location: Option<&str>, body: &str) -> RdapOutcome {
    RdapOutcome::Reply {
        status: HttpStatus::new(code).unwrap(),
        location: location.map(str::to_string),
        body: Ok(body.to_string()),
    }
}

/// Makes the exchanges with these outcomes and returns the URLs and the result.
fn rdap(base: &str, domain: &str, outcomes: Vec<RdapOutcome>) -> (Vec<String>, Result<Json, String>) {
    let mut urls = Vec::new();
    let mut outcomes = outcomes.into_iter();
    let mut step = registrar_status(base, domain);
    loop {
        match step {
            RdapStep::Done(result) => return (urls, result),
            RdapStep::Send(task) => {
                let request = task.request();
                assert_eq!(request.accept, "application/rdap+json");
                urls.push(request.url);
                step = task.resume(outcomes.next().expect("one exchange too many"));
            }
        }
    }
}

#[test]
fn rdap_follows_one_redirect_and_parses() {
    let (urls, out) = rdap(
        "http://x",
        "fiducia.cloud",
        vec![
            rdap_reply(302, Some("/registry/domain/fiducia.cloud"), ""),
            rdap_reply(200, None, CANNED_RDAP),
        ],
    );
    let out = out.unwrap();
    assert_eq!(
        urls,
        list(&[
            "http://x/domain/fiducia.cloud",
            "http://x/registry/domain/fiducia.cloud"
        ])
    );
    assert_eq!(text(&out, "registrar"), "Squarespace Domains II LLC");
    assert_eq!(
        items(&out, "nameservers")[0].as_str(),
        Some("ana.ns.cloudflare.com")
    );
    assert_eq!(
        items(&out, "nameservers")[1].as_str(),
        Some("bob.ns.cloudflare.com")
    );
    assert_eq!(text(&out, "expiry"), "2027-01-01T00:00:00Z");
    assert!(items(&out, "status").iter().any(|s| s.as_str() == Some("active")));
}

#[test]
fn rdap_failures_are_reported() {
    let one = |outcome: RdapOutcome| rdap("http://x/", " d.e.. ", vec![outcome]).1.unwrap_err();
    assert_eq!(
        one(RdapOutcome::Unsent("refused".into())),
        "RDAP request to http://x/domain/d.e failed: refused"
    );
    assert_eq!(
        one(rdap_reply(301, None, "")),
        "RDAP http://x/domain/d.e returned 301 Moved Permanently without a Location header"
    );
    assert_eq!(
        one(rdap_reply(404, None, "{}")),
        "RDAP lookup for d.e returned 404 Not Found"
    );
    assert_eq!(
        one(RdapOutcome::Reply {
            status: HttpStatus::new(200).unwrap(),
            location: None,
            body: Err("reset".into()),
        }),
        "reading RDAP response for d.e failed: reset"
    );
    assert!(one(rdap_reply(200, None, "<")).starts_with("RDAP response was not JSON: expected value"));
    let (_, second) = rdap(
        "http://x",
        "d",
        vec![
            rdap_reply(302, Some("https://y/z"), ""),
            RdapOutcome::Unsent("refused".into()),
        ],
    );
    assert_eq!(second, Err("RDAP redirect to https://y/z failed: refused".to_string()));
    let (_, third) = rdap(
        "http://x",
        "d",
        vec![
            rdap_reply(302, Some("https://y/z"), ""),
            rdap_reply(302, Some("https://y/y"), ""),
        ],
    );
    assert_eq!(third, Err("RDAP lookup for d returned 302 Found".to_string()));
    let (urls, none) = rdap("http://x", " . ", Vec::new());
    assert!(urls.is_empty());
    assert_eq!(none, Err("`domain` is required".to_string()));
}

#[test]
fn resolve_location_absolute_and_relative() {
    assert_eq!(resolve_location("http://x", "https://y/z"), "https://y/z");
    assert_eq!(resolve_location("http://x/", "/a/b"), "http://x/a/b");
    assert_eq!(resolve_location("http://x", "a/b"), "http://x/a/b");
}

#[test]
fn rdap_records_are_summarized() {
    let record = json(
        r#"{"entities":[
            {"roles":["registrant"],"handle":"no"},
            {"roles":["abuse","registrar"],"vcardArray":["vcard",[["fn",{},"text"]]]},
            {"roles":["registrar"],"handle":"H-1"}],
          "nameservers":[{"ldhName":"NS1.Example."},{"x":1}],
          "status":["ok",1],
          "events":[{"eventAction":"expiration"},{"eventAction":"expiration","eventDate":"2030"}]}"#,
    );
    assert_eq!(
        parse_rdap("d", &record).to_text(),
        "{\"domain\":\"d\",\"expiry\":null,\"nameservers\":[\"ns1.example\"],\
         \"registrar\":\"H-1\",\"status\":[\"ok\"]}"
    );
    assert_eq!(
        parse_rdap("d", &json("[]")).to_text(),
        "{\"domain\":\"d\",\"expiry\":null,\"nameservers\":[],\"registrar\":null,\"status\":[]}"
    );
    assert_eq!(
        vcard_fn(&json(r#"{"vcardArray":["vcard",[1,["fn",{},"text","N"]]]}"#)),
        Some("N")
    );
    assert_eq!(vcard_fn(&json(r#"{"vcardArray":["vcard"]}"#)), None);
}
