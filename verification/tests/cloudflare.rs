use fiducia_mcp_server::cloudflare::{
    cf_error, is_zone_id, judge, mutations_allowed, summarize_record, CfMethod, CfRequest, CfStep,
    Cloudflare, UpsertParams, ALLOW_MUTATIONS_ENV, CF_TOKEN_ENV,
};
use fiducia_mcp_server::env_map::EnvMap;
use fiducia_mcp_server::http::{HttpOutcome, HttpStatus};
use fiducia_mcp_server::json::{parse_json, Json};

const ZONE: &str = "0123456789abcdef0123456789abcdef";

fn unlocked() -> EnvMap {
    let mut env = EnvMap::new();
    env.insert(ALLOW_MUTATIONS_ENV.to_string(), "1".to_string());
    env
}

fn json(text: &str) -> Json {
    parse_json(text).unwrap()
}

fn cf() -> Cloudflare {
    Cloudflare::with_base("http://cf".to_string(), Some("test-token".to_string()))
}

/// Makes every exchange with `answer` and returns the requests and the result.
fn drive<F>(cf: &Cloudflare, first: CfStep, mut answer: F) -> (Vec<CfRequest>, Result<Json, String>)
where
    F: FnMut(&CfRequest) -> (u16, String),
{
    let mut seen = Vec::new();
    let mut step = first;
    loop {
        match step {
            CfStep::Done(result) => return (seen, result),
            CfStep::Send(request, task) => {
                let (code, body) = answer(&request);
                seen.push(request);
                let outcome = HttpOutcome::Reply(HttpStatus::new(code).unwrap(), body);
                step = cf.resume(task, &outcome);
            }
        }
    }
}

fn text<'a>(tree: &'a Json, key: &str) -> &'a str {
    tree.get(key).and_then(|v| v.as_str()).unwrap()
}

fn item<'a>(tree: &'a Json, key: &str, i: usize) -> &'a Json {
    &tree.get(key).and_then(|v| v.as_array()).unwrap()[i]
}

fn params(record_type: &str, name: &str, ttl: Option<i64>, proxied: Option<bool>) -> UpsertParams {
    UpsertParams {
        zone: ZONE.to_string(),
        record_type: record_type.to_string(),
        name: name.to_string(),
        content: "95.217.171.250".to_string(),
        ttl,
        proxied,
    }
}

/// Answers like an API with or without a record of the name.
fn records_api(existing: bool, request: &CfRequest) -> (u16, String) {
    let id = match request.method {
        CfMethod::Get => {
            let result = if existing {
                "[{\"id\":\"existing-rec\",\"type\":\"A\"}]"
            } else {
                "[]"
            };
            return (200, format!("{{\"success\":true,\"errors\":[],\"result\":{result}}}"));
        }
        CfMethod::Post => "new-rec",
        CfMethod::Put => "existing-rec",
        CfMethod::Delete => panic!("nothing is deleted"),
    };
    let body = request.body.as_ref().unwrap();
    (
        200,
        format!(
            "{{\"success\":true,\"errors\":[],\"result\":{{\"id\":\"{id}\",\"type\":{},\"ttl\":{}}}}}",
            body.get("type").unwrap().to_text(),
            body.get("ttl").unwrap().to_text()
        ),
    )
}

#[test]
fn zones_sends_bearer_and_maps_fields() {
    let cf = cf();
    let (seen, out) = drive(&cf, cf.zones(), |request| {
        if request.token != "test-token" {
            return (403, "{\"success\":false,\"errors\":[]}".to_string());
        }
        let body = "{\"success\":true,\"errors\":[],\"result\":[{\"name\":\"fiducia.cloud\",\
                    \"id\":\"z1\",\"status\":\"active\",\"name_servers\":[\"a.ns.cloudflare.com\",\
                    \"b.ns.cloudflare.com\"],\"extra\":\"dropped\"}]}";
        (200, body.to_string())
    });
    let out = out.unwrap();
    assert_eq!(seen.len(), 1);
    assert_eq!(seen[0].token, "test-token");
    assert_eq!(seen[0].url, "http://cf/zones?per_page=50");
    assert_eq!(out.get("count").and_then(|v| v.as_u64()), Some(1));
    assert_eq!(text(item(&out, "zones", 0), "name"), "fiducia.cloud");
    assert_eq!(text(item(&out, "zones", 0), "id"), "z1");
    assert!(
        item(&out, "zones", 0).get("extra").is_none(),
        "only the listed fields are kept"
    );
}

#[test]
fn dns_records_follows_pagination() {
    let cf = cf();
    let mut page = 0;
    let (seen, out) = drive(&cf, cf.dns_records(ZONE), |_| {
        page += 1;
        let body = format!(
            "{{\"success\":true,\"errors\":[],\"result\":[{{\"id\":\"r{page}\",\"type\":\"A\",\
             \"name\":\"h{page}.fiducia.cloud\",\"content\":\"1.2.3.4\",\"proxied\":false,\
             \"ttl\":1}}],\"result_info\":{{\"page\":{page},\"total_pages\":2}}}}"
        );
        (200, body)
    });
    let out = out.unwrap();
    assert_eq!(
        out.get("count").and_then(|v| v.as_u64()),
        Some(2),
        "both pages accumulated"
    );
    assert_eq!(text(item(&out, "records", 0), "id"), "r1");
    assert_eq!(text(item(&out, "records", 1), "id"), "r2");
    let urls: Vec<&str> = seen.iter().map(|r| r.url.as_str()).collect();
    assert_eq!(
        urls,
        vec![
            "http://cf/zones/0123456789abcdef0123456789abcdef/dns_records?per_page=100&page=1",
            "http://cf/zones/0123456789abcdef0123456789abcdef/dns_records?per_page=100&page=2",
        ]
    );
    assert!(seen.iter().all(|r| r.method == CfMethod::Get && r.body.is_none()));
}

#[test]
fn error_envelope_is_mapped_without_token() {
    let cf = Cloudflare::with_base("http://cf".into(), Some("super-secret-token".into()));
    let (_, out) = drive(&cf, cf.zones(), |_| {
        let body =
            "{\"success\":false,\"errors\":[{\"code\":9109,\"message\":\"Invalid access token\"}]}";
        (403, body.to_string())
    });
    let err = out.unwrap_err();
    assert!(err.contains("9109"), "surfaces the CF error code: {err}");
    assert!(err.contains("Invalid access token"), "surfaces the message: {err}");
    assert!(!err.contains("super-secret-token"), "must never leak the token: {err}");
    assert_eq!(
        err,
        "Cloudflare API error (403 Forbidden): [9109] Invalid access token"
    );
}

#[test]
fn missing_token_names_the_env_var() {
    let cf = Cloudflare::with_base("http://127.0.0.1:1".into(), None);
    let (seen, out) = drive(&cf, cf.zones(), |_| panic!("nothing is sent"));
    let err = out.unwrap_err();
    assert!(seen.is_empty());
    assert!(err.contains(CF_TOKEN_ENV));
}

#[test]
fn upsert_creates_when_absent() {
    let cf = cf();
    // A type in lower case is normalized.
    let first = cf.dns_upsert(&unlocked(), params("a", "app.fiducia.cloud", None, None));
    let (seen, out) = drive(&cf, first, |request| records_api(false, request));
    let out = out.unwrap();
    assert_eq!(text(&out, "action"), "created");
    assert_eq!(text(out.get("record").unwrap(), "id"), "new-rec");
    assert!(seen[0].url.ends_with("/dns_records?type=A&name=app.fiducia.cloud"));
    assert!(seen.iter().any(|r| r.method == CfMethod::Post));
    assert!(!seen.iter().any(|r| r.method == CfMethod::Put));
    let body = seen[1].body.as_ref().unwrap();
    assert_eq!(
        body.to_text(),
        "{\"content\":\"95.217.171.250\",\"name\":\"app.fiducia.cloud\",\"proxied\":false,\
         \"ttl\":1,\"type\":\"A\"}"
    );
}

#[test]
fn upsert_updates_when_present() {
    let cf = cf();
    let first = cf.dns_upsert(
        &unlocked(),
        params("A", "app.fiducia.cloud", Some(300), Some(true)),
    );
    let (seen, out) = drive(&cf, first, |request| records_api(true, request));
    let out = out.unwrap();
    assert_eq!(text(&out, "action"), "updated");
    assert_eq!(text(out.get("record").unwrap(), "id"), "existing-rec");
    assert!(seen.iter().any(|r| r.method == CfMethod::Put));
    assert!(!seen.iter().any(|r| r.method == CfMethod::Post));
    assert!(seen[1].url.ends_with("/dns_records/existing-rec"));
    let body = seen[1].body.as_ref().unwrap();
    assert_eq!(body.get("ttl").and_then(|v| v.as_i64()), Some(300));
    assert_eq!(body.get("proxied").and_then(|v| v.as_bool()), Some(true));
}

#[test]
fn upsert_rejects_disallowed_type() {
    let cf = cf();
    let first = cf.dns_upsert(
        &unlocked(),
        UpsertParams {
            zone: ZONE.into(),
            record_type: "NS".into(),
            name: "x.fiducia.cloud".into(),
            content: "a.ns.cloudflare.com".into(),
            ttl: None,
            proxied: None,
        },
    );
    let (_, out) = drive(&cf, first, |_| panic!("nothing is sent"));
    let err = out.unwrap_err();
    assert!(err.contains("NS"));
    assert!(err.contains("not allowed"));
    assert_eq!(
        err,
        "record type \"NS\" is not allowed for dns_upsert; allowed types: \
         [\"A\", \"AAAA\", \"CNAME\", \"TXT\", \"MX\"]"
    );
}

#[test]
fn upsert_denied_without_gate_and_never_calls_api() {
    let cf = cf();
    let first = cf.dns_upsert(&EnvMap::new(), params("A", "app.fiducia.cloud", None, None));
    let (seen, out) = drive(&cf, first, |request| records_api(false, request));
    let err = out.unwrap_err();
    assert!(err.contains(ALLOW_MUTATIONS_ENV), "names the variable: {err}");
    assert!(seen.is_empty(), "nothing is sent");
}

#[test]
fn delete_requires_gate() {
    let cf = cf();
    let (seen, out) = drive(&cf, cf.dns_delete(&EnvMap::new(), ZONE, "rec-1"), |_| {
        panic!("nothing is sent")
    });
    assert!(seen.is_empty());
    assert!(out.unwrap_err().contains(ALLOW_MUTATIONS_ENV));
}

#[test]
fn delete_hits_record_path_when_gated() {
    let cf = cf();
    let (seen, out) = drive(&cf, cf.dns_delete(&unlocked(), ZONE, "rec-42"), |request| {
        let rec = request.url.rsplit('/').next().unwrap();
        (
            200,
            format!("{{\"success\":true,\"errors\":[],\"result\":{{\"id\":\"{rec}\"}}}}"),
        )
    });
    let out = out.unwrap();
    assert_eq!(text(&out, "action"), "deleted");
    assert_eq!(seen.len(), 1);
    assert_eq!(seen[0].method, CfMethod::Delete);
    assert_eq!(seen[0].url.rsplit('/').next(), Some("rec-42"));
    assert_eq!(text(out.get("result").unwrap(), "id"), "rec-42");
}

#[test]
fn zone_id_detection() {
    assert!(is_zone_id("0123456789abcdef0123456789abcdef"));
    assert!(!is_zone_id("fiducia.cloud"));
    assert!(!is_zone_id("0123456789abcdef")); // too short
}

#[test]
fn zone_ids_are_hexadecimal_in_lower_case() {
    assert!(is_zone_id("ffffffffffffffffffffffffffffffff"));
    assert!(!is_zone_id("0123456789ABCDEF0123456789ABCDEF"));
    assert!(!is_zone_id("0123456789abcdef0123456789abcdeg"));
    assert!(!is_zone_id("0123456789abcdef0123456789abcdef0"));
}

#[test]
fn a_zone_name_is_looked_up_first() {
    let cf = Cloudflare::with_base("http://cf//".into(), Some("t".into()));
    let (seen, out) = drive(&cf, cf.dns_records(" fiducia cloud "), |request| {
        if request.url.contains("/zones?name=") {
            (200, "{\"success\":true,\"result\":[{\"id\":\"z9\"}]}".to_string())
        } else {
            (200, "{\"success\":true,\"result\":[]}".to_string())
        }
    });
    assert_eq!(seen[0].url, "http://cf/zones?name=fiducia%20cloud");
    assert_eq!(seen[1].url, "http://cf/zones/z9/dns_records?per_page=100&page=1");
    assert_eq!(text(&out.unwrap(), "zone_id"), "z9");

    let (_, none) = drive(&cf, cf.dns_records("nowhere"), |_| {
        (200, "{\"success\":true,\"result\":[]}".to_string())
    });
    assert_eq!(
        none,
        Err("no Cloudflare zone found for name \"nowhere\"".to_string())
    );
}

#[test]
fn records_without_a_proxy_flag() {
    let cf = cf();
    let first = cf.dns_upsert(&unlocked(), params("txt", " t.fiducia.cloud ", None, Some(true)));
    let (seen, _) = drive(&cf, first, |request| records_api(false, request));
    let body = seen[1].body.as_ref().unwrap();
    assert!(body.get("proxied").is_none());
    assert_eq!(text(body, "name"), "t.fiducia.cloud");
}

#[test]
fn writes_need_their_values() {
    let cf = cf();
    let (_, out) = drive(
        &cf,
        cf.dns_upsert(&unlocked(), params("A", "  ", None, None)),
        |_| panic!("nothing is sent"),
    );
    assert_eq!(
        out,
        Err("both `name` and `content` are required for dns_upsert".to_string())
    );
    let (_, out) = drive(&cf, cf.dns_delete(&unlocked(), ZONE, " "), |_| {
        panic!("nothing is sent")
    });
    assert_eq!(
        out,
        Err("`record_id` is required for cloudflare_dns_delete".to_string())
    );
}

#[test]
fn only_one_value_unlocks_writes() {
    for (value, allowed) in [("1", true), ("true", false), ("0", false), (" 1", false)] {
        let mut env = EnvMap::new();
        env.insert(ALLOW_MUTATIONS_ENV.to_string(), value.to_string());
        assert_eq!(mutations_allowed(&env), allowed, "{value:?}");
    }
    assert!(!mutations_allowed(&EnvMap::new()));
}

#[test]
fn failed_exchanges_are_reported() {
    let cf = cf();
    let result = |outcome: HttpOutcome| match cf.zones() {
        CfStep::Send(_, task) => match cf.resume(task, &outcome) {
            CfStep::Done(result) => result,
            CfStep::Send(..) => panic!("the exchange failed"),
        },
        CfStep::Done(_) => panic!("an exchange is made"),
    };
    assert_eq!(
        result(HttpOutcome::Unsent("refused".to_string())),
        Err("Cloudflare request to http://cf/zones?per_page=50 failed: refused".to_string())
    );
    assert_eq!(
        result(HttpOutcome::Unread("reset".to_string())),
        Err("reading Cloudflare response from http://cf/zones?per_page=50 failed: reset".to_string())
    );
    let status = HttpStatus::new(502).unwrap();
    assert_eq!(
        result(HttpOutcome::Reply(status, "<html>".to_string())),
        Err("Cloudflare API error (502 Bad Gateway)".to_string())
    );
}

#[test]
fn success_is_what_the_envelope_says() {
    let status = HttpStatus::new(200).unwrap();
    assert!(judge(json("{\"success\":true}"), &HttpStatus::new(500).unwrap()).is_ok());
    assert!(judge(json("{\"success\":\"true\"}"), &status).is_err());
    assert_eq!(
        cf_error(
            &json("{\"errors\":[{\"code\":-1},{\"message\":\"m\"},{\"code\":7,\"message\":\"n\"}]}"),
            &status
        ),
        "Cloudflare API error (200 OK): [-1] (no message); [0] m; [7] n"
    );
    assert_eq!(
        cf_error(&json("{\"errors\":[]}"), &status),
        "Cloudflare API error (200 OK)"
    );
}

#[test]
fn records_are_summarized() {
    assert_eq!(
        summarize_record(&json("{\"id\":\"r\",\"ttl\":60,\"zone\":\"x\"}")).to_text(),
        "{\"content\":null,\"id\":\"r\",\"name\":null,\"proxied\":null,\"ttl\":60,\"type\":null}"
    );
}

#[test]
fn the_token_changes_nothing_else() {
    let run = |token: &str| {
        let cf = Cloudflare::with_base("http://cf".into(), Some(token.to_string()));
        let first = cf.dns_upsert(&unlocked(), params("A", "a.b", None, None));
        let (seen, out) = drive(&cf, first, |request| records_api(true, request));
        let urls: Vec<String> = seen.into_iter().map(|r| r.url).collect();
        (urls, out)
    };
    assert_eq!(run("one"), run("other"));
}

#[test]
fn one_exchange_does_not_show_the_token() {
    let one = Cloudflare::with_base("http://cf".into(), Some("one".into()));
    let other = Cloudflare::with_base("http://cf".into(), Some("other".into()));
    let (request, task) = match one.zones() {
        CfStep::Send(request, task) => (request, task),
        CfStep::Done(_) => panic!("an exchange is made"),
    };
    let outcome = HttpOutcome::Reply(HttpStatus::new(403).unwrap(), "{}".to_string());
    assert_eq!(
        one.answer(&task, &outcome),
        Err("Cloudflare API error (403 Forbidden)".to_string())
    );
    assert_eq!(one.answer(&task, &outcome), other.answer(&task, &outcome));
    match other.send(task) {
        CfStep::Send(again, _) => {
            assert_eq!(again.url, request.url);
            assert_eq!(request.token, "one");
            assert_eq!(again.token, "other");
        }
        CfStep::Done(_) => panic!("an exchange is made"),
    }
}

#[test]
fn from_env_takes_the_token() {
    let mut env = EnvMap::new();
    env.insert(CF_TOKEN_ENV.to_string(), "tok".to_string());
    match Cloudflare::from_env(&env).zones() {
        CfStep::Send(request, _) => {
            assert_eq!(request.token, "tok");
            assert_eq!(
                request.url,
                "https://api.cloudflare.com/client/v4/zones?per_page=50"
            );
        }
        CfStep::Done(_) => panic!("the token is there"),
    }
}
