use fiducia_mcp_server::env_map::EnvMap;
use fiducia_mcp_server::json::{parse_json, Json};
use fiducia_mcp_server::k8s::{
    cap_output, contexts, endpoint_addresses, events, preview, recent_events, rollout_status, run_kubectl,
    service_endpoints, summarize_event, summarize_pod, summarize_workload, workloads, K8sStep,
    KubectlOutcome, K8S_CONTEXTS_ENV, MAX_OUTPUT,
};

fn restricted(list: &str) -> EnvMap {
    let mut env = EnvMap::new();
    env.insert(K8S_CONTEXTS_ENV.to_string(), list.to_string());
    env
}

fn json(text: &str) -> Json {
    parse_json(text).unwrap()
}

fn text<'a>(tree: &'a Json, key: &str) -> &'a str {
    tree.get(key).and_then(|v| v.as_str()).unwrap()
}

fn number(tree: &Json, key: &str) -> u64 {
    tree.get(key).and_then(|v| v.as_u64()).unwrap()
}

fn items<'a>(tree: &'a Json, key: &str) -> &'a Vec<Json> {
    tree.get(key).and_then(|v| v.as_array()).unwrap()
}

fn printed(stdout: &str) -> KubectlOutcome {
    KubectlOutcome::Exited {
        success: true,
        stdout: stdout.as_bytes().to_vec(),
        stderr: Vec::new(),
    }
}

fn exit_with(stderr: &str) -> KubectlOutcome {
    KubectlOutcome::Exited {
        success: false,
        stdout: Vec::new(),
        stderr: stderr.as_bytes().to_vec(),
    }
}

/// Runs every command with `kubectl` and returns the commands and the result.
fn drive<F>(first: K8sStep, mut kubectl: F) -> (Vec<String>, Result<Json, String>)
where
    F: FnMut(&[String]) -> KubectlOutcome,
{
    let mut seen = Vec::new();
    let mut step = first;
    loop {
        match step {
            K8sStep::Done(result) => return (seen, result),
            K8sStep::Run(run) => {
                let args = run.args();
                let outcome = kubectl(&args);
                seen.push(args.join(" "));
                step = run.resume(outcome);
            }
        }
    }
}

/// Knows two contexts and nothing else.
fn two_contexts(args: &[String]) -> KubectlOutcome {
    if args[0] == "config" && args[1] == "get-contexts" {
        printed("gke_fiducia_prod\naws_fiducia_staging\n")
    } else {
        exit_with(&format!("unexpected: {}", args.join(" ")))
    }
}

#[test]
fn contexts_lists_and_marks_allowed() {
    let (_, out) = drive(contexts(&restricted("gke_fiducia_prod")), two_contexts);
    let out = out.unwrap();
    let list = items(&out, "contexts");
    assert_eq!(list.len(), 2);
    let prod = list.iter().find(|c| text(c, "name") == "gke_fiducia_prod").unwrap();
    let staging = list.iter().find(|c| text(c, "name") == "aws_fiducia_staging").unwrap();
    assert_eq!(prod.get("allowed"), Some(&Json::Bool(true)));
    assert_eq!(staging.get("allowed"), Some(&Json::Bool(false)));
}

#[test]
fn unknown_context_is_rejected() {
    let (_, out) = drive(
        workloads(&EnvMap::new(), "does_not_exist", "fiducia"),
        two_contexts,
    );
    let err = out.unwrap_err();
    assert!(err.contains("unknown kubectl context"), "{err}");
    assert_eq!(
        err,
        "unknown kubectl context \"does_not_exist\"; known contexts: \
         [\"gke_fiducia_prod\", \"aws_fiducia_staging\"]"
    );
}

#[test]
fn allowlist_blocks_valid_but_disallowed_context() {
    // The context exists, but is not in the list.
    let (seen, out) = drive(
        workloads(&restricted("gke_fiducia_prod"), "aws_fiducia_staging", "fiducia"),
        two_contexts,
    );
    let err = out.unwrap_err();
    assert!(err.contains(K8S_CONTEXTS_ENV), "{err}");
    assert!(err.contains("not permitted"), "{err}");
    assert!(seen.is_empty(), "nothing is run");
    assert_eq!(
        err,
        "context \"aws_fiducia_staging\" is not permitted by FIDUCIA_K8S_CONTEXTS; \
         allowed: [\"gke_fiducia_prod\"]"
    );
}

fn cluster(args: &[String]) -> KubectlOutcome {
    if args[0] == "config" {
        return printed("gke_fiducia_prod\n");
    }
    if args.iter().any(|a| a == "deployments,statefulsets") {
        return printed(
            "{\"items\":[{\"kind\":\"Deployment\",\"metadata\":{\"name\":\"fiducia-node\"},\
             \"spec\":{\"replicas\":3,\"template\":{\"spec\":{\"containers\":[{\"image\":\
             \"fiducia-node:1.2.3\"}]}}},\"status\":{\"readyReplicas\":2}}]}",
        );
    }
    if args.iter().any(|a| a == "pods") {
        return printed(
            "{\"items\":[{\"metadata\":{\"name\":\"fiducia-node-0\",\"creationTimestamp\":\
             \"2026-07-13T00:00:00Z\"},\"spec\":{\"nodeName\":\"node-a\"},\"status\":{\"phase\":\
             \"Running\",\"containerStatuses\":[{\"restartCount\":4}]}}]}",
        );
    }
    exit_with(&format!("unexpected: {}\n", args.join(" ")))
}

#[test]
fn workloads_summarized_from_canned_json() {
    let (seen, out) = drive(workloads(&EnvMap::new(), "gke_fiducia_prod", ""), cluster);
    let out = out.unwrap();
    assert_eq!(text(&out, "namespace"), "fiducia"); // default namespace
    let wl = &items(&out, "workloads")[0];
    assert_eq!(text(wl, "kind"), "Deployment");
    assert_eq!(text(wl, "name"), "fiducia-node");
    assert_eq!(number(wl, "ready"), 2);
    assert_eq!(number(wl, "desired"), 3);
    assert_eq!(items(wl, "images")[0].as_str(), Some("fiducia-node:1.2.3"));
    let pod = &items(&out, "pods")[0];
    assert_eq!(text(pod, "name"), "fiducia-node-0");
    assert_eq!(text(pod, "phase"), "Running");
    assert_eq!(number(pod, "restarts"), 4);
    assert_eq!(text(pod, "node"), "node-a");
    assert_eq!(
        seen,
        vec![
            "config get-contexts -o name".to_string(),
            "--context gke_fiducia_prod -n fiducia get deployments,statefulsets -o json".to_string(),
            "--context gke_fiducia_prod -n fiducia get pods -o json".to_string(),
        ]
    );
}

#[test]
fn kubectl_call_times_out() {
    let args = vec!["get".to_string(), "pods".to_string()];
    let err = run_kubectl(&args, KubectlOutcome::TimedOut(0)).unwrap_err();
    assert!(err.contains("timed out"), "{err}");
    assert!(err.contains("kubectl get pods"), "names the command: {err}");
    assert_eq!(err, "kubectl timed out after 1s: kubectl get pods");
    assert_eq!(
        run_kubectl(&args, KubectlOutcome::TimedOut(15)).unwrap_err(),
        "kubectl timed out after 15s: kubectl get pods"
    );
    assert_eq!(
        run_kubectl(&args, KubectlOutcome::Failed("not found".into())).unwrap_err(),
        "failed to run kubectl (is it installed and on PATH?): not found"
    );
}

#[test]
fn output_is_read_as_text() {
    let out = run_kubectl(
        &Vec::new(),
        KubectlOutcome::Exited {
            success: true,
            stdout: "é".as_bytes().to_vec(),
            stderr: vec![b'a', 0xff],
        },
    )
    .unwrap();
    assert_eq!(out.stdout, "é");
    assert_eq!(out.stderr, "a\u{fffd}");
}

#[test]
fn an_empty_context_is_refused() {
    let (seen, out) = drive(events(&EnvMap::new(), "  ", "", 1), two_contexts);
    assert!(seen.is_empty());
    assert_eq!(out, Err("`context` is required".to_string()));
}

#[test]
fn failed_commands_are_reported() {
    let (_, out) = drive(contexts(&EnvMap::new()), |_| exit_with(" boom \n"));
    assert_eq!(out, Err("kubectl config get-contexts failed: boom".to_string()));

    let (_, out) = drive(
        service_endpoints(&EnvMap::new(), "gke_fiducia_prod", "ns", "svc"),
        two_contexts,
    );
    assert_eq!(
        out,
        Err(
            "kubectl --context gke_fiducia_prod -n ns get endpoints svc -o json failed: \
             unexpected: --context gke_fiducia_prod -n ns get endpoints svc -o json"
                .to_string()
        )
    );

    let (_, out) = drive(events(&EnvMap::new(), "c", "ns", 1), |args| {
        if args[0] == "config" {
            printed("c\n")
        } else {
            printed("oops")
        }
    });
    let err = out.unwrap_err();
    assert!(
        err.starts_with("kubectl --context c -n ns get events -o json did not return JSON: expected"),
        "{err}"
    );
}

#[test]
fn the_contexts_without_a_list() {
    let (_, out) = drive(contexts(&EnvMap::new()), |_| printed(" a \r\n\nb\n"));
    assert_eq!(
        out.unwrap().to_text(),
        "{\"contexts\":[{\"allowed\":true,\"name\":\"a\"},{\"allowed\":true,\"name\":\"b\"}],\
         \"restricted_to\":null}"
    );
    let (_, out) = drive(contexts(&restricted(" b ,, c")), |_| printed("b"));
    assert_eq!(
        out.unwrap().to_text(),
        "{\"contexts\":[{\"allowed\":true,\"name\":\"b\"}],\"restricted_to\":[\"b\",\"c\"]}"
    );
}

#[test]
fn rollouts_are_shown() {
    let env = EnvMap::new();
    let ask = |kind: &str, name: &str| rollout_status(&env, "c", kind, name, "");
    let (seen, out) = drive(ask(" Deployment ", " web "), |args| {
        if args[0] == "config" {
            printed("c")
        } else {
            printed("rolled out\n")
        }
    });
    assert_eq!(
        seen[1],
        "--context c -n fiducia rollout status deployment/web --watch=false"
    );
    assert_eq!(
        out.unwrap().to_text(),
        "{\"complete\":true,\"context\":\"c\",\"kind\":\"deployment\",\"message\":\"rolled out\",\
         \"name\":\"web\",\"namespace\":\"fiducia\"}"
    );
    let (_, out) = drive(ask("statefulset", "db"), |args| {
        if args[0] == "config" {
            printed("c")
        } else {
            exit_with(" not found \n")
        }
    });
    let out = out.unwrap();
    assert_eq!(out.get("complete"), Some(&Json::Bool(false)));
    assert_eq!(text(&out, "message"), "not found");
    let (seen, out) = drive(ask("job", "x"), |_| printed("c"));
    assert_eq!(seen.len(), 1, "the context is checked first");
    assert_eq!(
        out,
        Err("`kind` must be \"deployment\" or \"statefulset\", got \"job\"".to_string())
    );
    let (_, out) = drive(ask("deployment", " "), |_| printed("c"));
    assert_eq!(out, Err("`name` is required".to_string()));
}

#[test]
fn recent_events_come_newest_first() {
    let list = json(
        r#"[{"lastTimestamp":"2026-01-01T00:00:00Z","reason":"a"},
            {"lastTimestamp":"2026-01-03T00:00:00Z","reason":"b"},
            {"lastTimestamp":"2026-01-02T00:00:00Z","reason":"c"},
            {"lastTimestamp":"2026-01-03T00:00:00Z","reason":"d"}]"#,
    );
    let list = list.as_array().unwrap();
    let reasons = |n: usize| -> Vec<String> {
        recent_events(list, n).iter().map(|e| text(e, "reason").to_string()).collect()
    };
    assert_eq!(reasons(10), vec!["d", "b", "c", "a"]);
    assert_eq!(reasons(2), vec!["d", "b"]);
    assert_eq!(reasons(0), Vec::<String>::new());
}

#[test]
fn events_are_counted() {
    let (_, out) = drive(events(&EnvMap::new(), "c", "", 0), |args| {
        if args[0] == "config" {
            printed("c")
        } else {
            let one = "{\"lastTimestamp\":\"2026-01-01T00:00:00Z\"}";
            printed(&format!("{{\"items\":[{}]}}", vec![one; 40].join(",")))
        }
    });
    assert_eq!(number(&out.unwrap(), "count"), 30);
    let (_, out) = drive(events(&EnvMap::new(), "c", "", 5), |args| {
        if args[0] == "config" {
            printed("c")
        } else {
            printed("{}")
        }
    });
    assert_eq!(number(&out.unwrap(), "count"), 0);
}

#[test]
fn endpoints_are_split_by_readiness() {
    let tree = json(
        r#"{"subsets":[
            {"addresses":[{"ip":"10.0.0.1","nodeName":"n","targetRef":{"name":"p"}}]},
            {"addresses":[{"ip":"10.0.0.2"}],"notReadyAddresses":[{"ip":"10.0.0.3"}]}]}"#,
    );
    let (ready, not_ready) = endpoint_addresses(&tree);
    assert_eq!(
        ready.to_text(),
        "[{\"ip\":\"10.0.0.1\",\"node\":\"n\",\"target\":\"p\"},\
         {\"ip\":\"10.0.0.2\",\"node\":null,\"target\":null}]"
    );
    assert_eq!(
        not_ready.to_text(),
        "[{\"ip\":\"10.0.0.3\",\"node\":null,\"target\":null}]"
    );
    let (_, out) = drive(service_endpoints(&EnvMap::new(), "c", "", "  "), |_| printed("c"));
    assert_eq!(out, Err("`service` is required".to_string()));
}

#[test]
fn long_output_is_cut() {
    let short = Json::Text("x".repeat(100));
    assert_eq!(cap_output(short.clone()), short);
    let fits = Json::Text("x".repeat(MAX_OUTPUT - 2));
    assert_eq!(cap_output(fits.clone()), fits);
    let long = cap_output(Json::Text("x".repeat(MAX_OUTPUT - 1)));
    assert_eq!(long.get("truncated"), Some(&Json::Bool(true)));
    assert_eq!(
        text(&long, "note"),
        "output exceeded 32768 bytes; showing a truncated preview"
    );
    assert_eq!(text(&long, "preview").len(), MAX_OUTPUT);
}

#[test]
fn a_preview_is_cut_by_bytes() {
    // A quote and then two bytes for each character: the last one does not fit.
    let long = cap_output(Json::Text("é".repeat(40000)));
    assert_eq!(text(&long, "preview").len(), MAX_OUTPUT - 1);
    let shown = preview(&"é".repeat(40000));
    assert_eq!(text(&shown, "preview"), "é".repeat(16384));
}

#[test]
fn summaries_fill_in_what_is_missing() {
    assert_eq!(
        summarize_workload(&json("{}")).to_text(),
        "{\"desired\":null,\"images\":[],\"kind\":\"?\",\"name\":\"?\",\"ready\":0}"
    );
    assert_eq!(
        summarize_pod(&json("{}")).to_text(),
        "{\"created\":null,\"name\":\"?\",\"node\":null,\"phase\":\"?\",\"restarts\":0}"
    );
    assert_eq!(
        summarize_event(&json("{}")).to_text(),
        "{\"count\":null,\"lastTimestamp\":\"\",\"message\":null,\"object\":\"?/?\",\
         \"reason\":null,\"type\":null}"
    );
}

#[test]
fn restarts_of_all_containers_are_added() {
    let pod = json(
        r#"{"status":{"containerStatuses":[{"restartCount":4},{"restartCount":-1},{},{"restartCount":3}]}}"#,
    );
    assert_eq!(number(&summarize_pod(&pod), "restarts"), 7);
}

#[test]
fn the_time_of_an_event_has_fallbacks() {
    let time = |event: &str| text(&summarize_event(&json(event)), "lastTimestamp").to_string();
    assert_eq!(time(r#"{"lastTimestamp":null,"eventTime":"t"}"#), "t");
    assert_eq!(time(r#"{"metadata":{"creationTimestamp":"c"}}"#), "c");
    assert_eq!(time(r#"{"lastTimestamp":"l","eventTime":"t"}"#), "l");
}
