use fiducia_mcp_server::filters::plain_filter;
use fiducia_mcp_server::flags::{
    apply_cli_flags, can_check, can_check_process, config_places, judge_filter, log_filter,
    parse_cli_flags, process_log_filter, process_startup_flags, resolve_config_path,
    try_process_log_filter, try_process_startup_flags, ConfigDir, ConfigPlace, FlagsError,
    FlagsOutcome, ParsedFlags,
};
use fiducia_mcp_server::{env_value, get_env_map, EnvMap};

fn env(entries: &[(&str, &str)]) -> EnvMap {
    let mut map = EnvMap::new();
    for (key, value) in entries {
        map.insert(key.to_string(), value.to_string());
    }
    map
}

/// A command line with these flags and nothing else.
fn flags(entries: &[(&str, &str)]) -> ParsedFlags {
    ParsedFlags {
        unknown_options: Vec::new(),
        errors: Vec::new(),
        extras: Vec::new(),
        flags: env(entries),
    }
}

fn invalid(message: &str) -> FlagsError {
    FlagsError::InvalidInput(message.to_string())
}

/// A command line with an option that is not declared.
fn unknown(option: &str) -> FlagsOutcome {
    let mut parsed = flags(&[]);
    parsed.unknown_options.push(option.to_string());
    FlagsOutcome::Parsed(parsed)
}

#[test]
fn accepts_only_the_declared_stderr_log_filter() {
    let parsed = flags(&[("RUST_LOG", "debug,hyper=warn")]);
    let env = parse_cli_flags(FlagsOutcome::Parsed(parsed)).unwrap();
    assert!(env_value(&env, "RUST_LOG").unwrap_or_default().contains("debug"));
}

#[test]
fn rejects_secret_bearing_flags() {
    let outcome = unknown("--fiducia-api-key=must-remain-environment-only");
    let error = parse_cli_flags(outcome).unwrap_err();
    assert!(error.message().contains("unknown command-line option"));
}

#[test]
fn rejects_upstream_urls_as_flags() {
    assert!(parse_cli_flags(unknown("--fiducia-node-url=https://untrusted.invalid")).is_err());
}

#[test]
fn rejects_invalid_log_filters() {
    let parsed = flags(&[("RUST_LOG", "[invalid")]);
    let error = parse_cli_flags(FlagsOutcome::Parsed(parsed)).unwrap_err();
    assert_eq!(error, invalid("invalid --log-filter value: invalid filter directive"));
}

#[test]
fn cli_overrides_merge_into_map() {
    let parsed = parse_cli_flags(FlagsOutcome::Parsed(flags(&[("RUST_LOG", "debug")]))).unwrap();
    let merged = get_env_map(env(&[("RUST_LOG", "info"), ("HOME", "/h")]), parsed);
    assert_eq!(env_value(&merged, "RUST_LOG"), Some("debug"));
    assert_eq!(env_value(&merged, "HOME"), Some("/h"));
}

#[test]
fn refused_command_lines_say_why() {
    let message = |outcome: FlagsOutcome| match apply_cli_flags(EnvMap::new(), outcome) {
        Err(FlagsError::InvalidInput(message)) => message,
        Ok(_) => panic!("the command line is refused"),
    };
    assert_eq!(message(FlagsOutcome::NoConfig(invalid("gone"))), "gone");
    assert_eq!(
        message(FlagsOutcome::BadPath),
        ".cli-flags.toml path is not valid UTF-8"
    );
    assert_eq!(
        message(FlagsOutcome::AuditFailed("a".into())),
        "flags-2-env configuration audit failed: a"
    );
    assert_eq!(
        message(FlagsOutcome::ParseFailed("p".into())),
        "flags-2-env parse failed: p"
    );
    let mut all = flags(&[]);
    all.unknown_options = vec!["--a".into(), "--b".into()];
    all.errors = vec!["e".into()];
    all.extras = vec!["x".into()];
    assert_eq!(
        message(FlagsOutcome::Parsed(all)),
        "unknown command-line option(s): --a, --b"
    );
    let mut errors = flags(&[]);
    errors.errors = vec!["e".into(), "f".into()];
    errors.extras = vec!["x".into()];
    assert_eq!(
        message(FlagsOutcome::Parsed(errors)),
        "invalid command-line value(s): e; f"
    );
    let mut extras = flags(&[]);
    extras.extras = vec!["x".into(), "y".into()];
    assert_eq!(
        message(FlagsOutcome::Parsed(extras)),
        "unexpected positional argument(s): x, y"
    );
}

#[test]
fn the_log_filter_comes_from_the_command_line_first() {
    let filter = |process: &[(&str, &str)], line: &[(&str, &str)]| {
        process_log_filter(env(process), FlagsOutcome::Parsed(flags(line)))
    };
    assert_eq!(filter(&[], &[]), Ok("info,hyper=warn".to_string()));
    assert_eq!(filter(&[("RUST_LOG", "warn")], &[]), Ok("warn".to_string()));
    assert_eq!(
        filter(&[("RUST_LOG", "warn")], &[("RUST_LOG", "debug")]),
        Ok("debug".to_string())
    );
    assert_eq!(
        filter(&[("RUST_LOG", "a=b=c")], &[]),
        Err(invalid(
            "invalid --log-filter value: error parsing level filter: expected one of \"off\", \
             \"error\", \"warn\", \"info\", \"debug\", \"trace\", or a number 0-5"
        ))
    );
    assert_eq!(log_filter(&EnvMap::new()), "info,hyper=warn");
}

#[test]
fn startup_values_are_merged() {
    let merged = process_startup_flags(
        env(&[("A", "1"), ("RUST_LOG", "info")]),
        FlagsOutcome::Parsed(flags(&[("RUST_LOG", "debug")])),
    )
    .unwrap();
    assert_eq!(env_value(&merged, "A"), Some("1"));
    assert_eq!(env_value(&merged, "RUST_LOG"), Some("debug"));
    assert_eq!(env_value(&merged, "B"), None);
}

#[test]
fn plain_filters() {
    assert!(plain_filter(""));
    assert!(plain_filter("info,hyper=warn"));
    assert!(plain_filter(" info, hyper=warn"));
    assert!(plain_filter("é=info"));
    assert!(plain_filter("\u{3000}info"));
    assert!(plain_filter(" é]"));
    assert!(plain_filter(" a=é"));
    assert!(plain_filter("\u{3000}abc=info"));
    assert!(plain_filter("info, [é=x]"));
    assert!(plain_filter(" [é=x]=info"));
    assert!(plain_filter(" a[b{c}]=é=é"));
    assert!(plain_filter("!, é=info"));
    assert!(plain_filter(" !é=info"));
    assert!(plain_filter(" =é="));
    assert!(plain_filter("    [{a=(bcé}]=info"));
    assert!(plain_filter("    [{a=1bcé}]"));
    assert!(plain_filter("    [{a=1bcé}}=info"));
    assert!(!plain_filter("    [{a=1bcé}]=info"));
    assert!(!plain_filter(" [é]"));
    assert!(!plain_filter(" a[é{b}]"));
    assert!(!plain_filter(" [{é}]"));
    assert!(plain_filter("  [{é}]"));
    assert!(plain_filter(" [a]=info, é=info"));
    assert!(!plain_filter("[a]=info, é=info"));
    assert!(!plain_filter("info, é=info"));
    assert!(!plain_filter("\u{3000}a=info"));
    assert!(!plain_filter("\u{3000}[a]"));
}

#[test]
fn filters_after_white_space_are_checked() {
    for filter in [" é", "\u{3000}info", "info, \u{3000}é]", "info, [é=x]", "    [{a=1bcé}]"] {
        let outcome = FlagsOutcome::Parsed(flags(&[("RUST_LOG", filter)]));
        assert!(can_check(&outcome), "{filter:?}");
        let values = parse_cli_flags(outcome).unwrap();
        assert_eq!(env_value(&values, "RUST_LOG"), Some(filter));
    }
    for filter in [
        " a=é",
        "\u{3000}abc=info",
        "info, b=warn",
        "!, é=info",
        " [a]=info, é=info",
        " !é=info",
        " =é=",
        "    [{a=(bcé}]=info",
        "    [{a=1bcé}}=info",
    ] {
        let outcome = FlagsOutcome::Parsed(flags(&[("RUST_LOG", filter)]));
        assert!(can_check(&outcome), "{filter:?}");
        assert!(parse_cli_flags(outcome).is_err(), "{filter:?}");
    }
}

#[test]
fn a_refused_command_line_needs_no_plain_filter() {
    let mut parsed = flags(&[("RUST_LOG", " é=info")]);
    assert!(!can_check(&FlagsOutcome::Parsed(flags(&[("RUST_LOG", " é=info")]))));
    parsed.extras.push("x".to_string());
    let outcome = FlagsOutcome::Parsed(parsed);
    assert!(can_check(&outcome));
    assert!(can_check_process(&EnvMap::new(), &outcome));
    assert_eq!(
        process_log_filter(EnvMap::new(), outcome),
        Err(invalid("unexpected positional argument(s): x"))
    );
    let process = env(&[("RUST_LOG", " é=info")]);
    assert!(!can_check_process(&process, &FlagsOutcome::Parsed(flags(&[]))));
    assert!(can_check_process(
        &process,
        &FlagsOutcome::Parsed(flags(&[("RUST_LOG", "debug")]))
    ));
}

#[test]
fn filters_that_cannot_be_checked_are_told() {
    let line = |filter: &str| FlagsOutcome::Parsed(flags(&[("RUST_LOG", filter)]));
    assert_eq!(
        try_process_log_filter(EnvMap::new(), line("info, [é=x]")),
        Some(Ok("info, [é=x]".to_string()))
    );
    assert_eq!(try_process_log_filter(EnvMap::new(), line(" é=info")), None);
    assert_eq!(
        try_process_log_filter(env(&[("RUST_LOG", " é=info")]), line("debug")),
        Some(Ok("debug".to_string()))
    );
    assert_eq!(
        try_process_log_filter(env(&[("RUST_LOG", " é=info")]), FlagsOutcome::Parsed(flags(&[]))),
        None
    );
    let values = try_process_startup_flags(env(&[("A", "1")]), line("debug")).unwrap().unwrap();
    assert_eq!(env_value(&values, "A"), Some("1"));
    assert_eq!(env_value(&values, "RUST_LOG"), Some("debug"));
    assert!(try_process_startup_flags(EnvMap::new(), line(" é=info")).is_none());
    assert_eq!(
        try_process_startup_flags(EnvMap::new(), line("[invalid")).unwrap().err(),
        Some(invalid("invalid --log-filter value: invalid filter directive"))
    );
}

#[test]
fn the_places_of_the_declarations() {
    let current = ConfigPlace::Below(ConfigDir::Current, ".cli-flags.toml");
    let program = ConfigPlace::Below(ConfigDir::Program, ".cli-flags.toml");
    let shared = ConfigPlace::Below(
        ConfigDir::Program,
        "../share/fiducia-mcp-server/.cli-flags.toml",
    );
    let empty: &[u8] = b"";
    let given: &[u8] = b"\xff";
    for unset in [None, Some(empty)] {
        assert_eq!(config_places(unset, true, true), vec![current, program, shared]);
        assert_eq!(config_places(unset, false, true), vec![program, shared]);
        assert_eq!(config_places(unset, true, false), vec![current]);
        assert_eq!(config_places(unset, false, false), vec![]);
    }
    assert_eq!(config_places(Some(given), true, true), vec![ConfigPlace::Named]);
}

#[test]
fn the_declarations_are_found() {
    let given: &[u8] = b"/etc/flags.toml";
    let empty: &[u8] = b"";
    assert_eq!(
        resolve_config_path(Some(given), true, true, &vec![true]),
        Ok(ConfigPlace::Named)
    );
    assert_eq!(
        resolve_config_path(Some(given), true, true, &vec![false]),
        Err(invalid("FIDUCIA_FLAGS_CONFIG does not point to a readable file"))
    );
    for unset in [None, Some(empty)] {
        assert_eq!(
            resolve_config_path(unset, true, true, &vec![true, true, true]),
            Ok(ConfigPlace::Below(ConfigDir::Current, ".cli-flags.toml"))
        );
        assert_eq!(
            resolve_config_path(unset, true, true, &vec![false, true, true]),
            Ok(ConfigPlace::Below(ConfigDir::Program, ".cli-flags.toml"))
        );
        assert_eq!(
            resolve_config_path(unset, false, true, &vec![false, true]),
            Ok(ConfigPlace::Below(
                ConfigDir::Program,
                "../share/fiducia-mcp-server/.cli-flags.toml"
            ))
        );
        assert_eq!(
            resolve_config_path(unset, true, true, &vec![false, false, false]),
            Err(invalid("cannot locate .cli-flags.toml; set FIDUCIA_FLAGS_CONFIG to its path"))
        );
        assert_eq!(
            resolve_config_path(unset, false, false, &vec![]),
            Err(invalid("cannot locate .cli-flags.toml; set FIDUCIA_FLAGS_CONFIG to its path"))
        );
    }
}

#[test]
fn a_filter_is_judged_by_its_fault() {
    assert_eq!(judge_filter(None), Ok(()));
    assert_eq!(
        judge_filter(Some("why".to_string())),
        Err(invalid("invalid --log-filter value: why"))
    );
}
