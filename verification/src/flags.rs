//! The command line: which outcomes of reading it are accepted, how its values
//! and the environment make one map, and which log filter they call for. Only the
//! declared flags are accepted, so that no secret can be given on a command line.

use vstd::prelude::*;
use crate::env_map::{env_value, get_env_map, value_of, EnvMap};
use crate::filters::{check_filter, filter_fault, is_plain_filter, plain_filter};
use crate::text::{
    cat2, join, joined, lemma_mentions, lemma_mentions_after, lemma_mentions_joined, mentions, opt_string_view,
    texts,
};

verus! {

pub const DEFAULT_LOG_FILTER: &'static str = "info,hyper=warn";

/// The variable of the log filter.
pub const LOG_FILTER_ENV: &'static str = "RUST_LOG";

// ---------------------------------------------------------------- the log filter

/// The log filter that a map calls for.
pub open spec fn log_filter_of(env: Map<Seq<char>, Seq<char>>) -> Seq<char> {
    match value_of(env, LOG_FILTER_ENV@) {
        Some(filter) => filter,
        None => DEFAULT_LOG_FILTER@,
    }
}

/// The log filter that a map calls for.
pub fn log_filter(env: &EnvMap) -> (r: &str)
    ensures
        r@ == log_filter_of(env@),
{
    match env_value(env, LOG_FILTER_ENV) {
        Some(filter) => filter,
        None => DEFAULT_LOG_FILTER,
    }
}

// ---------------------------------------------------------------- errors

/// Why a command line, or where its flags are declared, is refused.
#[derive(Debug, PartialEq, Eq)]
pub enum FlagsError {
    /// What was given cannot be used, with a message.
    InvalidInput(String),
}

/// What a [`FlagsError`] stands for.
pub enum FlagsErrorView {
    InvalidInput(Seq<char>),
}

impl View for FlagsError {
    type V = FlagsErrorView;

    open spec fn view(&self) -> FlagsErrorView {
        match self {
            FlagsError::InvalidInput(message) => FlagsErrorView::InvalidInput(message@),
        }
    }
}

impl FlagsError {
    /// The message of the error.
    pub fn message(&self) -> (r: &str)
        ensures
            self@ == FlagsErrorView::InvalidInput(r@),
    {
        match self {
            FlagsError::InvalidInput(message) => message.as_str(),
        }
    }
}

/// What an invalid log filter is answered.
pub open spec fn filter_error(fault: Seq<char>) -> FlagsErrorView {
    FlagsErrorView::InvalidInput("invalid --log-filter value: "@ + fault)
}

/// The result of a check of a log filter, given what was found wrong with it.
pub open spec fn filter_verdict(fault: Option<Seq<char>>) -> Result<(), FlagsErrorView> {
    match fault {
        Some(fault) => Err(filter_error(fault)),
        None => Ok(()),
    }
}

/// The result of a check of a log filter, given what was found wrong with it.
pub fn judge_filter(fault: Option<String>) -> (r: Result<(), FlagsError>)
    ensures
        filter_verdict(opt_string_view(fault)) == match r {
            Ok(_) => Ok(()),
            Err(e) => Err(e@),
        },
{
    match fault {
        Some(fault) => Err(
            FlagsError::InvalidInput(cat2("invalid --log-filter value: ", fault.as_str())),
        ),
        None => Ok(()),
    }
}

// ---------------------------------------------------------------- the command line

/// The flags that a command line holds, and what is wrong with it.
#[derive(Debug)]
pub struct ParsedFlags {
    pub unknown_options: Vec<String>,
    pub errors: Vec<String>,
    pub extras: Vec<String>,
    pub flags: EnvMap,
}

/// How reading the command line ended.
#[derive(Debug)]
pub enum FlagsOutcome {
    /// The declarations of the flags were not found, and why.
    NoConfig(FlagsError),
    /// The path of the declarations is not valid UTF-8.
    BadPath,
    /// The declarations are not sound, and why.
    AuditFailed(String),
    /// The command line could not be read, and why.
    ParseFailed(String),
    Parsed(ParsedFlags),
}

/// The values that a command line gives, but for its log filter, which is not
/// looked at; or why it is refused.
pub open spec fn flags_read(outcome: FlagsOutcome) -> Result<
    Map<Seq<char>, Seq<char>>,
    FlagsErrorView,
> {
    match outcome {
        FlagsOutcome::NoConfig(e) => Err(e@),
        FlagsOutcome::BadPath => Err(
            FlagsErrorView::InvalidInput(".cli-flags.toml path is not valid UTF-8"@),
        ),
        FlagsOutcome::AuditFailed(e) => Err(
            FlagsErrorView::InvalidInput("flags-2-env configuration audit failed: "@ + e@),
        ),
        FlagsOutcome::ParseFailed(e) => Err(
            FlagsErrorView::InvalidInput("flags-2-env parse failed: "@ + e@),
        ),
        FlagsOutcome::Parsed(parsed) => if parsed.unknown_options@.len() > 0 {
            Err(
                FlagsErrorView::InvalidInput(
                    "unknown command-line option(s): "@ + joined(
                        texts(parsed.unknown_options@),
                        ", "@,
                    ),
                ),
            )
        } else if parsed.errors@.len() > 0 {
            Err(
                FlagsErrorView::InvalidInput(
                    "invalid command-line value(s): "@ + joined(texts(parsed.errors@), "; "@),
                ),
            )
        } else if parsed.extras@.len() > 0 {
            Err(
                FlagsErrorView::InvalidInput(
                    "unexpected positional argument(s): "@ + joined(texts(parsed.extras@), ", "@),
                ),
            )
        } else {
            Ok(parsed.flags@)
        },
    }
}

/// The values that a command line gives, or why it is refused.
pub open spec fn flags_accepted(outcome: FlagsOutcome) -> Result<
    Map<Seq<char>, Seq<char>>,
    FlagsErrorView,
> {
    match flags_read(outcome) {
        Err(e) => Err(e),
        Ok(flags) => match filter_verdict(filter_fault(log_filter_of(flags))) {
            Err(e) => Err(e),
            Ok(_) => Ok(flags),
        },
    }
}

pub open spec fn res_env_view(r: Result<EnvMap, FlagsError>) -> Result<
    Map<Seq<char>, Seq<char>>,
    FlagsErrorView,
> {
    match r {
        Ok(env) => Ok(env@),
        Err(e) => Err(e@),
    }
}

fn read_flags(outcome: FlagsOutcome) -> (r: Result<EnvMap, FlagsError>)
    ensures
        res_env_view(r) == flags_read(outcome),
{
    let message = match outcome {
        FlagsOutcome::NoConfig(e) => {
            return Err(e);
        },
        FlagsOutcome::BadPath => ".cli-flags.toml path is not valid UTF-8".to_string(),
        FlagsOutcome::AuditFailed(e) => cat2(
            "flags-2-env configuration audit failed: ",
            e.as_str(),
        ),
        FlagsOutcome::ParseFailed(e) => cat2("flags-2-env parse failed: ", e.as_str()),
        FlagsOutcome::Parsed(parsed) => if parsed.unknown_options.len() > 0 {
            cat2(
                "unknown command-line option(s): ",
                join(&parsed.unknown_options, ", ").as_str(),
            )
        } else if parsed.errors.len() > 0 {
            cat2("invalid command-line value(s): ", join(&parsed.errors, "; ").as_str())
        } else if parsed.extras.len() > 0 {
            cat2("unexpected positional argument(s): ", join(&parsed.extras, ", ").as_str())
        } else {
            let flags = get_env_map(EnvMap::new(), parsed.flags);
            assert(flags@ =~= parsed.flags@);
            return Ok(flags);
        },
    };
    Err(FlagsError::InvalidInput(message))
}

/// Whether the log filter of a command line, where the rest of it is accepted, is
/// plain, so that it can be checked.
pub open spec fn can_be_checked(outcome: FlagsOutcome) -> bool {
    flags_read(outcome) matches Ok(flags) ==> is_plain_filter(log_filter_of(flags))
}

fn accepts_the_rest(parsed: &ParsedFlags) -> (r: bool)
    ensures
        r == flags_read(FlagsOutcome::Parsed(*parsed)) is Ok,
{
    parsed.unknown_options.len() == 0 && parsed.errors.len() == 0 && parsed.extras.len() == 0
}

/// Whether the log filter of a command line, where the rest of it is accepted, is
/// plain, so that it can be checked.
pub fn can_check(outcome: &FlagsOutcome) -> (r: bool)
    ensures
        r == can_be_checked(*outcome),
{
    match outcome {
        FlagsOutcome::Parsed(parsed) => !accepts_the_rest(parsed) || plain_filter(
            log_filter(&parsed.flags),
        ),
        _ => true,
    }
}

/// Whether the log filter of the process, too, is plain.
pub open spec fn process_can_be_checked(
    process_env: Map<Seq<char>, Seq<char>>,
    outcome: FlagsOutcome,
) -> bool {
    flags_read(outcome) matches Ok(flags) ==> is_plain_filter(log_filter_of(flags))
        && is_plain_filter(log_filter_of(process_env.union_prefer_right(flags)))
}

/// Whether the log filter of the process, too, is plain.
pub fn can_check_process(process_env: &EnvMap, outcome: &FlagsOutcome) -> (r: bool)
    ensures
        r == process_can_be_checked(process_env@, *outcome),
{
    match outcome {
        FlagsOutcome::Parsed(parsed) => if accepts_the_rest(parsed) {
            let merged = match env_value(&parsed.flags, LOG_FILTER_ENV) {
                Some(filter) => filter,
                None => log_filter(process_env),
            };
            plain_filter(log_filter(&parsed.flags)) && plain_filter(merged)
        } else {
            true
        },
        _ => true,
    }
}

/// The values that a command line gives, or why it is refused: an undeclared
/// option, an invalid value, a positional argument, or an invalid log filter.
pub fn parse_cli_flags(outcome: FlagsOutcome) -> (r: Result<EnvMap, FlagsError>)
    requires
        can_be_checked(outcome),
    ensures
        res_env_view(r) == flags_accepted(outcome),
{
    match read_flags(outcome) {
        Err(e) => Err(e),
        Ok(flags) => match judge_filter(check_filter(log_filter(&flags))) {
            Err(e) => Err(e),
            Ok(_) => Ok(flags),
        },
    }
}

/// The environment of the process with the values of the command line over it.
pub open spec fn flags_applied(
    process_env: Map<Seq<char>, Seq<char>>,
    outcome: FlagsOutcome,
) -> Result<Map<Seq<char>, Seq<char>>, FlagsErrorView> {
    match flags_accepted(outcome) {
        Err(e) => Err(e),
        Ok(flags) => Ok(process_env.union_prefer_right(flags)),
    }
}

/// The environment of the process with the values of the command line over it.
pub fn apply_cli_flags(process_env: EnvMap, outcome: FlagsOutcome) -> (r: Result<
    EnvMap,
    FlagsError,
>)
    requires
        can_be_checked(outcome),
    ensures
        res_env_view(r) == flags_applied(process_env@, outcome),
{
    match parse_cli_flags(outcome) {
        Err(e) => Err(e),
        Ok(flags) => Ok(get_env_map(process_env, flags)),
    }
}

/// The values that the process starts with.
pub fn process_startup_flags(process_env: EnvMap, outcome: FlagsOutcome) -> (r: Result<
    EnvMap,
    FlagsError,
>)
    requires
        can_be_checked(outcome),
    ensures
        res_env_view(r) == flags_applied(process_env@, outcome),
{
    apply_cli_flags(process_env, outcome)
}

/// The values that the process starts with, or `None` where the log filter of the
/// command line cannot be checked.
pub fn try_process_startup_flags(process_env: EnvMap, outcome: FlagsOutcome) -> (r: Option<
    Result<EnvMap, FlagsError>,
>)
    ensures
        r is Some == can_be_checked(outcome),
        r matches Some(values) ==> res_env_view(values) == flags_applied(process_env@, outcome),
{
    if can_check(&outcome) {
        Some(process_startup_flags(process_env, outcome))
    } else {
        None
    }
}

/// The log filter of the process: that of the command line, or else of the
/// environment, or else the default.
pub open spec fn process_filter(
    process_env: Map<Seq<char>, Seq<char>>,
    outcome: FlagsOutcome,
) -> Result<Seq<char>, FlagsErrorView> {
    match flags_applied(process_env, outcome) {
        Err(e) => Err(e),
        Ok(env) => match filter_verdict(filter_fault(log_filter_of(env))) {
            Err(e) => Err(e),
            Ok(_) => Ok(log_filter_of(env)),
        },
    }
}

pub open spec fn res_filter_view(r: Result<String, FlagsError>) -> Result<
    Seq<char>,
    FlagsErrorView,
> {
    match r {
        Ok(filter) => Ok(filter@),
        Err(e) => Err(e@),
    }
}

/// The log filter of the process.
pub fn process_log_filter(process_env: EnvMap, outcome: FlagsOutcome) -> (r: Result<
    String,
    FlagsError,
>)
    requires
        process_can_be_checked(process_env@, outcome),
    ensures
        res_filter_view(r) == process_filter(process_env@, outcome),
{
    match apply_cli_flags(process_env, outcome) {
        Err(e) => Err(e),
        Ok(env) => {
            let filter = log_filter(&env);
            match judge_filter(check_filter(filter)) {
                Err(e) => Err(e),
                Ok(_) => Ok(filter.to_string()),
            }
        },
    }
}

/// The log filter of the process, or `None` where it or that of the command line
/// cannot be checked.
pub fn try_process_log_filter(process_env: EnvMap, outcome: FlagsOutcome) -> (r: Option<
    Result<String, FlagsError>,
>)
    ensures
        r is Some == process_can_be_checked(process_env@, outcome),
        r matches Some(filter) ==> res_filter_view(filter) == process_filter(
            process_env@,
            outcome,
        ),
{
    if can_check_process(&process_env, &outcome) {
        Some(process_log_filter(process_env, outcome))
    } else {
        None
    }
}

// ---------------------------------------------------------------- the declarations

/// The variable that names the file with the declarations of the flags.
pub const CONFIG_ENV: &'static str = "FIDUCIA_FLAGS_CONFIG";

/// The file with the declarations of the flags.
pub const CONFIG_FILE: &'static str = ".cli-flags.toml";

/// The same file as it is installed, seen from the directory of the program.
pub const SHARED_CONFIG_FILE: &'static str = "../share/fiducia-mcp-server/.cli-flags.toml";

/// A directory below which the declarations of the flags are looked for.
#[derive(Debug, Clone, Copy, PartialEq, Eq, Structural)]
pub enum ConfigDir {
    /// The current directory.
    Current,
    /// The directory of the program.
    Program,
}

/// A place where the declarations of the flags are looked for.
#[derive(Debug, Clone, Copy, PartialEq, Eq)]
pub enum ConfigPlace {
    /// The file that `FIDUCIA_FLAGS_CONFIG` names.
    Named,
    /// The file with this path below this directory.
    Below(ConfigDir, &'static str),
}

/// What a [`ConfigPlace`] stands for.
pub enum ConfigPlaceView {
    Named,
    Below(ConfigDir, Seq<char>),
}

impl View for ConfigPlace {
    type V = ConfigPlaceView;

    open spec fn view(&self) -> ConfigPlaceView {
        match self {
            ConfigPlace::Named => ConfigPlaceView::Named,
            ConfigPlace::Below(dir, path) => ConfigPlaceView::Below(*dir, path@),
        }
    }
}

pub open spec fn places_view(places: Seq<ConfigPlace>) -> Seq<ConfigPlaceView> {
    places.map_values(|place: ConfigPlace| place@)
}

/// Whether the value of `FIDUCIA_FLAGS_CONFIG`, as bytes, names a file. An empty
/// value counts as none.
pub open spec fn is_named(value: Option<&[u8]>) -> bool {
    value matches Some(bytes) && bytes@.len() > 0
}

/// Whether the value of `FIDUCIA_FLAGS_CONFIG`, as bytes, names a file.
fn named(value: Option<&[u8]>) -> (r: bool)
    ensures
        r == is_named(value),
{
    match value {
        Some(bytes) => bytes.len() > 0,
        None => false,
    }
}

/// The places where the declarations of the flags are looked for, in order: the
/// file that the variable names and no other, or else the current directory, the
/// directory of the program, and the shared directory beside that, as far as these
/// directories are known.
pub open spec fn config_places_of(
    value: Option<&[u8]>,
    has_current: bool,
    has_program: bool,
) -> Seq<ConfigPlaceView> {
    if is_named(value) {
        seq![ConfigPlaceView::Named]
    } else {
        (if has_current {
            seq![ConfigPlaceView::Below(ConfigDir::Current, CONFIG_FILE@)]
        } else {
            Seq::empty()
        }) + (if has_program {
            seq![
                ConfigPlaceView::Below(ConfigDir::Program, CONFIG_FILE@),
                ConfigPlaceView::Below(ConfigDir::Program, SHARED_CONFIG_FILE@),
            ]
        } else {
            Seq::empty()
        })
    }
}

/// The places where the declarations of the flags are looked for, in order, given
/// the value of `FIDUCIA_FLAGS_CONFIG` as bytes and whether the current directory
/// and that of the program are known.
pub fn config_places(value: Option<&[u8]>, has_current: bool, has_program: bool) -> (r: Vec<
    ConfigPlace,
>)
    ensures
        places_view(r@) == config_places_of(value, has_current, has_program),
{
    let mut places: Vec<ConfigPlace> = Vec::new();
    if named(value) {
        places.push(ConfigPlace::Named);
    } else {
        if has_current {
            places.push(ConfigPlace::Below(ConfigDir::Current, CONFIG_FILE));
        }
        if has_program {
            places.push(ConfigPlace::Below(ConfigDir::Program, CONFIG_FILE));
            places.push(ConfigPlace::Below(ConfigDir::Program, SHARED_CONFIG_FILE));
        }
    }
    assert(places_view(places@) =~= config_places_of(value, has_current, has_program));
    places
}

/// What is answered where no place holds a file.
pub open spec fn no_config(value: Option<&[u8]>) -> FlagsErrorView {
    FlagsErrorView::InvalidInput(
        if is_named(value) {
            "FIDUCIA_FLAGS_CONFIG does not point to a readable file"@
        } else {
            "cannot locate .cli-flags.toml; set FIDUCIA_FLAGS_CONFIG to its path"@
        },
    )
}

/// The first place from the `i`-th on that holds a file, or the error where none
/// does.
pub open spec fn config_found(
    places: Seq<ConfigPlaceView>,
    files: Seq<bool>,
    i: int,
    error: FlagsErrorView,
) -> Result<ConfigPlaceView, FlagsErrorView>
    decreases places.len() - i,
{
    if 0 <= i < places.len() {
        if files[i] {
            Ok(places[i])
        } else {
            config_found(places, files, i + 1, error)
        }
    } else {
        Err(error)
    }
}

pub open spec fn res_place_view(r: Result<ConfigPlace, FlagsError>) -> Result<
    ConfigPlaceView,
    FlagsErrorView,
> {
    match r {
        Ok(place) => Ok(place@),
        Err(e) => Err(e@),
    }
}

/// Where the declarations of the flags are, given which of the places that
/// [`config_places`] lists hold files: at the first that does.
pub fn resolve_config_path(
    value: Option<&[u8]>,
    has_current: bool,
    has_program: bool,
    files: &Vec<bool>,
) -> (r: Result<ConfigPlace, FlagsError>)
    requires
        files@.len() == config_places_of(value, has_current, has_program).len(),
    ensures
        res_place_view(r) == config_found(
            config_places_of(value, has_current, has_program),
            files@,
            0,
            no_config(value),
        ),
{
    let places = config_places(value, has_current, has_program);
    let ghost all = config_places_of(value, has_current, has_program);
    let ghost error = no_config(value);
    for i in 0..places.len()
        invariant
            all == config_places_of(value, has_current, has_program),
            all == places_view(places@),
            error == no_config(value),
            files@.len() == all.len(),
            config_found(all, files@, 0, error) == config_found(all, files@, i as int, error),
    {
        if files[i] {
            assert(all[i as int] == places@[i as int]@);
            return Ok(places[i]);
        }
    }
    let message = if named(value) {
        "FIDUCIA_FLAGS_CONFIG does not point to a readable file"
    } else {
        "cannot locate .cli-flags.toml; set FIDUCIA_FLAGS_CONFIG to its path"
    };
    Err(FlagsError::InvalidInput(message.to_string()))
}

// ---------------------------------------------------------------- laws

/// Where the variable names a file, the declarations are there or nowhere.
pub proof fn a_named_place_is_the_only_one(
    value: Option<&[u8]>,
    has_current: bool,
    has_program: bool,
    files: Seq<bool>,
)
    requires
        is_named(value),
    ensures
        config_found(
            config_places_of(value, has_current, has_program),
            files,
            0,
            no_config(value),
        ) == (if files[0] {
            Ok::<ConfigPlaceView, FlagsErrorView>(ConfigPlaceView::Named)
        } else {
            Err(no_config(value))
        }),
{
    reveal_with_fuel(config_found, 2);
}

/// The declarations are at a place that holds a file and before which none does, or
/// no place holds a file.
pub proof fn the_first_file_is_found(
    places: Seq<ConfigPlaceView>,
    files: Seq<bool>,
    error: FlagsErrorView,
)
    ensures
        match config_found(places, files, 0, error) {
            Ok(place) => exists|i: int|
                0 <= i < places.len() && #[trigger] places[i] == place && files[i] && forall|k: int|
                    0 <= k < i ==> !(#[trigger] files[k]),
            Err(e) => e == error && forall|k: int|
                0 <= k < places.len() ==> !(#[trigger] files[k]),
        },
{
    lemma_config_found(places, files, 0, error);
}

proof fn lemma_config_found(
    places: Seq<ConfigPlaceView>,
    files: Seq<bool>,
    from: int,
    error: FlagsErrorView,
)
    requires
        0 <= from <= places.len(),
        forall|k: int| 0 <= k < from ==> !(#[trigger] files[k]),
    ensures
        match config_found(places, files, from, error) {
            Ok(place) => exists|i: int|
                0 <= i < places.len() && #[trigger] places[i] == place && files[i] && forall|k: int|
                    0 <= k < i ==> !(#[trigger] files[k]),
            Err(e) => e == error && forall|k: int|
                0 <= k < places.len() ==> !(#[trigger] files[k]),
        },
    decreases places.len() - from,
{
    if from < places.len() && !files[from] {
        lemma_config_found(places, files, from + 1, error);
    }
}

/// The command line goes before the environment: a variable that it gives has its
/// value, and every other keeps that of the environment.
pub proof fn flags_go_before_the_environment(
    process_env: Map<Seq<char>, Seq<char>>,
    outcome: FlagsOutcome,
    key: Seq<char>,
)
    ensures
        flags_applied(process_env, outcome) matches Ok(env) ==> flags_accepted(outcome) matches Ok(
            flags,
        ) && value_of(env, key) == match value_of(flags, key) {
            Some(value) => Some(value),
            None => value_of(process_env, key),
        },
{
}

/// A command line with an option that is not declared is refused as a whole,
/// whatever else it holds, by a message that shows the option.
pub proof fn an_undeclared_option_is_refused(
    process_env: Map<Seq<char>, Seq<char>>,
    parsed: ParsedFlags,
    i: int,
)
    requires
        0 <= i < parsed.unknown_options@.len(),
    ensures
        flags_applied(process_env, FlagsOutcome::Parsed(parsed)) matches Err(
            FlagsErrorView::InvalidInput(message),
        ) && mentions(message, parsed.unknown_options@[i]@),
{
    let list = texts(parsed.unknown_options@);
    lemma_mentions_joined(list, ", "@, i);
    lemma_mentions_after(
        "unknown command-line option(s): "@,
        joined(list, ", "@),
        parsed.unknown_options@[i]@,
    );
}

/// The log filter of the process is one that was found to be valid.
pub proof fn the_log_filter_is_valid(
    process_env: Map<Seq<char>, Seq<char>>,
    outcome: FlagsOutcome,
)
    ensures
        process_filter(process_env, outcome) matches Ok(filter) ==> filter_fault(filter) is None,
{
}

/// The log filter of a map is the value of `RUST_LOG`, or `info,hyper=warn` where
/// there is none.
pub proof fn the_log_filter_is_a_variable(env: Map<Seq<char>, Seq<char>>)
    ensures
        env.contains_key("RUST_LOG"@) ==> log_filter_of(env) == env["RUST_LOG"@],
        !env.contains_key("RUST_LOG"@) ==> log_filter_of(env) == "info,hyper=warn"@,
{
}

/// A command line is accepted exactly where it could be read, holds no undeclared
/// option, no invalid value and no positional argument, and its log filter, or else
/// the default one, is found valid. What is accepted are its flags and nothing else.
pub proof fn a_command_line_is_accepted_as_it_is(outcome: FlagsOutcome)
    ensures
        match flags_accepted(outcome) {
            Ok(flags) => outcome matches FlagsOutcome::Parsed(parsed)
                && parsed.unknown_options@.len() == 0 && parsed.errors@.len() == 0
                && parsed.extras@.len() == 0 && flags == parsed.flags@ && filter_fault(
                if flags.contains_key("RUST_LOG"@) {
                    flags["RUST_LOG"@]
                } else {
                    "info,hyper=warn"@
                },
            ) is None,
            Err(_) => outcome matches FlagsOutcome::Parsed(parsed) ==> parsed.unknown_options@.len()
                > 0 || parsed.errors@.len() > 0 || parsed.extras@.len() > 0 || filter_fault(
                if parsed.flags@.contains_key("RUST_LOG"@) {
                    parsed.flags@["RUST_LOG"@]
                } else {
                    "info,hyper=warn"@
                },
            ) is Some,
        },
{
}

/// A command line that is refused is refused for what is wrong with it, and the
/// message shows that: why the declarations were not found or are not sound, why it
/// could not be read, or else its first fault: each undeclared option, each invalid
/// value, each positional argument, or what is wrong with its log filter.
pub proof fn a_refusal_shows_what_is_wrong(
    message: String,
    e: FlagsError,
    parsed: ParsedFlags,
    i: int,
    fault: Seq<char>,
)
    ensures
        flags_accepted(FlagsOutcome::NoConfig(e)) == Err::<
            Map<Seq<char>, Seq<char>>,
            FlagsErrorView,
        >(e@),
        flags_accepted(FlagsOutcome::BadPath) == Err::<Map<Seq<char>, Seq<char>>, FlagsErrorView>(
            FlagsErrorView::InvalidInput(".cli-flags.toml path is not valid UTF-8"@),
        ),
        says(flags_accepted(FlagsOutcome::AuditFailed(message)), message@),
        says(flags_accepted(FlagsOutcome::ParseFailed(message)), message@),
        0 <= i < parsed.unknown_options@.len() ==> says(
            flags_accepted(FlagsOutcome::Parsed(parsed)),
            parsed.unknown_options@[i]@,
        ),
        parsed.unknown_options@.len() == 0 && 0 <= i < parsed.errors@.len() ==> says(
            flags_accepted(FlagsOutcome::Parsed(parsed)),
            parsed.errors@[i]@,
        ),
        parsed.unknown_options@.len() == 0 && parsed.errors@.len() == 0 && 0 <= i
            < parsed.extras@.len() ==> says(
            flags_accepted(FlagsOutcome::Parsed(parsed)),
            parsed.extras@[i]@,
        ),
        filter_verdict(Some(fault)) matches Err(FlagsErrorView::InvalidInput(m)) && mentions(
            m,
            fault,
        ),
        filter_verdict(None) is Ok,
{
    lemma_mentions_end("flags-2-env configuration audit failed: "@, message@);
    lemma_mentions_end("flags-2-env parse failed: "@, message@);
    lemma_mentions_end("invalid --log-filter value: "@, fault);
    if 0 <= i < parsed.unknown_options@.len() {
        lemma_list_is_shown("unknown command-line option(s): "@, parsed.unknown_options@, ", "@, i);
    }
    if 0 <= i < parsed.errors@.len() {
        lemma_list_is_shown("invalid command-line value(s): "@, parsed.errors@, "; "@, i);
    }
    if 0 <= i < parsed.extras@.len() {
        lemma_list_is_shown("unexpected positional argument(s): "@, parsed.extras@, ", "@, i);
    }
}

/// Whether a command line is refused by a message that shows this.
pub open spec fn says(
    r: Result<Map<Seq<char>, Seq<char>>, FlagsErrorView>,
    part: Seq<char>,
) -> bool {
    r matches Err(FlagsErrorView::InvalidInput(message)) && mentions(message, part)
}

proof fn lemma_mentions_end(start: Seq<char>, part: Seq<char>)
    ensures
        mentions(start + part, part),
{
    lemma_mentions(start, part, Seq::empty());
    assert(start + part + Seq::<char>::empty() =~= start + part);
}

proof fn lemma_list_is_shown(start: Seq<char>, list: Seq<String>, sep: Seq<char>, i: int)
    requires
        0 <= i < list.len(),
    ensures
        mentions(start + joined(texts(list), sep), list[i]@),
{
    lemma_mentions_joined(texts(list), sep, i);
    lemma_mentions_after(start, joined(texts(list), sep), list[i]@);
}

/// The log filter of the process is that of the command line, or else that of the
/// environment, or else the default; it is refused where it is found invalid.
pub proof fn the_process_has_one_log_filter(
    process_env: Map<Seq<char>, Seq<char>>,
    outcome: FlagsOutcome,
)
    ensures
        flags_accepted(outcome) matches Ok(flags) ==> {
            let meant = if flags.contains_key("RUST_LOG"@) {
                flags["RUST_LOG"@]
            } else if process_env.contains_key("RUST_LOG"@) {
                process_env["RUST_LOG"@]
            } else {
                "info,hyper=warn"@
            };
            match process_filter(process_env, outcome) {
                Ok(filter) => filter == meant && filter_fault(meant) is None,
                Err(_) => filter_fault(meant) is Some,
            }
        },
        flags_accepted(outcome) matches Err(e) ==> process_filter(process_env, outcome) == Err::<
            Seq<char>,
            FlagsErrorView,
        >(e) && flags_applied(process_env, outcome) == Err::<
            Map<Seq<char>, Seq<char>>,
            FlagsErrorView,
        >(e),
{
}

/// Where nothing is named, the declarations are looked for in the current directory,
/// beside the program, and in the shared directory next to that, in this order; an
/// empty name counts as none. Where they are not found, the answer tells a name that
/// leads nowhere from no name.
pub proof fn the_declarations_have_three_places(value: Option<&[u8]>)
    ensures
        CONFIG_ENV@ == "FIDUCIA_FLAGS_CONFIG"@,
        value is None || value->0@.len() == 0 ==> config_places_of(value, true, true) == seq![
            ConfigPlaceView::Below(ConfigDir::Current, ".cli-flags.toml"@),
            ConfigPlaceView::Below(ConfigDir::Program, ".cli-flags.toml"@),
            ConfigPlaceView::Below(
                ConfigDir::Program,
                "../share/fiducia-mcp-server/.cli-flags.toml"@,
            ),
        ],
        value is Some && value->0@.len() > 0 ==> config_places_of(value, true, true) == seq![
            ConfigPlaceView::Named,
        ],
        value is None ==> config_places_of(value, false, true) == config_places_of(
            value,
            true,
            true,
        ).skip(1),
        value is None ==> config_places_of(value, true, false) == config_places_of(
            value,
            true,
            true,
        ).take(1),
        value is None ==> config_places_of(value, false, false).len() == 0,
        value is None || value->0@.len() == 0 ==> no_config(value) == FlagsErrorView::InvalidInput(
            "cannot locate .cli-flags.toml; set FIDUCIA_FLAGS_CONFIG to its path"@,
        ),
        value is Some && value->0@.len() > 0 ==> no_config(value) == FlagsErrorView::InvalidInput(
            "FIDUCIA_FLAGS_CONFIG does not point to a readable file"@,
        ),
{
    let all = seq![
        ConfigPlaceView::Below(ConfigDir::Current, ".cli-flags.toml"@),
        ConfigPlaceView::Below(ConfigDir::Program, ".cli-flags.toml"@),
        ConfigPlaceView::Below(
            ConfigDir::Program,
            "../share/fiducia-mcp-server/.cli-flags.toml"@,
        ),
    ];
    if !is_named(value) {
        assert(config_places_of(value, true, true) =~= all);
        assert(config_places_of(value, false, true) =~= all.skip(1));
        assert(config_places_of(value, true, false) =~= all.take(1));
    }
}

} // verus!
