//! Checking domains from the outside: what a registry says of a domain over
//! RDAP, and whether the records that resolve are the expected ones (with a
//! preset for the GitHub Pages, edge and name server records of fiducia.cloud).
//! Records are written elsewhere, through Cloudflare.
//!
//! Every lookup goes through the trait [`Resolve`].

use vstd::prelude::*;
use crate::http::{is_redirection_code, is_success_code, status_text, HttpStatus};
use crate::json::{
    being_texts, group_json_view, items_view, json_of_text, lemma_member_push, no_members,
    parse_json, res_json_view, with_text, Json, JsonView, Members,
};
use crate::text::{
    ascii_lower, ascii_upper, begins_with, cat2, cat3, cat4, cat5, debug_text, ends_with,
    finishes_with, is_white_space, lemma_mentions, lemma_picked, lemma_trimmed_edges, lowered, mentions,
    no_words, opt_str_view, opt_string_view, picked, picks, quoted, res_string_view, same_ignoring_case, same_text, starts_with, texts,
    trim, trim_end_char, trimmed, uppered, without_end, Words,
};

verus! {

broadcast use group_json_view;

pub const RDAP_BASE: &'static str = "https://rdap.org";

/// What an RDAP request accepts.
pub const RDAP_ACCEPT: &'static str = "application/rdap+json";

pub const FIDUCIA_PAGES_CNAME: &'static str = "fiducia-cloud.github.io";

pub const FIDUCIA_EDGE_IP: &'static str = "95.217.171.250";

pub const CLOUDFLARE_NS_SUFFIX: &'static str = ".ns.cloudflare.com";

// ---------------------------------------------------------------- record types

/// A type of DNS record.
#[derive(Debug, Clone, Copy, PartialEq, Eq, Structural, Hash)]
pub enum DnsType {
    A,
    Aaaa,
    Cname,
    Ns,
    Txt,
    Mx,
}

/// The name of a record type.
pub open spec fn name_of_type(t: DnsType) -> Seq<char> {
    match t {
        DnsType::A => "A"@,
        DnsType::Aaaa => "AAAA"@,
        DnsType::Cname => "CNAME"@,
        DnsType::Ns => "NS"@,
        DnsType::Txt => "TXT"@,
        DnsType::Mx => "MX"@,
    }
}

/// Whether a text names a record type: its name in any case, with white space
/// around it.
pub open spec fn names_type(s: Seq<char>, t: DnsType) -> bool {
    uppered(trimmed(s)) == name_of_type(t)
}

/// Whether a text names any record type.
pub open spec fn names_some_type(s: Seq<char>) -> bool {
    exists|t: DnsType| names_type(s, t)
}

/// The message for a text that names no record type.
pub open spec fn unsupported_type(s: Seq<char>) -> Seq<char> {
    "unsupported DNS record type "@ + debug_text(uppered(trimmed(s)))
}

impl DnsType {
    /// The record type that a text names.
    pub fn parse(s: &str) -> (r: Result<DnsType, String>)
        ensures
            match r {
                Ok(t) => names_type(s@, t),
                Err(e) => !names_some_type(s@) && e@ == unsupported_type(s@),
            },
    {
        let upper = ascii_upper(trim(s));
        let name = upper.as_str();
        if same_text(name, "A") {
            Ok(DnsType::A)
        } else if same_text(name, "AAAA") {
            Ok(DnsType::Aaaa)
        } else if same_text(name, "CNAME") {
            Ok(DnsType::Cname)
        } else if same_text(name, "NS") {
            Ok(DnsType::Ns)
        } else if same_text(name, "TXT") {
            Ok(DnsType::Txt)
        } else if same_text(name, "MX") {
            Ok(DnsType::Mx)
        } else {
            Err(cat2("unsupported DNS record type ", quoted(name).as_str()))
        }
    }

    /// The name of a record type.
    pub fn as_str(self) -> (r: &'static str)
        ensures
            r@ == name_of_type(self),
    {
        match self {
            DnsType::A => "A",
            DnsType::Aaaa => "AAAA",
            DnsType::Cname => "CNAME",
            DnsType::Ns => "NS",
            DnsType::Txt => "TXT",
            DnsType::Mx => "MX",
        }
    }
}

/// No two record types have the same name, so a text names at most one.
pub proof fn a_name_is_of_one_type(s: Seq<char>, one: DnsType, other: DnsType)
    requires
        names_type(s, one),
        names_type(s, other),
    ensures
        one == other,
{
    reveal_strlit("A");
    reveal_strlit("AAAA");
    reveal_strlit("CNAME");
    reveal_strlit("NS");
    reveal_strlit("TXT");
    reveal_strlit("MX");
    let a = name_of_type(one);
    let b = name_of_type(other);
    assert(a.len() == b.len() && a[0] == b[0]);
}

/// A record type is read from its own name.
pub proof fn a_type_is_read_from_its_name(t: DnsType)
    ensures
        names_type(name_of_type(t), t),
{
    reveal_strlit("A");
    reveal_strlit("AAAA");
    reveal_strlit("CNAME");
    reveal_strlit("NS");
    reveal_strlit("TXT");
    reveal_strlit("MX");
    let name = name_of_type(t);
    assert(!is_white_space(name.first()) && !is_white_space(name.last()));
    assert(trimmed(name) == name);
    assert(uppered(name) =~= name);
}

// ---------------------------------------------------------------- resolving

/// The answer to a lookup: the values of the records, or why there is none.
pub type Answer = Result<Seq<Seq<char>>, Seq<char>>;

pub open spec fn answer_view(r: Result<Vec<String>, String>) -> Answer {
    match r {
        Ok(values) => Ok(texts(values@)),
        Err(e) => Err(e@),
    }
}

/// Looks up DNS records. No value at all means that there is no such record; an
/// error is for a failure of the lookup itself.
pub trait Resolve: Send + Sync {
    /// Whether a lookup may be answered so. Unless a resolver says more of itself,
    /// it may be answered in any way.
    open spec fn answers(&self, name: Seq<char>, record: DnsType, answer: Answer) -> bool {
        true
    }

    /// The values of the records of this name and type.
    fn lookup(&self, name: &str, record: DnsType) -> (r: Result<Vec<String>, String>)
        ensures
            self.answers(name@, record, answer_view(r)),
    ;
}

/// The name with a dot at its end, so that no search domain is tried.
pub open spec fn with_dot(name: Seq<char>) -> Seq<char> {
    let name = trimmed(name);
    if name.len() > 0 && name.last() == '.' {
        name
    } else {
        name.push('.')
    }
}

/// The name with a dot at its end, so that no search domain is tried.
pub fn fqdn(name: &str) -> (r: String)
    ensures
        r@ == with_dot(name@),
{
    proof {
        reveal_strlit(".");
    }
    let name = trim(name);
    if ends_with(name, ".") {
        assert(name@.skip(name@.len() - 1)[0] == name@.last());
        name.to_string()
    } else {
        assert(name@.len() > 0 && name@.last() == '.' ==> name@.skip(name@.len() - 1) =~= "."@);
        assert(name@ + "."@ =~= name@.push('.'));
        cat2(name, ".")
    }
}

/// What a name server said.
#[derive(Debug)]
pub enum QueryReply {
    /// The type and the data of each record that came.
    Records(Vec<(String, String)>),
    /// There is no such name, or no such record.
    NoRecords,
    /// The query failed, and why.
    Failed(String),
}

/// What a query amounts to.
#[derive(Debug)]
pub enum QueryOutcome {
    Values(Vec<String>),
    /// There is no such record, which is no error.
    Empty,
    /// The query failed; another name server may do better.
    Soft(String),
}

/// What a [`QueryOutcome`] stands for.
pub enum QueryOutcomeView {
    Values(Seq<Seq<char>>),
    Empty,
    Soft(Seq<char>),
}

impl View for QueryOutcome {
    type V = QueryOutcomeView;

    open spec fn view(&self) -> QueryOutcomeView {
        match self {
            QueryOutcome::Values(values) => QueryOutcomeView::Values(texts(values@)),
            QueryOutcome::Empty => QueryOutcomeView::Empty,
            QueryOutcome::Soft(e) => QueryOutcomeView::Soft(e@),
        }
    }
}

/// The data of the records of a type, each without the dots at its end.
pub open spec fn values_of(records: Seq<(String, String)>, record: DnsType) -> Seq<Seq<char>>
    decreases records.len(),
{
    if records.len() == 0 {
        Seq::empty()
    } else {
        let values = values_of(records.drop_last(), record);
        if records.last().0@ == name_of_type(record) {
            values.push(without_end(records.last().1@, '.'))
        } else {
            values
        }
    }
}

/// What a query for the records of a name amounts to.
pub open spec fn query_outcome(name: Seq<char>, record: DnsType, reply: QueryReply) -> QueryOutcomeView {
    match reply {
        QueryReply::Records(records) => QueryOutcomeView::Values(values_of(records@, record)),
        QueryReply::NoRecords => QueryOutcomeView::Empty,
        QueryReply::Failed(e) => QueryOutcomeView::Soft(
            "DNS lookup for "@ + name + " "@ + name_of_type(record) + (" failed: "@ + e@),
        ),
    }
}

/// What a query for the records of a name amounts to.
pub fn query(name: &str, record: DnsType, reply: QueryReply) -> (r: QueryOutcome)
    ensures
        r@ == query_outcome(name@, record, reply),
{
    match reply {
        QueryReply::Records(records) => {
            let mut values: Vec<String> = Vec::new();
            assert(texts(values@) =~= values_of(records@.take(0), record));
            for i in 0..records.len()
                invariant
                    texts(values@) == values_of(records@.take(i as int), record),
            {
                assert(records@.take(i + 1).drop_last() =~= records@.take(i as int));
                let ghost before = texts(values@);
                if same_text(records[i].0.as_str(), record.as_str()) {
                    let value = trim_end_char(records[i].1.as_str(), '.');
                    values.push(value.to_string());
                    assert(texts(values@) =~= before.push(value@));
                }
            }
            assert(records@.take(records@.len() as int) =~= records@);
            QueryOutcome::Values(values)
        },
        QueryReply::NoRecords => QueryOutcome::Empty,
        QueryReply::Failed(e) => QueryOutcome::Soft(
            cat5(
                "DNS lookup for ",
                name,
                " ",
                record.as_str(),
                cat2(" failed: ", e.as_str()).as_str(),
            ),
        ),
    }
}

/// The answer to a lookup, from the outcomes at the first name servers (where
/// there are any) and at those that are asked after them: the later ones count
/// only where the first ones failed.
pub open spec fn settled(first: Option<QueryOutcomeView>, later: QueryOutcomeView) -> Answer {
    match first {
        Some(QueryOutcomeView::Values(values)) => Ok(values),
        Some(QueryOutcomeView::Empty) => Ok(Seq::empty()),
        _ => match later {
            QueryOutcomeView::Values(values) => Ok(values),
            QueryOutcomeView::Empty => Ok(Seq::empty()),
            QueryOutcomeView::Soft(e) => Err(e),
        },
    }
}

/// The answer to a lookup from the outcome at the first name servers, or `None`
/// where the others are to be asked.
pub fn first_answer(first: QueryOutcome) -> (r: Option<Vec<String>>)
    ensures
        match r {
            Some(values) => forall|later: QueryOutcomeView| settled(Some(first@), later) == Answer::Ok(
                texts(values@),
            ),
            None => first is Soft,
        },
{
    match first {
        QueryOutcome::Values(values) => Some(values),
        QueryOutcome::Empty => {
            let none: Vec<String> = Vec::new();
            assert(texts(none@) =~= Seq::empty());
            Some(none)
        },
        QueryOutcome::Soft(_) => None,
    }
}

/// The answer to a lookup from the outcome at the name servers that are asked
/// last.
pub fn last_answer(later: QueryOutcome) -> (r: Result<Vec<String>, String>)
    ensures
        answer_view(r) == settled(None, later@),
{
    match later {
        QueryOutcome::Values(values) => Ok(values),
        QueryOutcome::Empty => {
            let none: Vec<String> = Vec::new();
            assert(texts(none@) =~= Seq::empty());
            Ok(none)
        },
        QueryOutcome::Soft(e) => Err(e),
    }
}

// ---------------------------------------------------------------- checks

/// Whether some value is some expected one, in any case.
pub open spec fn some_expected(found: Seq<Seq<char>>, expected: Seq<Seq<char>>) -> bool {
    exists|i: int, j: int|
        0 <= i < found.len() && 0 <= j < expected.len() && lowered(#[trigger] found[i]) == lowered(
            #[trigger] expected[j],
        )
}

/// The status of the values found: pending where nothing resolves yet, a pass
/// where nothing or at least one expected value was asked for and found, and a
/// mismatch where there are values but none of the expected ones.
pub open spec fn status_of(found: Seq<Seq<char>>, expected: Option<Seq<Seq<char>>>) -> Seq<char> {
    if found.len() == 0 {
        "PENDING"@
    } else {
        match expected {
            Some(expected) => if some_expected(found, expected) {
                "PASS"@
            } else {
                "MISMATCH"@
            },
            None => "PASS"@,
        }
    }
}

fn holds_ignoring_case(list: &Vec<String>, s: &str) -> (r: bool)
    ensures
        r == exists|i: int| 0 <= i < list@.len() && lowered((#[trigger] list@[i])@) == lowered(s@),
{
    for i in 0..list.len()
        invariant
            forall|k: int| 0 <= k < i ==> lowered((#[trigger] list@[k])@) != lowered(s@),
    {
        if same_ignoring_case(list[i].as_str(), s) {
            return true;
        }
    }
    false
}

fn finds_expected(found: &Vec<String>, expected: &Vec<String>) -> (r: bool)
    ensures
        r == some_expected(texts(found@), texts(expected@)),
{
    let ghost have = texts(found@);
    let ghost want = texts(expected@);
    for j in 0..expected.len()
        invariant
            have == texts(found@),
            want == texts(expected@),
            forall|i: int, k: int|
                0 <= i < have.len() && 0 <= k < j ==> lowered(#[trigger] have[i]) != lowered(
                    #[trigger] want[k],
                ),
    {
        if holds_ignoring_case(found, expected[j].as_str()) {
            proof {
                let i = choose|i: int|
                    0 <= i < found@.len() && lowered((#[trigger] found@[i])@) == lowered(
                        expected@[j as int]@,
                    );
                assert(lowered(have[i]) == lowered(want[j as int]));
            }
            return true;
        }
        assert forall|i: int| 0 <= i < have.len() implies lowered(#[trigger] have[i]) != lowered(
            want[j as int],
        ) by {
            assert(have[i] == found@[i]@);
        }
    }
    false
}

pub open spec fn opt_texts(list: Option<&Vec<String>>) -> Option<Seq<Seq<char>>> {
    match list {
        Some(list) => Some(texts(list@)),
        None => None,
    }
}

/// The status of the values found, given the expected ones where there are any.
pub fn classify(found: &Vec<String>, expected: Option<&Vec<String>>) -> (r: &'static str)
    ensures
        r@ == status_of(texts(found@), opt_texts(expected)),
{
    if found.len() == 0 {
        return "PENDING";
    }
    match expected {
        None => "PASS",
        Some(expected) => if finds_expected(found, expected) {
            "PASS"
        } else {
            "MISMATCH"
        },
    }
}

/// The record of a check of the values of a name.
pub open spec fn values_check(
    name: Seq<char>,
    record: DnsType,
    expected: Option<Seq<Seq<char>>>,
    answer: Answer,
) -> JsonView {
    let check = no_members()
        .push(("name"@, JsonView::Text(name)))
        .push(("type"@, JsonView::Text(name_of_type(record))));
    JsonView::Object(
        match answer {
            Err(e) => check
                .push(("status"@, JsonView::Text("ERROR"@)))
                .push(("error"@, JsonView::Text(e))),
            Ok(found) => check
                .push(
                    (
                        "expected"@,
                        match expected {
                            Some(list) => JsonView::text_array(list),
                            None => JsonView::Null,
                        },
                    ),
                )
                .push(("found"@, JsonView::text_array(found)))
                .push(("status"@, JsonView::Text(status_of(found, expected)))),
        },
    )
}

/// Records the check of the values of a name, given the answer to its lookup.
pub fn record_values(
    name: &str,
    record: DnsType,
    expected: Option<&Vec<String>>,
    answer: &Result<Vec<String>, String>,
) -> (r: Json)
    ensures
        r@ == values_check(name@, record, opt_texts(expected), answer_view(*answer)),
{
    let check = Members::new().with("name", Json::text(name)).with(
        "type",
        Json::text(record.as_str()),
    );
    match answer {
        Err(e) => check.with("status", Json::text("ERROR")).with("error", Json::text(e.as_str())).object(),
        Ok(found) => {
            let wanted = match expected {
                Some(list) => Json::text_array(list),
                None => Json::Null,
            };
            check
                .with("expected", wanted)
                .with("found", Json::text_array(found))
                .with("status", Json::text(classify(found, expected)))
                .object()
        },
    }
}

/// Whether this is the record of a check of the values of a name through the
/// resolver.
pub open spec fn values_checked<R: Resolve>(
    resolver: &R,
    name: Seq<char>,
    record: DnsType,
    expected: Option<Seq<Seq<char>>>,
    check: JsonView,
) -> bool {
    exists|answer: Answer| #[trigger]
        resolver.answers(name, record, answer) && check == values_check(
            name,
            record,
            expected,
            answer,
        )
}

/// Checks the values of a name.
pub fn check_values<R: Resolve>(
    resolver: &R,
    name: &str,
    record: DnsType,
    expected: Option<&Vec<String>>,
) -> (r: Json)
    ensures
        values_checked(resolver, name@, record, opt_texts(expected), r@),
{
    let answer = resolver.lookup(name, record);
    record_values(name, record, expected, &answer)
}

/// The values of an answer; none where the lookup failed.
pub open spec fn values_or_none(answer: Answer) -> Seq<Seq<char>> {
    match answer {
        Ok(values) => values,
        Err(_) => Seq::empty(),
    }
}

/// Whether an address is one of the A records of GitHub Pages.
pub open spec fn is_pages_address(ip: Seq<char>) -> bool {
    ip == "185.199.108.153"@ || ip == "185.199.109.153"@ || ip == "185.199.110.153"@ || ip
        == "185.199.111.153"@
}

/// The status of the records that should lead to GitHub Pages.
pub open spec fn pages_status(a: Seq<Seq<char>>, cname: Seq<Seq<char>>) -> Seq<char> {
    if (exists|i: int| 0 <= i < a.len() && is_pages_address(#[trigger] a[i])) || (exists|i: int|
        0 <= i < cname.len() && lowered(#[trigger] cname[i]) == lowered(FIDUCIA_PAGES_CNAME@)) {
        "PASS"@
    } else if a.len() == 0 && cname.len() == 0 {
        "PENDING"@
    } else {
        "MISMATCH"@
    }
}

/// The record of a check that a name leads to GitHub Pages. A failed lookup
/// counts as one without values.
pub open spec fn pages_check(name: Seq<char>, a: Answer, cname: Answer) -> JsonView {
    let a = values_or_none(a);
    let cname = values_or_none(cname);
    JsonView::Object(
        no_members()
            .push(("name"@, JsonView::Text(name)))
            .push(
                (
                    "expect"@,
                    JsonView::Text(
                        "GitHub Pages (A 185.199.108-111.153 or CNAME fiducia-cloud.github.io)"@,
                    ),
                ),
            )
            .push(
                (
                    "found"@,
                    JsonView::Object(
                        no_members()
                            .push(("A"@, JsonView::text_array(a)))
                            .push(("CNAME"@, JsonView::text_array(cname))),
                    ),
                ),
            )
            .push(("status"@, JsonView::Text(pages_status(a, cname)))),
    )
}

fn holds_pages_address(list: &Vec<String>) -> (r: bool)
    ensures
        r == exists|i: int| 0 <= i < texts(list@).len() && is_pages_address(#[trigger] texts(list@)[i]),
{
    for i in 0..list.len()
        invariant
            forall|k: int| 0 <= k < i ==> !is_pages_address(#[trigger] texts(list@)[k]),
    {
        let ip = list[i].as_str();
        assert(texts(list@)[i as int] == ip@);
        if same_text(ip, "185.199.108.153") || same_text(ip, "185.199.109.153") || same_text(
            ip,
            "185.199.110.153",
        ) || same_text(ip, "185.199.111.153") {
            return true;
        }
    }
    false
}

fn or_no_values(answer: Result<Vec<String>, String>) -> (r: Vec<String>)
    ensures
        texts(r@) == values_or_none(answer_view(answer)),
{
    match answer {
        Ok(values) => values,
        Err(_) => {
            let none: Vec<String> = Vec::new();
            assert(texts(none@) =~= Seq::empty());
            none
        },
    }
}

/// Records the check that a name leads to GitHub Pages, given the answers to the
/// lookups of its A and CNAME records.
pub fn record_pages(
    name: &str,
    a: Result<Vec<String>, String>,
    cname: Result<Vec<String>, String>,
) -> (r: Json)
    ensures
        r@ == pages_check(name@, answer_view(a), answer_view(cname)),
{
    let a = or_no_values(a);
    let cname = or_no_values(cname);
    let a_ok = holds_pages_address(&a);
    let cname_ok = holds_ignoring_case(&cname, FIDUCIA_PAGES_CNAME);
    proof {
        let c = texts(cname@);
        if cname_ok {
            let i = choose|i: int|
                0 <= i < cname@.len() && lowered((#[trigger] cname@[i])@) == lowered(
                    FIDUCIA_PAGES_CNAME@,
                );
            assert(lowered(c[i]) == lowered(FIDUCIA_PAGES_CNAME@));
        } else {
            assert forall|i: int| 0 <= i < c.len() implies lowered(#[trigger] c[i]) != lowered(
                FIDUCIA_PAGES_CNAME@,
            ) by {
                assert(c[i] == cname@[i]@);
            }
        }
    }
    let status = if a_ok || cname_ok {
        "PASS"
    } else if a.len() == 0 && cname.len() == 0 {
        "PENDING"
    } else {
        "MISMATCH"
    };
    let found = Members::new().with("A", Json::text_array(&a)).with(
        "CNAME",
        Json::text_array(&cname),
    ).object();
    Members::new()
        .with("name", Json::text(name))
        .with(
            "expect",
            Json::text("GitHub Pages (A 185.199.108-111.153 or CNAME fiducia-cloud.github.io)"),
        )
        .with("found", found)
        .with("status", Json::text(status))
        .object()
}

/// Whether this is the record of a check, through the resolver, that a name leads
/// to GitHub Pages.
pub open spec fn pages_checked<R: Resolve>(resolver: &R, name: Seq<char>, check: JsonView) -> bool {
    exists|a: Answer, cname: Answer| #[trigger]
        resolver.answers(name, DnsType::A, a) && #[trigger] resolver.answers(
            name,
            DnsType::Cname,
            cname,
        ) && check == pages_check(name, a, cname)
}

/// Checks that a name leads to GitHub Pages.
pub fn github_pages_check<R: Resolve>(resolver: &R, name: &str) -> (r: Json)
    ensures
        pages_checked(resolver, name@, r@),
{
    let a = resolver.lookup(name, DnsType::A);
    let cname = resolver.lookup(name, DnsType::Cname);
    record_pages(name, a, cname)
}

/// The record of a check that a name leads to the edge.
pub open spec fn edge_check_of(name: Seq<char>, a: Answer) -> JsonView {
    let check = no_members().push(("name"@, JsonView::Text(name)));
    JsonView::Object(
        match a {
            Err(e) => check
                .push(("expect"@, JsonView::Text(FIDUCIA_EDGE_IP@)))
                .push(("status"@, JsonView::Text("ERROR"@)))
                .push(("error"@, JsonView::Text(e))),
            Ok(found) => check
                .push(("expect"@, JsonView::Text("A "@ + FIDUCIA_EDGE_IP@ + " (Hetzner edge)"@)))
                .push(("found"@, JsonView::text_array(found)))
                .push(
                    (
                        "status"@,
                        JsonView::Text(status_of(found, Some(no_words().push(FIDUCIA_EDGE_IP@)))),
                    ),
                ),
        },
    )
}

/// Records the check that a name leads to the edge, given the answer to the
/// lookup of its A records.
pub fn record_edge(name: &str, a: &Result<Vec<String>, String>) -> (r: Json)
    ensures
        r@ == edge_check_of(name@, answer_view(*a)),
{
    let check = Members::new().with("name", Json::text(name));
    match a {
        Err(e) => check
            .with("expect", Json::text(FIDUCIA_EDGE_IP))
            .with("status", Json::text("ERROR"))
            .with("error", Json::text(e.as_str()))
            .object(),
        Ok(found) => {
            let expected = Words::new().with(FIDUCIA_EDGE_IP).list();
            check
                .with("expect", Json::text(cat3("A ", FIDUCIA_EDGE_IP, " (Hetzner edge)").as_str()))
                .with("found", Json::text_array(found))
                .with("status", Json::text(classify(found, Some(&expected))))
                .object()
        },
    }
}

/// Whether this is the record of a check, through the resolver, that a name leads
/// to the edge.
pub open spec fn edge_checked<R: Resolve>(resolver: &R, name: Seq<char>, check: JsonView) -> bool {
    exists|a: Answer| #[trigger]
        resolver.answers(name, DnsType::A, a) && check == edge_check_of(name, a)
}

/// Checks that a name leads to the edge.
pub fn edge_check<R: Resolve>(resolver: &R, name: &str) -> (r: Json)
    ensures
        edge_checked(resolver, name@, r@),
{
    let a = resolver.lookup(name, DnsType::A);
    record_edge(name, &a)
}

/// Whether a name server is one of Cloudflare.
pub open spec fn is_cloudflare_server(n: Seq<char>) -> bool {
    finishes_with(lowered(n), CLOUDFLARE_NS_SUFFIX@)
}

/// The status of the name servers of a domain that Cloudflare should serve.
pub open spec fn servers_status(ns: Seq<Seq<char>>) -> Seq<char> {
    if ns.len() == 0 {
        "PENDING"@
    } else if forall|i: int| 0 <= i < ns.len() ==> is_cloudflare_server(#[trigger] ns[i]) {
        "PASS"@
    } else {
        "MISMATCH"@
    }
}

/// The record of a check that the name servers of a domain are Cloudflare's. A
/// failed lookup counts as one without values.
pub open spec fn servers_check(name: Seq<char>, ns: Answer) -> JsonView {
    let ns = values_or_none(ns);
    JsonView::Object(
        no_members()
            .push(("name"@, JsonView::Text(name)))
            .push(("expect"@, JsonView::Text("nameservers are *.ns.cloudflare.com"@)))
            .push(("found"@, JsonView::text_array(ns)))
            .push(("status"@, JsonView::Text(servers_status(ns)))),
    )
}

fn all_cloudflare(list: &Vec<String>) -> (r: bool)
    ensures
        r == forall|i: int|
            0 <= i < texts(list@).len() ==> is_cloudflare_server(#[trigger] texts(list@)[i]),
{
    for i in 0..list.len()
        invariant
            forall|k: int| 0 <= k < i ==> is_cloudflare_server(#[trigger] texts(list@)[k]),
    {
        assert(texts(list@)[i as int] == list@[i as int]@);
        if !ends_with(ascii_lower(list[i].as_str()).as_str(), CLOUDFLARE_NS_SUFFIX) {
            return false;
        }
    }
    true
}

/// Records the check that the name servers of a domain are Cloudflare's, given
/// the answer to the lookup of its NS records.
pub fn record_servers(name: &str, ns: Result<Vec<String>, String>) -> (r: Json)
    ensures
        r@ == servers_check(name@, answer_view(ns)),
{
    let ns = or_no_values(ns);
    let status = if ns.len() == 0 {
        "PENDING"
    } else if all_cloudflare(&ns) {
        "PASS"
    } else {
        "MISMATCH"
    };
    Members::new()
        .with("name", Json::text(name))
        .with("expect", Json::text("nameservers are *.ns.cloudflare.com"))
        .with("found", Json::text_array(&ns))
        .with("status", Json::text(status))
        .object()
}

/// Whether this is the record of a check, through the resolver, that the name
/// servers of a domain are Cloudflare's.
pub open spec fn servers_checked<R: Resolve>(resolver: &R, name: Seq<char>, check: JsonView) -> bool {
    exists|ns: Answer| #[trigger]
        resolver.answers(name, DnsType::Ns, ns) && check == servers_check(name, ns)
}

/// Checks that the name servers of a domain are Cloudflare's.
pub fn cloudflare_ns_check<R: Resolve>(resolver: &R, name: &str) -> (r: Json)
    ensures
        servers_checked(resolver, name@, r@),
{
    let ns = resolver.lookup(name, DnsType::Ns);
    record_servers(name, ns)
}

/// How many checks have this status.
pub open spec fn count_status(checks: Seq<JsonView>, status: Seq<char>) -> nat
    decreases checks.len(),
{
    if checks.len() == 0 {
        0
    } else {
        count_status(checks.drop_last(), status) + if checks.last().text_at("status"@) == Some(
            status,
        ) {
            1nat
        } else {
            0nat
        }
    }
}

/// The checks of the preset, with how many of them pass and are pending. All
/// others count as mismatches.
pub open spec fn preset_reply(checks: Seq<JsonView>) -> JsonView {
    let pass = count_status(checks, "PASS"@);
    let pending = count_status(checks, "PENDING"@);
    JsonView::Object(
        no_members()
            .push(("preset"@, JsonView::Text("fiducia"@)))
            .push(("checks"@, JsonView::Array(checks)))
            .push(
                (
                    "summary"@,
                    JsonView::Object(
                        no_members()
                            .push(("pass"@, JsonView::natural_number(pass as u64)))
                            .push(("pending"@, JsonView::natural_number(pending as u64)))
                            .push(
                                (
                                    "mismatch"@,
                                    JsonView::natural_number((checks.len() - pass - pending) as u64),
                                ),
                            ),
                    ),
                ),
            ),
    )
}

/// The checks that pass, that are pending and that do neither are all checks.
pub proof fn every_check_is_counted_once(checks: Seq<JsonView>)
    ensures
        count_status(checks, "PASS"@) + count_status(checks, "PENDING"@) <= checks.len(),
    decreases checks.len(),
{
    reveal_strlit("PASS");
    reveal_strlit("PENDING");
    if checks.len() > 0 {
        every_check_is_counted_once(checks.drop_last());
        assert("PASS"@.len() != "PENDING"@.len());
    }
}

/// Reports the checks of the preset.
pub fn report_preset(checks: Vec<Json>) -> (r: Json)
    ensures
        r@ == preset_reply(items_view(checks@)),
{
    let ghost all = items_view(checks@);
    let mut pass: u64 = 0;
    let mut pending: u64 = 0;
    let mut mismatch: u64 = 0;
    proof {
        reveal_strlit("PASS");
        reveal_strlit("PENDING");
        assert("PASS"@.len() != "PENDING"@.len());
    }
    for i in 0..checks.len()
        invariant
            all == items_view(checks@),
            pass == count_status(all.take(i as int), "PASS"@),
            pending == count_status(all.take(i as int), "PENDING"@),
            mismatch == i - pass - pending,
            pass + pending <= i,
            "PASS"@ != "PENDING"@,
    {
        assert(all.take(i + 1).drop_last() =~= all.take(i as int));
        assert(all.take(i + 1).last() == checks@[i as int]@);
        let (passes, waits) = match checks[i].text_at("status") {
            Some(status) => (same_text(status, "PASS"), same_text(status, "PENDING")),
            None => (false, false),
        };
        if passes {
            pass = pass + 1;
        } else if waits {
            pending = pending + 1;
        } else {
            mismatch = mismatch + 1;
        }
    }
    assert(all.take(all.len() as int) =~= all);
    let summary = Members::new()
        .with("pass", Json::natural(pass))
        .with("pending", Json::natural(pending))
        .with("mismatch", Json::natural(mismatch))
        .object();
    Members::new()
        .with("preset", Json::text("fiducia"))
        .with("checks", Json::Array(checks))
        .with("summary", summary)
        .object()
}

/// Whether these are the records of the checks of the preset through the
/// resolver: the pages, the edge and the name servers of fiducia.cloud.
pub open spec fn preset_checks<R: Resolve>(resolver: &R, checks: Seq<JsonView>) -> bool {
    &&& checks.len() == 5
    &&& pages_checked(resolver, "fiducia.cloud"@, checks[0])
    &&& pages_checked(resolver, "www.fiducia.cloud"@, checks[1])
    &&& edge_checked(resolver, "app.fiducia.cloud"@, checks[2])
    &&& edge_checked(resolver, "admin.fiducia.cloud"@, checks[3])
    &&& servers_checked(resolver, "fiducia.cloud"@, checks[4])
}

/// Whether this is the report of the preset through the resolver.
pub open spec fn preset_checked<R: Resolve>(resolver: &R, report: JsonView) -> bool {
    exists|checks: Seq<JsonView>| #[trigger]
        preset_checks(resolver, checks) && report == preset_reply(checks)
}

/// Checks the pages, the edge and the name servers of fiducia.cloud.
pub fn preset_fiducia<R: Resolve>(resolver: &R) -> (r: Json)
    ensures
        preset_checked(resolver, r@),
{
    let mut checks: Vec<Json> = Vec::new();
    checks.push(github_pages_check(resolver, "fiducia.cloud"));
    checks.push(github_pages_check(resolver, "www.fiducia.cloud"));
    checks.push(edge_check(resolver, "app.fiducia.cloud"));
    checks.push(edge_check(resolver, "admin.fiducia.cloud"));
    checks.push(cloudflare_ns_check(resolver, "fiducia.cloud"));
    assert(preset_checks(resolver, items_view(checks@)));
    report_preset(checks)
}

/// What a check of DNS records is given.
#[derive(Debug)]
pub struct DnsCheckInput {
    pub name: Option<String>,
    pub record_type: Option<String>,
    pub values: Option<Vec<String>>,
    pub preset: Option<String>,
}

/// What is given, without the white space around it; nothing where that is all.
pub open spec fn given(s: Option<String>) -> Option<Seq<char>> {
    match s {
        Some(s) => if trimmed(s@).len() == 0 {
            None
        } else {
            Some(trimmed(s@))
        },
        None => None,
    }
}

fn given_text(s: &Option<String>) -> (r: Option<&str>)
    ensures
        opt_str_view(r) == given(*s),
{
    match s {
        Some(s) => {
            let s = trim(s.as_str());
            if s.is_empty() {
                None
            } else {
                Some(s)
            }
        },
        None => None,
    }
}

pub open spec fn unknown_preset(preset: Seq<char>) -> Seq<char> {
    "unknown preset "@ + debug_text(preset) + "; the only built-in preset is \"fiducia\""@
}

pub open spec fn no_name() -> Seq<char> {
    "provide `name` (optionally with `type` + `values`), or preset:\"fiducia\""@
}

/// The report of one check of the values of a name.
pub open spec fn one_check(name: Seq<char>, record: DnsType, check: JsonView) -> JsonView {
    JsonView::Object(
        no_members()
            .push(("name"@, JsonView::Text(name)))
            .push(("type"@, JsonView::Text(name_of_type(record))))
            .push(("checks"@, JsonView::Array(Seq::<JsonView>::empty().push(check)))),
    )
}

/// Whether this is the record type that is meant: the given one, or A.
pub open spec fn is_meant_type(given: Option<String>, record: DnsType) -> bool {
    match given {
        Some(t) => names_type(t@, record),
        None => record == DnsType::A,
    }
}

/// Whether this is what a check is answered through the resolver: the report of
/// the preset, the report of one check of a name, or what is wrong with the input.
pub open spec fn dns_checked<R: Resolve>(
    resolver: &R,
    input: DnsCheckInput,
    result: Result<JsonView, Seq<char>>,
) -> bool {
    match given(input.preset) {
        Some(preset) => if preset == "fiducia"@ {
            result matches Ok(report) && preset_checked(resolver, report)
        } else {
            result == Err::<JsonView, Seq<char>>(unknown_preset(preset))
        },
        None => match given(input.name) {
            None => result == Err::<JsonView, Seq<char>>(no_name()),
            Some(name) => if input.record_type matches Some(t) && !names_some_type(t@) {
                result == Err::<JsonView, Seq<char>>(unsupported_type(input.record_type->0@))
            } else {
                exists|record: DnsType, check: JsonView| #[trigger]
                    values_checked(
                        resolver,
                        name,
                        record,
                        opt_list_view(input.values),
                        check,
                    ) && is_meant_type(input.record_type, record) && result == Ok::<
                        JsonView,
                        Seq<char>,
                    >(one_check(name, record, check))
            },
        },
    }
}

pub open spec fn opt_list_view(list: Option<Vec<String>>) -> Option<Seq<Seq<char>>> {
    match list {
        Some(list) => Some(texts(list@)),
        None => None,
    }
}

/// Checks DNS records: the preset, or the values of a name (of its A records
/// where no type is given).
pub fn dns_check<R: Resolve>(resolver: &R, input: DnsCheckInput) -> (r: Result<Json, String>)
    ensures
        dns_checked(resolver, input, res_json_view(r)),
{
    if let Some(preset) = given_text(&input.preset) {
        if same_text(preset, "fiducia") {
            return Ok(preset_fiducia(resolver));
        } else {
            return Err(
                cat3(
                    "unknown preset ",
                    quoted(preset).as_str(),
                    "; the only built-in preset is \"fiducia\"",
                ),
            );
        }
    }
    let name = match given_text(&input.name) {
        Some(name) => name,
        None => {
            return Err(
                "provide `name` (optionally with `type` + `values`), or preset:\"fiducia\"".to_string(),
            );
        },
    };
    let record = match &input.record_type {
        Some(t) => match DnsType::parse(t.as_str()) {
            Ok(record) => record,
            Err(e) => {
                return Err(e);
            },
        },
        None => DnsType::A,
    };
    let expected = match &input.values {
        Some(list) => Some(list),
        None => None,
    };
    let check = check_values(resolver, name, record, expected);
    let ghost shown = check@;
    assert(values_checked(resolver, name@, record, opt_list_view(input.values), shown));
    let mut checks: Vec<Json> = Vec::new();
    checks.push(check);
    assert(items_view(checks@) =~= Seq::<JsonView>::empty().push(shown));
    Ok(
        Members::new()
            .with("name", Json::text(name))
            .with("type", Json::text(record.as_str()))
            .with("checks", Json::Array(checks))
            .object(),
    )
}

// ---------------------------------------------------------------- RDAP records

/// The lower-case names of those name servers that have one, without the dots at
/// their ends.
pub open spec fn server_names(servers: Seq<JsonView>) -> Seq<Seq<char>>
    decreases servers.len(),
{
    if servers.len() == 0 {
        Seq::empty()
    } else {
        let names = server_names(servers.drop_last());
        match servers.last().text_at("ldhName"@) {
            Some(name) => names.push(lowered(without_end(name, '.'))),
            None => names,
        }
    }
}

fn rdap_servers(record: &Json) -> (r: Vec<String>)
    ensures
        texts(r@) == server_names(record@.items_at("nameservers"@)),
{
    let mut names: Vec<String> = Vec::new();
    let ghost all = record@.items_at("nameservers"@);
    assert(texts(names@) =~= server_names(all.take(0)));
    if let Some(list) = record.array_at("nameservers") {
        for i in 0..list.len()
            invariant
                all == items_view(list@),
                texts(names@) == server_names(all.take(i as int)),
        {
            assert(all.take(i + 1).drop_last() =~= all.take(i as int));
            let ghost before = texts(names@);
            if let Some(name) = list[i].text_at("ldhName") {
                let shown = ascii_lower(trim_end_char(name, '.'));
                let ghost view = shown@;
                names.push(shown);
                assert(texts(names@) =~= before.push(view));
            }
        }
    }
    assert(all.take(all.len() as int) =~= all);
    names
}

/// The texts among the items.
pub open spec fn texts_among(items: Seq<JsonView>) -> Seq<Seq<char>>
    decreases items.len(),
{
    if items.len() == 0 {
        Seq::empty()
    } else {
        let list = texts_among(items.drop_last());
        match items.last().text() {
            Some(s) => list.push(s),
            None => list,
        }
    }
}

fn rdap_statuses(record: &Json) -> (r: Vec<String>)
    ensures
        texts(r@) == texts_among(record@.items_at("status"@)),
{
    let mut list: Vec<String> = Vec::new();
    let ghost all = record@.items_at("status"@);
    assert(texts(list@) =~= texts_among(all.take(0)));
    if let Some(items) = record.array_at("status") {
        for i in 0..items.len()
            invariant
                all == items_view(items@),
                texts(list@) == texts_among(all.take(i as int)),
        {
            assert(all.take(i + 1).drop_last() =~= all.take(i as int));
            let ghost before = texts(list@);
            if let Some(s) = items[i].as_str() {
                list.push(s.to_string());
                assert(texts(list@) =~= before.push(s@));
            }
        }
    }
    assert(all.take(all.len() as int) =~= all);
    list
}

/// The date of the first of the events that is an expiration.
pub open spec fn expiry_of(events: Seq<JsonView>) -> Option<Seq<char>>
    decreases events.len(),
{
    if events.len() == 0 {
        None
    } else if events[0].text_at("eventAction"@) == Some("expiration"@) {
        events[0].text_at("eventDate"@)
    } else {
        expiry_of(events.skip(1))
    }
}

fn rdap_expiry(record: &Json) -> (r: Option<&str>)
    ensures
        opt_str_view(r) == expiry_of(record@.items_at("events"@)),
{
    let ghost all = record@.items_at("events"@);
    assert(all.skip(0) =~= all);
    if let Some(events) = record.array_at("events") {
        for i in 0..events.len()
            invariant
                all == record@.items_at("events"@),
                all == items_view(events@),
                expiry_of(all) == expiry_of(all.skip(i as int)),
        {
            assert(all.skip(i as int).skip(1) =~= all.skip(i + 1));
            assert(all.skip(i as int)[0] == events@[i as int]@);
            if let Some(action) = events[i].text_at("eventAction") {
                if same_text(action, "expiration") {
                    return events[i].text_at("eventDate");
                }
            }
        }
    }
    None
}

/// The value of the first property `fn` of a vCard: the fourth item of the
/// property, where that is a text.
pub open spec fn formatted_name(props: Seq<JsonView>) -> Option<Seq<char>>
    decreases props.len(),
{
    if props.len() == 0 {
        None
    } else {
        let prop = props[0].items_or_none();
        if prop.len() > 0 && prop[0].text() == Some("fn"@) {
            if prop.len() > 3 {
                prop[3].text()
            } else {
                None
            }
        } else {
            formatted_name(props.skip(1))
        }
    }
}

/// The properties of the vCard of an entity.
pub open spec fn vcard_props(entity: JsonView) -> Seq<JsonView> {
    let card = entity.items_at("vcardArray"@);
    if card.len() > 1 {
        card[1].items_or_none()
    } else {
        Seq::empty()
    }
}

/// The formatted name in the vCard of an entity.
pub fn vcard_fn(entity: &Json) -> (r: Option<&str>)
    ensures
        opt_str_view(r) == formatted_name(vcard_props(entity@)),
{
    let ghost all = vcard_props(entity@);
    assert(all.skip(0) =~= all);
    if let Some(card) = entity.array_at("vcardArray") {
        if card.len() > 1 {
            if let Some(props) = card[1].as_array() {
                for i in 0..props.len()
                    invariant
                        all == vcard_props(entity@),
                        all == items_view(props@),
                        formatted_name(all) == formatted_name(all.skip(i as int)),
                {
                    assert(all.skip(i as int).skip(1) =~= all.skip(i + 1));
                    assert(all.skip(i as int)[0] == props@[i as int]@);
                    if let Some(prop) = props[i].as_array() {
                        assert(props@[i as int]@.items_or_none() == items_view(prop@));
                        if prop.len() > 0 {
                            if let Some(kind) = prop[0].as_str() {
                                if same_text(kind, "fn") {
                                    return if prop.len() > 3 {
                                        prop[3].as_str()
                                    } else {
                                        None
                                    };
                                }
                            }
                        }
                    }
                }
            }
        }
    }
    None
}

/// Whether an entity has the role of the registrar.
pub open spec fn is_registrar(entity: JsonView) -> bool {
    let roles = entity.items_at("roles"@);
    exists|i: int| 0 <= i < roles.len() && (#[trigger] roles[i]).text() == Some("registrar"@)
}

fn has_registrar_role(entity: &Json) -> (r: bool)
    ensures
        r == is_registrar(entity@),
{
    let ghost all = entity@.items_at("roles"@);
    if let Some(roles) = entity.array_at("roles") {
        for i in 0..roles.len()
            invariant
                all == entity@.items_at("roles"@),
                all == items_view(roles@),
                forall|k: int| 0 <= k < i ==> (#[trigger] all[k]).text() != Some("registrar"@),
        {
            assert(all[i as int] == roles@[i as int]@);
            if let Some(role) = roles[i].as_str() {
                if same_text(role, "registrar") {
                    return true;
                }
            }
        }
    }
    false
}

/// The name of an entity that is a registrar: the one in its vCard, or else its
/// handle.
pub open spec fn registrar_name(entity: JsonView) -> Option<Seq<char>> {
    if is_registrar(entity) {
        match formatted_name(vcard_props(entity)) {
            Some(name) => Some(name),
            None => entity.text_at("handle"@),
        }
    } else {
        None
    }
}

/// The name of the first registrar among the entities that has one.
pub open spec fn first_registrar(entities: Seq<JsonView>) -> Option<Seq<char>>
    decreases entities.len(),
{
    if entities.len() == 0 {
        None
    } else {
        match registrar_name(entities[0]) {
            Some(name) => Some(name),
            None => first_registrar(entities.skip(1)),
        }
    }
}

/// The name of the registrar in an RDAP record.
pub fn rdap_registrar(record: &Json) -> (r: Option<&str>)
    ensures
        opt_str_view(r) == first_registrar(record@.items_at("entities"@)),
{
    let ghost all = record@.items_at("entities"@);
    assert(all.skip(0) =~= all);
    if let Some(entities) = record.array_at("entities") {
        for i in 0..entities.len()
            invariant
                all == record@.items_at("entities"@),
                all == items_view(entities@),
                first_registrar(all) == first_registrar(all.skip(i as int)),
        {
            assert(all.skip(i as int).skip(1) =~= all.skip(i + 1));
            assert(all.skip(i as int)[0] == entities@[i as int]@);
            if has_registrar_role(&entities[i]) {
                if let Some(name) = vcard_fn(&entities[i]) {
                    return Some(name);
                }
                if let Some(handle) = entities[i].text_at("handle") {
                    return Some(handle);
                }
            }
        }
    }
    None
}

/// What is shown of an RDAP record.
pub open spec fn rdap_summary(domain: Seq<char>, record: JsonView) -> JsonView {
    JsonView::Object(
        no_members()
            .push(("domain"@, JsonView::Text(domain)))
            .push(
                ("registrar"@, JsonView::opt_text(first_registrar(record.items_at("entities"@)))),
            )
            .push(
                (
                    "nameservers"@,
                    JsonView::text_array(server_names(record.items_at("nameservers"@))),
                ),
            )
            .push(("status"@, JsonView::text_array(texts_among(record.items_at("status"@)))))
            .push(("expiry"@, JsonView::opt_text(expiry_of(record.items_at("events"@))))),
    )
}

/// What is shown of an RDAP record: registrar, name servers, status and expiry.
pub fn parse_rdap(domain: &str, record: &Json) -> (r: Json)
    ensures
        r@ == rdap_summary(domain@, record@),
{
    Members::new()
        .with("domain", Json::text(domain))
        .with("registrar", Json::opt_text(rdap_registrar(record)))
        .with("nameservers", Json::text_array(&rdap_servers(record)))
        .with("status", Json::text_array(&rdap_statuses(record)))
        .with("expiry", Json::opt_text(rdap_expiry(record)))
        .object()
}

// ---------------------------------------------------------------- RDAP exchanges

/// Whether a location is a URL of its own.
pub open spec fn is_absolute(location: Seq<char>) -> bool {
    begins_with(location, "http://"@) || begins_with(location, "https://"@)
}

/// Where a `Location` leads from the server under `base`.
pub open spec fn location_url(base: Seq<char>, location: Seq<char>) -> Seq<char> {
    if is_absolute(location) {
        location
    } else if location.len() > 0 && location[0] == '/' {
        without_end(base, '/') + location
    } else {
        without_end(base, '/') + "/"@ + location
    }
}

/// Where a `Location` leads, which is absolute or relative to the server under
/// `base`.
pub fn resolve_location(base: &str, location: &str) -> (r: String)
    ensures
        r@ == location_url(base@, location@),
{
    if starts_with(location, "http://") || starts_with(location, "https://") {
        return location.to_string();
    }
    let base = trim_end_char(base, '/');
    proof {
        reveal_strlit("/");
    }
    if starts_with(location, "/") {
        assert(location@.take(1)[0] == location@[0]);
        cat2(base, location)
    } else {
        assert(location@.len() > 0 && location@[0] == '/' ==> location@.take(1) =~= "/"@);
        cat3(base, "/", location)
    }
}

/// A GET request over RDAP. It accepts [`RDAP_ACCEPT`], and redirects are not to
/// be followed in making it.
#[derive(Debug)]
pub struct RdapRequest {
    pub url: String,
    pub accept: &'static str,
}

/// How an RDAP exchange ended.
#[derive(Debug)]
pub enum RdapOutcome {
    /// The request could not be sent or was not answered, and why.
    Unsent(String),
    /// The answer: its status, its `Location` header where it is a readable
    /// text, and its body, or why that could not be read.
    Reply { status: HttpStatus, location: Option<String>, body: Result<String, String> },
}

/// What an [`RdapOutcome`] stands for.
pub enum RdapOutcomeView {
    Unsent(Seq<char>),
    Reply { code: u16, location: Option<Seq<char>>, body: Result<Seq<char>, Seq<char>> },
}

impl View for RdapOutcome {
    type V = RdapOutcomeView;

    open spec fn view(&self) -> RdapOutcomeView {
        match self {
            RdapOutcome::Unsent(e) => RdapOutcomeView::Unsent(e@),
            RdapOutcome::Reply { status, location, body } => RdapOutcomeView::Reply {
                code: status@,
                location: opt_string_view(*location),
                body: res_string_view(*body),
            },
        }
    }
}

/// Which exchange of a status question is under way.
#[derive(Debug)]
pub enum RdapTask {
    /// With the server under `base`.
    First { base: String, domain: String },
    /// With the server that the first one named.
    Redirected { url: String, domain: String },
}

/// What an [`RdapTask`] stands for.
pub enum RdapTaskView {
    First { base: Seq<char>, domain: Seq<char> },
    Redirected { url: Seq<char>, domain: Seq<char> },
}

impl View for RdapTask {
    type V = RdapTaskView;

    open spec fn view(&self) -> RdapTaskView {
        match self {
            RdapTask::First { base, domain } => RdapTaskView::First { base: base@, domain: domain@ },
            RdapTask::Redirected { url, domain } => RdapTaskView::Redirected {
                url: url@,
                domain: domain@,
            },
        }
    }
}

/// What to do next: make an exchange and come back with its outcome, or nothing,
/// for the answer is there.
#[derive(Debug)]
pub enum RdapStep {
    Send(RdapTask),
    Done(Result<Json, String>),
}

/// What an [`RdapStep`] stands for.
pub enum RdapStepView {
    Send(RdapTaskView),
    Done(Result<JsonView, Seq<char>>),
}

impl View for RdapStep {
    type V = RdapStepView;

    open spec fn view(&self) -> RdapStepView {
        match self {
            RdapStep::Send(task) => RdapStepView::Send(task@),
            RdapStep::Done(r) => RdapStepView::Done(res_json_view(*r)),
        }
    }
}

/// The URL of an exchange.
pub open spec fn task_url(task: RdapTaskView) -> Seq<char> {
    match task {
        RdapTaskView::First { base, domain } => without_end(base, '/') + "/domain/"@ + domain,
        RdapTaskView::Redirected { url, .. } => url,
    }
}

/// The answer to a status question from the parsed body of an exchange.
pub open spec fn rdap_read(domain: Seq<char>, record: Result<JsonView, Seq<char>>) -> Result<
    JsonView,
    Seq<char>,
> {
    match record {
        Err(e) => Err("RDAP response was not JSON: "@ + e),
        Ok(record) => Ok(rdap_summary(domain, record)),
    }
}

/// The answer to a status question from the status and the body of an exchange.
pub open spec fn rdap_answer(
    domain: Seq<char>,
    code: u16,
    body: Result<Seq<char>, Seq<char>>,
) -> Result<JsonView, Seq<char>> {
    match body {
        Err(e) => Err("reading RDAP response for "@ + domain + " failed: "@ + e),
        Ok(text) => if !is_success_code(code) {
            Err("RDAP lookup for "@ + domain + " returned "@ + status_text(code))
        } else {
            rdap_read(domain, json_of_text(text))
        },
    }
}

fn answer_rdap(domain: &str, status: &HttpStatus, body: &Result<String, String>) -> (r: Result<
    Json,
    String,
>)
    ensures
        res_json_view(r) == rdap_answer(domain@, status@, res_string_view(*body)),
{
    match body {
        Err(e) => Err(cat4("reading RDAP response for ", domain, " failed: ", e.as_str())),
        Ok(text) => if !status.is_success() {
            Err(cat4("RDAP lookup for ", domain, " returned ", status.line().as_str()))
        } else {
            match parse_json(text.as_str()) {
                Err(e) => Err(cat2("RDAP response was not JSON: ", e.as_str())),
                Ok(record) => Ok(parse_rdap(domain, &record)),
            }
        },
    }
}

/// What comes after an exchange. One redirect of the first server is followed,
/// and no other.
pub open spec fn rdap_resumed(task: RdapTaskView, outcome: RdapOutcomeView) -> RdapStepView {
    match task {
        RdapTaskView::First { base, domain } => match outcome {
            RdapOutcomeView::Unsent(e) => RdapStepView::Done(
                Err("RDAP request to "@ + task_url(task) + " failed: "@ + e),
            ),
            RdapOutcomeView::Reply { code, location, body } => if is_redirection_code(code) {
                match location {
                    None => RdapStepView::Done(
                        Err(
                            "RDAP "@ + task_url(task) + " returned "@ + status_text(code)
                                + " without a Location header"@,
                        ),
                    ),
                    Some(location) => RdapStepView::Send(
                        RdapTaskView::Redirected { url: location_url(base, location), domain },
                    ),
                }
            } else {
                RdapStepView::Done(rdap_answer(domain, code, body))
            },
        },
        RdapTaskView::Redirected { url, domain } => match outcome {
            RdapOutcomeView::Unsent(e) => RdapStepView::Done(
                Err("RDAP redirect to "@ + url + " failed: "@ + e),
            ),
            RdapOutcomeView::Reply { code, body, .. } => RdapStepView::Done(
                rdap_answer(domain, code, body),
            ),
        },
    }
}

impl RdapTask {
    /// The request of this exchange.
    pub fn request(&self) -> (r: RdapRequest)
        ensures
            r.url@ == task_url(self@),
            r.accept@ == RDAP_ACCEPT@,
    {
        let url = match self {
            RdapTask::First { base, domain } => cat3(
                trim_end_char(base.as_str(), '/'),
                "/domain/",
                domain.as_str(),
            ),
            RdapTask::Redirected { url, .. } => url.clone(),
        };
        RdapRequest { url, accept: RDAP_ACCEPT }
    }

    /// What comes after this exchange, which ended so.
    pub fn resume(self, outcome: RdapOutcome) -> (r: RdapStep)
        ensures
            r@ == rdap_resumed(self@, outcome@),
    {
        let here = self.request().url;
        match self {
            RdapTask::First { base, domain } => match outcome {
                RdapOutcome::Unsent(e) => RdapStep::Done(
                    Err(cat4("RDAP request to ", here.as_str(), " failed: ", e.as_str())),
                ),
                RdapOutcome::Reply { status, location, body } => if status.is_redirection() {
                    match location {
                        None => RdapStep::Done(
                            Err(
                                cat5(
                                    "RDAP ",
                                    here.as_str(),
                                    " returned ",
                                    status.line().as_str(),
                                    " without a Location header",
                                ),
                            ),
                        ),
                        Some(location) => RdapStep::Send(
                            RdapTask::Redirected {
                                url: resolve_location(base.as_str(), location.as_str()),
                                domain,
                            },
                        ),
                    }
                } else {
                    RdapStep::Done(answer_rdap(domain.as_str(), &status, &body))
                },
            },
            RdapTask::Redirected { url, domain } => match outcome {
                RdapOutcome::Unsent(e) => RdapStep::Done(
                    Err(cat4("RDAP redirect to ", url.as_str(), " failed: ", e.as_str())),
                ),
                RdapOutcome::Reply { status, body, .. } => RdapStep::Done(
                    answer_rdap(domain.as_str(), &status, &body),
                ),
            },
        }
    }
}

/// The domain that is meant, without the white space around it and the dots at
/// its end.
pub open spec fn meant_domain(domain: Seq<char>) -> Seq<char> {
    without_end(trimmed(domain), '.')
}

/// The registrar, the name servers, the status and the expiry of a domain, asked
/// of the RDAP server under `rdap_base`.
pub fn registrar_status(rdap_base: &str, domain: &str) -> (r: RdapStep)
    ensures
        r@ == if meant_domain(domain@).len() == 0 {
            RdapStepView::Done(Err("`domain` is required"@))
        } else {
            RdapStepView::Send(
                RdapTaskView::First { base: rdap_base@, domain: meant_domain(domain@) },
            )
        },
{
    let domain = trim_end_char(trim(domain), '.');
    if domain.is_empty() {
        return RdapStep::Done(Err("`domain` is required".to_string()));
    }
    RdapStep::Send(
        RdapTask::First { base: rdap_base.to_string(), domain: domain.to_string() },
    )
}

// ---------------------------------------------------------------- laws

/// Where a status question stands after these outcomes.
pub open spec fn rdap_after(first: RdapStepView, outcomes: Seq<RdapOutcomeView>) -> RdapStepView
    decreases outcomes.len(),
{
    if outcomes.len() == 0 {
        first
    } else {
        match rdap_after(first, outcomes.drop_last()) {
            RdapStepView::Send(task) => rdap_resumed(task, outcomes.last()),
            RdapStepView::Done(r) => RdapStepView::Done(r),
        }
    }
}

/// At most one redirect is followed: after two exchanges the question is answered,
/// and a second exchange comes only after an answer of the first server that
/// redirects.
pub proof fn at_most_one_redirect(
    base: Seq<char>,
    domain: Seq<char>,
    outcomes: Seq<RdapOutcomeView>,
)
    ensures
        outcomes.len() >= 2 ==> rdap_after(
            RdapStepView::Send(RdapTaskView::First { base, domain }),
            outcomes,
        ) is Done,
        outcomes.len() == 1 && rdap_after(
            RdapStepView::Send(RdapTaskView::First { base, domain }),
            outcomes,
        ) is Send ==> (outcomes[0] matches RdapOutcomeView::Reply { code, .. }
            && is_redirection_code(code)),
    decreases outcomes.len(),
{
    let first = RdapStepView::Send(RdapTaskView::First { base, domain });
    if outcomes.len() == 1 {
        assert(rdap_after(first, outcomes.drop_last()) == first);
    } else if outcomes.len() >= 2 {
        at_most_one_redirect(base, domain, outcomes.drop_last());
        if outcomes.len() == 2 {
            let one = outcomes.drop_last();
            assert(rdap_after(first, one.drop_last()) == first);
        }
    }
}

/// A name server that says that there is no such record is believed: the others
/// are asked only where the first ones failed.
pub proof fn no_record_is_an_answer(later: QueryOutcomeView)
    ensures
        settled(Some(QueryOutcomeView::Empty), later) == Answer::Ok(Seq::empty()),
        forall|e: Seq<char>| #[trigger]
            settled(Some(QueryOutcomeView::Soft(e)), later) == settled(None, later),
{
}

/// A name with a dot at its end keeps it, and gets no second one.
pub proof fn a_dot_is_added_once(name: Seq<char>)
    ensures
        with_dot(name).last() == '.',
        with_dot(with_dot(name)) == with_dot(name),
{
    lemma_trimmed_edges(name);
    let full = with_dot(name);
    assert(full.len() > 0 && !is_white_space(full.first()) && !is_white_space(full.last()));
}

/// A text names a record type exactly where it is one of these, in any case and with
/// white space around it.
pub proof fn the_types_have_their_names(s: Seq<char>)
    ensures
        names_type(s, DnsType::A) <==> uppered(trimmed(s)) == "A"@,
        names_type(s, DnsType::Aaaa) <==> uppered(trimmed(s)) == "AAAA"@,
        names_type(s, DnsType::Cname) <==> uppered(trimmed(s)) == "CNAME"@,
        names_type(s, DnsType::Ns) <==> uppered(trimmed(s)) == "NS"@,
        names_type(s, DnsType::Txt) <==> uppered(trimmed(s)) == "TXT"@,
        names_type(s, DnsType::Mx) <==> uppered(trimmed(s)) == "MX"@,
{
}

/// Whether this is the name of a record type.
pub open spec fn is_type_name(record: DnsType, name: Seq<char>) -> bool {
    &&& record == DnsType::A ==> name == "A"@
    &&& record == DnsType::Aaaa ==> name == "AAAA"@
    &&& record == DnsType::Cname ==> name == "CNAME"@
    &&& record == DnsType::Ns ==> name == "NS"@
    &&& record == DnsType::Txt ==> name == "TXT"@
    &&& record == DnsType::Mx ==> name == "MX"@
}

/// Whether these are the items of an array: the texts of a list.
pub open spec fn are_texts(items: Seq<JsonView>, list: Seq<Seq<char>>) -> bool {
    &&& items.len() == list.len()
    &&& forall|i: int| 0 <= i < list.len() ==> #[trigger] items[i] == JsonView::Text(list[i])
}

/// Whether some value that was found is some expected one, but for the case of its
/// ASCII letters.
pub open spec fn is_found(found: Seq<Seq<char>>, expected: Seq<Seq<char>>) -> bool {
    exists|i: int, j: int|
        0 <= i < found.len() && 0 <= j < expected.len() && lowered(#[trigger] found[i]) == lowered(
            #[trigger] expected[j],
        )
}

/// Whether this is the status of a check of expected values, of which there may be
/// none to compare with: pending where nothing was found, a pass where an expected
/// value was found or nothing is expected, and otherwise a mismatch.
pub open spec fn is_status(
    status: Option<Seq<char>>,
    found: Seq<Seq<char>>,
    expected: Option<Seq<Seq<char>>>,
) -> bool {
    &&& found.len() == 0 <==> status == Some("PENDING"@)
    &&& found.len() > 0 && expected is None ==> status == Some("PASS"@)
    &&& found.len() > 0 && expected is Some && is_found(found, expected->0) ==> status == Some(
        "PASS"@,
    )
    &&& found.len() > 0 && expected is Some && !is_found(found, expected->0) ==> status == Some(
        "MISMATCH"@,
    )
}

proof fn lemma_statuses_differ()
    ensures
        "PASS"@ != "PENDING"@,
        "PASS"@ != "MISMATCH"@,
        "PENDING"@ != "MISMATCH"@,
        "ERROR"@ != "PASS"@,
        "ERROR"@ != "PENDING"@,
        "ERROR"@ != "MISMATCH"@,
{
    reveal_strlit("PASS");
    reveal_strlit("PENDING");
    reveal_strlit("MISMATCH");
    reveal_strlit("ERROR");
    assert("PASS"@.len() == 4 && "PENDING"@.len() == 7 && "MISMATCH"@.len() == 8 &&
        "ERROR"@.len() == 5);
}

/// The status of a check follows from what was found and what was expected.
pub proof fn a_status_follows_from_what_is_found(
    found: Seq<Seq<char>>,
    expected: Option<Seq<Seq<char>>>,
)
    ensures
        is_status(Some(status_of(found, expected)), found, expected),
{
    lemma_statuses_differ();
}

/// Whether a check of the values of a name is shown so: the name, the type, what was
/// expected and what was found, and the status; or, where the lookup failed, that it
/// did and why.
pub open spec fn shows_check(
    check: JsonView,
    name: Seq<char>,
    record: DnsType,
    expected: Option<Seq<Seq<char>>>,
    answer: Answer,
) -> bool {
    &&& check.text_at("name"@) == Some(name)
    &&& check.text_at("type"@) matches Some(t) && is_type_name(record, t)
    &&& match answer {
        Err(e) => check.text_at("status"@) == Some("ERROR"@) && check.text_at("error"@) == Some(e),
        Ok(found) => {
            &&& are_texts(check.items_at("found"@), found)
            &&& match expected {
                Some(list) => are_texts(check.items_at("expected"@), list),
                None => check.get("expected"@) == Some(JsonView::Null),
            }
            &&& is_status(check.text_at("status"@), found, expected)
        },
    }
}

proof fn lemma_shows_check(
    name: Seq<char>,
    record: DnsType,
    expected: Option<Seq<Seq<char>>>,
    answer: Answer,
)
    ensures
        shows_check(values_check(name, record, expected, answer), name, record, expected, answer),
{
    broadcast use lemma_member_push;

    reveal_strlit("name");
    reveal_strlit("type");
    reveal_strlit("status");
    reveal_strlit("error");
    reveal_strlit("expected");
    reveal_strlit("found");
    assert("name"@.len() == 4 && "type"@.len() == 4 && "status"@.len() == 6 &&
        "error"@.len() == 5 && "expected"@.len() == 8 && "found"@.len() == 5 &&
        "error"@[0] == 'e' && "found"@[0] == 'f' && "name"@[0] == 'n' && "type"@[0] == 't');
    if let Ok(found) = answer {
        a_status_follows_from_what_is_found(found, expected);
    }
}

/// Whether this is the type that is given, or A where none is.
pub open spec fn is_given_type(given: Option<String>, record: DnsType) -> bool {
    match given {
        Some(t) => is_type_name(record, uppered(trimmed(t@))),
        None => record == DnsType::A,
    }
}

/// Whether a text that may be missing is missing, or only white space.
pub open spec fn is_blank(s: Option<String>) -> bool {
    s is None || trimmed(s->0@).len() == 0
}

/// A check of a name is one lookup of it, under the given type or else under A, and
/// the report shows what the resolver answered: with at least one value found, the
/// status is `PASS` exactly where some found value equals some expected one ignoring
/// case, or nothing is expected, and otherwise `MISMATCH`.
pub proof fn a_check_is_reported_as_it_went<R: Resolve>(
    resolver: &R,
    input: DnsCheckInput,
    report: JsonView,
)
    requires
        is_blank(input.preset),
        dns_checked(resolver, input, Ok(report)),
    ensures
        !is_blank(input.name),
        report.text_at("name"@) == Some(trimmed(input.name->0@)),
        report.items_at("checks"@).len() == 1,
        ({
            let check = report.items_at("checks"@)[0];
            let found = check.items_at("found"@);
            input.values matches Some(list) ==> found.len() > 0 ==> {
                let good = exists|i: int, j: int|
                    0 <= i < found.len() && 0 <= j < list@.len() && #[trigger] equals_ignoring_case(
                        found[i],
                        list@[j]@,
                    );
                &&& good <==> check.text_at("status"@) == Some("PASS"@)
                &&& !good <==> check.text_at("status"@) == Some("MISMATCH"@)
            }
        }),
        exists|record: DnsType, answer: Answer| #[trigger]
            resolver.answers(trimmed(input.name->0@), record, answer) && is_given_type(
                input.record_type,
                record,
            ) && (report.text_at("type"@) matches Some(t) && is_type_name(record, t)) && shows_check(
                report.items_at("checks"@)[0],
                trimmed(input.name->0@),
                record,
                opt_list_view(input.values),
                answer,
            ),
{
    broadcast use lemma_member_push;

    reveal_strlit("name");
    reveal_strlit("type");
    reveal_strlit("checks");
    assert("name"@.len() == 4 && "type"@.len() == 4 && "checks"@.len() == 6 &&
        "name"@[0] == 'n' && "type"@[0] == 't');
    let name = trimmed(input.name->0@);
    let expected = opt_list_view(input.values);
    let (record, check) = choose|record: DnsType, check: JsonView| #[trigger]
        values_checked(resolver, name, record, expected, check) && is_meant_type(
            input.record_type,
            record,
        ) && report == one_check(name, record, check);
    let answer = choose|answer: Answer| #[trigger]
        resolver.answers(name, record, answer) && check == values_check(
            name,
            record,
            expected,
            answer,
        );
    lemma_shows_check(name, record, expected, answer);
    assert(resolver.answers(name, record, answer));
    assert(report.items_at("checks"@)[0] == check);
    lemma_statuses_differ();
    if let Some(list) = input.values {
        let shown = check.items_at("found"@);
        if shown.len() > 0 {
            lemma_error_shows_nothing(name, record, expected, answer);
            let found = answer->Ok_0;
            let want = expected->0;
            if is_found(found, want) {
                let (i, j) = choose|i: int, j: int|
                    0 <= i < found.len() && 0 <= j < want.len() && lowered(#[trigger] found[i])
                        == lowered(#[trigger] want[j]);
                assert(equals_ignoring_case(shown[i], list@[j]@));
            }
            assert forall|i: int, j: int|
                0 <= i < shown.len() && 0 <= j < list@.len() && #[trigger] equals_ignoring_case(
                    shown[i],
                    list@[j]@,
                ) implies is_found(found, want) by {
                assert(shown[i] == JsonView::Text(found[i]));
                assert(want[j] == list@[j]@);
                assert(lowered(found[i]) == lowered(want[j]));
            }
        }
    }
}

/// Whether a tree is a text that equals another but for the case of its ASCII letters.
pub open spec fn equals_ignoring_case(tree: JsonView, other: Seq<char>) -> bool {
    tree matches JsonView::Text(s) && lowered(s) == lowered(other)
}

proof fn lemma_error_shows_nothing(
    name: Seq<char>,
    record: DnsType,
    expected: Option<Seq<Seq<char>>>,
    answer: Answer,
)
    ensures
        answer is Err ==> values_check(name, record, expected, answer).items_at("found"@).len() == 0,
{
    broadcast use lemma_member_push;

    reveal_strlit("name");
    reveal_strlit("type");
    reveal_strlit("status");
    reveal_strlit("error");
    reveal_strlit("found");
    assert("name"@.len() == 4 && "type"@.len() == 4 && "status"@.len() == 6 &&
        "error"@.len() == 5 && "found"@.len() == 5 && "error"@[0] == 'e' && "found"@[0] == 'f' &&
        "name"@[0] == 'n' && "type"@[0] == 't');
}

/// A check that cannot be made says why: a preset that is not `fiducia`, no name, or
/// a type that is none, each named. Every other check is made.
pub proof fn a_check_that_cannot_be_made_is_refused<R: Resolve>(
    resolver: &R,
    input: DnsCheckInput,
    result: Result<JsonView, Seq<char>>,
)
    requires
        dns_checked(resolver, input, result),
    ensures
        !is_blank(input.preset) && trimmed(input.preset->0@) != "fiducia"@ ==> (result matches Err(e)
            && mentions(e, debug_text(trimmed(input.preset->0@)))),
        is_blank(input.preset) && is_blank(input.name) ==> result == Err::<JsonView, Seq<char>>(
            "provide `name` (optionally with `type` + `values`), or preset:\"fiducia\""@,
        ),
        is_blank(input.preset) && !is_blank(input.name) && input.record_type is Some
            && !names_a_type(input.record_type->0@) ==> (result matches Err(e) && mentions(
            e,
            debug_text(uppered(trimmed(input.record_type->0@))),
        )),
        is_blank(input.preset) && !is_blank(input.name) && (input.record_type is None || names_a_type(
            input.record_type->0@,
        )) ==> result is Ok,
        !is_blank(input.preset) && trimmed(input.preset->0@) == "fiducia"@ ==> result is Ok,
{
    if !is_blank(input.preset) {
        let preset = trimmed(input.preset->0@);
        lemma_mentions(
            "unknown preset "@,
            debug_text(preset),
            "; the only built-in preset is \"fiducia\""@,
        );
    } else if !is_blank(input.name) && input.record_type is Some {
        let t = input.record_type->0@;
        let meant = debug_text(uppered(trimmed(t)));
        let start = "unsupported DNS record type "@;
        lemma_mentions(start, meant, Seq::empty());
        assert(start + meant + Seq::<char>::empty() =~= start + meant);
        if names_a_type(t) {
            assert(names_type(t, DnsType::A) || names_type(t, DnsType::Aaaa) || names_type(
                t,
                DnsType::Cname,
            ) || names_type(t, DnsType::Ns) || names_type(t, DnsType::Txt) || names_type(
                t,
                DnsType::Mx,
            ));
        }
    }
}

/// Whether a text names a record type, in any case and with white space around it.
pub open spec fn names_a_type(s: Seq<char>) -> bool {
    let t = uppered(trimmed(s));
    t == "A"@ || t == "AAAA"@ || t == "CNAME"@ || t == "NS"@ || t == "TXT"@ || t == "MX"@
}

/// The values of an answer; none where the lookup failed.
pub open spec fn found_in(answer: Answer) -> Seq<Seq<char>> {
    if answer is Ok {
        answer->Ok_0
    } else {
        Seq::empty()
    }
}

/// Whether a check that a name leads to GitHub Pages is shown so: what was found
/// under A and under CNAME, and a pass exactly where one of the addresses is one of
/// the four of GitHub Pages, or one of the names that of the pages of fiducia.cloud.
/// It is pending where nothing was found, and otherwise a mismatch.
pub open spec fn shows_pages(check: JsonView, name: Seq<char>, a: Answer, cname: Answer) -> bool {
    let ips = found_in(a);
    let names = found_in(cname);
    let status = check.text_at("status"@);
    let good = (exists|i: int|
        0 <= i < ips.len() && (#[trigger] ips[i] == "185.199.108.153"@ || ips[i]
            == "185.199.109.153"@ || ips[i] == "185.199.110.153"@ || ips[i] == "185.199.111.153"@))
        || (exists|i: int|
        0 <= i < names.len() && lowered(#[trigger] names[i]) == "fiducia-cloud.github.io"@);
    &&& check.text_at("name"@) == Some(name)
    &&& check.text_at("expect"@) == Some(
        "GitHub Pages (A 185.199.108-111.153 or CNAME fiducia-cloud.github.io)"@,
    )
    &&& check.get("found"@) matches Some(found) && are_texts(found.items_at("A"@), ips) && are_texts(
        found.items_at("CNAME"@),
        names,
    )
    &&& good <==> status == Some("PASS"@)
    &&& ips.len() == 0 && names.len() == 0 <==> status == Some("PENDING"@)
    &&& !good && ips.len() + names.len() > 0 ==> status == Some("MISMATCH"@)
}

proof fn lemma_shows_pages(name: Seq<char>, a: Answer, cname: Answer)
    ensures
        shows_pages(pages_check(name, a, cname), name, a, cname),
{
    broadcast use lemma_member_push;

    lemma_statuses_differ();
    reveal_strlit("name");
    reveal_strlit("expect");
    reveal_strlit("found");
    reveal_strlit("status");
    assert("name"@.len() == 4 && "expect"@.len() == 6 && "found"@.len() == 5 &&
        "status"@.len() == 6 && "expect"@[0] == 'e' && "status"@[0] == 's');
    assert(found_in(a) == values_or_none(a));
    assert(found_in(cname) == values_or_none(cname));
    assert("A"@ != "CNAME"@) by {
        reveal_strlit("A");
        reveal_strlit("CNAME");
        assert("A"@.len() == 1 && "CNAME"@.len() == 5);
    }
    assert(lowered("fiducia-cloud.github.io"@) =~= "fiducia-cloud.github.io"@) by {
        reveal_strlit("fiducia-cloud.github.io");
    }
    let ips = found_in(a);
    assert forall|i: int| 0 <= i < ips.len() implies is_pages_address(#[trigger] ips[i]) == (ips[i]
        == "185.199.108.153"@ || ips[i] == "185.199.109.153"@ || ips[i] == "185.199.110.153"@
        || ips[i] == "185.199.111.153"@) by {}
}

/// Whether a check that a name leads to the edge is shown so: what was found, and a
/// pass exactly where the address of the edge is among it; or that the lookup failed,
/// and why.
pub open spec fn shows_edge(check: JsonView, name: Seq<char>, a: Answer) -> bool {
    let status = check.text_at("status"@);
    &&& check.text_at("name"@) == Some(name)
    &&& match a {
        Err(e) => status == Some("ERROR"@) && check.text_at("error"@) == Some(e) && check.text_at(
            "expect"@,
        ) == Some("95.217.171.250"@),
        Ok(ips) => {
            let good = exists|i: int|
                0 <= i < ips.len() && lowered(#[trigger] ips[i]) == "95.217.171.250"@;
            &&& check.text_at("expect"@) == Some("A 95.217.171.250 (Hetzner edge)"@)
            &&& are_texts(check.items_at("found"@), ips)
            &&& good <==> status == Some("PASS"@)
            &&& ips.len() == 0 <==> status == Some("PENDING"@)
            &&& !good && ips.len() > 0 ==> status == Some("MISMATCH"@)
        },
    }
}

proof fn lemma_shows_edge(name: Seq<char>, a: Answer)
    ensures
        shows_edge(edge_check_of(name, a), name, a),
{
    broadcast use lemma_member_push;

    lemma_statuses_differ();
    reveal_strlit("name");
    reveal_strlit("expect");
    reveal_strlit("found");
    reveal_strlit("status");
    reveal_strlit("error");
    assert("name"@.len() == 4 && "expect"@.len() == 6 && "found"@.len() == 5 &&
        "status"@.len() == 6 && "error"@.len() == 5 && "error"@[0] == 'e' &&
        "expect"@[0] == 'e' && "found"@[0] == 'f' && "status"@[0] == 's');
    assert(lowered("95.217.171.250"@) =~= "95.217.171.250"@) by {
        reveal_strlit("95.217.171.250");
    }
    assert("A "@ + "95.217.171.250"@ + " (Hetzner edge)"@ =~= "A 95.217.171.250 (Hetzner edge)"@) by {
        reveal_strlit("A ");
        reveal_strlit("95.217.171.250");
        reveal_strlit(" (Hetzner edge)");
        reveal_strlit("A 95.217.171.250 (Hetzner edge)");
    }
    if let Ok(ips) = a {
        let expected = no_words().push(FIDUCIA_EDGE_IP@);
        assert(expected[0] == "95.217.171.250"@);
        let good = exists|i: int|
            0 <= i < ips.len() && lowered(#[trigger] ips[i]) == "95.217.171.250"@;
        if good {
            let i = choose|i: int|
                0 <= i < ips.len() && lowered(#[trigger] ips[i]) == "95.217.171.250"@;
            assert(lowered(ips[i]) == lowered(expected[0]));
            assert(some_expected(ips, expected));
        }
        if some_expected(ips, expected) {
            let (i, j) = choose|i: int, j: int|
                0 <= i < ips.len() && 0 <= j < expected.len() && lowered(#[trigger] ips[i])
                    == lowered(#[trigger] expected[j]);
            assert(lowered(ips[i]) == "95.217.171.250"@);
        }
    }
}

/// Whether a check that the name servers of a domain are Cloudflare's is shown so:
/// what was found, and a pass exactly where there is some and all of it ends in
/// `.ns.cloudflare.com`, in any case.
pub open spec fn shows_servers(check: JsonView, name: Seq<char>, ns: Answer) -> bool {
    let servers = found_in(ns);
    let status = check.text_at("status"@);
    let good = servers.len() > 0 && forall|i: int|
        0 <= i < servers.len() ==> finishes_with(
            lowered(#[trigger] servers[i]),
            ".ns.cloudflare.com"@,
        );
    &&& check.text_at("name"@) == Some(name)
    &&& check.text_at("expect"@) == Some("nameservers are *.ns.cloudflare.com"@)
    &&& are_texts(check.items_at("found"@), servers)
    &&& good <==> status == Some("PASS"@)
    &&& servers.len() == 0 <==> status == Some("PENDING"@)
    &&& !good && servers.len() > 0 ==> status == Some("MISMATCH"@)
}

proof fn lemma_shows_servers(name: Seq<char>, ns: Answer)
    ensures
        shows_servers(servers_check(name, ns), name, ns),
{
    broadcast use lemma_member_push;

    lemma_statuses_differ();
    reveal_strlit("name");
    reveal_strlit("expect");
    reveal_strlit("found");
    reveal_strlit("status");
    assert("name"@.len() == 4 && "expect"@.len() == 6 && "found"@.len() == 5 &&
        "status"@.len() == 6 && "expect"@[0] == 'e' && "status"@[0] == 's');
    assert(found_in(ns) == values_or_none(ns));
    let servers = found_in(ns);
    assert forall|i: int| 0 <= i < servers.len() implies is_cloudflare_server(#[trigger] servers[i])
        == finishes_with(lowered(servers[i]), ".ns.cloudflare.com"@) by {}
}

/// How many of five checks have this status.
pub open spec fn of_five(checks: Seq<JsonView>, status: Seq<char>) -> int {
    (if checks[0].text_at("status"@) == Some(status) { 1int } else { 0int })
        + (if checks[1].text_at("status"@) == Some(status) { 1int } else { 0int })
        + (if checks[2].text_at("status"@) == Some(status) { 1int } else { 0int })
        + (if checks[3].text_at("status"@) == Some(status) { 1int } else { 0int })
        + (if checks[4].text_at("status"@) == Some(status) { 1int } else { 0int })
}

proof fn lemma_of_five(checks: Seq<JsonView>, status: Seq<char>)
    requires
        checks.len() == 5,
    ensures
        count_status(checks, status) == of_five(checks, status),
{
    reveal_with_fuel(count_status, 6);
    assert(checks.drop_last().drop_last().drop_last().drop_last().drop_last().len() == 0);
}

/// The preset `fiducia` is five checks: that fiducia.cloud and www.fiducia.cloud
/// lead to GitHub Pages, that app.fiducia.cloud and admin.fiducia.cloud lead to the
/// edge, and that the name servers of fiducia.cloud are Cloudflare's. Each is shown
/// as the resolver answered it, and the summary counts those that pass, those that
/// are pending, and all others.
pub proof fn the_preset_is_reported_as_it_went<R: Resolve>(
    resolver: &R,
    input: DnsCheckInput,
    report: JsonView,
)
    requires
        input.preset matches Some(preset) && trimmed(preset@) == "fiducia"@,
        dns_checked(resolver, input, Ok(report)),
    ensures
        report.text_at("preset"@) == Some("fiducia"@),
        report.items_at("checks"@).len() == 5,
        exists|a: Answer, c: Answer| #[trigger]
            resolver.answers("fiducia.cloud"@, DnsType::A, a) && #[trigger] resolver.answers(
                "fiducia.cloud"@,
                DnsType::Cname,
                c,
            ) && shows_pages(report.items_at("checks"@)[0], "fiducia.cloud"@, a, c),
        exists|a: Answer, c: Answer| #[trigger]
            resolver.answers("www.fiducia.cloud"@, DnsType::A, a) && #[trigger] resolver.answers(
                "www.fiducia.cloud"@,
                DnsType::Cname,
                c,
            ) && shows_pages(report.items_at("checks"@)[1], "www.fiducia.cloud"@, a, c),
        exists|a: Answer| #[trigger]
            resolver.answers("app.fiducia.cloud"@, DnsType::A, a) && shows_edge(
                report.items_at("checks"@)[2],
                "app.fiducia.cloud"@,
                a,
            ),
        exists|a: Answer| #[trigger]
            resolver.answers("admin.fiducia.cloud"@, DnsType::A, a) && shows_edge(
                report.items_at("checks"@)[3],
                "admin.fiducia.cloud"@,
                a,
            ),
        exists|ns: Answer| #[trigger]
            resolver.answers("fiducia.cloud"@, DnsType::Ns, ns) && shows_servers(
                report.items_at("checks"@)[4],
                "fiducia.cloud"@,
                ns,
            ),
        report.get("summary"@) matches Some(summary) && {
            let checks = report.items_at("checks"@);
            let pass = of_five(checks, "PASS"@);
            let pending = of_five(checks, "PENDING"@);
            &&& summary.natural_at("pass"@) == Some(pass as u64)
            &&& summary.natural_at("pending"@) == Some(pending as u64)
            &&& summary.natural_at("mismatch"@) == Some((5 - pass - pending) as u64)
        },
{
    broadcast use lemma_member_push;

    reveal_strlit("preset");
    reveal_strlit("checks");
    reveal_strlit("summary");
    reveal_strlit("pass");
    reveal_strlit("pending");
    reveal_strlit("mismatch");
    assert("preset"@.len() == 6 && "checks"@.len() == 6 && "summary"@.len() == 7 &&
        "pass"@.len() == 4 && "pending"@.len() == 7 && "mismatch"@.len() == 8 &&
        "checks"@[0] == 'c' && "pending"@[0] == 'p' && "preset"@[0] == 'p' &&
        "summary"@[0] == 's');
    assert(trimmed(input.preset->0@).len() > 0) by {
        reveal_strlit("fiducia");
    }
    let checks = choose|checks: Seq<JsonView>| #[trigger]
        preset_checks(resolver, checks) && report == preset_reply(checks);
    assert(report.items_at("checks"@) == checks);
    lemma_of_five(checks, "PASS"@);
    lemma_of_five(checks, "PENDING"@);
    lemma_pages_checked(resolver, "fiducia.cloud"@, checks[0]);
    lemma_pages_checked(resolver, "www.fiducia.cloud"@, checks[1]);
    lemma_edge_checked(resolver, "app.fiducia.cloud"@, checks[2]);
    lemma_edge_checked(resolver, "admin.fiducia.cloud"@, checks[3]);
    let ns = choose|ns: Answer| #[trigger]
        resolver.answers("fiducia.cloud"@, DnsType::Ns, ns) && checks[4] == servers_check(
            "fiducia.cloud"@,
            ns,
        );
    lemma_shows_servers("fiducia.cloud"@, ns);
}

proof fn lemma_pages_checked<R: Resolve>(resolver: &R, name: Seq<char>, check: JsonView)
    requires
        pages_checked(resolver, name, check),
    ensures
        exists|a: Answer, c: Answer| #[trigger]
            resolver.answers(name, DnsType::A, a) && #[trigger] resolver.answers(
                name,
                DnsType::Cname,
                c,
            ) && shows_pages(check, name, a, c),
{
    let (a, c) = choose|a: Answer, c: Answer| #[trigger]
        resolver.answers(name, DnsType::A, a) && #[trigger] resolver.answers(
            name,
            DnsType::Cname,
            c,
        ) && check == pages_check(name, a, c);
    lemma_shows_pages(name, a, c);
}

proof fn lemma_edge_checked<R: Resolve>(resolver: &R, name: Seq<char>, check: JsonView)
    requires
        edge_checked(resolver, name, check),
    ensures
        exists|a: Answer| #[trigger]
            resolver.answers(name, DnsType::A, a) && shows_edge(check, name, a),
{
    let a = choose|a: Answer| #[trigger]
        resolver.answers(name, DnsType::A, a) && check == edge_check_of(name, a);
    lemma_shows_edge(name, a);
}

/// Whether a value is that of a record of this type: its data without the dots at its
/// end.
pub open spec fn is_value_of(value: Seq<char>, record: DnsType, sent: (String, String)) -> bool {
    is_type_name(record, sent.0@) && value == without_end(sent.1@, '.')
}

/// Which of these records are of this type.
pub open spec fn of_type(records: Seq<(String, String)>, record: DnsType) -> spec_fn(int) -> bool {
    |i: int| is_type_name(record, records[i].0@)
}

/// Of the records that a name server sends, those of the type that was asked for are
/// the values, all of them and in their order, each without the dots at its end. All
/// others are left out.
pub proof fn the_records_of_the_type_are_the_values(
    name: Seq<char>,
    record: DnsType,
    records: Vec<(String, String)>,
)
    ensures
        query_outcome(name, record, QueryReply::Records(records)) matches QueryOutcomeView::Values(
            values,
        ) && exists|at: Seq<int>| #[trigger]
            picks(at, records@.len() as int, of_type(records@, record)) && values.len() == at.len()
                && forall|v: int|
                0 <= v < at.len() ==> is_value_of(#[trigger] values[v], record, records@[at[v]]),
{
    let n = records@.len() as int;
    lemma_values_of(records@, record, n);
    lemma_picked(n, of_type(records@, record));
    assert(records@.take(n) =~= records@);
    assert(picks(picked(n, of_type(records@, record)), n, of_type(records@, record)));
}

proof fn lemma_values_of(records: Seq<(String, String)>, record: DnsType, n: int)
    requires
        0 <= n <= records.len(),
    ensures
        values_of(records.take(n), record).len() == picked(n, of_type(records, record)).len(),
        forall|v: int|
            0 <= v < picked(n, of_type(records, record)).len() ==> is_value_of(
                #[trigger] values_of(records.take(n), record)[v],
                record,
                records[picked(n, of_type(records, record))[v]],
            ),
    decreases n,
{
    if n > 0 {
        lemma_values_of(records, record, n - 1);
        assert(records.take(n).drop_last() =~= records.take(n - 1));
        let end = records[n - 1];
        assert(records.take(n).last() == end);
        assert(is_type_name(record, end.0@) <==> end.0@ == name_of_type(record));
    }
}

/// The first name servers are believed, whether they have values or say that there
/// are none; the later ones count only where the first ones failed or there are none,
/// and the lookup fails only where those fail too.
pub proof fn later_servers_stand_in(
    values: Seq<Seq<char>>,
    e: Seq<char>,
    first: Option<QueryOutcomeView>,
    later: QueryOutcomeView,
)
    ensures
        settled(Some(QueryOutcomeView::Values(values)), later) == Answer::Ok(values),
        settled(Some(QueryOutcomeView::Empty), later) == Answer::Ok(Seq::empty()),
        first is None || first->0 is Soft ==> {
            &&& settled(first, QueryOutcomeView::Values(values)) == Answer::Ok(values)
            &&& settled(first, QueryOutcomeView::Empty) == Answer::Ok(Seq::empty())
            &&& settled(first, QueryOutcomeView::Soft(e)) == Answer::Err(e)
        },
{
}

/// A failed query names what was asked for and why it failed; that there is no such
/// record is no failure.
pub proof fn a_failed_query_says_why(name: Seq<char>, record: DnsType, e: String)
    ensures
        query_outcome(name, record, QueryReply::NoRecords) is Empty,
        query_outcome(name, record, QueryReply::Failed(e)) matches QueryOutcomeView::Soft(message)
            && mentions(message, name) && mentions(message, e@),
{
    let none = Seq::<char>::empty();
    let start = "DNS lookup for "@;
    let t = name_of_type(record);
    let f = " failed: "@;
    let message = start + name + " "@ + t + (f + e@);
    lemma_mentions(start, name, " "@ + t + (f + e@));
    assert(start + name + (" "@ + t + (f + e@)) =~= message);
    lemma_mentions(start + name + " "@ + t + f, e@, none);
    assert(start + name + " "@ + t + f + e@ + none =~= message);
}

/// A name is looked up as it is, without the white space around it, with one dot at
/// its end.
pub proof fn a_name_is_looked_up_with_a_dot(name: Seq<char>)
    ensures
        trimmed(name).len() > 0 && trimmed(name).last() == '.' ==> with_dot(name) == trimmed(name),
        trimmed(name).len() == 0 || trimmed(name).last() != '.' ==> with_dot(name) == trimmed(name)
            + seq!['.'],
{
    assert(trimmed(name).push('.') =~= trimmed(name) + seq!['.']);
}

// ---------------------------------------------------------------- laws on RDAP

/// Whether this event is the first that is an expiration.
pub open spec fn is_first_expiration(events: Seq<JsonView>, i: int) -> bool {
    &&& 0 <= i < events.len()
    &&& events[i].text_at("eventAction"@) == Some("expiration"@)
    &&& forall|k: int|
        0 <= k < i ==> (#[trigger] events[k]).text_at("eventAction"@) != Some("expiration"@)
}

proof fn lemma_expiry(events: Seq<JsonView>, i: int)
    requires
        is_first_expiration(events, i),
    ensures
        expiry_of(events) == events[i].text_at("eventDate"@),
    decreases events.len(),
{
    if i > 0 {
        let rest = events.skip(1);
        assert(events[0].text_at("eventAction"@) != Some("expiration"@));
        assert(rest[i - 1] == events[i]);
        assert forall|k: int| 0 <= k < i - 1 implies (#[trigger] rest[k]).text_at("eventAction"@)
            != Some("expiration"@) by {
            assert(rest[k] == events[k + 1]);
        }
        lemma_expiry(rest, i - 1);
    }
}

proof fn lemma_no_expiry(events: Seq<JsonView>)
    requires
        forall|k: int|
            0 <= k < events.len() ==> (#[trigger] events[k]).text_at("eventAction"@) != Some(
                "expiration"@,
            ),
    ensures
        expiry_of(events) is None,
    decreases events.len(),
{
    if events.len() > 0 {
        let rest = events.skip(1);
        assert(events[0].text_at("eventAction"@) != Some("expiration"@));
        assert forall|k: int| 0 <= k < rest.len() implies (#[trigger] rest[k]).text_at(
            "eventAction"@,
        ) != Some("expiration"@) by {
            assert(rest[k] == events[k + 1]);
        }
        lemma_no_expiry(rest);
    }
}

/// Whether an entity has the role `registrar`.
pub open spec fn has_role_registrar(entity: JsonView) -> bool {
    exists|i: int|
        0 <= i < entity.items_at("roles"@).len() && #[trigger] entity.items_at("roles"@)[i]
            == JsonView::Text("registrar"@)
}

/// Whether this property of the vCard of an entity, which stands behind the word
/// `vcard`, is the first that is a formatted name.
pub open spec fn is_first_fn(entity: JsonView, p: int) -> bool {
    let card = entity.items_at("vcardArray"@);
    let props = card[1].items_or_none();
    &&& card.len() > 1
    &&& 0 <= p < props.len()
    &&& props[p].items_or_none().len() > 0
    &&& props[p].items_or_none()[0].text() == Some("fn"@)
    &&& forall|k: int|
        0 <= k < p ==> (#[trigger] props[k]).items_or_none().len() == 0
            || props[k].items_or_none()[0].text() != Some("fn"@)
}

/// Whether an entity is called so: by the formatted name in its vCard, the fourth
/// part of that property; where there is none, by its handle.
pub open spec fn is_called(entity: JsonView, name: Option<Seq<char>>) -> bool {
    let card = entity.items_at("vcardArray"@);
    let props = card[1].items_or_none();
    &&& forall|p: int| #[trigger]
        is_first_fn(entity, p) ==> {
            let parts = props[p].items_or_none();
            if parts.len() > 3 && parts[3].text() is Some {
                name == parts[3].text()
            } else {
                name == entity.text_at("handle"@)
            }
        }
    &&& (forall|p: int| !#[trigger] is_first_fn(entity, p)) ==> name == entity.text_at("handle"@)
}

proof fn lemma_formatted_name(props: Seq<JsonView>, p: int)
    requires
        0 <= p < props.len(),
        props[p].items_or_none().len() > 0,
        props[p].items_or_none()[0].text() == Some("fn"@),
        forall|k: int|
            0 <= k < p ==> (#[trigger] props[k]).items_or_none().len() == 0
                || props[k].items_or_none()[0].text() != Some("fn"@),
    ensures
        formatted_name(props) == (if props[p].items_or_none().len() > 3 {
            props[p].items_or_none()[3].text()
        } else {
            None
        }),
    decreases props.len(),
{
    if p > 0 {
        let rest = props.skip(1);
        assert(rest[p - 1] == props[p]);
        assert(props[0].items_or_none().len() == 0 || props[0].items_or_none()[0].text() != Some(
            "fn"@,
        ));
        assert forall|k: int| 0 <= k < p - 1 implies (#[trigger] rest[k]).items_or_none().len() == 0
            || rest[k].items_or_none()[0].text() != Some("fn"@) by {
            assert(rest[k] == props[k + 1]);
        }
        lemma_formatted_name(rest, p - 1);
    }
}

proof fn lemma_no_formatted_name(props: Seq<JsonView>) -> (p: int)
    ensures
        formatted_name(props) is Some ==> {
            &&& 0 <= p < props.len()
            &&& props[p].items_or_none().len() > 0
            &&& props[p].items_or_none()[0].text() == Some("fn"@)
            &&& forall|k: int|
                0 <= k < p ==> (#[trigger] props[k]).items_or_none().len() == 0
                    || props[k].items_or_none()[0].text() != Some("fn"@)
        },
    decreases props.len(),
{
    if props.len() == 0 {
        0
    } else if props[0].items_or_none().len() > 0 && props[0].items_or_none()[0].text() == Some(
        "fn"@,
    ) {
        0
    } else {
        let rest = props.skip(1);
        let p = lemma_no_formatted_name(rest);
        if formatted_name(props) is Some {
            assert(rest[p] == props[p + 1]);
            assert forall|k: int| 0 <= k < p + 1 implies (#[trigger] props[k]).items_or_none().len()
                == 0 || props[k].items_or_none()[0].text() != Some("fn"@) by {
                if k > 0 {
                    assert(rest[k - 1] == props[k]);
                }
            }
        }
        p + 1
    }
}

proof fn lemma_is_called(entity: JsonView)
    requires
        has_role_registrar(entity),
    ensures
        is_called(entity, registrar_name(entity)),
{
    let roles = entity.items_at("roles"@);
    let r = choose|i: int|
        0 <= i < roles.len() && #[trigger] roles[i] == JsonView::Text("registrar"@);
    assert(roles[r].text() == Some("registrar"@));
    let props = vcard_props(entity);
    assert forall|p: int| #[trigger] is_first_fn(entity, p) implies formatted_name(props) == (if props[p].items_or_none().len()
        > 3 {
        props[p].items_or_none()[3].text()
    } else {
        None
    }) by {
        lemma_formatted_name(props, p);
    }
    if forall|p: int| !#[trigger] is_first_fn(entity, p) {
        let p = lemma_no_formatted_name(props);
        if formatted_name(props) is Some {
            assert(is_first_fn(entity, p));
        }
    }
}

proof fn lemma_is_registrar(entity: JsonView)
    ensures
        is_registrar(entity) == has_role_registrar(entity),
{
    let roles = entity.items_at("roles"@);
    if is_registrar(entity) {
        let i = choose|i: int|
            0 <= i < roles.len() && (#[trigger] roles[i]).text() == Some("registrar"@);
        assert(roles[i] == JsonView::Text("registrar"@));
    }
    if has_role_registrar(entity) {
        let i = choose|i: int|
            0 <= i < roles.len() && #[trigger] roles[i] == JsonView::Text("registrar"@);
        assert(roles[i].text() == Some("registrar"@));
    }
}

/// The registrar of an RDAP record is the first entity with the role `registrar`
/// that is called anything.
pub open spec fn is_registrar_of(entities: Seq<JsonView>, name: Option<Seq<char>>) -> bool {
    match name {
        Some(_) => exists|i: int|
            0 <= i < entities.len() && has_role_registrar(#[trigger] entities[i]) && is_called(
                entities[i],
                name,
            ) && forall|k: int|
                0 <= k < i && has_role_registrar(#[trigger] entities[k]) ==> is_called(
                    entities[k],
                    None,
                ),
        None => forall|k: int|
            0 <= k < entities.len() && has_role_registrar(#[trigger] entities[k]) ==> is_called(
                entities[k],
                None,
            ),
    }
}

proof fn lemma_registrar_of(entities: Seq<JsonView>)
    ensures
        is_registrar_of(entities, first_registrar(entities)),
    decreases entities.len(),
{
    if entities.len() > 0 {
        let name = first_registrar(entities);
        let rest = entities.skip(1);
        lemma_is_registrar(entities[0]);
        if has_role_registrar(entities[0]) {
            lemma_is_called(entities[0]);
        }
        if registrar_name(entities[0]) is None {
            lemma_registrar_of(rest);
            if name is Some {
                let i = choose|i: int|
                    0 <= i < rest.len() && has_role_registrar(#[trigger] rest[i]) && is_called(
                        rest[i],
                        name,
                    ) && forall|k: int|
                        0 <= k < i && has_role_registrar(#[trigger] rest[k]) ==> is_called(
                            rest[k],
                            None,
                        );
                assert(entities[i + 1] == rest[i]);
                assert forall|k: int|
                    0 <= k < i + 1 && has_role_registrar(#[trigger] entities[k]) implies is_called(
                    entities[k],
                    None,
                ) by {
                    if k > 0 {
                        assert(rest[k - 1] == entities[k]);
                    }
                }
            } else {
                assert forall|k: int|
                    0 <= k < entities.len() && has_role_registrar(
                        #[trigger] entities[k],
                    ) implies is_called(entities[k], None) by {
                    if k > 0 {
                        assert(rest[k - 1] == entities[k]);
                    }
                }
            }
        }
    }
}

/// Whether a name server is shown so: its name in lower case, without the dots at its
/// end.
pub open spec fn is_name_of(shown: Seq<char>, server: JsonView) -> bool {
    server.text_at("ldhName"@) matches Some(name) && shown == lowered(without_end(name, '.'))
}

/// Whether an RDAP record is shown so: the domain that was asked for; its registrar;
/// its name servers in lower case, without the dots at their ends; its status codes;
/// and the date of its first expiration, null where there is none.
pub open spec fn shows_domain(shown: JsonView, domain: Seq<char>, record: JsonView) -> bool {
    let servers = record.items_at("nameservers"@);
    let codes = record.items_at("status"@);
    let events = record.items_at("events"@);
    let listed = shown.items_at("nameservers"@);
    let stated = shown.items_at("status"@);
    &&& shown.text_at("domain"@) == Some(domain)
    &&& is_registrar_of(record.items_at("entities"@), shown.text_at("registrar"@))
    &&& exists|at: Seq<int>| #[trigger]
        picks(at, servers.len() as int, with_text(servers, "ldhName"@)) && listed.len() == at.len()
            && forall|a: int|
            0 <= a < at.len() ==> (#[trigger] listed[a] matches JsonView::Text(name) && is_name_of(
                name,
                servers[at[a]],
            ))
    &&& exists|at: Seq<int>| #[trigger]
        picks(at, codes.len() as int, being_texts(codes)) && stated.len() == at.len() && forall|
            a: int,
        |
            0 <= a < at.len() ==> #[trigger] stated[a] == codes[at[a]]
    &&& forall|i: int| #[trigger]
        is_first_expiration(events, i) ==> shown.text_at("expiry"@) == events[i].text_at(
            "eventDate"@,
        )
    &&& (forall|k: int|
        0 <= k < events.len() ==> (#[trigger] events[k]).text_at("eventAction"@) != Some(
            "expiration"@,
        )) ==> shown.get("expiry"@) == Some(JsonView::Null)
}

proof fn lemma_server_names(servers: Seq<JsonView>, n: int)
    requires
        0 <= n <= servers.len(),
    ensures
        server_names(servers.take(n)).len() == picked(n, with_text(servers, "ldhName"@)).len(),
        forall|a: int|
            0 <= a < picked(n, with_text(servers, "ldhName"@)).len() ==> is_name_of(
                #[trigger] server_names(servers.take(n))[a],
                servers[picked(n, with_text(servers, "ldhName"@))[a]],
            ),
    decreases n,
{
    if n > 0 {
        lemma_server_names(servers, n - 1);
        assert(servers.take(n).drop_last() =~= servers.take(n - 1));
        assert(servers.take(n).last() == servers[n - 1]);
    }
}

proof fn lemma_texts_among(items: Seq<JsonView>, n: int)
    requires
        0 <= n <= items.len(),
    ensures
        texts_among(items.take(n)).len() == picked(n, being_texts(items)).len(),
        forall|a: int|
            0 <= a < picked(n, being_texts(items)).len() ==> JsonView::Text(
                #[trigger] texts_among(items.take(n))[a],
            ) == items[picked(n, being_texts(items))[a]],
    decreases n,
{
    if n > 0 {
        lemma_texts_among(items, n - 1);
        assert(items.take(n).drop_last() =~= items.take(n - 1));
        assert(items.take(n).last() == items[n - 1]);
    }
}

/// Every RDAP record is shown as it is.
pub proof fn a_domain_is_shown_as_it_is(domain: Seq<char>, record: JsonView)
    ensures
        shows_domain(rdap_summary(domain, record), domain, record),
{
    broadcast use lemma_member_push;

    reveal_strlit("domain");
    reveal_strlit("registrar");
    reveal_strlit("nameservers");
    reveal_strlit("status");
    reveal_strlit("expiry");
    assert("domain"@.len() == 6 && "registrar"@.len() == 9 && "nameservers"@.len() == 11 &&
        "status"@.len() == 6 && "expiry"@.len() == 6 && "domain"@[0] == 'd' &&
        "expiry"@[0] == 'e' && "status"@[0] == 's');
    let shown = rdap_summary(domain, record);
    let servers = record.items_at("nameservers"@);
    let codes = record.items_at("status"@);
    let events = record.items_at("events"@);
    lemma_registrar_of(record.items_at("entities"@));
    let n = servers.len() as int;
    let m = codes.len() as int;
    lemma_server_names(servers, n);
    lemma_picked(n, with_text(servers, "ldhName"@));
    assert(servers.take(n) =~= servers);
    lemma_texts_among(codes, m);
    lemma_picked(m, being_texts(codes));
    assert(codes.take(m) =~= codes);
    let listed = shown.items_at("nameservers"@);
    let stated = shown.items_at("status"@);
    let names = server_names(servers);
    let said = texts_among(codes);
    assert(listed =~= names.map_values(|s: Seq<char>| JsonView::Text(s)));
    assert(stated =~= said.map_values(|s: Seq<char>| JsonView::Text(s)));
    let at = picked(n, with_text(servers, "ldhName"@));
    assert forall|a: int| 0 <= a < at.len() implies (#[trigger] listed[a] matches JsonView::Text(name)
        && is_name_of(name, servers[at[a]])) by {
        assert(is_name_of(names[a], servers[at[a]]));
    }
    assert(picks(at, n, with_text(servers, "ldhName"@)));
    let kept = picked(m, being_texts(codes));
    assert forall|a: int| 0 <= a < kept.len() implies #[trigger] stated[a] == codes[kept[a]] by {
        assert(JsonView::Text(said[a]) == codes[kept[a]]);
    }
    assert(picks(kept, m, being_texts(codes)));
    assert forall|i: int| #[trigger] is_first_expiration(events, i) implies shown.text_at("expiry"@)
        == events[i].text_at("eventDate"@) by {
        lemma_expiry(events, i);
    }
    if forall|k: int|
        0 <= k < events.len() ==> (#[trigger] events[k]).text_at("eventAction"@) != Some(
            "expiration"@,
        ) {
        lemma_no_expiry(events);
    }
}

/// A domain is asked for under `/domain/` of the server, and an answer of status 200
/// to 299 that is JSON is shown as it is, whether the first server gave it or the one
/// that it named. Every other answer is an error that names the domain, unless it is
/// the redirect of the first server.
pub proof fn a_domain_is_asked_for(
    base: Seq<char>,
    url: Seq<char>,
    domain: Seq<char>,
    code: u16,
    location: Option<Seq<char>>,
    text: Seq<char>,
    record: JsonView,
    e: Seq<char>,
)
    ensures
        ({
            let first = RdapTaskView::First { base, domain };
            let second = RdapTaskView::Redirected { url, domain };
            let reply = RdapOutcomeView::Reply { code, location, body: Ok(text) };
            let unread = RdapOutcomeView::Reply { code, location, body: Err(e) };
            let good = 200 <= code < 300;
            let away = 300 <= code < 400;
            &&& RDAP_ACCEPT@ == "application/rdap+json"@
            &&& task_url(first) == without_end(base, '/') + "/domain/"@ + domain
            &&& task_url(second) == url
            &&& good && json_of_text(text) == Ok::<JsonView, Seq<char>>(record) ==> {
                &&& rdap_resumed(first, reply) matches RdapStepView::Done(Ok(shown))
                    && shows_domain(shown, domain, record)
                &&& rdap_resumed(second, reply) matches RdapStepView::Done(Ok(shown))
                    && shows_domain(shown, domain, record)
            }
            &&& good && json_of_text(text) is Err ==> {
                let why = "RDAP response was not JSON: "@ + json_of_text(text)->Err_0;
                &&& rdap_resumed(first, reply) == RdapStepView::Done(Err(why))
                &&& rdap_resumed(second, reply) == RdapStepView::Done(Err(why))
            }
            &&& !good && !away ==> (rdap_resumed(first, reply) matches RdapStepView::Done(Err(m))
                && mentions(m, domain) && mentions(m, status_text(code)))
            &&& !good ==> (rdap_resumed(second, reply) matches RdapStepView::Done(Err(m))
                && mentions(m, domain) && mentions(m, status_text(code)))
            &&& !away ==> (rdap_resumed(first, unread) matches RdapStepView::Done(Err(m))
                && mentions(m, domain) && mentions(m, e))
            &&& away && location is None ==> (rdap_resumed(first, reply) matches RdapStepView::Done(
                Err(m),
            ) && mentions(m, status_text(code)))
            &&& away && location is Some ==> (rdap_resumed(first, reply) matches RdapStepView::Send(
                RdapTaskView::Redirected { url: next, domain: same },
            ) && same == domain && next == location_url(base, location->0))
            &&& rdap_resumed(first, RdapOutcomeView::Unsent(e)) matches RdapStepView::Done(Err(m))
                && mentions(m, e)
            &&& rdap_resumed(second, RdapOutcomeView::Unsent(e)) matches RdapStepView::Done(Err(m))
                && mentions(m, e)
        }),
{
    a_domain_is_shown_as_it_is(domain, record);
    let none = Seq::<char>::empty();
    let line = status_text(code);
    let a = "RDAP lookup for "@;
    let b = " returned "@;
    lemma_mentions(a, domain, b + line);
    assert(a + domain + (b + line) =~= a + domain + b + line);
    lemma_mentions(a + domain + b, line, none);
    assert(a + domain + b + line + none =~= a + domain + b + line);
    let c = "reading RDAP response for "@;
    let f = " failed: "@;
    lemma_mentions(c, domain, f + e);
    assert(c + domain + (f + e) =~= c + domain + f + e);
    lemma_mentions(c + domain + f, e, none);
    assert(c + domain + f + e + none =~= c + domain + f + e);
    let here = task_url(RdapTaskView::First { base, domain });
    lemma_mentions("RDAP "@ + here + b, line, " without a Location header"@);
    lemma_mentions("RDAP request to "@ + here + f, e, none);
    assert("RDAP request to "@ + here + f + e + none =~= "RDAP request to "@ + here + f + e);
    lemma_mentions("RDAP redirect to "@ + url + f, e, none);
    assert("RDAP redirect to "@ + url + f + e + none =~= "RDAP redirect to "@ + url + f + e);
}

/// Where a redirect leads: an absolute location is taken as it is. Any other is one
/// of the same server, under its base URL, and a slash at its beginning changes
/// nothing.
pub proof fn a_location_is_absolute_or_of_the_same_server(base: Seq<char>, path: Seq<char>)
    ensures
        begins_with(path, "http://"@) || begins_with(path, "https://"@) ==> location_url(base, path)
            == path,
        path.len() > 0 && path[0] == '/' ==> location_url(base, path) == without_end(base, '/')
            + path,
        !begins_with(path, "http://"@) && !begins_with(path, "https://"@) && (path.len() == 0
            || path[0] != '/') ==> location_url(base, path) == location_url(base, seq!['/'] + path),
{
    reveal_strlit("http://");
    reveal_strlit("https://");
    reveal_strlit("/");
    assert("http://"@.len() == 7 && "https://"@.len() == 8 && "/"@.len() == 1);
    let slashed = seq!['/'] + path;
    assert("http://"@[0] == 'h' && "https://"@[0] == 'h');
    if begins_with(slashed, "http://"@) {
        assert(slashed.take("http://"@.len() as int)[0] == '/');
    }
    if begins_with(slashed, "https://"@) {
        assert(slashed.take("https://"@.len() as int)[0] == '/');
    }
    if path.len() > 0 && path[0] == '/' {
        if begins_with(path, "http://"@) {
            assert(path.take("http://"@.len() as int)[0] == '/');
        }
        if begins_with(path, "https://"@) {
            assert(path.take("https://"@.len() as int)[0] == '/');
        }
    }
    assert("/"@ =~= seq!['/']);
    assert(without_end(base, '/') + "/"@ + path =~= without_end(base, '/') + slashed);
}

} // verus!
