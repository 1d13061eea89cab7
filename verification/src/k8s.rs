//! Kubernetes diagnostics by way of `kubectl`, which carries the operator's
//! kubeconfig, contexts and auth plugins. The process itself is run elsewhere;
//! here is what to run, in which order, and what the output amounts to.
//!
//! - A command is a list of arguments, never a shell string.
//! - Only read-only verbs are ever asked for (`config get-contexts`, `get -o
//!   json`, `rollout status --watch=false`).
//! - Every `--context` is checked against `kubectl config get-contexts -o name`
//!   before use, and against `FIDUCIA_K8S_CONTEXTS` where that is set.
//! - Large summaries are cut to about 32 KB with a note.

use vstd::prelude::*;
use crate::env_map::{env_nonempty, nonempty_value, EnvMap};
use crate::json::{
    group_json_view, items_view, json_of_text, lemma_member_push, member, no_members, parse_json,
    res_json_view, text_of_json, with_text, Json, JsonView, Members,
};
use crate::text::{
    ascii_lower, before, begins_with, byte_head, byte_head_of, byte_len, cat2, cat3, cat4, cat5,
    contains_text, debug_list, debug_text, decimal, decimal_of, fields, fields_of, join, joined,
    lemma_before_irreflexive, lemma_before_total, lemma_before_transitive,
    lemma_byte_head_is_longest, lemma_mentions, lemma_picked, lossy, lossy_text, lowered, mentions, no_words,
    opt_str_view, picked, picks, quoted, quoted_list, res_string_view, res_unit_view, same_text, text_before,
    texts, trim, trimmed, Words,
};

verus! {

broadcast use group_json_view;

pub const K8S_CONTEXTS_ENV: &'static str = "FIDUCIA_K8S_CONTEXTS";

pub const DEFAULT_NAMESPACE: &'static str = "fiducia";

/// How many bytes of output are shown before it is cut.
pub const MAX_OUTPUT: usize = 32768;

// ---------------------------------------------------------------- summaries

/// The text, or a question mark.
pub open spec fn or_unknown(s: Option<Seq<char>>) -> Seq<char> {
    match s {
        Some(s) => s,
        None => "?"@,
    }
}

fn known_or(s: Option<&str>) -> (r: &str)
    ensures
        r@ == or_unknown(opt_str_view(s)),
{
    match s {
        Some(s) => s,
        None => "?",
    }
}

/// The texts of the members `key` of those items that have such a text.
pub open spec fn member_texts(items: Seq<JsonView>, key: Seq<char>) -> Seq<Seq<char>>
    decreases items.len(),
{
    if items.len() == 0 {
        Seq::empty()
    } else {
        let head = member_texts(items.drop_last(), key);
        match items.last().text_at(key) {
            Some(s) => head.push(s),
            None => head,
        }
    }
}

fn collect_texts(items: &Vec<Json>, key: &str) -> (r: Vec<String>)
    ensures
        texts(r@) == member_texts(items_view(items@), key@),
{
    let ghost all = items_view(items@);
    let mut out: Vec<String> = Vec::new();
    assert(texts(out@) =~= member_texts(all.take(0), key@));
    for i in 0..items.len()
        invariant
            all == items_view(items@),
            texts(out@) == member_texts(all.take(i as int), key@),
    {
        assert(all.take(i + 1).drop_last() =~= all.take(i as int));
        let ghost before = texts(out@);
        if let Some(s) = items[i].text_at(key) {
            out.push(s.to_string());
            assert(texts(out@) =~= before.push(s@));
        }
    }
    assert(all.take(items@.len() as int) =~= all);
    out
}

/// The images of the containers of a workload.
pub open spec fn images_of(workload: JsonView) -> Seq<Seq<char>> {
    match workload.at2("spec"@, "template"@) {
        Some(template) => match template.at2("spec"@, "containers"@) {
            Some(containers) => member_texts(containers.items_or_none(), "image"@),
            None => Seq::empty(),
        },
        None => Seq::empty(),
    }
}

fn images(workload: &Json) -> (r: Vec<String>)
    ensures
        texts(r@) == images_of(workload@),
{
    if let Some(template) = workload.at2("spec", "template") {
        if let Some(containers) = template.at2("spec", "containers") {
            if let Some(list) = containers.as_array() {
                return collect_texts(list, "image");
            }
        }
    }
    let none: Vec<String> = Vec::new();
    assert(texts(none@) =~= Seq::<Seq<char>>::empty());
    none
}

/// What is shown of a deployment or a statefulset.
pub open spec fn workload_summary(workload: JsonView) -> JsonView {
    let ready = match workload.natural_at2("status"@, "readyReplicas"@) {
        Some(n) => n,
        None => 0,
    };
    JsonView::Object(
        no_members()
            .push(("kind"@, JsonView::Text(or_unknown(workload.text_at("kind"@)))))
            .push(("name"@, JsonView::Text(or_unknown(workload.text_at2("metadata"@, "name"@)))))
            .push(("ready"@, JsonView::natural_number(ready)))
            .push(("desired"@, JsonView::opt_natural(workload.natural_at2("spec"@, "replicas"@))))
            .push(("images"@, JsonView::text_array(images_of(workload)))),
    )
}

/// What is shown of a deployment or a statefulset.
pub fn summarize_workload(workload: &Json) -> (r: Json)
    ensures
        r@ == workload_summary(workload@),
{
    let ready: u64 = match workload.natural_at2("status", "readyReplicas") {
        Some(n) => n,
        None => 0,
    };
    Members::new()
        .with("kind", Json::text(known_or(workload.text_at("kind"))))
        .with("name", Json::text(known_or(workload.text_at2("metadata", "name"))))
        .with("ready", Json::natural(ready))
        .with("desired", Json::opt_natural(workload.natural_at2("spec", "replicas")))
        .with("images", Json::text_array(&images(workload)))
        .object()
}

/// What is shown of a list of workloads.
pub open spec fn workload_summaries(list: JsonView) -> JsonView {
    JsonView::Array(list.items_at("items"@).map_values(|it: JsonView| workload_summary(it)))
}

/// What is shown of a list of workloads.
pub fn summarize_workloads(list: &Json) -> (r: Json)
    ensures
        r@ == workload_summaries(list@),
{
    let mut out: Vec<Json> = Vec::new();
    let ghost want = list@.items_at("items"@).map_values(|it: JsonView| workload_summary(it));
    if let Some(items) = list.array_at("items") {
        for i in 0..items.len()
            invariant
                out@.len() == i,
                forall|k: int| 0 <= k < i ==> (#[trigger] out@[k])@ == workload_summary(items@[k]@),
        {
            out.push(summarize_workload(&items[i]));
        }
    }
    assert(items_view(out@) =~= want);
    Json::Array(out)
}

/// The sum of the natural numbers that are the members `key` of the items.
pub open spec fn member_sum(items: Seq<JsonView>, key: Seq<char>) -> nat
    decreases items.len(),
{
    if items.len() == 0 {
        0
    } else {
        member_sum(items.drop_last(), key) + (match items.last().natural_at(key) {
            Some(n) => n as nat,
            None => 0,
        })
    }
}

/// How often the containers of a pod have restarted, in 64 bits.
pub open spec fn restarts_of(pod: JsonView) -> u64 {
    match pod.at2("status"@, "containerStatuses"@) {
        Some(statuses) => (member_sum(statuses.items_or_none(), "restartCount"@)
            % 0x1_0000_0000_0000_0000) as u64,
        None => 0,
    }
}

fn restarts(pod: &Json) -> (r: u64)
    ensures
        r == restarts_of(pod@),
{
    let mut sum: u64 = 0;
    if let Some(statuses) = pod.at2("status", "containerStatuses") {
        if let Some(list) = statuses.as_array() {
            let ghost all = items_view(list@);
            assert(member_sum(all.take(0), "restartCount"@) == 0);
            for i in 0..list.len()
                invariant
                    all == items_view(list@),
                    sum == member_sum(all.take(i as int), "restartCount"@)
                        % 0x1_0000_0000_0000_0000,
            {
                assert(all.take(i + 1).drop_last() =~= all.take(i as int));
                if let Some(n) = list[i].natural_at("restartCount") {
                    sum = sum.wrapping_add(n);
                }
            }
            assert(all.take(list@.len() as int) =~= all);
        }
    }
    sum
}

/// What is shown of a pod.
pub open spec fn pod_summary(pod: JsonView) -> JsonView {
    JsonView::Object(
        no_members()
            .push(("name"@, JsonView::Text(or_unknown(pod.text_at2("metadata"@, "name"@)))))
            .push(("phase"@, JsonView::Text(or_unknown(pod.text_at2("status"@, "phase"@)))))
            .push(("restarts"@, JsonView::natural_number(restarts_of(pod))))
            .push(("node"@, JsonView::opt_text(pod.text_at2("spec"@, "nodeName"@))))
            .push(
                ("created"@, JsonView::opt_text(pod.text_at2("metadata"@, "creationTimestamp"@))),
            ),
    )
}

/// What is shown of a pod.
pub fn summarize_pod(pod: &Json) -> (r: Json)
    ensures
        r@ == pod_summary(pod@),
{
    Members::new()
        .with("name", Json::text(known_or(pod.text_at2("metadata", "name"))))
        .with("phase", Json::text(known_or(pod.text_at2("status", "phase"))))
        .with("restarts", Json::natural(restarts(pod)))
        .with("node", Json::opt_text(pod.text_at2("spec", "nodeName")))
        .with("created", Json::opt_text(pod.text_at2("metadata", "creationTimestamp")))
        .object()
}

/// What is shown of a list of pods.
pub open spec fn pod_summaries(list: JsonView) -> JsonView {
    JsonView::Array(list.items_at("items"@).map_values(|it: JsonView| pod_summary(it)))
}

/// What is shown of a list of pods.
pub fn summarize_pods(list: &Json) -> (r: Json)
    ensures
        r@ == pod_summaries(list@),
{
    let mut out: Vec<Json> = Vec::new();
    let ghost want = list@.items_at("items"@).map_values(|it: JsonView| pod_summary(it));
    if let Some(items) = list.array_at("items") {
        for i in 0..items.len()
            invariant
                out@.len() == i,
                forall|k: int| 0 <= k < i ==> (#[trigger] out@[k])@ == pod_summary(items@[k]@),
        {
            out.push(summarize_pod(&items[i]));
        }
    }
    assert(items_view(out@) =~= want);
    Json::Array(out)
}

// ---------------------------------------------------------------- events

/// When an event happened last: `lastTimestamp`, else `eventTime`, else the
/// time of its creation, else nothing.
pub open spec fn event_time(event: JsonView) -> Seq<char> {
    match event.text_at("lastTimestamp"@) {
        Some(t) => t,
        None => match event.text_at("eventTime"@) {
            Some(t) => t,
            None => match event.text_at2("metadata"@, "creationTimestamp"@) {
                Some(t) => t,
                None => Seq::empty(),
            },
        },
    }
}

/// When an event happened last.
pub fn event_ts(event: &Json) -> (r: String)
    ensures
        r@ == event_time(event@),
{
    if let Some(t) = event.text_at("lastTimestamp") {
        return t.to_string();
    }
    if let Some(t) = event.text_at("eventTime") {
        return t.to_string();
    }
    match event.text_at2("metadata", "creationTimestamp") {
        Some(t) => t.to_string(),
        None => String::new(),
    }
}

/// What is shown of an event.
pub open spec fn event_summary(event: JsonView) -> JsonView {
    let object = or_unknown(event.text_at2("involvedObject"@, "kind"@)) + "/"@ + or_unknown(
        event.text_at2("involvedObject"@, "name"@),
    );
    JsonView::Object(
        no_members()
            .push(("lastTimestamp"@, JsonView::Text(event_time(event))))
            .push(("type"@, JsonView::opt_text(event.text_at("type"@))))
            .push(("reason"@, JsonView::opt_text(event.text_at("reason"@))))
            .push(("object"@, JsonView::Text(object)))
            .push(("count"@, JsonView::opt_natural(event.natural_at("count"@))))
            .push(("message"@, JsonView::opt_text(event.text_at("message"@)))),
    )
}

/// What is shown of an event.
pub fn summarize_event(event: &Json) -> (r: Json)
    ensures
        r@ == event_summary(event@),
{
    let kind = known_or(event.text_at2("involvedObject", "kind"));
    let name = known_or(event.text_at2("involvedObject", "name"));
    Members::new()
        .with("lastTimestamp", Json::Text(event_ts(event)))
        .with("type", Json::opt_text(event.text_at("type")))
        .with("reason", Json::opt_text(event.text_at("reason")))
        .with("object", Json::Text(cat3(kind, "/", name)))
        .with("count", Json::opt_natural(event.natural_at("count")))
        .with("message", Json::opt_text(event.text_at("message")))
        .object()
}

/// The times of a list of events.
pub open spec fn event_times(events: Seq<JsonView>) -> Seq<Seq<char>> {
    events.map_values(|e: JsonView| event_time(e))
}

/// Whether the event `i` is listed before the event `j`: it happened later, or
/// at the same time and comes later in the list.
pub open spec fn is_newer(times: Seq<Seq<char>>, i: int, j: int) -> bool {
    text_before(times[j], times[i]) || (times[i] == times[j] && i > j)
}

/// Whether `order` lists all events, the newest first.
pub open spec fn is_newest_first(times: Seq<Seq<char>>, order: Seq<int>) -> bool {
    &&& order.len() == times.len()
    &&& forall|a: int| 0 <= a < order.len() ==> 0 <= #[trigger] order[a] < times.len()
    &&& forall|a: int, b: int|
        0 <= a < b < order.len() ==> is_newer(times, #[trigger] order[a], #[trigger] order[b])
}

/// The summaries of the first `last` events in the given order.
pub open spec fn summaries_in_order(
    events: Seq<JsonView>,
    order: Seq<int>,
    last: int,
) -> Seq<JsonView> {
    Seq::new(
        if order.len() <= last {
            order.len()
        } else {
            last as nat
        },
        |k: int| event_summary(events[order[k]]),
    )
}

/// The newest-first order of the events.
pub open spec fn newest_order(times: Seq<Seq<char>>) -> Seq<int> {
    choose|order: Seq<int>| #[trigger] is_newest_first(times, order)
}

/// The summaries of the `last` newest events, the newest first.
pub open spec fn recent_summaries(events: Seq<JsonView>, last: int) -> Seq<JsonView> {
    summaries_in_order(events, newest_order(event_times(events)), last)
}

/// The integers of a list of positions.
pub open spec fn positions(list: Seq<usize>) -> Seq<int> {
    list.map_values(|i: usize| i as int)
}

/// In a newest-first order, what is listed after something not newer than the
/// time `t` is not newer than `t` either.
proof fn lemma_tail_not_newer(times: Seq<Seq<char>>, order: Seq<int>, p: int, t: Seq<char>)
    requires
        is_newest_first(times, order),
        0 <= p < order.len(),
        !text_before(t, times[order[p]]),
    ensures
        forall|a: int| p <= a < order.len() ==> !text_before(t, times[#[trigger] order[a]]),
{
    assert forall|a: int| p <= a < order.len() implies !text_before(
        t,
        times[#[trigger] order[a]],
    ) by {
        if a > p && text_before(t, times[order[a]]) {
            assert(is_newer(times, order[p], order[a]));
            if text_before(times[order[a]], times[order[p]]) {
                lemma_before_transitive(t, times[order[a]], times[order[p]]);
            }
        }
    }
}

/// A newest-first order of the first `n` times stays one for the first `n + 1`
/// when `n` is put behind all that is newer and before the rest.
proof fn lemma_insert_newest(times: Seq<Seq<char>>, n: int, order: Seq<int>, p: int)
    requires
        0 <= n < times.len(),
        is_newest_first(times.take(n), order),
        0 <= p <= order.len(),
        forall|a: int| 0 <= a < p ==> text_before(times[n], times[#[trigger] order[a]]),
        p < order.len() ==> !text_before(times[n], times[order[p]]),
    ensures
        is_newest_first(times.take(n + 1), order.insert(p, n)),
{
    let head = times.take(n);
    let more = times.take(n + 1);
    let next = order.insert(p, n);
    if p < order.len() {
        lemma_tail_not_newer(head, order, p, times[n]);
    }
    assert forall|a: int| 0 <= a < next.len() implies 0 <= #[trigger] next[a] < more.len() by {
        if a < p {
            assert(next[a] == order[a]);
        } else if a > p {
            assert(next[a] == order[a - 1]);
        }
    }
    assert forall|a: int, b: int| 0 <= a < b < next.len() implies is_newer(
        more,
        #[trigger] next[a],
        #[trigger] next[b],
    ) by {
        let i = if a < p { a } else { a - 1 };
        let j = if b < p { b } else { b - 1 };
        if a == p {
            assert(next[b] == order[j]);
            assert(0 <= order[j] < head.len());
            assert(!text_before(times[n], times[order[j]]));
            lemma_before_total(times[n], times[order[j]]);
        } else if b == p {
            assert(next[a] == order[i]);
            assert(0 <= order[i] < head.len());
        } else {
            assert(next[a] == order[i]);
            assert(next[b] == order[j]);
            assert(is_newer(head, order[i], order[j]));
        }
    }
}

/// The positions of all times, the latest first and, among equal ones, the
/// later position first.
fn newest_first(times: &Vec<String>) -> (r: Vec<usize>)
    ensures
        is_newest_first(texts(times@), positions(r@)),
{
    let ghost keys = texts(times@);
    let mut order: Vec<usize> = Vec::new();
    assert(keys.take(0).len() == 0);
    for n in 0..times.len()
        invariant
            keys == texts(times@),
            is_newest_first(keys.take(n as int), positions(order@)),
    {
        let ghost head = keys.take(n as int);
        let ghost done = positions(order@);
        assert forall|a: int| 0 <= a < order@.len() implies (#[trigger] order@[a]) < n by {
            assert(done[a] == order@[a]);
        }
        let mut p: usize = 0;
        while p < order.len() && before(times[n].as_str(), times[order[p]].as_str())
            invariant
                keys == texts(times@),
                n < times@.len(),
                p <= order@.len(),
                head == keys.take(n as int),
                done == positions(order@),
                is_newest_first(head, done),
                forall|a: int| 0 <= a < order@.len() ==> (#[trigger] order@[a]) < n,
                forall|a: int|
                    0 <= a < p ==> text_before(keys[n as int], keys[#[trigger] done[a]]),
            decreases order@.len() - p,
        {
            p = p + 1;
        }
        order.insert(p, n);
        proof {
            lemma_insert_newest(keys, n as int, done, p as int);
            assert(positions(order@) =~= done.insert(p as int, n as int));
        }
    }
    assert(keys.take(times@.len() as int) =~= keys);
    order
}

/// The summaries of the `last` newest events, the newest first. Times in
/// RFC 3339 are in the order of their texts.
pub fn recent_events(events: &Vec<Json>, last: usize) -> (r: Vec<Json>)
    ensures
        items_view(r@) == recent_summaries(items_view(events@), last as int),
{
    let ghost all = items_view(events@);
    let mut times: Vec<String> = Vec::new();
    for i in 0..events.len()
        invariant
            times@.len() == i,
            forall|k: int| 0 <= k < i ==> (#[trigger] times@[k])@ == event_time(events@[k]@),
    {
        times.push(event_ts(&events[i]));
    }
    assert(texts(times@) =~= event_times(all));
    let order = newest_first(&times);
    let ghost listed = positions(order@);
    let n = if order.len() <= last {
        order.len()
    } else {
        last
    };
    let mut out: Vec<Json> = Vec::new();
    for k in 0..n
        invariant
            n <= order@.len(),
            order@.len() == events@.len(),
            listed == positions(order@),
            is_newest_first(event_times(all), listed),
            all == items_view(events@),
            out@.len() == k,
            forall|a: int|
                0 <= a < k ==> (#[trigger] out@[a])@ == event_summary(all[listed[a]]),
    {
        assert(listed[k as int] == order@[k as int]);
        out.push(summarize_event(&events[order[k]]));
    }
    proof {
        newest_first_is_unique(event_times(all), listed, newest_order(event_times(all)));
        assert(items_view(out@) =~= summaries_in_order(all, listed, last as int));
    }
    out
}

/// A newest-first order lists every event.
proof fn lemma_lists_all(times: Seq<Seq<char>>, order: Seq<int>)
    requires
        is_newest_first(times, order),
    ensures
        order.no_duplicates(),
        forall|i: int| 0 <= i < times.len() ==> order.contains(i),
{
    assert forall|a: int, b: int| 0 <= a < b < order.len() implies order[a] != order[b] by {
        assert(is_newer(times, order[a], order[b]));
        lemma_before_irreflexive(times[order[a]]);
    }
    order.unique_seq_to_set();
    let n = times.len() as int;
    let all = vstd::set_lib::set_int_range(0, n);
    vstd::set_lib::lemma_int_range(0, n);
    assert(order.to_set().subset_of(all)) by {
        assert forall|i: int| order.to_set().contains(i) implies all.contains(i) by {
            let a = choose|a: int| 0 <= a < order.len() && order[a] == i;
            assert(0 <= order[a] < times.len());
        }
    }
    vstd::set_lib::lemma_subset_equality(order.to_set(), all);
    assert forall|i: int| 0 <= i < times.len() implies order.contains(i) by {
        assert(all.contains(i));
        assert(order.to_set().contains(i));
    }
}

proof fn lemma_newer_asymmetric(times: Seq<Seq<char>>, i: int, j: int)
    requires
        is_newer(times, i, j),
    ensures
        !is_newer(times, j, i),
{
    if text_before(times[j], times[i]) && text_before(times[i], times[j]) {
        lemma_before_transitive(times[j], times[i], times[j]);
    }
    lemma_before_irreflexive(times[j]);
    lemma_before_irreflexive(times[i]);
}

/// There is only one newest-first order of a list of events.
pub proof fn newest_first_is_unique(times: Seq<Seq<char>>, one: Seq<int>, other: Seq<int>)
    requires
        is_newest_first(times, one),
        is_newest_first(times, other),
    ensures
        one == other,
{
    lemma_lists_all(times, one);
    lemma_lists_all(times, other);
    lemma_common_prefix(times, one, other, times.len() as int);
    assert(one =~= other);
}

proof fn lemma_common_prefix(times: Seq<Seq<char>>, one: Seq<int>, other: Seq<int>, k: int)
    requires
        is_newest_first(times, one),
        is_newest_first(times, other),
        one.no_duplicates(),
        other.no_duplicates(),
        forall|i: int| 0 <= i < times.len() ==> one.contains(i),
        forall|i: int| 0 <= i < times.len() ==> other.contains(i),
        0 <= k <= times.len(),
    ensures
        forall|a: int| 0 <= a < k ==> one[a] == other[a],
    decreases k,
{
    if k > 0 {
        lemma_common_prefix(times, one, other, k - 1);
        let x = one[k - 1];
        let y = other[k - 1];
        if x != y {
            assert(one.contains(y));
            assert(other.contains(x));
            let a = choose|a: int| 0 <= a < one.len() && one[a] == y;
            let b = choose|b: int| 0 <= b < other.len() && other[b] == x;
            assert(a > k - 1);
            assert(b > k - 1);
            assert(is_newer(times, one[k - 1], one[a]));
            assert(is_newer(times, other[k - 1], other[b]));
            lemma_newer_asymmetric(times, x, y);
        }
    }
}

/// How many of the first `k` entries of a newest-first order precede an event
/// of the time `t` that comes last in the list.
spec fn count_newer(times: Seq<Seq<char>>, order: Seq<int>, t: Seq<char>, k: int) -> int
    decreases order.len() - k,
{
    if 0 <= k < order.len() && text_before(t, times[order[k]]) {
        count_newer(times, order, t, k + 1)
    } else {
        k
    }
}

proof fn lemma_count_newer(times: Seq<Seq<char>>, order: Seq<int>, t: Seq<char>, k: int)
    requires
        0 <= k <= order.len(),
        forall|a: int| 0 <= a < k ==> text_before(t, times[#[trigger] order[a]]),
    ensures
        ({
            let p = count_newer(times, order, t, k);
            &&& k <= p <= order.len()
            &&& forall|a: int| 0 <= a < p ==> text_before(t, times[#[trigger] order[a]])
            &&& p < order.len() ==> !text_before(t, times[order[p]])
        }),
    decreases order.len() - k,
{
    if k < order.len() && text_before(t, times[order[k]]) {
        lemma_count_newer(times, order, t, k + 1);
    }
}

proof fn lemma_newest_first_exists(times: Seq<Seq<char>>, n: int) -> (order: Seq<int>)
    requires
        0 <= n <= times.len(),
    ensures
        is_newest_first(times.take(n), order),
    decreases n,
{
    if n == 0 {
        Seq::empty()
    } else {
        let done = lemma_newest_first_exists(times, n - 1);
        lemma_count_newer(times, done, times[n - 1], 0);
        let p = count_newer(times, done, times[n - 1], 0);
        lemma_insert_newest(times, n - 1, done, p);
        done.insert(p, n - 1)
    }
}

/// Every list of events has a newest-first order.
pub proof fn newest_first_exists(times: Seq<Seq<char>>)
    ensures
        is_newest_first(times, newest_order(times)),
{
    let order = lemma_newest_first_exists(times, times.len() as int);
    assert(times.take(times.len() as int) =~= times);
    assert(is_newest_first(times, order));
}

// ---------------------------------------------------------------- endpoints

/// What is shown of a backend address.
pub open spec fn address_summary(address: JsonView) -> JsonView {
    JsonView::Object(
        no_members()
            .push(("ip"@, JsonView::opt_text(address.text_at("ip"@))))
            .push(("target"@, JsonView::opt_text(address.text_at2("targetRef"@, "name"@))))
            .push(("node"@, JsonView::opt_text(address.text_at("nodeName"@)))),
    )
}

/// What is shown of the addresses that the subsets hold under `key`.
pub open spec fn address_summaries(subsets: Seq<JsonView>, key: Seq<char>) -> Seq<JsonView>
    decreases subsets.len(),
{
    if subsets.len() == 0 {
        Seq::empty()
    } else {
        address_summaries(subsets.drop_last(), key) + subsets.last().items_at(key).map_values(
            |a: JsonView| address_summary(a),
        )
    }
}

fn collect_addresses(subset: &Json, key: &str, out: &mut Vec<Json>)
    ensures
        items_view(final(out)@) == items_view(old(out)@) + subset@.items_at(key@).map_values(
            |a: JsonView| address_summary(a),
        ),
{
    let ghost before = items_view(out@);
    let ghost more = subset@.items_at(key@).map_values(|a: JsonView| address_summary(a));
    if let Some(list) = subset.array_at(key) {
        assert(items_view(out@) =~= before + more.take(0));
        for i in 0..list.len()
            invariant
                more == items_view(list@).map_values(|a: JsonView| address_summary(a)),
                items_view(out@) == before + more.take(i as int),
        {
            let a = &list[i];
            let shown = Members::new()
                .with("ip", Json::opt_text(a.text_at("ip")))
                .with("target", Json::opt_text(a.text_at2("targetRef", "name")))
                .with("node", Json::opt_text(a.text_at("nodeName")))
                .object();
            let ghost so_far = items_view(out@);
            out.push(shown);
            assert(items_view(out@) =~= so_far.push(shown@));
            assert(more.take(i + 1) =~= more.take(i as int).push(more[i as int]));
            assert(items_view(out@) =~= before + more.take(i + 1));
        }
        assert(more.take(list@.len() as int) =~= more);
    }
    assert(items_view(out@) =~= before + more);
}

/// The ready and the not-ready addresses of the endpoints of a service.
pub fn endpoint_addresses(endpoints: &Json) -> (r: (Json, Json))
    ensures
        r.0@ == JsonView::Array(address_summaries(endpoints@.items_at("subsets"@), "addresses"@)),
        r.1@ == JsonView::Array(
            address_summaries(endpoints@.items_at("subsets"@), "notReadyAddresses"@),
        ),
{
    let mut ready: Vec<Json> = Vec::new();
    let mut not_ready: Vec<Json> = Vec::new();
    let ghost subsets = endpoints@.items_at("subsets"@);
    assert(items_view(ready@) =~= address_summaries(subsets.take(0), "addresses"@));
    assert(items_view(not_ready@) =~= address_summaries(subsets.take(0), "notReadyAddresses"@));
    if let Some(list) = endpoints.array_at("subsets") {
        for i in 0..list.len()
            invariant
                subsets == items_view(list@),
                items_view(ready@) == address_summaries(subsets.take(i as int), "addresses"@),
                items_view(not_ready@) == address_summaries(
                    subsets.take(i as int),
                    "notReadyAddresses"@,
                ),
        {
            assert(subsets.take(i + 1).drop_last() =~= subsets.take(i as int));
            collect_addresses(&list[i], "addresses", &mut ready);
            collect_addresses(&list[i], "notReadyAddresses", &mut not_ready);
        }
    }
    assert(subsets.take(subsets.len() as int) =~= subsets);
    (Json::Array(ready), Json::Array(not_ready))
}

// ---------------------------------------------------------------- large output

/// A tree whose text is too long, cut to a preview with a note. The preview is the
/// longest beginning of the text that takes at most [`MAX_OUTPUT`] bytes.
pub open spec fn cut(text: Seq<char>) -> JsonView {
    JsonView::Object(
        no_members()
            .push(("truncated"@, JsonView::Bool(true)))
            .push(
                (
                    "note"@,
                    JsonView::Text(
                        "output exceeded 32768 bytes; showing a truncated preview"@,
                    ),
                ),
            )
            .push(("preview"@, JsonView::Text(byte_head_of(text, MAX_OUTPUT as nat)))),
    )
}

/// The tree, or a preview where its text is longer than [`MAX_OUTPUT`] bytes.
pub open spec fn capped(tree: JsonView) -> JsonView {
    if byte_len(text_of_json(tree)) > MAX_OUTPUT {
        cut(text_of_json(tree))
    } else {
        tree
    }
}

/// Cuts the text of a tree, given as `text`, to a preview with a note.
pub fn preview(text: &str) -> (r: Json)
    ensures
        r@ == cut(text@),
{
    Members::new()
        .with("truncated", Json::Bool(true))
        .with("note", Json::text("output exceeded 32768 bytes; showing a truncated preview"))
        .with("preview", Json::text(byte_head(text, MAX_OUTPUT)))
        .object()
}

/// The tree, or a preview where its text is longer than [`MAX_OUTPUT`] bytes.
pub fn cap_output(tree: Json) -> (r: Json)
    ensures
        r@ == capped(tree@),
{
    let text = tree.to_text();
    if text.as_str().as_bytes().len() > MAX_OUTPUT {
        preview(text.as_str())
    } else {
        tree
    }
}

// ---------------------------------------------------------------- running kubectl

/// How long a command may take, in seconds.
pub const TIMEOUT_SECONDS: u64 = 15;

/// How a run of `kubectl` ended.
#[derive(Debug)]
pub enum KubectlOutcome {
    /// It was stopped after so many whole seconds.
    TimedOut(u64),
    /// It could not be run, and why.
    Failed(String),
    /// It exited; `stdout` and `stderr` are what it wrote.
    Exited { success: bool, stdout: Vec<u8>, stderr: Vec<u8> },
}

/// What a [`KubectlOutcome`] stands for.
pub enum OutcomeView {
    TimedOut(u64),
    Failed(Seq<char>),
    Exited { success: bool, stdout: Seq<u8>, stderr: Seq<u8> },
}

impl View for KubectlOutcome {
    type V = OutcomeView;

    open spec fn view(&self) -> OutcomeView {
        match self {
            KubectlOutcome::TimedOut(seconds) => OutcomeView::TimedOut(*seconds),
            KubectlOutcome::Failed(e) => OutcomeView::Failed(e@),
            KubectlOutcome::Exited { success, stdout, stderr } => OutcomeView::Exited {
                success: *success,
                stdout: stdout@,
                stderr: stderr@,
            },
        }
    }
}

/// What a command that ran wrote, as text.
#[derive(Debug)]
pub struct RunOutput {
    pub success: bool,
    pub stdout: String,
    pub stderr: String,
}

/// What a [`RunOutput`] stands for.
pub struct RunView {
    pub success: bool,
    pub stdout: Seq<char>,
    pub stderr: Seq<char>,
}

impl View for RunOutput {
    type V = RunView;

    open spec fn view(&self) -> RunView {
        RunView { success: self.success, stdout: self.stdout@, stderr: self.stderr@ }
    }
}

pub open spec fn res_run_view(r: Result<RunOutput, String>) -> Result<RunView, Seq<char>> {
    match r {
        Ok(out) => Ok(out@),
        Err(e) => Err(e@),
    }
}

/// A command line as it is shown in a message.
pub open spec fn command_line(args: Seq<Seq<char>>) -> Seq<char> {
    "kubectl "@ + joined(args, " "@)
}

/// The output of a run of `kubectl` with these arguments, or why there is none.
pub open spec fn run_of(args: Seq<Seq<char>>, outcome: OutcomeView) -> Result<RunView, Seq<char>> {
    match outcome {
        OutcomeView::TimedOut(seconds) => Err(
            "kubectl timed out after "@ + decimal_of(
                if seconds == 0 {
                    1
                } else {
                    seconds as nat
                },
            ) + "s: "@ + command_line(args),
        ),
        OutcomeView::Failed(e) => Err(
            "failed to run kubectl (is it installed and on PATH?): "@ + e,
        ),
        OutcomeView::Exited { success, stdout, stderr } => Ok(
            RunView { success, stdout: lossy_text(stdout), stderr: lossy_text(stderr) },
        ),
    }
}

/// The output of a run of `kubectl` with these arguments, or why there is none.
pub fn run_kubectl(args: &Vec<String>, outcome: KubectlOutcome) -> (r: Result<RunOutput, String>)
    ensures
        res_run_view(r) == run_of(texts(args@), outcome@),
{
    match outcome {
        KubectlOutcome::TimedOut(seconds) => {
            let shown: u64 = if seconds == 0 {
                1
            } else {
                seconds
            };
            let line = cat2("kubectl ", join(args, " ").as_str());
            Err(cat4("kubectl timed out after ", decimal(shown).as_str(), "s: ", line.as_str()))
        },
        KubectlOutcome::Failed(e) => Err(
            cat2("failed to run kubectl (is it installed and on PATH?): ", e.as_str()),
        ),
        KubectlOutcome::Exited { success, stdout, stderr } => Ok(
            RunOutput { success, stdout: lossy(&stdout), stderr: lossy(&stderr) },
        ),
    }
}

/// The tree that a command printed; a non-zero exit is an error that carries
/// what the command wrote to its error output.
pub open spec fn printed_json(args: Seq<Seq<char>>, run: RunView) -> Result<JsonView, Seq<char>> {
    if !run.success {
        Err(command_line(args) + " failed: "@ + trimmed(run.stderr))
    } else {
        match json_of_text(run.stdout) {
            Ok(tree) => Ok(tree),
            Err(e) => Err(command_line(args) + " did not return JSON: "@ + e),
        }
    }
}

/// The tree that a run of `kubectl` with these arguments printed.
pub open spec fn json_of_run(args: Seq<Seq<char>>, outcome: OutcomeView) -> Result<
    JsonView,
    Seq<char>,
> {
    match run_of(args, outcome) {
        Err(e) => Err(e),
        Ok(run) => printed_json(args, run),
    }
}

/// The tree that a run of `kubectl` with these arguments printed.
pub fn run_json(args: &Vec<String>, outcome: KubectlOutcome) -> (r: Result<Json, String>)
    ensures
        res_json_view(r) == json_of_run(texts(args@), outcome@),
{
    match run_kubectl(args, outcome) {
        Err(e) => Err(e),
        Ok(out) => {
            let line = cat2("kubectl ", join(args, " ").as_str());
            if !out.success {
                Err(cat3(line.as_str(), " failed: ", trim(out.stderr.as_str())))
            } else {
                match parse_json(out.stdout.as_str()) {
                    Ok(tree) => Ok(tree),
                    Err(e) => Err(cat3(line.as_str(), " did not return JSON: ", e.as_str())),
                }
            }
        },
    }
}

// ---------------------------------------------------------------- contexts

pub open spec fn opt_texts(list: Option<Vec<String>>) -> Option<Seq<Seq<char>>> {
    match list {
        Some(list) => Some(texts(list@)),
        None => None,
    }
}

/// The contexts that `FIDUCIA_K8S_CONTEXTS` allows, between commas.
pub open spec fn allowed_contexts(env: Map<Seq<char>, Seq<char>>) -> Option<Seq<Seq<char>>> {
    match nonempty_value(env, K8S_CONTEXTS_ENV@) {
        Some(list) => Some(fields_of(list, ',')),
        None => None,
    }
}

/// The contexts that `FIDUCIA_K8S_CONTEXTS` allows, or `None` where it is not set.
pub fn context_allowlist(env: &EnvMap) -> (r: Option<Vec<String>>)
    ensures
        opt_texts(r) == allowed_contexts(env@),
{
    match env_nonempty(env, K8S_CONTEXTS_ENV) {
        Some(list) => Some(fields(list.as_str(), ',')),
        None => None,
    }
}

/// Does the list allow the context? Without a list all are allowed.
pub open spec fn is_allowed(allow: Option<Seq<Seq<char>>>, context: Seq<char>) -> bool {
    match allow {
        Some(list) => list.contains(context),
        None => true,
    }
}

/// The command that lists the contexts.
pub open spec fn list_contexts() -> Seq<Seq<char>> {
    no_words().push("config"@).push("get-contexts"@).push("-o"@).push("name"@)
}

/// The contexts that a run of [`list_contexts`] names, one on each line.
pub open spec fn contexts_of_run(outcome: OutcomeView) -> Result<Seq<Seq<char>>, Seq<char>> {
    match run_of(list_contexts(), outcome) {
        Err(e) => Err(e),
        Ok(run) => if run.success {
            Ok(fields_of(run.stdout, '\n'))
        } else {
            Err("kubectl config get-contexts failed: "@ + trimmed(run.stderr))
        },
    }
}

pub open spec fn res_texts(r: Result<Vec<String>, String>) -> Result<Seq<Seq<char>>, Seq<char>> {
    match r {
        Ok(list) => Ok(texts(list@)),
        Err(e) => Err(e@),
    }
}

fn list_contexts_args() -> (r: Vec<String>)
    ensures
        texts(r@) == list_contexts(),
{
    Words::new().with("config").with("get-contexts").with("-o").with("name").list()
}

/// The contexts that `kubectl` knows, from the run that lists them.
pub fn available_contexts(outcome: KubectlOutcome) -> (r: Result<Vec<String>, String>)
    ensures
        res_texts(r) == contexts_of_run(outcome@),
{
    match run_kubectl(&list_contexts_args(), outcome) {
        Err(e) => Err(e),
        Ok(out) => if out.success {
            Ok(fields(out.stdout.as_str(), '\n'))
        } else {
            Err(cat2("kubectl config get-contexts failed: ", trim(out.stderr.as_str())))
        },
    }
}

/// What an empty or unusable context is answered, before anything is run.
pub open spec fn context_fault(
    allow: Option<Seq<Seq<char>>>,
    context: Seq<char>,
) -> Option<Seq<char>> {
    if trimmed(context).len() == 0 {
        Some("`context` is required"@)
    } else if !is_allowed(allow, trimmed(context)) {
        Some(
            "context "@ + debug_text(trimmed(context)) + " is not permitted by FIDUCIA_K8S_CONTEXTS; "@
                + "allowed: "@ + debug_list(allow.unwrap()),
        )
    } else {
        None
    }
}

/// Is the context one that may be asked for at all? Then the context without the
/// white space around it.
pub fn permitted_context(env: &EnvMap, context: &str) -> (r: Result<String, String>)
    ensures
        res_string_view(r) == match context_fault(allowed_contexts(env@), context@) {
            Some(e) => Err::<Seq<char>, Seq<char>>(e),
            None => Ok(trimmed(context@)),
        },
{
    let context = trim(context);
    if context.is_empty() {
        return Err("`context` is required".to_string());
    }
    if let Some(allow) = context_allowlist(env) {
        if !contains_text(&allow, context) {
            return Err(
                cat5(
                    "context ",
                    quoted(context).as_str(),
                    " is not permitted by FIDUCIA_K8S_CONTEXTS; ",
                    "allowed: ",
                    quoted_list(&allow).as_str(),
                ),
            );
        }
    }
    Ok(context.to_string())
}

/// What a context that `kubectl` does not know is answered.
pub open spec fn unknown_context(context: Seq<char>, known: Seq<Seq<char>>) -> Seq<char> {
    "unknown kubectl context "@ + debug_text(context) + "; known contexts: "@ + debug_list(known)
}

/// Is the context among those that the run of [`list_contexts`] names?
pub open spec fn validated(context: Seq<char>, outcome: OutcomeView) -> Result<(), Seq<char>> {
    match contexts_of_run(outcome) {
        Err(e) => Err(e),
        Ok(known) => if known.contains(context) {
            Ok(())
        } else {
            Err(unknown_context(context, known))
        },
    }
}

/// Is the context among those that the run that lists them names?
pub fn validate_context(context: &str, outcome: KubectlOutcome) -> (r: Result<(), String>)
    ensures
        res_unit_view(r) == validated(context@, outcome@),
{
    match available_contexts(outcome) {
        Err(e) => Err(e),
        Ok(known) => if contains_text(&known, context) {
            Ok(())
        } else {
            Err(
                cat4(
                    "unknown kubectl context ",
                    quoted(context).as_str(),
                    "; known contexts: ",
                    quoted_list(&known).as_str(),
                ),
            )
        },
    }
}

/// The namespace that is meant; an empty one means [`DEFAULT_NAMESPACE`].
pub open spec fn meant_namespace(namespace: Seq<char>) -> Seq<char> {
    if trimmed(namespace).len() == 0 {
        DEFAULT_NAMESPACE@
    } else {
        trimmed(namespace)
    }
}

pub fn namespace_or_default(namespace: &str) -> (r: &str)
    ensures
        r@ == meant_namespace(namespace@),
{
    let ns = trim(namespace);
    if ns.is_empty() {
        DEFAULT_NAMESPACE
    } else {
        ns
    }
}

// ---------------------------------------------------------------- steps

/// What is asked of a context once it is known to be a good one, as given.
#[derive(Debug)]
enum Query {
    Workloads { namespace: String },
    Rollout { kind: String, name: String, namespace: String },
    Events { namespace: String, last: usize },
    Endpoints { namespace: String, service: String },
}

/// What is asked of a context once it is known to be a good one, as given.
pub enum QueryView {
    Workloads { namespace: Seq<char> },
    Rollout { kind: Seq<char>, name: Seq<char>, namespace: Seq<char> },
    Events { namespace: Seq<char>, last: nat },
    Endpoints { namespace: Seq<char>, service: Seq<char> },
}

impl View for Query {
    type V = QueryView;

    closed spec fn view(&self) -> QueryView {
        match self {
            Query::Workloads { namespace } => QueryView::Workloads { namespace: namespace@ },
            Query::Rollout { kind, name, namespace } => QueryView::Rollout {
                kind: kind@,
                name: name@,
                namespace: namespace@,
            },
            Query::Events { namespace, last } => QueryView::Events {
                namespace: namespace@,
                last: *last as nat,
            },
            Query::Endpoints { namespace, service } => QueryView::Endpoints {
                namespace: namespace@,
                service: service@,
            },
        }
    }
}

/// A command to run, and what its outcome is wanted for.
#[derive(Debug)]
enum Command {
    /// List the contexts, to show them.
    ListContexts { allow: Option<Vec<String>> },
    /// List the contexts, to see whether `context` is among them.
    CheckContext { context: String, query: Query },
    ListWorkloads { context: String, namespace: String },
    ListPods { context: String, namespace: String, workloads: Json },
    Rollout { context: String, namespace: String, kind: String, name: String },
    ListEvents { context: String, namespace: String, last: usize },
    ListEndpoints { context: String, namespace: String, service: String },
}

/// A command to run, and what its outcome is wanted for.
pub enum RunStateView {
    ListContexts { allow: Option<Seq<Seq<char>>> },
    CheckContext { context: Seq<char>, query: QueryView },
    ListWorkloads { context: Seq<char>, namespace: Seq<char> },
    ListPods { context: Seq<char>, namespace: Seq<char>, workloads: JsonView },
    Rollout { context: Seq<char>, namespace: Seq<char>, kind: Seq<char>, name: Seq<char> },
    ListEvents { context: Seq<char>, namespace: Seq<char>, last: nat },
    ListEndpoints { context: Seq<char>, namespace: Seq<char>, service: Seq<char> },
}

impl View for Command {
    type V = RunStateView;

    closed spec fn view(&self) -> RunStateView {
        match self {
            Command::ListContexts { allow } => RunStateView::ListContexts {
                allow: opt_texts(*allow),
            },
            Command::CheckContext { context, query } => RunStateView::CheckContext {
                context: context@,
                query: query@,
            },
            Command::ListWorkloads { context, namespace } => RunStateView::ListWorkloads {
                context: context@,
                namespace: namespace@,
            },
            Command::ListPods { context, namespace, workloads } => RunStateView::ListPods {
                context: context@,
                namespace: namespace@,
                workloads: workloads@,
            },
            Command::Rollout { context, namespace, kind, name } => RunStateView::Rollout {
                context: context@,
                namespace: namespace@,
                kind: kind@,
                name: name@,
            },
            Command::ListEvents { context, namespace, last } => RunStateView::ListEvents {
                context: context@,
                namespace: namespace@,
                last: *last as nat,
            },
            Command::ListEndpoints { context, namespace, service } => RunStateView::ListEndpoints {
                context: context@,
                namespace: namespace@,
                service: service@,
            },
        }
    }
}

/// A command to run. It goes back with its outcome, and cannot be made up in
/// between.
#[derive(Debug)]
pub struct K8sRun {
    command: Command,
}

impl View for K8sRun {
    type V = RunStateView;

    closed spec fn view(&self) -> RunStateView {
        self.command@
    }
}

/// What to do next: run a command and come back with its outcome, or nothing,
/// for the answer is there.
#[derive(Debug)]
pub enum K8sStep {
    Run(K8sRun),
    Done(Result<Json, String>),
}

/// What a [`K8sStep`] stands for.
pub enum StepView {
    Run(RunStateView),
    Done(Result<JsonView, Seq<char>>),
}

impl View for K8sStep {
    type V = StepView;

    open spec fn view(&self) -> StepView {
        match self {
            K8sStep::Run(run) => StepView::Run(run@),
            K8sStep::Done(r) => StepView::Done(res_json_view(*r)),
        }
    }
}

fn next(command: Command) -> (r: K8sStep)
    ensures
        r@ == StepView::Run(command@),
{
    K8sStep::Run(K8sRun { command })
}

/// The arguments that name a context and a namespace.
pub open spec fn scope(context: Seq<char>, namespace: Seq<char>) -> Seq<Seq<char>> {
    no_words().push("--context"@).push(context).push("-n"@).push(namespace)
}

fn scoped(context: &str, namespace: &str) -> (r: Words)
    ensures
        r@ == scope(context@, namespace@),
{
    Words::new().with("--context").with(context).with("-n").with(namespace)
}

/// The arguments of the command that a run stands for.
pub open spec fn arguments(run: RunStateView) -> Seq<Seq<char>> {
    match run {
        RunStateView::ListContexts { .. } => list_contexts(),
        RunStateView::CheckContext { .. } => list_contexts(),
        RunStateView::ListWorkloads { context, namespace } => scope(context, namespace).push(
            "get"@,
        ).push("deployments,statefulsets"@).push("-o"@).push("json"@),
        RunStateView::ListPods { context, namespace, .. } => scope(context, namespace).push(
            "get"@,
        ).push("pods"@).push("-o"@).push("json"@),
        RunStateView::Rollout { context, namespace, kind, name } => scope(context, namespace).push(
            "rollout"@,
        ).push("status"@).push(kind + "/"@ + name).push("--watch=false"@),
        RunStateView::ListEvents { context, namespace, .. } => scope(context, namespace).push(
            "get"@,
        ).push("events"@).push("-o"@).push("json"@),
        RunStateView::ListEndpoints { context, namespace, service } => scope(
            context,
            namespace,
        ).push("get"@).push("endpoints"@).push(service).push("-o"@).push("json"@),
    }
}

impl K8sRun {
    /// The arguments of `kubectl`.
    pub fn args(&self) -> (r: Vec<String>)
        ensures
            texts(r@) == arguments(self@),
    {
        match &self.command {
            Command::ListContexts { .. } => list_contexts_args(),
            Command::CheckContext { .. } => list_contexts_args(),
            Command::ListWorkloads { context, namespace } => scoped(
                context.as_str(),
                namespace.as_str(),
            ).with("get").with("deployments,statefulsets").with("-o").with("json").list(),
            Command::ListPods { context, namespace, .. } => scoped(
                context.as_str(),
                namespace.as_str(),
            ).with("get").with("pods").with("-o").with("json").list(),
            Command::Rollout { context, namespace, kind, name } => scoped(
                context.as_str(),
                namespace.as_str(),
            ).with("rollout").with("status").with(
                cat3(kind.as_str(), "/", name.as_str()).as_str(),
            ).with("--watch=false").list(),
            Command::ListEvents { context, namespace, .. } => scoped(
                context.as_str(),
                namespace.as_str(),
            ).with("get").with("events").with("-o").with("json").list(),
            Command::ListEndpoints { context, namespace, service } => scoped(
                context.as_str(),
                namespace.as_str(),
            ).with("get").with("endpoints").with(service.as_str()).with("-o").with("json").list(),
        }
    }
}

// ---------------------------------------------------------------- answers

/// A context, and whether it may be asked for.
pub open spec fn context_entry(allow: Option<Seq<Seq<char>>>, context: Seq<char>) -> JsonView {
    JsonView::Object(
        no_members()
            .push(("name"@, JsonView::Text(context)))
            .push(("allowed"@, JsonView::Bool(is_allowed(allow, context)))),
    )
}

/// The known contexts, each with whether it may be asked for.
pub open spec fn contexts_reply(allow: Option<Seq<Seq<char>>>, known: Seq<Seq<char>>) -> JsonView {
    JsonView::Object(
        no_members()
            .push(
                (
                    "contexts"@,
                    JsonView::Array(known.map_values(|c: Seq<char>| context_entry(allow, c))),
                ),
            )
            .push(
                (
                    "restricted_to"@,
                    match allow {
                        Some(list) => JsonView::text_array(list),
                        None => JsonView::Null,
                    },
                ),
            ),
    )
}

/// The known contexts, each with whether it may be asked for.
pub fn show_contexts(allow: &Option<Vec<String>>, known: &Vec<String>) -> (r: Json)
    ensures
        r@ == contexts_reply(opt_texts(*allow), texts(known@)),
{
    let ghost allowed = opt_texts(*allow);
    let ghost want = texts(known@).map_values(|c: Seq<char>| context_entry(allowed, c));
    let mut list: Vec<Json> = Vec::new();
    for i in 0..known.len()
        invariant
            allowed == opt_texts(*allow),
            list@.len() == i,
            forall|k: int|
                0 <= k < i ==> (#[trigger] list@[k])@ == context_entry(allowed, known@[k]@),
    {
        let context = known[i].as_str();
        let may = match allow {
            Some(allow) => contains_text(allow, context),
            None => true,
        };
        list.push(
            Members::new().with("name", Json::text(context)).with("allowed", Json::Bool(may)).object(),
        );
    }
    assert(items_view(list@) =~= want);
    let restricted = match allow {
        Some(allow) => Json::text_array(allow),
        None => Json::Null,
    };
    Members::new().with("contexts", Json::Array(list)).with("restricted_to", restricted).object()
}

/// The workloads and the pods of a namespace, summarised.
pub open spec fn workloads_reply(
    context: Seq<char>,
    namespace: Seq<char>,
    workloads: JsonView,
    pods: JsonView,
) -> JsonView {
    capped(
        JsonView::Object(
            no_members()
                .push(("context"@, JsonView::Text(context)))
                .push(("namespace"@, JsonView::Text(namespace)))
                .push(("workloads"@, workload_summaries(workloads)))
                .push(("pods"@, pod_summaries(pods))),
        ),
    )
}

/// How far a rollout is. The message is what the command printed, or else what
/// it wrote to its error output.
pub open spec fn rollout_reply(
    context: Seq<char>,
    namespace: Seq<char>,
    kind: Seq<char>,
    name: Seq<char>,
    run: RunView,
) -> JsonView {
    JsonView::Object(
        no_members()
            .push(("context"@, JsonView::Text(context)))
            .push(("namespace"@, JsonView::Text(namespace)))
            .push(("kind"@, JsonView::Text(kind)))
            .push(("name"@, JsonView::Text(name)))
            .push(("complete"@, JsonView::Bool(run.success)))
            .push(
                (
                    "message"@,
                    JsonView::Text(
                        if trimmed(run.stdout).len() == 0 {
                            trimmed(run.stderr)
                        } else {
                            trimmed(run.stdout)
                        },
                    ),
                ),
            ),
    )
}

/// The most recent events, newest first.
pub open spec fn events_reply(
    context: Seq<char>,
    namespace: Seq<char>,
    last: nat,
    events: JsonView,
) -> JsonView {
    let recent = recent_summaries(events.items_at("items"@), last as int);
    capped(
        JsonView::Object(
            no_members()
                .push(("context"@, JsonView::Text(context)))
                .push(("namespace"@, JsonView::Text(namespace)))
                .push(("count"@, JsonView::natural_number(recent.len() as u64)))
                .push(("events"@, JsonView::Array(recent))),
        ),
    )
}

/// The backend addresses of a service.
pub open spec fn endpoints_reply(
    context: Seq<char>,
    namespace: Seq<char>,
    service: Seq<char>,
    endpoints: JsonView,
) -> JsonView {
    let subsets = endpoints.items_at("subsets"@);
    JsonView::Object(
        no_members()
            .push(("context"@, JsonView::Text(context)))
            .push(("namespace"@, JsonView::Text(namespace)))
            .push(("service"@, JsonView::Text(service)))
            .push(("ready"@, JsonView::Array(address_summaries(subsets, "addresses"@))))
            .push(("notReady"@, JsonView::Array(address_summaries(subsets, "notReadyAddresses"@)))),
    )
}

/// How many events are shown where none are asked for.
pub const DEFAULT_EVENTS: usize = 30;

/// What is run for a query once its context is known to be a good one, or what
/// is wrong with the query.
pub open spec fn queried(context: Seq<char>, query: QueryView) -> StepView {
    match query {
        QueryView::Workloads { namespace } => StepView::Run(
            RunStateView::ListWorkloads { context, namespace: meant_namespace(namespace) },
        ),
        QueryView::Rollout { kind, name, namespace } => {
            let kind = lowered(trimmed(kind));
            if kind != "deployment"@ && kind != "statefulset"@ {
                StepView::Done(
                    Err(
                        "`kind` must be \"deployment\" or \"statefulset\", got "@ + debug_text(kind),
                    ),
                )
            } else if trimmed(name).len() == 0 {
                StepView::Done(Err("`name` is required"@))
            } else {
                StepView::Run(
                    RunStateView::Rollout {
                        context,
                        namespace: meant_namespace(namespace),
                        kind,
                        name: trimmed(name),
                    },
                )
            }
        },
        QueryView::Events { namespace, last } => StepView::Run(
            RunStateView::ListEvents {
                context,
                namespace: meant_namespace(namespace),
                last: if last == 0 {
                    DEFAULT_EVENTS as nat
                } else {
                    last
                },
            },
        ),
        QueryView::Endpoints { namespace, service } => if trimmed(service).len() == 0 {
            StepView::Done(Err("`service` is required"@))
        } else {
            StepView::Run(
                RunStateView::ListEndpoints {
                    context,
                    namespace: meant_namespace(namespace),
                    service: trimmed(service),
                },
            )
        },
    }
}

fn ask(context: String, query: Query) -> (r: K8sStep)
    ensures
        r@ == queried(context@, query@),
{
    match query {
        Query::Workloads { namespace } => next(Command::ListWorkloads {
            context,
            namespace: namespace_or_default(namespace.as_str()).to_string(),
        }),
        Query::Rollout { kind, name, namespace } => {
            let kind = ascii_lower(trim(kind.as_str()));
            if !same_text(kind.as_str(), "deployment") && !same_text(kind.as_str(), "statefulset") {
                return K8sStep::Done(
                    Err(
                        cat2(
                            "`kind` must be \"deployment\" or \"statefulset\", got ",
                            quoted(kind.as_str()).as_str(),
                        ),
                    ),
                );
            }
            let name = trim(name.as_str());
            if name.is_empty() {
                return K8sStep::Done(Err("`name` is required".to_string()));
            }
            next(Command::Rollout {
                context,
                namespace: namespace_or_default(namespace.as_str()).to_string(),
                kind,
                name: name.to_string(),
            })
        },
        Query::Events { namespace, last } => {
            let last: usize = if last == 0 {
                DEFAULT_EVENTS
            } else {
                last
            };
            next(Command::ListEvents {
                context,
                namespace: namespace_or_default(namespace.as_str()).to_string(),
                last,
            })
        },
        Query::Endpoints { namespace, service } => {
            let service = trim(service.as_str());
            if service.is_empty() {
                return K8sStep::Done(Err("`service` is required".to_string()));
            }
            next(Command::ListEndpoints {
                context,
                namespace: namespace_or_default(namespace.as_str()).to_string(),
                service: service.to_string(),
            })
        },
    }
}

/// What comes after a run that ended so.
pub open spec fn resumed(run: RunStateView, outcome: OutcomeView) -> StepView {
    match run {
        RunStateView::ListContexts { allow } => StepView::Done(
            match contexts_of_run(outcome) {
                Err(e) => Err(e),
                Ok(known) => Ok(contexts_reply(allow, known)),
            },
        ),
        RunStateView::CheckContext { context, query } => match validated(context, outcome) {
            Err(e) => StepView::Done(Err(e)),
            Ok(_) => queried(context, query),
        },
        RunStateView::ListWorkloads { context, namespace } => match json_of_run(
            arguments(run),
            outcome,
        ) {
            Err(e) => StepView::Done(Err(e)),
            Ok(workloads) => StepView::Run(
                RunStateView::ListPods { context, namespace, workloads },
            ),
        },
        RunStateView::ListPods { context, namespace, workloads } => StepView::Done(
            match json_of_run(arguments(run), outcome) {
                Err(e) => Err(e),
                Ok(pods) => Ok(workloads_reply(context, namespace, workloads, pods)),
            },
        ),
        RunStateView::Rollout { context, namespace, kind, name } => StepView::Done(
            match run_of(arguments(run), outcome) {
                Err(e) => Err(e),
                Ok(out) => Ok(rollout_reply(context, namespace, kind, name, out)),
            },
        ),
        RunStateView::ListEvents { context, namespace, last } => StepView::Done(
            match json_of_run(arguments(run), outcome) {
                Err(e) => Err(e),
                Ok(events) => Ok(events_reply(context, namespace, last, events)),
            },
        ),
        RunStateView::ListEndpoints { context, namespace, service } => StepView::Done(
            match json_of_run(arguments(run), outcome) {
                Err(e) => Err(e),
                Ok(endpoints) => Ok(endpoints_reply(context, namespace, service, endpoints)),
            },
        ),
    }
}

/// The workloads and the pods of a namespace, summarised.
pub fn show_workloads(context: &str, namespace: &str, workloads: &Json, pods: &Json) -> (r: Json)
    ensures
        r@ == workloads_reply(context@, namespace@, workloads@, pods@),
{
    cap_output(
        Members::new()
            .with("context", Json::text(context))
            .with("namespace", Json::text(namespace))
            .with("workloads", summarize_workloads(workloads))
            .with("pods", summarize_pods(pods))
            .object(),
    )
}

/// How far a rollout is.
pub fn show_rollout(context: &str, namespace: &str, kind: &str, name: &str, run: &RunOutput) -> (r: Json)
    ensures
        r@ == rollout_reply(context@, namespace@, kind@, name@, run@),
{
    let printed = trim(run.stdout.as_str());
    let message = if printed.is_empty() {
        trim(run.stderr.as_str())
    } else {
        printed
    };
    Members::new()
        .with("context", Json::text(context))
        .with("namespace", Json::text(namespace))
        .with("kind", Json::text(kind))
        .with("name", Json::text(name))
        .with("complete", Json::Bool(run.success))
        .with("message", Json::text(message))
        .object()
}

/// The most recent `last` events, newest first.
pub fn show_events(context: &str, namespace: &str, last: usize, events: &Json) -> (r: Json)
    ensures
        r@ == events_reply(context@, namespace@, last as nat, events@),
{
    let recent = match events.array_at("items") {
        Some(list) => recent_events(list, last),
        None => {
            let none: Vec<Json> = Vec::new();
            assert(items_view(none@) =~= events@.items_at("items"@));
            recent_events(&none, last)
        },
    };
    cap_output(
        Members::new()
            .with("context", Json::text(context))
            .with("namespace", Json::text(namespace))
            .with("count", Json::natural(recent.len() as u64))
            .with("events", Json::Array(recent))
            .object(),
    )
}

/// The backend addresses of a service.
pub fn show_endpoints(context: &str, namespace: &str, service: &str, endpoints: &Json) -> (r: Json)
    ensures
        r@ == endpoints_reply(context@, namespace@, service@, endpoints@),
{
    let (ready, not_ready) = endpoint_addresses(endpoints);
    Members::new()
        .with("context", Json::text(context))
        .with("namespace", Json::text(namespace))
        .with("service", Json::text(service))
        .with("ready", ready)
        .with("notReady", not_ready)
        .object()
}

impl K8sRun {
    /// What comes after this run, which ended so.
    pub fn resume(self, outcome: KubectlOutcome) -> (r: K8sStep)
        ensures
            r@ == resumed(self@, outcome@),
    {
        let args = self.args();
        match self.command {
            Command::ListContexts { allow } => K8sStep::Done(
                match available_contexts(outcome) {
                    Err(e) => Err(e),
                    Ok(known) => Ok(show_contexts(&allow, &known)),
                },
            ),
            Command::CheckContext { context, query } => match validate_context(
                context.as_str(),
                outcome,
            ) {
                Err(e) => K8sStep::Done(Err(e)),
                Ok(_) => ask(context, query),
            },
            Command::ListWorkloads { context, namespace } => match run_json(&args, outcome) {
                Err(e) => K8sStep::Done(Err(e)),
                Ok(workloads) => next(Command::ListPods { context, namespace, workloads }),
            },
            Command::ListPods { context, namespace, workloads } => K8sStep::Done(
                match run_json(&args, outcome) {
                    Err(e) => Err(e),
                    Ok(pods) => Ok(
                        show_workloads(context.as_str(), namespace.as_str(), &workloads, &pods),
                    ),
                },
            ),
            Command::Rollout { context, namespace, kind, name } => K8sStep::Done(
                match run_kubectl(&args, outcome) {
                    Err(e) => Err(e),
                    Ok(out) => Ok(
                        show_rollout(
                            context.as_str(),
                            namespace.as_str(),
                            kind.as_str(),
                            name.as_str(),
                            &out,
                        ),
                    ),
                },
            ),
            Command::ListEvents { context, namespace, last } => K8sStep::Done(
                match run_json(&args, outcome) {
                    Err(e) => Err(e),
                    Ok(events) => Ok(
                        show_events(context.as_str(), namespace.as_str(), last, &events),
                    ),
                },
            ),
            Command::ListEndpoints { context, namespace, service } => K8sStep::Done(
                match run_json(&args, outcome) {
                    Err(e) => Err(e),
                    Ok(endpoints) => Ok(
                        show_endpoints(
                            context.as_str(),
                            namespace.as_str(),
                            service.as_str(),
                            &endpoints,
                        ),
                    ),
                },
            ),
        }
    }
}

// ---------------------------------------------------------------- questions

/// The first step of a query: the context is refused, or the contexts are listed
/// to see whether it is among them.
pub open spec fn asked(
    env: Map<Seq<char>, Seq<char>>,
    context: Seq<char>,
    query: QueryView,
) -> StepView {
    match context_fault(allowed_contexts(env), context) {
        Some(e) => StepView::Done(Err(e)),
        None => StepView::Run(RunStateView::CheckContext { context: trimmed(context), query }),
    }
}

fn check_first(env: &EnvMap, context: &str, query: Query) -> (r: K8sStep)
    ensures
        r@ == asked(env@, context@, query@),
{
    match permitted_context(env, context) {
        Err(e) => K8sStep::Done(Err(e)),
        Ok(context) => next(Command::CheckContext { context, query }),
    }
}

/// Which contexts are there, and which may be asked for?
pub fn contexts(env: &EnvMap) -> (r: K8sStep)
    ensures
        r@ == StepView::Run(RunStateView::ListContexts { allow: allowed_contexts(env@) }),
{
    next(Command::ListContexts { allow: context_allowlist(env) })
}

/// The deployments and stateful sets of a namespace, with their pods.
pub fn workloads(env: &EnvMap, context: &str, namespace: &str) -> (r: K8sStep)
    ensures
        r@ == asked(env@, context@, QueryView::Workloads { namespace: namespace@ }),
{
    check_first(env, context, Query::Workloads { namespace: namespace.to_string() })
}

/// How far the rollout of a deployment or a stateful set is; not waited for.
pub fn rollout_status(env: &EnvMap, context: &str, kind: &str, name: &str, namespace: &str) -> (r:
    K8sStep)
    ensures
        r@ == asked(
            env@,
            context@,
            QueryView::Rollout { kind: kind@, name: name@, namespace: namespace@ },
        ),
{
    check_first(
        env,
        context,
        Query::Rollout {
            kind: kind.to_string(),
            name: name.to_string(),
            namespace: namespace.to_string(),
        },
    )
}

/// The most recent `last` events of a namespace, newest first.
pub fn events(env: &EnvMap, context: &str, namespace: &str, last: usize) -> (r: K8sStep)
    ensures
        r@ == asked(
            env@,
            context@,
            QueryView::Events { namespace: namespace@, last: last as nat },
        ),
{
    check_first(env, context, Query::Events { namespace: namespace.to_string(), last })
}

/// The backend addresses of a service.
pub fn service_endpoints(env: &EnvMap, context: &str, namespace: &str, service: &str) -> (r:
    K8sStep)
    ensures
        r@ == asked(
            env@,
            context@,
            QueryView::Endpoints { namespace: namespace@, service: service@ },
        ),
{
    check_first(
        env,
        context,
        Query::Endpoints { namespace: namespace.to_string(), service: service.to_string() },
    )
}

// ---------------------------------------------------------------- laws

/// Where a question stands after these outcomes.
pub open spec fn after(first: StepView, outcomes: Seq<OutcomeView>) -> StepView
    decreases outcomes.len(),
{
    if outcomes.len() == 0 {
        first
    } else {
        match after(first, outcomes.drop_last()) {
            StepView::Run(run) => resumed(run, outcomes.last()),
            StepView::Done(r) => StepView::Done(r),
        }
    }
}

/// The context that the command of a run names.
pub open spec fn named_context(run: RunStateView) -> Option<Seq<char>> {
    match run {
        RunStateView::ListContexts { .. } => None,
        RunStateView::CheckContext { .. } => None,
        RunStateView::ListWorkloads { context, .. } => Some(context),
        RunStateView::ListPods { context, .. } => Some(context),
        RunStateView::Rollout { context, .. } => Some(context),
        RunStateView::ListEvents { context, .. } => Some(context),
        RunStateView::ListEndpoints { context, .. } => Some(context),
    }
}

/// Is a command one that only reads: listing the contexts, or under a context
/// and a namespace either `get .. -o json` or `rollout status .. --watch=false`?
pub open spec fn only_reads(args: Seq<Seq<char>>) -> bool {
    ||| args == list_contexts()
    ||| {
        &&& args.len() >= 8
        &&& args[0] == "--context"@
        &&& args[2] == "-n"@
        &&& args[4] == "get"@
        &&& args[args.len() - 2] == "-o"@
        &&& args.last() == "json"@
    }
    ||| {
        &&& args.len() == 8
        &&& args[0] == "--context"@
        &&& args[2] == "-n"@
        &&& args[4] == "rollout"@
        &&& args[5] == "status"@
        &&& args.last() == "--watch=false"@
    }
}

/// Every command that is ever asked for only reads, and names its context in the
/// place of the value of `--context`.
pub proof fn every_command_only_reads(run: RunStateView)
    ensures
        only_reads(arguments(run)),
        match named_context(run) {
            Some(context) => arguments(run)[0] == "--context"@ && arguments(run)[1] == context,
            None => arguments(run) == list_contexts(),
        },
{
}

/// Has the run that lists the contexts named this one?
pub open spec fn lists(outcome: OutcomeView, context: Seq<char>) -> bool {
    contexts_of_run(outcome) matches Ok(known) && known.contains(context)
}

/// The steps of a query on a context, whatever the outcomes are: a command that
/// names a context names the trimmed one of the query, and is asked for only
/// after the contexts were listed with this one among them, and only where
/// `FIDUCIA_K8S_CONTEXTS` allows it.
pub proof fn a_context_is_checked_before_it_is_used(
    env: Map<Seq<char>, Seq<char>>,
    context: Seq<char>,
    query: QueryView,
    outcomes: Seq<OutcomeView>,
)
    ensures
        after(asked(env, context, query), outcomes) matches StepView::Run(run) ==> {
            &&& is_allowed(allowed_contexts(env), trimmed(context))
            &&& named_context(run) matches Some(named) ==> {
                &&& named == trimmed(context)
                &&& outcomes.len() >= 1
                &&& lists(outcomes[0], named)
            }
            &&& named_context(run) is None ==> {
                &&& outcomes.len() == 0
                &&& run == RunStateView::CheckContext { context: trimmed(context), query }
            }
        },
    decreases outcomes.len(),
{
    if outcomes.len() > 0 {
        a_context_is_checked_before_it_is_used(env, context, query, outcomes.drop_last());
        if outcomes.len() > 1 {
            assert(outcomes.drop_last()[0] == outcomes[0]);
        }
    }
}

/// A context that `FIDUCIA_K8S_CONTEXTS` does not list is refused before any
/// command is run, by a message that names the variable.
pub proof fn a_context_not_listed_is_refused(
    env: Map<Seq<char>, Seq<char>>,
    context: Seq<char>,
    query: QueryView,
)
    requires
        !is_allowed(allowed_contexts(env), trimmed(context)),
    ensures
        asked(env, context, query) matches StepView::Done(Err(e)) && (trimmed(context).len() > 0
            ==> mentions(e, K8S_CONTEXTS_ENV@)),
{
    if trimmed(context).len() > 0 {
        reveal_strlit("FIDUCIA_K8S_CONTEXTS");
        reveal_strlit(" is not permitted by FIDUCIA_K8S_CONTEXTS; ");
        let name = K8S_CONTEXTS_ENV@;
        let said = " is not permitted by FIDUCIA_K8S_CONTEXTS; "@;
        assert(said =~= said.take(21) + name + said.skip(41));
        let start = "context "@ + debug_text(trimmed(context));
        let list = debug_list(allowed_contexts(env).unwrap());
        let i = start.len() as int + 21;
        let e = start + said + "allowed: "@ + list;
        assert(e.subrange(i, i + name.len()) =~= name);
    }
}

/// How many commands a run can still lead to, itself among them.
pub open spec fn runs_left(step: StepView) -> nat {
    match step {
        StepView::Done(_) => 0,
        StepView::Run(RunStateView::CheckContext { .. }) => 3,
        StepView::Run(RunStateView::ListWorkloads { .. }) => 2,
        StepView::Run(_) => 1,
    }
}

/// Every question is answered after at most three commands.
pub proof fn a_question_is_answered(first: StepView, outcomes: Seq<OutcomeView>)
    requires
        outcomes.len() >= 3,
    ensures
        after(first, outcomes) is Done,
{
    lemma_runs_left(first, outcomes);
}

proof fn lemma_runs_left(first: StepView, outcomes: Seq<OutcomeView>)
    ensures
        runs_left(after(first, outcomes)) <= if outcomes.len() >= runs_left(first) {
            0
        } else {
            runs_left(first) - outcomes.len()
        },
    decreases outcomes.len(),
{
    if outcomes.len() > 0 {
        lemma_runs_left(first, outcomes.drop_last());
    }
}

/// A command whose tree is wanted and that exits with an error is answered with
/// an error that shows the command and what it wrote to its error output.
pub proof fn a_failed_command_is_reported(args: Seq<Seq<char>>, stdout: Seq<u8>, stderr: Seq<u8>)
    ensures
        json_of_run(args, OutcomeView::Exited { success: false, stdout, stderr }) matches Err(e)
            && mentions(e, trimmed(lossy_text(stderr))) && begins_with(e, command_line(args)),
{
    let shown = command_line(args) + " failed: "@;
    let e = shown + trimmed(lossy_text(stderr));
    lemma_mentions(shown, trimmed(lossy_text(stderr)), Seq::empty());
    assert(e + Seq::<char>::empty() =~= e);
    assert(e.take(command_line(args).len() as int) =~= command_line(args));
}

/// What is shown of an answer that takes more than [`MAX_OUTPUT`] bytes is a
/// preview: a beginning of its text that takes at most so many bytes, and to which
/// no character can be added. Every other answer is shown as it is.
pub proof fn a_long_answer_is_cut(tree: JsonView)
    ensures
        MAX_OUTPUT == 32768,
        byte_len(text_of_json(tree)) <= MAX_OUTPUT ==> capped(tree) == tree,
        byte_len(text_of_json(tree)) > MAX_OUTPUT ==> {
            let text = text_of_json(tree);
            &&& capped(tree) == cut(text)
            &&& cut(text).get("truncated"@) == Some(JsonView::Bool(true))
            &&& cut(text).text_at("note"@) == Some(
                "output exceeded 32768 bytes; showing a truncated preview"@,
            )
            &&& cut(text).text_at("preview"@) matches Some(preview) && {
                &&& begins_with(text, preview)
                &&& byte_len(preview) <= MAX_OUTPUT
                &&& preview.len() < text.len()
                &&& byte_len(text.take(preview.len() as int + 1)) > MAX_OUTPUT
            }
        },
{
    let text = text_of_json(tree);
    lemma_byte_head_is_longest(text, MAX_OUTPUT as nat);
    assert(text.take(text.len() as int) =~= text);
    reveal_strlit("truncated");
    reveal_strlit("note");
    reveal_strlit("preview");
    assert("truncated"@.len() == 9 && "note"@.len() == 4 && "preview"@.len() == 7);
    reveal_with_fuel(member, 4);
}

/// Whether a command succeeded and printed this tree.
pub open spec fn prints(outcome: OutcomeView, tree: JsonView) -> bool {
    &&& outcome matches OutcomeView::Exited { success, stdout, .. }
    &&& success
    &&& json_of_text(lossy_text(stdout)) == Ok::<JsonView, Seq<char>>(tree)
}

/// How many addresses the first `n` subsets hold under `key`.
pub open spec fn addresses_before(subsets: Seq<JsonView>, key: Seq<char>, n: int) -> nat
    decreases n,
{
    if n <= 0 {
        0
    } else {
        addresses_before(subsets, key, n - 1) + subsets[n - 1].items_at(key).len()
    }
}

/// Whether a backend address is shown so: with its address, the name of its target
/// and the name of its node, each null where it has none, and nothing else.
pub open spec fn shows_address(shown: JsonView, address: JsonView) -> bool {
    &&& shown.text_at("ip"@) == address.text_at("ip"@)
    &&& shown.text_at("node"@) == address.text_at("nodeName"@)
    &&& shown.text_at("target"@) == match address.get("targetRef"@) {
        Some(target) => target.text_at("name"@),
        None => None,
    }
    &&& forall|k: Seq<char>|
        (#[trigger] shown.get(k)) is Some <==> k == "ip"@ || k == "node"@ || k == "target"@
}

proof fn lemma_shows_address(address: JsonView)
    ensures
        shows_address(address_summary(address), address),
{
    broadcast use lemma_member_push;

    reveal_strlit("ip");
    reveal_strlit("node");
    reveal_strlit("target");
    assert("ip"@.len() == 2 && "node"@.len() == 4 && "target"@.len() == 6);
}

proof fn lemma_addresses_before(subsets: Seq<JsonView>, key: Seq<char>, n: int)
    requires
        n < subsets.len(),
    ensures
        addresses_before(subsets.drop_last(), key, n) == addresses_before(subsets, key, n),
    decreases n,
{
    if n > 0 {
        lemma_addresses_before(subsets, key, n - 1);
    }
}

proof fn lemma_address_count(subsets: Seq<JsonView>, key: Seq<char>)
    ensures
        address_summaries(subsets, key).len() == addresses_before(
            subsets,
            key,
            subsets.len() as int,
        ),
    decreases subsets.len(),
{
    if subsets.len() > 0 {
        lemma_address_count(subsets.drop_last(), key);
        lemma_addresses_before(subsets, key, subsets.len() - 1);
    }
}

proof fn lemma_address_place(subsets: Seq<JsonView>, key: Seq<char>, s: int, i: int)
    requires
        0 <= s < subsets.len(),
        0 <= i < subsets[s].items_at(key).len(),
    ensures
        addresses_before(subsets, key, s) + i < address_summaries(subsets, key).len(),
        address_summaries(subsets, key)[addresses_before(subsets, key, s) + i] == address_summary(
            subsets[s].items_at(key)[i],
        ),
    decreases subsets.len(),
{
    lemma_address_count(subsets.drop_last(), key);
    if s < subsets.len() - 1 {
        lemma_address_place(subsets.drop_last(), key, s, i);
    }
    lemma_addresses_before(subsets, key, s);
}

/// Every backend of a service is shown under its readiness, one after the other:
/// what the subsets hold under `addresses` stands in `ready`, and what they hold
/// under `notReadyAddresses` in `notReady`. Nothing else stands there.
pub proof fn every_backend_is_shown_by_its_readiness(
    context: Seq<char>,
    namespace: Seq<char>,
    service: Seq<char>,
    outcome: OutcomeView,
    endpoints: JsonView,
)
    requires
        prints(outcome, endpoints),
    ensures
        resumed(
            RunStateView::ListEndpoints { context, namespace, service },
            outcome,
        ) matches StepView::Done(Ok(reply)) && {
            let subsets = endpoints.items_at("subsets"@);
            &&& reply.text_at("context"@) == Some(context)
            &&& reply.text_at("namespace"@) == Some(namespace)
            &&& reply.text_at("service"@) == Some(service)
            &&& reply.items_at("ready"@).len() == addresses_before(
                subsets,
                "addresses"@,
                subsets.len() as int,
            )
            &&& reply.items_at("notReady"@).len() == addresses_before(
                subsets,
                "notReadyAddresses"@,
                subsets.len() as int,
            )
            &&& forall|s: int, i: int|
                0 <= s < subsets.len() && 0 <= i < subsets[s].items_at("addresses"@).len()
                    ==> reply.items_at("ready"@)[addresses_before(subsets, "addresses"@, s)
                    + i].text_at("ip"@) == (#[trigger] subsets[s].items_at(
                    "addresses"@,
                )[i]).text_at("ip"@)
            &&& forall|s: int, i: int|
                0 <= s < subsets.len() && 0 <= i < subsets[s].items_at("notReadyAddresses"@).len()
                    ==> reply.items_at("notReady"@)[addresses_before(
                    subsets,
                    "notReadyAddresses"@,
                    s,
                ) + i].text_at("ip"@) == (#[trigger] subsets[s].items_at(
                    "notReadyAddresses"@,
                )[i]).text_at("ip"@)
            &&& forall|s: int, i: int|
                0 <= s < subsets.len() && 0 <= i < subsets[s].items_at("addresses"@).len()
                    ==> shows_address(
                    reply.items_at("ready"@)[addresses_before(subsets, "addresses"@, s) + i],
                    #[trigger] subsets[s].items_at("addresses"@)[i],
                )
            &&& forall|s: int, i: int|
                0 <= s < subsets.len() && 0 <= i < subsets[s].items_at("notReadyAddresses"@).len()
                    ==> shows_address(
                    reply.items_at("notReady"@)[addresses_before(subsets, "notReadyAddresses"@, s)
                        + i],
                    #[trigger] subsets[s].items_at("notReadyAddresses"@)[i],
                )
        },
{
    broadcast use lemma_member_push;

    reveal_strlit("context");
    reveal_strlit("namespace");
    reveal_strlit("service");
    reveal_strlit("ready");
    reveal_strlit("notReady");
    assert("context"@.len() == 7 && "namespace"@.len() == 9 && "service"@.len() == 7 &&
        "ready"@.len() == 5 && "notReady"@.len() == 8 && "context"@[0] == 'c' &&
        "service"@[0] == 's');
    let subsets = endpoints.items_at("subsets"@);
    lemma_address_count(subsets, "addresses"@);
    lemma_address_count(subsets, "notReadyAddresses"@);
    assert forall|s: int, i: int|
        0 <= s < subsets.len() && 0 <= i < subsets[s].items_at("addresses"@).len() implies shows_address(
        address_summaries(subsets, "addresses"@)[addresses_before(subsets, "addresses"@, s) + i],
        #[trigger] subsets[s].items_at("addresses"@)[i],
    ) by {
        lemma_address_place(subsets, "addresses"@, s, i);
        lemma_shows_address(subsets[s].items_at("addresses"@)[i]);
    }
    assert forall|s: int, i: int|
        0 <= s < subsets.len() && 0 <= i < subsets[s].items_at("notReadyAddresses"@).len() implies shows_address(
        address_summaries(subsets, "notReadyAddresses"@)[addresses_before(
            subsets,
            "notReadyAddresses"@,
            s,
        ) + i],
        #[trigger] subsets[s].items_at("notReadyAddresses"@)[i],
    ) by {
        lemma_address_place(subsets, "notReadyAddresses"@, s, i);
        lemma_shows_address(subsets[s].items_at("notReadyAddresses"@)[i]);
    }
}

/// Whether this is the time of an event: its `lastTimestamp`; where it has none, its
/// `eventTime`; where it has neither, the time of its creation; else nothing.
pub open spec fn is_time_of(event: JsonView, time: Seq<char>) -> bool {
    let created = match event.get("metadata"@) {
        Some(metadata) => metadata.text_at("creationTimestamp"@),
        None => None,
    };
    &&& event.text_at("lastTimestamp"@) matches Some(t) ==> time == t
    &&& event.text_at("lastTimestamp"@) is None ==> {
        &&& event.text_at("eventTime"@) matches Some(t) ==> time == t
        &&& event.text_at("eventTime"@) is None ==> {
            &&& created matches Some(t) ==> time == t
            &&& created is None ==> time.len() == 0
        }
    }
}

/// The text of a member of the object that an event is about, or a question mark.
pub open spec fn object_part(event: JsonView, key: Seq<char>) -> Seq<char> {
    match event.get("involvedObject"@) {
        Some(object) => match object.text_at(key) {
            Some(s) => s,
            None => "?"@,
        },
        None => "?"@,
    }
}

/// Whether an event is shown so: its type, its reason and its message are those of
/// the event, null where it has none; so is its count; the object is its kind, a
/// slash and its name; and the time is that of the event.
pub open spec fn shows_event(shown: JsonView, event: JsonView) -> bool {
    &&& forall|k: Seq<char>|
        k == "type"@ || k == "reason"@ || k == "message"@ ==> #[trigger] shown.text_at(k)
            == event.text_at(k) && (shown.get(k) == Some(JsonView::Null) || shown.text_at(k) is Some)
    &&& shown.natural_at("count"@) == event.natural_at("count"@)
    &&& shown.text_at("object"@) == Some(
        object_part(event, "kind"@) + "/"@ + object_part(event, "name"@),
    )
    &&& shown.text_at("lastTimestamp"@) matches Some(time) && is_time_of(event, time)
}

/// Every event is shown as it is.
pub proof fn an_event_is_shown_as_it_is(event: JsonView)
    ensures
        shows_event(event_summary(event), event),
        forall|k: Seq<char>|
            k == "type"@ || k == "reason"@ || k == "message"@ ==> #[trigger] event_summary(
                event,
            ).text_at(k) == event.text_at(k) && (event.text_at(k) is None ==> event_summary(
                event,
            ).get(k) == Some(JsonView::Null)),
        event_summary(event).text_at("object"@) == Some(
            object_part(event, "kind"@) + "/"@ + object_part(event, "name"@),
        ),
{
    broadcast use lemma_member_push;

    reveal_strlit("lastTimestamp");
    reveal_strlit("type");
    reveal_strlit("reason");
    reveal_strlit("object");
    reveal_strlit("count");
    reveal_strlit("message");
    assert("lastTimestamp"@.len() == 13 && "type"@.len() == 4 && "reason"@.len() == 6 &&
        "object"@.len() == 6 && "count"@.len() == 5 && "message"@.len() == 7 &&
        "object"@[0] == 'o' && "reason"@[0] == 'r');
}

/// Whether these are the events shown, in this order: each is shown as it is, a
/// later one before an earlier one, of two at the same time the one further down the
/// list first, and none that is left out is later than one that is shown.
pub open spec fn are_newest(all: Seq<JsonView>, shown: Seq<JsonView>, order: Seq<int>) -> bool {
    &&& order.len() == shown.len()
    &&& order.no_duplicates()
    &&& forall|a: int| 0 <= a < order.len() ==> 0 <= #[trigger] order[a] < all.len()
    &&& forall|a: int| 0 <= a < shown.len() ==> shows_event(#[trigger] shown[a], all[order[a]])
    &&& forall|a: int, b: int, s: Seq<char>, t: Seq<char>|
        0 <= a < b < order.len() && is_time_of(all[#[trigger] order[a]], s) && is_time_of(
            all[#[trigger] order[b]],
            t,
        ) && #[trigger] are_compared(s, t) ==> text_before(t, s) || (s == t && order[a] > order[b])
    &&& forall|a: int, i: int, s: Seq<char>, t: Seq<char>|
        0 <= a < order.len() && 0 <= i < all.len() && !order.contains(i) && is_time_of(
            all[#[trigger] order[a]],
            s,
        ) && is_time_of(#[trigger] all[i], t) && #[trigger] are_compared(s, t) ==> !text_before(s, t)
}

/// Two times that are compared with each other, which any two can be.
pub open spec fn are_compared(s: Seq<char>, t: Seq<char>) -> bool {
    true
}

proof fn lemma_time_is(event: JsonView, time: Seq<char>)
    requires
        is_time_of(event, time),
    ensures
        time == event_time(event),
{
    assert(time.len() == 0 ==> time =~= Seq::empty());
}

proof fn lemma_are_newest(all: Seq<JsonView>, last: int) -> (order: Seq<int>)
    requires
        0 <= last,
    ensures
        are_newest(all, recent_summaries(all, last), order),
{
    let times = event_times(all);
    newest_first_exists(times);
    let full = newest_order(times);
    lemma_lists_all(times, full);
    let shown = recent_summaries(all, last);
    let n = shown.len() as int;
    let order = full.take(n);
    assert forall|a: int| 0 <= a < order.len() implies 0 <= #[trigger] order[a] < all.len() by {
        assert(order[a] == full[a]);
    }
    assert forall|a: int| 0 <= a < shown.len() implies shows_event(#[trigger] shown[a], all[order[a]]) by {
        an_event_is_shown_as_it_is(all[order[a]]);
    }
    assert forall|a: int, b: int, s: Seq<char>, t: Seq<char>|
        0 <= a < b < order.len() && is_time_of(all[#[trigger] order[a]], s) && is_time_of(
            all[#[trigger] order[b]],
            t,
        ) && #[trigger] are_compared(s, t) implies text_before(t, s) || (s == t && order[a] > order[b]) by {
        lemma_time_is(all[order[a]], s);
        lemma_time_is(all[order[b]], t);
        assert(is_newer(times, full[a], full[b]));
    }
    assert forall|a: int, i: int, s: Seq<char>, t: Seq<char>|
        0 <= a < order.len() && 0 <= i < all.len() && !order.contains(i) && is_time_of(
            all[#[trigger] order[a]],
            s,
        ) && is_time_of(#[trigger] all[i], t) && #[trigger] are_compared(s, t) implies !text_before(s, t) by {
        lemma_time_is(all[order[a]], s);
        lemma_time_is(all[i], t);
        assert(full.contains(i));
        let b = choose|b: int| 0 <= b < full.len() && full[b] == i;
        if b < n {
            assert(order[b] == i);
        }
        assert(is_newer(times, full[a], full[b]));
        lemma_newer_asymmetric(times, full[a], full[b]);
    }
    order
}

/// The events of a namespace are shown newest first, as many as are asked for or as
/// there are, each as it is; an answer that is too long is cut instead.
pub proof fn the_newest_events_are_shown(
    context: Seq<char>,
    namespace: Seq<char>,
    last: nat,
    outcome: OutcomeView,
    events: JsonView,
)
    requires
        prints(outcome, events),
    ensures
        resumed(
            RunStateView::ListEvents { context, namespace, last },
            outcome,
        ) matches StepView::Done(Ok(reply)) && (reply.get("truncated"@) is None ==> {
            let all = events.items_at("items"@);
            let shown = reply.items_at("events"@);
            &&& reply.text_at("context"@) == Some(context)
            &&& reply.text_at("namespace"@) == Some(namespace)
            &&& reply.natural_at("count"@) == Some(shown.len() as u64)
            &&& shown.len() == if all.len() <= last {
                all.len()
            } else {
                last
            }
            &&& exists|order: Seq<int>| #[trigger] are_newest(all, shown, order)
        }),
{
    broadcast use lemma_member_push;

    reveal_strlit("context");
    reveal_strlit("namespace");
    reveal_strlit("count");
    reveal_strlit("events");
    reveal_strlit("truncated");
    assert("context"@.len() == 7 && "namespace"@.len() == 9 && "count"@.len() == 5 &&
        "events"@.len() == 6 && "truncated"@.len() == 9 && "namespace"@[0] == 'n' &&
        "truncated"@[0] == 't');
    let all = events.items_at("items"@);
    newest_first_exists(event_times(all));
    let order = lemma_are_newest(all, last as int);
}

/// The containers of a workload.
pub open spec fn containers_of(workload: JsonView) -> Seq<JsonView> {
    match workload.get("spec"@) {
        Some(spec) => match spec.get("template"@) {
            Some(template) => match template.get("spec"@) {
                Some(pod) => pod.items_at("containers"@),
                None => Seq::empty(),
            },
            None => Seq::empty(),
        },
        None => Seq::empty(),
    }
}

/// The text of a member of the member `a`.
pub open spec fn text_in(tree: JsonView, a: Seq<char>, b: Seq<char>) -> Option<Seq<char>> {
    match tree.get(a) {
        Some(inner) => inner.text_at(b),
        None => None,
    }
}

/// The natural number that is a member of the member `a`.
pub open spec fn natural_in(tree: JsonView, a: Seq<char>, b: Seq<char>) -> Option<u64> {
    match tree.get(a) {
        Some(inner) => inner.natural_at(b),
        None => None,
    }
}

/// Whether a text is shown so: as it is, or by a question mark where there is none.
pub open spec fn is_shown_text(shown: Option<Seq<char>>, s: Option<Seq<char>>) -> bool {
    match s {
        Some(t) => shown == Some(t),
        None => shown == Some("?"@),
    }
}

/// Whether a deployment or a statefulset is shown so: its kind, its name, how many
/// replicas are ready (none where nothing is said) and how many are wanted (null
/// where nothing is said), and the images of its containers.
pub open spec fn shows_workload(shown: JsonView, workload: JsonView) -> bool {
    let containers = containers_of(workload);
    let images = shown.items_at("images"@);
    &&& is_shown_text(shown.text_at("kind"@), workload.text_at("kind"@))
    &&& is_shown_text(shown.text_at("name"@), text_in(workload, "metadata"@, "name"@))
    &&& shown.natural_at("ready"@) == match natural_in(workload, "status"@, "readyReplicas"@) {
        Some(n) => Some(n),
        None => Some(0),
    }
    &&& shown.natural_at("desired"@) == natural_in(workload, "spec"@, "replicas"@)
    &&& shown.get("images"@) is Some
    &&& exists|at: Seq<int>| #[trigger]
        picks(at, containers.len() as int, with_text(containers, "image"@)) && images.len()
            == at.len() && forall|a: int|
            0 <= a < at.len() ==> (#[trigger] images[a]).text() == containers[at[a]].text_at(
                "image"@,
            )
}

proof fn lemma_member_texts(items: Seq<JsonView>, key: Seq<char>, n: int)
    requires
        0 <= n <= items.len(),
    ensures
        member_texts(items.take(n), key).len() == picked(n, with_text(items, key)).len(),
        forall|a: int|
            0 <= a < picked(n, with_text(items, key)).len() ==> Some(
                #[trigger] member_texts(items.take(n), key)[a],
            ) == items[picked(n, with_text(items, key))[a]].text_at(key),
    decreases n,
{
    if n > 0 {
        lemma_member_texts(items, key, n - 1);
        assert(items.take(n).drop_last() =~= items.take(n - 1));
        assert(items.take(n).last() == items[n - 1]);
    }
}

/// Every workload is shown as it is.
pub proof fn a_workload_is_shown_as_it_is(workload: JsonView)
    ensures
        shows_workload(workload_summary(workload), workload),
{
    broadcast use lemma_member_push;

    reveal_strlit("kind");
    reveal_strlit("name");
    reveal_strlit("ready");
    reveal_strlit("desired");
    reveal_strlit("images");
    assert("kind"@.len() == 4 && "name"@.len() == 4 && "ready"@.len() == 5 &&
        "desired"@.len() == 7 && "images"@.len() == 6 && "kind"@[0] == 'k' && "name"@[0] == 'n');
    let containers = containers_of(workload);
    let n = containers.len() as int;
    lemma_member_texts(containers, "image"@, n);
    lemma_picked(n, with_text(containers, "image"@));
    assert(containers.take(n) =~= containers);
    let names = images_of(workload);
    assert(names =~= member_texts(containers, "image"@));
    let at = picked(n, with_text(containers, "image"@));
    let images = workload_summary(workload).items_at("images"@);
    assert(images =~= names.map_values(|s: Seq<char>| JsonView::Text(s)));
    assert forall|a: int| 0 <= a < at.len() implies (#[trigger] images[a]).text()
        == containers[at[a]].text_at("image"@) by {
        assert(Some(names[a]) == containers[at[a]].text_at("image"@));
    }
    assert(picks(at, n, with_text(containers, "image"@)));
}

/// How often the first `n` of these containers have restarted.
pub open spec fn restarts_before(statuses: Seq<JsonView>, n: int) -> nat
    decreases n,
{
    if n <= 0 {
        0
    } else {
        restarts_before(statuses, n - 1) + (match statuses[n - 1].natural_at("restartCount"@) {
            Some(count) => count as nat,
            None => 0,
        })
    }
}

/// The states of the containers of a pod.
pub open spec fn statuses_of(pod: JsonView) -> Seq<JsonView> {
    match pod.get("status"@) {
        Some(status) => status.items_at("containerStatuses"@),
        None => Seq::empty(),
    }
}

/// Whether a pod is shown so: its name, its phase, its node, when it was created,
/// and how often all of its containers together have restarted, in 64 bits.
pub open spec fn shows_pod(shown: JsonView, pod: JsonView) -> bool {
    let statuses = statuses_of(pod);
    &&& is_shown_text(shown.text_at("name"@), text_in(pod, "metadata"@, "name"@))
    &&& is_shown_text(shown.text_at("phase"@), text_in(pod, "status"@, "phase"@))
    &&& shown.text_at("node"@) == text_in(pod, "spec"@, "nodeName"@)
    &&& shown.text_at("created"@) == text_in(pod, "metadata"@, "creationTimestamp"@)
    &&& shown.natural_at("restarts"@) == Some(
        (restarts_before(statuses, statuses.len() as int) % 0x1_0000_0000_0000_0000) as u64,
    )
}

proof fn lemma_restarts(statuses: Seq<JsonView>, n: int)
    requires
        0 <= n <= statuses.len(),
    ensures
        member_sum(statuses.take(n), "restartCount"@) == restarts_before(statuses, n),
    decreases n,
{
    if n > 0 {
        lemma_restarts(statuses, n - 1);
        assert(statuses.take(n).drop_last() =~= statuses.take(n - 1));
    }
}

/// Every pod is shown as it is.
pub proof fn a_pod_is_shown_as_it_is(pod: JsonView)
    ensures
        shows_pod(pod_summary(pod), pod),
{
    broadcast use lemma_member_push;

    reveal_strlit("name");
    reveal_strlit("phase");
    reveal_strlit("restarts");
    reveal_strlit("node");
    reveal_strlit("created");
    assert("name"@.len() == 4 && "phase"@.len() == 5 && "restarts"@.len() == 8 &&
        "node"@.len() == 4 && "created"@.len() == 7 && "name"@[1] == 'a' && "node"@[1] == 'o');
    let statuses = statuses_of(pod);
    lemma_restarts(statuses, statuses.len() as int);
    assert(statuses.take(statuses.len() as int) =~= statuses);
}

/// The workloads of a namespace are asked for first and then its pods, and all of
/// both are shown, in their order and each as it is; an answer that is too long is
/// cut instead.
pub proof fn every_workload_and_pod_is_shown(
    context: Seq<char>,
    namespace: Seq<char>,
    first: OutcomeView,
    workloads: JsonView,
    second: OutcomeView,
    pods: JsonView,
)
    requires
        prints(first, workloads),
        prints(second, pods),
    ensures
        after(
            StepView::Run(RunStateView::ListWorkloads { context, namespace }),
            seq![first, second],
        ) matches StepView::Done(Ok(reply)) && (reply.get("truncated"@) is None ==> {
            let kinds = workloads.items_at("items"@);
            let all = pods.items_at("items"@);
            &&& reply.text_at("context"@) == Some(context)
            &&& reply.text_at("namespace"@) == Some(namespace)
            &&& reply.items_at("workloads"@).len() == kinds.len()
            &&& forall|i: int|
                0 <= i < kinds.len() ==> shows_workload(
                    #[trigger] reply.items_at("workloads"@)[i],
                    kinds[i],
                )
            &&& reply.items_at("pods"@).len() == all.len()
            &&& forall|i: int|
                0 <= i < all.len() ==> shows_pod(#[trigger] reply.items_at("pods"@)[i], all[i])
        }),
{
    broadcast use lemma_member_push;

    reveal_strlit("context");
    reveal_strlit("namespace");
    reveal_strlit("workloads");
    reveal_strlit("pods");
    reveal_strlit("truncated");
    assert("context"@.len() == 7 && "namespace"@.len() == 9 && "workloads"@.len() == 9 &&
        "pods"@.len() == 4 && "truncated"@.len() == 9 && "namespace"@[0] == 'n' &&
        "truncated"@[0] == 't' && "workloads"@[0] == 'w');
    let start = StepView::Run(RunStateView::ListWorkloads { context, namespace });
    let both = seq![first, second];
    assert(both.drop_last() =~= seq![first]);
    assert(seq![first].drop_last() =~= Seq::empty());
    reveal_with_fuel(after, 3);
    let kinds = workloads.items_at("items"@);
    let all = pods.items_at("items"@);
    assert forall|i: int| 0 <= i < kinds.len() implies shows_workload(
        #[trigger] workload_summaries(workloads).items_or_none()[i],
        kinds[i],
    ) by {
        a_workload_is_shown_as_it_is(kinds[i]);
    }
    assert forall|i: int| 0 <= i < all.len() implies shows_pod(
        #[trigger] pod_summaries(pods).items_or_none()[i],
        all[i],
    ) by {
        a_pod_is_shown_as_it_is(all[i]);
    }
}

/// How far a rollout is: it is complete exactly where the command succeeded, and the
/// message is what the command printed, or what it wrote to its error output where
/// it printed nothing.
pub proof fn a_rollout_is_shown_as_it_is(
    context: Seq<char>,
    namespace: Seq<char>,
    kind: Seq<char>,
    name: Seq<char>,
    success: bool,
    stdout: Seq<u8>,
    stderr: Seq<u8>,
)
    ensures
        resumed(
            RunStateView::Rollout { context, namespace, kind, name },
            OutcomeView::Exited { success, stdout, stderr },
        ) matches StepView::Done(Ok(reply)) && {
            &&& reply.text_at("context"@) == Some(context)
            &&& reply.text_at("namespace"@) == Some(namespace)
            &&& reply.text_at("kind"@) == Some(kind)
            &&& reply.text_at("name"@) == Some(name)
            &&& reply.get("complete"@) == Some(JsonView::Bool(success))
            &&& trimmed(lossy_text(stdout)).len() > 0 ==> reply.text_at("message"@) == Some(
                trimmed(lossy_text(stdout)),
            )
            &&& trimmed(lossy_text(stdout)).len() == 0 ==> reply.text_at("message"@) == Some(
                trimmed(lossy_text(stderr)),
            )
        },
{
    broadcast use lemma_member_push;

    reveal_strlit("context");
    reveal_strlit("namespace");
    reveal_strlit("kind");
    reveal_strlit("name");
    reveal_strlit("complete");
    reveal_strlit("message");
    assert("context"@.len() == 7 && "namespace"@.len() == 9 && "kind"@.len() == 4 &&
        "name"@.len() == 4 && "complete"@.len() == 8 && "message"@.len() == 7 &&
        "context"@[0] == 'c' && "kind"@[0] == 'k' && "message"@[0] == 'm' && "name"@[0] == 'n');
}

/// Every context that `kubectl` lists is shown with whether it may be asked for:
/// where there is a list of allowed ones, whether it is on it, and otherwise always.
pub proof fn every_context_is_shown(
    allow: Option<Seq<Seq<char>>>,
    stdout: Seq<u8>,
    stderr: Seq<u8>,
)
    ensures
        resumed(
            RunStateView::ListContexts { allow },
            OutcomeView::Exited { success: true, stdout, stderr },
        ) matches StepView::Done(Ok(reply)) && {
            let known = fields_of(lossy_text(stdout), '\n');
            let shown = reply.items_at("contexts"@);
            &&& shown.len() == known.len()
            &&& forall|i: int|
                0 <= i < known.len() ==> {
                    &&& (#[trigger] shown[i]).text_at("name"@) == Some(known[i])
                    &&& shown[i].get("allowed"@) == Some(
                        JsonView::Bool(allow is None || allow->0.contains(known[i])),
                    )
                }
            &&& match allow {
                None => reply.get("restricted_to"@) == Some(JsonView::Null),
                Some(list) => {
                    &&& reply.items_at("restricted_to"@).len() == list.len()
                    &&& forall|i: int|
                        0 <= i < list.len() ==> (#[trigger] reply.items_at("restricted_to"@)[i]).text()
                            == Some(list[i])
                },
            }
        },
{
    broadcast use lemma_member_push;

    reveal_strlit("contexts");
    reveal_strlit("restricted_to");
    reveal_strlit("name");
    reveal_strlit("allowed");
    assert("contexts"@.len() == 8 && "restricted_to"@.len() == 13 && "name"@.len() == 4 &&
        "allowed"@.len() == 7);
}

/// The contexts that may be asked for stand between commas in
/// `FIDUCIA_K8S_CONTEXTS`; where that is not set or only white space, all may be.
pub proof fn the_variable_lists_the_contexts(env: Map<Seq<char>, Seq<char>>)
    ensures
        env.contains_key("FIDUCIA_K8S_CONTEXTS"@) && trimmed(env["FIDUCIA_K8S_CONTEXTS"@]).len() > 0
            ==> allowed_contexts(env) == Some(fields_of(env["FIDUCIA_K8S_CONTEXTS"@], ',')),
        !env.contains_key("FIDUCIA_K8S_CONTEXTS"@) || trimmed(env["FIDUCIA_K8S_CONTEXTS"@]).len()
            == 0 ==> allowed_contexts(env) is None,
{
}

/// A query on a context lists the contexts first, unless the context is empty or not
/// allowed, which is answered at once. Where the context is among those listed the
/// query is made, and otherwise the answer names the context.
pub proof fn a_query_goes_to_a_listed_context(
    env: Map<Seq<char>, Seq<char>>,
    context: Seq<char>,
    query: QueryView,
    stdout: Seq<u8>,
    stderr: Seq<u8>,
)
    ensures
        ({
            let meant = trimmed(context);
            let allow = allowed_contexts(env);
            let good = meant.len() > 0 && (allow is None || allow->0.contains(meant));
            let listed = seq![OutcomeView::Exited { success: true, stdout, stderr }];
            let known = fields_of(lossy_text(stdout), '\n');
            &&& good ==> (asked(env, context, query) matches StepView::Run(run) && arguments(run)
                == seq!["config"@, "get-contexts"@, "-o"@, "name"@])
            &&& !good ==> (asked(env, context, query) matches StepView::Done(Err(_)))
            &&& good && known.contains(meant) ==> after(asked(env, context, query), listed)
                == queried(meant, query)
            &&& good && !known.contains(meant) ==> (after(
                asked(env, context, query),
                listed,
            ) matches StepView::Done(Err(e)) && mentions(e, debug_text(meant)))
        }),
{
    let meant = trimmed(context);
    let known = fields_of(lossy_text(stdout), '\n');
    let listed = seq![OutcomeView::Exited { success: true, stdout, stderr }];
    assert(listed.drop_last() =~= Seq::empty());
    reveal_with_fuel(after, 2);
    assert(list_contexts() =~= seq!["config"@, "get-contexts"@, "-o"@, "name"@]);
    lemma_mentions(
        "unknown kubectl context "@,
        debug_text(meant),
        "; known contexts: "@ + debug_list(known),
    );
    assert("unknown kubectl context "@ + debug_text(meant) + ("; known contexts: "@ + debug_list(known))
        =~= unknown_context(meant, known));
}

/// A query that lacks something runs nothing on the cluster. What it lacks is named,
/// the first thing first: a context, and one that is allowed; the kind of a rollout,
/// then its name; and the service whose endpoints are asked for.
pub proof fn a_query_that_lacks_something_is_refused(
    env: Map<Seq<char>, Seq<char>>,
    context: Seq<char>,
    namespace: Seq<char>,
    kind: Seq<char>,
    name: Seq<char>,
    query: QueryView,
)
    ensures
        ({
            let meant = lowered(trimmed(kind));
            let rollout = queried(context, QueryView::Rollout { kind, name, namespace });
            let endpoints = queried(context, QueryView::Endpoints { namespace, service: name });
            let allow = allowed_contexts(env);
            &&& trimmed(context).len() == 0 ==> asked(env, context, query) == StepView::Done(
                Err("`context` is required"@),
            )
            &&& trimmed(context).len() > 0 && allow is Some && !allow->0.contains(trimmed(context))
                ==> asked(env, context, query) == StepView::Done(
                Err(
                    "context "@ + debug_text(trimmed(context))
                        + " is not permitted by FIDUCIA_K8S_CONTEXTS; allowed: "@ + debug_list(
                        allow->0,
                    ),
                ),
            )
            &&& meant != "deployment"@ && meant != "statefulset"@ ==> rollout == StepView::Done(
                Err("`kind` must be \"deployment\" or \"statefulset\", got "@ + debug_text(meant)),
            )
            &&& (meant == "deployment"@ || meant == "statefulset"@) && trimmed(name).len() == 0
                ==> rollout == StepView::Done(Err("`name` is required"@))
            &&& trimmed(name).len() == 0 ==> endpoints == StepView::Done(
                Err("`service` is required"@),
            )
        }),
{
    let shown = "context "@ + debug_text(trimmed(context));
    let rule = " is not permitted by FIDUCIA_K8S_CONTEXTS; "@;
    reveal_strlit(" is not permitted by FIDUCIA_K8S_CONTEXTS; ");
    reveal_strlit("allowed: ");
    reveal_strlit(" is not permitted by FIDUCIA_K8S_CONTEXTS; allowed: ");
    assert(rule + "allowed: "@ =~= " is not permitted by FIDUCIA_K8S_CONTEXTS; allowed: "@);
    assert(shown + rule + "allowed: "@ =~= shown + (rule + "allowed: "@));
}

/// Each query runs its own command, under the context and under the namespace that
/// is meant: the given one without the white space around it, or `fiducia` where
/// nothing is left of that.
pub proof fn each_query_runs_its_command(
    context: Seq<char>,
    namespace: Seq<char>,
    kind: Seq<char>,
    name: Seq<char>,
    service: Seq<char>,
    last: nat,
    workloads: JsonView,
)
    ensures
        ({
            let ns = if trimmed(namespace).len() == 0 {
                "fiducia"@
            } else {
                trimmed(namespace)
            };
            let meant = lowered(trimmed(kind));
            &&& queried(context, QueryView::Workloads { namespace }) == StepView::Run(
                RunStateView::ListWorkloads { context, namespace: ns },
            )
            &&& arguments(RunStateView::ListWorkloads { context, namespace: ns }) == seq![
                "--context"@,
                context,
                "-n"@,
                ns,
                "get"@,
                "deployments,statefulsets"@,
                "-o"@,
                "json"@,
            ]
            &&& arguments(RunStateView::ListPods { context, namespace: ns, workloads }) == seq![
                "--context"@,
                context,
                "-n"@,
                ns,
                "get"@,
                "pods"@,
                "-o"@,
                "json"@,
            ]
            &&& (meant == "deployment"@ || meant == "statefulset"@) && trimmed(name).len() > 0 ==> (
            queried(context, QueryView::Rollout { kind, name, namespace }) matches StepView::Run(run)
                && run == RunStateView::Rollout {
                context,
                namespace: ns,
                kind: meant,
                name: trimmed(name),
            } && arguments(run) == seq![
                "--context"@,
                context,
                "-n"@,
                ns,
                "rollout"@,
                "status"@,
                meant + "/"@ + trimmed(name),
                "--watch=false"@,
            ])
            &&& !(meant == "deployment"@ || meant == "statefulset"@) || trimmed(name).len() == 0
                ==> (queried(context, QueryView::Rollout { kind, name, namespace }) matches StepView::Done(
                Err(_),
            ))
            &&& queried(context, QueryView::Events { namespace, last }) matches StepView::Run(run)
                && run == RunStateView::ListEvents {
                context,
                namespace: ns,
                last: if last == 0 {
                    30
                } else {
                    last
                },
            } && arguments(run) == seq![
                "--context"@,
                context,
                "-n"@,
                ns,
                "get"@,
                "events"@,
                "-o"@,
                "json"@,
            ]
            &&& trimmed(service).len() > 0 ==> (queried(
                context,
                QueryView::Endpoints { namespace, service },
            ) matches StepView::Run(run) && run == RunStateView::ListEndpoints {
                context,
                namespace: ns,
                service: trimmed(service),
            } && arguments(run) == seq![
                "--context"@,
                context,
                "-n"@,
                ns,
                "get"@,
                "endpoints"@,
                trimmed(service),
                "-o"@,
                "json"@,
            ])
            &&& trimmed(service).len() == 0 ==> (queried(
                context,
                QueryView::Endpoints { namespace, service },
            ) matches StepView::Done(Err(_)))
        }),
{
    let ns = if trimmed(namespace).len() == 0 {
        "fiducia"@
    } else {
        trimmed(namespace)
    };
    let meant = lowered(trimmed(kind));
    assert(arguments(RunStateView::ListWorkloads { context, namespace: ns }) =~= seq![
        "--context"@,
        context,
        "-n"@,
        ns,
        "get"@,
        "deployments,statefulsets"@,
        "-o"@,
        "json"@,
    ]);
    assert(arguments(RunStateView::ListPods { context, namespace: ns, workloads }) =~= seq![
        "--context"@,
        context,
        "-n"@,
        ns,
        "get"@,
        "pods"@,
        "-o"@,
        "json"@,
    ]);
    assert(arguments(
        RunStateView::Rollout { context, namespace: ns, kind: meant, name: trimmed(name) },
    ) =~= seq![
        "--context"@,
        context,
        "-n"@,
        ns,
        "rollout"@,
        "status"@,
        meant + "/"@ + trimmed(name),
        "--watch=false"@,
    ]);
    assert(arguments(RunStateView::ListEvents { context, namespace: ns, last }) =~= seq![
        "--context"@,
        context,
        "-n"@,
        ns,
        "get"@,
        "events"@,
        "-o"@,
        "json"@,
    ]);
    assert(arguments(
        RunStateView::ListEvents { context, namespace: ns, last: 30 },
    ) =~= seq!["--context"@, context, "-n"@, ns, "get"@, "events"@, "-o"@, "json"@]);
    assert(arguments(
        RunStateView::ListEndpoints { context, namespace: ns, service: trimmed(service) },
    ) =~= seq![
        "--context"@,
        context,
        "-n"@,
        ns,
        "get"@,
        "endpoints"@,
        trimmed(service),
        "-o"@,
        "json"@,
    ]);
}

/// A command that did not run to its end is reported: one that could not be run by
/// the reason, and one that took too long by the seconds that it had, of which at
/// least one is shown, and by the command itself. A command may take 15 seconds.
pub proof fn a_command_without_an_end_is_reported(
    run: RunStateView,
    seconds: u64,
    e: Seq<char>,
)
    ensures
        TIMEOUT_SECONDS == 15,
        resumed(run, OutcomeView::Failed(e)) matches StepView::Done(Err(message)) && mentions(
            message,
            e,
        ),
        resumed(run, OutcomeView::TimedOut(seconds)) matches StepView::Done(Err(message)) && {
            let shown = if seconds == 0 {
                1
            } else {
                seconds as nat
            };
            message == "kubectl timed out after "@ + decimal_of(shown) + "s: kubectl "@ + joined(
                arguments(run),
                " "@,
            )
        },
{
    let start = "failed to run kubectl (is it installed and on PATH?): "@;
    lemma_mentions(start, e, Seq::empty());
    assert(start + e + Seq::<char>::empty() =~= start + e);
    let shown: nat = if seconds == 0 {
        1
    } else {
        seconds as nat
    };
    let line = joined(arguments(run), " "@);
    reveal_strlit("s: ");
    reveal_strlit("kubectl ");
    reveal_strlit("s: kubectl ");
    assert("s: "@.len() == 3 && "kubectl "@.len() == 8 && "s: kubectl "@.len() == 11);
    assert("s: kubectl "@ =~= "s: "@ + "kubectl "@);
    assert("kubectl timed out after "@ + decimal_of(shown) + "s: "@ + ("kubectl "@ + line)
        =~= "kubectl timed out after "@ + decimal_of(shown) + "s: kubectl "@ + line);
    assert(arguments(run) == list_contexts() || !(run is ListContexts || run is CheckContext));
}

/// A command whose tree is wanted fails with an error that shows what it wrote to
/// its error output, or that it printed no JSON.
pub proof fn a_command_without_a_tree_is_reported(
    run: RunStateView,
    success: bool,
    stdout: Seq<u8>,
    stderr: Seq<u8>,
)
    requires
        run is ListWorkloads || run is ListPods || run is ListEvents || run is ListEndpoints,
        !success || json_of_text(lossy_text(stdout)) is Err,
    ensures
        resumed(run, OutcomeView::Exited { success, stdout, stderr }) matches StepView::Done(Err(e))
            && begins_with(e, "kubectl "@ + joined(arguments(run), " "@)) && (!success ==> mentions(
            e,
            trimmed(lossy_text(stderr)),
        )),
{
    let line = command_line(arguments(run));
    if !success {
        a_failed_command_is_reported(arguments(run), stdout, stderr);
    } else {
        let why = json_of_text(lossy_text(stdout))->Err_0;
        let e = line + " did not return JSON: "@ + why;
        assert(e.take(line.len() as int) =~= line);
    }
}

/// Where the contexts cannot be listed, nothing else is run.
pub proof fn unlisted_contexts_are_reported(
    allow: Option<Seq<Seq<char>>>,
    context: Seq<char>,
    query: QueryView,
    stdout: Seq<u8>,
    stderr: Seq<u8>,
)
    ensures
        ({
            let outcome = OutcomeView::Exited { success: false, stdout, stderr };
            &&& resumed(RunStateView::ListContexts { allow }, outcome) matches StepView::Done(Err(e))
                && mentions(e, trimmed(lossy_text(stderr)))
            &&& resumed(RunStateView::CheckContext { context, query }, outcome) matches StepView::Done(
                Err(e),
            ) && mentions(e, trimmed(lossy_text(stderr)))
        }),
{
    let start = "kubectl config get-contexts failed: "@;
    let why = trimmed(lossy_text(stderr));
    lemma_mentions(start, why, Seq::empty());
    assert(start + why + Seq::<char>::empty() =~= start + why);
}

} // verus!
