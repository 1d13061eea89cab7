//! JSON trees: the type that the tools read and build, its reading and its
//! writing through `serde_json`.

use vstd::prelude::*;
use crate::text::{opt_str_view, same_text, texts};
use serde_json::Value;

verus! {

// ---------------------------------------------------------------- the type

/// A JSON number: a natural number, a negative integer, or any other number
/// by its shortest decimal text.
#[derive(Debug, PartialEq, Eq)]
pub enum JsonNumber {
    Unsigned(u64),
    Negative(i64),
    Decimal(String),
}

/// A JSON tree. An object is the list of its members.
#[derive(Debug, PartialEq, Eq)]
pub enum Json {
    Null,
    Bool(bool),
    Number(JsonNumber),
    Text(String),
    Array(Vec<Json>),
    Object(Vec<(String, Json)>),
}

/// What a [`JsonNumber`] stands for.
pub enum NumberView {
    Unsigned(u64),
    Negative(i64),
    Decimal(Seq<char>),
}

/// What a [`Json`] tree stands for.
#[verifier::ext_equal]
pub enum JsonView {
    Null,
    Bool(bool),
    Number(NumberView),
    Text(Seq<char>),
    Array(Seq<JsonView>),
    Object(Seq<(Seq<char>, JsonView)>),
}

impl View for JsonNumber {
    type V = NumberView;

    open spec fn view(&self) -> NumberView {
        match self {
            JsonNumber::Unsigned(n) => NumberView::Unsigned(*n),
            JsonNumber::Negative(n) => NumberView::Negative(*n),
            JsonNumber::Decimal(s) => NumberView::Decimal(s@),
        }
    }
}

/// What a tree stands for, node by node.
pub open spec fn json_view(j: Json) -> JsonView
    decreases j,
{
    match j {
        Json::Null => JsonView::Null,
        Json::Bool(b) => JsonView::Bool(b),
        Json::Number(n) => JsonView::Number(n@),
        Json::Text(s) => JsonView::Text(s@),
        Json::Array(a) => JsonView::Array(
            Seq::new(
                a@.len(),
                |i: int|
                    if 0 <= i < a@.len() {
                        json_view(a@[i])
                    } else {
                        JsonView::Null
                    },
            ),
        ),
        Json::Object(o) => JsonView::Object(
            Seq::new(
                o@.len(),
                |i: int|
                    if 0 <= i < o@.len() {
                        (o@[i].0@, json_view(o@[i].1))
                    } else {
                        (Seq::<char>::empty(), JsonView::Null)
                    },
            ),
        ),
    }
}

impl View for Json {
    type V = JsonView;

    open spec fn view(&self) -> JsonView {
        json_view(*self)
    }
}

/// What a list of trees stands for.
pub open spec fn items_view(items: Seq<Json>) -> Seq<JsonView> {
    Seq::new(items.len(), |i: int| items[i]@)
}

/// What a list of object members stands for.
pub open spec fn members_view(members: Seq<(String, Json)>) -> Seq<(Seq<char>, JsonView)> {
    Seq::new(members.len(), |i: int| (members[i].0@, members[i].1@))
}

/// An array stands for what its items stand for.
pub broadcast proof fn lemma_array_view(items: Vec<Json>)
    ensures
        #[trigger] json_view(Json::Array(items)) == JsonView::Array(items_view(items@)),
{
    let inner = json_view(Json::Array(items))->Array_0;
    assert(inner =~= items_view(items@));
}

/// An object stands for what its members stand for.
pub broadcast proof fn lemma_object_view(members: Vec<(String, Json)>)
    ensures
        #[trigger] json_view(Json::Object(members)) == JsonView::Object(members_view(members@)),
{
    let inner = json_view(Json::Object(members))->Object_0;
    assert(inner =~= members_view(members@));
}

pub broadcast group group_json_view {
    lemma_array_view,
    lemma_object_view,
}

proof fn lemma_item_smaller(j: Json, a: Vec<Json>, i: int)
    requires
        j == Json::Array(a),
        0 <= i < a@.len(),
    ensures
        decreases_to!(j => a@[i]),
{
    assert(decreases_to!(j => j->Array_0));
    assert(decreases_to!(a => a@));
    assert(decreases_to!(a@ => a@[i]));
}

proof fn lemma_member_smaller(j: Json, o: Vec<(String, Json)>, i: int)
    requires
        j == Json::Object(o),
        0 <= i < o@.len(),
    ensures
        decreases_to!(j => o@[i].1),
{
    assert(decreases_to!(j => j->Object_0));
    assert(decreases_to!(o => o@));
    assert(decreases_to!(o@ => o@[i]));
    assert(decreases_to!(o@[i] => o@[i].1));
}

impl Clone for JsonNumber {
    fn clone(&self) -> (r: Self)
        ensures
            r@ == self@,
    {
        match self {
            JsonNumber::Unsigned(n) => JsonNumber::Unsigned(*n),
            JsonNumber::Negative(n) => JsonNumber::Negative(*n),
            JsonNumber::Decimal(s) => JsonNumber::Decimal(s.clone()),
        }
    }
}

impl Clone for Json {
    fn clone(&self) -> (r: Self)
        ensures
            r@ == self@,
        decreases self,
    {
        broadcast use group_json_view;

        match self {
            Json::Null => Json::Null,
            Json::Bool(b) => Json::Bool(*b),
            Json::Number(n) => Json::Number(n.clone()),
            Json::Text(s) => Json::Text(s.clone()),
            Json::Array(a) => {
                let mut out: Vec<Json> = Vec::new();
                for i in 0..a.len()
                    invariant
                        out@.len() == i,
                        self == Json::Array(*a),
                        forall|k: int| 0 <= k < i ==> (#[trigger] out@[k])@ == a@[k]@,
                {
                    proof {
                        lemma_item_smaller(*self, *a, i as int);
                    }
                    out.push(a[i].clone());
                }
                assert(items_view(out@) =~= items_view(a@));
                Json::Array(out)
            },
            Json::Object(o) => {
                let mut out: Vec<(String, Json)> = Vec::new();
                for i in 0..o.len()
                    invariant
                        out@.len() == i,
                        self == Json::Object(*o),
                        forall|k: int|
                            0 <= k < i ==> (#[trigger] out@[k]).0@ == o@[k].0@ && out@[k].1@
                                == o@[k].1@,
                {
                    proof {
                        lemma_member_smaller(*self, *o, i as int);
                    }
                    out.push((o[i].0.clone(), o[i].1.clone()));
                }
                assert(members_view(out@) =~= members_view(o@));
                Json::Object(out)
            },
        }
    }
}

// ---------------------------------------------------------------- looking inside

/// The value of the first member with the key `key`.
pub open spec fn member(members: Seq<(Seq<char>, JsonView)>, key: Seq<char>) -> Option<JsonView>
    decreases members.len(),
{
    if members.len() == 0 {
        None
    } else if members[0].0 == key {
        Some(members[0].1)
    } else {
        member(members.drop_first(), key)
    }
}

impl JsonView {
    /// The member `key` of an object; nothing of any other tree.
    pub open spec fn get(self, key: Seq<char>) -> Option<JsonView> {
        match self {
            JsonView::Object(members) => member(members, key),
            _ => None,
        }
    }

    /// The member `b` of the member `a`.
    pub open spec fn at2(self, a: Seq<char>, b: Seq<char>) -> Option<JsonView> {
        match self.get(a) {
            Some(v) => v.get(b),
            None => None,
        }
    }

    /// The text of a JSON string.
    pub open spec fn text(self) -> Option<Seq<char>> {
        match self {
            JsonView::Text(s) => Some(s),
            _ => None,
        }
    }

    /// The truth value of a JSON boolean.
    pub open spec fn boolean(self) -> Option<bool> {
        match self {
            JsonView::Bool(b) => Some(b),
            _ => None,
        }
    }

    /// The number, where it is a natural number of 64 bits.
    pub open spec fn natural(self) -> Option<u64> {
        match self {
            JsonView::Number(NumberView::Unsigned(n)) => Some(n),
            _ => None,
        }
    }

    /// The number, where it is a signed integer of 64 bits.
    pub open spec fn integer(self) -> Option<i64> {
        match self {
            JsonView::Number(NumberView::Unsigned(n)) => if n <= i64::MAX {
                Some(n as i64)
            } else {
                None
            },
            JsonView::Number(NumberView::Negative(n)) => Some(n),
            _ => None,
        }
    }

    /// The items of a JSON array.
    pub open spec fn items(self) -> Option<Seq<JsonView>> {
        match self {
            JsonView::Array(items) => Some(items),
            _ => None,
        }
    }

    /// The items of a JSON array; none of any other tree.
    pub open spec fn items_or_none(self) -> Seq<JsonView> {
        match self {
            JsonView::Array(items) => items,
            _ => Seq::empty(),
        }
    }

    /// The text of the member `key`, where it is a JSON string.
    pub open spec fn text_at(self, key: Seq<char>) -> Option<Seq<char>> {
        match self.get(key) {
            Some(v) => v.text(),
            None => None,
        }
    }

    /// The text of the member `b` of the member `a`, where it is a JSON string.
    pub open spec fn text_at2(self, a: Seq<char>, b: Seq<char>) -> Option<Seq<char>> {
        match self.at2(a, b) {
            Some(v) => v.text(),
            None => None,
        }
    }

    /// The natural number that is the member `key`.
    pub open spec fn natural_at(self, key: Seq<char>) -> Option<u64> {
        match self.get(key) {
            Some(v) => v.natural(),
            None => None,
        }
    }

    /// The natural number that is the member `b` of the member `a`.
    pub open spec fn natural_at2(self, a: Seq<char>, b: Seq<char>) -> Option<u64> {
        match self.at2(a, b) {
            Some(v) => v.natural(),
            None => None,
        }
    }

    /// The items of the array that is the member `key`; none where it is no array.
    pub open spec fn items_at(self, key: Seq<char>) -> Seq<JsonView> {
        match self.get(key) {
            Some(v) => v.items_or_none(),
            None => Seq::empty(),
        }
    }

    /// The text as a JSON string, or null.
    pub open spec fn opt_text(s: Option<Seq<char>>) -> JsonView {
        match s {
            Some(t) => JsonView::Text(t),
            None => JsonView::Null,
        }
    }

    /// The natural number, or null.
    pub open spec fn opt_natural(n: Option<u64>) -> JsonView {
        match n {
            Some(n) => JsonView::natural_number(n),
            None => JsonView::Null,
        }
    }

    /// The tree, or null.
    pub open spec fn or_null(v: Option<JsonView>) -> JsonView {
        match v {
            Some(v) => v,
            None => JsonView::Null,
        }
    }

    /// The JSON number of a natural number.
    pub open spec fn natural_number(n: u64) -> JsonView {
        JsonView::Number(NumberView::Unsigned(n))
    }

    /// The JSON number of an integer.
    pub open spec fn integer_number(n: i64) -> JsonView {
        if n < 0 {
            JsonView::Number(NumberView::Negative(n))
        } else {
            JsonView::Number(NumberView::Unsigned(n as u64))
        }
    }

    /// The JSON array of the JSON strings of a list of texts.
    pub open spec fn text_array(list: Seq<Seq<char>>) -> JsonView {
        JsonView::Array(list.map_values(|s: Seq<char>| JsonView::Text(s)))
    }
}

/// The members of the empty object.
pub open spec fn no_members() -> Seq<(Seq<char>, JsonView)> {
    Seq::empty()
}

/// What a reference to a tree stands for.
pub open spec fn opt_view(v: Option<&Json>) -> Option<JsonView> {
    match v {
        Some(j) => Some(j@),
        None => None,
    }
}

/// What a tree or a message stands for.
pub open spec fn res_json_view(r: Result<Json, String>) -> Result<JsonView, Seq<char>> {
    match r {
        Ok(tree) => Ok(tree@),
        Err(message) => Err(message@),
    }
}

impl Json {
    /// The member `key` of an object.
    pub fn get(&self, key: &str) -> (r: Option<&Json>)
        ensures
            opt_view(r) == self@.get(key@),
    {
        broadcast use group_json_view;

        match self {
            Json::Object(members) => {
                let ghost all = members_view(members@);
                assert(all.skip(0) =~= all);
                for i in 0..members.len()
                    invariant
                        all == members_view(members@),
                        self@ == JsonView::Object(all),
                        member(all, key@) == member(all.skip(i as int), key@),
                {
                    if same_text(members[i].0.as_str(), key) {
                        return Some(&members[i].1);
                    }
                    assert(all.skip(i as int).drop_first() =~= all.skip(i + 1));
                }
                None
            },
            _ => None,
        }
    }

    /// The member `b` of the member `a`.
    pub fn at2(&self, a: &str, b: &str) -> (r: Option<&Json>)
        ensures
            opt_view(r) == self@.at2(a@, b@),
    {
        match self.get(a) {
            Some(v) => v.get(b),
            None => None,
        }
    }

    /// The text of a JSON string.
    pub fn as_str(&self) -> (r: Option<&str>)
        ensures
            opt_str_view(r) == self@.text(),
    {
        match self {
            Json::Text(s) => Some(s.as_str()),
            _ => None,
        }
    }

    /// The truth value of a JSON boolean.
    pub fn as_bool(&self) -> (r: Option<bool>)
        ensures
            r == self@.boolean(),
    {
        match self {
            Json::Bool(b) => Some(*b),
            _ => None,
        }
    }

    /// The number, where it is a natural number of 64 bits.
    pub fn as_u64(&self) -> (r: Option<u64>)
        ensures
            r == self@.natural(),
    {
        match self {
            Json::Number(JsonNumber::Unsigned(n)) => Some(*n),
            _ => None,
        }
    }

    /// The number, where it is a signed integer of 64 bits.
    pub fn as_i64(&self) -> (r: Option<i64>)
        ensures
            r == self@.integer(),
    {
        match self {
            Json::Number(JsonNumber::Unsigned(n)) => if *n <= i64::MAX as u64 {
                Some(*n as i64)
            } else {
                None
            },
            Json::Number(JsonNumber::Negative(n)) => Some(*n),
            _ => None,
        }
    }

    /// The items of a JSON array.
    pub fn as_array(&self) -> (r: Option<&Vec<Json>>)
        ensures
            r is Some <==> self@ is Array,
            r matches Some(items) ==> self@ == JsonView::Array(items_view(items@)),
    {
        broadcast use group_json_view;

        match self {
            Json::Array(items) => Some(items),
            _ => None,
        }
    }

    /// The text of the member `key`, where it is a JSON string.
    pub fn text_at(&self, key: &str) -> (r: Option<&str>)
        ensures
            opt_str_view(r) == self@.text_at(key@),
    {
        match self.get(key) {
            Some(v) => v.as_str(),
            None => None,
        }
    }

    /// The text of the member `b` of the member `a`, where it is a JSON string.
    pub fn text_at2(&self, a: &str, b: &str) -> (r: Option<&str>)
        ensures
            opt_str_view(r) == self@.text_at2(a@, b@),
    {
        match self.at2(a, b) {
            Some(v) => v.as_str(),
            None => None,
        }
    }

    /// The natural number that is the member `key`.
    pub fn natural_at(&self, key: &str) -> (r: Option<u64>)
        ensures
            r == self@.natural_at(key@),
    {
        match self.get(key) {
            Some(v) => v.as_u64(),
            None => None,
        }
    }

    /// The natural number that is the member `b` of the member `a`.
    pub fn natural_at2(&self, a: &str, b: &str) -> (r: Option<u64>)
        ensures
            r == self@.natural_at2(a@, b@),
    {
        match self.at2(a, b) {
            Some(v) => v.as_u64(),
            None => None,
        }
    }

    /// The items of the array that is the member `key`, where it is an array.
    pub fn array_at(&self, key: &str) -> (r: Option<&Vec<Json>>)
        ensures
            match r {
                Some(items) => items_view(items@) == self@.items_at(key@),
                None => self@.items_at(key@) == Seq::<JsonView>::empty(),
            },
    {
        match self.get(key) {
            Some(v) => v.as_array(),
            None => None,
        }
    }

    /// The JSON string of a text.
    pub fn text(s: &str) -> (r: Json)
        ensures
            r@ == JsonView::Text(s@),
    {
        Json::Text(s.to_string())
    }

    /// The JSON string of a text, or null.
    pub fn opt_text(s: Option<&str>) -> (r: Json)
        ensures
            r@ == JsonView::opt_text(opt_str_view(s)),
    {
        match s {
            Some(t) => Json::text(t),
            None => Json::Null,
        }
    }

    /// The JSON number of a natural number.
    pub fn natural(n: u64) -> (r: Json)
        ensures
            r@ == JsonView::natural_number(n),
    {
        Json::Number(JsonNumber::Unsigned(n))
    }

    /// The JSON number of a natural number, or null.
    pub fn opt_natural(n: Option<u64>) -> (r: Json)
        ensures
            r@ == JsonView::opt_natural(n),
    {
        match n {
            Some(n) => Json::natural(n),
            None => Json::Null,
        }
    }

    /// The JSON number of an integer.
    pub fn integer(n: i64) -> (r: Json)
        ensures
            r@ == JsonView::integer_number(n),
    {
        if n < 0 {
            Json::Number(JsonNumber::Negative(n))
        } else {
            Json::Number(JsonNumber::Unsigned(n as u64))
        }
    }

    /// A copy of the tree, or null.
    pub fn or_null(v: Option<&Json>) -> (r: Json)
        ensures
            r@ == JsonView::or_null(opt_view(v)),
    {
        match v {
            Some(v) => v.clone(),
            None => Json::Null,
        }
    }

    /// The JSON array of the JSON strings of a list of texts.
    pub fn text_array(list: &Vec<String>) -> (r: Json)
        ensures
            r@ == JsonView::text_array(texts(list@)),
    {
        broadcast use group_json_view;

        let mut out: Vec<Json> = Vec::new();
        for i in 0..list.len()
            invariant
                out@.len() == i,
                forall|k: int| 0 <= k < i ==> (#[trigger] out@[k])@ == JsonView::Text(list@[k]@),
        {
            out.push(Json::text(list[i].as_str()));
        }
        proof {
            let want = texts(list@).map_values(|s: Seq<char>| JsonView::Text(s));
            assert(items_view(out@) =~= want);
        }
        Json::Array(out)
    }
}

/// The members of an object under construction.
pub struct Members {
    list: Vec<(String, Json)>,
}

impl View for Members {
    type V = Seq<(Seq<char>, JsonView)>;

    closed spec fn view(&self) -> Seq<(Seq<char>, JsonView)> {
        members_view(self.list@)
    }
}

impl Members {
    /// No member yet.
    pub fn new() -> (r: Members)
        ensures
            r@ == no_members(),
    {
        let r = Members { list: Vec::new() };
        assert(r@ =~= no_members());
        r
    }

    /// One more member at the end.
    pub fn with(self, key: &str, value: Json) -> (r: Members)
        ensures
            r@ == self@.push((key@, value@)),
    {
        let mut list = self.list;
        list.push((key.to_string(), value));
        let r = Members { list };
        assert(r@ =~= self@.push((key@, value@)));
        r
    }

    /// The object with these members.
    pub fn object(self) -> (r: Json)
        ensures
            r@ == JsonView::Object(self@),
    {
        broadcast use group_json_view;

        Json::Object(self.list)
    }
}

// ---------------------------------------------------------------- text and trees

/// What `serde_json::from_str` reads from a text into a `serde_json::Value`:
/// the tree, or the message of the error.
pub uninterp spec fn json_of_text(text: Seq<char>) -> Result<JsonView, Seq<char>>;

/// What `serde_json::to_string` writes for a tree.
pub uninterp spec fn text_of_json(tree: JsonView) -> Seq<char>;

/// What `serde_json::to_string_pretty` writes for a tree.
pub uninterp spec fn pretty_text_of_json(tree: JsonView) -> Seq<char>;

/// The type of `serde_json` values.
#[verifier::external_type_specification]
#[verifier::external_body]
pub struct ExValue(serde_json::Value);

/// The type of `serde_json` numbers.
#[verifier::external_type_specification]
#[verifier::external_body]
pub struct ExNumber(serde_json::Number);

/// A `serde_json` number as a [`JsonNumber`]. Nothing is claimed of the result.
#[verifier::external_body]
fn number_of(n: serde_json::Number) -> (r: JsonNumber) {
    match (n.as_u64(), n.as_i64()) {
        (Some(u), _) => JsonNumber::Unsigned(u),
        (None, Some(i)) => JsonNumber::Negative(i),
        (None, None) => JsonNumber::Decimal(n.to_string()),
    }
}

/// A `serde_json` value as a [`Json`] tree, node for node. Nothing is claimed
/// of the result.
#[verifier::external_body]
fn tree_of(value: Value) -> (r: Json) {
    match value {
        Value::Null => Json::Null,
        Value::Bool(b) => Json::Bool(b),
        Value::Number(n) => Json::Number(number_of(n)),
        Value::String(s) => Json::Text(s),
        Value::Array(a) => Json::Array(a.into_iter().map(tree_of).collect()),
        Value::Object(o) => Json::Object(o.into_iter().map(|(k, v)| (k, tree_of(v))).collect()),
    }
}

/// A [`Json`] tree as a `serde_json` value, node for node. Nothing is claimed
/// of the result.
#[verifier::external_body]
fn value_of(tree: &Json) -> (r: Value) {
    match tree {
        Json::Null => Value::Null,
        Json::Bool(b) => Value::from(*b),
        Json::Number(JsonNumber::Unsigned(n)) => Value::from(*n),
        Json::Number(JsonNumber::Negative(n)) => Value::from(*n),
        Json::Number(JsonNumber::Decimal(s)) => {
            Value::from(s.parse().ok().and_then(serde_json::Number::from_f64))
        }
        Json::Text(s) => Value::from(s.as_str()),
        Json::Array(a) => a.iter().map(value_of).collect(),
        Json::Object(o) => o.iter().map(|(k, v)| (k.clone(), value_of(v))).collect(),
    }
}

/// `serde_json::from_str`: reads a text as a JSON value. The result is a
/// function of the text alone and has the name `json_of_text`; which texts are
/// JSON and what the messages say is not stated.
#[verifier::external_body]
fn read(text: &str) -> (r: Result<Json, String>)
    ensures
        res_json_view(r) == json_of_text(text@),
{
    match serde_json::from_str::<Value>(text) {
        Ok(value) => Ok(tree_of(value)),
        Err(error) => Err(error.to_string()),
    }
}

/// `serde_json::to_string`: the text of a JSON value without white space
/// between its parts. The result is a function of the tree alone and has the
/// name `text_of_json`; what the text looks like is not stated.
#[verifier::external_body]
fn write_compact(tree: &Json) -> (r: String)
    ensures
        r@ == text_of_json(tree@),
{
    serde_json::to_string(&value_of(tree)).unwrap_or_default()
}

/// `serde_json::to_string_pretty`: the indented text of a JSON value. The
/// result is a function of the tree alone and has the name
/// `pretty_text_of_json`; what the text looks like is not stated.
#[verifier::external_body]
fn write_pretty(tree: &Json) -> (r: String)
    ensures
        r@ == pretty_text_of_json(tree@),
{
    serde_json::to_string_pretty(&value_of(tree)).unwrap_or_default()
}

/// The tree that a text holds, or why it is not JSON.
pub fn parse_json(text: &str) -> (r: Result<Json, String>)
    ensures
        res_json_view(r) == json_of_text(text@),
{
    read(text)
}

/// The tree that a text holds; a text that is not JSON is itself the JSON string.
pub open spec fn json_or_text(text: Seq<char>) -> JsonView {
    match json_of_text(text) {
        Ok(tree) => tree,
        Err(_) => JsonView::Text(text),
    }
}

/// The tree that a text holds; a text that is not JSON is itself the JSON string.
pub fn parse_json_or_text(text: &str) -> (r: Json)
    ensures
        r@ == json_or_text(text@),
{
    match read(text) {
        Ok(tree) => tree,
        Err(_) => Json::text(text),
    }
}

impl Json {
    /// The text of the tree, without white space between its parts.
    pub fn to_text(&self) -> (r: String)
        ensures
            r@ == text_of_json(self@),
    {
        write_compact(self)
    }

    /// The indented text of the tree.
    pub fn to_pretty_text(&self) -> (r: String)
        ensures
            r@ == pretty_text_of_json(self@),
    {
        write_pretty(self)
    }
}

// ---------------------------------------------------------------- laws

/// A member that is put at the end is found unless one of the same key comes before
/// it.
pub broadcast proof fn lemma_member_push(
    members: Seq<(Seq<char>, JsonView)>,
    last: (Seq<char>, JsonView),
    key: Seq<char>,
)
    ensures
        #[trigger] member(members.push(last), key) == match member(members, key) {
            Some(value) => Some(value),
            None => if last.0 == key {
                Some(last.1)
            } else {
                None
            },
        },
    decreases members.len(),
{
    let more = members.push(last);
    if members.len() == 0 {
        assert(more.drop_first() =~= members);
    } else {
        assert(more.drop_first() =~= members.drop_first().push(last));
        lemma_member_push(members.drop_first(), last, key);
    }
}

/// A member of an object is found by its key, the first of those with the same key,
/// and nothing is found by any other key.
pub proof fn a_member_is_found_by_its_key(
    members: Seq<(Seq<char>, JsonView)>,
    i: int,
    key: Seq<char>,
)
    requires
        0 <= i <= members.len(),
        forall|k: int| 0 <= k < i ==> (#[trigger] members[k]).0 != key,
    ensures
        i < members.len() && members[i].0 == key ==> JsonView::Object(members).get(key) == Some(
            members[i].1,
        ),
        i == members.len() ==> JsonView::Object(members).get(key) is None,
    decreases members.len(),
{
    if i > 0 {
        let rest = members.drop_first();
        assert(members[0].0 != key);
        assert forall|k: int| 0 <= k < i - 1 implies (#[trigger] rest[k]).0 != key by {
            assert(rest[k] == members[k + 1]);
        }
        a_member_is_found_by_its_key(rest, i - 1, key);
    }
}

/// A member of a member is found by the two keys, as a tree, as a text and as a
/// number, and only an object has members.
pub proof fn a_member_of_a_member_is_found(
    tree: JsonView,
    a: Seq<char>,
    b: Seq<char>,
    inner: JsonView,
    value: JsonView,
)
    requires
        tree.get(a) == Some(inner),
        inner.get(b) == Some(value),
    ensures
        tree is Object,
        inner is Object,
        tree.at2(a, b) == Some(value),
        value matches JsonView::Text(s) ==> tree.text_at2(a, b) == Some(s) && inner.text_at(b)
            == Some(s),
        value matches JsonView::Number(NumberView::Unsigned(n)) ==> tree.natural_at2(a, b) == Some(n)
            && inner.natural_at(b) == Some(n),
        value matches JsonView::Array(items) ==> inner.items_at(b) == items,
        !(value is Text) ==> tree.text_at2(a, b) is None && inner.text_at(b) is None,
        !(value is Array) ==> inner.items_at(b).len() == 0,
        !(value is Number) ==> tree.natural_at2(a, b) is None && inner.natural_at(b) is None,
{
}

/// Each reading of a tree gives back what was written, and nothing of a tree of
/// another kind: a text is no number, a number no text, a negative number no
/// natural one, and nothing but `true` and `false` is a truth value.
pub proof fn what_was_written_is_read(s: Seq<char>, n: u64, z: i64, b: bool, list: Seq<Seq<char>>)
    ensures
        JsonView::opt_text(Some(s)) == JsonView::Text(s),
        JsonView::opt_text(None) == JsonView::Null,
        JsonView::Text(s).text() == Some(s),
        JsonView::Text(s).natural() is None,
        JsonView::Text(s).boolean() is None,
        JsonView::Text(s).items_or_none().len() == 0,
        JsonView::natural_number(n).natural() == Some(n),
        JsonView::natural_number(n).text() is None,
        JsonView::opt_natural(Some(n)).natural() == Some(n),
        JsonView::opt_natural(None) == JsonView::Null,
        JsonView::integer_number(z).integer() == Some(z),
        z < 0 ==> JsonView::integer_number(z).natural() is None,
        z >= 0 ==> JsonView::integer_number(z).natural() == Some(z as u64),
        n > i64::MAX ==> JsonView::natural_number(n).integer() is None,
        JsonView::Bool(b).boolean() == Some(b),
        JsonView::Bool(b).text() is None,
        JsonView::Null.text() is None && JsonView::Null.natural() is None
            && JsonView::Null.boolean() is None && JsonView::Null.integer() is None,
        JsonView::text_array(list).items_or_none().len() == list.len(),
        forall|i: int|
            0 <= i < list.len() ==> (#[trigger] JsonView::text_array(list).items_or_none()[i]).text()
                == Some(list[i]),
{
}

/// A body is read as JSON where it is JSON, and is otherwise shown as the text that
/// it is.
pub proof fn a_body_is_read_or_shown(text: Seq<char>, tree: JsonView, message: Seq<char>)
    ensures
        json_of_text(text) == Ok::<JsonView, Seq<char>>(tree) ==> json_or_text(text) == tree,
        json_of_text(text) == Err::<JsonView, Seq<char>>(message) ==> json_or_text(text).text()
            == Some(text),
{
}

/// Which of these trees have a text as the member `key`.
pub open spec fn with_text(items: Seq<JsonView>, key: Seq<char>) -> spec_fn(int) -> bool {
    |i: int| items[i].text_at(key) is Some
}

/// Which of these trees are texts.
pub open spec fn being_texts(items: Seq<JsonView>) -> spec_fn(int) -> bool {
    |i: int| items[i] is Text
}

} // verus!
