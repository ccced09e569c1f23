//! JSON: the values that the providers store and read, as a type that the rest
//! of the library can look into, and the way to and from JSON text.
//!
//! Reading and writing the text is the work of `serde_json`. A value crosses
//! over one level at a time: [`Node`] is a `serde_json::Value` with its top
//! level opened, and the recursion over the levels is verified here.

use crate::text::same_text;
use vstd::prelude::*;

verus! {

// ---------------------------------------------------------------------------
// The outside types
// ---------------------------------------------------------------------------

/// `serde_json::Value`: a JSON value as `serde_json` holds it.
#[verifier::external_type_specification]
#[verifier::external_body]
pub struct ExValue(serde_json::Value);

/// `serde_json::Number`: a JSON number, an integer or a float.
#[verifier::external_type_specification]
#[verifier::external_body]
pub struct ExNumber(serde_json::Number);

/// `serde_json::Error`: why a text is no JSON.
#[verifier::external_type_specification]
#[verifier::external_body]
pub struct ExError(serde_json::Error);

/// `<serde_json::Number as Clone>::clone`: the copy is the same number.
pub assume_specification[ <serde_json::Number as Clone>::clone ](
    n: &serde_json::Number,
) -> (copy: serde_json::Number)
    ensures
        copy == *n,
;

/// The integer that a number is; a float is none, whatever its value.
pub uninterp spec fn number_integer(n: serde_json::Number) -> Option<i128>;

/// `serde_json::Number::as_i128`: the integer that the number is. None is beyond
/// what an `i64` or a `u64` holds.
pub assume_specification[ serde_json::Number::as_i128 ](n: &serde_json::Number) -> (integer: Option<
    i128,
>)
    ensures
        integer == number_integer(*n),
        integer matches Some(i) ==> i64::MIN <= i <= u64::MAX,
;

/// `serde_json::Number::from` of a `u64`: the number is that integer.
#[verifier::external_body]
fn number_from_u64(integer: u64) -> (n: serde_json::Number)
    ensures
        number_integer(n) == Some(integer as i128),
{
    serde_json::Number::from(integer)
}

/// `serde_json::Number::from` of an `i64`: the number is that integer.
#[verifier::external_body]
fn number_from_i64(integer: i64) -> (n: serde_json::Number)
    ensures
        number_integer(n) == Some(integer as i128),
{
    serde_json::Number::from(integer)
}

// ---------------------------------------------------------------------------
// Values
// ---------------------------------------------------------------------------

/// A JSON number that is no integer. It is carried through and never looked into.
#[derive(Debug, PartialEq)]
pub struct Float {
    number: serde_json::Number,
}

impl Float {
    /// The number is no integer.
    #[verifier::type_invariant]
    spec fn is_no_integer(self) -> bool {
        number_integer(self.number) is None
    }

    /// The number that it is.
    pub closed spec fn number(self) -> serde_json::Number {
        self.number
    }
}

impl Clone for Float {
    fn clone(&self) -> (copy: Float)
        ensures
            copy == *self,
    {
        proof {
            use_type_invariant(self);
        }
        Float { number: self.number.clone() }
    }
}

/// A JSON value. Where a key occurs twice in an object, the later entry counts.
/// An integer that is read is `Signed` only if it is negative. The derived `==`
/// compares how values are held: the order of fields counts in it.
#[derive(Debug, PartialEq)]
pub enum Json {
    Null,
    Bool(bool),
    Unsigned(u64),
    Signed(i64),
    Float(Float),
    Text(String),
    Array(Vec<Json>),
    Object(Vec<(String, Json)>),
}

/// What a JSON value holds.
pub enum JsonTree {
    Null,
    Bool(bool),
    Integer(int),
    Float(serde_json::Number),
    Text(Seq<char>),
    Array(Seq<JsonTree>),
    Object(Map<Seq<char>, JsonTree>),
}

impl Json {
    pub open spec fn tree(self) -> JsonTree
        decreases self,
    {
        match self {
            Json::Null => JsonTree::Null,
            Json::Bool(b) => JsonTree::Bool(b),
            Json::Unsigned(i) => JsonTree::Integer(i as int),
            Json::Signed(i) => JsonTree::Integer(i as int),
            Json::Float(f) => JsonTree::Float(f.number()),
            Json::Text(s) => JsonTree::Text(s@),
            Json::Array(items) => JsonTree::Array(item_trees(items@)),
            Json::Object(fields) => JsonTree::Object(field_trees(fields@)),
        }
    }
}

impl View for Json {
    type V = JsonTree;

    open spec fn view(&self) -> JsonTree {
        self.tree()
    }
}

/// What the items of an array hold, in order.
pub open spec fn item_trees(items: Seq<Json>) -> Seq<JsonTree>
    decreases items,
{
    if items.len() == 0 {
        Seq::empty()
    } else {
        item_trees(items.drop_last()).push(items.last().tree())
    }
}

/// What the fields of an object hold, by their keys.
pub open spec fn field_trees(fields: Seq<(String, Json)>) -> Map<Seq<char>, JsonTree>
    decreases fields,
{
    if fields.len() == 0 {
        Map::empty()
    } else {
        field_trees(fields.drop_last()).insert(fields.last().0@, fields.last().1.tree())
    }
}

impl JsonTree {
    /// What stands in an object under `key`.
    pub open spec fn field(self, key: Seq<char>) -> Option<JsonTree> {
        match self {
            JsonTree::Object(fields) => if fields.contains_key(key) {
                Some(fields[key])
            } else {
                None
            },
            _ => None,
        }
    }

    /// The text that a value is, if it is one.
    pub open spec fn text(self) -> Option<Seq<char>> {
        match self {
            JsonTree::Text(s) => Some(s),
            _ => None,
        }
    }

    /// The JSON text of the value is read back as the value: no more than
    /// `levels` arrays and objects stand one inside the other, and each float in
    /// it is read back, from its own JSON text, as the float that it is.
    pub open spec fn reads_back_within(self, levels: nat) -> bool
        decreases levels,
    {
        match self {
            JsonTree::Float(_) => parsed_json(printed_json(self)) == Some(self),
            JsonTree::Array(items) => levels > 0 && forall|i: int|
                0 <= i < items.len() ==> (#[trigger] items[i]).reads_back_within(
                    (levels - 1) as nat,
                ),
            JsonTree::Object(fields) => levels > 0 && forall|key: Seq<char>|
                fields.contains_key(key) ==> (#[trigger] fields[key]).reads_back_within(
                    (levels - 1) as nat,
                ),
            _ => true,
        }
    }

    /// There is no float in the value, and no more than `levels` arrays and
    /// objects stand one inside the other.
    pub open spec fn float_free_within(self, levels: nat) -> bool
        decreases levels,
    {
        match self {
            JsonTree::Float(_) => false,
            JsonTree::Array(items) => levels > 0 && forall|i: int|
                0 <= i < items.len() ==> (#[trigger] items[i]).float_free_within(
                    (levels - 1) as nat,
                ),
            JsonTree::Object(fields) => levels > 0 && forall|key: Seq<char>|
                fields.contains_key(key) ==> (#[trigger] fields[key]).float_free_within(
                    (levels - 1) as nat,
                ),
            _ => true,
        }
    }

    /// The JSON text of the value is read back as the value.
    pub open spec fn reads_back(self) -> bool {
        self.reads_back_within(READ_LEVELS as nat)
    }
}

/// How many arrays and objects may stand one inside the other in a text that is
/// read.
pub const READ_LEVELS: usize = 127;

/// A value without floats is read back, as deep as it is: integers, texts, truth
/// values and null are never lost.
pub proof fn law_float_free_is_read_back(tree: JsonTree, levels: nat)
    requires
        tree.float_free_within(levels),
    ensures
        tree.reads_back_within(levels),
    decreases levels,
{
    match tree {
        JsonTree::Array(items) => {
            assert forall|i: int| 0 <= i < items.len() implies (
            #[trigger] items[i]).reads_back_within((levels - 1) as nat) by {
                law_float_free_is_read_back(items[i], (levels - 1) as nat);
            }
        },
        JsonTree::Object(fields) => {
            assert forall|key: Seq<char>| fields.contains_key(key) implies (
            #[trigger] fields[key]).reads_back_within((levels - 1) as nat) by {
                law_float_free_is_read_back(fields[key], (levels - 1) as nat);
            }
        },
        _ => {},
    }
}

pub proof fn lemma_item_trees(items: Seq<Json>)
    ensures
        item_trees(items).len() == items.len(),
        forall|i: int| 0 <= i < items.len() ==> #[trigger] item_trees(items)[i] == items[i].tree(),
    decreases items,
{
    if items.len() > 0 {
        lemma_item_trees(items.drop_last());
    }
}

// ---------------------------------------------------------------------------
// Building and looking into values
// ---------------------------------------------------------------------------

/// The value that is the text `s`.
pub fn text_value(s: &str) -> (value: Json)
    ensures
        value@ == JsonTree::Text(s@),
{
    Json::Text(s.to_owned())
}

/// Puts `value` under `key` into the fields of an object.
pub fn put_field(fields: &mut Vec<(String, Json)>, key: &str, value: Json)
    ensures
        field_trees(final(fields)@) == field_trees(old(fields)@).insert(key@, value@),
{
    fields.push((key.to_owned(), value));
    assert(fields@.drop_last() =~= old(fields)@);
}

/// Appends `value` to the items of an array.
pub fn put_item(items: &mut Vec<Json>, value: Json)
    ensures
        item_trees(final(items)@) == item_trees(old(items)@).push(value@),
{
    items.push(value);
    assert(items@.drop_last() =~= old(items)@);
}

impl Json {
    /// What stands in an object under `key`.
    pub fn get(&self, key: &str) -> (found: Option<&Json>)
        ensures
            self@.field(key@) is Some == found is Some,
            found matches Some(value) ==> self@.field(key@) == Some(value@),
    {
        match self {
            Json::Object(fields) => {
                let mut left: usize = fields.len();
                assert(fields@.take(left as int) =~= fields@);
                while left > 0
                    invariant
                        *self == Json::Object(*fields),
                        left <= fields@.len(),
                        field_trees(fields@.take(left as int)).contains_key(key@)
                            == field_trees(fields@).contains_key(key@),
                        field_trees(fields@).contains_key(key@) ==> field_trees(
                            fields@.take(left as int),
                        )[key@] == field_trees(fields@)[key@],
                    decreases left,
                {
                    assert(fields@.take(left as int).drop_last() =~= fields@.take(left - 1));
                    let entry = &fields[left - 1];
                    if same_text(entry.0.as_str(), key) {
                        return Some(&entry.1);
                    }
                    left -= 1;
                }
                None
            },
            _ => None,
        }
    }

    /// The text that a value is, if it is one.
    pub fn as_text(&self) -> (text: Option<&str>)
        ensures
            self@.text() is Some == text is Some,
            text matches Some(s) ==> self@.text() == Some(s@),
    {
        match self {
            Json::Text(s) => Some(s.as_str()),
            _ => None,
        }
    }
}

impl Clone for Json {
    fn clone(&self) -> (copy: Json)
        ensures
            copy@ == self@,
        decreases self,
    {
        match self {
            Json::Null => Json::Null,
            Json::Bool(b) => Json::Bool(*b),
            Json::Unsigned(i) => Json::Unsigned(*i),
            Json::Signed(i) => Json::Signed(*i),
            Json::Float(f) => Json::Float(f.clone()),
            Json::Text(s) => Json::Text(s.clone()),
            Json::Array(items) => {
                let mut copies: Vec<Json> = Vec::new();
                let mut at: usize = 0;
                assert(items@.take(0) =~= Seq::empty());
                while at < items.len()
                    invariant
                        at <= items@.len(),
                        item_trees(copies@) == item_trees(items@.take(at as int)),
                        *self == Json::Array(*items),
                    decreases items@.len() - at,
                {
                    assert(decreases_to!(*self => self->Array_0));
                    assert(decreases_to!(items => items@[at as int]));
                    let copy = (&items[at]).clone();
                    put_item(&mut copies, copy);
                    at += 1;
                    assert(items@.take(at as int).drop_last() =~= items@.take(at - 1));
                }
                assert(items@.take(at as int) =~= items@);
                Json::Array(copies)
            },
            Json::Object(fields) => {
                let mut copies: Vec<(String, Json)> = Vec::new();
                let mut at: usize = 0;
                assert(fields@.take(0) =~= Seq::empty());
                while at < fields.len()
                    invariant
                        at <= fields@.len(),
                        field_trees(copies@) == field_trees(fields@.take(at as int)),
                        *self == Json::Object(*fields),
                    decreases fields@.len() - at,
                {
                    assert(decreases_to!(*self => self->Object_0));
                    assert(decreases_to!(fields => fields@[at as int]));
                    assert(decreases_to!(fields@[at as int] => fields@[at as int].1));
                    let copy = (&fields[at].1).clone();
                    put_field(&mut copies, fields[at].0.as_str(), copy);
                    at += 1;
                    assert(fields@.take(at as int).drop_last() =~= fields@.take(at - 1));
                }
                assert(fields@.take(at as int) =~= fields@);
                Json::Object(copies)
            },
        }
    }
}

// ---------------------------------------------------------------------------
// JSON text
// ---------------------------------------------------------------------------

/// A `serde_json::Value` with its top level opened.
pub enum Node {
    Null,
    Bool(bool),
    Number(serde_json::Number),
    Text(String),
    Array(Vec<serde_json::Value>),
    Object(Vec<(String, serde_json::Value)>),
}

/// What a `serde_json::Value` holds.
pub uninterp spec fn value_tree(value: serde_json::Value) -> JsonTree;

/// The value that `serde_json` reads from `text`, if the text is JSON.
pub uninterp spec fn parsed_json(text: Seq<char>) -> Option<JsonTree>;

/// The compact JSON text that `serde_json` writes for a value.
pub uninterp spec fn printed_json(tree: JsonTree) -> Seq<char>;

/// What the values hold, in order.
pub open spec fn value_items(values: Seq<serde_json::Value>) -> Seq<JsonTree> {
    Seq::new(values.len(), |i: int| value_tree(values[i]))
}

/// What the entries hold, by their keys; of two with one key the later counts.
pub open spec fn value_fields(entries: Seq<(String, serde_json::Value)>) -> Map<
    Seq<char>,
    JsonTree,
>
    decreases entries.len(),
{
    if entries.len() == 0 {
        Map::empty()
    } else {
        value_fields(entries.drop_last()).insert(entries.last().0@, value_tree(entries.last().1))
    }
}

/// No two entries have the same key.
pub open spec fn keys_differ(entries: Seq<(String, serde_json::Value)>) -> bool {
    forall|i: int, j: int|
        0 <= i < j < entries.len() ==> #[trigger] entries[i].0@ != #[trigger] entries[j].0@
}

/// What a number is.
pub open spec fn number_tree(n: serde_json::Number) -> JsonTree {
    match number_integer(n) {
        Some(integer) => JsonTree::Integer(integer as int),
        None => JsonTree::Float(n),
    }
}

impl Node {
    /// What the opened value holds.
    pub open spec fn tree(self) -> JsonTree {
        match self {
            Node::Null => JsonTree::Null,
            Node::Bool(b) => JsonTree::Bool(b),
            Node::Number(n) => number_tree(n),
            Node::Text(s) => JsonTree::Text(s@),
            Node::Array(values) => JsonTree::Array(value_items(values@)),
            Node::Object(entries) => JsonTree::Object(value_fields(entries@)),
        }
    }
}

/// The variants of `serde_json::Value`, told apart: the node holds what the
/// value holds, each variant as its own. The entries of an object come as its
/// `into_iter` hands them out, each key once.
#[verifier::external_body]
fn open_value(value: serde_json::Value) -> (node: Node)
    ensures
        node.tree() == value_tree(value),
        node matches Node::Object(entries) ==> keys_differ(entries@),
{
    match value {
        serde_json::Value::Null => Node::Null,
        serde_json::Value::Bool(b) => Node::Bool(b),
        serde_json::Value::Number(n) => Node::Number(n),
        serde_json::Value::String(s) => Node::Text(s),
        serde_json::Value::Array(values) => Node::Array(values),
        serde_json::Value::Object(entries) => Node::Object(entries.into_iter().collect()),
    }
}

/// The variants of `serde_json::Value`, put together: the value holds what the
/// node holds. Entries, each with a key of its own, are collected into a
/// `serde_json::Map`, which then holds them all.
#[verifier::external_body]
fn close_value(node: Node) -> (value: serde_json::Value)
    requires
        node matches Node::Object(entries) ==> keys_differ(entries@),
    ensures
        value_tree(value) == node.tree(),
{
    match node {
        Node::Null => serde_json::Value::Null,
        Node::Bool(b) => serde_json::Value::Bool(b),
        Node::Number(n) => serde_json::Value::Number(n),
        Node::Text(s) => serde_json::Value::String(s),
        Node::Array(values) => serde_json::Value::Array(values),
        Node::Object(entries) => serde_json::Value::Object(entries.into_iter().collect()),
    }
}

/// `serde_json::from_str` into a `serde_json::Value`: the text alone decides
/// whether it is JSON and what value it is.
#[verifier::external_body]
fn value_from_text(text: &str) -> (value: Result<serde_json::Value, serde_json::Error>)
    ensures
        value is Ok == parsed_json(text@) is Some,
        value matches Ok(v) ==> parsed_json(text@) == Some(value_tree(v)),
{
    serde_json::from_str(text)
}

/// `serde_json::to_string` of a `serde_json::Value`: it does not fail, and what
/// the value holds alone decides its text. The text is on one line, without a
/// control character; that of an object stands between braces. It is read back
/// as the value where its nesting is within what the reader allows and each
/// float in it is read back: nothing else in a value is lost on the way.
#[verifier::external_body]
fn value_to_text(value: &serde_json::Value) -> (text: Result<String, serde_json::Error>)
    ensures
        text is Ok,
        text matches Ok(s) ==> s@ == printed_json(value_tree(*value)),
        text matches Ok(s) ==> forall|i: int| 0 <= i < s@.len() ==> #[trigger] s@[i] >= ' ',
        text matches Ok(s) ==> (value_tree(*value) is Object ==> s@.len() >= 2 && s@[0] == '{'
            && s@.last() == '}'),
        text matches Ok(s) ==> (value_tree(*value).reads_back() ==> parsed_json(s@) == Some(
            value_tree(*value),
        )),
{
    serde_json::to_string(value)
}

/// An entry whose key no other entry has stands in the map.
proof fn lemma_value_fields(entries: Seq<(String, serde_json::Value)>, i: int)
    requires
        keys_differ(entries),
        0 <= i < entries.len(),
    ensures
        value_fields(entries).dom().finite(),
        value_fields(entries).contains_key(entries[i].0@),
        value_fields(entries)[entries[i].0@] == value_tree(entries[i].1),
    decreases entries.len(),
{
    let rest = entries.drop_last();
    lemma_value_fields_finite(rest);
    if i < rest.len() {
        assert(keys_differ(rest)) by {
            assert forall|a: int, b: int| 0 <= a < b < rest.len() implies #[trigger] rest[a].0@
                != #[trigger] rest[b].0@ by {
                assert(rest[a] == entries[a] && rest[b] == entries[b]);
            }
        }
        lemma_value_fields(rest, i);
        assert(rest[i] == entries[i]);
        assert(entries[i].0@ != entries[entries.len() - 1].0@);
    }
}

proof fn lemma_value_fields_finite(entries: Seq<(String, serde_json::Value)>)
    ensures
        value_fields(entries).dom().finite(),
    decreases entries.len(),
{
    if entries.len() > 0 {
        lemma_value_fields_finite(entries.drop_last());
    }
}

/// The value that is the number `n`.
pub fn number_value(n: serde_json::Number) -> (value: Json)
    ensures
        value@ == number_tree(n),
{
    match n.as_i128() {
        Some(integer) => if integer >= 0 {
            Json::Unsigned(integer as u64)
        } else {
            Json::Signed(integer as i64)
        },
        None => Json::Float(Float { number: n }),
    }
}

/// `value`, level by level, as a value of this library.
fn json_from_value(value: serde_json::Value) -> (json: Json)
    ensures
        json@ == value_tree(value),
    decreases value_tree(value),
{
    match open_value(value) {
        Node::Null => Json::Null,
        Node::Bool(b) => Json::Bool(b),
        Node::Number(n) => number_value(n),
        Node::Text(s) => Json::Text(s),
        Node::Array(values) => {
            let ghost all = values@;
            let mut items: Vec<Json> = Vec::new();
            for v in it: values
                invariant
                    it.seq() == all,
                    value_tree(value) == JsonTree::Array(value_items(all)),
                    item_trees(items@) == value_items(all).take(it.index()),
            {
                assert(decreases_to!(value_tree(value) => value_tree(value)->Array_0));
                assert(decreases_to!(value_items(all) => value_items(all)[it.index()]));
                let item = json_from_value(v);
                put_item(&mut items, item);
                assert(item_trees(items@) =~= value_items(all).take(it.index() + 1));
            }
            assert(value_items(all).take(all.len() as int) =~= value_items(all));
            Json::Array(items)
        },
        Node::Object(entries) => {
            let ghost all = entries@;
            let mut fields: Vec<(String, Json)> = Vec::new();
            assert(all.take(0) =~= Seq::empty());
            for entry in it: entries
                invariant
                    it.seq() == all,
                    keys_differ(all),
                    value_tree(value) == JsonTree::Object(value_fields(all)),
                    field_trees(fields@) == value_fields(all.take(it.index())),
            {
                proof {
                    lemma_value_fields(all, it.index());
                    assert(decreases_to!(value_tree(value) => value_tree(value)->Object_0));
                    assert(decreases_to!(value_fields(all) => value_fields(all)[all[it.index()].0@]));
                    assert(all.take(it.index() + 1).drop_last() =~= all.take(it.index()));
                }
                let (key, v) = entry;
                let field = json_from_value(v);
                put_field(&mut fields, key.as_str(), field);
            }
            assert(all.take(all.len() as int) =~= all);
            Json::Object(fields)
        },
    }
}

/// A key stands in the map exactly when an entry has it.
proof fn lemma_value_fields_key(entries: Seq<(String, serde_json::Value)>, key: Seq<char>)
    ensures
        value_fields(entries).contains_key(key) <==> exists|i: int|
            0 <= i < entries.len() && #[trigger] entries[i].0@ == key,
    decreases entries.len(),
{
    if entries.len() > 0 {
        let rest = entries.drop_last();
        lemma_value_fields_key(rest, key);
        if entries.last().0@ == key {
            assert(entries[entries.len() - 1].0@ == key);
        }
        if value_fields(rest).contains_key(key) {
            let i = choose|i: int| 0 <= i < rest.len() && #[trigger] rest[i].0@ == key;
            assert(entries[i].0@ == key);
        }
        if exists|i: int| 0 <= i < entries.len() && #[trigger] entries[i].0@ == key {
            let i = choose|i: int| 0 <= i < entries.len() && #[trigger] entries[i].0@ == key;
            if i < rest.len() {
                assert(rest[i].0@ == key);
            }
        }
    }
}

/// Whether one of the entries has the key `key`.
fn has_key(entries: &Vec<(String, serde_json::Value)>, key: &str) -> (found: bool)
    ensures
        found == value_fields(entries@).contains_key(key@),
        !found ==> forall|i: int| 0 <= i < entries@.len() ==> #[trigger] entries@[i].0@ != key@,
{
    proof {
        lemma_value_fields_key(entries@, key@);
    }
    let mut at: usize = 0;
    while at < entries.len()
        invariant
            at <= entries@.len(),
            forall|i: int| 0 <= i < at ==> #[trigger] entries@[i].0@ != key@,
            value_fields(entries@).contains_key(key@) <==> exists|i: int|
                0 <= i < entries@.len() && #[trigger] entries@[i].0@ == key@,
        decreases entries@.len() - at,
    {
        if same_text(entries[at].0.as_str(), key) {
            assert(entries@[at as int].0@ == key@);
            return true;
        }
        at += 1;
    }
    false
}

/// `json`, level by level, as a `serde_json::Value`. Of two fields with one key
/// the later goes into it.
fn value_from_json(json: &Json) -> (value: serde_json::Value)
    ensures
        value_tree(value) == json@,
    decreases json,
{
    match json {
        Json::Null => close_value(Node::Null),
        Json::Bool(b) => close_value(Node::Bool(*b)),
        Json::Unsigned(i) => close_value(Node::Number(number_from_u64(*i))),
        Json::Signed(i) => close_value(Node::Number(number_from_i64(*i))),
        Json::Float(f) => {
            proof {
                use_type_invariant(f);
            }
            close_value(Node::Number(f.number.clone()))
        },
        Json::Text(s) => close_value(Node::Text(s.clone())),
        Json::Array(items) => {
            let mut values: Vec<serde_json::Value> = Vec::new();
            let mut at: usize = 0;
            assert(items@.take(0) =~= Seq::empty());
            assert(value_items(values@) =~= Seq::empty());
            while at < items.len()
                invariant
                    at <= items@.len(),
                    *json == Json::Array(*items),
                    value_items(values@) == item_trees(items@.take(at as int)),
                decreases items@.len() - at,
            {
                assert(decreases_to!(*json => json->Array_0));
                assert(decreases_to!(items => items@[at as int]));
                let ghost before = values@;
                let value = value_from_json(&items[at]);
                values.push(value);
                at += 1;
                assert(items@.take(at as int).drop_last() =~= items@.take(at - 1));
                assert(value_items(values@) =~= value_items(before).push(value_tree(value)));
            }
            assert(items@.take(at as int) =~= items@);
            close_value(Node::Array(values))
        },
        Json::Object(fields) => {
            let mut entries: Vec<(String, serde_json::Value)> = Vec::new();
            let mut left: usize = fields.len();
            assert(fields@.take(left as int) =~= fields@);
            assert(field_trees(fields@).union_prefer_right(value_fields(entries@)) =~= field_trees(
                fields@,
            ));
            while left > 0
                invariant
                    left <= fields@.len(),
                    *json == Json::Object(*fields),
                    keys_differ(entries@),
                    field_trees(fields@.take(left as int)).union_prefer_right(
                        value_fields(entries@),
                    ) == field_trees(fields@),
                decreases left,
            {
                left -= 1;
                assert(fields@.take(left + 1).drop_last() =~= fields@.take(left as int));
                let ghost earlier = field_trees(fields@.take(left as int));
                let ghost before = entries@;
                let key = &fields[left].0;
                if has_key(&entries, key.as_str()) {
                    assert(earlier.union_prefer_right(value_fields(before)) =~= field_trees(
                        fields@.take(left + 1),
                    ).union_prefer_right(value_fields(before)));
                } else {
                    assert(decreases_to!(*json => json->Object_0));
                    assert(decreases_to!(fields => fields@[left as int]));
                    assert(decreases_to!(fields@[left as int] => fields@[left as int].1));
                    let value = value_from_json(&fields[left].1);
                    entries.push((key.clone(), value));
                    assert(entries@.drop_last() =~= before);
                    assert(earlier.union_prefer_right(value_fields(entries@)) =~= field_trees(
                        fields@.take(left + 1),
                    ).union_prefer_right(value_fields(before)));
                }
            }
            assert(field_trees(fields@.take(0)).union_prefer_right(value_fields(entries@))
                =~= value_fields(entries@));
            close_value(Node::Object(entries))
        },
    }
}

/// Reads a JSON text; `None` if it is not JSON.
pub fn parse_json(text: &str) -> (json: Option<Json>)
    ensures
        json is Some == parsed_json(text@) is Some,
        json matches Some(j) ==> parsed_json(text@) == Some(j@),
{
    match value_from_text(text) {
        Ok(value) => Some(json_from_value(value)),
        Err(_) => None,
    }
}

/// The JSON text of a value, on one line. It is read back as the value where no
/// more levels are nested than are read and each float in it is read back.
pub fn print_json(json: &Json) -> (text: String)
    ensures
        text@ == printed_json(json@),
        forall|i: int| 0 <= i < text@.len() ==> #[trigger] text@[i] >= ' ',
        json@ is Object ==> text@.len() >= 2 && text@[0] == '{' && text@.last() == '}',
        json@.reads_back() ==> parsed_json(text@) == Some(json@),
{
    match value_to_text(&value_from_json(json)) {
        Ok(text) => text,
        Err(_) => String::new(),
    }
}

// ---------------------------------------------------------------------------
// Laws
// ---------------------------------------------------------------------------

/// A value is its null, truth value, number or text, and an array is its items,
/// all of them and in order.
pub proof fn law_values_are_what_they_hold(
    b: bool,
    unsigned: u64,
    signed: i64,
    float: Float,
    s: String,
    items: Vec<Json>,
)
    ensures
        Json::Null@ == JsonTree::Null,
        Json::Bool(b)@ == JsonTree::Bool(b),
        Json::Unsigned(unsigned)@ == JsonTree::Integer(unsigned as int),
        Json::Signed(signed)@ == JsonTree::Integer(signed as int),
        Json::Float(float)@ == JsonTree::Float(float.number()),
        Json::Text(s)@ == JsonTree::Text(s@),
        Json::Array(items)@ == JsonTree::Array(Seq::new(items@.len(), |i: int| items@[i]@)),
{
    lemma_item_trees(items@);
    assert(item_trees(items@) =~= Seq::new(items@.len(), |i: int| items@[i]@));
}

/// An object has under a key what the last field with that key holds, and nothing
/// under a key that no field has.
pub proof fn law_last_field_counts(fields: Vec<(String, Json)>, key: Seq<char>)
    ensures
        forall|i: int|
            0 <= i < fields@.len() && #[trigger] fields@[i].0@ == key && (forall|j: int|
                i < j < fields@.len() ==> #[trigger] fields@[j].0@ != key) ==> Json::Object(
                fields,
            )@.field(key) == Some(fields@[i].1@),
        (forall|i: int| 0 <= i < fields@.len() ==> #[trigger] fields@[i].0@ != key)
            ==> Json::Object(fields)@.field(key) is None,
{
    assert forall|i: int|
        0 <= i < fields@.len() && #[trigger] fields@[i].0@ == key && (forall|j: int|
            i < j < fields@.len() ==> #[trigger] fields@[j].0@ != key) implies Json::Object(
        fields,
    )@.field(key) == Some(fields@[i].1@) by {
        lemma_field_trees_last(fields@, key, i);
    }
    if forall|i: int| 0 <= i < fields@.len() ==> #[trigger] fields@[i].0@ != key {
        lemma_field_trees_none(fields@, key);
    }
}

proof fn lemma_field_trees_last(fields: Seq<(String, Json)>, key: Seq<char>, i: int)
    requires
        0 <= i < fields.len(),
        fields[i].0@ == key,
        forall|j: int| i < j < fields.len() ==> #[trigger] fields[j].0@ != key,
    ensures
        field_trees(fields).contains_key(key),
        field_trees(fields)[key] == fields[i].1@,
    decreases fields.len(),
{
    if i < fields.len() - 1 {
        let rest = fields.drop_last();
        assert forall|j: int| i < j < rest.len() implies #[trigger] rest[j].0@ != key by {
            assert(fields[j].0@ != key);
        }
        assert(fields[fields.len() - 1].0@ != key);
        lemma_field_trees_last(rest, key, i);
    }
}

proof fn lemma_field_trees_none(fields: Seq<(String, Json)>, key: Seq<char>)
    requires
        forall|i: int| 0 <= i < fields.len() ==> #[trigger] fields[i].0@ != key,
    ensures
        !field_trees(fields).contains_key(key),
    decreases fields.len(),
{
    if fields.len() > 0 {
        let rest = fields.drop_last();
        assert forall|i: int| 0 <= i < rest.len() implies #[trigger] rest[i].0@ != key by {
            assert(fields[i].0@ != key);
        }
        assert(fields[fields.len() - 1].0@ != key);
        lemma_field_trees_none(rest, key);
    }
}

/// A field is looked up by its key alone, and only an object has fields; only a
/// text is a text.
pub proof fn law_fields_and_texts(fields: Map<Seq<char>, JsonTree>, key: Seq<char>, tree: JsonTree)
    ensures
        fields.contains_key(key) ==> JsonTree::Object(fields).field(key) == Some(fields[key]),
        !fields.contains_key(key) ==> JsonTree::Object(fields).field(key) is None,
        !(tree is Object) ==> tree.field(key) is None,
        JsonTree::Text(key).text() == Some(key),
        !(tree is Text) ==> tree.text() is None,
{
}

/// What is read back from its own text: null, truth values, integers and texts at
/// any depth; an array and an object whose parts are, with one level more.
pub proof fn law_parts_read_back_make_a_whole(
    b: bool,
    integer: int,
    text: Seq<char>,
    items: Seq<JsonTree>,
    fields: Map<Seq<char>, JsonTree>,
    levels: nat,
)
    ensures
        JsonTree::Null.reads_back_within(levels),
        JsonTree::Bool(b).reads_back_within(levels),
        JsonTree::Integer(integer).reads_back_within(levels),
        JsonTree::Text(text).reads_back_within(levels),
        (forall|i: int| 0 <= i < items.len() ==> (#[trigger] items[i]).reads_back_within(levels))
            ==> JsonTree::Array(items).reads_back_within(levels + 1),
        (forall|key: Seq<char>|
            fields.contains_key(key) ==> (#[trigger] fields[key]).reads_back_within(levels))
            ==> JsonTree::Object(fields).reads_back_within(levels + 1),
        JsonTree::Array(items).reads_back_within(127) ==> JsonTree::Array(items).reads_back(),
        JsonTree::Object(fields).reads_back_within(127) ==> JsonTree::Object(fields).reads_back(),
{
}

/// What has no floats: null, truth values, integers and texts at any depth; an
/// array and an object whose parts have none, with one level more.
pub proof fn law_parts_without_floats_make_a_whole(
    b: bool,
    integer: int,
    text: Seq<char>,
    items: Seq<JsonTree>,
    fields: Map<Seq<char>, JsonTree>,
    levels: nat,
)
    ensures
        JsonTree::Null.float_free_within(levels),
        JsonTree::Bool(b).float_free_within(levels),
        JsonTree::Integer(integer).float_free_within(levels),
        JsonTree::Text(text).float_free_within(levels),
        (forall|i: int| 0 <= i < items.len() ==> (#[trigger] items[i]).float_free_within(levels))
            ==> JsonTree::Array(items).float_free_within(levels + 1),
        (forall|key: Seq<char>|
            fields.contains_key(key) ==> (#[trigger] fields[key]).float_free_within(levels))
            ==> JsonTree::Object(fields).float_free_within(levels + 1),
{
}

/// A number that is an integer is that integer.
pub proof fn law_number_is_its_integer(n: serde_json::Number)
    ensures
        number_integer(n) matches Some(i) ==> number_tree(n) == JsonTree::Integer(i as int),
        number_integer(n) is None ==> number_tree(n) == JsonTree::Float(n),
{
}

} // verus!
