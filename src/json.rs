//! A JSON tree whose contents the verified code can read.
use vstd::prelude::*;

verus! {

/// One JSON value.
///
/// Integers that fit in an `i64` are held as such; any other number keeps
/// its decimal text. An object keeps its members in the order in which the
/// JSON reader hands them out, which is by name.
#[derive(Debug)]
pub enum JsonValue {
    Null,
    Bool(bool),
    Int(i64),
    Num(String),
    Str(String),
    Array(Vec<JsonValue>),
    Object(Vec<(String, JsonValue)>),
}

/// A JSON value as the specification sees it.
pub enum JsonTree {
    Null,
    Bool(bool),
    Int(i64),
    Num(Seq<char>),
    Str(Seq<char>),
    Array(Seq<JsonTree>),
    Object(Seq<(Seq<char>, JsonTree)>),
}

/// The trees of a sequence of values.
pub open spec fn items_tree(s: Seq<JsonValue>) -> Seq<JsonTree>
    decreases s,
{
    Seq::new(s.len(), |i: int| if 0 <= i < s.len() { tree_of(s[i]) } else { JsonTree::Null })
}

/// The names and trees of a sequence of members.
pub open spec fn members_tree(m: Seq<(String, JsonValue)>) -> Seq<(Seq<char>, JsonTree)>
    decreases m,
{
    Seq::new(m.len(), |i: int| if 0 <= i < m.len() { (m[i].0@, tree_of(m[i].1)) } else { (seq![], JsonTree::Null) })
}

pub open spec fn tree_of(v: JsonValue) -> JsonTree
    decreases v,
{
    match v {
        JsonValue::Null => JsonTree::Null,
        JsonValue::Bool(b) => JsonTree::Bool(b),
        JsonValue::Int(i) => JsonTree::Int(i),
        JsonValue::Num(s) => JsonTree::Num(s@),
        JsonValue::Str(s) => JsonTree::Str(s@),
        JsonValue::Array(items) => JsonTree::Array(items_tree(items@)),
        JsonValue::Object(m) => JsonTree::Object(members_tree(m@)),
    }
}

/// The tree of each item is the view of that item.
pub broadcast proof fn lemma_items_tree(s: Seq<JsonValue>, i: int)
    requires
        0 <= i < s.len(),
    ensures
        items_tree(s).len() == s.len(),
        #[trigger] items_tree(s)[i] == s[i]@,
{
}

/// The tree of each member is its name and the view of its value.
pub broadcast proof fn lemma_members_tree(m: Seq<(String, JsonValue)>, i: int)
    requires
        0 <= i < m.len(),
    ensures
        members_tree(m).len() == m.len(),
        #[trigger] members_tree(m)[i] == (m[i].0@, m[i].1@),
{
}

/// There are as many item trees as items.
pub broadcast proof fn lemma_items_len(s: Seq<JsonValue>)
    ensures
        #[trigger] items_tree(s).len() == s.len(),
{
}

/// There are as many member trees as members.
pub broadcast proof fn lemma_members_len(m: Seq<(String, JsonValue)>)
    ensures
        #[trigger] members_tree(m).len() == m.len(),
{
}

impl View for JsonValue {
    type V = JsonTree;

    open spec fn view(&self) -> JsonTree {
        tree_of(*self)
    }
}

/// An array of the given items.
pub fn array_value(items: Vec<JsonValue>) -> (r: JsonValue)
    ensures
        r@ == JsonTree::Array(items_tree(items@)),
{
    JsonValue::Array(items)
}

/// An object of the given members.
pub fn object_value(members: Vec<(String, JsonValue)>) -> (r: JsonValue)
    ensures
        r@ == JsonTree::Object(members_tree(members@)),
{
    JsonValue::Object(members)
}

/// The value of the first member named `key`, if there is one.
pub open spec fn lookup(members: Seq<(Seq<char>, JsonTree)>, key: Seq<char>) -> Option<JsonTree>
    decreases members.len(),
{
    if members.len() == 0 {
        None
    } else if members[0].0 == key {
        Some(members[0].1)
    } else {
        lookup(members.drop_first(), key)
    }
}

/// The member `key` of `v`, where `v` is an object that has one.
pub open spec fn member(v: JsonTree, key: Seq<char>) -> Option<JsonTree> {
    match v {
        JsonTree::Object(m) => lookup(m, key),
        _ => None,
    }
}

/// Looks up the first member named `key`.
pub fn find_member<'a>(members: &'a Vec<(String, JsonValue)>, key: &str) -> (r: Option<&'a JsonValue>)
    ensures
        r is None <==> lookup(members_tree(members@), key@) is None,
        r is Some ==> (*r->0)@ == lookup(members_tree(members@), key@)->0,
{
    let ghost t = members_tree(members@);
    let wanted = key.to_owned();
    let mut i: usize = 0;
    assert(t.subrange(0, t.len() as int) =~= t);
    while i < members.len()
        invariant
            0 <= i <= members@.len(),
            t == members_tree(members@),
            wanted@ == key@,
            lookup(t, key@) == lookup(t.subrange(i as int, t.len() as int), key@),
        decreases members@.len() - i,
    {
        let ghost rest = t.subrange(i as int, t.len() as int);
        assert(rest[0] == t[i as int]);
        if members[i].0 == wanted {
            return Some(&members[i].1);
        }
        assert(rest.drop_first() =~= t.subrange(i + 1, t.len() as int));
        i = i + 1;
    }
    None
}

/// Why the bytes of one element do not give a JSON tree.
#[derive(Debug, Clone, Copy, PartialEq, Eq, Structural)]
pub enum ElementError {
    /// The bytes are not one JSON value.
    InvalidJson,
}

#[verifier::external_type_specification]
#[verifier::external_body]
pub struct ExJson(serde_json::Value);

#[verifier::external_type_specification]
#[verifier::external_body]
pub struct ExNumber(serde_json::Number);

#[verifier::external_type_specification]
#[verifier::external_body]
pub struct ExJsonError(serde_json::Error);

/// The JSON reader accepts the bytes as a single JSON value, with nothing but
/// whitespace around it (within its own limits, such as nesting at most 128
/// levels deep).
pub uninterp spec fn is_json_text(b: Seq<u8>) -> bool;

/// The tree that the JSON reader reads from the bytes.
pub uninterp spec fn json_tree(b: Seq<u8>) -> JsonTree;

/// The tree that a `serde_json::Value` holds.
pub uninterp spec fn value_tree(v: serde_json::Value) -> JsonTree;

/// The number that a `serde_json::Number` holds.
pub uninterp spec fn number_tree(n: serde_json::Number) -> JsonTree;

/// Relies on serde_json::from_slice into a `Value`: whether it succeeds, and
/// the value it reads, depend on the bytes alone.
#[verifier::external_body]
fn read_json(b: &[u8]) -> (r: Result<serde_json::Value, serde_json::Error>)
    ensures
        r is Ok <==> is_json_text(b@),
        r matches Ok(v) ==> value_tree(v) == json_tree(b@),
{
    serde_json::from_slice(b)
}

/// The outermost layer of a `serde_json::Value`.
enum Layer<'a> {
    Null,
    Bool(bool),
    Number(&'a serde_json::Number),
    Str(&'a String),
    Array(&'a Vec<serde_json::Value>),
    Object(Vec<(&'a String, &'a serde_json::Value)>),
}

/// Relies on the variants of serde_json::Value, and on iterating a
/// serde_json::Map, to take one layer off a value: each variant holds its
/// contents, and an object's iterator hands out each member once.
#[verifier::external_body]
fn layer(v: &serde_json::Value) -> (r: Layer<'_>)
    ensures
        match r {
            Layer::Null => value_tree(*v) == JsonTree::Null,
            Layer::Bool(b) => value_tree(*v) == JsonTree::Bool(b),
            Layer::Number(n) => value_tree(*v) == number_tree(*n),
            Layer::Str(s) => value_tree(*v) == JsonTree::Str(s@),
            Layer::Array(items) => value_tree(*v) == JsonTree::Array(
                Seq::new(items@.len(), |i: int| value_tree(items@[i])),
            ),
            Layer::Object(m) => value_tree(*v) == JsonTree::Object(
                Seq::new(m@.len(), |i: int| (m@[i].0@, value_tree(*m@[i].1))),
            ),
        },
{
    match v {
        serde_json::Value::Null => Layer::Null,
        serde_json::Value::Bool(b) => Layer::Bool(*b),
        serde_json::Value::Number(n) => Layer::Number(n),
        serde_json::Value::String(s) => Layer::Str(s),
        serde_json::Value::Array(a) => Layer::Array(a),
        serde_json::Value::Object(m) => Layer::Object(m.iter().collect()),
    }
}

/// Relies on serde_json::Number::as_i64, which gives the number where it is
/// an integer that fits in an `i64`, and nothing otherwise.
pub assume_specification[ serde_json::Number::as_i64 ](n: &serde_json::Number) -> (r: Option<i64>)
    ensures
        r matches Some(i) ==> number_tree(*n) == JsonTree::Int(i),
        r is None ==> number_tree(*n) is Num,
;

/// Relies on serde_json::Number's `Display`: the decimal text of the number.
#[verifier::external_body]
fn number_text(n: &serde_json::Number) -> (r: String)
    ensures
        number_tree(*n) is Num ==> number_tree(*n) == JsonTree::Num(r@),
{
    n.to_string()
}

/// Converts a `serde_json::Value` into the tree it holds.
fn convert(v: &serde_json::Value) -> (r: JsonValue)
    ensures
        r@ == value_tree(*v),
    decreases value_tree(*v),
{
    match layer(v) {
        Layer::Null => JsonValue::Null,
        Layer::Bool(b) => JsonValue::Bool(b),
        Layer::Number(n) => match n.as_i64() {
            Some(i) => JsonValue::Int(i),
            None => JsonValue::Num(number_text(n)),
        },
        Layer::Str(s) => JsonValue::Str(s.clone()),
        Layer::Array(items) => {
            let ghost whole = value_tree(*v);
            let ghost want = Seq::new(items@.len(), |i: int| value_tree(items@[i]));
            let mut out: Vec<JsonValue> = Vec::new();
            let mut i: usize = 0;
            while i < items.len()
                invariant
                    whole == value_tree(*v),
                    whole == JsonTree::Array(want),
                    want == Seq::new(items@.len(), |i: int| value_tree(items@[i])),
                    i <= items@.len(),
                    out@.len() == i,
                    forall|j: int| 0 <= j < i ==> (#[trigger] out@[j])@ == want[j],
                decreases items@.len() - i,
            {
                proof {
                    assert(want[i as int] == value_tree(items@[i as int]));
                    assert(decreases_to!(whole => whole->Array_0));
                    assert(decreases_to!(whole->Array_0 => whole->Array_0[i as int]));
                    assert(decreases_to!(whole => value_tree(items@[i as int])));
                }
                let x = convert(&items[i]);
                out.push(x);
                i = i + 1;
            }
            let r = JsonValue::Array(out);
            assert(items_tree(out@) =~= want);
            r
        },
        Layer::Object(members) => {
            let ghost whole = value_tree(*v);
            let ghost want = Seq::new(members@.len(), |i: int| (members@[i].0@, value_tree(*members@[i].1)));
            let mut out: Vec<(String, JsonValue)> = Vec::new();
            let mut i: usize = 0;
            while i < members.len()
                invariant
                    whole == value_tree(*v),
                    whole == JsonTree::Object(want),
                    want == Seq::new(members@.len(), |i: int| (members@[i].0@, value_tree(*members@[i].1))),
                    i <= members@.len(),
                    out@.len() == i,
                    forall|j: int| 0 <= j < i ==> (#[trigger] out@[j]).0@ == want[j].0 && out@[j].1@ == want[j].1,
                decreases members@.len() - i,
            {
                let (k, x) = members[i];
                proof {
                    assert(want[i as int].1 == value_tree(*x));
                    assert(decreases_to!(whole => whole->Object_0));
                    assert(decreases_to!(whole->Object_0 => whole->Object_0[i as int]));
                    assert(decreases_to!(whole->Object_0[i as int] => whole->Object_0[i as int].1));
                    assert(decreases_to!(whole => value_tree(*x)));
                }
                let y = convert(x);
                out.push((k.clone(), y));
                i = i + 1;
            }
            let r = JsonValue::Object(out);
            assert(members_tree(out@) =~= want);
            r
        },
    }
}

/// Reads the bytes of one array element into a JSON tree.
pub fn parse_element(bytes: &[u8]) -> (r: Result<JsonValue, ElementError>)
    ensures
        r is Ok <==> is_json_text(bytes@),
        r matches Ok(t) ==> t@ == json_tree(bytes@),
        r is Err ==> r == Err::<JsonValue, ElementError>(ElementError::InvalidJson),
{
    match read_json(bytes) {
        Err(_) => Err(ElementError::InvalidJson),
        Ok(v) => Ok(convert(&v)),
    }
}

} // verus!
