//! JSON documents, as the tree of plain values that the rest of the library reads.
use vstd::prelude::*;
use vstd::string::*;

use crate::text::text_eq;

verus! {

/// A JSON number: its value where it is an integer of 64 bits, and its decimal text.
pub struct JsonNumber {
    pub integer: Option<i64>,
    pub text: String,
}

/// A JSON value. The fields of an object stand in the order in which they are held.
pub enum Json {
    Null,
    Bool(bool),
    Number(JsonNumber),
    Text(String),
    List(Vec<Json>),
    Object(Vec<(String, Json)>),
}

/// What a JSON value says.
pub enum JsonView {
    Null,
    Bool(bool),
    Number(Option<i64>, Seq<char>),
    Text(Seq<char>),
    List(Seq<JsonView>),
    Object(Seq<(Seq<char>, JsonView)>),
}

/// What a JSON value says.
pub open spec fn json_view(j: Json) -> JsonView
    decreases j,
{
    match j {
        Json::Null => JsonView::Null,
        Json::Bool(b) => JsonView::Bool(b),
        Json::Number(n) => JsonView::Number(n.integer, n.text@),
        Json::Text(s) => JsonView::Text(s@),
        Json::List(v) => JsonView::List(
            Seq::new(
                v@.len(),
                |i: int|
                    if 0 <= i < v@.len() {
                        json_view(v@[i])
                    } else {
                        JsonView::Null
                    },
            ),
        ),
        Json::Object(v) => JsonView::Object(
            Seq::new(
                v@.len(),
                |i: int|
                    if 0 <= i < v@.len() {
                        (v@[i].0@, json_view(v@[i].1))
                    } else {
                        (Seq::empty(), JsonView::Null)
                    },
            ),
        ),
    }
}

impl View for Json {
    type V = JsonView;

    open spec fn view(&self) -> JsonView {
        json_view(*self)
    }
}

/// The value of the first field with the name `key`.
pub open spec fn find_field(fields: Seq<(Seq<char>, JsonView)>, key: Seq<char>) -> Option<JsonView>
    decreases fields.len(),
{
    if fields.len() == 0 {
        None
    } else if fields[0].0 == key {
        Some(fields[0].1)
    } else {
        find_field(fields.skip(1), key)
    }
}

impl JsonView {
    /// The field `key` of an object; nothing of any other value.
    pub open spec fn field(self, key: Seq<char>) -> Option<JsonView> {
        match self {
            JsonView::Object(fields) => find_field(fields, key),
            _ => None,
        }
    }

    /// The field `inner` of the field `outer`.
    pub open spec fn nested(self, outer: Seq<char>, inner: Seq<char>) -> Option<JsonView> {
        match self.field(outer) {
            Some(v) => v.field(inner),
            None => None,
        }
    }
}

/// The boolean that an optional value is.
pub open spec fn opt_bool(v: Option<JsonView>) -> Option<bool> {
    match v {
        Some(JsonView::Bool(b)) => Some(b),
        _ => None,
    }
}

/// The text that an optional value is.
pub open spec fn opt_text(v: Option<JsonView>) -> Option<Seq<char>> {
    match v {
        Some(JsonView::Text(s)) => Some(s),
        _ => None,
    }
}

/// The integer that an optional value is.
pub open spec fn opt_int(v: Option<JsonView>) -> Option<i64> {
    match v {
        Some(JsonView::Number(i, _)) => i,
        _ => None,
    }
}

/// What an optional JSON value says.
pub open spec fn opt_view(v: Option<&Json>) -> Option<JsonView> {
    match v {
        Some(j) => Some(j@),
        None => None,
    }
}

impl Json {
    /// The field `key` of an object.
    pub fn field(&self, key: &str) -> (r: Option<&Json>)
        ensures
            opt_view(r) == self@.field(key@),
    {
        match self {
            Json::Object(fields) => {
                let ghost all = self@->Object_0;
                let mut i: usize = 0;
                proof {
                    assert(all.skip(0) =~= all);
                }
                while i < fields.len()
                    invariant
                        *self == Json::Object(*fields),
                        all == self@->Object_0,
                        all.len() == fields@.len(),
                        i <= fields@.len(),
                        find_field(all.skip(i as int), key@) == find_field(all, key@),
                    decreases fields@.len() - i,
                {
                    proof {
                        assert(all.skip(i as int)[0] == all[i as int]);
                        assert(all.skip(i as int).skip(1) =~= all.skip(i + 1));
                    }
                    if text_eq(fields[i].0.as_str(), key) {
                        return Some(&fields[i].1);
                    }
                    i = i + 1;
                }
                None
            },
            _ => None,
        }
    }

    /// The field `inner` of the field `outer`.
    pub fn nested(&self, outer: &str, inner: &str) -> (r: Option<&Json>)
        ensures
            opt_view(r) == self@.nested(outer@, inner@),
    {
        match self.field(outer) {
            Some(v) => v.field(inner),
            None => None,
        }
    }
}

/// The boolean that an optional value is.
pub fn bool_of(v: Option<&Json>) -> (r: Option<bool>)
    ensures
        r == opt_bool(opt_view(v)),
{
    match v {
        Some(Json::Bool(b)) => Some(*b),
        _ => None,
    }
}

/// The text that an optional value is.
pub fn text_of(v: Option<&Json>) -> (r: Option<String>)
    ensures
        crate::text::option_text(r) == opt_text(opt_view(v)),
{
    match v {
        Some(Json::Text(s)) => Some(s.clone()),
        _ => None,
    }
}

/// The integer that an optional value is.
pub fn int_of(v: Option<&Json>) -> (r: Option<i64>)
    ensures
        r == opt_int(opt_view(v)),
{
    match v {
        Some(Json::Number(n)) => n.integer,
        _ => None,
    }
}

/// The value type of `serde_json`, carried through as it is.
#[verifier::external_type_specification]
#[verifier::external_body]
pub struct ExValue(serde_json::Value);

/// What a value of `serde_json` holds.
pub uninterp spec fn json_tree(v: serde_json::Value) -> JsonView;

/// What the document that the bytes spell says; nothing where they spell none.
pub uninterp spec fn json_document(bytes: Seq<u8>) -> Option<JsonView>;

/// One level of a value of `serde_json`: the parts of lists and objects are such values again.
enum JsonNode {
    Null,
    Bool(bool),
    Number(JsonNumber),
    Text(String),
    List(Vec<serde_json::Value>),
    Object(Vec<(String, serde_json::Value)>),
}

/// What one level says, its parts taken for what they hold.
spec fn node_view(n: JsonNode) -> JsonView {
    match n {
        JsonNode::Null => JsonView::Null,
        JsonNode::Bool(b) => JsonView::Bool(b),
        JsonNode::Number(n) => JsonView::Number(n.integer, n.text@),
        JsonNode::Text(s) => JsonView::Text(s@),
        JsonNode::List(v) => JsonView::List(v@.map_values(|e: serde_json::Value| json_tree(e))),
        JsonNode::Object(v) => JsonView::Object(
            v@.map_values(|e: (String, serde_json::Value)| (e.0@, json_tree(e.1))),
        ),
    }
}

/// `serde_json::from_slice` into its own value type: the document that the bytes spell, or
/// nothing where they are no JSON. What the document says is named by `json_document`.
#[verifier::external_body]
fn json_value(bytes: &[u8]) -> (r: Option<serde_json::Value>)
    ensures
        r matches Some(v) ==> json_document(bytes@) == Some(json_tree(v)),
        r is None ==> json_document(bytes@) is None,
{
    serde_json::from_slice::<serde_json::Value>(bytes).ok()
}

/// Opens a value of `serde_json`: the level says what the value holds. A number comes with what
/// `Number::as_i64` gives and with the text that it is displayed as.
#[verifier::external_body]
fn json_node(v: serde_json::Value) -> (n: JsonNode)
    ensures
        node_view(n) == json_tree(v),
{
    match v {
        serde_json::Value::Null => JsonNode::Null,
        serde_json::Value::Bool(b) => JsonNode::Bool(b),
        serde_json::Value::Number(n) => JsonNode::Number(
            JsonNumber { integer: n.as_i64(), text: n.to_string() },
        ),
        serde_json::Value::String(s) => JsonNode::Text(s),
        serde_json::Value::Array(a) => JsonNode::List(a),
        serde_json::Value::Object(m) => JsonNode::Object(m.into_iter().collect()),
    }
}

fn to_json(v: serde_json::Value) -> (j: Json)
    ensures
        j@ == json_tree(v),
    decreases json_tree(v),
{
    let ghost tree = json_tree(v);
    match json_node(v) {
        JsonNode::Null => Json::Null,
        JsonNode::Bool(b) => Json::Bool(b),
        JsonNode::Number(n) => Json::Number(n),
        JsonNode::Text(s) => Json::Text(s),
        JsonNode::List(parts) => {
            let mut out: Vec<Json> = Vec::new();
            let ghost parts0 = parts@;
            let ghost want = tree->List_0;
            for part in it: parts
                invariant
                    it.seq() == parts0,
                    tree == json_tree(v),
                    tree == JsonView::List(want),
                    want == parts0.map_values(|e: serde_json::Value| json_tree(e)),
                    out@.len() == it.index(),
                    forall|k: int| 0 <= k < out@.len() ==> (#[trigger] out@[k])@ == want[k],
            {
                proof {
                    assert(want[out@.len() as int] == json_tree(part));
                    assert(decreases_to!(tree => tree->List_0));
                    assert(decreases_to!(want => want[out@.len() as int]));
                }
                out.push(to_json(part));
            }
            let j = Json::List(out);
            proof {
                assert(json_view(j)->List_0 =~= want);
            }
            j
        },
        JsonNode::Object(parts) => {
            let mut out: Vec<(String, Json)> = Vec::new();
            let ghost parts0 = parts@;
            let ghost want = tree->Object_0;
            for part in it: parts
                invariant
                    it.seq() == parts0,
                    tree == json_tree(v),
                    tree == JsonView::Object(want),
                    want == parts0.map_values(
                        |e: (String, serde_json::Value)| (e.0@, json_tree(e.1)),
                    ),
                    out@.len() == it.index(),
                    forall|k: int|
                        0 <= k < out@.len() ==> (#[trigger] out@[k]).0@ == want[k].0
                            && json_view(out@[k].1) == want[k].1,
            {
                proof {
                    assert(want[out@.len() as int] == (part.0@, json_tree(part.1)));
                    let entry = want[out@.len() as int];
                    assert(decreases_to!(tree => tree->Object_0));
                    assert(decreases_to!(want => want[out@.len() as int]));
                    assert(decreases_to!(entry => entry.1));
                }
                let (name, value) = part;
                out.push((name, to_json(value)));
            }
            let j = Json::Object(out);
            proof {
                assert(json_view(j)->Object_0 =~= want);
            }
            j
        },
    }
}

/// Reads a JSON document.
pub fn read_json(bytes: &[u8]) -> (r: Option<Json>)
    ensures
        (match r {
            Some(j) => Some(j@),
            None => None,
        }) == json_document(bytes@),
{
    match json_value(bytes) {
        Some(v) => Some(to_json(v)),
        None => None,
    }
}

} // verus!
