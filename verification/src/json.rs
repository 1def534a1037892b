//! JSON documents as plain values.

use vstd::prelude::*;

use crate::text::same;

verus! {

/// A parsed JSON document, as `serde_json` holds it.
#[verifier::external_type_specification]
#[verifier::external_body]
pub struct ExJsonValue(serde_json::Value);

/// A JSON value together with its compact text.
pub struct Json {
    pub text: String,
    pub node: JsonNode,
}

/// What a JSON value is.
pub enum JsonNode {
    Null,
    Bool(bool),
    /// A number, with its value when it is an unsigned integer.
    Number(Option<u64>),
    Str(String),
    Array(Vec<Json>),
    /// The members of an object, in the order in which the parser keeps them.
    Object(Vec<(String, Json)>),
}

/// The mathematical form of a [`Json`].
pub struct JsonView {
    pub text: Seq<char>,
    pub node: NodeView,
}

/// The mathematical form of a [`JsonNode`].
pub enum NodeView {
    Null,
    Bool(bool),
    Number(Option<u64>),
    Str(Seq<char>),
    Array(Seq<JsonView>),
    Object(Seq<(Seq<char>, JsonView)>),
}

/// The mathematical form of a JSON value.
pub open spec fn json_view(j: Json) -> JsonView
    decreases j,
{
    JsonView { text: j.text@, node: node_view(j.node) }
}

/// The mathematical form of what a JSON value is.
pub open spec fn node_view(n: JsonNode) -> NodeView
    decreases n,
{
    match n {
        JsonNode::Null => NodeView::Null,
        JsonNode::Bool(b) => NodeView::Bool(b),
        JsonNode::Number(n) => NodeView::Number(n),
        JsonNode::Str(s) => NodeView::Str(s@),
        JsonNode::Array(v) => NodeView::Array(
            Seq::new(
                v@.len(),
                |i: int|
                    if 0 <= i < v@.len() {
                        json_view(v@[i])
                    } else {
                        arbitrary()
                    },
            ),
        ),
        JsonNode::Object(v) => NodeView::Object(
            Seq::new(
                v@.len(),
                |i: int|
                    if 0 <= i < v@.len() {
                        (v@[i].0@, json_view(v@[i].1))
                    } else {
                        arbitrary()
                    },
            ),
        ),
    }
}

impl View for Json {
    type V = JsonView;

    open spec fn view(&self) -> JsonView {
        json_view(*self)
    }
}

/// The document that a `serde_json` value holds: its kind, its members or
/// elements in the order of iteration, and the text that it prints as.
pub uninterp spec fn json_contents(value: serde_json::Value) -> JsonView;

/// The document that `serde_json` reads from these bytes, or nothing where it
/// reports an error.
pub uninterp spec fn parsed_json(bytes: Seq<u8>) -> Option<JsonView>;

/// `serde_json::from_slice`: reads one JSON document from bytes. Which bytes
/// are accepted, and what they mean, depends on the bytes alone.
#[verifier::external_body]
fn read_value(bytes: &[u8]) -> (r: Option<serde_json::Value>)
    ensures
        match r {
            Some(v) => parsed_json(bytes@) == Some(json_contents(v)),
            None => parsed_json(bytes@) is None,
        },
{
    serde_json::from_slice::<serde_json::Value>(bytes).ok()
}

/// Takes a `serde_json::Value` apart, one variant for one: the number of a
/// `Number` is what `Number::as_u64` gives, the members of a map come in its
/// order, and the text is what the value's `Display` prints.
#[verifier::external_body]
fn plain(value: serde_json::Value) -> (r: Json)
    ensures
        r@ == json_contents(value),
{
    let text = value.to_string();
    let node = match value {
        serde_json::Value::Null => JsonNode::Null,
        serde_json::Value::Bool(b) => JsonNode::Bool(b),
        serde_json::Value::Number(n) => JsonNode::Number(n.as_u64()),
        serde_json::Value::String(s) => JsonNode::Str(s),
        serde_json::Value::Array(a) => JsonNode::Array(a.into_iter().map(plain).collect()),
        serde_json::Value::Object(o) => {
            JsonNode::Object(o.into_iter().map(|(k, v)| (k, plain(v))).collect())
        }
    };
    Json { text, node }
}

/// Reads one JSON document.
pub fn parse_json(bytes: &[u8]) -> (r: Option<Json>)
    ensures
        match r {
            Some(j) => parsed_json(bytes@) == Some(j@),
            None => parsed_json(bytes@) is None,
        },
{
    match read_value(bytes) {
        Some(v) => Some(plain(v)),
        None => None,
    }
}

/// The value of the first member named `key`.
pub open spec fn member(o: Seq<(Seq<char>, JsonView)>, key: Seq<char>) -> Option<JsonView>
    decreases o.len(),
{
    if o.len() == 0 {
        None
    } else if o[0].0 == key {
        Some(o[0].1)
    } else {
        member(o.subrange(1, o.len() as int), key)
    }
}

impl JsonView {
    /// The member `key` of an object.
    pub open spec fn get(self, key: Seq<char>) -> Option<JsonView> {
        match self.node {
            NodeView::Object(o) => member(o, key),
            _ => None,
        }
    }

    /// The text of a string.
    pub open spec fn string(self) -> Option<Seq<char>> {
        match self.node {
            NodeView::Str(s) => Some(s),
            _ => None,
        }
    }

    /// The elements of an array.
    pub open spec fn array(self) -> Option<Seq<JsonView>> {
        match self.node {
            NodeView::Array(a) => Some(a),
            _ => None,
        }
    }

    /// The first element of an array.
    pub open spec fn first(self) -> Option<JsonView> {
        match self.node {
            NodeView::Array(a) => if a.len() > 0 {
                Some(a[0])
            } else {
                None
            },
            _ => None,
        }
    }

    /// The value of a number that is an unsigned integer.
    pub open spec fn unsigned(self) -> Option<u64> {
        match self.node {
            NodeView::Number(n) => n,
            _ => None,
        }
    }
}

/// The member `key` of a document that may be missing.
pub open spec fn get_in(v: Option<JsonView>, key: Seq<char>) -> Option<JsonView> {
    match v {
        Some(j) => j.get(key),
        None => None,
    }
}

/// The first element of a document that may be missing.
pub open spec fn first_in(v: Option<JsonView>) -> Option<JsonView> {
    match v {
        Some(j) => j.first(),
        None => None,
    }
}

/// The text of a document that may be missing.
pub open spec fn string_in(v: Option<JsonView>) -> Option<Seq<char>> {
    match v {
        Some(j) => j.string(),
        None => None,
    }
}

/// What an optional reference to a document stands for.
pub open spec fn opt_json(v: Option<&Json>) -> Option<JsonView> {
    match v {
        Some(j) => Some(j@),
        None => None,
    }
}

impl Json {
    /// The member `key` of an object.
    pub fn get(&self, key: &str) -> (r: Option<&Json>)
        ensures
            opt_json(r) == self@.get(key@),
    {
        proof {
            reveal_with_fuel(json_view, 3);
            reveal_with_fuel(node_view, 3);
        }
        match &self.node {
            JsonNode::Object(o) => {
                let ghost all = self@.node->Object_0;
                let mut i: usize = 0;
                assert(all.subrange(0, all.len() as int) =~= all);
                while i < o.len()
                    invariant
                        i <= o@.len(),
                        all.len() == o@.len(),
                        self@.get(key@) == member(all, key@),
                        forall|k: int|
                            0 <= k < o@.len() ==> #[trigger] all[k] == (o@[k].0@, o@[k].1@),
                        member(all, key@) == member(all.subrange(i as int, all.len() as int), key@),
                    decreases o@.len() - i,
                {
                    let ghost rest = all.subrange(i as int, all.len() as int);
                    assert(rest[0] == all[i as int]);
                    if same(o[i].0.as_str(), key) {
                        return Some(&o[i].1);
                    }
                    assert(rest.subrange(1, rest.len() as int) =~= all.subrange(
                        i + 1,
                        all.len() as int,
                    ));
                    i += 1;
                }
                None
            },
            _ => None,
        }
    }

    /// The text of a string.
    pub fn as_str(&self) -> (r: Option<&str>)
        ensures
            match r {
                Some(s) => self@.string() == Some(s@),
                None => self@.string() is None,
            },
    {
        proof {
            reveal_with_fuel(json_view, 3);
            reveal_with_fuel(node_view, 3);
        }
        match &self.node {
            JsonNode::Str(s) => Some(s.as_str()),
            _ => None,
        }
    }

    /// The elements of an array.
    pub fn as_array(&self) -> (r: Option<&Vec<Json>>)
        ensures
            match r {
                Some(v) => self@.array() == Some(views(v@)),
                None => self@.array() is None,
            },
    {
        proof {
            reveal_with_fuel(json_view, 3);
            reveal_with_fuel(node_view, 3);
        }
        match &self.node {
            JsonNode::Array(v) => {
                assert(self@.node->Array_0 =~= views(v@));
                Some(v)
            },
            _ => None,
        }
    }

    /// The first element of an array.
    pub fn first(&self) -> (r: Option<&Json>)
        ensures
            opt_json(r) == self@.first(),
    {
        proof {
            reveal_with_fuel(json_view, 3);
            reveal_with_fuel(node_view, 3);
        }
        match &self.node {
            JsonNode::Array(v) => if v.len() > 0 {
                Some(&v[0])
            } else {
                None
            },
            _ => None,
        }
    }

    /// The value of a number that is an unsigned integer.
    pub fn as_u64(&self) -> (r: Option<u64>)
        ensures
            r == self@.unsigned(),
    {
        proof {
            reveal_with_fuel(json_view, 3);
            reveal_with_fuel(node_view, 3);
        }
        match &self.node {
            JsonNode::Number(n) => *n,
            _ => None,
        }
    }
}

/// The documents that a vector holds.
pub open spec fn views(v: Seq<Json>) -> Seq<JsonView> {
    Seq::new(v.len(), |i: int| v[i]@)
}

/// The member of a key is the first one of that key in an object, and none exactly
/// where no member has it.
pub proof fn member_is_the_one_of_its_key(o: Seq<(Seq<char>, JsonView)>, key: Seq<char>)
    ensures
        match member(o, key) {
            Some(v) => exists|i: int|
                0 <= i < o.len() && (#[trigger] o[i]).0 == key && o[i].1 == v && forall|j: int|
                    0 <= j < i ==> (#[trigger] o[j]).0 != key,
            None => forall|j: int| 0 <= j < o.len() ==> (#[trigger] o[j]).0 != key,
        },
    decreases o.len(),
{
    if o.len() > 0 && o[0].0 != key {
        let rest = o.subrange(1, o.len() as int);
        member_is_the_one_of_its_key(rest, key);
        match member(rest, key) {
            Some(v) => {
                let i = choose|i: int|
                    0 <= i < rest.len() && (#[trigger] rest[i]).0 == key && rest[i].1 == v
                        && forall|j: int| 0 <= j < i ==> (#[trigger] rest[j]).0 != key;
                assert(o[i + 1] == rest[i]);
                assert forall|j: int| 0 <= j < i + 1 implies (#[trigger] o[j]).0 != key by {
                    if j > 0 {
                        assert(o[j] == rest[j - 1]);
                    }
                }
            },
            None => {
                assert forall|j: int| 0 <= j < o.len() implies (#[trigger] o[j]).0 != key by {
                    if j > 0 {
                        assert(o[j] == rest[j - 1]);
                    }
                }
            },
        }
    }
}

} // verus!
