//! JSON documents and UTF-8 text read into CLASP values, and the fields
//! of a JSON object.
use vstd::prelude::*;
use vstd::utf8::{decode_utf8, valid_utf8};
use crate::value::{dict_get, dict_lookup, lemma_dict_find_bounds, ClaspValue, ValueModel};

verus! {

/// A JSON value as `serde_json` reads it, variant for variant; a number
/// carries what `as_i64` and `as_f64` give for it (the latter as the bits
/// of the `f64`).
#[derive(Debug)]
pub enum JsonNode {
    Null,
    Bool(bool),
    Number { integer: Option<i64>, float_bits: Option<u64> },
    Str(String),
    Array(Vec<JsonNode>),
    Object(Vec<(String, JsonNode)>),
}

/// The mathematical model of a [`JsonNode`].
#[verifier::ext_equal]
pub enum JsonModel {
    Null,
    Bool(bool),
    Number { integer: Option<int>, float_bits: Option<u64> },
    Str(Seq<char>),
    Array(Seq<JsonModel>),
    Object(Seq<(Seq<char>, JsonModel)>),
}

impl JsonNode {
    /// The model of this node: strings by their characters, vectors by
    /// their contents.
    pub open spec fn model(&self) -> JsonModel
        decreases self,
    {
        match self {
            JsonNode::Null => JsonModel::Null,
            JsonNode::Bool(b) => JsonModel::Bool(*b),
            JsonNode::Number { integer, float_bits } => JsonModel::Number {
                integer: match integer {
                    Some(i) => Some(*i as int),
                    None => None,
                },
                float_bits: *float_bits,
            },
            JsonNode::Str(s) => JsonModel::Str(s@),
            JsonNode::Array(a) => JsonModel::Array(
                Seq::new(
                    a.len() as nat,
                    |i: int|
                        if 0 <= i < a.len() {
                            a[i].model()
                        } else {
                            JsonModel::Null
                        },
                ),
            ),
            JsonNode::Object(o) => JsonModel::Object(
                Seq::new(
                    o.len() as nat,
                    |i: int|
                        if 0 <= i < o.len() {
                            (o[i].0@, o[i].1.model())
                        } else {
                            (Seq::<char>::empty(), JsonModel::Null)
                        },
                ),
            ),
        }
    }
}

/// The CLASP value of a JSON value: a number is an integer where it reads
/// as an `i64`, else the float it reads as, else null; arrays and objects
/// convert element by element, objects keeping their entries in order.
pub open spec fn node_value(n: JsonModel) -> ValueModel
    decreases n,
{
    match n {
        JsonModel::Null => ValueModel::Null,
        JsonModel::Bool(b) => ValueModel::Bool(b),
        JsonModel::Number { integer, float_bits } => match integer {
            Some(i) => ValueModel::Int(i),
            None => match float_bits {
                Some(bits) => ValueModel::Float(bits),
                None => ValueModel::Null,
            },
        },
        JsonModel::Str(s) => ValueModel::Str(s),
        JsonModel::Array(a) => ValueModel::Array(
            Seq::new(
                a.len(),
                |i: int|
                    if 0 <= i < a.len() {
                        node_value(a[i])
                    } else {
                        ValueModel::Null
                    },
            ),
        ),
        JsonModel::Object(o) => ValueModel::Dict(
            Seq::new(
                o.len(),
                |i: int|
                    if 0 <= i < o.len() {
                        (o[i].0, node_value(o[i].1))
                    } else {
                        (Seq::<char>::empty(), ValueModel::Null)
                    },
            ),
        ),
    }
}

/// What `serde_json::from_str::<serde_json::Value>` reads from a text, as
/// the model of a [`JsonNode`], or `None` where the text is not one JSON
/// document.
pub uninterp spec fn json_parse(text: Seq<char>) -> Option<JsonModel>;

/// The CLASP value of the JSON document a text holds, or `None` where the
/// text is not one JSON document.
pub open spec fn json_document(text: Seq<char>) -> Option<ValueModel> {
    match json_parse(text) {
        Some(n) => Some(node_value(n)),
        None => None,
    }
}

#[verifier::external_type_specification]
#[verifier::external_body]
pub struct ExJsonValue(serde_json::Value);

/// `serde_json::from_str::<serde_json::Value>`: the document of a text,
/// carried over into a [`JsonNode`], as named by [`json_parse`].
#[verifier::external_body]
fn parse_json_node(text: &str) -> (r: Option<JsonNode>)
    ensures
        match r {
            Some(n) => json_parse(text@) == Some(n.model()),
            None => json_parse(text@) is None,
        },
{
    serde_json::from_str::<serde_json::Value>(text).ok().map(node_from_json)
}

/// Carries a `serde_json::Value` over into a [`JsonNode`], variant for
/// variant, storing what `as_i64` and `as_f64` give for a number. It makes
/// no call of its own and nothing is stated of it: [`parse_json_node`]
/// states what the two give together.
#[verifier::external_body]
fn node_from_json(json: serde_json::Value) -> JsonNode {
    match json {
        serde_json::Value::Null => JsonNode::Null,
        serde_json::Value::Bool(b) => JsonNode::Bool(b),
        serde_json::Value::Number(n) => JsonNode::Number { integer: n.as_i64(), float_bits: n.as_f64().map(|f| f.to_bits()) },
        serde_json::Value::String(s) => JsonNode::Str(s),
        serde_json::Value::Array(a) => JsonNode::Array(a.into_iter().map(node_from_json).collect()),
        serde_json::Value::Object(o) => JsonNode::Object(o.into_iter().map(|(k, v)| (k, node_from_json(v))).collect()),
    }
}

/// Converts a JSON value into a CLASP value, as [`node_value`] states.
#[verifier::loop_isolation(false)]
pub fn json_to_value(node: &JsonNode) -> (v: ClaspValue)
    ensures
        v.model() == node_value(node.model()),
    decreases node,
{
    match node {
        JsonNode::Null => ClaspValue::Null,
        JsonNode::Bool(b) => ClaspValue::Bool(*b),
        JsonNode::Number { integer, float_bits } => match integer {
            Some(i) => ClaspValue::Int(*i),
            None => match float_bits {
                Some(bits) => ClaspValue::Float(*bits),
                None => ClaspValue::Null,
            },
        },
        JsonNode::Str(s) => ClaspValue::String(s.clone()),
        JsonNode::Array(a) => {
            let mut c: Vec<ClaspValue> = Vec::new();
            let mut i: usize = 0;
            while i < a.len()
                invariant
                    i <= a.len(),
                    c.len() == i,
                    forall|j: int| 0 <= j < i ==> #[trigger] c[j].model() == node_value(a[j].model()),
                decreases a.len() - i,
            {
                let e = json_to_value(&a[i]);
                c.push(e);
                i = i + 1;
            }
            let r = ClaspValue::Array(c);
            proof {
                let s1 = r.model()->Array_0;
                let s2 = node_value(node.model())->Array_0;
                let am = node.model()->Array_0;
                assert(s1.len() == c.len());
                assert(s2.len() == a.len());
                assert forall|j: int| 0 <= j < c.len() implies s1[j] == s2[j] by {
                    assert(s1[j] == c[j].model());
                    assert(am[j] == a[j].model());
                    assert(s2[j] == node_value(am[j]));
                }
                assert(s1 =~= s2);
            }
            r
        },
        JsonNode::Object(o) => {
            let mut c: Vec<(String, ClaspValue)> = Vec::new();
            let mut i: usize = 0;
            while i < o.len()
                invariant
                    i <= o.len(),
                    c.len() == i,
                    forall|j: int|
                        0 <= j < i ==> #[trigger] c[j].0@ == o[j].0@ && c[j].1.model() == node_value(
                            o[j].1.model(),
                        ),
                decreases o.len() - i,
            {
                let k = o[i].0.clone();
                proof {
                    assert(decreases_to!(o[i as int] => o[i as int].1));
                }
                let e = json_to_value(&o[i].1);
                c.push((k, e));
                i = i + 1;
            }
            let r = ClaspValue::Dict(c);
            proof {
                let s1 = r.model()->Dict_0;
                let s2 = node_value(node.model())->Dict_0;
                let om = node.model()->Object_0;
                assert(s1.len() == c.len());
                assert(s2.len() == o.len());
                assert forall|j: int| 0 <= j < c.len() implies s1[j] == s2[j] by {
                    assert(s1[j] == (c[j].0@, c[j].1.model()));
                    assert(om[j] == (o[j].0@, o[j].1.model()));
                    assert(s2[j] == (om[j].0, node_value(om[j].1)));
                }
                assert(s1 =~= s2);
            }
            r
        },
    }
}

/// The document of a text, converted to a [`ClaspValue`], as
/// [`json_document`] states.
pub fn parse_json(text: &str) -> (r: Option<ClaspValue>)
    ensures
        match r {
            Some(v) => json_document(text@) == Some(v.model()),
            None => json_document(text@) is None,
        },
{
    match parse_json_node(text) {
        Some(n) => Some(json_to_value(&n)),
        None => None,
    }
}

/// `std::str::from_utf8`: the text of bytes that are valid UTF-8, as
/// vstd's [`valid_utf8`] and [`decode_utf8`] define them; `None` for other
/// bytes.
#[verifier::external_body]
pub(crate) fn utf8_text(bytes: &[u8]) -> (r: Option<String>)
    ensures
        r is Some <==> valid_utf8(bytes@),
        r matches Some(s) ==> s@ == decode_utf8(bytes@),
{
    std::str::from_utf8(bytes).ok().map(|s| s.to_string())
}

/// The field `key` of a JSON object; other values have no fields.
pub open spec fn json_field(doc: ValueModel, key: Seq<char>) -> Option<ValueModel> {
    match doc {
        ValueModel::Dict(entries) => dict_get(entries, key),
        _ => None,
    }
}

/// A copy of the field `key` of an object.
pub fn field(doc: &ClaspValue, key: &str) -> (r: Option<ClaspValue>)
    ensures
        match json_field(doc.model(), key@) {
            Some(f) => r matches Some(v) && v.model() == f,
            None => r is None,
        },
{
    match doc {
        ClaspValue::Dict(entries) => match dict_lookup(entries, key) {
            Some(i) => {
                proof {
                    lemma_dict_find_bounds(doc.model()->Dict_0, key@);
                }
                Some(entries[i].1.duplicate())
            },
            None => None,
        },
        _ => None,
    }
}

} // verus!
