//! JSON documents as the library reads them: parsed by `serde_json` into a value
//! of the library's own, whose numbers are kept as their text.
use vstd::prelude::*;

verus! {

/// A JSON value.
#[derive(Debug)]
pub enum JsonValue {
    /// `null`.
    Null,
    /// `true` or `false`.
    Bool(bool),
    /// A number, as `serde_json` writes it.
    Number(String),
    /// A string.
    Text(String),
    /// An array.
    Array(Vec<JsonValue>),
    /// An object: its members in the order `serde_json` keeps them, each key once.
    Object(Vec<(String, JsonValue)>),
}

/// What a JSON value is, as mathematical values.
pub enum JsonView {
    /// `null`.
    Null,
    /// `true` or `false`.
    Bool(bool),
    /// A number, as text.
    Number(Seq<char>),
    /// A string.
    Text(Seq<char>),
    /// An array.
    Array(Seq<JsonView>),
    /// An object's members.
    Object(Seq<(Seq<char>, JsonView)>),
}

impl JsonValue {
    /// The value as mathematical values.
    pub open spec fn json(&self) -> JsonView
        decreases self,
    {
        match self {
            JsonValue::Null => JsonView::Null,
            JsonValue::Bool(b) => JsonView::Bool(*b),
            JsonValue::Number(n) => JsonView::Number(n@),
            JsonValue::Text(t) => JsonView::Text(t@),
            JsonValue::Array(a) => JsonView::Array(Seq::new(a@.len(), |i: int|
                if 0 <= i < a@.len() { a@[i].json() } else { JsonView::Null })),
            JsonValue::Object(o) => JsonView::Object(Seq::new(o@.len(), |i: int|
                if 0 <= i < o@.len() { (o@[i].0@, o@[i].1.json()) } else { (Seq::empty(), JsonView::Null) })),
        }
    }
}

/// The view of a value that may be absent.
pub open spec fn opt_json(v: Option<JsonValue>) -> Option<JsonView> {
    match v {
        Some(x) => Some(x.json()),
        None => None,
    }
}

/// The document that `serde_json::from_slice` reads from `data`, or `None` when
/// `data` is no JSON text.
pub uninterp spec fn json_of(data: Seq<u8>) -> Option<JsonView>;

/// Parses `data` as JSON (`serde_json::from_slice` into `serde_json::Value`, then
/// each variant into the variant of the same name, numbers by their text); named
/// `json_of`.
#[verifier::external_body]
pub fn parse_json(data: &[u8]) -> (r: Option<JsonValue>)
    ensures
        opt_json(r) == json_of(data@),
{
    serde_json::from_slice::<serde_json::Value>(data).ok().map(json_value_of)
}

/// Declares `serde_json::Value`, a parsed JSON document of `serde_json`.
#[verifier::external_type_specification]
#[verifier::external_body]
pub struct ExJsonValue(serde_json::Value);

/// The library's form of a `serde_json::Value`, variant by variant; only
/// `parse_json` calls it, on what it parsed.
#[verifier::external_body]
fn json_value_of(v: serde_json::Value) -> JsonValue {
    match v {
        serde_json::Value::Null => JsonValue::Null,
        serde_json::Value::Bool(b) => JsonValue::Bool(b),
        serde_json::Value::Number(n) => JsonValue::Number(n.to_string()),
        serde_json::Value::String(s) => JsonValue::Text(s),
        serde_json::Value::Array(a) => JsonValue::Array(a.into_iter().map(json_value_of).collect()),
        serde_json::Value::Object(m) => JsonValue::Object(m.into_iter().map(|(k, x)| (k, json_value_of(x))).collect()),
    }
}

/// A copy of `v`.
pub fn copy_json(v: &JsonValue) -> (r: JsonValue)
    ensures
        r.json() == v.json(),
    decreases v,
{
    match v {
        JsonValue::Null => JsonValue::Null,
        JsonValue::Bool(b) => JsonValue::Bool(*b),
        JsonValue::Number(n) => JsonValue::Number(crate::text::owned(n.as_str())),
        JsonValue::Text(t) => JsonValue::Text(crate::text::owned(t.as_str())),
        JsonValue::Array(a) => {
            let mut out: Vec<JsonValue> = Vec::new();
            let mut i: usize = 0;
            while i < a.len()
                invariant
                    i <= a@.len(),
                    *v == JsonValue::Array(*a),
                    out@.len() == i,
                    forall|j: int| 0 <= j < i ==> (#[trigger] out@[j]).json() == a@[j].json(),
                decreases a.len() - i,
            {
                proof {
                    assert(decreases_to!(*v => (*v)->Array_0));
                    assert((*v)->Array_0 == *a);
                    assert(decreases_to!(*a => a@));
                    assert(decreases_to!(a@ => a@[i as int]));
                }
                out.push(copy_json(&a[i]));
                i = i + 1;
            }
            let r = JsonValue::Array(out);
            assert(r.json()->Array_0 =~= v.json()->Array_0);
            r
        },
        JsonValue::Object(ms) => {
            let mut out: Vec<(String, JsonValue)> = Vec::new();
            let mut i: usize = 0;
            while i < ms.len()
                invariant
                    i <= ms@.len(),
                    *v == JsonValue::Object(*ms),
                    out@.len() == i,
                    forall|j: int| 0 <= j < i ==> (#[trigger] out@[j]).0@ == ms@[j].0@ && out@[j].1.json() == ms@[j].1.json(),
                decreases ms.len() - i,
            {
                proof {
                    assert(decreases_to!(*v => (*v)->Object_0));
                    assert((*v)->Object_0 == *ms);
                    assert(decreases_to!(*ms => ms@));
                    assert(decreases_to!(ms@ => ms@[i as int]));
                    assert(decreases_to!(ms@[i as int] => ms@[i as int].1));
                }
                let k = crate::text::owned(ms[i].0.as_str());
                let x = copy_json(&ms[i].1);
                out.push((k, x));
                i = i + 1;
            }
            let r = JsonValue::Object(out);
            assert(r.json()->Object_0 =~= v.json()->Object_0);
            r
        },
    }
}

/// The value of the first member of `members` named `name`.
pub open spec fn member(members: Seq<(Seq<char>, JsonView)>, name: Seq<char>) -> Option<JsonView>
    decreases members.len(),
{
    if members.len() == 0 {
        None
    } else if members[0].0 == name {
        Some(members[0].1)
    } else {
        member(members.drop_first(), name)
    }
}

/// The text of member `name` of `v` (`Value::get`, then `as_str`): `None` when
/// `v` is no object, has no such member, or its value is no string.
pub open spec fn text_member(v: JsonView, name: Seq<char>) -> Option<Seq<char>> {
    match v {
        JsonView::Object(ms) => match member(ms, name) {
            Some(JsonView::Text(t)) => Some(t),
            _ => None,
        },
        _ => None,
    }
}

/// The view of an optional text.
pub open spec fn opt_text(t: Option<String>) -> Option<Seq<char>> {
    match t {
        Some(s) => Some(s@),
        None => None,
    }
}

/// The text of member `name` of `v`, if `v` is an object with such a member
/// whose value is a string.
pub fn string_member(v: &JsonValue, name: &str) -> (r: Option<String>)
    ensures
        opt_text(r) == text_member(v.json(), name@),
{
    match v {
        JsonValue::Object(ms) => {
            let ghost mv = v.json()->Object_0;
            let mut i: usize = 0;
            assert(v.json() == JsonView::Object(mv));
            assert(mv.skip(0) =~= mv);
            while i < ms.len()
                invariant
                    i <= ms@.len(),
                    v.json() == JsonView::Object(mv),
                    mv.len() == ms@.len(),
                    forall|j: int| 0 <= j < ms@.len() ==> #[trigger] mv[j] == (ms@[j].0@, ms@[j].1.json()),
                    member(mv, name@) == member(mv.skip(i as int), name@),
                decreases ms.len() - i,
            {
                assert(mv.skip(i as int).drop_first() =~= mv.skip(i + 1));
                assert(mv.skip(i as int)[0] == mv[i as int]);
                if crate::text::str_eq(ms[i].0.as_str(), name) {
                    assert(member(mv, name@) == Some(ms@[i as int].1.json()));
                    let x = &ms[i].1;
                    match x {
                        JsonValue::Text(t) => {
                            assert(x.json() == JsonView::Text(t@));
                            return Some(crate::text::owned(t.as_str()));
                        },
                        _ => {
                            assert(!(x.json() is Text));
                            return None;
                        },
                    }
                }
                i = i + 1;
            }
            assert(mv.skip(i as int).len() == 0);
            None
        },
        _ => None,
    }
}

} // verus!
