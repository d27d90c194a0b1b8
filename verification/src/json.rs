//! JSON values as the server reads and writes them.
use crate::text::{decimal, decimal_string, same_text};
use serde_json::Value;
use vstd::prelude::*;

verus! {

/// A JSON value. A number is held as the text that writes it.
#[derive(Debug)]
pub enum JsonValue {
    Null,
    Bool(bool),
    Number(String),
    Str(String),
    Array(Vec<JsonValue>),
    Object(Vec<(String, JsonValue)>),
}

/// A JSON value as plain text and sequences.
pub enum JsonView {
    Null,
    Bool(bool),
    Number(Seq<char>),
    Str(Seq<char>),
    Array(Seq<JsonView>),
    Object(Seq<(Seq<char>, JsonView)>),
}

/// The plain view of a JSON value.
pub open spec fn json_view(v: JsonValue) -> JsonView
    decreases v,
{
    match v {
        JsonValue::Null => JsonView::Null,
        JsonValue::Bool(b) => JsonView::Bool(b),
        JsonValue::Number(n) => JsonView::Number(n@),
        JsonValue::Str(s) => JsonView::Str(s@),
        JsonValue::Array(a) => JsonView::Array(
            Seq::new(
                a@.len(),
                |i: int|
                    if 0 <= i < a@.len() {
                        json_view(a@[i])
                    } else {
                        JsonView::Null
                    },
            ),
        ),
        JsonValue::Object(m) => JsonView::Object(
            Seq::new(
                m@.len(),
                |i: int|
                    if 0 <= i < m@.len() {
                        (m@[i].0@, json_view(m@[i].1))
                    } else {
                        (Seq::empty(), JsonView::Null)
                    },
            ),
        ),
    }
}

impl View for JsonValue {
    type V = JsonView;

    open spec fn view(&self) -> JsonView {
        json_view(*self)
    }
}

/// The views of a list of values.
pub open spec fn json_views(s: Seq<JsonValue>) -> Seq<JsonView> {
    s.map_values(|x: JsonValue| x@)
}

/// The views of a list of members.
pub open spec fn member_views(s: Seq<(String, JsonValue)>) -> Seq<(Seq<char>, JsonView)> {
    s.map_values(|x: (String, JsonValue)| (x.0@, x.1@))
}

pub proof fn lemma_array_view(a: Vec<JsonValue>)
    ensures
        JsonValue::Array(a)@ == JsonView::Array(json_views(a@)),
{
    let v = json_view(JsonValue::Array(a));
    let s = v->Array_0;
    assert(s.len() == a@.len());
    assert forall|i: int| 0 <= i < s.len() implies s[i] == json_views(a@)[i] by {}
    assert(s =~= json_views(a@));
}

pub proof fn lemma_object_view(m: Vec<(String, JsonValue)>)
    ensures
        JsonValue::Object(m)@ == JsonView::Object(member_views(m@)),
{
    let v = json_view(JsonValue::Object(m));
    let s = v->Object_0;
    assert(s.len() == m@.len());
    assert forall|i: int| 0 <= i < s.len() implies s[i] == member_views(m@)[i] by {}
    assert(s =~= member_views(m@));
}

/// The value of the first member named `key` among `members`.
pub open spec fn find_member(members: Seq<(Seq<char>, JsonView)>, key: Seq<char>) -> Option<
    JsonView,
>
    decreases members.len(),
{
    if members.len() == 0 {
        None
    } else if members[0].0 == key {
        Some(members[0].1)
    } else {
        find_member(members.drop_first(), key)
    }
}

/// `value.get(key)`: the member `key` of an object, if it has one.
pub open spec fn field(v: JsonView, key: Seq<char>) -> Option<JsonView> {
    match v {
        JsonView::Object(m) => find_member(m, key),
        _ => None,
    }
}

/// `value[key]`: the member `key` of an object, or null.
pub open spec fn member(v: JsonView, key: Seq<char>) -> JsonView {
    match field(v, key) {
        Some(x) => x,
        None => JsonView::Null,
    }
}

/// `value.as_str()`.
pub open spec fn text_of(v: JsonView) -> Option<Seq<char>> {
    match v {
        JsonView::Str(s) => Some(s),
        _ => None,
    }
}

/// `value.as_array()`.
pub open spec fn items_of(v: JsonView) -> Option<Seq<JsonView>> {
    match v {
        JsonView::Array(a) => Some(a),
        _ => None,
    }
}

/// The JSON number that writes `n`.
pub open spec fn number(n: nat) -> JsonView {
    JsonView::Number(decimal(n))
}

/// An object made of `(key, value)` members, in order.
pub open spec fn object(members: Seq<(Seq<char>, JsonView)>) -> JsonView {
    JsonView::Object(members)
}

impl JsonValue {
    /// `value.get(key)`.
    pub fn get<'a>(&'a self, key: &str) -> (r: Option<&'a JsonValue>)
        ensures
            match r {
                Some(x) => field(self@, key@) == Some(x@),
                None => field(self@, key@) is None,
            },
    {
        match self {
            JsonValue::Object(m) => {
                proof {
                    lemma_object_view(*m);
                }
                let ghost all = member_views(m@);
                let mut i: usize = 0;
                assert(all.skip(0) =~= all);
                while i < m.len()
                    invariant
                        i <= m@.len(),
                        all == member_views(m@),
                        field(self@, key@) == find_member(all, key@),
                        find_member(all, key@) == find_member(all.skip(i as int), key@),
                    decreases m@.len() - i,
                {
                    proof {
                        assert(all.skip(i as int).drop_first() =~= all.skip(i + 1));
                    }
                    if same_text(m[i].0.as_str(), key) {
                        assert(all.skip(i as int)[0] == (m@[i as int].0@, m@[i as int].1@));
                        return Some(&m[i].1);
                    }
                    i = i + 1;
                }
                None
            },
            _ => None,
        }
    }

    /// `value.as_str()`.
    pub fn as_str(&self) -> (r: Option<&str>)
        ensures
            match r {
                Some(s) => text_of(self@) == Some(s@),
                None => text_of(self@) is None,
            },
    {
        match self {
            JsonValue::Str(s) => Some(s.as_str()),
            _ => None,
        }
    }

    /// `value.as_array()`.
    pub fn as_array(&self) -> (r: Option<&Vec<JsonValue>>)
        ensures
            match r {
                Some(a) => items_of(self@) == Some(json_views(a@)),
                None => items_of(self@) is None,
            },
    {
        match self {
            JsonValue::Array(a) => {
                proof {
                    lemma_array_view(*a);
                }
                Some(a)
            },
            _ => None,
        }
    }

    /// A copy of the value.
    pub fn copy(&self) -> (r: JsonValue)
        ensures
            r@ == self@,
        decreases self,
    {
        match self {
            JsonValue::Null => JsonValue::Null,
            JsonValue::Bool(b) => JsonValue::Bool(*b),
            JsonValue::Number(n) => JsonValue::Number(n.clone()),
            JsonValue::Str(s) => JsonValue::Str(s.clone()),
            JsonValue::Array(a) => {
                let mut r: Vec<JsonValue> = Vec::new();
                let mut i: usize = 0;
                while i < a.len()
                    invariant
                        i <= a@.len(),
                        json_views(r@) == json_views(a@.take(i as int)),
                        *self == JsonValue::Array(*a),
                    decreases a@.len() - i,
                {
                    proof {
                        assert(decreases_to!(*self => (*self)->Array_0));
                        assert(decreases_to!(*a => a@));
                        assert(decreases_to!(a@ => a@[i as int]));
                    }
                    let x = a[i].copy();
                    let ghost prior = r@;
                    r.push(x);
                    proof {
                        assert(json_views(r@) =~= json_views(prior).push(a@[i as int]@));
                        assert(json_views(a@.take(i + 1)) =~= json_views(a@.take(i as int)).push(
                            a@[i as int]@,
                        ));
                    }
                    i = i + 1;
                }
                proof {
                    assert(a@.take(i as int) =~= a@);
                    lemma_array_view(r);
                    lemma_array_view(*a);
                }
                JsonValue::Array(r)
            },
            JsonValue::Object(m) => {
                let mut r: Vec<(String, JsonValue)> = Vec::new();
                let mut i: usize = 0;
                while i < m.len()
                    invariant
                        i <= m@.len(),
                        member_views(r@) == member_views(m@.take(i as int)),
                        *self == JsonValue::Object(*m),
                    decreases m@.len() - i,
                {
                    proof {
                        assert(decreases_to!(*self => (*self)->Object_0));
                        assert(decreases_to!(*m => m@));
                        assert(decreases_to!(m@ => m@[i as int]));
                        assert(decreases_to!(m@[i as int] => m@[i as int].1));
                    }
                    let x = m[i].1.copy();
                    let k = m[i].0.clone();
                    let ghost prior = r@;
                    r.push((k, x));
                    proof {
                        let e = (m@[i as int].0@, m@[i as int].1@);
                        assert(member_views(r@) =~= member_views(prior).push(e));
                        assert(member_views(m@.take(i + 1)) =~= member_views(m@.take(i as int)).push(e));
                    }
                    i = i + 1;
                }
                proof {
                    assert(m@.take(i as int) =~= m@);
                    lemma_object_view(r);
                    lemma_object_view(*m);
                }
                JsonValue::Object(r)
            },
        }
    }

    /// A string value.
    pub fn text(s: &str) -> (r: JsonValue)
        ensures
            r@ == JsonView::Str(s@),
    {
        JsonValue::Str(s.to_owned())
    }

    /// The number `n`.
    pub fn number(n: u64) -> (r: JsonValue)
        ensures
            r@ == number(n as nat),
    {
        JsonValue::Number(decimal_string(n as u128))
    }
}

/// A list of members, being built.
pub struct Members {
    pub entries: Vec<(String, JsonValue)>,
}

impl Members {
    pub open spec fn view_members(&self) -> Seq<(Seq<char>, JsonView)> {
        member_views(self.entries@)
    }

    pub fn new() -> (r: Members)
        ensures
            r.view_members() == Seq::<(Seq<char>, JsonView)>::empty(),
    {
        let r = Members { entries: Vec::new() };
        assert(r.view_members() =~= Seq::<(Seq<char>, JsonView)>::empty());
        r
    }

    /// Appends the member `key: value`.
    pub fn add(&mut self, key: &str, value: JsonValue)
        ensures
            final(self).view_members() == old(self).view_members().push((key@, value@)),
    {
        let ghost prior = self.entries@;
        self.entries.push((key.to_owned(), value));
        assert(member_views(self.entries@) =~= member_views(prior).push((key@, value@)));
    }

    /// The object made of the members.
    pub fn build(self) -> (r: JsonValue)
        ensures
            r@ == object(self.view_members()),
    {
        proof {
            lemma_object_view(self.entries);
        }
        JsonValue::Object(self.entries)
    }
}


// ---------------------------------------------------------------------------
// JSON text
// ---------------------------------------------------------------------------

#[verifier::external_type_specification]
#[verifier::external_body]
pub struct ExSerdeValue(serde_json::Value);

/// What `serde_json::from_slice::<serde_json::Value>` reads from `bytes`:
/// the value (numbers as serde_json writes them), or the text of its error.
pub uninterp spec fn json_of_bytes(bytes: Seq<u8>) -> Result<JsonView, Seq<char>>;

/// The bytes that `serde_json::to_vec` writes for a value.
pub uninterp spec fn json_text(value: JsonView) -> Seq<u8>;

/// `serde_json::Value` as a library value, variant for variant; a number
/// becomes its text.
///
/// Calls `serde_json::Number`'s `to_string`; nothing is claimed here: the
/// wrappers that use it name their results.
#[verifier::external_body]
fn json_from_serde(value: Value) -> JsonValue {
    match value {
        Value::Null => JsonValue::Null,
        Value::Bool(b) => JsonValue::Bool(b),
        Value::Number(n) => JsonValue::Number(n.to_string()),
        Value::String(s) => JsonValue::Str(s),
        Value::Array(a) => JsonValue::Array(a.into_iter().map(json_from_serde).collect()),
        Value::Object(m) => JsonValue::Object(m.into_iter().map(|(k, v)| (k, json_from_serde(v))).collect()),
    }
}

/// A library value as `serde_json::Value`, variant for variant; a number
/// is read from its text with `str::parse::<serde_json::Number>`, and is
/// null when that fails.
///
/// Nothing is claimed here: the wrapper that uses it names its result.
#[verifier::external_body]
fn json_to_serde(value: &JsonValue) -> Value {
    match value {
        JsonValue::Null => Value::Null,
        JsonValue::Bool(b) => Value::Bool(*b),
        JsonValue::Number(n) => n.parse::<serde_json::Number>().map(Value::Number).unwrap_or(Value::Null),
        JsonValue::Str(s) => Value::String(s.clone()),
        JsonValue::Array(a) => Value::Array(a.iter().map(json_to_serde).collect()),
        JsonValue::Object(m) => Value::Object(m.iter().map(|(k, v)| (k.clone(), json_to_serde(v))).collect()),
    }
}

/// The JSON value that a message body holds.
///
/// Calls `serde_json::from_slice::<serde_json::Value>`; the result is named
/// [`json_of_bytes`] of the body: the value, or the text of serde_json's error.
#[verifier::external_body]
pub fn parse_body(body: &[u8]) -> (r: Result<JsonValue, String>)
    ensures
        match r {
            Ok(v) => json_of_bytes(body@) == Ok::<JsonView, Seq<char>>(v@),
            Err(e) => json_of_bytes(body@) == Err::<JsonView, Seq<char>>(e@),
        },
{
    match serde_json::from_slice::<Value>(body) {
        Ok(value) => Ok(json_from_serde(value)),
        Err(error) => Err(error.to_string()),
    }
}

/// The JSON text of a value.
///
/// Calls `serde_json::to_vec`; the result is named [`json_text`] of the
/// value. Writing a `serde_json::Value` does not fail (its keys are strings);
/// were it to, the result would be empty.
#[verifier::external_body]
pub fn encode_body(value: &JsonValue) -> (r: Vec<u8>)
    ensures
        r@ == json_text(value@),
{
    serde_json::to_vec(&json_to_serde(value)).unwrap_or_default()
}

} // verus!
