//! The JSON model that the engine reads and writes, and the two places where
//! text is turned into that model and back.

use crate::error::{Error, Reason};
use crate::text::same_text;
use vstd::prelude::*;

verus! {

/// A JSON document. A number that is an integer in the range of `i64` is an
/// `Integer`; any other number is kept as its JSON text in `Decimal`.
#[derive(Debug, PartialEq, Eq)]
pub enum Json {
    Null,
    Bool(bool),
    Integer(i64),
    Decimal(String),
    Text(String),
    Array(Vec<Json>),
    Object(Vec<(String, Json)>),
}

/// The mathematical value of a [`Json`].
pub enum JsonView {
    Null,
    Bool(bool),
    Integer(i64),
    Decimal(Seq<char>),
    Text(Seq<char>),
    Array(Seq<JsonView>),
    Object(Seq<(Seq<char>, JsonView)>),
}

/// The mathematical value of `json`.
pub open spec fn json_view(json: Json) -> JsonView
    decreases json,
{
    match json {
        Json::Null => JsonView::Null,
        Json::Bool(b) => JsonView::Bool(b),
        Json::Integer(i) => JsonView::Integer(i),
        Json::Decimal(s) => JsonView::Decimal(s@),
        Json::Text(s) => JsonView::Text(s@),
        Json::Array(items) => JsonView::Array(
            Seq::new(
                items@.len(),
                |i: int|
                    if 0 <= i < items@.len() {
                        json_view(items@[i])
                    } else {
                        JsonView::Null
                    },
            ),
        ),
        Json::Object(fields) => JsonView::Object(
            Seq::new(
                fields@.len(),
                |i: int|
                    if 0 <= i < fields@.len() {
                        (fields@[i].0@, json_view(fields@[i].1))
                    } else {
                        (Seq::empty(), JsonView::Null)
                    },
            ),
        ),
    }
}

impl View for Json {
    type V = JsonView;

    open spec fn view(&self) -> JsonView {
        json_view(*self)
    }
}

impl JsonView {
    /// The value of the first field named `key`, if `self` is an object that has one.
    pub open spec fn field(self, key: Seq<char>) -> Option<JsonView> {
        match self {
            JsonView::Object(fields) => first_field(fields, key),
            _ => None,
        }
    }
}

/// The value of the first pair in `fields` whose name is `key`.
pub open spec fn first_field(fields: Seq<(Seq<char>, JsonView)>, key: Seq<char>) -> Option<JsonView>
    decreases fields.len(),
{
    if fields.len() == 0 {
        None
    } else if fields[0].0 == key {
        Some(fields[0].1)
    } else {
        first_field(fields.skip(1), key)
    }
}

pub proof fn lemma_first_field_from(fields: Seq<(Seq<char>, JsonView)>, key: Seq<char>, start: int)
    requires
        0 <= start <= fields.len(),
        forall|j: int| 0 <= j < start ==> fields[j].0 != key,
    ensures
        first_field(fields, key) == first_field(fields.skip(start), key),
    decreases start,
{
    if start > 0 {
        lemma_first_field_from(fields, key, start - 1);
        let rest = fields.skip(start - 1);
        assert(rest[0] == fields[start - 1]);
        assert(rest.skip(1) =~= fields.skip(start));
    } else {
        assert(fields.skip(0) =~= fields);
    }
}

/// A field whose name is `key`, with none of that name before it, is the
/// one that `first_field` finds.
pub proof fn lemma_first_field_at(fields: Seq<(Seq<char>, JsonView)>, key: Seq<char>, at: int)
    requires
        0 <= at < fields.len(),
        fields[at].0 == key,
        forall|j: int| 0 <= j < at ==> fields[j].0 != key,
    ensures
        first_field(fields, key) == Some(fields[at].1),
{
    lemma_first_field_from(fields, key, at);
    assert(fields.skip(at)[0] == fields[at]);
}

impl Json {
    /// An independent copy of the document.
    #[verifier::loop_isolation(false)]
    pub fn duplicate(&self) -> (r: Json)
        ensures
            r@ == self@,
        decreases self,
    {
        match self {
            Json::Null => Json::Null,
            Json::Bool(b) => Json::Bool(*b),
            Json::Integer(i) => Json::Integer(*i),
            Json::Decimal(s) => Json::Decimal(s.clone()),
            Json::Text(s) => Json::Text(s.clone()),
            Json::Array(items) => {
                let mut out: Vec<Json> = Vec::new();
                let mut i: usize = 0;
                while i < items.len()
                    invariant
                        i <= items@.len(),
                        out@.len() == i,
                        *self == Json::Array(*items),
                        forall|j: int| 0 <= j < i ==> out@[j]@ == items@[j]@,
                    decreases items@.len() - i,
                {
                    let item = &items[i];
                    assert(decreases_to!(*items => items@[i as int]));
                    out.push(item.duplicate());
                    i += 1;
                }
                let r = Json::Array(out);
                assert(r@->Array_0 =~= self@->Array_0);
                r
            },
            Json::Object(fields) => {
                let mut out: Vec<(String, Json)> = Vec::new();
                let mut i: usize = 0;
                while i < fields.len()
                    invariant
                        i <= fields@.len(),
                        out@.len() == i,
                        *self == Json::Object(*fields),
                        forall|j: int|
                            0 <= j < i ==> out@[j].0@ == fields@[j].0@ && out@[j].1@
                                == fields@[j].1@,
                    decreases fields@.len() - i,
                {
                    let field = &fields[i];
                    assert(decreases_to!(*fields => fields@[i as int]));
                    assert(decreases_to!(fields@[i as int] => fields@[i as int].1));
                    out.push((field.0.clone(), field.1.duplicate()));
                    i += 1;
                }
                let r = Json::Object(out);
                assert(r@->Object_0 =~= self@->Object_0);
                r
            },
        }
    }

    /// The first field named `key`, if `self` is an object that has one.
    pub fn field(&self, key: &str) -> (r: Option<&Json>)
        ensures
            match r {
                Some(j) => self@.field(key@) == Some(j@),
                None => self@.field(key@) is None,
            },
    {
        match self {
            Json::Object(fields) => {
                let mut i: usize = 0;
                while i < fields.len()
                    invariant
                        i <= fields@.len(),
                        self@ is Object,
                        self@->Object_0.len() == fields@.len(),
                        forall|j: int|
                            0 <= j < fields@.len() ==> self@->Object_0[j] == (
                                fields@[j].0@,
                                fields@[j].1@,
                            ),
                        forall|j: int| 0 <= j < i ==> fields@[j].0@ != key@,
                    decreases fields@.len() - i,
                {
                    if same_text(fields[i].0.as_str(), key) {
                        proof {
                            let all = self@->Object_0;
                            lemma_first_field_from(all, key@, i as int);
                            assert(all.skip(i as int)[0] == all[i as int]);
                        }
                        return Some(&fields[i].1);
                    }
                    i += 1;
                }
                proof {
                    let all = self@->Object_0;
                    lemma_first_field_from(all, key@, all.len() as int);
                }
                None
            },
            _ => None,
        }
    }
}

/// The document type of `serde_json`, of which nothing is known here but
/// that the two functions below turn it into a [`Json`] and back.
#[verifier::external_type_specification]
#[verifier::external_body]
pub struct ExValue(serde_json::Value);

/// What `serde_json::from_str` makes of a text: the document, or the line and
/// column at which it gave up.
pub uninterp spec fn parsed(text: Seq<char>) -> Result<JsonView, (usize, usize)>;

/// The text that `serde_json` writes for a document.
pub uninterp spec fn printed(json: JsonView) -> Seq<char>;

/// Copies a `serde_json::Value` into a [`Json`], node by node. A number goes
/// through `Number::as_i64`; one that is no such integer is kept as the text
/// that its `Display` writes.
#[verifier::external_body]
fn lift(value: &serde_json::Value) -> Json {
    match value {
        serde_json::Value::Null => Json::Null,
        serde_json::Value::Bool(b) => Json::Bool(*b),
        serde_json::Value::Number(n) => match n.as_i64() {
            Some(i) => Json::Integer(i),
            None => Json::Decimal(n.to_string()),
        },
        serde_json::Value::String(s) => Json::Text(s.clone()),
        serde_json::Value::Array(items) => Json::Array(items.iter().map(lift).collect()),
        serde_json::Value::Object(fields) => Json::Object(
            fields.iter().map(|(k, v)| (k.clone(), lift(v))).collect(),
        ),
    }
}

/// Copies a [`Json`] into a `serde_json::Value`, node by node. A `Decimal`
/// goes through `Number::from_str`, and becomes null where that refuses it.
#[verifier::external_body]
fn lower(json: &Json) -> serde_json::Value {
    match json {
        Json::Null => serde_json::Value::Null,
        Json::Bool(b) => serde_json::Value::Bool(*b),
        Json::Integer(i) => serde_json::Value::from(*i),
        Json::Decimal(s) => s.parse().map_or(serde_json::Value::Null, serde_json::Value::Number),
        Json::Text(s) => serde_json::Value::String(s.clone()),
        Json::Array(items) => serde_json::Value::Array(items.iter().map(lower).collect()),
        Json::Object(fields) => serde_json::Value::Object(
            fields.iter().map(|(k, v)| (k.clone(), lower(v))).collect(),
        ),
    }
}

/// Calls `serde_json::from_str` for a `serde_json::Value`. The result is the
/// document it returns, or the line and column of the error it returns.
#[verifier::external_body]
fn read_text(text: &str) -> (r: Result<Json, (usize, usize)>)
    ensures
        match r {
            Ok(json) => parsed(text@) == Ok::<JsonView, (usize, usize)>(json@),
            Err(at) => parsed(text@) == Err::<JsonView, (usize, usize)>(at),
        },
{
    match serde_json::from_str::<serde_json::Value>(text) {
        Ok(value) => Ok(lift(&value)),
        Err(e) => Err((e.line(), e.column())),
    }
}

/// Calls `to_string` on the `serde_json::Value` of `json`: the compact text
/// that `serde_json` writes for it.
#[verifier::external_body]
fn write_text(json: &Json) -> (r: String)
    ensures
        r@ == printed(json@),
{
    lower(json).to_string()
}

/// Reads a JSON text.
pub fn parse(text: &str) -> (r: Result<Json, Error>)
    ensures
        match r {
            Ok(json) => parsed(text@) == Ok::<JsonView, (usize, usize)>(json@),
            Err(e) => parsed(text@) matches Err(at) && e@ == crate::error::ErrorView::GraphInvalid(
                Reason::Syntax { line: at.0, column: at.1 },
            ),
        },
{
    match read_text(text) {
        Ok(json) => Ok(json),
        Err(at) => Err(Error::GraphInvalid(Reason::Syntax { line: at.0, column: at.1 })),
    }
}

/// Writes `json` as compact JSON text.
pub fn print(json: &Json) -> (r: String)
    ensures
        r@ == printed(json@),
{
    write_text(json)
}

} // verus!
