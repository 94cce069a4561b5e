//! JSON values, as far as the configuration needs them: a value tells what
//! kind it is and hands out its parts. Texts are parsed by `serde_json`.

use vstd::prelude::*;
use crate::errors::{RescError, RescResult};
use crate::text::same_text;

verus! {

/// A JSON value. An object holds its members in a list; of two members
/// with one name the first counts. A number is held as a text.
#[derive(Debug)]
pub enum Json {
    Null,
    Bool(bool),
    Number(String),
    Str(String),
    Array(Vec<Json>),
    Object(Vec<(String, Json)>),
}

/// A JSON value as plain data.
pub enum JsonView {
    Null,
    Bool(bool),
    Number(Seq<char>),
    Str(Seq<char>),
    Array(Seq<JsonView>),
    Object(Seq<(Seq<char>, JsonView)>),
}

/// The plain data of a value.
pub open spec fn json_view(j: Json) -> JsonView
    decreases j,
{
    match j {
        Json::Null => JsonView::Null,
        Json::Bool(b) => JsonView::Bool(b),
        Json::Number(n) => JsonView::Number(n@),
        Json::Str(s) => JsonView::Str(s@),
        Json::Array(items) => JsonView::Array(
            Seq::new(
                items@.len(),
                |i: int|
                    if 0 <= i < items@.len() {
                        json_view(items@[i])
                    } else {
                        JsonView::Null
                    },
            ),
        ),
        Json::Object(members) => JsonView::Object(
            Seq::new(
                members@.len(),
                |i: int|
                    if 0 <= i < members@.len() {
                        (members@[i].0@, json_view(members@[i].1))
                    } else {
                        (Seq::empty(), JsonView::Null)
                    },
            ),
        ),
    }
}

impl View for Json {
    type V = JsonView;

    open spec fn view(&self) -> JsonView {
        json_view(*self)
    }
}

/// The value of the first member of this name in a list of members, or
/// `Null` where no member has the name.
pub open spec fn first_named(members: Seq<(Seq<char>, JsonView)>, key: Seq<char>) -> JsonView
    decreases members.len(),
{
    if members.len() == 0 {
        JsonView::Null
    } else if members[0].0 == key {
        members[0].1
    } else {
        first_named(members.drop_first(), key)
    }
}

impl JsonView {
    /// The member of this name: of an object that has one, its value; of
    /// any other value, `Null`.
    pub open spec fn member(self, key: Seq<char>) -> JsonView {
        match self {
            JsonView::Object(members) => first_named(members, key),
            _ => JsonView::Null,
        }
    }
}

/// `serde_json::Value`, a parsed JSON value: known by `value_model` only,
/// and copied into a `Json` before anything is read from it.
#[verifier::external_type_specification]
#[verifier::external_body]
pub struct ExValue(serde_json::Value);

/// What a value of `serde_json` holds, as plain data: its kind and its
/// parts, a number by the text that `Display` gives it, an object by its
/// members in the order in which its map hands them out.
pub uninterp spec fn value_model(v: serde_json::Value) -> JsonView;

/// What `serde_json::from_str` reads from a text as a value, as plain data,
/// or nothing where it refuses the text.
pub uninterp spec fn parsed(text: Seq<char>) -> Option<JsonView>;

/// `serde_json::from_str`, reading a `serde_json::Value`. The contract only
/// names the result: the same text gives the same value or the same
/// refusal.
#[verifier::external_body]
fn parse_value(text: &str) -> (r: Result<serde_json::Value, serde_json::Error>)
    ensures
        match r {
            Ok(v) => parsed(text@) == Some(value_model(v)),
            Err(_) => parsed(text@).is_none(),
        },
{
    serde_json::from_str::<serde_json::Value>(text)
}

/// Copies a value of `serde_json` into a `Json`, kind by kind and part by
/// part. The contract says that the copy holds what the value holds.
#[verifier::external_body]
fn from_value(v: &serde_json::Value) -> (j: Json)
    ensures
        j@ == value_model(*v),
{
    match v {
        serde_json::Value::Null => Json::Null,
        serde_json::Value::Bool(b) => Json::Bool(*b),
        serde_json::Value::Number(n) => Json::Number(n.to_string()),
        serde_json::Value::String(s) => Json::Str(s.clone()),
        serde_json::Value::Array(items) => Json::Array(items.iter().map(from_value).collect()),
        serde_json::Value::Object(members) => Json::Object(
            members.iter().map(|(k, v)| (k.clone(), from_value(v))).collect(),
        ),
    }
}

/// Reads a JSON text.
pub fn parse(text: &str) -> (r: RescResult<Json>)
    ensures
        match parsed(text@) {
            Some(model) => r.is_ok() && r.unwrap()@ == model,
            None => r matches Err(RescError::Json(_)),
        },
{
    match parse_value(text) {
        Ok(v) => Ok(from_value(&v)),
        Err(e) => Err(RescError::Json(e)),
    }
}

impl Json {
    /// The member of this name, if the value is an object that has one.
    pub fn member(&self, key: &str) -> (r: Option<&Json>)
        ensures
            match r {
                Some(j) => j@ == self@.member(key@),
                None => self@.member(key@) == JsonView::Null,
            },
    {
        match self {
            Json::Object(members) => {
                let ghost all = self@->Object_0;
                let mut i: usize = 0;
                proof {
                    assert(all.skip(0) =~= all);
                }
                while i < members.len()
                    invariant
                        i <= members@.len(),
                        self@ == JsonView::Object(all),
                        all.len() == members@.len(),
                        forall|k: int|
                            0 <= k < members@.len() ==> all[k] == (
                                members@[k].0@,
                                #[trigger] members@[k].1@,
                            ),
                        first_named(all, key@) == first_named(all.skip(i as int), key@),
                    decreases members@.len() - i,
                {
                    let ghost rest = all.skip(i as int);
                    proof {
                        assert(rest.len() > 0);
                        assert(rest.drop_first() =~= all.skip(i + 1));
                        assert(rest[0] == all[i as int]);
                        assert(all[i as int] == (members@[i as int].0@, members@[i as int].1@));
                    }
                    if same_text(members[i].0.as_str(), key) {
                        assert(first_named(rest, key@) == rest[0].1);
                        return Some(&members[i].1);
                    }
                    assert(first_named(rest, key@) == first_named(rest.drop_first(), key@));
                    i += 1;
                }
                None
            },
            _ => None,
        }
    }
}

} // verus!
