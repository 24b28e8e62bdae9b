//! JSON texts, read with the `serde_json` crate.

use vstd::prelude::*;
use vstd::string::*;
use serde_json::{from_str, Value};
use crate::report;
use crate::text::str_eq;
use crate::text;

verus! {

/// A JSON value. What stands inside an array or an object is kept as JSON text.
#[derive(Debug)]
pub enum Json {
    Null,
    Bool(bool),
    /// A number, where it is one that a `u64` holds.
    Number(Option<u64>),
    Text(String),
    Array(Vec<String>),
    Object(Vec<Member>),
}

/// A member of a JSON object.
#[derive(Debug)]
pub struct Member {
    pub name: String,
    /// The value, as JSON text.
    pub value: String,
}

/// What a `Json` says.
#[verifier::ext_equal]
pub enum JsonView {
    Null,
    Bool(bool),
    Number(Option<u64>),
    Text(Seq<char>),
    Array(Seq<Seq<char>>),
    Object(Seq<(Seq<char>, Seq<char>)>),
}

pub open spec fn member_views(v: Seq<Member>) -> Seq<(Seq<char>, Seq<char>)> {
    Seq::new(v.len(), |i: int| (v[i].name@, v[i].value@))
}

impl View for Json {
    type V = JsonView;

    open spec fn view(&self) -> JsonView {
        match self {
            Json::Null => JsonView::Null,
            Json::Bool(b) => JsonView::Bool(*b),
            Json::Number(n) => JsonView::Number(*n),
            Json::Text(s) => JsonView::Text(s@),
            Json::Array(v) => JsonView::Array(text::texts(v@)),
            Json::Object(v) => JsonView::Object(member_views(v@)),
        }
    }
}

/// What the `serde_json` crate reads in a text: a value, or the message of its
/// error.
pub uninterp spec fn json_of(s: Seq<char>) -> Result<JsonView, Seq<char>>;

pub open spec fn parsed_view(r: Result<Json, String>) -> Result<JsonView, Seq<char>> {
    match r {
        Ok(j) => Ok(j@),
        Err(e) => Err(e@),
    }
}

/// `serde_json::from_str` into a `serde_json::Value`, of which the values inside
/// are turned back into texts. What it returns depends on the text alone; which
/// texts it accepts and what it finds in them is not stated.
#[verifier::external_body]
pub(crate) fn parse_json(s: &str) -> (r: Result<Json, String>)
    ensures
        parsed_view(r) == json_of(s@),
{
    match from_str(s) {
        Err(e) => Err(e.to_string()),
        Ok(Value::Null) => Ok(Json::Null),
        Ok(Value::Bool(b)) => Ok(Json::Bool(b)),
        Ok(Value::Number(n)) => Ok(Json::Number(n.as_u64())),
        Ok(Value::String(t)) => Ok(Json::Text(t)),
        Ok(Value::Array(v)) => Ok(Json::Array(v.iter().map(|x| x.to_string()).collect())),
        Ok(Value::Object(m)) => Ok(Json::Object(
            m.iter().map(|(k, x)| Member { name: k.clone(), value: x.to_string() }).collect(),
        )),
    }
}

/// The first member of a name, from position `i` on.
pub open spec fn member_from(m: Seq<(Seq<char>, Seq<char>)>, name: Seq<char>, i: int) -> Option<Seq<char>>
    decreases m.len() - i,
{
    if i >= m.len() {
        None
    } else if m[i].0 == name {
        Some(m[i].1)
    } else {
        member_from(m, name, i + 1)
    }
}

/// The member of a name, where the value is an object that has one.
pub open spec fn member_of(j: JsonView, name: Seq<char>) -> Option<Seq<char>> {
    match j {
        JsonView::Object(m) => member_from(m, name, 0),
        _ => None,
    }
}

/// The member of a name, where the value is an object that has one.
pub fn get_member(j: &Json, name: &str) -> (r: Option<String>)
    ensures
        report::opt(r) == member_of(j@, name@),
{
    match j {
        Json::Object(m) => {
            let ghost all = member_views(m@);
            let mut i: usize = 0;
            while i < m.len()
                invariant
                    i <= m@.len(),
                    all == member_views(m@),
                    member_of(j@, name@) == member_from(all, name@, 0),
                    member_from(all, name@, 0) == member_from(all, name@, i as int),
                decreases m@.len() - i,
            {
                if str_eq(m[i].name.as_str(), name) {
                    return Some(m[i].value.clone());
                }
                i += 1;
            }
            None
        },
        _ => None,
    }
}

/// What a JSON text says, where there is one and it can be read.
pub open spec fn read_of(s: Option<Seq<char>>) -> Option<JsonView> {
    match s {
        Some(t) => match json_of(t) {
            Ok(j) => Some(j),
            Err(_) => None,
        },
        None => None,
    }
}

pub open spec fn read_view(r: Option<Json>) -> Option<JsonView> {
    match r {
        Some(j) => Some(j@),
        None => None,
    }
}

/// What a member of an object says, where there is one.
pub fn read_member(j: &Json, name: &str) -> (r: Option<Json>)
    ensures
        read_view(r) == read_of(member_of(j@, name@)),
{
    match get_member(j, name) {
        Some(t) => match parse_json(t.as_str()) {
            Ok(v) => Some(v),
            Err(_) => None,
        },
        None => None,
    }
}

/// The text that a value is, where it is one.
pub open spec fn text_in(j: Option<JsonView>) -> Option<Seq<char>> {
    match j {
        Some(JsonView::Text(s)) => Some(s),
        _ => None,
    }
}

/// The number that a value is, where it is one.
pub open spec fn number_in(j: Option<JsonView>) -> Option<u64> {
    match j {
        Some(JsonView::Number(n)) => n,
        _ => None,
    }
}

/// The truth value that a value is, where it is one.
pub open spec fn bool_in(j: Option<JsonView>) -> Option<bool> {
    match j {
        Some(JsonView::Bool(b)) => Some(b),
        _ => None,
    }
}

/// The text that a value is, where it is one.
pub fn as_text(j: Option<Json>) -> (r: Option<String>)
    ensures
        report::opt(r) == text_in(read_view(j)),
{
    match j {
        Some(Json::Text(s)) => Some(s),
        _ => None,
    }
}

/// The number that a value is, where it is one.
pub fn as_number(j: Option<Json>) -> (r: Option<u64>)
    ensures
        r == number_in(read_view(j)),
{
    match j {
        Some(Json::Number(n)) => n,
        _ => None,
    }
}

/// The truth value that a value is, where it is one.
pub fn as_bool(j: Option<Json>) -> (r: Option<bool>)
    ensures
        r == bool_in(read_view(j)),
{
    match j {
        Some(Json::Bool(b)) => Some(b),
        _ => None,
    }
}

/// A member of an object is the first of its name; what is no object has none.
pub proof fn law_members(m: Seq<(Seq<char>, Seq<char>)>, name: Seq<char>, k: int, j: JsonView)
    requires
        0 <= k <= m.len(),
        forall|i: int| 0 <= i < k ==> (#[trigger] m[i]).0 != name,
    ensures
        k < m.len() && m[k].0 == name ==> member_of(JsonView::Object(m), name) == Some(m[k].1),
        k == m.len() ==> member_of(JsonView::Object(m), name) is None,
        !(j is Object) ==> member_of(j, name) is None,
{
    lemma_member(m, name, 0, k);
}

proof fn lemma_member(m: Seq<(Seq<char>, Seq<char>)>, name: Seq<char>, from: int, k: int)
    requires
        0 <= from <= k <= m.len(),
        forall|i: int| from <= i < k ==> (#[trigger] m[i]).0 != name,
    ensures
        k < m.len() && m[k].0 == name ==> member_from(m, name, from) == Some(m[k].1),
        k == m.len() ==> member_from(m, name, from) is None,
    decreases k - from,
{
    if from < k {
        lemma_member(m, name, from + 1, k);
    }
}

/// A value is read as what it is, and as nothing else.
pub proof fn law_values(s: Seq<char>, n: Option<u64>, b: bool, j: JsonView)
    ensures
        text_in(Some(JsonView::Text(s))) == Some(s),
        number_in(Some(JsonView::Number(n))) == n,
        bool_in(Some(JsonView::Bool(b))) == Some(b),
        !(j is Text) ==> text_in(Some(j)) is None,
        !(j is Number) ==> number_in(Some(j)) is None,
        !(j is Bool) ==> bool_in(Some(j)) is None,
        text_in(None) is None && number_in(None) is None && bool_in(None) is None,
{
}
} // verus!
