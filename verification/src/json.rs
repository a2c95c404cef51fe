//! JSON documents as plain values.

use vstd::prelude::*;

use crate::text::str_eq;

verus! {

/// A JSON number: its value where it is an integer that fits `i64`, and the bit pattern of
/// what `as_f64` gives for it.
#[derive(Clone, Copy, Debug, PartialEq, Eq, Structural)]
pub struct JsonNumber {
    pub int: Option<i64>,
    pub bits: u64,
}

/// A JSON document. Members of an object stand in a list.
#[derive(Debug)]
pub enum Json {
    Null,
    Bool(bool),
    Number(JsonNumber),
    Text(String),
    List(Vec<Json>),
    Object(Vec<Member>),
}

/// One member of a JSON object.
#[derive(Debug)]
pub struct Member {
    pub key: String,
    pub value: Json,
}

/// What a JSON document holds.
pub ghost enum JsonView {
    Null,
    Bool(bool),
    Number(JsonNumber),
    Text(Seq<char>),
    List(Seq<JsonView>),
    Object(Seq<(Seq<char>, JsonView)>),
}

impl Json {
    pub open spec fn view(&self) -> JsonView
        decreases self,
    {
        match self {
            Json::Null => JsonView::Null,
            Json::Bool(b) => JsonView::Bool(*b),
            Json::Number(n) => JsonView::Number(*n),
            Json::Text(s) => JsonView::Text(s@),
            Json::List(v) => JsonView::List(
                Seq::new(
                    v@.len(),
                    |i: int|
                        if 0 <= i < v@.len() {
                            v@[i].view()
                        } else {
                            JsonView::Null
                        },
                ),
            ),
            Json::Object(v) => JsonView::Object(
                Seq::new(
                    v@.len(),
                    |i: int|
                        if 0 <= i < v@.len() {
                            (v@[i].key@, v@[i].value.view())
                        } else {
                            (Seq::<char>::empty(), JsonView::Null)
                        },
                ),
            ),
        }
    }
}

impl JsonView {
    /// The first member of that name, where the document is an object that has one.
    pub open spec fn get(self, key: Seq<char>) -> Option<JsonView> {
        match self {
            JsonView::Object(m) => first_member(m, key),
            _ => None,
        }
    }

    pub open spec fn as_text(self) -> Option<Seq<char>> {
        match self {
            JsonView::Text(s) => Some(s),
            _ => None,
        }
    }

    pub open spec fn as_list(self) -> Option<Seq<JsonView>> {
        match self {
            JsonView::List(v) => Some(v),
            _ => None,
        }
    }

    pub open spec fn as_int(self) -> Option<i64> {
        match self {
            JsonView::Number(n) => n.int,
            _ => None,
        }
    }

    pub open spec fn as_bool(self) -> Option<bool> {
        match self {
            JsonView::Bool(b) => Some(b),
            _ => None,
        }
    }

    /// The text under a member, where there is one.
    pub open spec fn text_at(self, key: Seq<char>) -> Option<Seq<char>> {
        match self.get(key) {
            Some(v) => v.as_text(),
            None => None,
        }
    }

    /// The text under a member, or the empty text.
    pub open spec fn text_or_empty(self, key: Seq<char>) -> Seq<char> {
        match self.text_at(key) {
            Some(t) => t,
            None => Seq::empty(),
        }
    }
}

pub open spec fn first_member(m: Seq<(Seq<char>, JsonView)>, key: Seq<char>) -> Option<JsonView>
    decreases m.len(),
{
    if m.len() == 0 {
        None
    } else if m[0].0 == key {
        Some(m[0].1)
    } else {
        first_member(m.skip(1), key)
    }
}

impl Json {
    /// The first member of that name, where the document is an object that has one.
    pub fn get(&self, key: &str) -> (r: Option<&Json>)
        ensures
            match r {
                Some(v) => self.view().get(key@) == Some(v.view()),
                None => self.view().get(key@) is None,
            },
    {
        match self {
            Json::Object(v) => {
                let ghost m = self.view()->Object_0;
                let mut i: usize = 0;
                assert(m.skip(0) =~= m);
                while i < v.len()
                    invariant
                        i <= v.len(),
                        m.len() == v@.len(),
                        self.view() == JsonView::Object(m),
                        forall|j: int|
                            0 <= j < v@.len() ==> #[trigger] m[j] == (
                                v@[j].key@,
                                v@[j].value.view(),
                            ),
                        first_member(m, key@) == first_member(m.skip(i as int), key@),
                    decreases v.len() - i,
                {
                    assert(m.skip(i as int)[0] == m[i as int]);
                    assert(m.skip(i as int).skip(1) =~= m.skip(i + 1));
                    if str_eq(v[i].key.as_str(), key) {
                        return Some(&v[i].value);
                    }
                    i = i + 1;
                }
                None
            },
            _ => None,
        }
    }

    pub fn as_text(&self) -> (r: Option<&String>)
        ensures
            match r {
                Some(s) => self.view().as_text() == Some(s@),
                None => self.view().as_text() is None,
            },
    {
        match self {
            Json::Text(s) => Some(s),
            _ => None,
        }
    }

    pub fn as_list(&self) -> (r: Option<&Vec<Json>>)
        ensures
            match r {
                Some(v) => self.view().as_list() == Some(list_view(v@)),
                None => self.view().as_list() is None,
            },
    {
        match self {
            Json::List(v) => {
                assert(self.view()->List_0 =~= list_view(v@));
                Some(v)
            },
            _ => None,
        }
    }

    pub fn as_int(&self) -> (r: Option<i64>)
        ensures
            r == self.view().as_int(),
    {
        match self {
            Json::Number(n) => n.int,
            _ => None,
        }
    }

    pub fn as_bool(&self) -> (r: Option<bool>)
        ensures
            r == self.view().as_bool(),
    {
        match self {
            Json::Bool(b) => Some(*b),
            _ => None,
        }
    }

    /// The text under a member, where there is one.
    pub fn text_at(&self, key: &str) -> (r: Option<&String>)
        ensures
            match r {
                Some(s) => self.view().text_at(key@) == Some(s@),
                None => self.view().text_at(key@) is None,
            },
    {
        match self.get(key) {
            Some(v) => v.as_text(),
            None => None,
        }
    }

    /// A copy of the text under a member, or the empty text.
    pub fn text_or_empty(&self, key: &str) -> (r: String)
        ensures
            r@ == self.view().text_or_empty(key@),
    {
        match self.text_at(key) {
            Some(s) => s.clone(),
            None => String::new(),
        }
    }
}

/// What each document of a list holds.
pub open spec fn list_view(v: Seq<Json>) -> Seq<JsonView> {
    v.map_values(|j: Json| j.view())
}

/// The characters of each string of a list.
pub open spec fn texts(v: Seq<String>) -> Seq<Seq<char>> {
    v.map_values(|s: String| s@)
}

/// The document type of serde_json.
#[verifier::external_type_specification]
#[verifier::external_body]
pub struct ExValue(serde_json::Value);

/// What a serde_json document holds.
pub uninterp spec fn value_view(v: serde_json::Value) -> JsonView;

/// The document that a JSON text denotes, or the message that says why it denotes none.
pub uninterp spec fn json_of_text(text: Seq<char>) -> Result<JsonView, Seq<char>>;

/// The list of strings that a JSON text denotes, where it denotes one.
pub uninterp spec fn string_list_of_text(text: Seq<char>) -> Option<Seq<Seq<char>>>;

/// The outcome of reading a JSON text, taken by its view.
pub open spec fn outcome_view(r: Result<Json, String>) -> Result<JsonView, Seq<char>> {
    match r {
        Ok(j) => Ok(j.view()),
        Err(e) => Err(e@),
    }
}

/// `serde_json::from_str` into a `serde_json::Value`: the outcome is a function of the text
/// alone. The error is the message that its `Display` gives.
#[verifier::external_body]
fn parse_value(text: &str) -> (r: Result<serde_json::Value, String>)
    ensures
        match r {
            Ok(v) => json_of_text(text@) == Ok::<JsonView, Seq<char>>(value_view(v)),
            Err(e) => json_of_text(text@) == Err::<JsonView, Seq<char>>(e@),
        },
{
    serde_json::from_str::<serde_json::Value>(text).map_err(|e| e.to_string())
}

/// Takes a `serde_json::Value` apart into a `Json` of the same shape: the same kind of value
/// at each place, list items in their order and object members in the order of
/// `serde_json::Map`. A number keeps what `Number::as_i64` gives and the bits of what
/// `Number::as_f64` gives.
#[verifier::external_body]
fn json_of_value(v: serde_json::Value) -> (j: Json)
    ensures
        j.view() == value_view(v),
{
    match v {
        serde_json::Value::Null => Json::Null,
        serde_json::Value::Bool(b) => Json::Bool(b),
        serde_json::Value::Number(n) => Json::Number(
            JsonNumber { int: n.as_i64(), bits: n.as_f64().map_or(0, |x| x.to_bits()) },
        ),
        serde_json::Value::String(s) => Json::Text(s),
        serde_json::Value::Array(a) => Json::List(a.into_iter().map(json_of_value).collect()),
        serde_json::Value::Object(m) => Json::Object(
            m.into_iter().map(|(key, v)| Member { key, value: json_of_value(v) }).collect(),
        ),
    }
}

/// `serde_json::from_str` into a `Vec<String>`: the outcome is a function of the text alone.
#[verifier::external_body]
pub(crate) fn parse_string_list(text: &str) -> (r: Option<Vec<String>>)
    ensures
        match r {
            Some(v) => string_list_of_text(text@) == Some(texts(v@)),
            None => string_list_of_text(text@) is None,
        },
{
    serde_json::from_str::<Vec<String>>(text).ok()
}

/// Reads a JSON text.
pub fn parse_json(text: &str) -> (r: Result<Json, String>)
    ensures
        outcome_view(r) == json_of_text(text@),
{
    match parse_value(text) {
        Ok(v) => Ok(json_of_value(v)),
        Err(e) => Err(e),
    }
}

/// The JSON form of a string.
pub uninterp spec fn json_string(s: Seq<char>) -> Seq<char>;

/// `serde_json::to_string` of a string, which fails on none: a function of the characters
/// alone.
#[verifier::external_body]
pub(crate) fn quote_string(s: &str) -> (r: String)
    ensures
        r@ == json_string(s@),
{
    serde_json::to_string(s).unwrap_or_default()
}

/// The value under a name is that of the first member of that name: one that has it and none
/// before does.
pub proof fn law_first_member(m: Seq<(Seq<char>, JsonView)>, key: Seq<char>)
    ensures
        JsonView::Object(m).get(key) == first_member(m, key),
        first_member(m, key) is None <==> forall|i: int| 0 <= i < m.len() ==> (#[trigger] m[i]).0 != key,
        first_member(m, key) matches Some(v) ==> exists|i: int|
            0 <= i < m.len() && (#[trigger] m[i]).0 == key && m[i].1 == v && forall|j: int|
                0 <= j < i ==> (#[trigger] m[j]).0 != key,
    decreases m.len(),
{
    if m.len() > 0 {
        let t = m.skip(1);
        law_first_member(t, key);
        if m[0].0 == key {
            assert(m[0].1 == first_member(m, key)->0);
        } else if first_member(t, key) is Some {
            let v = first_member(t, key)->0;
            let i = choose|i: int|
                0 <= i < t.len() && (#[trigger] t[i]).0 == key && t[i].1 == v && forall|j: int|
                    0 <= j < i ==> (#[trigger] t[j]).0 != key;
            assert(m[i + 1].0 == key && m[i + 1].1 == v);
            assert forall|j: int| 0 <= j < i + 1 implies (#[trigger] m[j]).0 != key by {
                if j > 0 {
                    assert(t[j - 1] == m[j]);
                }
            }
        } else {
            assert forall|i: int| 0 <= i < m.len() implies (#[trigger] m[i]).0 != key by {
                if i > 0 {
                    assert(t[i - 1] == m[i]);
                }
            }
        }
    }
}

/// A document is read as what it is: a text as a text, a number as its integer, and so on;
/// nothing is read as something else.
pub proof fn law_kinds(v: JsonView, key: Seq<char>)
    ensures
        v.as_text() matches Some(s) ==> v == JsonView::Text(s),
        v.as_list() matches Some(l) ==> v == JsonView::List(l),
        v.as_bool() matches Some(b) ==> v == JsonView::Bool(b),
        v.as_int() matches Some(i) ==> v matches JsonView::Number(n) && n.int == Some(i),
        v is Text ==> v.as_text() is Some,
        v is List ==> v.as_list() is Some,
        v is Bool ==> v.as_bool() is Some,
        v matches JsonView::Number(n) ==> v.as_int() == n.int,
        v.text_at(key) matches Some(s) ==> v.get(key) == Some(JsonView::Text(s)),
        v.get(key) matches Some(JsonView::Text(s)) ==> v.text_at(key) == Some(s) && v.text_or_empty(
            key,
        ) == s,
        v.text_at(key) is None ==> v.text_or_empty(key).len() == 0,
        !(v is Object) ==> v.get(key) is None,
{
}

/// What a document holds, kind by kind: items and members in their order.
pub proof fn law_json_view(j: Json, i: int)
    ensures
        j matches Json::Text(s) ==> j.view() == JsonView::Text(s@),
        j matches Json::Number(n) ==> j.view() == JsonView::Number(n),
        j matches Json::Bool(b) ==> j.view() == JsonView::Bool(b),
        j is Null ==> j.view() is Null,
        j matches Json::List(v) ==> (j.view() matches JsonView::List(m) && m.len() == v@.len() && (0
            <= i < v@.len() ==> m[i] == v@[i].view())),
        j matches Json::Object(v) ==> (j.view() matches JsonView::Object(m) && m.len() == v@.len()
            && (0 <= i < v@.len() ==> m[i] == (v@[i].key@, v@[i].value.view()))),
{
}

} // verus!
