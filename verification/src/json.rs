//! JSON values, held as their canonical text.
//!
//! A value is kept in the compact form `serde_json` prints, with object keys in
//! sorted order, so two values hold the same text exactly when they are the
//! same value. Everything that reads or builds a value goes through
//! `serde_json`; the names below stand for what it answers.

use vstd::prelude::*;

verus! {

/// The canonical text of the value `text` parses as, if it parses.
pub uninterp spec fn json_canonical(text: Seq<char>) -> Option<Seq<char>>;

/// The canonical text of the member `key` of the object `text`.
pub uninterp spec fn json_member(text: Seq<char>, key: Seq<char>) -> Option<Seq<char>>;

/// The string `text` holds, when it is a JSON string.
pub uninterp spec fn json_string_value(text: Seq<char>) -> Option<Seq<char>>;

/// The number `text` holds, when it is a non-negative integer that fits a `u64`.
pub uninterp spec fn json_unsigned(text: Seq<char>) -> Option<u64>;

/// The canonical texts of the elements of the array `text`, in order.
pub uninterp spec fn json_elements(text: Seq<char>) -> Option<Seq<Seq<char>>>;

/// The members of the object `text`, in key order.
pub uninterp spec fn json_fields(text: Seq<char>) -> Option<Seq<(Seq<char>, Seq<char>)>>;

/// The canonical text of the JSON string holding `s`.
pub uninterp spec fn json_from_string(s: Seq<char>) -> Seq<char>;

/// The canonical text of the object `text` with member `key` set to `value`.
pub uninterp spec fn json_with_member(text: Seq<char>, key: Seq<char>, value: Seq<char>) -> Option<Seq<char>>;

/// The canonical text of the object with the given members.
pub uninterp spec fn json_object_from(entries: Seq<(Seq<char>, Seq<char>)>) -> Seq<char>;

/// The canonical text of the array with the given elements.
pub uninterp spec fn json_array_from(items: Seq<Seq<char>>) -> Seq<char>;

/// The text `serde_json` reports for a body that does not parse.
pub uninterp spec fn json_error_text(text: Seq<char>) -> Seq<char>;

/// The text of a boolean.
pub open spec fn bool_text(b: bool) -> Seq<char> {
    if b { "true"@ } else { "false"@ }
}

/// The member `key` of the value `j`, when `j` is an object holding one.
pub open spec fn member(j: Option<Seq<char>>, key: Seq<char>) -> Option<Seq<char>> {
    match j {
        Some(t) => json_member(t, key),
        None => None,
    }
}

/// The string `j` holds, when it holds one.
pub open spec fn string_at(j: Option<Seq<char>>) -> Option<Seq<char>> {
    match j {
        Some(t) => json_string_value(t),
        None => None,
    }
}

/// The unsigned integer `j` holds, when it holds one.
pub open spec fn unsigned_at(j: Option<Seq<char>>) -> Option<u64> {
    match j {
        Some(t) => json_unsigned(t),
        None => None,
    }
}

/// The elements of `j`, when it is an array.
pub open spec fn elements_at(j: Option<Seq<char>>) -> Option<Seq<Seq<char>>> {
    match j {
        Some(t) => json_elements(t),
        None => None,
    }
}

/// The first element of `j`, when it is a non-empty array.
pub open spec fn first_at(j: Option<Seq<char>>) -> Option<Seq<char>> {
    match elements_at(j) {
        Some(e) => if e.len() > 0 { Some(e[0]) } else { None },
        None => None,
    }
}

/// An optional value, by its text.
pub open spec fn json_opt_view(j: Option<Json>) -> Option<Seq<char>> {
    match j {
        Some(x) => Some(x@),
        None => None,
    }
}

/// A JSON value.
#[derive(Debug, Clone, PartialEq, Eq, Hash)]
pub struct Json {
    text: String,
}

impl View for Json {
    type V = Seq<char>;

    closed spec fn view(&self) -> Seq<char> {
        self.text@
    }
}

impl Json {
    /// Parses `text`, keeping the value in canonical form.
    pub fn parse(text: &str) -> (r: Option<Json>)
        ensures
            r matches Some(j) ==> json_canonical(text@) == Some(j@),
            r is None ==> json_canonical(text@) is None,
    {
        match Json::parse_or_reason(text) {
            Ok(j) => Some(j),
            Err(_) => None,
        }
    }

    /// Parses `text` with `serde_json::from_str` into a `serde_json::Value`
    /// and prints it back with `to_string`; the contract claims the result
    /// is the canonical text `json_canonical` names, or, when that names
    /// none, the error's text as `json_error_text` names it.
    #[verifier::external_body]
    pub(crate) fn parse_or_reason(text: &str) -> (r: Result<Json, String>)
        ensures
            r matches Ok(j) ==> json_canonical(text@) == Some(j@),
            r matches Err(e) ==> json_canonical(text@) is None && e@ == json_error_text(text@),
    {
        match serde_json::from_str::<serde_json::Value>(text) {
            Ok(value) => Ok(Json { text: value.to_string() }),
            Err(error) => Err(error.to_string()),
        }
    }

    /// The value's canonical text.
    pub fn text(&self) -> (r: &str)
        ensures
            r@ == self@,
    {
        self.text.as_str()
    }

    /// `null`.
    pub fn null() -> (r: Json)
        ensures
            r@ == "null"@,
    {
        Json { text: crate::text::owned("null") }
    }

    /// The empty object, `{}`.
    pub fn empty_object() -> (r: Json)
        ensures
            r@ == "{}"@,
    {
        Json { text: crate::text::owned("{}") }
    }

    /// `true` or `false`.
    pub fn boolean(b: bool) -> (r: Json)
        ensures
            r@ == bool_text(b),
    {
        if b {
            Json { text: crate::text::owned("true") }
        } else {
            Json { text: crate::text::owned("false") }
        }
    }

    /// A non-negative integer, by `serde_json::Value::from(u64)` printed
    /// with `to_string`; the contract claims the text is `n`'s decimal
    /// digits, and that it reads back as `n`.
    #[verifier::external_body]
    pub(crate) fn unsigned(n: u64) -> (r: Json)
        ensures
            r@ == crate::text::decimal(n as nat),
            json_unsigned(r@) == Some(n),
    {
        Json { text: serde_json::Value::from(n).to_string() }
    }

    /// The array with the given elements, in order, built as a
    /// `serde_json::Value::Array` and printed with `to_string`; the contract
    /// claims the text is what `json_array_from` names for the elements.
    #[verifier::external_body]
    pub(crate) fn array(items: &[Json]) -> (r: Json)
        ensures
            r@ == json_array_from(items@.map_values(|j: Json| j@)),
    {
        let values: Vec<serde_json::Value> = items
            .iter()
            .map(|item| serde_json::from_str(&item.text).unwrap_or(serde_json::Value::Null))
            .collect();
        Json { text: serde_json::Value::Array(values).to_string() }
    }

    /// The same value, copied.
    pub fn duplicate(&self) -> (r: Json)
        ensures
            r == *self,
    {
        Json { text: self.text.clone() }
    }

    /// The member `key` of this object, by `serde_json::Value::get`; the
    /// contract claims the member's text is what `json_member` names, and
    /// `None` exactly when it names none.
    #[verifier::external_body]
    pub(crate) fn get(&self, key: &str) -> (r: Option<Json>)
        ensures
            r matches Some(j) ==> json_member(self@, key@) == Some(j@),
            r is None ==> json_member(self@, key@) is None,
    {
        let value: serde_json::Value = serde_json::from_str(&self.text).ok()?;
        value.get(key).map(|member| Json { text: member.to_string() })
    }

    /// The member `key` of an optional value.
    pub fn member_of(j: &Option<Json>, key: &str) -> (r: Option<Json>)
        ensures
            match member(json_opt_view(*j), key@) {
                Some(m) => r matches Some(x) && x@ == m,
                None => r is None,
            },
    {
        match j {
            Some(v) => v.get(key),
            None => None,
        }
    }

    /// The string an optional value holds.
    pub fn string_of(j: &Option<Json>) -> (r: Option<String>)
        ensures
            match string_at(json_opt_view(*j)) {
                Some(m) => r matches Some(x) && x@ == m,
                None => r is None,
            },
    {
        match j {
            Some(v) => v.as_str(),
            None => None,
        }
    }

    /// The unsigned integer an optional value holds.
    pub fn unsigned_of(j: &Option<Json>) -> (r: Option<u64>)
        ensures
            r == unsigned_at(json_opt_view(*j)),
    {
        match j {
            Some(v) => v.as_u64(),
            None => None,
        }
    }

    /// The elements of an optional value, when it is an array.
    pub fn elements_of(j: &Option<Json>) -> (r: Option<Vec<Json>>)
        ensures
            match elements_at(json_opt_view(*j)) {
                Some(e) => r matches Some(v) && v@.map_values(|x: Json| x@) == e,
                None => r is None,
            },
    {
        match j {
            Some(v) => {
                let r = v.as_array();
                match &r {
                    Some(items) => {
                        assert(items@.map_values(|x: Json| x@) =~= json_elements(v@)->0);
                    }
                    None => {}
                }
                r
            }
            None => None,
        }
    }

    /// The first element of an optional value, when it is a non-empty array.
    pub fn first_of(j: &Option<Json>) -> (r: Option<Json>)
        ensures
            match first_at(json_opt_view(*j)) {
                Some(m) => r matches Some(x) && x@ == m,
                None => r is None,
            },
    {
        match Json::elements_of(j) {
            Some(items) => {
                if items.len() > 0 {
                    Some(items[0].duplicate())
                } else {
                    None
                }
            }
            None => None,
        }
    }

    /// The string this value holds, by `serde_json::Value::as_str`; the
    /// contract claims it is what `json_string_value` names.
    #[verifier::external_body]
    pub(crate) fn as_str(&self) -> (r: Option<String>)
        ensures
            r matches Some(s) ==> json_string_value(self@) == Some(s@),
            r is None ==> json_string_value(self@) is None,
    {
        let value: serde_json::Value = serde_json::from_str(&self.text).ok()?;
        value.as_str().map(str::to_string)
    }

    /// The number this value holds, by `serde_json::Value::as_u64`; the
    /// contract claims it is what `json_unsigned` names.
    #[verifier::external_body]
    pub(crate) fn as_u64(&self) -> (r: Option<u64>)
        ensures
            r == json_unsigned(self@),
    {
        let value: serde_json::Value = serde_json::from_str(&self.text).ok()?;
        value.as_u64()
    }

    /// The elements of this array, in order, by
    /// `serde_json::Value::as_array`; the contract claims their texts are
    /// what `json_elements` names.
    #[verifier::external_body]
    pub(crate) fn as_array(&self) -> (r: Option<Vec<Json>>)
        ensures
            r matches Some(v) ==> json_elements(self@) matches Some(e) && e.len() == v@.len()
                && forall|i: int| 0 <= i < e.len() ==> #[trigger] e[i] == v@[i]@,
            r is None ==> json_elements(self@) is None,
    {
        let value: serde_json::Value = serde_json::from_str(&self.text).ok()?;
        value.as_array().map(|items| items.iter().map(|item| Json { text: item.to_string() }).collect())
    }

    /// The members of this object, in key order, by
    /// `serde_json::Value::as_object`; the contract claims they are what
    /// `json_fields` names.
    #[verifier::external_body]
    pub(crate) fn as_object(&self) -> (r: Option<Vec<(String, Json)>>)
        ensures
            r matches Some(v) ==> json_fields(self@) matches Some(e) && e.len() == v@.len()
                && forall|i: int| 0 <= i < e.len() ==> #[trigger] e[i] == (v@[i].0@, v@[i].1@),
            r is None ==> json_fields(self@) is None,
    {
        let value: serde_json::Value = serde_json::from_str(&self.text).ok()?;
        value.as_object().map(|members| {
            members.iter().map(|(key, member)| (key.clone(), Json { text: member.to_string() })).collect()
        })
    }

    /// The JSON string holding `s`, by `serde_json::Value::String` printed
    /// with `to_string`; the contract claims the text is what
    /// `json_from_string` names, and that it reads back as `s`.
    #[verifier::external_body]
    pub(crate) fn string(s: &str) -> (r: Json)
        ensures
            r@ == json_from_string(s@),
            json_string_value(r@) == Some(s@),
    {
        Json { text: serde_json::Value::String(s.to_string()).to_string() }
    }

    /// This object, with member `key` set to `value`, by
    /// `serde_json::Map::insert` on `as_object_mut`; `None` when this is not
    /// an object. The contract claims the text is what `json_with_member`
    /// names.
    #[verifier::external_body]
    pub(crate) fn with_member(&self, key: &str, value: &Json) -> (r: Option<Json>)
        ensures
            r matches Some(j) ==> json_with_member(self@, key@, value@) == Some(j@),
            r is None ==> json_with_member(self@, key@, value@) is None,
    {
        let mut object: serde_json::Value = serde_json::from_str(&self.text).ok()?;
        let member: serde_json::Value = serde_json::from_str(&value.text).ok()?;
        object.as_object_mut()?.insert(key.to_string(), member);
        Some(Json { text: object.to_string() })
    }

    /// The object with the given members, collected into a
    /// `serde_json::Map` and printed with `to_string`; the contract claims
    /// the text is what `json_object_from` names for the members.
    #[verifier::external_body]
    pub(crate) fn object(entries: &[(String, Json)]) -> (r: Json)
        ensures
            r@ == json_object_from(entries@.map_values(|e: (String, Json)| (e.0@, e.1@))),
    {
        let members: serde_json::Map<String, serde_json::Value> = entries
            .iter()
            .map(|(key, member)| (key.clone(), serde_json::from_str(&member.text).unwrap_or(serde_json::Value::Null)))
            .collect();
        Json { text: serde_json::Value::Object(members).to_string() }
    }
}

/// An object from (key, value) pairs.
pub(crate) fn object_of(entries: Vec<(String, Json)>) -> (r: Json)
    ensures
        r@ == json_object_from(entries@.map_values(|e: (String, Json)| (e.0@, e.1@))),
{
    Json::object(entries.as_slice())
}

pub(crate) fn entry(key: &str, value: Json) -> (r: (String, Json))
    ensures
        r.0@ == key@,
        r.1 == value,
{
    (crate::text::owned(key), value)
}

} // verus!
