//! JSON values as the modelers send them, and typed access to their fields.
use vstd::prelude::*;

verus! {

/// A JSON number: its text, and the integer it truncates to (toward zero,
/// saturating at the bounds of i64).
#[derive(Debug)]
pub struct JsonNumber {
    pub text: String,
    pub truncated: i64,
}

/// A JSON value. Object fields keep their order; keys are distinct.
#[derive(Debug)]
pub enum Json {
    Null,
    Bool(bool),
    Number(JsonNumber),
    String(String),
    List(Vec<Json>),
    Object(Vec<(String, Json)>),
}

/// Why a field could not be read.
#[derive(Debug, PartialEq, Eq)]
pub enum JsonError {
    /// The value is not an object.
    NotAnObject,
    /// The object has no field of this name.
    MissingKey(String),
    /// The field (or a list item) is not a string.
    NotAString,
    /// The field is not a list.
    NotAList,
    /// The field is not a number.
    NotANumber,
}

pub ghost enum JsonErrorModel {
    NotAnObject,
    MissingKey(Seq<char>),
    NotAString,
    NotAList,
    NotANumber,
}

impl View for JsonError {
    type V = JsonErrorModel;

    open spec fn view(&self) -> JsonErrorModel {
        match self {
            JsonError::NotAnObject => JsonErrorModel::NotAnObject,
            JsonError::MissingKey(k) => JsonErrorModel::MissingKey(k@),
            JsonError::NotAString => JsonErrorModel::NotAString,
            JsonError::NotAList => JsonErrorModel::NotAList,
            JsonError::NotANumber => JsonErrorModel::NotANumber,
        }
    }
}

/// The value of the first field named `key` at or after index `i`.
pub open spec fn field_from(fields: Seq<(String, Json)>, key: Seq<char>, i: nat) -> Option<Json>
    decreases fields.len() - i,
{
    if i >= fields.len() {
        None
    } else if fields[i as int].0@ == key {
        Some(fields[i as int].1)
    } else {
        field_from(fields, key, i + 1)
    }
}

/// The field named `key` of `value`, or why there is none.
pub open spec fn field_result(value: Json, key: Seq<char>) -> Result<Json, JsonErrorModel> {
    match value {
        Json::Object(fields) => match field_from(fields@, key, 0) {
            Some(v) => Ok(v),
            None => Err(JsonErrorModel::MissingKey(key)),
        },
        _ => Err(JsonErrorModel::NotAnObject),
    }
}

/// The string field named `key` of `value`, or why there is none.
pub open spec fn str_field(value: Json, key: Seq<char>) -> Result<Seq<char>, JsonErrorModel> {
    match field_result(value, key) {
        Ok(Json::String(s)) => Ok(s@),
        Ok(_) => Err(JsonErrorModel::NotAString),
        Err(e) => Err(e),
    }
}

/// The string field named `key` of `value` if there is one.
pub open spec fn opt_str_field(value: Json, key: Seq<char>) -> Option<Seq<char>> {
    match str_field(value, key) {
        Ok(s) => Some(s),
        Err(_) => None,
    }
}

/// The number field named `key` of `value` truncated to an integer, or why
/// there is none.
pub open spec fn int_field(value: Json, key: Seq<char>) -> Result<i64, JsonErrorModel> {
    match field_result(value, key) {
        Ok(Json::Number(x)) => Ok(x.truncated),
        Ok(_) => Err(JsonErrorModel::NotANumber),
        Err(e) => Err(e),
    }
}

/// The number field named `key` of `value` (its text and truncation), or why
/// there is none.
pub open spec fn number_field(value: Json, key: Seq<char>) -> Result<(Seq<char>, i64), JsonErrorModel> {
    match field_result(value, key) {
        Ok(Json::Number(x)) => Ok((x.text@, x.truncated)),
        Ok(_) => Err(JsonErrorModel::NotANumber),
        Err(e) => Err(e),
    }
}

/// The strings of the list field named `key` of `value`, or why there are none.
pub open spec fn strs_field(value: Json, key: Seq<char>) -> Result<Seq<Seq<char>>, JsonErrorModel> {
    match field_result(value, key) {
        Ok(Json::List(items)) => if all_strings(items@) {
            Ok(items@.map_values(|x: Json| string_of_json(x)))
        } else {
            Err(JsonErrorModel::NotAString)
        },
        Ok(_) => Err(JsonErrorModel::NotAList),
        Err(e) => Err(e),
    }
}

/// The text of each string.
pub open spec fn texts(s: Seq<String>) -> Seq<Seq<char>> {
    s.map_values(|x: String| x@)
}

/// The strings of a list of JSON values, when they all are strings.
pub open spec fn all_strings(items: Seq<Json>) -> bool {
    forall|i: int| 0 <= i < items.len() ==> #[trigger] items[i] is String
}

pub open spec fn string_of_json(v: Json) -> Seq<char> {
    match v {
        Json::String(s) => s@,
        _ => Seq::empty(),
    }
}

/// The value of the field named `key` of an object.
pub fn find_field<'a>(fields: &'a Vec<(String, Json)>, key: &str) -> (r: Option<&'a Json>)
    ensures
        match r {
            Some(v) => field_from(fields@, key@, 0) == Some(*v),
            None => field_from(fields@, key@, 0) is None,
        },
{
    let mut i: usize = 0;
    while i < fields.len()
        invariant
            i <= fields@.len(),
            field_from(fields@, key@, 0) == field_from(fields@, key@, i as nat),
        decreases fields.len() - i,
    {
        if crate::text::str_eq(fields[i].0.as_str(), key) {
            return Some(&fields[i].1);
        }
        i = i + 1;
    }
    None
}

/// The field named `key` of `value`.
pub fn get_field<'a>(value: &'a Json, key: &str) -> (r: Result<&'a Json, JsonError>)
    ensures
        match r {
            Ok(v) => field_result(*value, key@) == Ok::<Json, JsonErrorModel>(*v),
            Err(e) => field_result(*value, key@) == Err::<Json, JsonErrorModel>(e@),
        },
{
    match value {
        Json::Object(fields) => match find_field(fields, key) {
            Some(v) => Ok(v),
            None => Err(JsonError::MissingKey(String::from_str(key))),
        },
        _ => Err(JsonError::NotAnObject),
    }
}

fn copy_string(s: &String) -> (r: String)
    ensures
        r@ == s@,
{
    String::from_str(s.as_str())
}

/// The string field named `key` of `value`.
pub fn get_str(value: &Json, key: &str) -> (r: Result<String, JsonError>)
    ensures
        match r {
            Ok(s) => str_field(*value, key@) == Ok::<Seq<char>, JsonErrorModel>(s@),
            Err(e) => str_field(*value, key@) == Err::<Seq<char>, JsonErrorModel>(e@),
        },
{
    match get_field(value, key) {
        Ok(Json::String(s)) => Ok(copy_string(s)),
        Ok(_) => Err(JsonError::NotAString),
        Err(e) => Err(e),
    }
}

/// The string field named `key` of `value` if there is one; a field of
/// another type counts as none.
pub fn optional_str(value: &Json, key: &str) -> (r: Option<String>)
    ensures
        match r {
            Some(s) => opt_str_field(*value, key@) == Some(s@),
            None => opt_str_field(*value, key@) is None,
        },
{
    match get_str(value, key) {
        Ok(s) => Some(s),
        Err(_) => None,
    }
}

/// Checks that the field named `key` of `value` is a list of strings;
/// else the error that reading it as one gives.
pub fn check_strs(value: &Json, key: &str) -> (r: Result<(), JsonError>)
    ensures
        match strs_field(*value, key@) {
            Ok(_) => r is Ok,
            Err(e) => r matches Err(x) && x@ == e,
        },
{
    match get_field(value, key) {
        Ok(Json::List(items)) => {
            let mut i: usize = 0;
            while i < items.len()
                invariant
                    i <= items@.len(),
                    field_result(*value, key@) == Ok::<Json, JsonErrorModel>(Json::List(*items)),
                    forall|k: int| 0 <= k < i ==> #[trigger] items@[k] is String,
                decreases items.len() - i,
            {
                match &items[i] {
                    Json::String(_) => {},
                    _ => {
                        return Err(JsonError::NotAString);
                    },
                }
                i = i + 1;
            }
            Ok(())
        },
        Ok(_) => Err(JsonError::NotAList),
        Err(e) => Err(e),
    }
}

/// The list of strings in the field named `key` of `value`, which must be
/// an object whose field `key` is a list of strings (see `check_strs`).
pub fn get_strs(value: &Json, key: &str) -> (r: Vec<String>)
    requires
        strs_field(*value, key@) is Ok,
    ensures
        strs_field(*value, key@) == Ok::<Seq<Seq<char>>, JsonErrorModel>(texts(r@)),
{
    let mut r: Vec<String> = Vec::new();
    match get_field(value, key) {
        Ok(Json::List(items)) => {
            let mut i: usize = 0;
            while i < items.len()
                invariant
                    i <= items@.len(),
                    field_result(*value, key@) == Ok::<Json, JsonErrorModel>(Json::List(*items)),
                    all_strings(items@),
                    r@.len() == i,
                    forall|k: int| 0 <= k < i ==> #[trigger] r@[k]@ == string_of_json(items@[k]),
                decreases items.len() - i,
            {
                assert(items@[i as int] is String);
                match &items[i] {
                    Json::String(s) => {
                        r.push(copy_string(s));
                    },
                    _ => {},
                }
                i = i + 1;
            }
            assert(texts(r@) =~= items@.map_values(|x: Json| string_of_json(x)));
        },
        _ => {},
    }
    r
}

/// Whether `value` is an object with a field named `key`.
pub fn has_value(value: &Json, key: &str) -> (r: bool)
    ensures
        r == (field_result(*value, key@) is Ok),
{
    match get_field(value, key) {
        Ok(_) => true,
        Err(_) => false,
    }
}

/// The number field named `key` of `value`, truncated to an integer.
pub fn get_i64(value: &Json, key: &str) -> (r: Result<i64, JsonError>)
    ensures
        match r {
            Ok(n) => int_field(*value, key@) == Ok::<i64, JsonErrorModel>(n),
            Err(e) => int_field(*value, key@) == Err::<i64, JsonErrorModel>(e@),
        },
{
    match get_field(value, key) {
        Ok(Json::Number(x)) => Ok(x.truncated),
        Ok(_) => Err(JsonError::NotANumber),
        Err(e) => Err(e),
    }
}

/// A copy of a JSON number.
pub fn copy_number(x: &JsonNumber) -> (r: JsonNumber)
    ensures
        r.text@ == x.text@,
        r.truncated == x.truncated,
{
    JsonNumber { text: copy_string(&x.text), truncated: x.truncated }
}

/// The number field named `key` of `value`.
pub fn get_number(value: &Json, key: &str) -> (r: Result<JsonNumber, JsonError>)
    ensures
        match r {
            Ok(n) => number_field(*value, key@) == Ok::<(Seq<char>, i64), JsonErrorModel>((n.text@, n.truncated)),
            Err(e) => number_field(*value, key@) == Err::<(Seq<char>, i64), JsonErrorModel>(e@),
        },
{
    match get_field(value, key) {
        Ok(Json::Number(x)) => Ok(copy_number(x)),
        Ok(_) => Err(JsonError::NotANumber),
        Err(e) => Err(e),
    }
}

/// The object field named `key` of `value` if there is one.
pub fn optional_object<'a>(value: &'a Json, key: &str) -> (r: Option<&'a Json>)
    ensures
        match r {
            Some(v) => field_result(*value, key@) == Ok::<Json, JsonErrorModel>(*v) && v is Object,
            None => !(field_result(*value, key@) matches Ok(Json::Object(_))),
        },
{
    match get_field(value, key) {
        Ok(v) => match v {
            Json::Object(_) => Some(v),
            _ => None,
        },
        Err(_) => None,
    }
}

/// The list field named `key` of `value` if there is one.
pub fn optional_list<'a>(value: &'a Json, key: &str) -> (r: Option<&'a Vec<Json>>)
    ensures
        match r {
            Some(items) => field_result(*value, key@) == Ok::<Json, JsonErrorModel>(Json::List(*items)),
            None => !(field_result(*value, key@) matches Ok(Json::List(_))),
        },
{
    match get_field(value, key) {
        Ok(Json::List(items)) => Some(items),
        _ => None,
    }
}

} // verus!
