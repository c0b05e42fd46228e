//! Reading typed method params out of JSON, and writing typed results back.
//! A missing or mistyped field is reported by name.

use vstd::prelude::*;
use vstd::string::*;
use crate::decimal::{decimal, lemma_decimal_injective, parse_u64, u64_text};
use crate::json::{entries_tree, member, object, object_entry, Json, JsonTree};

verus! {

/// The failure text for a field that is absent.
pub open spec fn missing_field(key: Seq<char>) -> Seq<char> {
    "missing field `"@ + key + "`"@
}

/// The failure text for a field whose value has the wrong type.
pub open spec fn invalid_field(key: Seq<char>) -> Seq<char> {
    "invalid type for field `"@ + key + "`"@
}

/// The failure text for params that are not an object.
pub open spec fn params_not_object() -> Seq<char> {
    "params must be an object"@
}

/// The failure text of a field: missing, or of the wrong type.
pub open spec fn field_failure(t: JsonTree, key: Seq<char>) -> Seq<char> {
    if member(t, key) is None {
        missing_field(key)
    } else {
        invalid_field(key)
    }
}

/// The string under `key`.
pub open spec fn text_of(t: JsonTree, key: Seq<char>) -> Result<Seq<char>, Seq<char>> {
    match member(t, key) {
        Some(JsonTree::Str(s)) => Ok(s),
        _ => Err(field_failure(t, key)),
    }
}

/// The `u64` under `key`.
pub open spec fn u64_of(t: JsonTree, key: Seq<char>) -> Result<u64, Seq<char>> {
    match member(t, key) {
        Some(JsonTree::Number(s)) => if exists|v: u64| s == decimal(v as nat) {
            Ok(choose|v: u64| s == decimal(v as nat))
        } else {
            Err(invalid_field(key))
        },
        _ => Err(field_failure(t, key)),
    }
}

/// The `u16` under `key`.
pub open spec fn u16_of(t: JsonTree, key: Seq<char>) -> Result<u16, Seq<char>> {
    match u64_of(t, key) {
        Ok(v) => if v <= 65535 {
            Ok(v as u16)
        } else {
            Err(invalid_field(key))
        },
        Err(e) => Err(e),
    }
}

/// The boolean under `key`.
pub open spec fn bool_of(t: JsonTree, key: Seq<char>) -> Result<bool, Seq<char>> {
    match member(t, key) {
        Some(JsonTree::Bool(b)) => Ok(b),
        _ => Err(field_failure(t, key)),
    }
}

/// The string under `key`, when there is one: absent and null are `None`.
pub open spec fn optional_text_of(t: JsonTree, key: Seq<char>) -> Result<
    Option<Seq<char>>,
    Seq<char>,
> {
    match member(t, key) {
        None => Ok(None),
        Some(JsonTree::Null) => Ok(None),
        Some(JsonTree::Str(s)) => Ok(Some(s)),
        _ => Err(invalid_field(key)),
    }
}

/// The `u64` under `key`, when there is one: absent and null are `None`.
pub open spec fn optional_u64_of(t: JsonTree, key: Seq<char>) -> Result<Option<u64>, Seq<char>> {
    match member(t, key) {
        None => Ok(None),
        Some(JsonTree::Null) => Ok(None),
        _ => match u64_of(t, key) {
            Ok(v) => Ok(Some(v)),
            Err(e) => Err(e),
        },
    }
}

/// Whether every item is a string.
pub open spec fn all_text(items: Seq<JsonTree>) -> bool {
    forall|i: int| 0 <= i < items.len() ==> items[i] is Str
}

/// The texts of a list of strings.
pub open spec fn str_values(items: Seq<JsonTree>) -> Seq<Seq<char>> {
    Seq::new(items.len(), |i: int| items[i]->Str_0)
}

/// The list of strings under `key`.
pub open spec fn text_list_of(t: JsonTree, key: Seq<char>) -> Result<Seq<Seq<char>>, Seq<char>> {
    match member(t, key) {
        Some(JsonTree::Array(items)) => if all_text(items) {
            Ok(str_values(items))
        } else {
            Err(invalid_field(key))
        },
        _ => Err(field_failure(t, key)),
    }
}

pub open spec fn view_result<T, U>(r: Result<T, String>, f: spec_fn(T) -> U) -> Result<U, Seq<char>> {
    match r {
        Ok(v) => Ok(f(v)),
        Err(e) => Err(e@),
    }
}

fn failure(j: &Json, key: &str) -> (r: String)
    ensures
        r@ == field_failure(j@, key@),
{
    let mut m = if j.get(key).is_none() {
        "missing field `".to_owned()
    } else {
        "invalid type for field `".to_owned()
    };
    m.append(key);
    m.append("`");
    m
}

fn invalid(key: &str) -> (r: String)
    ensures
        r@ == invalid_field(key@),
{
    let mut m = "invalid type for field `".to_owned();
    m.append(key);
    m.append("`");
    m
}

/// The string field `key` of `j`.
pub fn text_field(j: &Json, key: &str) -> (r: Result<String, String>)
    ensures
        view_result(r, |s: String| s@) == text_of(j@, key@),
{
    match j.get(key) {
        Some(Json::Str(s)) => Ok(s.clone()),
        _ => Err(failure(j, key)),
    }
}

/// The `u64` field `key` of `j`.
pub fn u64_field(j: &Json, key: &str) -> (r: Result<u64, String>)
    ensures
        view_result(r, |v: u64| v) == u64_of(j@, key@),
{
    match j.get(key) {
        Some(Json::Number(t)) => match parse_u64(t.as_str()) {
            Some(v) => {
                proof {
                    let w = choose|w: u64| t@ == decimal(w as nat);
                    lemma_decimal_injective(v as nat, w as nat);
                }
                Ok(v)
            },
            None => Err(invalid(key)),
        },
        _ => Err(failure(j, key)),
    }
}

/// The `u16` field `key` of `j`.
pub fn u16_field(j: &Json, key: &str) -> (r: Result<u16, String>)
    ensures
        view_result(r, |v: u16| v) == u16_of(j@, key@),
{
    match u64_field(j, key) {
        Ok(v) => if v <= 65535 {
            Ok(v as u16)
        } else {
            Err(invalid(key))
        },
        Err(e) => Err(e),
    }
}

/// The boolean field `key` of `j`.
pub fn bool_field(j: &Json, key: &str) -> (r: Result<bool, String>)
    ensures
        view_result(r, |b: bool| b) == bool_of(j@, key@),
{
    match j.get(key) {
        Some(Json::Bool(b)) => Ok(*b),
        _ => Err(failure(j, key)),
    }
}

pub open spec fn optional_text_view(o: Option<String>) -> Option<Seq<char>> {
    match o {
        Some(s) => Some(s@),
        None => None,
    }
}

/// The optional string field `key` of `j`.
pub fn optional_text_field(j: &Json, key: &str) -> (r: Result<Option<String>, String>)
    ensures
        view_result(r, |o: Option<String>| optional_text_view(o)) == optional_text_of(j@, key@),
{
    match j.get(key) {
        None => Ok(None),
        Some(Json::Null) => Ok(None),
        Some(Json::Str(s)) => Ok(Some(s.clone())),
        _ => Err(invalid(key)),
    }
}

/// The optional `u64` field `key` of `j`.
pub fn optional_u64_field(j: &Json, key: &str) -> (r: Result<Option<u64>, String>)
    ensures
        view_result(r, |o: Option<u64>| o) == optional_u64_of(j@, key@),
{
    match j.get(key) {
        None => Ok(None),
        Some(Json::Null) => Ok(None),
        _ => match u64_field(j, key) {
            Ok(v) => Ok(Some(v)),
            Err(e) => Err(e),
        },
    }
}

pub open spec fn text_list_view(v: Vec<String>) -> Seq<Seq<char>> {
    Seq::new(v@.len(), |i: int| v@[i]@)
}

/// The string-list field `key` of `j`.
pub fn text_list_field(j: &Json, key: &str) -> (r: Result<Vec<String>, String>)
    ensures
        view_result(r, |v: Vec<String>| text_list_view(v)) == text_list_of(j@, key@),
{
    let got = j.get(key);
    match got {
        Some(jv) => match jv {
            Json::Array(items) => {
                let ghost trees = jv@->Array_0;
                assert(member(j@, key@) == Some(JsonTree::Array(trees)));
                let mut out: Vec<String> = Vec::new();
                let mut i: usize = 0;
                while i < items.len()
                    invariant
                        i <= items@.len(),
                        member(j@, key@) == Some(JsonTree::Array(trees)),
                        trees.len() == items@.len(),
                        forall|k: int| 0 <= k < items@.len() ==> #[trigger] trees[k] == items@[k]@,
                        out@.len() == i,
                        forall|k: int| 0 <= k < i ==> (#[trigger] trees[k]) is Str,
                        forall|k: int| 0 <= k < i ==> (#[trigger] out@[k])@ == trees[k]->Str_0,
                    decreases items@.len() - i,
                {
                    assert(trees[i as int] == items@[i as int]@);
                    match &items[i] {
                        Json::Str(s) => {
                            assert(items@[i as int] == Json::Str(*s));
                            assert(trees[i as int] is Str);
                            out.push(s.clone());
                            assert(out@[i as int]@ == trees[i as int]->Str_0);
                        },
                        _ => {
                            assert(!all_text(trees));
                            return Err(invalid(key));
                        },
                    }
                    i = i + 1;
                }
                    assert(text_list_view(out) =~= str_values(trees));
                Ok(out)
            },
            _ => Err(failure(j, key)),
        },
        None => Err(failure(j, key)),
    }
}

/// Whether `j` is an object.
pub fn is_object(j: &Json) -> (r: bool)
    ensures
        r == (j@ is Object),
{
    match j {
        Json::Object(_) => true,
        _ => false,
    }
}

} // verus!
