//! Decoding errors and the decoding of single members of a wire object.

use vstd::prelude::*;
use crate::json::{Json, JsonView, lookup, member, members_view};

verus! {

/// Why a wire document could not be decoded, with the path of the offending
/// field (`message.role`; `content[].type` for a member of an array element).
#[derive(Debug)]
pub enum DecodeError {
    /// A required field is absent.
    Missing(String),
    /// A field is present with a value of the wrong shape.
    Invalid(String),
}

pub enum DecodeErrorView {
    Missing(Seq<char>),
    Invalid(Seq<char>),
}

impl View for DecodeError {
    type V = DecodeErrorView;

    open spec fn view(&self) -> DecodeErrorView {
        match self {
            DecodeError::Missing(p) => DecodeErrorView::Missing(p@),
            DecodeError::Invalid(p) => DecodeErrorView::Invalid(p@),
        }
    }
}

/// The model of a decoding result, given the model of what it holds.
pub open spec fn result_view<T, V>(r: Result<T, DecodeError>, f: spec_fn(T) -> V) -> Result<V, DecodeErrorView> {
    match r {
        Ok(t) => Ok(f(t)),
        Err(e) => Err(e@),
    }
}

/// An optional count: absent or `null` is no value, a number that fits in
/// `u32` is that value.
pub open spec fn decode_opt_u32(f: Option<JsonView>, path: Seq<char>) -> Result<Option<u32>, DecodeErrorView> {
    match f {
        None => Ok(None),
        Some(JsonView::Null) => Ok(None),
        Some(JsonView::Number(n)) => if n <= u32::MAX {
            Ok(Some(n as u32))
        } else {
            Err(DecodeErrorView::Invalid(path))
        },
        Some(_) => Err(DecodeErrorView::Invalid(path)),
    }
}

/// A required count.
pub open spec fn decode_u32(f: Option<JsonView>, path: Seq<char>) -> Result<u32, DecodeErrorView> {
    match f {
        None => Err(DecodeErrorView::Missing(path)),
        Some(JsonView::Number(n)) => if n <= u32::MAX {
            Ok(n as u32)
        } else {
            Err(DecodeErrorView::Invalid(path))
        },
        Some(_) => Err(DecodeErrorView::Invalid(path)),
    }
}

/// An optional string: absent or `null` is no value.
pub open spec fn decode_opt_str(f: Option<JsonView>, path: Seq<char>) -> Result<Option<Seq<char>>, DecodeErrorView> {
    match f {
        None => Ok(None),
        Some(JsonView::Null) => Ok(None),
        Some(JsonView::Str(s)) => Ok(Some(s)),
        Some(_) => Err(DecodeErrorView::Invalid(path)),
    }
}

/// A required string.
pub open spec fn decode_str(f: Option<JsonView>, path: Seq<char>) -> Result<Seq<char>, DecodeErrorView> {
    match f {
        None => Err(DecodeErrorView::Missing(path)),
        Some(JsonView::Str(s)) => Ok(s),
        Some(_) => Err(DecodeErrorView::Invalid(path)),
    }
}

pub open spec fn opt_string_view(o: Option<String>) -> Option<Seq<char>> {
    match o {
        Some(s) => Some(s@),
        None => None,
    }
}

/// The member `key` as an optional count.
pub fn opt_u32_member(ms: &Vec<(String, Json)>, key: &str, path: &str) -> (r: Result<Option<u32>, DecodeError>)
    ensures
        result_view(r, |o: Option<u32>| o) == decode_opt_u32(lookup(members_view(ms@), key@), path@),
{
    match member(ms, key) {
        None => Ok(None),
        Some(Json::Null) => Ok(None),
        Some(Json::Number(n)) => if *n <= 0xffff_ffffu64 {
            Ok(Some(*n as u32))
        } else {
            Err(DecodeError::Invalid(path.to_owned()))
        },
        Some(_) => Err(DecodeError::Invalid(path.to_owned())),
    }
}

/// The member `key` as a required count.
pub fn u32_member(ms: &Vec<(String, Json)>, key: &str, path: &str) -> (r: Result<u32, DecodeError>)
    ensures
        result_view(r, |n: u32| n) == decode_u32(lookup(members_view(ms@), key@), path@),
{
    match member(ms, key) {
        None => Err(DecodeError::Missing(path.to_owned())),
        Some(Json::Number(n)) => if *n <= 0xffff_ffffu64 {
            Ok(*n as u32)
        } else {
            Err(DecodeError::Invalid(path.to_owned()))
        },
        Some(_) => Err(DecodeError::Invalid(path.to_owned())),
    }
}

/// The member `key` as an optional string.
pub fn opt_str_member(ms: &Vec<(String, Json)>, key: &str, path: &str) -> (r: Result<Option<String>, DecodeError>)
    ensures
        result_view(r, |o: Option<String>| opt_string_view(o)) == decode_opt_str(lookup(members_view(ms@), key@), path@),
{
    match member(ms, key) {
        None => Ok(None),
        Some(Json::Null) => Ok(None),
        Some(Json::Str(s)) => Ok(Some(s.clone())),
        Some(_) => Err(DecodeError::Invalid(path.to_owned())),
    }
}

/// The member `key` as a required string.
pub fn str_member(ms: &Vec<(String, Json)>, key: &str, path: &str) -> (r: Result<String, DecodeError>)
    ensures
        result_view(r, |s: String| s@) == decode_str(lookup(members_view(ms@), key@), path@),
{
    match member(ms, key) {
        None => Err(DecodeError::Missing(path.to_owned())),
        Some(Json::Str(s)) => Ok(s.clone()),
        Some(_) => Err(DecodeError::Invalid(path.to_owned())),
    }
}

/// A count, or `null` for no value.
pub fn opt_u32_json(o: Option<u32>) -> (r: Json)
    ensures
        r@ == match o {
            Some(n) => JsonView::Number(n as nat),
            None => JsonView::Null,
        },
{
    match o {
        Some(n) => Json::Number(n as u64),
        None => Json::Null,
    }
}

/// A string, or `null` for no value.
pub fn opt_str_json(o: &Option<String>) -> (r: Json)
    ensures
        r@ == match opt_string_view(*o) {
            Some(s) => JsonView::Str(s),
            None => JsonView::Null,
        },
{
    match o {
        Some(s) => Json::Str(s.clone()),
        None => Json::Null,
    }
}

} // verus!
