//! Reading the fields of a JSON object.
use crate::double::Double;
use crate::text;
use crate::watch::json::{Doc, Json};
use vstd::prelude::*;

verus! {

/// The number under `key`.
pub open spec fn float_at_spec(o: Doc, key: Seq<char>) -> Option<Double> {
    match o.get(key) {
        Some(v) => v.to_float(),
        None => None,
    }
}

/// The number under `key`.
pub fn float_at(o: &Json, key: &str) -> (r: Option<Double>)
    ensures
        r == float_at_spec(o@, key@),
{
    match o.get(key) {
        Some(v) => v.to_float(),
        None => None,
    }
}

/// The number under `key`, `other` where there is none.
pub open spec fn float_or_spec(o: Doc, key: Seq<char>, other: Double) -> Double {
    match float_at_spec(o, key) {
        Some(f) => f,
        None => other,
    }
}

/// The number under `key`, `other` where there is none.
pub fn float_or(o: &Json, key: &str, other: Double) -> (r: Double)
    ensures
        r == float_or_spec(o@, key@, other),
{
    match float_at(o, key) {
        Some(f) => f,
        None => other,
    }
}

/// The number under `key`, `other` where there is none or it is a text.
pub open spec fn num_or_spec(o: Doc, key: Seq<char>, other: Double) -> Double {
    match o.get(key) {
        Some(v) => match v.num() {
            Some(f) => f,
            None => other,
        },
        None => other,
    }
}

/// The number under `key`, `other` where there is none or it is a text.
pub fn num_or(o: &Json, key: &str, other: Double) -> (r: Double)
    ensures
        r == num_or_spec(o@, key@, other),
{
    match o.get(key) {
        Some(v) => match v.num() {
            Some(f) => f,
            None => other,
        },
        None => other,
    }
}

/// The number under `key`, 0 where it counts as false, `other` where it is no number.
pub open spec fn truthy_float_spec(o: Doc, key: Seq<char>, other: Double) -> Double {
    match o.float_or0(key) {
        Some(f) => f,
        None => other,
    }
}

/// The number under `key`, 0 where it counts as false, `other` where it is no number.
pub fn truthy_float(o: &Json, key: &str, other: Double) -> (r: Double)
    ensures
        r == truthy_float_spec(o@, key@, other),
{
    match o.float_or0(key) {
        Some(f) => f,
        None => other,
    }
}

/// The value under `key` as text, `other` where there is none.
pub open spec fn shown_spec(o: Doc, key: Seq<char>, other: Seq<char>) -> Seq<char> {
    match o.get(key) {
        Some(v) => v.py_str(),
        None => other,
    }
}

/// The value under `key` as text, `other` where there is none.
pub fn shown(o: &Json, key: &str, other: &str) -> (r: String)
    ensures
        r@ == shown_spec(o@, key@, other@),
{
    match o.get(key) {
        Some(v) => v.py_str(),
        None => text::owned(other),
    }
}

/// The text under `key`, `other` where there is none.
pub open spec fn text_or_spec(o: Doc, key: Seq<char>, other: Seq<char>) -> Seq<char> {
    match o.get(key) {
        Some(v) => match v.as_text() {
            Some(s) => s,
            None => other,
        },
        None => other,
    }
}

/// The text under `key`, `other` where there is none.
pub fn text_or(o: &Json, key: &str, other: &str) -> (r: String)
    ensures
        r@ == text_or_spec(o@, key@, other@),
{
    match o.get(key) {
        Some(v) => match v.as_str() {
            Some(s) => text::owned(s),
            None => text::owned(other),
        },
        None => text::owned(other),
    }
}

/// The value under `key`, an empty object where there is none.
pub open spec fn object_or_spec(o: Doc, key: Seq<char>) -> Doc {
    match o.get(key) {
        Some(v) => v,
        None => Doc::obj(),
    }
}

/// The value under `key`, an empty object where there is none.
pub fn object_or(o: &Json, key: &str) -> (r: Json)
    ensures
        r@ == object_or_spec(o@, key@),
{
    match o.get(key) {
        Some(v) => v.copy(),
        None => Json::obj(),
    }
}

} // verus!
