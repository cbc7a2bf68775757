//! Typed reads of an object's members, with the rules of a derived
//! deserializer: a required member must be present with the right type; an
//! optional one may be absent or null.
use crate::json::{Json, JsonV};
use vstd::prelude::*;

verus! {

pub open spec fn u32_of(v: JsonV) -> Option<u32> {
    match v {
        JsonV::Int(n) => if 0 <= n <= u32::MAX {
            Some(n as u32)
        } else {
            None
        },
        _ => None,
    }
}

pub open spec fn u64_of(v: JsonV) -> Option<u64> {
    match v {
        JsonV::Int(n) => if 0 <= n <= u64::MAX {
            Some(n as u64)
        } else {
            None
        },
        _ => None,
    }
}

/// A required member read as a `u32`.
pub open spec fn req_u32(o: JsonV, key: Seq<char>) -> Option<u32> {
    match o.field(key) {
        Some(v) => u32_of(v),
        None => None,
    }
}

/// A required member read as a `u64`.
pub open spec fn req_u64(o: JsonV, key: Seq<char>) -> Option<u64> {
    match o.field(key) {
        Some(v) => u64_of(v),
        None => None,
    }
}

/// A required member read as text.
pub open spec fn req_text(o: JsonV, key: Seq<char>) -> Option<Seq<char>> {
    match o.field(key) {
        Some(v) => v.text(),
        None => None,
    }
}

/// An optional member read as a `u32`; the outer `None` is a type mismatch.
pub open spec fn opt_u32(o: JsonV, key: Seq<char>) -> Option<Option<u32>> {
    match o.field(key) {
        None => Some(None),
        Some(JsonV::Null) => Some(None),
        Some(v) => match u32_of(v) {
            Some(n) => Some(Some(n)),
            None => None,
        },
    }
}

/// An optional member read as text; the outer `None` is a type mismatch.
pub open spec fn opt_text(o: JsonV, key: Seq<char>) -> Option<Option<Seq<char>>> {
    match o.field(key) {
        None => Some(None),
        Some(JsonV::Null) => Some(None),
        Some(v) => match v.text() {
            Some(t) => Some(Some(t)),
            None => None,
        },
    }
}

/// The view of an optional string.
pub open spec fn text_view(o: Option<String>) -> Option<Seq<char>> {
    match o {
        Some(s) => Some(s@),
        None => None,
    }
}

pub fn read_u32(v: &Json) -> (r: Option<u32>)
    ensures
        r == u32_of(v@),
{
    match v.as_int() {
        Some(n) => if 0 <= n && n <= 4294967295 {
            Some(n as u32)
        } else {
            None
        },
        None => None,
    }
}

pub fn read_u64(v: &Json) -> (r: Option<u64>)
    ensures
        r == u64_of(v@),
{
    match v.as_int() {
        Some(n) => if 0 <= n && n <= 18446744073709551615 {
            Some(n as u64)
        } else {
            None
        },
        None => None,
    }
}

pub fn required_u32(o: &Json, key: &str) -> (r: Option<u32>)
    ensures
        r == req_u32(o@, key@),
{
    match o.get(key) {
        Some(v) => read_u32(v),
        None => None,
    }
}

pub fn required_u64(o: &Json, key: &str) -> (r: Option<u64>)
    ensures
        r == req_u64(o@, key@),
{
    match o.get(key) {
        Some(v) => read_u64(v),
        None => None,
    }
}

pub fn required_text(o: &Json, key: &str) -> (r: Option<String>)
    ensures
        text_view(r) == req_text(o@, key@),
{
    match o.get(key) {
        Some(v) => match v.as_str() {
            Some(s) => Some(s.clone()),
            None => None,
        },
        None => None,
    }
}

pub fn optional_u32(o: &Json, key: &str) -> (r: Option<Option<u32>>)
    ensures
        r == opt_u32(o@, key@),
{
    match o.get(key) {
        None => Some(None),
        Some(v) => if v.is_null() {
            Some(None)
        } else {
            match read_u32(v) {
                Some(n) => Some(Some(n)),
                None => None,
            }
        },
    }
}

pub fn optional_text(o: &Json, key: &str) -> (r: Option<Option<String>>)
    ensures
        match r {
            Some(t) => opt_text(o@, key@) == Some(text_view(t)),
            None => opt_text(o@, key@) is None,
        },
{
    match o.get(key) {
        None => Some(None),
        Some(v) => if v.is_null() {
            Some(None)
        } else {
            match v.as_str() {
                Some(s) => Some(Some(s.clone())),
                None => None,
            }
        },
    }
}

} // verus!
