//! JSON values as text.

use vstd::prelude::*;

verus! {

/// The text that `serde_json` prints for the value that it reads from some bytes, without
/// white space; nothing where it reads no value.
pub uninterp spec fn compact_json(b: Seq<u8>) -> Option<Seq<u8>>;

/// `serde_json::from_slice` into a `serde_json::Value`, and `serde_json::to_vec` on that
/// value. The outcome depends on the bytes alone. It is nothing where the reader fails: where
/// the bytes are not JSON, are nested too deeply or hold a number out of range. What is
/// printed can be read again; whether it then prints the same is left open.
#[verifier::external_body]
pub(crate) fn json_text(b: &[u8]) -> (r: Option<Vec<u8>>)
    ensures
        r.deep_view() == compact_json(b@),
        r matches Some(t) ==> compact_json(t@) is Some,
{
    let v: serde_json::Value = serde_json::from_slice(b).ok()?;
    serde_json::to_vec(&v).ok()
}

/// A JSON value to store; nothing is stored of what is not JSON.
pub open spec fn stored_json(b: Seq<u8>) -> Seq<u8> {
    match compact_json(b) {
        Some(t) => t,
        None => Seq::empty(),
    }
}

pub open spec fn stored_optional_json(b: Option<Seq<u8>>) -> Option<Seq<u8>> {
    match b {
        Some(t) => Some(stored_json(t)),
        None => None,
    }
}

pub open spec fn read_optional_json(b: Option<Seq<u8>>) -> Option<Seq<u8>> {
    match b {
        Some(t) => compact_json(t),
        None => None,
    }
}

pub fn json_to_store(b: &[u8]) -> (r: Vec<u8>)
    ensures
        r@ == stored_json(b@),
        r.deep_view() == stored_json(b@),
{
    let r: Vec<u8> = match json_text(b) {
        Some(t) => {
            assert(t.deep_view() =~= t@);
            t
        },
        None => Vec::new(),
    };
    assert(r@ =~= stored_json(b@));
    assert(r.deep_view() =~= r@);
    r
}

/// An optional JSON text by its bytes.
pub open spec fn json_bytes(b: Option<&[u8]>) -> Option<Seq<u8>> {
    match b {
        Some(t) => Some(t@),
        None => None,
    }
}

pub fn optional_json_to_store(b: Option<&[u8]>) -> (r: Option<Vec<u8>>)
    ensures
        r.deep_view() == stored_optional_json(json_bytes(b)),
{
    match b {
        Some(t) => Some(json_to_store(t)),
        None => None,
    }
}

pub fn optional_json_read(b: &Option<Vec<u8>>) -> (r: Option<Vec<u8>>)
    ensures
        r.deep_view() == read_optional_json(b.deep_view()),
{
    match b {
        Some(t) => {
            assert(t.deep_view() =~= t@);
            json_text(t.as_slice())
        },
        None => None,
    }
}

} // verus!
