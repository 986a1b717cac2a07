//! Defensive decoding of response bodies. The server has been seen to
//! mislabel its content encoding, so each payload is decoded from plain
//! JSON first and, when that fails, from gzip-compressed JSON before
//! giving up. The three payload decodes and the gzip inflation are the
//! work of outside crates, each behind one trusted item whose result is
//! named; the plain-then-gzip strategy around them is verified, and every
//! name is a function of the bytes alone, so the callers' contracts can
//! say exactly which payload a body denotes.
use std::io::Read;

use serde_json::Value;

use vstd::prelude::*;

use crate::file::DetailV;
use crate::file::PostDetail;
use crate::file::Preview;
use crate::post::Post;
use crate::post::PostV;

verus! {

/// The gzip inflation of a byte string, when it is well-formed gzip data.
/// Inflation is a function of the bytes alone.
pub uninterp spec fn gunzip_of(bytes: Seq<u8>) -> Option<Seq<u8>>;

/// The creator profile a JSON document denotes: the `name`, `public_id`
/// and `post_count` members, when the document is an object carrying a
/// string, a string and a nonnegative number under those keys. A function
/// of the bytes alone.
pub uninterp spec fn profile_of(bytes: Seq<u8>) -> Option<(Seq<char>, Seq<char>, u64)>;

/// The listing page a JSON document denotes: an array of posts, each an
/// object with a decimal string under `id` and a string under `title`, in
/// array order. A function of the bytes alone.
pub uninterp spec fn page_of(bytes: Seq<u8>) -> Option<Seq<PostV>>;

/// The post detail a JSON document denotes: the `previews` array — per
/// element a required string kind under `type` and `name`/`path`/`server`
/// strings defaulting to empty — and the post text under `post.content`,
/// defaulting to empty. A function of the bytes alone.
pub uninterp spec fn detail_of(bytes: Seq<u8>) -> Option<DetailV>;

/// Relies on flate2's `GzDecoder` (through `std::io::Read::read_to_end`):
/// inflates gzip data, succeeding exactly on well-formed input.
#[verifier::external_body]
pub(crate) fn gunzip(bytes: &[u8]) -> (r: Option<Vec<u8>>)
    ensures
        r is Some <==> gunzip_of(bytes@) is Some,
        r is Some ==> Some(r->0@) == gunzip_of(bytes@),
{
    let mut decoder = flate2::read::GzDecoder::new(bytes);
    let mut body = Vec::new();
    match decoder.read_to_end(&mut body) {
        Ok(_) => Some(body),
        Err(_) => None,
    }
}

/// Relies on `serde_json::from_slice` and `Value`'s member accessors: the
/// typed read of a profile payload, exactly as `profile_of` names it. The
/// body moves the three members out one for one and fails on anything
/// else.
#[verifier::external_body]
pub(crate) fn profile_payload(bytes: &[u8]) -> (r: Option<(String, String, u64)>)
    ensures
        r is Some <==> profile_of(bytes@) is Some,
        r is Some ==> Some(((r->Some_0).0@, (r->Some_0).1@, (r->Some_0).2)) == profile_of(bytes@),
{
    let v: Value = serde_json::from_slice(bytes).ok()?;
    let nickname = v.get("name")?.as_str()?.to_string();
    let username = v.get("public_id")?.as_str()?.to_string();
    let post_count = v.get("post_count")?.as_u64()?;
    Some((nickname, username, post_count))
}

/// Relies on `serde_json::from_slice` and `Value`'s member accessors: the
/// typed read of one listing page, exactly as `page_of` names it. The
/// body turns each array element into a post one for one — the id read
/// from its decimal string by `u64`'s own parse, as the server sends ids
/// as strings — and fails on the first malformed element.
#[verifier::external_body]
pub(crate) fn page_payload(bytes: &[u8]) -> (r: Option<Vec<Post>>)
    ensures
        r is Some <==> page_of(bytes@) is Some,
        r is Some ==> Some(r->0@.map_values(|p: Post| p@)) == page_of(bytes@),
{
    let v: Value = serde_json::from_slice(bytes).ok()?;
    let mut page = Vec::new();
    for item in v.as_array()? {
        let id = item.get("id")?.as_str()?.parse::<u64>().ok()?;
        let title = item.get("title")?.as_str()?.to_string();
        page.push(Post { id, title });
    }
    Some(page)
}

/// Relies on `serde_json::from_slice` and `Value`'s member accessors: the
/// typed read of a post detail payload, exactly as `detail_of` names it.
/// The body moves each preview's members out one for one — the kind under
/// `type` required, the other three empty when absent or not strings, as
/// their defaults were in the wire schema — and the text from
/// `post.content` the same way.
#[verifier::external_body]
pub(crate) fn detail_payload(bytes: &[u8]) -> (r: Option<PostDetail>)
    ensures
        r is Some <==> detail_of(bytes@) is Some,
        r is Some ==> Some(r->0@) == detail_of(bytes@),
{
    let v: Value = serde_json::from_slice(bytes).ok()?;
    let text = v.get("post")?.get("content").and_then(Value::as_str).unwrap_or("").to_string();
    let mut previews = Vec::new();
    for p in v.get("previews")?.as_array()? {
        let kind = p.get("type")?.as_str()?.to_string();
        let filename = p.get("name").and_then(Value::as_str).unwrap_or("").to_string();
        let path = p.get("path").and_then(Value::as_str).unwrap_or("").to_string();
        let server = p.get("server").and_then(Value::as_str).unwrap_or("").to_string();
        previews.push(Preview { kind, filename, path, server });
    }
    Some(PostDetail { previews, text })
}

/// The profile a response body denotes under the defensive strategy:
/// plain JSON first, gzip-inflated JSON second.
pub open spec fn profile_decode_spec(bytes: Seq<u8>) -> Option<(Seq<char>, Seq<char>, u64)> {
    if profile_of(bytes) is Some {
        profile_of(bytes)
    } else {
        match gunzip_of(bytes) {
            Some(inflated) => profile_of(inflated),
            None => None,
        }
    }
}

/// The listing page a response body denotes under the defensive strategy:
/// plain JSON first, gzip-inflated JSON second.
pub open spec fn page_decode_spec(bytes: Seq<u8>) -> Option<Seq<PostV>> {
    if page_of(bytes) is Some {
        page_of(bytes)
    } else {
        match gunzip_of(bytes) {
            Some(inflated) => page_of(inflated),
            None => None,
        }
    }
}

/// The post detail a response body denotes under the defensive strategy:
/// plain JSON first, gzip-inflated JSON second.
pub open spec fn detail_decode_spec(bytes: Seq<u8>) -> Option<DetailV> {
    if detail_of(bytes) is Some {
        detail_of(bytes)
    } else {
        match gunzip_of(bytes) {
            Some(inflated) => detail_of(inflated),
            None => None,
        }
    }
}

} // verus!
