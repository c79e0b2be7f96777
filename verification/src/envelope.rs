//! The two envelopes of JSON-RPC 2.0: the request that is sent, and the
//! response that comes back.

use crate::error::{EnvelopeFault, JsonError, JsonErrorView, RpcError, RpcErrorView, outcome_view};
use crate::json::{
    Json, JsonValue, items_view, lemma_members_map_push, lemma_pairs_view, members_map, pairs_view,
};
use vstd::prelude::*;

verus! {

/// The request envelope: `jsonrpc` is `"2.0"`, `id` the correlation id,
/// `method` the method's name and `params` the arguments in their order.
pub open spec fn envelope(id: u64, method: Seq<char>, params: Seq<JsonValue>) -> JsonValue {
    JsonValue::Object(
        Map::empty().insert("jsonrpc"@, JsonValue::Str("2.0"@)).insert(
            "id"@,
            JsonValue::Int(id as int),
        ).insert("method"@, JsonValue::Str(method)).insert("params"@, JsonValue::Array(params)),
    )
}

/// What an error object holds: its `code`, its `message`, and its `data`
/// where that is there and not `null`. `None` for a document that is no error
/// object: the code must be an integer of 64 bits, the message a string.
pub open spec fn error_parts(e: JsonValue) -> Option<(int, Seq<char>, Option<JsonValue>)> {
    match (e.member("code"@), e.member("message"@)) {
        (Some(JsonValue::Int(code)), Some(JsonValue::Str(message))) => if i64::MIN <= code
            <= i64::MAX {
            Some(
                (
                    code,
                    message,
                    match e.member("data"@) {
                        Some(d) => if d is Null {
                            None
                        } else {
                            Some(d)
                        },
                        None => None,
                    },
                ),
            )
        } else {
            None
        },
        _ => None,
    }
}

/// What a response says. It must be an object with an `id`. Its `error` is
/// looked at first: one that is there and not `null` makes the call fail with
/// what the error object holds, whatever `result` is. Without an error, a
/// `result` that is there and not `null` is the outcome, and a response
/// without one fails as a missing result that names the method.
pub open spec fn reading(method: Seq<char>, doc: JsonValue) -> Result<JsonValue, RpcErrorView> {
    if !(doc is Object) {
        Err(RpcErrorView::Json(JsonErrorView::Envelope(EnvelopeFault::NotAnObject)))
    } else if doc.member("id"@) is None {
        Err(RpcErrorView::Json(JsonErrorView::Envelope(EnvelopeFault::MissingId)))
    } else if doc.member("error"@) is Some && !(doc.member("error"@)->Some_0 is Null) {
        match error_parts(doc.member("error"@)->Some_0) {
            Some((code, message, data)) => Err(RpcErrorView::Rpc { code, message, data }),
            None => Err(
                RpcErrorView::Json(JsonErrorView::Envelope(EnvelopeFault::MalformedError)),
            ),
        }
    } else if doc.member("result"@) is Some && !(doc.member("result"@)->Some_0 is Null) {
        Ok(doc.member("result"@)->Some_0)
    } else {
        Err(RpcErrorView::MissingResult { method })
    }
}

/// Builds the request envelope of one call.
pub fn request_envelope(id: u64, method: &str, params: Vec<Json>) -> (doc: Json)
    ensures
        doc@ == envelope(id, method@, items_view(params@)),
{
    let ghost args = items_view(params@);
    let mut members: Vec<(String, Json)> = Vec::new();
    proof {
        lemma_pairs_view(members@);
        assert(pairs_view(members@) =~= Seq::empty());
    }
    let ghost p0 = pairs_view(members@);
    members.push(("jsonrpc".to_owned(), Json::Str("2.0".to_owned())));
    let ghost p1 = pairs_view(members@);
    members.push(("id".to_owned(), Json::UInt(id)));
    let ghost p2 = pairs_view(members@);
    members.push(("method".to_owned(), Json::Str(method.to_owned())));
    let ghost p3 = pairs_view(members@);
    members.push(("params".to_owned(), Json::Array(params)));
    let ghost p4 = pairs_view(members@);
    proof {
        assert(p1 =~= p0.push(("jsonrpc"@, JsonValue::Str("2.0"@))));
        assert(p2 =~= p1.push(("id"@, JsonValue::Int(id as int))));
        assert(p3 =~= p2.push(("method"@, JsonValue::Str(method@))));
        assert(p4 =~= p3.push(("params"@, JsonValue::Array(args))));
        lemma_members_map_push(p0, "jsonrpc"@, JsonValue::Str("2.0"@));
        lemma_members_map_push(p1, "id"@, JsonValue::Int(id as int));
        lemma_members_map_push(p2, "method"@, JsonValue::Str(method@));
        lemma_members_map_push(p3, "params"@, JsonValue::Array(args));
    }
    Json::Object(members)
}

/// Reads an error object: its code, its message and its data.
pub fn read_error_object(e: &Json) -> (parts: Option<(i64, String, Option<Json>)>)
    ensures
        match parts {
            Some((code, message, data)) => error_parts(e@) == Some(
                (
                    code as int,
                    message@,
                    match data {
                        Some(d) => Some(d@),
                        None => None,
                    },
                ),
            ),
            None => error_parts(e@) is None,
        },
{
    let code: i64 = match e.get("code") {
        Some(Json::Int(i)) => *i,
        Some(Json::UInt(u)) => {
            if *u > 0x7fff_ffff_ffff_ffffu64 {
                return None;
            }
            *u as i64
        },
        _ => {
            return None;
        },
    };
    let message: String = match e.get("message") {
        Some(Json::Str(text)) => text.clone(),
        _ => {
            return None;
        },
    };
    let data: Option<Json> = match e.get("data") {
        Some(d) => if d.is_null() {
            None
        } else {
            Some(d.clone())
        },
        None => None,
    };
    Some((code, message, data))
}

/// Reads a response envelope for a call of `method`: the result, or the
/// failure that the response stands for.
pub fn read_envelope(method: &str, doc: &Json) -> (outcome: Result<Json, RpcError>)
    ensures
        outcome_view(outcome) == reading(method@, doc@),
{
    match doc {
        Json::Object(_) => {},
        _ => {
            return Err(RpcError::Json(JsonError::Envelope(EnvelopeFault::NotAnObject)));
        },
    }
    if doc.get("id").is_none() {
        return Err(RpcError::Json(JsonError::Envelope(EnvelopeFault::MissingId)));
    }
    match doc.get("error") {
        Some(e) => {
            if !e.is_null() {
                return match read_error_object(e) {
                    Some((code, message, data)) => Err(RpcError::Rpc { code, message, data }),
                    None => Err(
                        RpcError::Json(JsonError::Envelope(EnvelopeFault::MalformedError)),
                    ),
                };
            }
        },
        None => {},
    }
    match doc.get("result") {
        Some(r) => {
            if !r.is_null() {
                return Ok(r.clone());
            }
        },
        None => {},
    }
    Err(RpcError::MissingResult { method: method.to_owned() })
}

} // verus!
