//! The JSON-RPC shapes exchanged with the web front end: the response
//! envelope for a client request, the envelope for lagged events, the id of
//! an incoming request, and the error used for a malformed rejection.

use vstd::prelude::*;
use crate::json::{copy_json, get, jstr, obj1, obj2, obj3, vget, Json, JsonV};
use crate::text::{dec, extend, extend_lit, fmt_dec, fmt_i64, from_chars, signed_dec, to_chars};

verus! {

/// Whether a pending server request is answered with a result or an error.
#[derive(Debug, Clone, Copy, PartialEq, Eq, Structural)]
pub enum ResolveKind {
    Resolve,
    Reject,
}

/// A JSON-RPC error object.
#[derive(Debug, PartialEq)]
pub struct RpcError {
    pub code: i64,
    pub message: String,
    pub data: Option<Json>,
}

/// The error object: code, message, and data only when there is some.
pub open spec fn error_json(e: RpcError) -> JsonV {
    let base = seq![
        ("code"@, JsonV::Number(signed_dec(e.code as int))),
        ("message"@, JsonV::Str(e.message@)),
    ];
    match e.data {
        Some(d) => JsonV::Object(base.push(("data"@, d@))),
        None => JsonV::Object(base),
    }
}

/// The envelope `{jsonrpc: "2.0", id, result}` or `{jsonrpc: "2.0", id,
/// error}` for the response to a client request.
pub open spec fn envelope_json(id: JsonV, result: Result<JsonV, JsonV>) -> JsonV {
    match result {
        Ok(v) => JsonV::Object(
            seq![("jsonrpc"@, JsonV::Str("2.0"@)), ("id"@, id), ("result"@, v)],
        ),
        Err(e) => JsonV::Object(
            seq![("jsonrpc"@, JsonV::Str("2.0"@)), ("id"@, id), ("error"@, e)],
        ),
    }
}

/// Builds the response envelope; `req_id` is the request's `id` as it came.
pub fn build_response_envelope(req_id: Json, result: Result<Json, RpcError>) -> (r: Json)
    ensures
        r@ == envelope_json(
            req_id@,
            match result {
                Ok(v) => Ok(v@),
                Err(e) => Err(error_json(e)),
            },
        ),
{
    match result {
        Ok(val) => obj3("jsonrpc", jstr("2.0"), "id", req_id, "result", val),
        Err(err) => {
            let ghost ev = error_json(err);
            let code = Json::Number(from_chars(&fmt_i64(err.code)));
            let message = Json::Str(err.message);
            let error_obj = match err.data {
                Some(d) => {
                    let o = crate::json::obj3("code", code, "message", message, "data", d);
                    assert(o@ == ev) by {
                        let base = seq![
                            ("code"@, JsonV::Number(signed_dec(err.code as int))),
                            ("message"@, JsonV::Str(err.message@)),
                        ];
                        assert(base.push(("data"@, err.data.unwrap()@)) =~= seq![
                            ("code"@, JsonV::Number(signed_dec(err.code as int))),
                            ("message"@, JsonV::Str(err.message@)),
                            ("data"@, err.data.unwrap()@),
                        ]);
                    }
                    o
                },
                None => obj2("code", code, "message", message),
            };
            obj3("jsonrpc", jstr("2.0"), "id", req_id, "error", error_obj)
        },
    }
}

/// The text sent for lagged events: `{"type":"lagged","skipped":N}`.
pub open spec fn lagged_text(skipped: nat) -> Seq<char> {
    "{\"type\":\"lagged\",\"skipped\":"@ + dec(skipped) + "}"@
}

/// See [`lagged_text`].
pub fn serialize_lagged_event(skipped: usize) -> (r: String)
    ensures
        r@ == lagged_text(skipped as nat),
{
    let mut v: Vec<char> = Vec::new();
    extend_lit(&mut v, "{\"type\":\"lagged\",\"skipped\":");
    extend(&mut v, &fmt_dec(skipped));
    extend_lit(&mut v, "}");
    from_chars(&v)
}

/// The `id` of an incoming request as it came, or null when it has none.
pub fn request_id_of(value: &Json) -> (r: Json)
    ensures
        r@ == match vget(value@, "id"@) {
            Some(v) => v,
            None => JsonV::Null,
        },
{
    match get(value, "id") {
        Some(v) => copy_json(v),
        None => Json::Null,
    }
}

/// The error a rejection is answered with when its payload is not a
/// JSON-RPC error object: code -32000 and the reason.
pub fn malformed_reject_error(reason: &str) -> (r: RpcError)
    ensures
        r.code == -32000,
        r.message@ == "malformed reject payload: "@ + reason@,
        r.data is None,
{
    let mut m = to_chars("malformed reject payload: ");
    extend(&mut m, &to_chars(reason));
    RpcError { code: -32000, message: from_chars(&m), data: None }
}


/// What an inbound frame from the frontend asks for.
#[derive(Debug, PartialEq)]
pub enum IpcAction {
    /// Answer the server request `request_id` with `payload` (a result to
    /// resolve it, an error to reject it).
    Respond { kind: ResolveKind, request_id: Json, payload: Json },
    /// A resolve or reject envelope without its `result` or `error`: it is
    /// dropped.
    MissingPayload(ResolveKind),
    /// Anything else is a client request to forward.
    ClientRequest,
}

/// The frame's action: `__resolve` (with `result`) wins over `__reject`
/// (with `error`); a frame with neither is a client request.
pub open spec fn spec_classify_ipc(v: JsonV) -> (ResolveKind, Option<(JsonV, Option<JsonV>)>) {
    match vget(v, "__resolve"@) {
        Some(id) => (ResolveKind::Resolve, Some((id, vget(v, "result"@)))),
        None => match vget(v, "__reject"@) {
            Some(id) => (ResolveKind::Reject, Some((id, vget(v, "error"@)))),
            None => (ResolveKind::Resolve, None),
        },
    }
}

pub open spec fn action_matches(a: IpcAction, v: JsonV) -> bool {
    let (kind, env) = spec_classify_ipc(v);
    match env {
        None => a is ClientRequest,
        Some((id, None)) => a == IpcAction::MissingPayload(kind),
        Some((id, Some(p))) => match a {
            IpcAction::Respond { kind: k, request_id, payload } => k == kind && request_id@ == id && payload@ == p,
            _ => false,
        },
    }
}

/// Decides what an inbound frame asks for (see [`spec_classify_ipc`]).
pub fn classify_ipc(value: &Json) -> (r: IpcAction)
    ensures
        action_matches(r, value@),
{
    match get(value, "__resolve") {
        Some(id) => match get(value, "result") {
            Some(p) => IpcAction::Respond { kind: ResolveKind::Resolve, request_id: copy_json(id), payload: copy_json(p) },
            None => IpcAction::MissingPayload(ResolveKind::Resolve),
        },
        None => match get(value, "__reject") {
            Some(id) => match get(value, "error") {
                Some(p) => IpcAction::Respond { kind: ResolveKind::Reject, request_id: copy_json(id), payload: copy_json(p) },
                None => IpcAction::MissingPayload(ResolveKind::Reject),
            },
            None => IpcAction::ClientRequest,
        },
    }
}

} // verus!
