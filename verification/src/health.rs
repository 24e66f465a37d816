//! The local health endpoint's answer: a JSON status object sent as a
//! complete HTTP/1.1 response.  Listening and writing are the caller's I/O.

use vstd::prelude::*;

use crate::json::{self, json_quote};
use crate::text::{self, push_decimal};

verus! {

/// The JSON status object: the keys in the order `serde_json` writes an
/// object's keys (sorted).
pub open spec fn health_body_spec(agent_id: Seq<char>, version: Seq<char>) -> Seq<char> {
    "{\"agent\":"@ + json::json_quoted("sigops-agent"@) + ",\"agentId\":"@ + json::json_quoted(
        agent_id,
    ) + ",\"status\":"@ + json::json_quoted("ok"@) + ",\"version\":"@ + json::json_quoted(version)
        + "}"@
}

/// The JSON status object for this agent and agent version.
pub fn health_body(agent_id: &str, version: &str) -> (r: String)
    ensures
        r@ == health_body_spec(agent_id@, version@),
{
    let mut b = "{\"agent\":".to_owned();
    let q = json_quote("sigops-agent");
    b.append(q.as_str());
    b.append(",\"agentId\":");
    let q = json_quote(agent_id);
    b.append(q.as_str());
    b.append(",\"status\":");
    let q = json_quote("ok");
    b.append(q.as_str());
    b.append(",\"version\":");
    let q = json_quote(version);
    b.append(q.as_str());
    b.append("}");
    b
}

/// The full HTTP response carrying `body`.
pub open spec fn health_response_spec(body: Seq<char>) -> Seq<char> {
    "HTTP/1.1 200 OK\r\nContent-Type: application/json\r\nContent-Length: "@ + text::decimal_seq(
        vstd::utf8::encode_utf8(body).len(),
    ) + "\r\nConnection: close\r\n\r\n"@ + body
}

/// Frame `body` as an HTTP/1.1 200 response; the content length counts the
/// body's UTF-8 bytes.
pub fn health_response(body: &str) -> (r: String)
    ensures
        r@ == health_response_spec(body@),
{
    let mut r = "HTTP/1.1 200 OK\r\nContent-Type: application/json\r\nContent-Length: ".to_owned();
    let n = body.as_bytes().len();
    push_decimal(&mut r, n as u64);
    r.append("\r\nConnection: close\r\n\r\n");
    r.append(body);
    r
}

} // verus!
