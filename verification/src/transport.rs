//! JSON-RPC 2.0 messages as the MCP stdio transport carries them, one per
//! line, and how a received line's fields decide its kind.

use vstd::prelude::*;

verus! {

/// A JSON-RPC request.
#[derive(Clone, Debug)]
pub struct JsonRpcRequest {
    pub jsonrpc: String,
    pub id: serde_json::Value,
    pub method: String,
    pub params: Option<serde_json::Value>,
}

/// A JSON-RPC error object.
#[derive(Clone, Debug)]
pub struct JsonRpcError {
    pub code: i64,
    pub message: String,
    pub data: Option<serde_json::Value>,
}

/// A JSON-RPC response.
#[derive(Clone, Debug)]
pub struct JsonRpcResponse {
    pub jsonrpc: String,
    pub id: serde_json::Value,
    pub result: Option<serde_json::Value>,
    pub error: Option<JsonRpcError>,
}

/// A JSON-RPC notification.
#[derive(Clone, Debug)]
pub struct JsonRpcNotification {
    pub jsonrpc: String,
    pub method: String,
    pub params: Option<serde_json::Value>,
}

impl JsonRpcRequest {
    /// A version 2.0 request.
    pub fn new(id: serde_json::Value, method: String, params: Option<serde_json::Value>) -> (r:
        Self)
        ensures
            r.jsonrpc@ == "2.0"@,
            r.id == id,
            r.method == method,
            r.params == params,
    {
        proof {
            reveal_strlit("2.0");
        }
        JsonRpcRequest { jsonrpc: "2.0".to_string(), id, method, params }
    }
}

impl JsonRpcResponse {
    /// A successful version 2.0 response.
    pub fn success(id: serde_json::Value, result: serde_json::Value) -> (r: Self)
        ensures
            r.jsonrpc@ == "2.0"@,
            r.id == id,
            r.result == Some(result),
            r.error is None,
    {
        proof {
            reveal_strlit("2.0");
        }
        JsonRpcResponse { jsonrpc: "2.0".to_string(), id, result: Some(result), error: None }
    }

    /// A failed version 2.0 response.
    pub fn failure(id: serde_json::Value, error: JsonRpcError) -> (r: Self)
        ensures
            r.jsonrpc@ == "2.0"@,
            r.id == id,
            r.result is None,
            r.error == Some(error),
    {
        proof {
            reveal_strlit("2.0");
        }
        JsonRpcResponse { jsonrpc: "2.0".to_string(), id, result: None, error: Some(error) }
    }
}

impl JsonRpcNotification {
    /// A version 2.0 notification.
    pub fn new(method: String, params: Option<serde_json::Value>) -> (r: Self)
        ensures
            r.jsonrpc@ == "2.0"@,
            r.method == method,
            r.params == params,
    {
        proof {
            reveal_strlit("2.0");
        }
        JsonRpcNotification { jsonrpc: "2.0".to_string(), method, params }
    }
}

/// Transport message types.
#[derive(Clone, Debug)]
pub enum TransportMessage {
    /// JSON-RPC request
    Request(JsonRpcRequest),
    /// JSON-RPC response
    Response(JsonRpcResponse),
    /// JSON-RPC notification
    Notification(JsonRpcNotification),
}

impl TransportMessage {
    /// The JSON-RPC version of the message.
    pub fn jsonrpc_version(&self) -> (r: &str)
        ensures
            r@ == match *self {
                TransportMessage::Request(q) => q.jsonrpc@,
                TransportMessage::Response(p) => p.jsonrpc@,
                TransportMessage::Notification(n) => n.jsonrpc@,
            },
    {
        match self {
            TransportMessage::Request(req) => req.jsonrpc.as_str(),
            TransportMessage::Response(resp) => resp.jsonrpc.as_str(),
            TransportMessage::Notification(notif) => notif.jsonrpc.as_str(),
        }
    }

    /// The method name of a request or notification.
    pub fn method(&self) -> (r: Option<&str>)
        ensures
            match *self {
                TransportMessage::Request(q) => r matches Some(m) && m@ == q.method@,
                TransportMessage::Response(_) => r is None,
                TransportMessage::Notification(n) => r matches Some(m) && m@ == n.method@,
            },
    {
        match self {
            TransportMessage::Request(req) => Some(req.method.as_str()),
            TransportMessage::Response(_) => None,
            TransportMessage::Notification(notif) => Some(notif.method.as_str()),
        }
    }

    /// The ID of a request or response.
    pub fn id(&self) -> (r: Option<&serde_json::Value>)
        ensures
            match *self {
                TransportMessage::Request(q) => r == Some(&q.id),
                TransportMessage::Response(p) => r == Some(&p.id),
                TransportMessage::Notification(_) => r is None,
            },
    {
        match self {
            TransportMessage::Request(req) => Some(&req.id),
            TransportMessage::Response(resp) => Some(&resp.id),
            TransportMessage::Notification(_) => None,
        }
    }
}

/// The kind of a received message.
#[derive(Clone, Copy, Debug, PartialEq, Eq, Structural)]
pub enum MessageKind {
    Request,
    Response,
    Notification,
}

/// The kind of a received JSON object by the fields it has: `id` and
/// `method` make a request, `id` alone a response, `method` alone a
/// notification; neither is an invalid message (`None`).
pub fn message_kind(has_id: bool, has_method: bool) -> (r: Option<MessageKind>)
    ensures
        r == (if has_id && has_method {
            Some(MessageKind::Request)
        } else if has_id {
            Some(MessageKind::Response)
        } else if has_method {
            Some(MessageKind::Notification)
        } else {
            None
        }),
{
    if has_id {
        if has_method {
            Some(MessageKind::Request)
        } else {
            Some(MessageKind::Response)
        }
    } else if has_method {
        Some(MessageKind::Notification)
    } else {
        None
    }
}

/// Whether a received line holds only whitespace (such lines are skipped).
pub fn is_blank_line(line: &str) -> (r: bool)
    ensures
        r == (forall|i: int| 0 <= i < line@.len() ==> is_space(#[trigger] line@[i])),
{
    let n = line.unicode_len();
    let mut i: usize = 0;
    while i < n
        invariant
            n == line@.len(),
            i <= n,
            forall|j: int| 0 <= j < i ==> is_space(#[trigger] line@[j]),
        decreases n - i,
    {
        let c = line.get_char(i);
        if !space_char(c) {
            return false;
        }
        i = i + 1;
    }
    true
}

/// The whitespace that `str::trim` removes from ASCII text: space, tab,
/// line feed, vertical tab, form feed and carriage return, and the other
/// Unicode white space characters.
pub open spec fn is_space(c: char) -> bool {
    c == ' ' || c == '\t' || c == '\n' || c == '\x0B' || c == '\x0C' || c == '\r' || c == '\u{85}'
        || c == '\u{A0}' || c == '\u{1680}' || ('\u{2000}' <= c && c <= '\u{200A}') || c
        == '\u{2028}' || c == '\u{2029}' || c == '\u{202F}' || c == '\u{205F}' || c == '\u{3000}'
}

fn space_char(c: char) -> (r: bool)
    ensures
        r == is_space(c),
{
    c == ' ' || c == '\t' || c == '\n' || c == '\x0B' || c == '\x0C' || c == '\r' || c == '\u{85}'
        || c == '\u{A0}' || c == '\u{1680}' || ('\u{2000}' <= c && c <= '\u{200A}') || c
        == '\u{2028}' || c == '\u{2029}' || c == '\u{202F}' || c == '\u{205F}' || c == '\u{3000}'
}

} // verus!
