//! The wire to the gateway: requests, replies and downlinks.

use vstd::prelude::*;

use crate::json::{Json, JsonView};
use crate::text::{joined, parse_unsigned, same, u64_text, Duplicate};
use crate::wire::{RpcError, RpcErrorView, RpcId};

verus! {

/// How long a request may take, in milliseconds.
pub const DEFAULT_RPC_TIMEOUT_MS: u64 = 30000;

/// The first wait before a downlink is opened again, in milliseconds.
pub const WS_BACKOFF_INITIAL_MS: u64 = 500;

/// The longest wait before a downlink is opened again, in milliseconds.
pub const WS_BACKOFF_MAX_MS: u64 = 5000;

/// Why a request failed.
#[derive(Debug)]
pub enum ClientError {
    Transport(String),
    HttpStatus(u16),
    Timeout,
    Protocol(String),
    Rpc(RpcError),
}

/// What a [`ClientError`] stands for.
pub enum ClientErrorView {
    Transport(Seq<char>),
    HttpStatus(u16),
    Timeout,
    Protocol(Seq<char>),
    Rpc(RpcErrorView),
}

impl View for ClientError {
    type V = ClientErrorView;

    open spec fn view(&self) -> ClientErrorView {
        match *self {
            ClientError::Transport(reason) => ClientErrorView::Transport(reason@),
            ClientError::HttpStatus(status) => ClientErrorView::HttpStatus(status),
            ClientError::Timeout => ClientErrorView::Timeout,
            ClientError::Protocol(reason) => ClientErrorView::Protocol(reason@),
            ClientError::Rpc(error) => ClientErrorView::Rpc(error@),
        }
    }
}

/// An error in words.
pub open spec fn error_text(e: ClientErrorView) -> Seq<char> {
    match e {
        ClientErrorView::Transport(reason) => "transport error: "@ + reason,
        ClientErrorView::HttpStatus(status) => "gateway returned HTTP status "@
            + crate::text::decimal(status as nat),
        ClientErrorView::Timeout => "rpc timed out"@,
        ClientErrorView::Protocol(reason) => "protocol error: "@ + reason,
        ClientErrorView::Rpc(error) => "rpc failed: "@ + crate::wire::rpc_code(error.kind) + ": "@
            + error.message,
    }
}

impl ClientError {
    /// The error in words.
    pub fn message(&self) -> (r: String)
        ensures
            r@ == error_text(self@),
    {
        match self {
            ClientError::Transport(reason) => joined("transport error: ", reason.as_str()),
            ClientError::HttpStatus(status) => joined(
                "gateway returned HTTP status ",
                u64_text(*status as u64).as_str(),
            ),
            ClientError::Timeout => "rpc timed out".to_owned(),
            ClientError::Protocol(reason) => joined("protocol error: ", reason.as_str()),
            ClientError::Rpc(error) => {
                let mut out = joined("rpc failed: ", error.kind.code());
                out.append(": ");
                out.append(error.message.as_str());
                out
            },
        }
    }
}

/// A frame of a downlink with the id of its envelope, which an answer has to carry.
#[derive(Debug)]
pub struct DownlinkFrame<F> {
    pub rpc_id: RpcId,
    pub frame: F,
}

/// Where the gateway answers requests.
pub open spec fn http_base(port: u16) -> Seq<char> {
    "http://127.0.0.1:"@ + crate::text::decimal(port as nat)
}

/// Where a method is called.
pub fn method_url(port: u16, method: &str) -> (r: String)
    ensures
        r@ == http_base(port) + "/api/"@ + method@,
{
    let mut out = joined("http://127.0.0.1:", u64_text(port as u64).as_str());
    out.append("/api/");
    out.append(method);
    out
}

/// Where a downlink is opened.
pub fn downlink_url(port: u16, path: &str) -> (r: String)
    ensures
        r@ == "ws://127.0.0.1:"@ + crate::text::decimal(port as nat) + path@,
{
    let mut out = joined("ws://127.0.0.1:", u64_text(port as u64).as_str());
    out.append(path);
    out
}

/// The id of a request: the time and a counter.
pub open spec fn request_id_text(micros: nat, seq: nat) -> Seq<char> {
    "dsh-tui-"@ + crate::text::decimal(micros) + "-"@ + crate::text::decimal(seq)
}

/// The id of a request: the time in microseconds and a counter.
pub fn request_id(micros: u64, seq: u64) -> (r: RpcId)
    ensures
        r@ == request_id_text(micros as nat, seq as nat),
{
    let mut out = joined("dsh-tui-", u64_text(micros).as_str());
    out.append("-");
    out.append(u64_text(seq).as_str());
    RpcId(out)
}

/// What a status of the carrier stands for: an error unless it is a success.
pub open spec fn status_error(status: u16) -> Option<ClientErrorView> {
    if 200 <= status < 300 {
        None
    } else {
        Some(ClientErrorView::HttpStatus(status))
    }
}

/// The port that the environment names, if it names one. Every number of sixteen bits is taken.
pub fn env_port(value: Option<&str>) -> (r: Result<Option<u16>, ClientError>)
    ensures
        match value {
            None => r matches Ok(None),
            Some(text) => match crate::text::unsigned_value(text@, 65535) {
                Some(n) => r matches Ok(Some(port)) && port == n,
                None => r matches Err(ClientError::Protocol(reason)) && reason@
                    == "invalid DSH_PORT `"@ + text@ + "`"@,
            },
        },
{
    match value {
        None => Ok(None),
        Some(text) => match parse_unsigned(text, 65535) {
            Some(n) => Ok(Some(n as u16)),
            None => {
                let mut reason = joined("invalid DSH_PORT `", text);
                reason.append("`");
                Err(ClientError::Protocol(reason))
            },
        },
    }
}

/// Whether the carrier succeeded.
pub fn check_status(status: u16) -> (r: Result<(), ClientError>)
    ensures
        match status_error(status) {
            None => r is Ok,
            Some(e) => r matches Err(error) && error@ == e,
        },
{
    if 200 <= status && status < 300 {
        Ok(())
    } else {
        Err(ClientError::HttpStatus(status))
    }
}

/// What a reply with another id is refused with.
pub open spec fn mismatch_text(expected: Seq<char>, got: Seq<char>) -> Seq<char> {
    "rpcId mismatch: expected "@ + expected + ", got "@ + got
}

/// Whether a reply is the one to a request: it carries the request's id.
pub fn check_reply(request: &RpcId, reply: &RpcId) -> (r: Result<(), ClientError>)
    ensures
        r is Ok <==> request@ == reply@,
        r matches Err(e) ==> e@ == ClientErrorView::Protocol(mismatch_text(request@, reply@)),
{
    if same(request.0.as_str(), reply.0.as_str()) {
        return Ok(());
    }
    let mut text = joined("rpcId mismatch: expected ", request.0.as_str());
    text.append(", got ");
    text.append(reply.0.as_str());
    Err(ClientError::Protocol(text))
}

/// The result of a reply.
#[derive(Debug)]
pub struct RpcResult {
    pub ok: bool,
    pub value: Option<Json>,
    pub error: Option<RpcError>,
}

/// What a reply gives: its value, null where it has none, or why there is none.
pub open spec fn reply_outcome(
    ok: bool,
    value: Option<JsonView>,
    error: Option<RpcErrorView>,
    method: Seq<char>,
) -> Result<JsonView, ClientErrorView> {
    if ok {
        match value {
            Some(v) => Ok(v),
            None => Ok(JsonView::Null),
        }
    } else {
        match error {
            Some(e) => Err(ClientErrorView::Rpc(e)),
            None => Err(ClientErrorView::Protocol("ok:false without error for "@ + method)),
        }
    }
}

/// The value of a reply.
pub fn into_result(result: RpcResult, method: &str) -> (r: Result<Json, ClientError>)
    ensures
        match r {
            Ok(v) => reply_outcome(
                result.ok,
                crate::text::opt_view(result.value),
                crate::text::opt_view(result.error),
                method@,
            ) == Ok::<_, ClientErrorView>(v@),
            Err(e) => reply_outcome(
                result.ok,
                crate::text::opt_view(result.value),
                crate::text::opt_view(result.error),
                method@,
            ) == Err::<JsonView, _>(e@),
        },
{
    if result.ok {
        match result.value {
            Some(v) => Ok(v),
            None => Ok(Json::Null),
        }
    } else {
        match result.error {
            Some(e) => Err(ClientError::Rpc(e)),
            None => Err(ClientError::Protocol(joined("ok:false without error for ", method))),
        }
    }
}

/// An answer to a frame of a downlink: it carries the frame's id, and always succeeds.
#[derive(Debug)]
pub struct ClientResponse {
    pub rpc_id: RpcId,
    pub result: RpcResult,
}

/// The answer to a frame of a downlink.
pub fn answer(rpc_id: &RpcId, payload: Json) -> (r: ClientResponse)
    ensures
        r.rpc_id@ == rpc_id@,
        r.result.ok,
        r.result.value == Some(payload),
        r.result.error is None,
{
    ClientResponse {
        rpc_id: rpc_id.duplicate(),
        result: RpcResult { ok: true, value: Some(payload), error: None },
    }
}

/// What befell a downlink.
#[derive(Debug, Clone, Copy, PartialEq, Eq, Structural)]
pub enum DownlinkEvent {
    /// It was opened.
    Opened,
    /// It could not be opened, or it ended.
    Closed,
}

/// The wait after a wait: twice as long, up to the longest.
pub open spec fn longer(wait: u64) -> u64 {
    if wait * 2 < WS_BACKOFF_MAX_MS {
        (wait * 2) as u64
    } else {
        WS_BACKOFF_MAX_MS
    }
}

/// A downlink that is opened again whenever it ends, after a wait that grows from failure to
/// failure and starts over with every success.
#[derive(Debug, Clone, Copy, PartialEq, Eq, Structural)]
pub struct Backoff {
    pub wait_ms: u64,
}

impl Backoff {
    /// Whether the wait is within its bounds.
    pub open spec fn fine(self) -> bool {
        WS_BACKOFF_INITIAL_MS <= self.wait_ms <= WS_BACKOFF_MAX_MS
    }

    /// The start.
    pub fn new() -> (r: Backoff)
        ensures
            r.wait_ms == WS_BACKOFF_INITIAL_MS,
            r.fine(),
    {
        Backoff { wait_ms: WS_BACKOFF_INITIAL_MS }
    }

    /// What to do after an event: how long to wait before the downlink is opened again, where it
    /// has to be.
    pub fn after(&mut self, event: DownlinkEvent) -> (r: Option<u64>)
        requires
            old(self).fine(),
        ensures
            final(self).fine(),
            match event {
                DownlinkEvent::Opened => r is None && final(self).wait_ms == WS_BACKOFF_INITIAL_MS,
                DownlinkEvent::Closed => r == Some(old(self).wait_ms) && final(self).wait_ms
                    == longer(old(self).wait_ms),
            },
    {
        match event {
            DownlinkEvent::Opened => {
                self.wait_ms = WS_BACKOFF_INITIAL_MS;
                None
            },
            DownlinkEvent::Closed => {
                let wait = self.wait_ms;
                self.wait_ms =
                if wait * 2 < WS_BACKOFF_MAX_MS {
                    wait * 2
                } else {
                    WS_BACKOFF_MAX_MS
                };
                Some(wait)
            },
        }
    }
}

/// Requests that are sent at the same moment still have different ids.
pub proof fn law_request_ids_differ(micros: nat, a: nat, b: nat)
    requires
        a != b,
    ensures
        request_id_text(micros, a) != request_id_text(micros, b),
{
    let head = "dsh-tui-"@ + crate::text::decimal(micros) + "-"@;
    let n = head.len() as int;
    let x = request_id_text(micros, a);
    let y = request_id_text(micros, b);
    assert(x.skip(n) =~= crate::text::decimal(a));
    assert(y.skip(n) =~= crate::text::decimal(b));
    crate::text::lemma_decimal_value(a);
    crate::text::lemma_decimal_value(b);
}

} // verus!
