use vstd::prelude::*;

verus! {

/// The JSON-RPC error class of a refused request.
#[derive(Clone, Copy, Debug, PartialEq, Eq, Structural)]
pub enum ErrorKind {
    /// `-32602`: the parameters do not fit the request.
    InvalidParams,
    /// `-32603`: something failed while handling the request.
    InternalError,
    /// `-32601`: the method cannot be forwarded.
    MethodNotFound,
}

/// The answer to a refused request: its error class and the human-readable
/// text carried as the error's data.
#[derive(Debug)]
pub struct ProxyError {
    pub kind: ErrorKind,
    pub data: String,
}

/// Where forwarding a request can fail once its method is known.
#[derive(Clone, Copy, Debug, PartialEq, Eq, Structural)]
pub enum ForwardStage {
    /// The parameters do not deserialize into the method's parameter type.
    Params,
    /// The language server answered with an error, or did not answer.
    Request,
    /// The server's result could not be turned back into JSON.
    Serialize,
}

/// The Rust `Debug` rendering of a string: quoted, with escapes.
pub uninterp spec fn debug_text(s: Seq<char>) -> Seq<char>;

/// Renders `s` with `format!("{s:?}")`, std's `Debug` for `str`. Claimed: the
/// result is a function of the string's characters alone; what the escapes
/// are is left unsaid.
#[verifier::external_body]
fn debug_quoted(s: &str) -> (r: String)
    ensures
        r@ == debug_text(s@),
{
    format!("{s:?}")
}

/// Text of the error when the method is not forwardable.
pub open spec fn method_not_found_text(method: Seq<char>) -> Seq<char> {
    method
        + " cannot be forwarded: it is not a client-to-server LSP request, or it belongs to document synchronization, which Zed owns"@
}

/// Text of the error when the requested server is still starting.
pub open spec fn still_starting_text() -> Seq<char> {
    "language server is still starting; retry once _zed.dev/lsp/servers reports it running"@
}

/// Text of the error when no server has the requested id.
pub open spec fn unknown_server_text(server_id: Seq<char>) -> Seq<char> {
    "no language server with id "@ + debug_text(server_id)
        + "; call _zed.dev/lsp/servers for the current set"@
}

/// Text of the error for a failure at `stage` while forwarding `method`.
pub open spec fn forward_failure_text(
    stage: ForwardStage,
    method: Seq<char>,
    detail: Seq<char>,
) -> Seq<char> {
    match stage {
        ForwardStage::Params => "params for "@ + method + " are not valid: "@ + detail,
        ForwardStage::Request => method + " failed: "@ + detail,
        ForwardStage::Serialize => "could not serialize the "@ + method + " result: "@ + detail,
    }
}

/// The error class of a failure at `stage`.
pub open spec fn forward_failure_kind(stage: ForwardStage) -> ErrorKind {
    match stage {
        ForwardStage::Params => ErrorKind::InvalidParams,
        _ => ErrorKind::InternalError,
    }
}

/// Text of the error when the document a request names cannot be opened.
pub open spec fn open_failure_text(path: Seq<char>, detail: Seq<char>) -> Seq<char> {
    "could not open "@ + path + ": "@ + detail
}

/// The refusal of a method that is not forwardable.
pub fn method_not_found(method: &str) -> (e: ProxyError)
    ensures
        e.kind == ErrorKind::MethodNotFound,
        e.data@ == method_not_found_text(method@),
{
    let mut data = String::from_str(method);
    data.append(
        " cannot be forwarded: it is not a client-to-server LSP request, or it belongs to document synchronization, which Zed owns",
    );
    ProxyError { kind: ErrorKind::MethodNotFound, data }
}

/// The refusal of a request addressed to a server that is still starting.
pub fn still_starting() -> (e: ProxyError)
    ensures
        e.kind == ErrorKind::InvalidParams,
        e.data@ == still_starting_text(),
{
    let data = String::from_str(
        "language server is still starting; retry once _zed.dev/lsp/servers reports it running",
    );
    ProxyError { kind: ErrorKind::InvalidParams, data }
}

/// The refusal of a request addressed to an id that names no server.
pub fn unknown_server(server_id: &str) -> (e: ProxyError)
    ensures
        e.kind == ErrorKind::InvalidParams,
        e.data@ == unknown_server_text(server_id@),
{
    let mut data = String::from_str("no language server with id ");
    let quoted = debug_quoted(server_id);
    data.append(quoted.as_str());
    data.append("; call _zed.dev/lsp/servers for the current set");
    ProxyError { kind: ErrorKind::InvalidParams, data }
}

/// The error answering a failure at `stage` while forwarding `method`;
/// `detail` is the rendered cause.
pub fn forward_failure(stage: ForwardStage, method: &str, detail: &str) -> (e: ProxyError)
    ensures
        e.kind == forward_failure_kind(stage),
        e.data@ == forward_failure_text(stage, method@, detail@),
{
    match stage {
        ForwardStage::Params => {
            let mut data = String::from_str("params for ");
            data.append(method);
            data.append(" are not valid: ");
            data.append(detail);
            ProxyError { kind: ErrorKind::InvalidParams, data }
        },
        ForwardStage::Request => {
            let mut data = String::from_str(method);
            data.append(" failed: ");
            data.append(detail);
            ProxyError { kind: ErrorKind::InternalError, data }
        },
        ForwardStage::Serialize => {
            let mut data = String::from_str("could not serialize the ");
            data.append(method);
            data.append(" result: ");
            data.append(detail);
            ProxyError { kind: ErrorKind::InternalError, data }
        },
    }
}

/// The error answering a failure to open the document at `path` that a
/// request names; `detail` is the rendered cause.
pub fn open_failure(path: &str, detail: &str) -> (e: ProxyError)
    ensures
        e.kind == ErrorKind::InternalError,
        e.data@ == open_failure_text(path@, detail@),
{
    let mut data = String::from_str("could not open ");
    data.append(path);
    data.append(": ");
    data.append(detail);
    ProxyError { kind: ErrorKind::InternalError, data }
}

} // verus!
