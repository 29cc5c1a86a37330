use vstd::prelude::*;

use crate::errors::{method_not_found, method_not_found_text, ErrorKind, ProxyError};

verus! {

/// The client-to-server LSP requests that may be forwarded, in table order:
/// the whole client-to-server request surface except `initialize`,
/// `shutdown` and the document lifecycle. Requests that a server sends to its
/// client are absent: the editor, not the agent, is the client.
pub open spec fn forwardable_methods() -> Seq<Seq<char>> {
    seq![
        "callHierarchy/incomingCalls"@,
        "callHierarchy/outgoingCalls"@,
        "textDocument/prepareCallHierarchy"@,
        "textDocument/codeAction"@,
        "codeAction/resolve"@,
        "textDocument/codeLens"@,
        "codeLens/resolve"@,
        "textDocument/colorPresentation"@,
        "textDocument/completion"@,
        "textDocument/documentColor"@,
        "textDocument/diagnostic"@,
        "textDocument/documentHighlight"@,
        "textDocument/documentLink"@,
        "documentLink/resolve"@,
        "textDocument/documentSymbol"@,
        "workspace/executeCommand"@,
        "textDocument/formatting"@,
        "textDocument/declaration"@,
        "textDocument/definition"@,
        "textDocument/implementation"@,
        "textDocument/typeDefinition"@,
        "textDocument/hover"@,
        "textDocument/inlayHint"@,
        "inlayHint/resolve"@,
        "textDocument/inlineValue"@,
        "textDocument/moniker"@,
        "textDocument/prepareRename"@,
        "textDocument/rangeFormatting"@,
        "textDocument/references"@,
        "textDocument/rename"@,
        "textDocument/semanticTokens/full/delta"@,
        "textDocument/semanticTokens/full"@,
        "textDocument/semanticTokens/range"@,
        "textDocument/signatureHelp"@,
        "completionItem/resolve"@,
        "textDocument/prepareTypeHierarchy"@,
        "typeHierarchy/subtypes"@,
        "typeHierarchy/supertypes"@,
        "workspace/diagnostic"@,
        "workspace/symbol"@,
        "workspaceSymbol/resolve"@,
    ]
}

/// Whether `method` may be forwarded.
pub open spec fn is_forwardable(method: Seq<char>) -> bool {
    forwardable_methods().contains(method)
}

/// Every method this extension will forward, for diagnostics and docs.
pub fn available_methods() -> (methods: Vec<&'static str>)
    ensures
        methods.deep_view() == forwardable_methods(),
{
    let mut methods: Vec<&'static str> = Vec::new();
    methods.push("callHierarchy/incomingCalls");
    methods.push("callHierarchy/outgoingCalls");
    methods.push("textDocument/prepareCallHierarchy");
    methods.push("textDocument/codeAction");
    methods.push("codeAction/resolve");
    methods.push("textDocument/codeLens");
    methods.push("codeLens/resolve");
    methods.push("textDocument/colorPresentation");
    methods.push("textDocument/completion");
    methods.push("textDocument/documentColor");
    methods.push("textDocument/diagnostic");
    methods.push("textDocument/documentHighlight");
    methods.push("textDocument/documentLink");
    methods.push("documentLink/resolve");
    methods.push("textDocument/documentSymbol");
    methods.push("workspace/executeCommand");
    methods.push("textDocument/formatting");
    methods.push("textDocument/declaration");
    methods.push("textDocument/definition");
    methods.push("textDocument/implementation");
    methods.push("textDocument/typeDefinition");
    methods.push("textDocument/hover");
    methods.push("textDocument/inlayHint");
    methods.push("inlayHint/resolve");
    methods.push("textDocument/inlineValue");
    methods.push("textDocument/moniker");
    methods.push("textDocument/prepareRename");
    methods.push("textDocument/rangeFormatting");
    methods.push("textDocument/references");
    methods.push("textDocument/rename");
    methods.push("textDocument/semanticTokens/full/delta");
    methods.push("textDocument/semanticTokens/full");
    methods.push("textDocument/semanticTokens/range");
    methods.push("textDocument/signatureHelp");
    methods.push("completionItem/resolve");
    methods.push("textDocument/prepareTypeHierarchy");
    methods.push("typeHierarchy/subtypes");
    methods.push("typeHierarchy/supertypes");
    methods.push("workspace/diagnostic");
    methods.push("workspace/symbol");
    methods.push("workspaceSymbol/resolve");
    assert(methods.deep_view() =~= forwardable_methods());
    methods
}

/// Decides how a request for `method` is forwarded: the position of `method`
/// in the forwarding table, which selects the request type its parameters
/// and result are read as, or the refusal of a method that is not
/// forwardable.
pub fn forward_route(method: &str) -> (r: Result<usize, ProxyError>)
    ensures
        r is Ok <==> is_forwardable(method@),
        r matches Ok(i) ==> i < forwardable_methods().len() && forwardable_methods()[i as int]
            == method@ && forall|j: int| 0 <= j < i ==> forwardable_methods()[j] != method@,
        r matches Err(e) ==> e.kind == ErrorKind::MethodNotFound && e.data@
            == method_not_found_text(method@),
{
    let methods = available_methods();
    let wanted = String::from_str(method);
    let mut i: usize = 0;
    while i < methods.len()
        invariant
            methods.deep_view() == forwardable_methods(),
            wanted@ == method@,
            i <= methods.len(),
            forall|j: int| 0 <= j < i ==> forwardable_methods()[j] != method@,
        decreases methods.len() - i,
    {
        let candidate = String::from_str(methods[i]);
        assert(methods.deep_view()[i as int] == methods@[i as int]@);
        if candidate == wanted {
            return Ok(i);
        }
        i = i + 1;
    }
    assert(!forwardable_methods().contains(method@));
    Err(method_not_found(method))
}

/// A method is forwarded exactly when the `available_methods` of a listing
/// name it: [`forward_route`] accepts a method iff [`is_forwardable`] holds,
/// and a listing's `available_methods` is [`forwardable_methods`].
pub proof fn lemma_forwarded_iff_listed(method: Seq<char>)
    ensures
        is_forwardable(method) <==> exists|i: int|
            0 <= i < forwardable_methods().len() && #[trigger] forwardable_methods()[i] == method,
{
}

} // verus!
