use lsp_types::request as lr;
use lsp_types::request::Request;
use lsp_proxy::errors::{
    forward_failure, method_not_found, open_failure, ErrorKind, ForwardStage,
};
use lsp_proxy::listing::{
    list_servers, resolve_server, AdapterEntry, LanguageEntry, LanguageServerState,
    ServerRegistry, ServerStatus, StartingServer, CAPABILITY_KEY,
};
use lsp_proxy::methods::{available_methods, forward_route};
use lsp_proxy::server_id::make_server_id;

#[test]
fn forwards_the_client_to_server_surface() {
    let methods = available_methods();

    for expected in [
        "textDocument/hover",
        "textDocument/definition",
        "textDocument/references",
        "textDocument/rename",
        "textDocument/diagnostic",
        // Allowed deliberately: side effects are the agent runtime's to gate.
        "workspace/executeCommand",
    ] {
        assert!(
            methods.contains(&expected),
            "{expected} should be forwardable"
        );
    }
}

#[test]
fn withholds_lifecycle_and_document_synchronization() {
    let methods = available_methods();

    for withheld in [
        "initialize",
        "shutdown",
        "exit",
        "textDocument/didOpen",
        "textDocument/didChange",
        "textDocument/didClose",
        "textDocument/didSave",
        "textDocument/willSaveWaitUntil",
        "workspace/didChangeConfiguration",
        "workspace/didChangeWatchedFiles",
        "$/cancelRequest",
    ] {
        assert!(
            !methods.contains(&withheld),
            "{withheld} should not be forwardable"
        );
    }
}

#[test]
fn withholds_requests_only_a_server_may_send() {
    let methods = available_methods();

    for withheld in [
        "workspace/applyEdit",
        "workspace/configuration",
        "client/registerCapability",
        "window/showMessageRequest",
        "window/workDoneProgress/create",
    ] {
        assert!(
            !methods.contains(&withheld),
            "{withheld} is sent by a server to its client, not forwardable"
        );
    }
}

#[test]
fn method_table_matches_lsp_request_types() {
    let expected: Vec<&'static str> = vec![
        <lr::CallHierarchyIncomingCalls as Request>::METHOD,
        <lr::CallHierarchyOutgoingCalls as Request>::METHOD,
        <lr::CallHierarchyPrepare as Request>::METHOD,
        <lr::CodeActionRequest as Request>::METHOD,
        <lr::CodeActionResolveRequest as Request>::METHOD,
        <lr::CodeLensRequest as Request>::METHOD,
        <lr::CodeLensResolve as Request>::METHOD,
        <lr::ColorPresentationRequest as Request>::METHOD,
        <lr::Completion as Request>::METHOD,
        <lr::DocumentColor as Request>::METHOD,
        <lr::DocumentDiagnosticRequest as Request>::METHOD,
        <lr::DocumentHighlightRequest as Request>::METHOD,
        <lr::DocumentLinkRequest as Request>::METHOD,
        <lr::DocumentLinkResolve as Request>::METHOD,
        <lr::DocumentSymbolRequest as Request>::METHOD,
        <lr::ExecuteCommand as Request>::METHOD,
        <lr::Formatting as Request>::METHOD,
        <lr::GotoDeclaration as Request>::METHOD,
        <lr::GotoDefinition as Request>::METHOD,
        <lr::GotoImplementation as Request>::METHOD,
        <lr::GotoTypeDefinition as Request>::METHOD,
        <lr::HoverRequest as Request>::METHOD,
        <lr::InlayHintRequest as Request>::METHOD,
        <lr::InlayHintResolveRequest as Request>::METHOD,
        <lr::InlineValueRequest as Request>::METHOD,
        <lr::MonikerRequest as Request>::METHOD,
        <lr::PrepareRenameRequest as Request>::METHOD,
        <lr::RangeFormatting as Request>::METHOD,
        <lr::References as Request>::METHOD,
        <lr::Rename as Request>::METHOD,
        <lr::SemanticTokensFullDeltaRequest as Request>::METHOD,
        <lr::SemanticTokensFullRequest as Request>::METHOD,
        <lr::SemanticTokensRangeRequest as Request>::METHOD,
        <lr::SignatureHelpRequest as Request>::METHOD,
        <lr::ResolveCompletionItem as Request>::METHOD,
        <lr::TypeHierarchyPrepare as Request>::METHOD,
        <lr::TypeHierarchySubtypes as Request>::METHOD,
        <lr::TypeHierarchySupertypes as Request>::METHOD,
        <lr::WorkspaceDiagnosticRequest as Request>::METHOD,
        <lr::WorkspaceSymbolRequest as Request>::METHOD,
        <lr::WorkspaceSymbolResolve as Request>::METHOD,
    ];
    assert_eq!(available_methods(), expected);
}

#[test]
fn routes_forwardable_methods_to_their_table_position() {
    let methods = available_methods();
    for (i, method) in methods.iter().enumerate() {
        assert_eq!(forward_route(method).unwrap(), i);
    }
    assert_eq!(forward_route("textDocument/hover").unwrap(), 21);
    assert_eq!(forward_route("callHierarchy/incomingCalls").unwrap(), 0);
}

#[test]
fn refuses_methods_outside_the_table() {
    let err = forward_route("textDocument/didOpen").unwrap_err();
    assert_eq!(err.kind, ErrorKind::MethodNotFound);
    assert_eq!(
        err.data,
        "textDocument/didOpen cannot be forwarded: it is not a client-to-server LSP request, \
         or it belongs to document synchronization, which Zed owns"
    );
    assert!(forward_route("").is_err());
    assert!(forward_route("textDocument/hover ").is_err());
    let direct = method_not_found("x");
    assert_eq!(direct.kind, ErrorKind::MethodNotFound);
    assert!(direct.data.starts_with("x cannot be forwarded"));
}

#[test]
fn forward_failures_name_the_method_and_cause() {
    let e = forward_failure(ForwardStage::Params, "textDocument/hover", "missing field `position`");
    assert_eq!(e.kind, ErrorKind::InvalidParams);
    assert_eq!(
        e.data,
        "params for textDocument/hover are not valid: missing field `position`"
    );
    let e = forward_failure(ForwardStage::Request, "textDocument/hover", "timed out");
    assert_eq!(e.kind, ErrorKind::InternalError);
    assert_eq!(e.data, "textDocument/hover failed: timed out");
    let e = forward_failure(ForwardStage::Serialize, "workspace/symbol", "bad float");
    assert_eq!(e.kind, ErrorKind::InternalError);
    assert_eq!(e.data, "could not serialize the workspace/symbol result: bad float");
    let e = open_failure("/work/src/main.rs", "not found");
    assert_eq!(e.kind, ErrorKind::InternalError);
    assert_eq!(e.data, "could not open /work/src/main.rs: not found");
}

#[test]
fn server_id_joins_name_and_path_on_nul() {
    assert_eq!(make_server_id("rust-analyzer", "/work/app"), "rust-analyzer\0/work/app");
    assert_eq!(make_server_id("", ""), "\0");
    assert_ne!(
        make_server_id("a", "b/c"),
        make_server_id("a\u{1}b", "c")
    );
    // Same name and path give the same id: stable across restarts.
    assert_eq!(make_server_id("pyright", "/w"), make_server_id("pyright", "/w"));
}

#[test]
fn capability_key_is_lsp() {
    assert_eq!(CAPABILITY_KEY, "lsp");
}

fn rust_language() -> LanguageEntry {
    LanguageEntry {
        name: "Rust".to_string(),
        path_suffixes: vec!["rs".to_string()],
        lsp_id: "rust".to_string(),
        adapters: vec![
            AdapterEntry { name: "other".to_string(), language_id: "other-id".to_string() },
            AdapterEntry { name: "rust-analyzer".to_string(), language_id: "rust-ra".to_string() },
        ],
    }
}

fn status(name: &str, path: Option<&str>, running: bool, language: Option<&str>) -> ServerStatus {
    ServerStatus {
        name: name.to_string(),
        workspace_path: path.map(|p| p.to_string()),
        is_running: running,
        language_name: language.map(|l| l.to_string()),
        version: None,
        capabilities: None,
    }
}

fn starting(name: &str, path: Option<&str>) -> StartingServer {
    StartingServer { name: name.to_string(), workspace_path: path.map(|p| p.to_string()) }
}

fn registry() -> ServerRegistry {
    let mut ra = status("rust-analyzer", Some("/work"), true, Some("Rust"));
    ra.version = Some("rust-analyzer 1.87.0".to_string());
    ra.capabilities = Some(serde_json::from_str(r#"{"hoverProvider":true}"#).unwrap());
    ServerRegistry {
        statuses: vec![
            ra,
            status("remote-ls", None, true, Some("Rust")),
            status("taplo", Some("/work"), false, Some("TOML")),
            status("other", Some("/lib"), true, Some("Rust")),
        ],
        starting: vec![starting("pyright", Some("/work")), starting("ghost", None)],
        languages: vec![rust_language()],
    }
}

#[test]
fn lists_known_servers_then_starting_ones() {
    let response = list_servers(registry());
    let servers = &response.servers;
    assert_eq!(servers.len(), 4);

    let ra = &servers[0];
    assert_eq!(ra.server_id, "rust-analyzer\0/work");
    assert_eq!(ra.name, "rust-analyzer");
    assert_eq!(ra.state, LanguageServerState::Running);
    assert_eq!(ra.workspace_path, "/work");
    assert_eq!(ra.file_extensions, vec!["rs".to_string()]);
    assert_eq!(ra.language_id.as_deref(), Some("rust-ra"));
    assert_eq!(ra.version.as_deref(), Some("rust-analyzer 1.87.0"));
    assert_eq!(
        ra.capabilities,
        Some(serde_json::from_str::<serde_json::Value>(r#"{"hoverProvider":true}"#).unwrap())
    );

    // The language is unknown to the registry: no extensions, no id.
    let taplo = &servers[1];
    assert_eq!(taplo.server_id, "taplo\0/work");
    assert_eq!(taplo.state, LanguageServerState::NotRunning);
    assert!(taplo.file_extensions.is_empty());
    assert_eq!(taplo.language_id, None);

    // The first adapter named after the server decides the language id.
    let other = &servers[2];
    assert_eq!(other.server_id, "other\0/lib");
    assert_eq!(other.language_id.as_deref(), Some("other-id"));

    let pyright = &servers[3];
    assert_eq!(pyright.server_id, "pyright\0/work");
    assert_eq!(pyright.state, LanguageServerState::Starting);
    assert!(pyright.file_extensions.is_empty());
    assert_eq!(pyright.language_id, None);
    assert_eq!(pyright.version, None);
    assert_eq!(pyright.capabilities, None);

    let methods: Vec<String> = available_methods().into_iter().map(str::to_owned).collect();
    assert_eq!(response.available_methods, methods);
}

#[test]
fn falls_back_to_the_language_default_id() {
    let reg = ServerRegistry {
        statuses: vec![status("rust-analyzer-custom", Some("/w"), true, Some("Rust"))],
        starting: vec![],
        languages: vec![rust_language()],
    };
    let response = list_servers(reg);
    assert_eq!(response.servers[0].language_id.as_deref(), Some("rust"));
    assert_eq!(response.servers[0].file_extensions, vec!["rs".to_string()]);
}

#[test]
fn empty_registry_lists_nothing() {
    let reg = ServerRegistry { statuses: vec![], starting: vec![], languages: vec![] };
    let response = list_servers(reg);
    assert!(response.servers.is_empty());
    assert_eq!(response.available_methods.len(), 41);
}

#[test]
fn resolves_running_servers_by_their_listed_id() {
    let reg = registry();
    assert_eq!(resolve_server(&reg, "rust-analyzer\0/work").unwrap(), 0);
    assert_eq!(resolve_server(&reg, "other\0/lib").unwrap(), 3);
}

#[test]
fn refuses_starting_servers_as_still_starting() {
    let reg = registry();
    let err = resolve_server(&reg, "pyright\0/work").unwrap_err();
    assert_eq!(err.kind, ErrorKind::InvalidParams);
    assert_eq!(
        err.data,
        "language server is still starting; retry once _zed.dev/lsp/servers reports it running"
    );
}

#[test]
fn refuses_not_running_and_unknown_ids() {
    let reg = registry();
    let err = resolve_server(&reg, "taplo\0/work").unwrap_err();
    assert_eq!(err.kind, ErrorKind::InvalidParams);
    assert_eq!(
        err.data,
        "no language server with id \"taplo\\0/work\"; call _zed.dev/lsp/servers for the current set"
    );
    // A server without a workspace cannot be addressed.
    let err = resolve_server(&reg, "remote-ls\0").unwrap_err();
    assert!(err.data.starts_with("no language server with id"));
    let err = resolve_server(&reg, "say \"hi\"").unwrap_err();
    assert_eq!(
        err.data,
        "no language server with id \"say \\\"hi\\\"\"; call _zed.dev/lsp/servers for the current set"
    );
}

#[test]
fn every_listed_running_server_resolves() {
    let response = list_servers(registry());
    let reg = registry();
    for server in &response.servers {
        let resolved = resolve_server(&reg, &server.server_id);
        match server.state {
            LanguageServerState::Running => assert!(resolved.is_ok()),
            LanguageServerState::Starting => assert_eq!(
                resolved.unwrap_err().data,
                "language server is still starting; retry once _zed.dev/lsp/servers reports it running"
            ),
            LanguageServerState::NotRunning => assert!(resolved.is_err()),
        }
    }
}

#[test]
fn running_server_wins_over_a_starting_one_with_the_same_id() {
    let reg = ServerRegistry {
        statuses: vec![
            status("ls", Some("/w"), false, None),
            status("ls", Some("/w"), true, None),
        ],
        starting: vec![starting("ls", Some("/w"))],
        languages: vec![],
    };
    assert_eq!(resolve_server(&reg, "ls\0/w").unwrap(), 1);
}
