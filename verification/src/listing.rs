//! The `_zed.dev/lsp` server listing and the resolution of a server id.
//!
//! The project's language-server state is handed to the library as a
//! [`ServerRegistry`] of plain values; the listing and the resolution of a
//! requested id are both computed from it, so that every id a listing shows
//! as running can be requested, and no other.
use vstd::prelude::*;

use crate::errors::{
    still_starting, still_starting_text, unknown_server, unknown_server_text, ErrorKind, ProxyError,
};
use crate::methods::{available_methods, forwardable_methods};
use crate::server_id::{make_server_id, server_id_of};

verus! {

/// Key holding the extension's capability object in the client
/// capabilities `_meta`. Absent or `null` means unsupported; any object,
/// including an empty one, means supported.
pub const CAPABILITY_KEY: &'static str = "lsp";

/// The state a listed server is in.
#[derive(Clone, Copy, Debug, PartialEq, Eq, Structural)]
pub enum LanguageServerState {
    /// Initialized, with a process behind it, and able to answer requests.
    Running,
    /// Spawned but not yet initialized: requests against its id fail until it
    /// finishes starting; the id stays valid across that transition.
    Starting,
    /// Known to the project but not answering requests, and not starting: a
    /// server owned by the host of a remote or collaborative project.
    NotRunning,
}

/// One entry of the server listing.
pub struct LanguageServerInfo {
    /// Identifies this server for `_zed.dev/lsp/request`. Opaque to callers.
    pub server_id: String,
    pub name: String,
    pub state: LanguageServerState,
    /// Root of the workspace this server was started for.
    pub workspace_path: String,
    /// File extensions (without the leading dot) of the server's language;
    /// empty if the language is unknown.
    pub file_extensions: Vec<String>,
    /// The LSP `languageId` of the server's language.
    pub language_id: Option<String>,
    /// A human-readable server version, when the server reports one.
    pub version: Option<String>,
    /// The server's `initialize` response capabilities, verbatim.
    pub capabilities: Option<serde_json::Value>,
}

/// A listing entry as a mathematical value.
pub struct ServerInfoView {
    pub server_id: Seq<char>,
    pub name: Seq<char>,
    pub state: LanguageServerState,
    pub workspace_path: Seq<char>,
    pub file_extensions: Seq<Seq<char>>,
    pub language_id: Option<Seq<char>>,
    pub version: Option<Seq<char>>,
    pub capabilities: Option<serde_json::Value>,
}

impl View for LanguageServerInfo {
    type V = ServerInfoView;

    open spec fn view(&self) -> ServerInfoView {
        ServerInfoView {
            server_id: self.server_id@,
            name: self.name@,
            state: self.state,
            workspace_path: self.workspace_path@,
            file_extensions: self.file_extensions.deep_view(),
            language_id: self.language_id.deep_view(),
            version: self.version.deep_view(),
            capabilities: self.capabilities,
        }
    }
}

/// The answer to `_zed.dev/lsp/servers`.
pub struct ListServersResponse {
    pub servers: Vec<LanguageServerInfo>,
    /// Every method `_zed.dev/lsp/request` will forward. Anything absent is
    /// rejected.
    pub available_methods: Vec<String>,
}

/// The `_zed.dev/lsp/servers` request.
pub struct ListServersRequest {
    pub session_id: String,
}

/// The `_zed.dev/lsp/request` request.
pub struct SendRequestRequest {
    pub session_id: String,
    /// A `serverId` from `_zed.dev/lsp/servers`.
    pub server_id: String,
    /// An LSP client-to-server method name, such as `textDocument/hover`.
    pub method: String,
    pub params: serde_json::Value,
}

/// The answer to `_zed.dev/lsp/request`.
pub struct SendRequestResponse {
    /// The server's result, deserialized and re-serialized but not reshaped.
    pub lsp_result: serde_json::Value,
}

/// A language adapter registered for a language: its server name and the
/// `languageId` it reports for that language.
pub struct AdapterEntry {
    pub name: String,
    pub language_id: String,
}

/// A language known to the project.
pub struct LanguageEntry {
    pub name: String,
    pub path_suffixes: Vec<String>,
    /// The language's default LSP `languageId`.
    pub lsp_id: String,
    /// The adapters registered for the language, in registry order.
    pub adapters: Vec<AdapterEntry>,
}

/// The status the project keeps of a language server it knows.
pub struct ServerStatus {
    pub name: String,
    /// The root of the server's worktree; `None` for a server without one
    /// (owned by the host of a remote or collaborative project).
    pub workspace_path: Option<String>,
    /// Whether a server process answers for this status.
    pub is_running: bool,
    pub language_name: Option<String>,
    pub version: Option<String>,
    pub capabilities: Option<serde_json::Value>,
}

/// A server that has been spawned but not initialized.
pub struct StartingServer {
    pub name: String,
    pub workspace_path: Option<String>,
}

/// The project's language-server state: the statuses of known servers, the
/// servers still starting, and the language registry.
pub struct ServerRegistry {
    pub statuses: Vec<ServerStatus>,
    pub starting: Vec<StartingServer>,
    pub languages: Vec<LanguageEntry>,
}

/// The first language of `languages` named `name`.
pub open spec fn language_named(languages: Seq<LanguageEntry>, name: Seq<char>) -> Option<
    LanguageEntry,
>
    decreases languages.len(),
{
    if languages.len() == 0 {
        None
    } else if languages[0].name@ == name {
        Some(languages[0])
    } else {
        language_named(languages.drop_first(), name)
    }
}

/// The `languageId` reported by the first adapter of `adapters` whose name
/// is `server_name`.
pub open spec fn adapter_language_id(adapters: Seq<AdapterEntry>, server_name: Seq<char>) -> Option<
    Seq<char>,
>
    decreases adapters.len(),
{
    if adapters.len() == 0 {
        None
    } else if adapters[0].name@ == server_name {
        Some(adapters[0].language_id@)
    } else {
        adapter_language_id(adapters.drop_first(), server_name)
    }
}

/// The language of a server status, looked up by name in the registry.
pub open spec fn status_language(languages: Seq<LanguageEntry>, status: ServerStatus) -> Option<
    LanguageEntry,
> {
    match status.language_name {
        Some(name) => language_named(languages, name@),
        None => None,
    }
}

/// The `languageId` listed for a server of `language`: the one its matching
/// adapter reports, else the language's default.
pub open spec fn listed_language_id(language: LanguageEntry, server_name: Seq<char>) -> Seq<char> {
    match adapter_language_id(language.adapters@, server_name) {
        Some(id) => id,
        None => language.lsp_id@,
    }
}

/// The listing entry for a known server; `None` for one without a workspace,
/// which cannot be addressed.
pub open spec fn status_info(languages: Seq<LanguageEntry>, status: ServerStatus) -> Option<
    ServerInfoView,
> {
    match status.workspace_path {
        None => None,
        Some(path) => {
            let language = status_language(languages, status);
            Some(
                ServerInfoView {
                    server_id: server_id_of(status.name@, path@),
                    name: status.name@,
                    state: if status.is_running {
                        LanguageServerState::Running
                    } else {
                        LanguageServerState::NotRunning
                    },
                    workspace_path: path@,
                    file_extensions: match language {
                        Some(l) => l.path_suffixes.deep_view(),
                        None => Seq::empty(),
                    },
                    language_id: match language {
                        Some(l) => Some(listed_language_id(l, status.name@)),
                        None => None,
                    },
                    version: status.version.deep_view(),
                    capabilities: status.capabilities,
                },
            )
        },
    }
}

/// The listing entry for a starting server; `None` for one without a
/// workspace.
pub open spec fn starting_info(server: StartingServer) -> Option<ServerInfoView> {
    match server.workspace_path {
        None => None,
        Some(path) => Some(
            ServerInfoView {
                server_id: server_id_of(server.name@, path@),
                name: server.name@,
                state: LanguageServerState::Starting,
                workspace_path: path@,
                file_extensions: Seq::empty(),
                language_id: None,
                version: None,
                capabilities: None,
            },
        ),
    }
}

/// The entries for `statuses`, in order, skipping those without a workspace.
pub open spec fn status_infos(languages: Seq<LanguageEntry>, statuses: Seq<ServerStatus>) -> Seq<
    ServerInfoView,
>
    decreases statuses.len(),
{
    if statuses.len() == 0 {
        Seq::empty()
    } else {
        let before = status_infos(languages, statuses.drop_last());
        match status_info(languages, statuses.last()) {
            Some(info) => before.push(info),
            None => before,
        }
    }
}

/// The entries for `starting`, in order, skipping those without a workspace.
pub open spec fn starting_infos(starting: Seq<StartingServer>) -> Seq<ServerInfoView>
    decreases starting.len(),
{
    if starting.len() == 0 {
        Seq::empty()
    } else {
        let before = starting_infos(starting.drop_last());
        match starting_info(starting.last()) {
            Some(info) => before.push(info),
            None => before,
        }
    }
}

/// The servers listed for a registry: the known servers, then the starting
/// ones.
pub open spec fn listed_servers(registry: ServerRegistry) -> Seq<ServerInfoView> {
    status_infos(registry.languages@, registry.statuses@) + starting_infos(registry.starting@)
}

/// An optional entry as a mathematical value.
pub open spec fn info_view(info: Option<LanguageServerInfo>) -> Option<ServerInfoView> {
    match info {
        Some(i) => Some(i@),
        None => None,
    }
}

/// Copies a list of strings.
fn copy_strings(strings: &Vec<String>) -> (copy: Vec<String>)
    ensures
        copy.deep_view() == strings.deep_view(),
{
    let mut copy: Vec<String> = Vec::new();
    let mut i: usize = 0;
    while i < strings.len()
        invariant
            i <= strings.len(),
            copy.len() == i,
            forall|j: int| 0 <= j < i ==> copy@[j]@ == strings@[j]@,
        decreases strings.len() - i,
    {
        let s = strings[i].clone();
        copy.push(s);
        i = i + 1;
    }
    assert(copy.deep_view() =~= strings.deep_view());
    copy
}

/// Finds the first language named `name`.
fn find_language(languages: &Vec<LanguageEntry>, name: &String) -> (found: Option<usize>)
    ensures
        match found {
            Some(i) => i < languages.len() && language_named(languages@, name@) == Some(
                languages@[i as int],
            ),
            None => language_named(languages@, name@) is None,
        },
{
    let mut i: usize = 0;
    assert(languages@.subrange(0, languages@.len() as int) =~= languages@);
    while i < languages.len()
        invariant
            i <= languages.len(),
            language_named(languages@, name@) == language_named(
                languages@.subrange(i as int, languages@.len() as int),
                name@,
            ),
        decreases languages.len() - i,
    {
        let rest = Ghost(languages@.subrange(i as int, languages@.len() as int));
        assert(rest@[0] == languages@[i as int]);
        if languages[i].name == *name {
            return Some(i);
        }
        assert(rest@.drop_first() =~= languages@.subrange(i + 1, languages@.len() as int));
        i = i + 1;
    }
    None
}

/// The `languageId` listed for a server named `server_name` of `language`.
fn language_id_for(language: &LanguageEntry, server_name: &String) -> (id: String)
    ensures
        id@ == listed_language_id(*language, server_name@),
{
    let adapters = &language.adapters;
    let mut i: usize = 0;
    assert(adapters@.subrange(0, adapters@.len() as int) =~= adapters@);
    while i < adapters.len()
        invariant
            adapters@ == language.adapters@,
            i <= adapters.len(),
            adapter_language_id(adapters@, server_name@) == adapter_language_id(
                adapters@.subrange(i as int, adapters@.len() as int),
                server_name@,
            ),
        decreases adapters.len() - i,
    {
        let rest = Ghost(adapters@.subrange(i as int, adapters@.len() as int));
        assert(rest@[0] == adapters@[i as int]);
        if adapters[i].name == *server_name {
            return adapters[i].language_id.clone();
        }
        assert(rest@.drop_first() =~= adapters@.subrange(i + 1, adapters@.len() as int));
        i = i + 1;
    }
    language.lsp_id.clone()
}

/// The listing entry for a known server.
fn info_for_status(languages: &Vec<LanguageEntry>, status: ServerStatus) -> (info: Option<
    LanguageServerInfo,
>)
    ensures
        info_view(info) == status_info(languages@, status),
{
    let ghost original = status;
    let ServerStatus { name, workspace_path, is_running, language_name, version, capabilities } =
        status;
    match workspace_path {
        None => None,
        Some(path) => {
            let server_id = make_server_id(name.as_str(), path.as_str());
            let language = match &language_name {
                Some(language_name) => find_language(languages, language_name),
                None => None,
            };
            let (file_extensions, language_id) = match language {
                Some(i) => (
                    copy_strings(&languages[i].path_suffixes),
                    Some(language_id_for(&languages[i], &name)),
                ),
                None => (Vec::new(), None),
            };
            let state = if is_running {
                LanguageServerState::Running
            } else {
                LanguageServerState::NotRunning
            };
            let info = LanguageServerInfo {
                server_id,
                name,
                state,
                workspace_path: path,
                file_extensions,
                language_id,
                version,
                capabilities,
            };
            assert(info@.file_extensions =~= status_info(languages@, original)->0.file_extensions);
            Some(info)
        },
    }
}

/// The listing entry for a starting server.
fn info_for_starting(server: StartingServer) -> (info: Option<LanguageServerInfo>)
    ensures
        info_view(info) == starting_info(server),
{
    let StartingServer { name, workspace_path } = server;
    match workspace_path {
        None => None,
        Some(path) => {
            let server_id = make_server_id(name.as_str(), path.as_str());
            let info = LanguageServerInfo {
                server_id,
                name,
                state: LanguageServerState::Starting,
                workspace_path: path,
                file_extensions: Vec::new(),
                language_id: None,
                version: None,
                capabilities: None,
            };
            assert(info@.file_extensions =~= Seq::empty());
            Some(info)
        },
    }
}

/// Lists the servers of a registry for `_zed.dev/lsp/servers`: every known
/// server that has a workspace, as running or not running, then every
/// starting server that has one; with the methods that may be forwarded.
pub fn list_servers(registry: ServerRegistry) -> (response: ListServersResponse)
    ensures
        response.servers@.map_values(|s: LanguageServerInfo| s@) == listed_servers(registry),
        response.available_methods.deep_view() == forwardable_methods(),
{
    let ghost original = registry;
    let ServerRegistry { statuses, starting, languages } = registry;
    let mut servers: Vec<LanguageServerInfo> = Vec::new();
    for status in it: statuses.into_iter()
        invariant
            it.seq() == original.statuses@,
            languages@ == original.languages@,
            servers@.map_values(|s: LanguageServerInfo| s@) == status_infos(
                original.languages@,
                it.seq().take(it.index() as int),
            ),
    {
        let ghost k: int = it.index() as int;
        assert(it.seq().take(k + 1).drop_last() =~= it.seq().take(k));
        let info = info_for_status(&languages, status);
        match info {
            Some(info) => {
                servers.push(info);
            },
            None => {},
        }
        assert(servers@.map_values(|s: LanguageServerInfo| s@) =~= status_infos(
            original.languages@,
            it.seq().take(k + 1),
        ));
    }
    assert(original.statuses@.take(original.statuses@.len() as int) =~= original.statuses@);
    let ghost running_part = servers@.map_values(|s: LanguageServerInfo| s@);
    for server in it: starting.into_iter()
        invariant
            it.seq() == original.starting@,
            running_part == status_infos(original.languages@, original.statuses@),
            servers@.map_values(|s: LanguageServerInfo| s@) == running_part + starting_infos(
                it.seq().take(it.index() as int),
            ),
    {
        let ghost k: int = it.index() as int;
        let ghost before = servers@;
        assert(it.seq().take(k + 1).drop_last() =~= it.seq().take(k));
        assert(it.seq().take(k + 1).last() == server);
        let info = info_for_starting(server);
        match info {
            Some(info) => {
                servers.push(info);
                assert(servers@.map_values(|s: LanguageServerInfo| s@) =~= before.map_values(
                    |s: LanguageServerInfo| s@,
                ).push(info@));
            },
            None => {},
        }
        assert(servers@.map_values(|s: LanguageServerInfo| s@) =~= running_part + starting_infos(
            it.seq().take(k + 1),
        ));
    }
    assert(original.starting@.take(original.starting@.len() as int) =~= original.starting@);
    let methods = available_methods();
    let mut available: Vec<String> = Vec::new();
    let mut i: usize = 0;
    while i < methods.len()
        invariant
            i <= methods.len(),
            methods.deep_view() == forwardable_methods(),
            available.len() == i,
            forall|j: int| 0 <= j < i ==> available@[j]@ == methods@[j]@,
        decreases methods.len() - i,
    {
        available.push(String::from_str(methods[i]));
        i = i + 1;
    }
    assert(available.deep_view() =~= methods.deep_view());
    ListServersResponse { servers, available_methods: available }
}

/// Whether a known server answers to `server_id`: it has a workspace, its
/// minted id is `server_id`, and a process runs behind it.
pub open spec fn serves(status: ServerStatus, server_id: Seq<char>) -> bool {
    status.is_running && match status.workspace_path {
        Some(path) => server_id_of(status.name@, path@) == server_id,
        None => false,
    }
}

/// Whether a starting server will answer to `server_id` once started.
pub open spec fn starts_as(server: StartingServer, server_id: Seq<char>) -> bool {
    match server.workspace_path {
        Some(path) => server_id_of(server.name@, path@) == server_id,
        None => false,
    }
}

/// Whether some known server of `registry` answers to `server_id`.
pub open spec fn has_serving(registry: ServerRegistry, server_id: Seq<char>) -> bool {
    exists|i: int| 0 <= i < registry.statuses@.len() && #[trigger] serves(
        registry.statuses@[i],
        server_id,
    )
}

/// Whether some starting server of `registry` will answer to `server_id`.
pub open spec fn has_starting(registry: ServerRegistry, server_id: Seq<char>) -> bool {
    exists|i: int| 0 <= i < registry.starting@.len() && #[trigger] starts_as(
        registry.starting@[i],
        server_id,
    )
}

/// Finds the running server whose minted id is `server_id`: the position of
/// the first known server that [`serves`] it. The id is never parsed: every
/// candidate's id is recomputed from its name and workspace path and
/// compared. A request for an id that only a starting server has is refused
/// as still starting; one for any other id as unknown.
pub fn resolve_server(registry: &ServerRegistry, server_id: &str) -> (r: Result<usize, ProxyError>)
    ensures
        r is Ok <==> has_serving(*registry, server_id@),
        r matches Ok(i) ==> i < registry.statuses@.len() && serves(
            registry.statuses@[i as int],
            server_id@,
        ) && forall|j: int| 0 <= j < i ==> !serves(registry.statuses@[j], server_id@),
        r matches Err(e) ==> e.kind == ErrorKind::InvalidParams && e.data@ == if has_starting(
            *registry,
            server_id@,
        ) {
            still_starting_text()
        } else {
            unknown_server_text(server_id@)
        },
{
    let wanted = String::from_str(server_id);
    let statuses = &registry.statuses;
    let mut i: usize = 0;
    while i < statuses.len()
        invariant
            statuses@ == registry.statuses@,
            wanted@ == server_id@,
            i <= statuses.len(),
            forall|j: int| 0 <= j < i ==> !serves(statuses@[j], server_id@),
        decreases statuses.len() - i,
    {
        let status = &statuses[i];
        match &status.workspace_path {
            Some(path) => {
                let id = make_server_id(status.name.as_str(), path.as_str());
                if id == wanted && status.is_running {
                    assert(serves(registry.statuses@[i as int], server_id@));
                    return Ok(i);
                }
            },
            None => {},
        }
        i = i + 1;
    }
    let starting = &registry.starting;
    let mut k: usize = 0;
    while k < starting.len()
        invariant
            starting@ == registry.starting@,
            wanted@ == server_id@,
            forall|j: int|
                0 <= j < registry.statuses@.len() ==> !serves(registry.statuses@[j], server_id@),
            k <= starting.len(),
            forall|j: int| 0 <= j < k ==> !starts_as(starting@[j], server_id@),
        decreases starting.len() - k,
    {
        let server = &starting[k];
        match &server.workspace_path {
            Some(path) => {
                let id = make_server_id(server.name.as_str(), path.as_str());
                if id == wanted {
                    assert(starts_as(registry.starting@[k as int], server_id@));
                    return Err(still_starting());
                }
            },
            None => {},
        }
        k = k + 1;
    }
    Err(unknown_server(server_id))
}

/// Whether the listing of `registry` shows a server with id `server_id` in
/// state `state`.
pub open spec fn listed_as(
    registry: ServerRegistry,
    server_id: Seq<char>,
    state: LanguageServerState,
) -> bool {
    exists|k: int|
        0 <= k < listed_servers(registry).len() && #[trigger] listed_servers(registry)[k].server_id
            == server_id && listed_servers(registry)[k].state == state
}

proof fn lemma_status_infos_running(
    languages: Seq<LanguageEntry>,
    statuses: Seq<ServerStatus>,
    server_id: Seq<char>,
)
    ensures
        (exists|k: int|
            0 <= k < status_infos(languages, statuses).len() && #[trigger] status_infos(
                languages,
                statuses,
            )[k].server_id == server_id && status_infos(languages, statuses)[k].state
                == LanguageServerState::Running) <==> (exists|i: int|
            0 <= i < statuses.len() && #[trigger] serves(statuses[i], server_id)),
        forall|k: int|
            0 <= k < status_infos(languages, statuses).len() ==> #[trigger] status_infos(
                languages,
                statuses,
            )[k].state != LanguageServerState::Starting,
    decreases statuses.len(),
{
    if statuses.len() > 0 {
        let rest = statuses.drop_last();
        lemma_status_infos_running(languages, rest, server_id);
        let before = status_infos(languages, rest);
        let infos = status_infos(languages, statuses);
        let last = statuses.last();
        assert forall|i: int| 0 <= i < rest.len() implies rest[i] == statuses[i] by {}
        if exists|k: int|
            0 <= k < infos.len() && #[trigger] infos[k].server_id == server_id && infos[k].state
                == LanguageServerState::Running {
            let k: int = choose|k: int|
                0 <= k < infos.len() && #[trigger] infos[k].server_id == server_id && infos[k].state
                    == LanguageServerState::Running;
            if k < before.len() {
                assert(infos[k] == before[k]);
                let i: int = choose|i: int| 0 <= i < rest.len() && #[trigger] serves(rest[i], server_id);
                assert(serves(statuses[i], server_id));
            } else {
                assert(serves(statuses[statuses.len() - 1], server_id));
            }
        }
        if exists|i: int| 0 <= i < statuses.len() && #[trigger] serves(statuses[i], server_id) {
            let i: int = choose|i: int| 0 <= i < statuses.len() && #[trigger] serves(statuses[i], server_id);
            if i < rest.len() {
                assert(serves(rest[i], server_id));
                let k: int = choose|k: int|
                    0 <= k < before.len() && #[trigger] before[k].server_id == server_id
                        && before[k].state == LanguageServerState::Running;
                assert(infos[k] == before[k]);
            } else {
                let k: int = before.len() as int;
                assert(infos[k].server_id == server_id);
            }
        }
        assert forall|k: int| 0 <= k < infos.len() implies #[trigger] infos[k].state
            != LanguageServerState::Starting by {
            if k < before.len() {
                assert(infos[k] == before[k]);
            }
        }
    }
}

proof fn lemma_starting_infos_starting(starting: Seq<StartingServer>, server_id: Seq<char>)
    ensures
        (exists|k: int|
            0 <= k < starting_infos(starting).len() && #[trigger] starting_infos(
                starting,
            )[k].server_id == server_id && starting_infos(starting)[k].state
                == LanguageServerState::Starting) <==> (exists|i: int|
            0 <= i < starting.len() && #[trigger] starts_as(starting[i], server_id)),
        forall|k: int|
            0 <= k < starting_infos(starting).len() ==> #[trigger] starting_infos(
                starting,
            )[k].state == LanguageServerState::Starting,
    decreases starting.len(),
{
    if starting.len() > 0 {
        let rest = starting.drop_last();
        lemma_starting_infos_starting(rest, server_id);
        let before = starting_infos(rest);
        let infos = starting_infos(starting);
        assert forall|i: int| 0 <= i < rest.len() implies rest[i] == starting[i] by {}
        if exists|k: int|
            0 <= k < infos.len() && #[trigger] infos[k].server_id == server_id && infos[k].state
                == LanguageServerState::Starting {
            let k: int = choose|k: int|
                0 <= k < infos.len() && #[trigger] infos[k].server_id == server_id && infos[k].state
                    == LanguageServerState::Starting;
            if k < before.len() {
                assert(infos[k] == before[k]);
                let i: int = choose|i: int| 0 <= i < rest.len() && #[trigger] starts_as(rest[i], server_id);
                assert(starts_as(starting[i], server_id));
            } else {
                assert(starts_as(starting[starting.len() - 1], server_id));
            }
        }
        if exists|i: int| 0 <= i < starting.len() && #[trigger] starts_as(starting[i], server_id) {
            let i: int = choose|i: int| 0 <= i < starting.len() && #[trigger] starts_as(starting[i], server_id);
            if i < rest.len() {
                assert(starts_as(rest[i], server_id));
                let k: int = choose|k: int|
                    0 <= k < before.len() && #[trigger] before[k].server_id == server_id
                        && before[k].state == LanguageServerState::Starting;
                assert(infos[k] == before[k]);
            } else {
                let k: int = before.len() as int;
                assert(infos[k].server_id == server_id);
            }
        }
        assert forall|k: int| 0 <= k < infos.len() implies #[trigger] infos[k].state
            == LanguageServerState::Starting by {
            if k < before.len() {
                assert(infos[k] == before[k]);
            }
        }
    }
}

/// The listing and the resolution of an id agree: a request addressed to an
/// id resolves to a server exactly when the listing shows a server with that
/// id as running, and is refused as still starting exactly when the listing
/// shows no running server with that id but a starting one.
pub proof fn lemma_listing_agrees_with_resolution(registry: ServerRegistry, server_id: Seq<char>)
    ensures
        has_serving(registry, server_id) <==> listed_as(
            registry,
            server_id,
            LanguageServerState::Running,
        ),
        has_starting(registry, server_id) <==> listed_as(
            registry,
            server_id,
            LanguageServerState::Starting,
        ),
{
    let languages = registry.languages@;
    let statuses = registry.statuses@;
    let starting = registry.starting@;
    lemma_status_infos_running(languages, statuses, server_id);
    lemma_starting_infos_starting(starting, server_id);
    let a = status_infos(languages, statuses);
    let b = starting_infos(starting);
    let listed = listed_servers(registry);
    assert(listed == a + b);
    if listed_as(registry, server_id, LanguageServerState::Running) {
        let k: int = choose|k: int|
            0 <= k < listed.len() && #[trigger] listed[k].server_id == server_id && listed[k].state
                == LanguageServerState::Running;
        if k >= a.len() {
            assert(b[k - a.len()] == listed[k]);
        } else {
            assert(a[k] == listed[k]);
        }
    }
    if has_serving(registry, server_id) {
        let k: int = choose|k: int|
            0 <= k < a.len() && #[trigger] a[k].server_id == server_id && a[k].state
                == LanguageServerState::Running;
        assert(listed[k] == a[k]);
    }
    if listed_as(registry, server_id, LanguageServerState::Starting) {
        let k: int = choose|k: int|
            0 <= k < listed.len() && #[trigger] listed[k].server_id == server_id && listed[k].state
                == LanguageServerState::Starting;
        if k < a.len() {
            assert(a[k] == listed[k]);
        } else {
            assert(b[k - a.len()] == listed[k]);
        }
    }
    if has_starting(registry, server_id) {
        let k: int = choose|k: int|
            0 <= k < b.len() && #[trigger] b[k].server_id == server_id && b[k].state
                == LanguageServerState::Starting;
        assert(listed[a.len() + k] == b[k]);
    }
}

/// A server keeps its id across the transition from starting to running:
/// the id depends only on the server's name and workspace path, so the
/// entry listed while it starts and the one listed once it runs carry the
/// same id.
pub proof fn lemma_id_survives_start(
    languages: Seq<LanguageEntry>,
    starting: StartingServer,
    started: ServerStatus,
)
    requires
        starting.name@ == started.name@,
        starting.workspace_path is Some,
        started.workspace_path is Some,
        starting.workspace_path->0@ == started.workspace_path->0@,
    ensures
        starting_info(starting) is Some,
        status_info(languages, started) is Some,
        starting_info(starting)->0.server_id == status_info(languages, started)->0.server_id,
{
}

} // verus!
