//! What a listing says of the registry it was made from, and which ids a
//! request can address, stated over the registry's own fields.
use vstd::prelude::*;

use crate::listing::{
    adapter_language_id, has_serving, has_starting, language_named, listed_servers, serves,
    starting_info, starting_infos, starts_as, status_info, status_infos, AdapterEntry,
    LanguageEntry, LanguageServerState, ServerRegistry, ServerStatus, StartingServer,
};

verus! {

/// How many of the first `i` known servers have a workspace: the position
/// in the listing of the entry for known server `i`.
pub open spec fn known_before(statuses: Seq<ServerStatus>, i: int) -> nat
    decreases i,
{
    if i <= 0 {
        0
    } else {
        known_before(statuses, i - 1) + if statuses[i - 1].workspace_path is Some {
            1nat
        } else {
            0nat
        }
    }
}

/// How many of the first `i` starting servers have a workspace.
pub open spec fn starting_before(starting: Seq<StartingServer>, i: int) -> nat
    decreases i,
{
    if i <= 0 {
        0
    } else {
        starting_before(starting, i - 1) + if starting[i - 1].workspace_path is Some {
            1nat
        } else {
            0nat
        }
    }
}

proof fn lemma_known_before_drop_last(statuses: Seq<ServerStatus>, i: int)
    requires
        0 <= i < statuses.len(),
    ensures
        known_before(statuses.drop_last(), i) == known_before(statuses, i),
    decreases i,
{
    if i > 0 {
        lemma_known_before_drop_last(statuses, i - 1);
    }
}

proof fn lemma_starting_before_drop_last(starting: Seq<StartingServer>, i: int)
    requires
        0 <= i < starting.len(),
    ensures
        starting_before(starting.drop_last(), i) == starting_before(starting, i),
    decreases i,
{
    if i > 0 {
        lemma_starting_before_drop_last(starting, i - 1);
    }
}

proof fn lemma_known_before_monotone(statuses: Seq<ServerStatus>, i: int, j: int)
    requires
        0 <= i <= j,
    ensures
        known_before(statuses, i) <= known_before(statuses, j),
    decreases j,
{
    if i < j {
        lemma_known_before_monotone(statuses, i, j - 1);
    }
}

proof fn lemma_starting_before_monotone(starting: Seq<StartingServer>, i: int, j: int)
    requires
        0 <= i <= j,
    ensures
        starting_before(starting, i) <= starting_before(starting, j),
    decreases j,
{
    if i < j {
        lemma_starting_before_monotone(starting, i, j - 1);
    }
}

proof fn lemma_status_infos_positions(languages: Seq<LanguageEntry>, statuses: Seq<ServerStatus>)
    ensures
        status_infos(languages, statuses).len() == known_before(statuses, statuses.len() as int),
        forall|i: int|
            #![trigger known_before(statuses, i)]
            0 <= i < statuses.len() && statuses[i].workspace_path is Some ==> known_before(
                statuses,
                i,
            ) < status_infos(languages, statuses).len() && status_infos(languages, statuses)[known_before(
                statuses,
                i,
            ) as int] == status_info(languages, statuses[i])->0,
    decreases statuses.len(),
{
    if statuses.len() > 0 {
        let rest = statuses.drop_last();
        let n = statuses.len() - 1;
        lemma_status_infos_positions(languages, rest);
        lemma_known_before_drop_last(statuses, n);
        assert forall|i: int|
            #![trigger known_before(statuses, i)]
            0 <= i < statuses.len() && statuses[i].workspace_path is Some implies known_before(
                statuses,
                i,
            ) < status_infos(languages, statuses).len() && status_infos(languages, statuses)[known_before(
                statuses,
                i,
            ) as int] == status_info(languages, statuses[i])->0 by {
            if i < n {
                lemma_known_before_drop_last(statuses, i);
                assert(rest[i] == statuses[i]);
                assert(known_before(rest, i) < status_infos(languages, rest).len());
                assert(status_infos(languages, rest)[known_before(rest, i) as int] == status_info(
                    languages,
                    rest[i],
                )->0);
            }
        }
    }
}

proof fn lemma_starting_infos_positions(starting: Seq<StartingServer>)
    ensures
        starting_infos(starting).len() == starting_before(starting, starting.len() as int),
        forall|i: int|
            #![trigger starting_before(starting, i)]
            0 <= i < starting.len() && starting[i].workspace_path is Some ==> starting_before(
                starting,
                i,
            ) < starting_infos(starting).len() && starting_infos(starting)[starting_before(
                starting,
                i,
            ) as int] == starting_info(starting[i])->0,
    decreases starting.len(),
{
    if starting.len() > 0 {
        let rest = starting.drop_last();
        let n = starting.len() - 1;
        lemma_starting_infos_positions(rest);
        lemma_starting_before_drop_last(starting, n);
        assert forall|i: int|
            #![trigger starting_before(starting, i)]
            0 <= i < starting.len() && starting[i].workspace_path is Some implies starting_before(
                starting,
                i,
            ) < starting_infos(starting).len() && starting_infos(starting)[starting_before(
                starting,
                i,
            ) as int] == starting_info(starting[i])->0 by {
            if i < n {
                lemma_starting_before_drop_last(starting, i);
                assert(rest[i] == starting[i]);
                assert(starting_before(rest, i) < starting_infos(rest).len());
            }
        }
    }
}

proof fn lemma_language_named_first(languages: Seq<LanguageEntry>, name: Seq<char>, j: int)
    requires
        0 <= j < languages.len(),
        languages[j].name@ == name,
        forall|m: int| 0 <= m < j ==> languages[m].name@ != name,
    ensures
        language_named(languages, name) == Some(languages[j]),
    decreases j,
{
    if j > 0 {
        let rest = languages.drop_first();
        assert(languages[0].name@ != name);
        assert forall|m: int| 0 <= m < j - 1 implies rest[m].name@ != name by {
            assert(rest[m] == languages[m + 1]);
        }
        lemma_language_named_first(rest, name, j - 1);
    }
}

proof fn lemma_language_named_none(languages: Seq<LanguageEntry>, name: Seq<char>)
    requires
        forall|m: int| 0 <= m < languages.len() ==> languages[m].name@ != name,
    ensures
        language_named(languages, name) is None,
    decreases languages.len(),
{
    if languages.len() > 0 {
        let rest = languages.drop_first();
        assert(languages[0].name@ != name);
        assert forall|m: int| 0 <= m < rest.len() implies rest[m].name@ != name by {
            assert(rest[m] == languages[m + 1]);
        }
        lemma_language_named_none(rest, name);
    }
}

proof fn lemma_adapter_first(adapters: Seq<AdapterEntry>, name: Seq<char>, a: int)
    requires
        0 <= a < adapters.len(),
        adapters[a].name@ == name,
        forall|b: int| 0 <= b < a ==> adapters[b].name@ != name,
    ensures
        adapter_language_id(adapters, name) == Some(adapters[a].language_id@),
    decreases a,
{
    if a > 0 {
        let rest = adapters.drop_first();
        assert(adapters[0].name@ != name);
        assert forall|b: int| 0 <= b < a - 1 implies rest[b].name@ != name by {
            assert(rest[b] == adapters[b + 1]);
        }
        lemma_adapter_first(rest, name, a - 1);
    }
}

proof fn lemma_adapter_none(adapters: Seq<AdapterEntry>, name: Seq<char>)
    requires
        forall|b: int| 0 <= b < adapters.len() ==> adapters[b].name@ != name,
    ensures
        adapter_language_id(adapters, name) is None,
    decreases adapters.len(),
{
    if adapters.len() > 0 {
        let rest = adapters.drop_first();
        assert(adapters[0].name@ != name);
        assert forall|b: int| 0 <= b < rest.len() implies rest[b].name@ != name by {
            assert(rest[b] == adapters[b + 1]);
        }
        lemma_adapter_none(rest, name);
    }
}

/// The entry listed for a known server that has a workspace, described by
/// the server's own fields: its id is its name, a NUL and its workspace
/// path; name, path, version and capabilities are the server's; it is
/// running exactly when a process runs behind it; and when its language is
/// found in the registry (the first language of that name), the entry carries
/// all of that language's path suffixes, in order, and the `languageId` of
/// the first adapter named after the server, else the language's default;
/// when the language is not found, no extensions and no `languageId`.
pub proof fn lemma_known_server_entry(languages: Seq<LanguageEntry>, status: ServerStatus)
    requires
        status.workspace_path is Some,
    ensures
        status_info(languages, status) is Some,
        ({
            let e = status_info(languages, status)->0;
            let path = status.workspace_path->0@;
            &&& e.server_id == status.name@ + seq!['\0'] + path
            &&& e.name == status.name@
            &&& e.workspace_path == path
            &&& (e.state == LanguageServerState::Running) == status.is_running
            &&& (e.state == LanguageServerState::NotRunning) == !status.is_running
            &&& e.version == status.version.deep_view()
            &&& e.capabilities == status.capabilities
            &&& forall|j: int|
                #![trigger languages[j]]
                status.language_name is Some && 0 <= j < languages.len() && languages[j].name@
                    == status.language_name->0@ && (forall|m: int|
                    0 <= m < j ==> languages[m].name@ != status.language_name->0@) ==> {
                    &&& e.file_extensions == languages[j].path_suffixes.deep_view()
                    &&& forall|a: int|
                        #![trigger languages[j].adapters@[a]]
                        0 <= a < languages[j].adapters@.len() && languages[j].adapters@[a].name@
                            == status.name@ && (forall|b: int|
                            0 <= b < a ==> languages[j].adapters@[b].name@ != status.name@)
                            ==> e.language_id == Some(languages[j].adapters@[a].language_id@)
                    &&& (forall|a: int|
                        0 <= a < languages[j].adapters@.len() ==> languages[j].adapters@[a].name@
                            != status.name@) ==> e.language_id == Some(languages[j].lsp_id@)
                }
            &&& (status.language_name is None || (forall|j: int|
                0 <= j < languages.len() ==> languages[j].name@ != status.language_name->0@)) ==> (
            e.file_extensions == Seq::<Seq<char>>::empty() && e.language_id is None)
        }),
{
    let e = status_info(languages, status)->0;
    assert forall|j: int|
        #![trigger languages[j]]
        status.language_name is Some && 0 <= j < languages.len() && languages[j].name@
            == status.language_name->0@ && (forall|m: int|
            0 <= m < j ==> languages[m].name@ != status.language_name->0@) implies {
        &&& e.file_extensions == languages[j].path_suffixes.deep_view()
        &&& forall|a: int|
            #![trigger languages[j].adapters@[a]]
            0 <= a < languages[j].adapters@.len() && languages[j].adapters@[a].name@ == status.name@
                && (forall|b: int| 0 <= b < a ==> languages[j].adapters@[b].name@ != status.name@)
                ==> e.language_id == Some(languages[j].adapters@[a].language_id@)
        &&& (forall|a: int|
            0 <= a < languages[j].adapters@.len() ==> languages[j].adapters@[a].name@
                != status.name@) ==> e.language_id == Some(languages[j].lsp_id@)
    } by {
        lemma_language_named_first(languages, status.language_name->0@, j);
        let adapters = languages[j].adapters@;
        assert forall|a: int|
            #![trigger languages[j].adapters@[a]]
            0 <= a < adapters.len() && adapters[a].name@ == status.name@ && (forall|b: int|
                0 <= b < a ==> adapters[b].name@ != status.name@) implies e.language_id == Some(
            adapters[a].language_id@,
        ) by {
            lemma_adapter_first(adapters, status.name@, a);
        }
        if forall|a: int| 0 <= a < adapters.len() ==> adapters[a].name@ != status.name@ {
            lemma_adapter_none(adapters, status.name@);
        }
    }
    if status.language_name is Some && (forall|j: int|
        0 <= j < languages.len() ==> languages[j].name@ != status.language_name->0@) {
        lemma_language_named_none(languages, status.language_name->0@);
    }
}

/// The entry listed for a starting server that has a workspace: its id is
/// its name, a NUL and its workspace path; name and path are the server's;
/// it is starting, with no extensions, `languageId`, version or
/// capabilities.
pub proof fn lemma_starting_server_entry(server: StartingServer)
    requires
        server.workspace_path is Some,
    ensures
        starting_info(server) is Some,
        ({
            let e = starting_info(server)->0;
            let path = server.workspace_path->0@;
            &&& e.server_id == server.name@ + seq!['\0'] + path
            &&& e.name == server.name@
            &&& e.workspace_path == path
            &&& e.state == LanguageServerState::Starting
            &&& e.file_extensions == Seq::<Seq<char>>::empty()
            &&& e.language_id is None
            &&& e.version is None
            &&& e.capabilities is None
        }),
{
}

/// Where each server of a registry stands in its listing: the listing has
/// one entry per known server with a workspace, in registry order, then one
/// per starting server with a workspace, in order; known server `i` is at
/// position [`known_before`]`(statuses, i)`, starting server `i` after all
/// known ones at [`starting_before`]`(starting, i)`. Every listed entry's id
/// is its name, a NUL and its workspace path.
pub proof fn lemma_listing_positions(registry: ServerRegistry)
    ensures
        ({
            let statuses = registry.statuses@;
            let starting = registry.starting@;
            let languages = registry.languages@;
            let listed = listed_servers(registry);
            let known = known_before(statuses, statuses.len() as int);
            &&& listed.len() == known + starting_before(starting, starting.len() as int)
            &&& forall|i: int|
                #![trigger statuses[i]]
                0 <= i < statuses.len() && statuses[i].workspace_path is Some ==> known_before(
                    statuses,
                    i,
                ) < known && listed[known_before(statuses, i) as int] == status_info(
                    languages,
                    statuses[i],
                )->0
            &&& forall|i: int|
                #![trigger starting[i]]
                0 <= i < starting.len() && starting[i].workspace_path is Some ==> listed[(known
                    + starting_before(starting, i)) as int] == starting_info(starting[i])->0
            &&& forall|k: int|
                0 <= k < listed.len() ==> #[trigger] listed[k].server_id == listed[k].name
                    + seq!['\0'] + listed[k].workspace_path
        }),
{
    let statuses = registry.statuses@;
    let starting = registry.starting@;
    let languages = registry.languages@;
    let listed = listed_servers(registry);
    let a = status_infos(languages, statuses);
    let b = starting_infos(starting);
    lemma_status_infos_positions(languages, statuses);
    lemma_starting_infos_positions(starting);
    assert(listed == a + b);
    let known = known_before(statuses, statuses.len() as int);
    assert forall|i: int|
        #![trigger statuses[i]]
        0 <= i < statuses.len() && statuses[i].workspace_path is Some implies known_before(
            statuses,
            i,
        ) < known && listed[known_before(statuses, i) as int] == status_info(
            languages,
            statuses[i],
        )->0 by {
        assert(known_before(statuses, i) < a.len());
    }
    assert forall|i: int|
        #![trigger starting[i]]
        0 <= i < starting.len() && starting[i].workspace_path is Some implies listed[(known
            + starting_before(starting, i)) as int] == starting_info(starting[i])->0 by {
        assert(starting_before(starting, i) < b.len());
    }
    lemma_entries_carry_their_id(languages, statuses);
    lemma_starting_entries_carry_their_id(starting);
    assert forall|k: int| 0 <= k < listed.len() implies #[trigger] listed[k].server_id
        == listed[k].name + seq!['\0'] + listed[k].workspace_path by {
        if k < a.len() {
            assert(listed[k] == a[k]);
        } else {
            assert(listed[k] == b[k - a.len()]);
        }
    }
}

proof fn lemma_entries_carry_their_id(languages: Seq<LanguageEntry>, statuses: Seq<ServerStatus>)
    ensures
        forall|k: int|
            0 <= k < status_infos(languages, statuses).len() ==> #[trigger] status_infos(
                languages,
                statuses,
            )[k].server_id == status_infos(languages, statuses)[k].name + seq!['\0']
                + status_infos(languages, statuses)[k].workspace_path,
    decreases statuses.len(),
{
    if statuses.len() > 0 {
        let rest = statuses.drop_last();
        lemma_entries_carry_their_id(languages, rest);
        if statuses.last().workspace_path is Some {
            lemma_known_server_entry(languages, statuses.last());
        }
        let before = status_infos(languages, rest);
        let infos = status_infos(languages, statuses);
        assert forall|k: int| 0 <= k < infos.len() implies #[trigger] infos[k].server_id
            == infos[k].name + seq!['\0'] + infos[k].workspace_path by {
            if k < before.len() {
                assert(infos[k] == before[k]);
            }
        }
    }
}

proof fn lemma_starting_entries_carry_their_id(starting: Seq<StartingServer>)
    ensures
        forall|k: int|
            0 <= k < starting_infos(starting).len() ==> #[trigger] starting_infos(
                starting,
            )[k].server_id == starting_infos(starting)[k].name + seq!['\0'] + starting_infos(
                starting,
            )[k].workspace_path,
    decreases starting.len(),
{
    if starting.len() > 0 {
        let rest = starting.drop_last();
        lemma_starting_entries_carry_their_id(rest);
        let before = starting_infos(rest);
        let infos = starting_infos(starting);
        assert forall|k: int| 0 <= k < infos.len() implies #[trigger] infos[k].server_id
            == infos[k].name + seq!['\0'] + infos[k].workspace_path by {
            if k < before.len() {
                assert(infos[k] == before[k]);
            }
        }
    }
}

/// A known server answers to an id exactly when a process runs behind it,
/// it has a workspace, and the id is its name, a NUL and its workspace path,
/// whatever characters the path holds; a starting server will answer to
/// exactly that id too.
pub proof fn lemma_serving_ids(status: ServerStatus, server: StartingServer, id: Seq<char>)
    ensures
        serves(status, id) <==> (status.is_running && status.workspace_path is Some && id
            == status.name@ + seq!['\0'] + status.workspace_path->0@),
        starts_as(server, id) <==> (server.workspace_path is Some && id == server.name@ + seq![
            '\0',
        ] + server.workspace_path->0@),
{
}

/// Every running known server with a workspace can be requested by its id:
/// resolving its name, a NUL and its workspace path succeeds, whatever the
/// path holds.
pub proof fn lemma_running_servers_resolve(registry: ServerRegistry, i: int)
    requires
        0 <= i < registry.statuses@.len(),
        registry.statuses@[i].is_running,
        registry.statuses@[i].workspace_path is Some,
    ensures
        has_serving(
            registry,
            registry.statuses@[i].name@ + seq!['\0'] + registry.statuses@[i].workspace_path->0@,
        ),
{
    let s = registry.statuses@[i];
    lemma_serving_ids(s, StartingServer { name: s.name, workspace_path: None }, s.name@ + seq!['\0'] + s.workspace_path->0@);
    assert(serves(registry.statuses@[i], s.name@ + seq!['\0'] + s.workspace_path->0@));
}

/// Every starting server with a workspace is found by its id: a request for
/// it is refused as still starting unless a running server has that id.
pub proof fn lemma_starting_servers_found(registry: ServerRegistry, i: int)
    requires
        0 <= i < registry.starting@.len(),
        registry.starting@[i].workspace_path is Some,
    ensures
        has_starting(
            registry,
            registry.starting@[i].name@ + seq!['\0'] + registry.starting@[i].workspace_path->0@,
        ),
{
    let s = registry.starting@[i];
    assert(starts_as(registry.starting@[i], s.name@ + seq!['\0'] + s.workspace_path->0@));
}

/// What the listing of a registry says, entry by entry, in terms of the
/// registry's own fields: the entry at the position of each known server
/// with a workspace names that server, its workspace path and its id (name,
/// NUL, path); is running exactly when a process runs behind it; carries its
/// version and capabilities as they are; and, when the server's language is
/// found in the registry, all of that language's path suffixes in order. The
/// entry of each starting server with a workspace names it and its path,
/// carries its id, is starting, and has nothing else.
pub proof fn lemma_listing_describes_registry(registry: ServerRegistry)
    ensures
        ({
            let statuses = registry.statuses@;
            let starting = registry.starting@;
            let languages = registry.languages@;
            let listed = listed_servers(registry);
            let known = known_before(statuses, statuses.len() as int);
            &&& listed.len() == known + starting_before(starting, starting.len() as int)
            &&& forall|i: int|
                #![trigger statuses[i]]
                0 <= i < statuses.len() && statuses[i].workspace_path is Some ==> {
                    let s = statuses[i];
                    let e = listed[known_before(statuses, i) as int];
                    &&& e.server_id == s.name@ + seq!['\0'] + s.workspace_path->0@
                    &&& e.name == s.name@
                    &&& e.workspace_path == s.workspace_path->0@
                    &&& (e.state == LanguageServerState::Running) == s.is_running
                    &&& (e.state == LanguageServerState::NotRunning) == !s.is_running
                    &&& e.version == s.version.deep_view()
                    &&& e.capabilities == s.capabilities
                    &&& forall|j: int|
                        #![trigger languages[j]]
                        s.language_name is Some && 0 <= j < languages.len() && languages[j].name@
                            == s.language_name->0@ && (forall|m: int|
                            0 <= m < j ==> languages[m].name@ != s.language_name->0@)
                            ==> e.file_extensions == languages[j].path_suffixes.deep_view()
                }
            &&& forall|i: int|
                #![trigger starting[i]]
                0 <= i < starting.len() && starting[i].workspace_path is Some ==> {
                    let s = starting[i];
                    let e = listed[(known + starting_before(starting, i)) as int];
                    &&& e.server_id == s.name@ + seq!['\0'] + s.workspace_path->0@
                    &&& e.name == s.name@
                    &&& e.workspace_path == s.workspace_path->0@
                    &&& e.state == LanguageServerState::Starting
                    &&& e.file_extensions == Seq::<Seq<char>>::empty()
                    &&& e.language_id is None
                    &&& e.version is None
                    &&& e.capabilities is None
                }
        }),
{
    let statuses = registry.statuses@;
    let starting = registry.starting@;
    let languages = registry.languages@;
    lemma_listing_positions(registry);
    assert forall|i: int|
        #![trigger statuses[i]]
        0 <= i < statuses.len() && statuses[i].workspace_path is Some implies {
            let s = statuses[i];
            let e = listed_servers(registry)[known_before(statuses, i) as int];
            &&& e.server_id == s.name@ + seq!['\0'] + s.workspace_path->0@
            &&& e.name == s.name@
            &&& e.workspace_path == s.workspace_path->0@
            &&& (e.state == LanguageServerState::Running) == s.is_running
            &&& (e.state == LanguageServerState::NotRunning) == !s.is_running
            &&& e.version == s.version.deep_view()
            &&& e.capabilities == s.capabilities
            &&& forall|j: int|
                #![trigger languages[j]]
                s.language_name is Some && 0 <= j < languages.len() && languages[j].name@
                    == s.language_name->0@ && (forall|m: int|
                    0 <= m < j ==> languages[m].name@ != s.language_name->0@)
                    ==> e.file_extensions == languages[j].path_suffixes.deep_view()
        } by {
        lemma_known_server_entry(languages, statuses[i]);
    }
    assert forall|i: int|
        #![trigger starting[i]]
        0 <= i < starting.len() && starting[i].workspace_path is Some implies {
            let s = starting[i];
            let e = listed_servers(registry)[(known_before(statuses, statuses.len() as int)
                + starting_before(starting, i)) as int];
            &&& e.server_id == s.name@ + seq!['\0'] + s.workspace_path->0@
            &&& e.name == s.name@
            &&& e.workspace_path == s.workspace_path->0@
            &&& e.state == LanguageServerState::Starting
            &&& e.file_extensions == Seq::<Seq<char>>::empty()
            &&& e.language_id is None
            &&& e.version is None
            &&& e.capabilities is None
        } by {
        lemma_starting_server_entry(starting[i]);
    }
}

/// Which ids a request can address, over the registry's own fields: an id
/// resolves to a running server exactly when some known server with a
/// process behind it and a workspace has that id (its name, a NUL and its
/// workspace path); it is recognized as a starting server's exactly when some
/// starting server with a workspace has it.
pub proof fn lemma_resolution_ids(registry: ServerRegistry, id: Seq<char>)
    ensures
        has_serving(registry, id) <==> exists|i: int|
            0 <= i < registry.statuses@.len() && #[trigger] registry.statuses@[i].is_running
                && registry.statuses@[i].workspace_path is Some && id == registry.statuses@[i].name@
                + seq!['\0'] + registry.statuses@[i].workspace_path->0@,
        has_starting(registry, id) <==> exists|i: int|
            0 <= i < registry.starting@.len() && #[trigger] registry.starting@[i].workspace_path is Some
                && id == registry.starting@[i].name@ + seq!['\0']
                + registry.starting@[i].workspace_path->0@,
{
    if has_serving(registry, id) {
        let i: int = choose|i: int|
            0 <= i < registry.statuses@.len() && #[trigger] serves(registry.statuses@[i], id);
        assert(registry.statuses@[i].is_running);
    }
    if exists|i: int|
        0 <= i < registry.statuses@.len() && #[trigger] registry.statuses@[i].is_running
            && registry.statuses@[i].workspace_path is Some && id == registry.statuses@[i].name@
            + seq!['\0'] + registry.statuses@[i].workspace_path->0@ {
        let i: int = choose|i: int|
            0 <= i < registry.statuses@.len() && #[trigger] registry.statuses@[i].is_running
                && registry.statuses@[i].workspace_path is Some && id == registry.statuses@[i].name@
                + seq!['\0'] + registry.statuses@[i].workspace_path->0@;
        assert(serves(registry.statuses@[i], id));
    }
    if has_starting(registry, id) {
        let i: int = choose|i: int|
            0 <= i < registry.starting@.len() && #[trigger] starts_as(registry.starting@[i], id);
        assert(registry.starting@[i].workspace_path is Some);
    }
    if exists|i: int|
        0 <= i < registry.starting@.len() && #[trigger] registry.starting@[i].workspace_path is Some
            && id == registry.starting@[i].name@ + seq!['\0']
            + registry.starting@[i].workspace_path->0@ {
        let i: int = choose|i: int|
            0 <= i < registry.starting@.len() && #[trigger] registry.starting@[i].workspace_path is Some
                && id == registry.starting@[i].name@ + seq!['\0']
                + registry.starting@[i].workspace_path->0@;
        assert(starts_as(registry.starting@[i], id));
    }
}

} // verus!
