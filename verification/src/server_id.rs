use vstd::prelude::*;

verus! {

/// The id that addresses a server: its name and workspace path joined on a
/// NUL character.
pub open spec fn server_id_of(name: Seq<char>, workspace_path: Seq<char>) -> Seq<char> {
    name + seq!['\0'] + workspace_path
}

/// Mints the opaque, restart-stable id addressing a server.
///
/// The id is derived deterministically from `name` and `workspace_path`
/// (as displayed), joined on a NUL character, so that the id of any known
/// server can be recomputed and compared without a separate id table.
pub fn make_server_id(name: &str, workspace_path: &str) -> (id: String)
    ensures
        id@ == server_id_of(name@, workspace_path@),
{
    let mut id = String::from_str(name);
    id.append("\0");
    id.append(workspace_path);
    proof {
        reveal_strlit("\0");
    }
    id
}

/// Two servers get the same id exactly when they have the same name and the
/// same workspace path, as long as server names hold no NUL character: the
/// first NUL of an id marks where the name ends.
pub proof fn lemma_server_id_injective(
    name1: Seq<char>,
    path1: Seq<char>,
    name2: Seq<char>,
    path2: Seq<char>,
)
    requires
        !name1.contains('\0'),
        !name2.contains('\0'),
    ensures
        server_id_of(name1, path1) == server_id_of(name2, path2) <==> (name1 == name2 && path1
            == path2),
{
    let id1 = server_id_of(name1, path1);
    let id2 = server_id_of(name2, path2);
    if id1 == id2 {
        if name1.len() < name2.len() {
            assert(id1[name1.len() as int] == '\0');
            assert(id2[name1.len() as int] == name2[name1.len() as int]);
            assert(name2.contains('\0'));
        } else if name2.len() < name1.len() {
            assert(id2[name2.len() as int] == '\0');
            assert(id1[name2.len() as int] == name1[name2.len() as int]);
            assert(name1.contains('\0'));
        }
        assert(name1 =~= id1.subrange(0, name1.len() as int));
        assert(name2 =~= id2.subrange(0, name2.len() as int));
        assert(path1 =~= id1.subrange(name1.len() + 1int, id1.len() as int));
        assert(path2 =~= id2.subrange(name2.len() + 1int, id2.len() as int));
    }
}

/// A minted id is the name, then a NUL, then the workspace path, each whole:
/// its length is theirs plus one, it begins with the name and ends with the
/// path, whatever characters either holds.
pub proof fn lemma_server_id_layout(name: Seq<char>, workspace_path: Seq<char>)
    ensures
        ({
            let id = server_id_of(name, workspace_path);
            let n = name.len() as int;
            &&& id.len() == n + 1 + workspace_path.len()
            &&& id.subrange(0, n) == name
            &&& id[n] == '\0'
            &&& id.subrange(n + 1, id.len() as int) == workspace_path
        }),
{
    let id = server_id_of(name, workspace_path);
    let n = name.len() as int;
    assert(id.subrange(0, n) =~= name);
    assert(id.subrange(n + 1, id.len() as int) =~= workspace_path);
}

} // verus!
