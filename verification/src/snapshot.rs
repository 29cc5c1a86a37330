//! Snapshot capture support: a component that writes a window image each
//! time it receives a [`TakeSnapshot`] event.
use vstd::prelude::*;

verus! {

/// Event to request a snapshot capture.
///
/// The `prefix` is the file name without extension: `TakeSnapshot { prefix:
/// "my_component" }` is saved as `.snapshots/my_component.png`, or in the
/// trigger's configured output directory.
#[derive(Clone, Debug)]
pub struct TakeSnapshot {
    /// The prefix for the snapshot file name.
    pub prefix: String,
}

/// A component that captures screenshots when it receives [`TakeSnapshot`]
/// events. Its view is the directory the captures go to.
pub struct SnapshotTrigger {
    output_dir: String,
}

impl View for SnapshotTrigger {
    type V = Seq<char>;

    closed spec fn view(&self) -> Seq<char> {
        self.output_dir@
    }
}

/// The directory a trigger writes to unless told otherwise.
pub open spec fn default_output_dir() -> Seq<char> {
    ".snapshots"@
}

/// The file a capture with `prefix` writes into `output_dir`.
pub open spec fn snapshot_path(output_dir: Seq<char>, prefix: Seq<char>) -> Seq<char> {
    output_dir + "/"@ + prefix + ".png"@
}

impl SnapshotTrigger {
    /// Creates a trigger that writes to the default output directory,
    /// `.snapshots`.
    pub fn new() -> (trigger: Self)
        ensures
            trigger@ == default_output_dir(),
    {
        SnapshotTrigger { output_dir: String::from_str(".snapshots") }
    }

    /// Creates a trigger that writes to `output_dir`.
    pub fn with_output_dir(output_dir: &str) -> (trigger: Self)
        ensures
            trigger@ == output_dir@,
    {
        SnapshotTrigger { output_dir: String::from_str(output_dir) }
    }

    /// Takes a snapshot with the given prefix: returns the file,
    /// `{output_dir}/{prefix}.png`, that the window image is saved to. The
    /// caller saves the image there, creating the directory if needed.
    pub fn capture(&self, prefix: &str) -> (path: String)
        ensures
            path@ == snapshot_path(self@, prefix@),
    {
        let mut path = self.output_dir.clone();
        path.append("/");
        path.append(prefix);
        path.append(".png");
        path
    }
}

impl Default for SnapshotTrigger {
    /// Same as [`SnapshotTrigger::new`].
    fn default() -> (trigger: Self)
        ensures
            trigger@ == default_output_dir(),
    {
        Self::new()
    }
}

/// A capture's path is the output directory, a `/`, the whole prefix
/// unchanged, and `.png`, for every directory and prefix: nothing of either is
/// cut, escaped or reordered.
pub proof fn lemma_snapshot_path_layout(output_dir: Seq<char>, prefix: Seq<char>)
    ensures
        ({
            let path = snapshot_path(output_dir, prefix);
            let d = output_dir.len() as int;
            let p = prefix.len() as int;
            &&& path.len() == d + 1 + p + 4
            &&& path.subrange(0, d) == output_dir
            &&& path[d] == '/'
            &&& path.subrange(d + 1, d + 1 + p) == prefix
            &&& path.subrange(d + 1 + p, d + 1 + p + 4) == seq!['.', 'p', 'n', 'g']
        }),
{
    reveal_strlit("/");
    reveal_strlit(".png");
    let path = snapshot_path(output_dir, prefix);
    let d = output_dir.len() as int;
    let p = prefix.len() as int;
    assert(path.subrange(0, d) =~= output_dir);
    assert(path.subrange(d + 1, d + 1 + p) =~= prefix);
    assert(path.subrange(d + 1 + p, d + 1 + p + 4) =~= seq!['.', 'p', 'n', 'g']);
}

/// The directory a trigger made by `new` or `default` writes into is
/// `.snapshots`.
pub proof fn lemma_default_dir_is_dot_snapshots()
    ensures
        default_output_dir() == seq!['.', 's', 'n', 'a', 'p', 's', 'h', 'o', 't', 's'],
{
    reveal_strlit(".snapshots");
    assert(default_output_dir() =~= seq!['.', 's', 'n', 'a', 'p', 's', 'h', 'o', 't', 's']);
}

} // verus!
