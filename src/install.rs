use vstd::prelude::*;
use crate::paths::{at_or_below, is_sep, is_separator, join, join_path, lemma_join_below};

verus! {

/// The shallowest depth, below the extraction directory, at which a runtime
/// root is looked for.
pub const MIN_DEPTH: usize = 1;

/// The deepest depth at which a runtime root is looked for.
pub const MAX_DEPTH: usize = 3;

/// One entry of a walk of the extraction directory, in walk order.
#[derive(Debug, PartialEq, Eq)]
pub struct WalkEntry {
    pub path: String,
    pub depth: usize,
    pub is_dir: bool,
    /// Whether the entry has an immediate child named `bin`.
    pub has_bin_child: bool,
}

/// One entry of a walk of the runtime root, the root itself included.
#[derive(Debug, PartialEq, Eq)]
pub struct TreeEntry {
    pub path: String,
    pub is_dir: bool,
}

/// A change to make on disk while installing.
#[derive(Debug, PartialEq, Eq)]
pub enum InstallAction {
    /// Remove a directory and everything below it.
    RemoveAll(String),
    /// Create a directory and its missing parents.
    CreateDir(String),
    /// Copy a file byte for byte, from the first path to the second.
    CopyFile(String, String),
}

#[derive(Debug, PartialEq, Eq)]
pub enum RelocationError {
    /// The walk entry at this position does not lie under the runtime root.
    OutsideRoot(usize),
}

pub open spec fn is_runtime_root(e: WalkEntry) -> bool {
    e.is_dir && e.has_bin_child && MIN_DEPTH <= e.depth && e.depth <= MAX_DEPTH
}

/// The position of `path` relative to `root`: empty for the root itself, the
/// rest after the root and one separator for a path below it.
pub open spec fn relative_to(path: Seq<char>, root: Seq<char>) -> Option<Seq<char>> {
    if path == root {
        Some(Seq::empty())
    } else if path.len() > root.len() && path.subrange(0, root.len() as int) == root && is_sep(
        path[root.len() as int],
    ) {
        Some(path.subrange(root.len() as int + 1, path.len() as int))
    } else {
        None
    }
}

/// Where a path at position `rel` under the runtime root goes under `install`.
pub open spec fn destination(install: Seq<char>, rel: Seq<char>) -> Seq<char> {
    if rel.len() == 0 {
        install
    } else {
        join(install, rel)
    }
}

/// `a` is the action that installs the walk entry `e` of `root` into `install`.
pub open spec fn copies(a: InstallAction, root: Seq<char>, install: Seq<char>, e: TreeEntry) -> bool {
    match relative_to(e.path@, root) {
        Some(rel) => if e.is_dir {
            a matches InstallAction::CreateDir(p) && p@ == destination(install, rel)
        } else {
            a matches InstallAction::CopyFile(f, t) && f@ == e.path@ && t@ == destination(
                install,
                rel,
            )
        },
        None => false,
    }
}

/// The paths present on disk after action `a`, seen as a set of paths:
/// removal takes away a directory and all below it, the others add their
/// target.
pub open spec fn effect(fs: Set<Seq<char>>, a: InstallAction) -> Set<Seq<char>> {
    match a {
        InstallAction::RemoveAll(p) => fs.filter(|q: Seq<char>| !at_or_below(q, p@)),
        InstallAction::CreateDir(p) => fs.insert(p@),
        InstallAction::CopyFile(_, t) => fs.insert(t@),
    }
}

/// The paths present after the actions `acts`, in order.
pub open spec fn effect_all(fs: Set<Seq<char>>, acts: Seq<InstallAction>) -> Set<Seq<char>>
    decreases acts.len(),
{
    if acts.len() == 0 {
        fs
    } else {
        effect(effect_all(fs, acts.drop_last()), acts.last())
    }
}

/// Where the walk entry `e` of `root` goes under `install`.
pub open spec fn destination_of(root: Seq<char>, install: Seq<char>, e: TreeEntry) -> Seq<char> {
    destination(install, relative_to(e.path@, root)->Some_0)
}

/// What a relocation plan says: the optional removal, the creation of the
/// install directory, then one action per walk entry.
pub open spec fn is_relocation_plan(
    acts: Seq<InstallAction>,
    root: Seq<char>,
    install: Seq<char>,
    install_exists: bool,
    tree: Seq<TreeEntry>,
) -> bool {
    let off: int = if install_exists { 1 } else { 0 };
    &&& acts.len() == off + 1 + tree.len()
    &&& install_exists ==> (acts[0] matches InstallAction::RemoveAll(p) && p@ == install)
    &&& acts[off] matches InstallAction::CreateDir(p) && p@ == install
    &&& forall|i: int| 0 <= i < tree.len() ==> copies(acts[off + 1 + i], root, install, #[trigger] tree[i])
}

proof fn lemma_destination_below(install: Seq<char>, rel: Seq<char>)
    ensures
        at_or_below(destination(install, rel), install),
{
    if rel.len() > 0 {
        lemma_join_below(install, rel);
    }
}

proof fn lemma_relocation_prefix(
    fs: Set<Seq<char>>,
    root: Seq<char>,
    install: Seq<char>,
    install_exists: bool,
    tree: Seq<TreeEntry>,
    acts: Seq<InstallAction>,
    n: int,
)
    requires
        install_exists || forall|q: Seq<char>| fs.contains(q) ==> !at_or_below(q, install),
        is_relocation_plan(acts, root, install, install_exists, tree),
        (if install_exists { 2int } else { 1int }) <= n <= acts.len(),
    ensures
        forall|q: Seq<char>|
            at_or_below(q, install) ==> (effect_all(fs, acts.subrange(0, n)).contains(q) <==> (q
                == install || exists|i: int|
                0 <= i < n - (if install_exists { 2int } else { 1int }) && q == destination_of(
                    root,
                    install,
                    #[trigger] tree[i],
                ))),
    decreases n,
{
    let off: int = if install_exists { 1 } else { 0 };
    if n == off + 1 {
        let first = acts.subrange(0, n);
        assert(first.drop_last() =~= acts.subrange(0, off));
        assert(first.last() == acts[off]);
        let created = effect_all(fs, first);
        if install_exists {
            let one = acts.subrange(0, 1);
            assert(one.drop_last() =~= Seq::<InstallAction>::empty());
            assert(effect_all(fs, one.drop_last()) == fs);
            assert(one.last() == acts[0]);
            let removed = fs.filter(|q: Seq<char>| !at_or_below(q, install));
            assert(effect_all(fs, one) == removed);
            assert(created == removed.insert(install));
        } else {
            assert(acts.subrange(0, 0) =~= Seq::<InstallAction>::empty());
            assert(effect_all(fs, acts.subrange(0, 0)) == fs);
            assert(created == fs.insert(install));
        }
    } else {
        lemma_relocation_prefix(fs, root, install, install_exists, tree, acts, n - 1);
        assert(acts.subrange(0, n).drop_last() =~= acts.subrange(0, n - 1));
        let i = n - off - 2;
        assert(copies(acts[off + 1 + i], root, install, tree[i]));
        let rel = relative_to(tree[i].path@, root)->Some_0;
        lemma_destination_below(install, rel);
        let before = effect_all(fs, acts.subrange(0, n - 1));
        let after = effect_all(fs, acts.subrange(0, n));
        assert(after == before.insert(destination_of(root, install, tree[i])));
        assert forall|q: Seq<char>| at_or_below(q, install) implies (after.contains(q) <==> (q
            == install || exists|j: int|
            0 <= j < n - off - 1 && q == destination_of(root, install, #[trigger] tree[j]))) by {
            if after.contains(q) && q != install && q != destination_of(root, install, tree[i]) {
                assert(before.contains(q));
            }
            if exists|j: int| 0 <= j < n - off - 1 && q == destination_of(root, install, #[trigger] tree[j]) {
                let j = choose|j: int| 0 <= j < n - off - 1 && q == destination_of(root, install, #[trigger] tree[j]);
                if j < i {
                    assert(before.contains(q));
                }
            }
        }
    }
}

/// Relocation replaces what was installed: whatever lay at or below the
/// install directory before, after carrying out a relocation plan (each
/// action adding or removing exactly the paths it names) that directory holds
/// exactly itself and the destinations of the runtime root's walk entries.
pub proof fn lemma_relocation_replaces_install(
    fs: Set<Seq<char>>,
    root: Seq<char>,
    install: Seq<char>,
    install_exists: bool,
    tree: Seq<TreeEntry>,
    acts: Seq<InstallAction>,
)
    requires
        install_exists || forall|q: Seq<char>| fs.contains(q) ==> !at_or_below(q, install),
        is_relocation_plan(acts, root, install, install_exists, tree),
    ensures
        forall|q: Seq<char>|
            at_or_below(q, install) ==> (effect_all(fs, acts).contains(q) <==> (q == install
                || exists|i: int|
                0 <= i < tree.len() && q == destination_of(root, install, #[trigger] tree[i]))),
{
    lemma_relocation_prefix(fs, root, install, install_exists, tree, acts, acts.len() as int);
    assert(acts.subrange(0, acts.len() as int) =~= acts);
}

/// The position of the runtime root in a walk of the extraction directory:
/// the first directory, between the depth bounds, with a `bin` child.
pub fn locate_runtime_root(entries: &Vec<WalkEntry>) -> (r: Option<usize>)
    ensures
        r matches Some(i) ==> {
            &&& i < entries@.len()
            &&& is_runtime_root(entries@[i as int])
            &&& forall|j: int| 0 <= j < i ==> !is_runtime_root(#[trigger] entries@[j])
        },
        r is None ==> forall|j: int| 0 <= j < entries@.len() ==> !is_runtime_root(#[trigger] entries@[j]),
{
    let mut i: usize = 0;
    while i < entries.len()
        invariant
            i <= entries@.len(),
            forall|j: int| 0 <= j < i ==> !is_runtime_root(#[trigger] entries@[j]),
        decreases entries@.len() - i,
    {
        let e = &entries[i];
        if e.is_dir && e.has_bin_child && MIN_DEPTH <= e.depth && e.depth <= MAX_DEPTH {
            return Some(i);
        }
        i = i + 1;
    }
    None
}

/// The position of `path` relative to `root`.
pub fn relative_path(path: &str, root: &str) -> (r: Option<String>)
    ensures
        r matches Some(s) ==> relative_to(path@, root@) == Some(s@),
        r is None ==> relative_to(path@, root@) is None,
{
    let n = path.unicode_len();
    let m = root.unicode_len();
    if n < m {
        return None;
    }
    let head = String::from_str(path.substring_char(0, m));
    let whole = String::from_str(root);
    if !(head == whole) {
        proof {
            if path@ == root@ {
                assert(path@.subrange(0, m as int) =~= path@);
            }
        }
        return None;
    }
    if n == m {
        assert(path@ =~= head@);
        return Some(String::new());
    }
    if !is_separator(path.get_char(m)) {
        return None;
    }
    Some(String::from_str(path.substring_char(m + 1, n)))
}

/// Plans installing the runtime root `root`, walked as `tree`, into `install`:
/// remove `install` when it exists, create it, then for each walk entry in
/// order create the matching directory or copy the file. Refuses a walk with
/// an entry that does not lie under `root`, naming the first one.
pub fn plan_relocation(root: &str, install: &str, install_exists: bool, tree: &Vec<TreeEntry>) -> (r:
    Result<Vec<InstallAction>, RelocationError>)
    ensures
        r is Ok <==> forall|i: int| 0 <= i < tree@.len() ==> (relative_to(#[trigger] tree@[i].path@, root@) is Some),
        r matches Ok(acts) ==> is_relocation_plan(acts@, root@, install@, install_exists, tree@),
        r matches Err(RelocationError::OutsideRoot(k)) ==> {
            &&& k < tree@.len()
            &&& relative_to(tree@[k as int].path@, root@) is None
            &&& forall|i: int| 0 <= i < k ==> (relative_to(#[trigger] tree@[i].path@, root@) is Some)
        },
{
    let mut acts: Vec<InstallAction> = Vec::new();
    if install_exists {
        acts.push(InstallAction::RemoveAll(String::from_str(install)));
    }
    acts.push(InstallAction::CreateDir(String::from_str(install)));
    let ghost off: int = if install_exists { 1 } else { 0 };
    let mut i: usize = 0;
    while i < tree.len()
        invariant
            i <= tree@.len(),
            acts@.len() == off + 1 + i,
            off == (if install_exists { 1int } else { 0int }),
            install_exists ==> (acts@[0] matches InstallAction::RemoveAll(p) && p@ == install@),
            acts@[off] matches InstallAction::CreateDir(p) && p@ == install@,
            forall|k: int| 0 <= k < i ==> (relative_to(#[trigger] tree@[k].path@, root@) is Some),
            forall|k: int| 0 <= k < i ==> copies(acts@[off + 1 + k], root@, install@, #[trigger] tree@[k]),
        decreases tree@.len() - i,
    {
        let e = &tree[i];
        let rel = match relative_path(e.path.as_str(), root) {
            Some(rel) => rel,
            None => return Err(RelocationError::OutsideRoot(i)),
        };
        let dest = if rel.unicode_len() == 0 {
            String::from_str(install)
        } else {
            join_path(install, rel.as_str())
        };
        if e.is_dir {
            acts.push(InstallAction::CreateDir(dest));
        } else {
            acts.push(InstallAction::CopyFile(e.path.clone(), dest));
        }
        assert(copies(acts@[off + 1 + i], root@, install@, tree@[i as int]));
        i = i + 1;
    }
    Ok(acts)
}

} // verus!
