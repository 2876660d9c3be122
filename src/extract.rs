use vstd::prelude::*;
use crate::paths::{is_inside_path, join, join_path, lemma_join_below, stays_inside, strictly_below};

verus! {

/// One entry of an archive, as read from it: the stored name, the relative
/// path the archive reader made of that name, and the decompressed bytes.
#[derive(Debug, PartialEq, Eq)]
pub struct ArchiveEntry {
    pub name: String,
    pub sanitized: String,
    pub data: Vec<u8>,
}

/// A change to make on disk. Writing a file first creates its missing
/// parent directories.
#[derive(Debug, PartialEq, Eq)]
pub enum FsAction {
    CreateDir(String),
    WriteFile(String, Vec<u8>),
}

#[derive(Debug, PartialEq, Eq)]
pub enum ExtractError {
    /// The archive could not be opened or one of its entries not read.
    UnreadableArchive,
    /// The entry at this position would land outside the target directory.
    UnsafeEntryName(usize),
}

/// An entry seen as its stored name, its relative path and its bytes.
pub type EntryView = (Seq<char>, Seq<char>, Seq<u8>);

impl View for ArchiveEntry {
    type V = EntryView;

    open spec fn view(&self) -> EntryView {
        (self.name@, self.sanitized@, self.data@)
    }
}

/// The views of a list of entries.
pub open spec fn entry_views(es: Seq<ArchiveEntry>) -> Seq<EntryView> {
    es.map_values(|e: ArchiveEntry| e@)
}

/// Every entry's path stays inside the directory it is extracted to.
pub open spec fn stays_inside_all(entries: Seq<EntryView>) -> bool {
    forall|i: int| 0 <= i < entries.len() ==> stays_inside(#[trigger] entries[i].1)
}

/// An entry name that ends in a separator stands for a directory.
pub open spec fn names_directory(name: Seq<char>) -> bool {
    name.len() > 0 && name.last() == '/'
}

/// `a` is the action that extracts entry `e` into `target`.
pub open spec fn extracts(a: FsAction, target: Seq<char>, e: EntryView) -> bool {
    if names_directory(e.0) {
        a matches FsAction::CreateDir(p) && p@ == join(target, e.1)
    } else {
        a matches FsAction::WriteFile(p, d) && p@ == join(target, e.1) && d@ == e.2
    }
}

/// The path an action makes.
pub open spec fn action_path(a: FsAction) -> Seq<char> {
    match a {
        FsAction::CreateDir(p) => p@,
        FsAction::WriteFile(p, _) => p@,
    }
}

/// The path of `a` lies strictly below `target`, joined from a relative path
/// with no ".." segment, no root and no drive, so that resolving it cannot
/// climb out of `target`.
pub open spec fn lands_inside(a: FsAction, target: Seq<char>) -> bool {
    &&& strictly_below(action_path(a), target)
    &&& exists|rel: Seq<char>| stays_inside(rel) && #[trigger] join(target, rel) == action_path(a)
}

pub fn ends_with_slash(s: &str) -> (r: bool)
    ensures
        r == names_directory(s@),
{
    let n = s.unicode_len();
    n > 0 && s.get_char(n - 1) == '/'
}

/// The actions extract the entries into `target`, one for one.
pub open spec fn extraction_plan(acts: Seq<FsAction>, target: Seq<char>, entries: Seq<EntryView>) -> bool {
    &&& acts.len() == entries.len()
    &&& forall|i: int| 0 <= i < entries.len() ==> extracts(#[trigger] acts[i], target, entries[i])
}

/// `e` names the first entry whose path would leave the target.
pub open spec fn first_unsafe(e: ExtractError, entries: Seq<EntryView>) -> bool {
    e matches ExtractError::UnsafeEntryName(k) && k < entries.len() && !stays_inside(entries[k as int].1)
        && forall|i: int| 0 <= i < k ==> stays_inside(#[trigger] entries[i].1)
}

/// Plans the extraction of `entries` into `target`, in archive order: one
/// action per entry, a directory for a name that ends in a separator and a
/// file with the entry's bytes otherwise. Refuses the whole archive when an
/// entry's path would leave `target`, naming the first such entry.
pub fn plan_extraction(target: &str, entries: &Vec<ArchiveEntry>) -> (r: Result<Vec<FsAction>, ExtractError>)
    ensures
        r is Ok <==> stays_inside_all(entry_views(entries@)),
        r matches Ok(acts) ==> extraction_plan(acts@, target@, entry_views(entries@)),
        r matches Err(e) ==> first_unsafe(e, entry_views(entries@)),
{
    let ghost views = entry_views(entries@);
    let mut acts: Vec<FsAction> = Vec::new();
    let mut i: usize = 0;
    while i < entries.len()
        invariant
            views == entry_views(entries@),
            views.len() == entries@.len(),
            i <= entries@.len(),
            acts@.len() == i,
            forall|k: int| 0 <= k < i ==> stays_inside(#[trigger] views[k].1),
            forall|k: int| 0 <= k < i ==> extracts(#[trigger] acts@[k], target@, views[k]),
        decreases entries@.len() - i,
    {
        let e = &entries[i];
        assert(views[i as int] == e@);
        if !is_inside_path(e.sanitized.as_str()) {
            assert(!stays_inside(views[i as int].1));
            return Err(ExtractError::UnsafeEntryName(i));
        }
        let path = join_path(target, e.sanitized.as_str());
        if ends_with_slash(e.name.as_str()) {
            acts.push(FsAction::CreateDir(path));
        } else {
            let data = e.data.clone();
            assert(data@ =~= e.data@);
            acts.push(FsAction::WriteFile(path, data));
        }
        i = i + 1;
    }
    Ok(acts)
}

/// What an entry becomes on disk: a directory, with no content, or a file
/// with the entry's bytes.
pub open spec fn node_of(e: EntryView) -> Option<Seq<u8>> {
    if names_directory(e.0) {
        None
    } else {
        Some(e.2)
    }
}

/// A listing of a directory tree, path by path, after action `a`.
pub open spec fn written(fs: Map<Seq<char>, Option<Seq<u8>>>, a: FsAction) -> Map<Seq<char>, Option<Seq<u8>>> {
    match a {
        FsAction::CreateDir(p) => fs.insert(p@, None),
        FsAction::WriteFile(p, d) => fs.insert(p@, Some(d@)),
    }
}

/// The listing after the actions `acts`, in order.
pub open spec fn written_all(fs: Map<Seq<char>, Option<Seq<u8>>>, acts: Seq<FsAction>) -> Map<Seq<char>, Option<Seq<u8>>>
    decreases acts.len(),
{
    if acts.len() == 0 {
        fs
    } else {
        written(written_all(fs, acts.drop_last()), acts.last())
    }
}

/// No two entries name the same path.
pub open spec fn distinct_names(entries: Seq<EntryView>) -> bool {
    forall|i: int, j: int| 0 <= i < entries.len() && 0 <= j < entries.len() && i != j ==> entries[i].1 != entries[j].1
}

proof fn lemma_extraction_prefix(
    fs: Map<Seq<char>, Option<Seq<u8>>>,
    target: Seq<char>,
    entries: Seq<EntryView>,
    acts: Seq<FsAction>,
    n: int,
)
    requires
        forall|q: Seq<char>| fs.dom().contains(q) ==> !strictly_below(q, target),
        extraction_plan(acts, target, entries),
        distinct_names(entries),
        0 <= n <= acts.len(),
    ensures
        forall|q: Seq<char>|
            strictly_below(q, target) ==> (written_all(fs, acts.subrange(0, n)).dom().contains(q)
                <==> exists|i: int| 0 <= i < n && q == join(target, #[trigger] entries[i].1)),
        forall|i: int|
            0 <= i < n ==> written_all(fs, acts.subrange(0, n))[join(target, #[trigger] entries[i].1)]
                == node_of(entries[i]),
    decreases n,
{
    if n == 0 {
        assert(acts.subrange(0, 0) =~= Seq::<FsAction>::empty());
        assert(written_all(fs, acts.subrange(0, 0)) == fs);
    } else {
        lemma_extraction_prefix(fs, target, entries, acts, n - 1);
        let k = n - 1;
        assert(acts.subrange(0, n).drop_last() =~= acts.subrange(0, k));
        assert(acts.subrange(0, n).last() == acts[k]);
        assert(extracts(acts[k], target, entries[k]));
        let path = join(target, entries[k].1);
        lemma_join_below(target, entries[k].1);
        let before = written_all(fs, acts.subrange(0, k));
        let after = written_all(fs, acts.subrange(0, n));
        assert(after == before.insert(path, node_of(entries[k])));
        assert forall|q: Seq<char>| strictly_below(q, target) implies (after.dom().contains(q) <==> exists|i: int|
            0 <= i < n && q == join(target, #[trigger] entries[i].1)) by {
            if after.dom().contains(q) && q != path {
                assert(before.dom().contains(q));
            }
            if q == path {
                assert(q == join(target, entries[k].1));
            }
            if exists|i: int| 0 <= i < n && q == join(target, #[trigger] entries[i].1) {
                let i = choose|i: int| 0 <= i < n && q == join(target, #[trigger] entries[i].1);
                if i < k {
                    assert(before.dom().contains(q));
                }
            }
        }
        assert forall|i: int| 0 <= i < n implies after[join(target, #[trigger] entries[i].1)]
            == node_of(entries[i]) by {
            if i < k {
                assert(entries[i].1 != entries[k].1);
                assert(join(target, entries[i].1) != path);
            }
        }
    }
}

/// Extracting an archive whose entries name distinct paths into a directory
/// with nothing below it, then listing that directory (each action adding
/// exactly the path it names), gives exactly the entries' paths, each
/// holding what its entry holds: a directory, or a file with the entry's
/// bytes.
pub proof fn lemma_extraction_lists_archive(
    fs: Map<Seq<char>, Option<Seq<u8>>>,
    target: Seq<char>,
    entries: Seq<EntryView>,
    acts: Seq<FsAction>,
)
    requires
        forall|q: Seq<char>| fs.dom().contains(q) ==> !strictly_below(q, target),
        extraction_plan(acts, target, entries),
        distinct_names(entries),
    ensures
        forall|q: Seq<char>|
            strictly_below(q, target) ==> (written_all(fs, acts).dom().contains(q) <==> exists|i: int|
                0 <= i < entries.len() && q == join(target, #[trigger] entries[i].1)),
        forall|i: int|
            0 <= i < entries.len() ==> written_all(fs, acts)[join(target, #[trigger] entries[i].1)]
                == node_of(entries[i]),
{
    lemma_extraction_prefix(fs, target, entries, acts, acts.len() as int);
    assert(acts.subrange(0, acts.len() as int) =~= acts);
}

/// No planned extraction writes outside its target: each action's path lies
/// below the target, joined from a relative path that cannot climb out of it.
pub proof fn lemma_extraction_stays_inside(target: Seq<char>, entries: Seq<EntryView>, acts: Seq<FsAction>)
    requires
        acts.len() == entries.len(),
        stays_inside_all(entries),
        extraction_plan(acts, target, entries),
    ensures
        forall|i: int| 0 <= i < acts.len() ==> lands_inside(#[trigger] acts[i], target),
{
    assert forall|i: int| 0 <= i < acts.len() implies lands_inside(#[trigger] acts[i], target) by {
        let rel = entries[i].1;
        assert(extracts(acts[i], target, entries[i]));
        assert(stays_inside(rel));
        lemma_join_below(target, rel);
        assert(join(target, rel) == action_path(acts[i]));
    }
}

} // verus!
