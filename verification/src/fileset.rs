//! The set of tracked files, held in the one order in which they are hashed
//! and aggregated.
use crate::order::{
    lemma_path_le_connected, lemma_path_le_transitive, lemma_path_order_total, path_le, path_order,
    path_precedes,
};
use vstd::multiset::Multiset;
use vstd::prelude::*;
use vstd::relations::sorted_by;
use vstd::seq_lib::{lemma_sorted_unique, to_multiset_build, to_multiset_insert};

verus! {

/// The paths in `paths`, each as its sequence of characters.
pub open spec fn path_texts(paths: Seq<String>) -> Seq<Seq<char>> {
    paths.map_values(|p: String| p@)
}

/// The canonical layout of a collection of paths: the same paths, sorted by
/// the path order.
pub open spec fn canonical_order(paths: Seq<Seq<char>>) -> Seq<Seq<char>> {
    paths.sort_by(path_order())
}

/// A sequence of paths that is sorted and holds the same paths as `paths` is
/// the canonical layout of `paths`.
pub proof fn lemma_canonical_order_unique(paths: Seq<Seq<char>>, sorted: Seq<Seq<char>>)
    requires
        sorted_by(sorted, path_order()),
        sorted.to_multiset() == paths.to_multiset(),
    ensures
        sorted == canonical_order(paths),
{
    lemma_path_order_total();
    paths.lemma_sort_by_ensures(path_order());
    lemma_sorted_unique(sorted, canonical_order(paths), path_order());
}

/// The canonical layout depends only on which paths were found, not on the
/// order in which they were found.
pub proof fn lemma_canonical_order_ignores_visit_order(
    first: Seq<Seq<char>>,
    second: Seq<Seq<char>>,
)
    requires
        first.to_multiset() == second.to_multiset(),
    ensures
        canonical_order(first) == canonical_order(second),
{
    lemma_path_order_total();
    first.lemma_sort_by_ensures(path_order());
    second.lemma_sort_by_ensures(path_order());
    lemma_sorted_unique(canonical_order(first), canonical_order(second), path_order());
}

/// One entry reported by a walk over the source tree.
#[derive(Debug, PartialEq, Eq)]
pub enum WalkEntry {
    /// The entry resolves to a regular file at `path`.
    File { path: String },
    /// The entry is a directory, or anything else that is not a regular
    /// file.
    Other,
    /// The entry could not be visited.
    Failed,
}

impl View for WalkEntry {
    type V = Option<Seq<char>>;

    /// The path the entry adds to the tracked files, if it adds one.
    open spec fn view(&self) -> Option<Seq<char>> {
        match *self {
            WalkEntry::File { path } => Some(path@),
            WalkEntry::Other => None,
            WalkEntry::Failed => None,
        }
    }
}

/// The entries in `entries`, each as the path it adds, if any.
pub open spec fn entry_paths(entries: Seq<WalkEntry>) -> Seq<Option<Seq<char>>> {
    entries.map_values(|e: WalkEntry| e@)
}

/// The tracked files of a walk: the paths of the entries that are regular
/// files, in the order of the walk.  Every other entry is passed over.
pub open spec fn tracked_paths(entries: Seq<Option<Seq<char>>>) -> Seq<Seq<char>>
    decreases entries.len(),
{
    if entries.len() == 0 {
        Seq::empty()
    } else {
        let before = tracked_paths(entries.drop_last());
        match entries.last() {
            Some(path) => before.push(path),
            None => before,
        }
    }
}

/// A walk that reports nothing but regular files tracks each of them.
pub proof fn lemma_tracked_paths_of_files(paths: Seq<Seq<char>>)
    ensures
        tracked_paths(paths.map_values(|p: Seq<char>| Some(p))) == paths,
    decreases paths.len(),
{
    if paths.len() > 0 {
        let entries = paths.map_values(|p: Seq<char>| Some(p));
        lemma_tracked_paths_of_files(paths.drop_last());
        assert(entries.drop_last() =~= paths.drop_last().map_values(|p: Seq<char>| Some(p)));
    }
}

/// The tracked files of a source tree, sorted by path.
#[derive(Debug, PartialEq, Eq)]
pub struct FileSet {
    paths: Vec<String>,
}

impl View for FileSet {
    type V = Seq<Seq<char>>;

    closed spec fn view(&self) -> Seq<Seq<char>> {
        path_texts(self.paths@)
    }
}

impl FileSet {
    #[verifier::type_invariant]
    spec fn well_formed(&self) -> bool {
        sorted_by(path_texts(self.paths@), path_order())
    }

    /// Lays the given paths out in canonical order.
    pub fn from_paths(found: Vec<String>) -> (files: FileSet)
        ensures
            files@ == canonical_order(path_texts(found@)),
    {
        let ghost all = path_texts(found@);
        let mut rest = found;
        let mut paths: Vec<String> = Vec::new();
        proof {
            lemma_empty_multiset(path_texts(paths@));
        }
        while rest.len() > 0
            invariant
                sorted_by(path_texts(paths@), path_order()),
                path_texts(paths@).to_multiset().add(path_texts(rest@).to_multiset())
                    == all.to_multiset(),
            decreases rest.len(),
        {
            let ghost rest_before = path_texts(rest@);
            let path = rest.pop().unwrap();
            proof {
                assert(rest_before =~= path_texts(rest@).push(path@));
                to_multiset_build(path_texts(rest@), path@);
            }
            insert_sorted(&mut paths, path);
        }
        proof {
            lemma_empty_multiset(path_texts(rest@));
            lemma_canonical_order_unique(all, path_texts(paths@));
        }
        FileSet { paths }
    }

    /// Keeps the regular files among the entries of a walk and lays their
    /// paths out in canonical order.
    pub fn from_entries(entries: Vec<WalkEntry>) -> (files: FileSet)
        ensures
            files@ == canonical_order(tracked_paths(entry_paths(entries@))),
            files@.len() == tracked_paths(entry_paths(entries@)).len(),
    {
        let ghost all = tracked_paths(entry_paths(entries@));
        let mut rest = entries;
        let mut paths: Vec<String> = Vec::new();
        proof {
            lemma_empty_multiset(path_texts(paths@));
        }
        while rest.len() > 0
            invariant
                sorted_by(path_texts(paths@), path_order()),
                path_texts(paths@).to_multiset().add(
                    tracked_paths(entry_paths(rest@)).to_multiset(),
                ) == all.to_multiset(),
            decreases rest.len(),
        {
            let ghost rest_before = entry_paths(rest@);
            let entry = rest.pop().unwrap();
            proof {
                assert(rest_before.drop_last() =~= entry_paths(rest@));
                if entry@ is Some {
                    to_multiset_build(tracked_paths(entry_paths(rest@)), entry@->0);
                }
            }
            match entry {
                WalkEntry::File { path } => {
                    insert_sorted(&mut paths, path);
                },
                WalkEntry::Other => {},
                WalkEntry::Failed => {},
            }
        }
        proof {
            lemma_empty_multiset(tracked_paths(entry_paths(rest@)));
            lemma_canonical_order_unique(all, path_texts(paths@));
            all.to_multiset_ensures();
            path_texts(paths@).to_multiset_ensures();
        }
        FileSet { paths }
    }

    /// Number of tracked files.
    pub fn len(&self) -> (n: usize)
        ensures
            n == self@.len(),
    {
        self.paths.len()
    }

    /// The path at position `index` of the canonical order.
    pub fn path(&self, index: usize) -> (path: Option<&str>)
        ensures
            path is Some <==> index < self@.len(),
            path matches Some(p) ==> p@ == self@[index as int],
    {
        if index < self.paths.len() {
            Some(self.paths[index].as_str())
        } else {
            None
        }
    }

    /// The paths in canonical order.
    pub fn paths(&self) -> (paths: &Vec<String>)
        ensures
            path_texts(paths@) == self@,
            sorted_by(self@, path_order()),
    {
        proof {
            use_type_invariant(self);
        }
        &self.paths
    }
}

/// An empty sequence adds nothing to a multiset.
proof fn lemma_empty_multiset(empty: Seq<Seq<char>>)
    requires
        empty.len() == 0,
    ensures
        forall|m: Multiset<Seq<char>>| #[trigger] m.add(empty.to_multiset()) == m,
        forall|m: Multiset<Seq<char>>| #[trigger] empty.to_multiset().add(m) == m,
{
    empty.to_multiset_ensures();
}

/// Puts `path` into the sorted `paths` at a place that keeps them sorted.
fn insert_sorted(paths: &mut Vec<String>, path: String)
    requires
        sorted_by(path_texts(old(paths)@), path_order()),
    ensures
        sorted_by(path_texts(final(paths)@), path_order()),
        path_texts(final(paths)@).to_multiset() == path_texts(old(paths)@).to_multiset().insert(
            path@,
        ),
{
    let ghost before = path_texts(paths@);
    let at = insertion_point(paths, path.as_str());
    proof {
        lemma_insert_keeps_sorted(before, at as int, path@);
        to_multiset_insert(before, at as int, path@);
        assert(path_texts(paths@.insert(at as int, path)) =~= before.insert(at as int, path@));
    }
    paths.insert(at, path);
}

/// Inserting a path between the paths at or before it and the paths at or
/// after it keeps a sorted sequence sorted.
proof fn lemma_insert_keeps_sorted(sorted: Seq<Seq<char>>, at: int, path: Seq<char>)
    requires
        sorted_by(sorted, path_order()),
        0 <= at <= sorted.len(),
        forall|j: int| 0 <= j < at ==> path_le(#[trigger] sorted[j], path),
        forall|j: int| at <= j < sorted.len() ==> path_le(path, #[trigger] sorted[j]),
    ensures
        sorted_by(sorted.insert(at, path), path_order()),
{
}

/// A position at which `path` can be inserted into the sorted `paths`: every
/// path before it comes at or before `path`, every path from it on comes at
/// or after `path`.
fn insertion_point(paths: &Vec<String>, path: &str) -> (at: usize)
    requires
        sorted_by(path_texts(paths@), path_order()),
    ensures
        at <= paths@.len(),
        forall|j: int| 0 <= j < at ==> path_le(#[trigger] path_texts(paths@)[j], path@),
        forall|j: int|
            at <= j < paths@.len() ==> path_le(path@, #[trigger] path_texts(paths@)[j]),
{
    let ghost texts = path_texts(paths@);
    let mut low: usize = 0;
    let mut high: usize = paths.len();
    while low < high
        invariant
            low <= high <= paths@.len(),
            texts == path_texts(paths@),
            sorted_by(texts, path_order()),
            forall|j: int| 0 <= j < low ==> path_le(#[trigger] texts[j], path@),
            forall|j: int| high <= j < texts.len() ==> path_le(path@, #[trigger] texts[j]),
        decreases high - low,
    {
        let mid = low + (high - low) / 2;
        if path_precedes(paths[mid].as_str(), path) {
            assert forall|j: int| 0 <= j < mid + 1 implies path_le(#[trigger] texts[j], path@) by {
                if j < mid {
                    assert(path_order()(texts[j], texts[mid as int]));
                    lemma_path_le_transitive(texts[j], texts[mid as int], path@);
                }
            }
            low = mid + 1;
        } else {
            assert forall|j: int| mid <= j < texts.len() implies path_le(
                path@,
                #[trigger] texts[j],
            ) by {
                lemma_path_le_connected(texts[mid as int], path@);
                if mid < j {
                    assert(path_order()(texts[mid as int], texts[j]));
                    lemma_path_le_transitive(path@, texts[mid as int], texts[j]);
                }
            }
            high = mid;
        }
    }
    low
}

} // verus!
