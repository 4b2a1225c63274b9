//! What the fingerprint says about a source tree.
//!
//! A tree is modelled by the paths a walk found, in the order it found them,
//! and by the content of each file.  The statements here hold of every walk
//! and every content.
use crate::digest::{digest_text, is_digest_text, lemma_digest_text_shape};
use crate::fileset::{canonical_order, lemma_canonical_order_ignores_visit_order};
use crate::fingerprint::{
    all_digest_texts, baseline_text, differs, join_lines, lemma_join_lines_injective,
    lemma_join_lines_layout,
};
use crate::order::{lemma_path_order_total, path_order};
use vstd::prelude::*;

verus! {

/// The digests of the files found, in canonical path order.
pub open spec fn tree_digests(found: Seq<Seq<char>>, content: Map<Seq<char>, Seq<u8>>) -> Seq<
    Seq<char>,
> {
    canonical_order(found).map_values(|path: Seq<char>| digest_text(content[path]))
}

/// The fingerprint of a tree whose walk found `found` and whose files hold
/// `content`.
pub open spec fn tree_fingerprint(
    found: Seq<Seq<char>>,
    content: Map<Seq<char>, Seq<u8>>,
) -> Seq<char> {
    join_lines(tree_digests(found, content))
}

/// Every entry of a tree's digests has the shape of a content digest, and
/// there is one per file found.
pub proof fn lemma_tree_digests_shape(found: Seq<Seq<char>>, content: Map<Seq<char>, Seq<u8>>)
    ensures
        all_digest_texts(tree_digests(found, content)),
        tree_digests(found, content).len() == found.len(),
{
    let digests = tree_digests(found, content);
    assert forall|i: int| 0 <= i < digests.len() implies is_digest_text(
        #[trigger] digests[i],
    ) by {
        lemma_digest_text_shape(content[canonical_order(found)[i]]);
    }
    lemma_path_order_total();
    found.lemma_sort_by_ensures(path_order());
    found.to_multiset_ensures();
    canonical_order(found).to_multiset_ensures();
}

/// The fingerprint does not depend on the order in which the walk visits the
/// files: two walks that find the same files give the same fingerprint.
pub proof fn lemma_fingerprint_ignores_visit_order(
    first: Seq<Seq<char>>,
    second: Seq<Seq<char>>,
    content: Map<Seq<char>, Seq<u8>>,
)
    requires
        first.to_multiset() == second.to_multiset(),
    ensures
        tree_fingerprint(first, content) == tree_fingerprint(second, content),
{
    lemma_canonical_order_ignores_visit_order(first, second);
}

/// Editing a tracked file changes the fingerprint, and a run against the old
/// fingerprint as baseline sees a change, whenever the edit changes the
/// file's digest.
pub proof fn lemma_edit_changes_fingerprint(
    found: Seq<Seq<char>>,
    content: Map<Seq<char>, Seq<u8>>,
    path: Seq<char>,
    edited: Seq<u8>,
)
    requires
        found.contains(path),
        digest_text(edited) != digest_text(content[path]),
    ensures
        tree_fingerprint(found, content.insert(path, edited)) != tree_fingerprint(found, content),
        differs(
            tree_fingerprint(found, content.insert(path, edited)),
            baseline_text(Some(tree_fingerprint(found, content))),
        ),
{
    let layout = canonical_order(found);
    let before = tree_digests(found, content);
    let after = tree_digests(found, content.insert(path, edited));
    lemma_path_order_total();
    found.lemma_sort_by_ensures(path_order());
    found.to_multiset_ensures();
    layout.to_multiset_ensures();
    assert(layout.to_multiset().count(path) > 0);
    let i = choose|i: int| 0 <= i < layout.len() && layout[i] == path;
    assert(before[i] == digest_text(content[path]));
    assert(after[i] == digest_text(edited));
    lemma_tree_digests_shape(found, content);
    lemma_tree_digests_shape(found, content.insert(path, edited));
    if join_lines(after) == join_lines(before) {
        lemma_join_lines_injective(after, before);
    }
}

/// Two trees with different numbers of tracked files have different
/// fingerprints, whatever the files hold.
pub proof fn lemma_file_count_changes_fingerprint(
    first: Seq<Seq<char>>,
    first_content: Map<Seq<char>, Seq<u8>>,
    second: Seq<Seq<char>>,
    second_content: Map<Seq<char>, Seq<u8>>,
)
    requires
        first.len() != second.len(),
    ensures
        tree_fingerprint(first, first_content) != tree_fingerprint(second, second_content),
{
    lemma_tree_digests_shape(first, first_content);
    lemma_tree_digests_shape(second, second_content);
    lemma_join_lines_layout(tree_digests(first, first_content));
    lemma_join_lines_layout(tree_digests(second, second_content));
}

/// Adding a tracked file changes the fingerprint, and so does removing one,
/// whatever the files hold afterwards.
pub proof fn lemma_adding_or_removing_changes_fingerprint(
    found: Seq<Seq<char>>,
    content: Map<Seq<char>, Seq<u8>>,
    added: Seq<char>,
    removed: int,
    content_after: Map<Seq<char>, Seq<u8>>,
)
    ensures
        tree_fingerprint(found.push(added), content_after) != tree_fingerprint(found, content),
        0 <= removed < found.len() ==> tree_fingerprint(found.remove(removed), content_after)
            != tree_fingerprint(found, content),
{
    lemma_file_count_changes_fingerprint(found.push(added), content_after, found, content);
    if 0 <= removed < found.len() {
        lemma_file_count_changes_fingerprint(found.remove(removed), content_after, found, content);
    }
}

/// With nothing stored yet, a tree that tracks at least one file is seen as
/// changed.
pub proof fn lemma_first_run_is_changed(found: Seq<Seq<char>>, content: Map<Seq<char>, Seq<u8>>)
    requires
        found.len() > 0,
    ensures
        differs(tree_fingerprint(found, content), baseline_text(None)),
{
    lemma_tree_digests_shape(found, content);
    lemma_join_lines_layout(tree_digests(found, content));
}

} // verus!
