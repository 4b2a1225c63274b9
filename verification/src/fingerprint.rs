//! The fingerprint of a tree: the digests of its files, in canonical order,
//! joined by newlines; and its comparison with the stored baseline.
use crate::digest::{is_digest_text, ContentDigest};
use vstd::prelude::*;

verus! {

/// The lines joined into one text, with a newline between neighbours and
/// none at the end.
pub open spec fn join_lines(lines: Seq<Seq<char>>) -> Seq<char>
    decreases lines.len(),
{
    if lines.len() == 0 {
        Seq::empty()
    } else if lines.len() == 1 {
        lines[0]
    } else {
        join_lines(lines.drop_last()) + seq!['\n'] + lines.last()
    }
}

/// The digests in `digests`, each as its text.
pub open spec fn digest_texts(digests: Seq<ContentDigest>) -> Seq<Seq<char>> {
    digests.map_values(|d: ContentDigest| d@)
}

/// Whether every text in `lines` has the shape of a content digest.
pub open spec fn all_digest_texts(lines: Seq<Seq<char>>) -> bool {
    forall|i: int| 0 <= i < lines.len() ==> is_digest_text(#[trigger] lines[i])
}

/// Whether a run that computed `current` against the stored `baseline` has
/// to rebuild: the two texts are not exactly equal.
pub open spec fn differs(current: Seq<char>, baseline: Seq<char>) -> bool {
    current != baseline
}

/// The baseline a run compares against: the stored text, or the empty text
/// when nothing is stored yet.
pub open spec fn baseline_text(stored: Option<Seq<char>>) -> Seq<char> {
    match stored {
        Some(text) => text,
        None => Seq::empty(),
    }
}

/// Joins the per-file digests, given in canonical file order, into the
/// fingerprint of the tree.
pub fn aggregate(digests: &Vec<ContentDigest>) -> (fingerprint: String)
    ensures
        fingerprint@ == join_lines(digest_texts(digests@)),
{
    let ghost lines = digest_texts(digests@);
    let mut fingerprint = String::new();
    let mut i: usize = 0;
    while i < digests.len()
        invariant
            i <= digests@.len(),
            lines == digest_texts(digests@),
            fingerprint@ == join_lines(lines.subrange(0, i as int)),
        decreases digests@.len() - i,
    {
        if i > 0 {
            fingerprint.append("\n");
        }
        fingerprint.append(digests[i].as_str());
        proof {
            reveal_strlit("\n");
            assert("\n"@ =~= seq!['\n']);
            assert(lines.subrange(0, i + 1).drop_last() =~= lines.subrange(0, i as int));
        }
        i += 1;
    }
    assert(lines.subrange(0, i as int) =~= lines);
    fingerprint
}

/// The baseline to compare against: what the store held, or the empty text
/// if it held nothing.
pub fn baseline_or_empty(stored: Option<String>) -> (baseline: String)
    ensures
        baseline@ == baseline_text(
            match stored {
                Some(text) => Some(text@),
                None => None,
            },
        ),
{
    match stored {
        Some(text) => text,
        None => String::new(),
    }
}

/// Decides whether the tree changed since the baseline was stored.
pub fn is_changed(current: &String, baseline: &String) -> (changed: bool)
    ensures
        changed == differs(current@, baseline@),
{
    !(*current == *baseline)
}

/// Length of the fingerprint of `count` files: 64 characters per digest and
/// one newline between neighbours.
pub open spec fn fingerprint_len(count: nat) -> nat {
    if count == 0 {
        0
    } else {
        (65 * count - 1) as nat
    }
}

/// The fingerprint of digests has a length fixed by their number, and each
/// digest stands in it at 65 times its position.
pub proof fn lemma_join_lines_layout(lines: Seq<Seq<char>>)
    requires
        all_digest_texts(lines),
    ensures
        join_lines(lines).len() == fingerprint_len(lines.len()),
        forall|i: int|
            0 <= i < lines.len() ==> #[trigger] lines[i] == join_lines(lines).subrange(
                65 * i,
                65 * i + 64,
            ),
    decreases lines.len(),
{
    if lines.len() >= 2 {
        let joined = join_lines(lines);
        let front = lines.drop_last();
        lemma_join_lines_layout(front);
        assert forall|i: int| 0 <= i < lines.len() implies #[trigger] lines[i] == joined.subrange(
            65 * i,
            65 * i + 64,
        ) by {
            if i < lines.len() - 1 {
                assert(front[i] == lines[i]);
                assert(join_lines(front).subrange(65 * i, 65 * i + 64) =~= joined.subrange(
                    65 * i,
                    65 * i + 64,
                ));
            }
        }
    }
}

/// Two sequences of digests with the same fingerprint are the same sequence:
/// nothing is lost in joining.
pub proof fn lemma_join_lines_injective(first: Seq<Seq<char>>, second: Seq<Seq<char>>)
    requires
        all_digest_texts(first),
        all_digest_texts(second),
        join_lines(first) == join_lines(second),
    ensures
        first == second,
{
    lemma_join_lines_layout(first);
    lemma_join_lines_layout(second);
    assert(first =~= second);
}

} // verus!
