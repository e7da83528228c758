//! Reading a flattened tree back into a directory trie.
//!
//! A flattened tree lists the directories below its root in walk order: each directory is
//! followed at once by everything below it. So the listings of one subtree stand
//! together, and how many they are can be told from the listings themselves.

use crate::digest::Digest;
use crate::trie::{
    directories_of, files_of, flattened, listing_of, listings, listings_below, symlinks_of,
    DirectoryListing, DirectoryNode, DirectoryTrie, Entry, FileNode, Flattened, FlattenedTree,
    Listing, SymlinkNode,
};
use vstd::prelude::*;

verus! {

/// The number of listings at the front of `rest` that make up `subtrees` subtrees standing
/// one after the other, each a directory followed by all that is below it. Nothing where
/// `rest` ends before the subtrees do.
pub open spec fn spans(subtrees: nat, rest: Seq<Listing>) -> Option<nat>
    decreases rest.len(), subtrees,
{
    if subtrees == 0 {
        Some(0)
    } else if rest.len() == 0 {
        None
    } else {
        match spans(rest[0].directories.len(), rest.skip(1)) {
            None => None,
            Some(below) => if below >= rest.len() {
                None
            } else {
                match spans((subtrees - 1) as nat, rest.skip((1 + below) as int)) {
                    None => None,
                    Some(others) => Some(1 + below + others),
                }
            },
        }
    }
}

/// The listings below the root are exactly the subtrees that the root lists.
pub open spec fn well_formed(tree: Flattened) -> bool {
    spans(tree.root.directories.len(), tree.children) == Some(tree.children.len())
}

/// Where an entry stands among the entries of a directory that has been read back: files
/// come first, then subdirectories, then links.
pub open spec fn rank(entry: Entry) -> int {
    match entry {
        Entry::File { .. } => 0,
        Entry::Directory { .. } => 1,
        Entry::Symlink { .. } => 2,
    }
}

/// In the directory that holds `entries`, and in every directory below it, the files
/// come first, then the subdirectories, then the links.
pub open spec fn ordered(entries: Seq<Entry>) -> bool
    decreases entries,
{
    &&& forall|i: int, j: int| 0 <= i <= j < entries.len() ==> rank(entries[i]) <= rank(entries[j])
    &&& forall|i: int|
        0 <= i < entries.len() ==> match #[trigger] entries[i] {
            Entry::Directory { tree, .. } => ordered(tree.entries@),
            _ => true,
        }
}

/// Subtrees never span more listings than there are.
pub proof fn lemma_spans_bound(subtrees: nat, rest: Seq<Listing>)
    ensures
        spans(subtrees, rest) matches Some(n) ==> n <= rest.len(),
    decreases rest.len(), subtrees,
{
    if subtrees > 0 && rest.len() > 0 {
        lemma_spans_bound(rest[0].directories.len(), rest.skip(1));
        match spans(rest[0].directories.len(), rest.skip(1)) {
            Some(below) => if below < rest.len() {
                lemma_spans_bound((subtrees - 1) as nat, rest.skip((1 + below) as int));
            },
            None => {},
        }
    }
}

/// Subtrees that stand one group after the other span what the two groups span.
pub proof fn lemma_spans_add(first: nat, second: nat, rest: Seq<Listing>)
    requires
        spans(first, rest) is Some,
        spans(second, rest.skip(spans(first, rest)->0 as int)) is Some,
    ensures
        spans(first + second, rest) == Some(
            spans(first, rest)->0 + spans(second, rest.skip(spans(first, rest)->0 as int))->0,
        ),
    decreases rest.len(), first,
{
    if first == 0 {
        assert(rest.skip(0) =~= rest);
    } else {
        let below = spans(rest[0].directories.len(), rest.skip(1))->0;
        let after = rest.skip((1 + below) as int);
        let others = spans((first - 1) as nat, after)->0;
        lemma_spans_bound((first - 1) as nat, after);
        assert(after.skip(others as int) =~= rest.skip((1 + below + others) as int));
        lemma_spans_add((first - 1) as nat, second, after);
        assert((first - 1) as nat + second == (first + second - 1) as nat);
    }
}

/// The listings below a directory are the subtrees of its subdirectories, whatever
/// follows them.
pub proof fn lemma_spans_of_entries(entries: Seq<Entry>, tail: Seq<Listing>)
    ensures
        spans(directories_of(entries).len(), listings_below(entries) + tail) == Some(
            listings_below(entries).len(),
        ),
    decreases entries,
{
    if entries.len() > 0 {
        let before = entries.drop_last();
        match entries.last() {
            Entry::Directory { name, tree } => {
                let own = seq![listing_of(tree.entries@)];
                let below = listings_below(tree.entries@);
                let rest = listings_below(before) + (own + below + tail);
                assert(listings_below(entries) + tail =~= rest);
                lemma_spans_of_entries(before, own + below + tail);
                let start = listings_below(before).len();
                let second = rest.skip(start as int);
                assert(second =~= own + below + tail);
                assert(second[0] == listing_of(tree.entries@));
                assert(second.skip(1) =~= below + tail);
                lemma_spans_of_entries(tree.entries@, tail);
                assert(second.skip((1 + below.len()) as int) =~= tail);
                assert(spans(0, tail) == Some(0nat));
                assert(spans(1, second) == Some(1 + below.len()));
                lemma_spans_add(directories_of(before).len(), 1, rest);
            },
            _ => {
                lemma_spans_of_entries(before, tail);
            },
        }
    } else {
        assert(listings_below(entries) + tail =~= tail);
    }
}

/// Whatever is flattened can be read back: the flattened form of every directory is well
/// formed. Reading it back gives a trie with the same flattened form, that is, with the
/// same files, links and subdirectories under the same names and digests at every level.
pub proof fn law_flattened_well_formed(entries: Seq<Entry>)
    ensures
        well_formed(flattened(entries)),
{
    lemma_spans_of_entries(entries, Seq::empty());
    assert(listings_below(entries) + Seq::<Listing>::empty() =~= listings_below(entries));
}

/// Rebuilds the entries of the directory with the given listing, taking the listings of
/// the directories below it from `children`, from position `from` on. Returns the entries
/// and the position behind the last listing used.
fn rebuild(listing: &DirectoryListing, children: &Vec<DirectoryListing>, from: usize) -> (r:
    Option<(Vec<Entry>, usize)>)
    requires
        from <= children@.len(),
    ensures
        match spans(listing.directories@.len(), listings(children@).skip(from as int)) {
            None => r is None,
            Some(used) => {
                &&& r matches Some(built)
                &&& built.1 == from + used
                &&& built.1 <= children@.len()
                &&& listing_of(built.0@) == listing@
                &&& listings_below(built.0@) == listings(children@).subrange(
                    from as int,
                    from + used,
                )
                &&& ordered(built.0@)
            },
        },
    decreases children@.len() - from,
{
    let ghost all = listings(children@);
    let ghost wanted = listing.directories@.len();
    let mut entries: Vec<Entry> = Vec::new();
    let mut i: usize = 0;
    assert(listing.files@.take(0) =~= Seq::<FileNode>::empty());
    while i < listing.files.len()
        invariant
            i <= listing.files@.len(),
            files_of(entries@) == listing.files@.take(i as int),
            directories_of(entries@) == Seq::<DirectoryNode>::empty(),
            symlinks_of(entries@) == Seq::<SymlinkNode>::empty(),
            listings_below(entries@) == Seq::<Listing>::empty(),
            forall|n: int| 0 <= n < entries@.len() ==> rank(#[trigger] entries@[n]) == 0,
        decreases listing.files@.len() - i,
    {
        let file = &listing.files[i];
        let ghost before = entries@;
        entries.push(
            Entry::File {
                name: file.name.clone(),
                digest: file.digest,
                is_executable: file.is_executable,
            },
        );
        proof {
            assert(entries@.drop_last() =~= before);
            assert(listing.files@.take(i + 1) =~= listing.files@.take(i as int).push(
                listing.files@[i as int],
            ));
        }
        i += 1;
    }
    assert(listing.files@.take(listing.files@.len() as int) =~= listing.files@);
    let mut at: usize = from;
    let mut k: usize = 0;
    proof {
        assert(listing.directories@.take(0) =~= Seq::<DirectoryNode>::empty());
        assert(all.subrange(from as int, from as int) =~= Seq::<Listing>::empty());
    }
    while k < listing.directories.len()
        invariant
            all == listings(children@),
            wanted == listing.directories@.len(),
            k <= wanted,
            from <= at <= children@.len(),
            files_of(entries@) == listing.files@,
            symlinks_of(entries@) == Seq::<SymlinkNode>::empty(),
            directories_of(entries@) == listing.directories@.take(k as int),
            listings_below(entries@) == all.subrange(from as int, at as int),
            forall|n: int| 0 <= n < entries@.len() ==> rank(#[trigger] entries@[n]) <= 1,
            ordered(entries@),
            spans(wanted, all.skip(from as int)) == match spans(
                (wanted - k) as nat,
                all.skip(at as int),
            ) {
                None => None::<nat>,
                Some(more) => Some((at - from + more) as nat),
            },
        decreases wanted - k,
    {
        if at >= children.len() {
            return None;
        }
        let ghost rest = all.skip(at as int);
        proof {
            assert(rest[0] == children@[at as int]@);
            assert(rest.skip(1) =~= all.skip(at + 1));
        }
        let node = &listing.directories[k];
        match rebuild(&children[at], children, at + 1) {
            None => {
                return None;
            },
            Some((below, next)) => {
                let ghost before = entries@;
                proof {
                    let used = (next - at - 1) as nat;
                    lemma_spans_bound(children@[at as int]@.directories.len(), all.skip(at + 1));
                    assert(rest.skip((1 + used) as int) =~= all.skip(next as int));
                    assert(all.subrange(from as int, at as int) + seq![listing_of(below@)]
                        + listings_below(below@) =~= all.subrange(from as int, next as int));
                    assert((wanted - k - 1) as nat == ((wanted - k) as nat - 1) as nat);
                }
                entries.push(
                    Entry::Directory {
                        name: node.name.clone(),
                        tree: DirectoryTrie { digest: node.digest, entries: below },
                    },
                );
                proof {
                    assert(entries@.drop_last() =~= before);
                    assert(listing.directories@.take(k + 1) =~= listing.directories@.take(
                        k as int,
                    ).push(listing.directories@[k as int]));
                }
                at = next;
            },
        }
        k += 1;
    }
    assert(listing.directories@.take(wanted as int) =~= listing.directories@);
    let mut j: usize = 0;
    assert(listing.symlinks@.take(0) =~= Seq::<SymlinkNode>::empty());
    while j < listing.symlinks.len()
        invariant
            j <= listing.symlinks@.len(),
            files_of(entries@) == listing.files@,
            directories_of(entries@) == listing.directories@,
            symlinks_of(entries@) == listing.symlinks@.take(j as int),
            listings_below(entries@) == all.subrange(from as int, at as int),
            ordered(entries@),
        decreases listing.symlinks@.len() - j,
    {
        let link = &listing.symlinks[j];
        let ghost before = entries@;
        entries.push(Entry::Symlink { name: link.name.clone(), target: link.target.clone() });
        proof {
            assert(entries@.drop_last() =~= before);
            assert(listing.symlinks@.take(j + 1) =~= listing.symlinks@.take(j as int).push(
                listing.symlinks@[j as int],
            ));
        }
        j += 1;
    }
    assert(listing.symlinks@.take(listing.symlinks@.len() as int) =~= listing.symlinks@);
    Some((entries, at))
}

/// Reads a flattened tree back into a trie whose root carries `root_digest`. Every
/// directory lists its files first, then its subdirectories, then its links, each group
/// in the order of the listing. Nothing where the tree is not well formed.
pub fn reload(tree: &FlattenedTree, root_digest: Digest) -> (r: Option<DirectoryTrie>)
    ensures
        r is Some <==> well_formed(tree@),
        r matches Some(trie) ==> {
            &&& trie.digest == root_digest
            &&& flattened(trie.entries@) == tree@
            &&& ordered(trie.entries@)
        },
{
    proof {
        assert(listings(tree.children@).skip(0) =~= listings(tree.children@));
    }
    match rebuild(&tree.root, &tree.children, 0) {
        Some((entries, next)) => {
            if next == tree.children.len() {
                assert(listings(tree.children@).subrange(0, next as int) =~= listings(
                    tree.children@,
                ));
                Some(DirectoryTrie { digest: root_digest, entries })
            } else {
                None
            }
        },
        None => None,
    }
}

} // verus!
