//! Directory tries: a directory tree in which every directory carries the digest of its
//! own listing, with lookup by path, a walk over its files, and its flattened form.

use crate::digest::Digest;
use crate::path::RelativePath;
use vstd::prelude::*;

verus! {

/// One entry of a directory.
#[derive(Debug, PartialEq, Eq)]
pub enum Entry {
    File { name: String, digest: Digest, is_executable: bool },
    Symlink { name: String, target: String },
    Directory { name: String, tree: DirectoryTrie },
}

/// A directory: the digest of its listing, and its entries.
#[derive(Debug, PartialEq, Eq)]
pub struct DirectoryTrie {
    pub digest: Digest,
    pub entries: Vec<Entry>,
}

/// A file as a directory lists it.
#[derive(Clone, Debug, PartialEq, Eq)]
pub struct FileNode {
    pub name: String,
    pub digest: Digest,
    pub is_executable: bool,
}

/// A subdirectory as a directory lists it: by the digest of the subdirectory's own listing.
#[derive(Clone, Debug, PartialEq, Eq)]
pub struct DirectoryNode {
    pub name: String,
    pub digest: Digest,
}

/// A symbolic link as a directory lists it.
#[derive(Clone, Debug, PartialEq, Eq)]
pub struct SymlinkNode {
    pub name: String,
    pub target: String,
}

/// The listing of one directory: what it holds, one level deep.
#[derive(Clone, Debug, PartialEq, Eq)]
pub struct DirectoryListing {
    pub files: Vec<FileNode>,
    pub directories: Vec<DirectoryNode>,
    pub symlinks: Vec<SymlinkNode>,
}

/// The contents of a listing.
pub struct Listing {
    pub files: Seq<FileNode>,
    pub directories: Seq<DirectoryNode>,
    pub symlinks: Seq<SymlinkNode>,
}

impl View for DirectoryListing {
    type V = Listing;

    open spec fn view(&self) -> Listing {
        Listing {
            files: self.files@,
            directories: self.directories@,
            symlinks: self.symlinks@,
        }
    }
}

/// A directory tree in one piece: the listing of its root, and the listing of every
/// directory below it.
#[derive(Clone, Debug, PartialEq, Eq)]
pub struct FlattenedTree {
    pub root: DirectoryListing,
    pub children: Vec<DirectoryListing>,
}

/// The contents of a flattened tree.
pub struct Flattened {
    pub root: Listing,
    pub children: Seq<Listing>,
}

/// The contents of the listings, in order.
pub open spec fn listings(children: Seq<DirectoryListing>) -> Seq<Listing> {
    Seq::new(children.len(), |i: int| children[i]@)
}

impl View for FlattenedTree {
    type V = Flattened;

    open spec fn view(&self) -> Flattened {
        Flattened { root: self.root@, children: listings(self.children@) }
    }
}

impl Entry {
    /// The name under which the directory holds the entry.
    pub open spec fn name(self) -> Seq<char> {
        match self {
            Entry::File { name, .. } => name@,
            Entry::Symlink { name, .. } => name@,
            Entry::Directory { name, .. } => name@,
        }
    }
}

/// The files among `entries`, in order.
pub open spec fn files_of(entries: Seq<Entry>) -> Seq<FileNode>
    decreases entries.len(),
{
    if entries.len() == 0 {
        Seq::empty()
    } else {
        let before = files_of(entries.drop_last());
        match entries.last() {
            Entry::File { name, digest, is_executable } => before.push(
                FileNode { name, digest, is_executable },
            ),
            _ => before,
        }
    }
}

/// The subdirectories among `entries`, in order.
pub open spec fn directories_of(entries: Seq<Entry>) -> Seq<DirectoryNode>
    decreases entries.len(),
{
    if entries.len() == 0 {
        Seq::empty()
    } else {
        let before = directories_of(entries.drop_last());
        match entries.last() {
            Entry::Directory { name, tree } => before.push(
                DirectoryNode { name, digest: tree.digest },
            ),
            _ => before,
        }
    }
}

/// The symbolic links among `entries`, in order.
pub open spec fn symlinks_of(entries: Seq<Entry>) -> Seq<SymlinkNode>
    decreases entries.len(),
{
    if entries.len() == 0 {
        Seq::empty()
    } else {
        let before = symlinks_of(entries.drop_last());
        match entries.last() {
            Entry::Symlink { name, target } => before.push(SymlinkNode { name, target }),
            _ => before,
        }
    }
}

/// The listing of the directory that holds `entries`.
pub open spec fn listing_of(entries: Seq<Entry>) -> Listing {
    Listing {
        files: files_of(entries),
        directories: directories_of(entries),
        symlinks: symlinks_of(entries),
    }
}

/// The listings of all directories below the one that holds `entries`: each subdirectory
/// in order, followed at once by the directories below it.
pub open spec fn listings_below(entries: Seq<Entry>) -> Seq<Listing>
    decreases entries,
{
    if entries.len() == 0 {
        Seq::empty()
    } else {
        let before = listings_below(entries.drop_last());
        match entries.last() {
            Entry::Directory { name, tree } => before + seq![listing_of(tree.entries@)]
                + listings_below(tree.entries@),
            _ => before,
        }
    }
}

/// The flattened form of the directory that holds `entries`.
pub open spec fn flattened(entries: Seq<Entry>) -> Flattened {
    Flattened { root: listing_of(entries), children: listings_below(entries) }
}

/// The digests of all files in and below the directory that holds `entries`, in the order
/// of a walk that visits each entry in turn and descends into a subdirectory as it meets
/// it. Symbolic links contribute nothing.
pub open spec fn file_digests_of(entries: Seq<Entry>) -> Seq<Digest>
    decreases entries,
{
    if entries.len() == 0 {
        Seq::empty()
    } else {
        let before = file_digests_of(entries.drop_last());
        match entries.last() {
            Entry::File { digest, .. } => before.push(digest),
            Entry::Symlink { .. } => before,
            Entry::Directory { tree, .. } => before + file_digests_of(tree.entries@),
        }
    }
}

/// The first of `entries` that goes by `name`.
pub open spec fn find(entries: Seq<Entry>, name: Seq<char>) -> Option<Entry>
    decreases entries.len(),
{
    if entries.len() == 0 {
        None
    } else if entries[0].name() == name {
        Some(entries[0])
    } else {
        find(entries.drop_first(), name)
    }
}

/// Why a path cannot be followed.
#[derive(Clone, Copy, Debug, PartialEq, Eq, Structural)]
pub enum LookupError {
    /// The name at this position of the path is not the last one, and what goes by it is
    /// not a directory.
    NotADirectory(usize),
}

/// What the names of `path` from position `i` on lead to, starting in the directory that
/// holds `entries`: nothing where a name is missing, or where no name is left to follow.
pub open spec fn entry_at(entries: Seq<Entry>, path: Seq<Seq<char>>, i: int) -> Result<
    Option<Entry>,
    LookupError,
>
    decreases path.len() - i,
{
    if i < 0 || i >= path.len() {
        Ok(None)
    } else {
        match find(entries, path[i]) {
            None => Ok(None),
            Some(entry) => if i + 1 == path.len() {
                Ok(Some(entry))
            } else {
                match entry {
                    Entry::Directory { tree, .. } => entry_at(tree.entries@, path, i + 1),
                    _ => Err(LookupError::NotADirectory(i as usize)),
                }
            },
        }
    }
}

impl Entry {
    /// The name under which the directory holds the entry.
    pub fn entry_name(&self) -> (name: &String)
        ensures
            name@ == self.name(),
    {
        match self {
            Entry::File { name, .. } => name,
            Entry::Symlink { name, .. } => name,
            Entry::Directory { name, .. } => name,
        }
    }
}

/// Finds the first of `entries` that goes by `name`.
pub fn find_entry<'a>(entries: &'a Vec<Entry>, name: &String) -> (found: Option<&'a Entry>)
    ensures
        match find(entries@, name@) {
            Some(entry) => found == Some(&entry),
            None => found.is_none(),
        },
{
    let mut i: usize = 0;
    assert(entries@.skip(0) =~= entries@);
    while i < entries.len()
        invariant
            i <= entries@.len(),
            find(entries@, name@) == find(entries@.skip(i as int), name@),
        decreases entries@.len() - i,
    {
        proof {
            assert(entries@.skip(i as int).drop_first() =~= entries@.skip(i + 1));
            assert(entries@.skip(i as int)[0] == entries@[i as int]);
        }
        if *entries[i].entry_name() == *name {
            return Some(&entries[i]);
        }
        i += 1;
    }
    None
}

fn collect_file_digests(entries: &Vec<Entry>, out: &mut Vec<Digest>)
    ensures
        final(out)@ == old(out)@ + file_digests_of(entries@),
    decreases entries,
{
    let mut i: usize = 0;
    assert(entries@.take(0) =~= Seq::<Entry>::empty());
    assert(out@ =~= old(out)@ + file_digests_of(entries@.take(0)));
    while i < entries.len()
        invariant
            i <= entries@.len(),
            out@ == old(out)@ + file_digests_of(entries@.take(i as int)),
        decreases entries@.len() - i,
    {
        proof {
            assert(entries@.take(i + 1).drop_last() =~= entries@.take(i as int));
            assert(entries@.take(i + 1).last() == entries@[i as int]);
        }
        let ghost before = out@;
        match &entries[i] {
            Entry::File { digest, .. } => {
                out.push(*digest);
                assert(out@ =~= old(out)@ + file_digests_of(entries@.take(i + 1)));
            },
            Entry::Symlink { .. } => {},
            Entry::Directory { tree, .. } => {
                collect_file_digests(&tree.entries, out);
                assert(out@ =~= old(out)@ + file_digests_of(entries@.take(i + 1)));
            },
        }
        i += 1;
    }
    assert(entries@.take(entries@.len() as int) =~= entries@);
}

/// The listing of the directory that holds `entries`.
pub fn listing(entries: &Vec<Entry>) -> (l: DirectoryListing)
    ensures
        l@ == listing_of(entries@),
{
    let mut files: Vec<FileNode> = Vec::new();
    let mut directories: Vec<DirectoryNode> = Vec::new();
    let mut symlinks: Vec<SymlinkNode> = Vec::new();
    let mut i: usize = 0;
    assert(entries@.take(0) =~= Seq::<Entry>::empty());
    while i < entries.len()
        invariant
            i <= entries@.len(),
            files@ == files_of(entries@.take(i as int)),
            directories@ == directories_of(entries@.take(i as int)),
            symlinks@ == symlinks_of(entries@.take(i as int)),
        decreases entries@.len() - i,
    {
        proof {
            assert(entries@.take(i + 1).drop_last() =~= entries@.take(i as int));
            assert(entries@.take(i + 1).last() == entries@[i as int]);
        }
        match &entries[i] {
            Entry::File { name, digest, is_executable } => {
                files.push(
                    FileNode { name: name.clone(), digest: *digest, is_executable: *is_executable },
                );
            },
            Entry::Symlink { name, target } => {
                symlinks.push(SymlinkNode { name: name.clone(), target: target.clone() });
            },
            Entry::Directory { name, tree } => {
                directories.push(DirectoryNode { name: name.clone(), digest: tree.digest });
            },
        }
        i += 1;
    }
    assert(entries@.take(entries@.len() as int) =~= entries@);
    DirectoryListing { files, directories, symlinks }
}

fn collect_listings(entries: &Vec<Entry>, out: &mut Vec<DirectoryListing>)
    ensures
        listings(final(out)@) == listings(old(out)@) + listings_below(entries@),
    decreases entries,
{
    let mut i: usize = 0;
    assert(entries@.take(0) =~= Seq::<Entry>::empty());
    assert(listings(out@) =~= listings(old(out)@) + listings_below(entries@.take(0)));
    while i < entries.len()
        invariant
            i <= entries@.len(),
            listings(out@) == listings(old(out)@) + listings_below(entries@.take(i as int)),
        decreases entries@.len() - i,
    {
        proof {
            assert(entries@.take(i + 1).drop_last() =~= entries@.take(i as int));
            assert(entries@.take(i + 1).last() == entries@[i as int]);
        }
        match &entries[i] {
            Entry::Directory { tree, .. } => {
                let ghost before = out@;
                let own = listing(&tree.entries);
                out.push(own);
                assert(listings(out@) =~= listings(before) + seq![listing_of(tree.entries@)]);
                collect_listings(&tree.entries, out);
                assert(listings(out@) =~= listings(old(out)@) + listings_below(
                    entries@.take(i + 1),
                ));
            },
            _ => {},
        }
        i += 1;
    }
    assert(entries@.take(entries@.len() as int) =~= entries@);
}

impl DirectoryTrie {
    /// A directory with the given digest and entries.
    pub fn new(digest: Digest, entries: Vec<Entry>) -> (trie: DirectoryTrie)
        ensures
            trie.digest == digest,
            trie.entries == entries,
    {
        DirectoryTrie { digest, entries }
    }

    /// Follows `path` from this directory, name by name. A path without names leads to
    /// nothing, as does one with a name that no entry goes by; a path that would pass
    /// through a file or a symbolic link cannot be followed.
    pub fn entry<'a>(&'a self, path: &RelativePath) -> (r: Result<Option<&'a Entry>, LookupError>)
        ensures
            match entry_at(self.entries@, path@, 0) {
                Ok(Some(entry)) => r == Ok::<Option<&Entry>, LookupError>(Some(&entry)),
                Ok(None) => r == Ok::<Option<&Entry>, LookupError>(None),
                Err(e) => r == Err::<Option<&Entry>, LookupError>(e),
            },
    {
        let n: usize = path.len();
        let mut current: &Vec<Entry> = &self.entries;
        let mut i: usize = 0;
        while i < n
            invariant
                n == path@.len(),
                i <= n,
                entry_at(self.entries@, path@, 0) == entry_at(current@, path@, i as int),
            decreases n - i,
        {
            match find_entry(current, path.name(i)) {
                None => {
                    return Ok(None);
                },
                Some(entry) => {
                    if i + 1 == n {
                        return Ok(Some(entry));
                    }
                    match entry {
                        Entry::Directory { tree, .. } => {
                            current = &tree.entries;
                        },
                        _ => {
                            return Err(LookupError::NotADirectory(i));
                        },
                    }
                },
            }
            i += 1;
        }
        Ok(None)
    }

    /// The digests of all files in and below this directory, in walk order.
    pub fn file_digests(&self) -> (digests: Vec<Digest>)
        ensures
            digests@ == file_digests_of(self.entries@),
    {
        let mut digests: Vec<Digest> = Vec::new();
        collect_file_digests(&self.entries, &mut digests);
        assert(digests@ =~= file_digests_of(self.entries@));
        digests
    }

    /// The tree in one piece: the listing of this directory and of every directory below.
    pub fn flatten(&self) -> (tree: FlattenedTree)
        ensures
            tree@ == flattened(self.entries@),
    {
        let root = listing(&self.entries);
        let mut children: Vec<DirectoryListing> = Vec::new();
        collect_listings(&self.entries, &mut children);
        assert(listings(children@) =~= listings_below(self.entries@));
        FlattenedTree { root, children }
    }
}

} // verus!
