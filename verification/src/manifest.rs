//! Result manifests: the cache entry for an executed process, and how one is built from a
//! result and the directory trie that holds what the process wrote.

use crate::closure::{
    extend, insert, lemma_absorb_concat, lemma_concat_contains, lemma_unique_contents, unique,
};
use crate::digest::Digest;
use crate::path::{join, RelativePath};
use crate::result::{ExecutionMetadata, ExecutionResult, Platform, ResultSource};
use crate::trie::{
    entry_at, file_digests_of, flattened, DirectoryTrie, Entry, Flattened, FlattenedTree,
    LookupError,
};
use vstd::prelude::*;

verus! {

/// What a process is expected to leave behind.
#[derive(Clone, Debug, PartialEq, Eq)]
pub struct Command {
    /// The directories it declares as outputs, in declared order.
    pub output_directories: Vec<RelativePath>,
    /// The files it declares as outputs, in declared order.
    pub output_files: Vec<RelativePath>,
}

/// An output file as a manifest records it.
#[derive(Clone, Debug, PartialEq, Eq)]
pub struct OutputFile {
    pub path: String,
    pub digest: Option<Digest>,
    pub is_executable: bool,
}

/// An output directory as a manifest records it: by the digest of its flattened tree.
#[derive(Clone, Debug, PartialEq, Eq)]
pub struct OutputDirectory {
    pub path: String,
    pub tree_digest: Option<Digest>,
}

/// What a manifest records of how a result was produced.
#[derive(Clone, Copy, Debug, PartialEq, Eq, Structural)]
pub struct ManifestMetadata {
    pub total_elapsed_nanos: Option<u128>,
}

/// The cache entry for one executed process.
#[derive(Clone, Debug, PartialEq, Eq)]
pub struct ResultManifest {
    pub exit_code: i32,
    pub stdout_digest: Option<Digest>,
    pub stderr_digest: Option<Digest>,
    pub execution_metadata: Option<ManifestMetadata>,
    pub output_files: Vec<OutputFile>,
    pub output_directories: Vec<OutputDirectory>,
}

/// What a declared output was declared as.
#[derive(Clone, Copy, Debug, PartialEq, Eq, Structural)]
pub enum OutputKind {
    File,
    Directory,
}

/// What a path leads to in a trie.
#[derive(Clone, Copy, Debug, PartialEq, Eq, Structural)]
pub enum Found {
    File,
    Directory,
    Symlink,
    /// The path cannot be followed: what goes by its name at this position is not a
    /// directory, and the name is not the last.
    Blocked(usize),
}

/// A declared output path leads to something of the wrong kind.
#[derive(Clone, Debug, PartialEq, Eq)]
pub struct ManifestError {
    /// What the path was declared as.
    pub declared: OutputKind,
    /// What it leads to instead.
    pub found: Found,
    /// The offending path.
    pub path: String,
    /// The root digest of the trie in which it was looked up.
    pub root_digest: Digest,
}

impl ManifestError {
    /// The error says that `path`, declared as `declared`, leads to `found` in the trie
    /// with root digest `root_digest`.
    pub open spec fn says(
        self,
        declared: OutputKind,
        found: Found,
        path: Seq<Seq<char>>,
        root_digest: Digest,
    ) -> bool {
        &&& self.declared == declared
        &&& self.found == found
        &&& self.path@ == join(path)
        &&& self.root_digest == root_digest
    }
}

/// The kind of what `path` leads to from the directory that holds `entries`, if anything.
pub open spec fn found_at(entries: Seq<Entry>, path: Seq<Seq<char>>) -> Option<Found> {
    match entry_at(entries, path, 0) {
        Ok(None) => None,
        Ok(Some(Entry::File { .. })) => Some(Found::File),
        Ok(Some(Entry::Directory { .. })) => Some(Found::Directory),
        Ok(Some(Entry::Symlink { .. })) => Some(Found::Symlink),
        Err(LookupError::NotADirectory(i)) => Some(Found::Blocked(i)),
    }
}

/// The entries of the directory that `path` leads to.
pub open spec fn directory_at(entries: Seq<Entry>, path: Seq<Seq<char>>) -> Seq<Entry>
    recommends
        found_at(entries, path) == Some(Found::Directory),
{
    match entry_at(entries, path, 0) {
        Ok(Some(Entry::Directory { tree, .. })) => tree.entries@,
        _ => Seq::empty(),
    }
}

/// The file that `path` leads to, as a manifest records it.
pub open spec fn file_at(entries: Seq<Entry>, path: Seq<Seq<char>>) -> (Digest, bool)
    recommends
        found_at(entries, path) == Some(Found::File),
{
    match entry_at(entries, path, 0) {
        Ok(Some(Entry::File { digest, is_executable, .. })) => (digest, is_executable),
        _ => arbitrary(),
    }
}

fn wrong_kind(
    declared: OutputKind,
    found: Found,
    path: &RelativePath,
    root_trie: &DirectoryTrie,
) -> (e: ManifestError)
    ensures
        e.says(declared, found, path@, root_trie.digest),
{
    ManifestError { declared, found, path: path.to_text(), root_digest: root_trie.digest }
}

/// Builds the flattened tree of the output directory declared at `directory_path`, and
/// collects the digests of the files in and below it. Nothing where the path leads to
/// nothing; an error where it leads to anything but a directory. Symbolic links inside
/// the directory are listed in the tree and contribute no digest.
pub fn make_tree_for_output_directory(
    root_trie: &DirectoryTrie,
    directory_path: &RelativePath,
) -> (r: Result<Option<(FlattenedTree, Vec<Digest>)>, ManifestError>)
    ensures
        match found_at(root_trie.entries@, directory_path@) {
            None => r is Ok && r->Ok_0 is None,
            Some(Found::Directory) => {
                &&& r matches Ok(Some(built))
                &&& built.0@ == flattened(directory_at(root_trie.entries@, directory_path@))
                &&& built.1@ == file_digests_of(
                    directory_at(root_trie.entries@, directory_path@),
                )
            },
            Some(other) => r is Err && r->Err_0.says(
                OutputKind::Directory,
                other,
                directory_path@,
                root_trie.digest,
            ),
        },
{
    match root_trie.entry(directory_path) {
        Err(LookupError::NotADirectory(i)) => Err(
            wrong_kind(OutputKind::Directory, Found::Blocked(i), directory_path, root_trie),
        ),
        Ok(None) => Ok(None),
        Ok(Some(Entry::Directory { tree, .. })) => {
            let flat = tree.flatten();
            let file_digests = tree.file_digests();
            Ok(Some((flat, file_digests)))
        },
        Ok(Some(Entry::Symlink { .. })) => Err(
            wrong_kind(OutputKind::Directory, Found::Symlink, directory_path, root_trie),
        ),
        Ok(Some(Entry::File { .. })) => Err(
            wrong_kind(OutputKind::Directory, Found::File, directory_path, root_trie),
        ),
    }
}

/// Builds the manifest record of the output file declared at `file_path`. Nothing where
/// the path leads to nothing; an error where it leads to anything but a file.
pub fn extract_output_file(root_trie: &DirectoryTrie, file_path: &RelativePath) -> (r: Result<
    Option<OutputFile>,
    ManifestError,
>)
    ensures
        match found_at(root_trie.entries@, file_path@) {
            None => r is Ok && r->Ok_0 is None,
            Some(Found::File) => {
                &&& r matches Ok(Some(file))
                &&& file.path@ == join(file_path@)
                &&& file.digest == Some(file_at(root_trie.entries@, file_path@).0)
                &&& file.is_executable == file_at(root_trie.entries@, file_path@).1
            },
            Some(other) => r is Err && r->Err_0.says(
                OutputKind::File,
                other,
                file_path@,
                root_trie.digest,
            ),
        },
{
    match root_trie.entry(file_path) {
        Err(LookupError::NotADirectory(i)) => Err(
            wrong_kind(OutputKind::File, Found::Blocked(i), file_path, root_trie),
        ),
        Ok(None) => Ok(None),
        Ok(Some(Entry::File { digest, is_executable, .. })) => Ok(
            Some(
                OutputFile {
                    path: file_path.to_text(),
                    digest: Some(*digest),
                    is_executable: *is_executable,
                },
            ),
        ),
        Ok(Some(Entry::Symlink { .. })) => Err(
            wrong_kind(OutputKind::File, Found::Symlink, file_path, root_trie),
        ),
        Ok(Some(Entry::Directory { .. })) => Err(
            wrong_kind(OutputKind::File, Found::Directory, file_path, root_trie),
        ),
    }
}

/// The kind that an output declared as `declared` is expected to be.
pub open spec fn expected(declared: OutputKind) -> Found {
    match declared {
        OutputKind::File => Found::File,
        OutputKind::Directory => Found::Directory,
    }
}

/// A path declared as `declared` leads to something, and that is of another kind.
pub open spec fn wrong(declared: OutputKind, found: Option<Found>) -> bool {
    match found {
        None => false,
        Some(f) => f != expected(declared),
    }
}

/// The names of each path, in order.
pub open spec fn paths_of(paths: Seq<RelativePath>) -> Seq<Seq<Seq<char>>> {
    Seq::new(paths.len(), |i: int| paths[i]@)
}

/// The position of the first of `paths` that leads to something of the wrong kind.
pub open spec fn first_wrong(
    entries: Seq<Entry>,
    paths: Seq<Seq<Seq<char>>>,
    declared: OutputKind,
) -> Option<int>
    decreases paths.len(),
{
    if paths.len() == 0 {
        None
    } else {
        match first_wrong(entries, paths.drop_last(), declared) {
            Some(i) => Some(i),
            None => if wrong(declared, found_at(entries, paths.last())) {
                Some(paths.len() - 1)
            } else {
                None
            },
        }
    }
}

proof fn lemma_first_wrong_stays(
    entries: Seq<Entry>,
    paths: Seq<Seq<Seq<char>>>,
    declared: OutputKind,
    k: int,
)
    requires
        0 <= k <= paths.len(),
        first_wrong(entries, paths.take(k), declared) is Some,
    ensures
        first_wrong(entries, paths, declared) == first_wrong(entries, paths.take(k), declared),
    decreases paths.len() - k,
{
    if k == paths.len() {
        assert(paths.take(k) =~= paths);
    } else {
        assert(paths.take(k + 1).drop_last() =~= paths.take(k));
        lemma_first_wrong_stays(entries, paths, declared, k + 1);
    }
}

/// An output directory that is present: its path, its flattened tree, and the digests of
/// the files in and below it.
#[derive(Clone, Debug, PartialEq, Eq)]
pub struct OutputTree {
    pub path: String,
    pub tree: FlattenedTree,
    pub file_digests: Vec<Digest>,
}

/// The contents of an output tree.
pub struct OutputTreeView {
    pub path: Seq<char>,
    pub tree: Flattened,
    pub file_digests: Seq<Digest>,
}

impl View for OutputTree {
    type V = OutputTreeView;

    open spec fn view(&self) -> OutputTreeView {
        OutputTreeView { path: self.path@, tree: self.tree@, file_digests: self.file_digests@ }
    }
}

/// The contents of the output trees, in order.
pub open spec fn tree_views(trees: Seq<OutputTree>) -> Seq<OutputTreeView> {
    Seq::new(trees.len(), |i: int| trees[i]@)
}

/// The output trees of those of `paths` that lead to a directory, in the order of `paths`.
pub open spec fn trees_of(entries: Seq<Entry>, paths: Seq<Seq<Seq<char>>>) -> Seq<
    OutputTreeView,
>
    decreases paths.len(),
{
    if paths.len() == 0 {
        Seq::empty()
    } else {
        let before = trees_of(entries, paths.drop_last());
        if found_at(entries, paths.last()) == Some(Found::Directory) {
            before.push(
                OutputTreeView {
                    path: join(paths.last()),
                    tree: flattened(directory_at(entries, paths.last())),
                    file_digests: file_digests_of(directory_at(entries, paths.last())),
                },
            )
        } else {
            before
        }
    }
}

/// Builds the output trees of the directories that `command` declares, in declared order.
/// A declared directory that is absent is skipped; the first one that leads to anything
/// but a directory is an error.
pub fn output_directory_trees(command: &Command, root_trie: &DirectoryTrie) -> (r: Result<
    Vec<OutputTree>,
    ManifestError,
>)
    ensures
        match first_wrong(
            root_trie.entries@,
            paths_of(command.output_directories@),
            OutputKind::Directory,
        ) {
            Some(i) => r is Err && r->Err_0.says(
                OutputKind::Directory,
                found_at(root_trie.entries@, command.output_directories@[i]@)->0,
                command.output_directories@[i]@,
                root_trie.digest,
            ),
            None => r is Ok && tree_views(r->Ok_0@) == trees_of(
                root_trie.entries@,
                paths_of(command.output_directories@),
            ),
        },
{
    let ghost entries = root_trie.entries@;
    let ghost paths = paths_of(command.output_directories@);
    let mut trees: Vec<OutputTree> = Vec::new();
    let mut i: usize = 0;
    assert(paths.take(0) =~= Seq::<Seq<Seq<char>>>::empty());
    assert(tree_views(trees@) =~= trees_of(entries, paths.take(0)));
    while i < command.output_directories.len()
        invariant
            entries == root_trie.entries@,
            paths == paths_of(command.output_directories@),
            i <= command.output_directories@.len(),
            first_wrong(entries, paths.take(i as int), OutputKind::Directory) is None,
            tree_views(trees@) == trees_of(entries, paths.take(i as int)),
        decreases command.output_directories@.len() - i,
    {
        proof {
            assert(paths.take(i + 1).drop_last() =~= paths.take(i as int));
            assert(paths.take(i + 1).last() == command.output_directories@[i as int]@);
        }
        let path = &command.output_directories[i];
        match make_tree_for_output_directory(root_trie, path) {
            Err(e) => {
                proof {
                    lemma_first_wrong_stays(entries, paths, OutputKind::Directory, i + 1);
                }
                return Err(e);
            },
            Ok(None) => {},
            Ok(Some((tree, file_digests))) => {
                let ghost before = trees@;
                trees.push(OutputTree { path: path.to_text(), tree, file_digests });
                assert(tree_views(trees@) =~= tree_views(before).push(trees@.last()@));
            },
        }
        i += 1;
    }
    assert(paths.take(paths.len() as int) =~= paths);
    Ok(trees)
}

/// An output tree that the store holds: its path, the digest under which the flattened
/// tree was stored, and the digests of the files in and below the directory.
#[derive(Clone, Debug, PartialEq, Eq)]
pub struct StoredTree {
    pub path: String,
    pub tree_digest: Digest,
    pub file_digests: Vec<Digest>,
}

/// The contents of an output file record.
pub struct OutputFileView {
    pub path: Seq<char>,
    pub digest: Option<Digest>,
    pub is_executable: bool,
}

impl View for OutputFile {
    type V = OutputFileView;

    open spec fn view(&self) -> OutputFileView {
        OutputFileView {
            path: self.path@,
            digest: self.digest,
            is_executable: self.is_executable,
        }
    }
}

/// The contents of an output directory record.
pub struct OutputDirectoryView {
    pub path: Seq<char>,
    pub tree_digest: Option<Digest>,
}

impl View for OutputDirectory {
    type V = OutputDirectoryView;

    open spec fn view(&self) -> OutputDirectoryView {
        OutputDirectoryView { path: self.path@, tree_digest: self.tree_digest }
    }
}

/// The contents of a manifest.
pub struct Manifest {
    pub exit_code: i32,
    pub stdout_digest: Option<Digest>,
    pub stderr_digest: Option<Digest>,
    pub execution_metadata: Option<ManifestMetadata>,
    pub output_files: Seq<OutputFileView>,
    pub output_directories: Seq<OutputDirectoryView>,
}

/// The contents of the file records, in order.
pub open spec fn file_views(files: Seq<OutputFile>) -> Seq<OutputFileView> {
    Seq::new(files.len(), |i: int| files[i]@)
}

/// The contents of the directory records, in order.
pub open spec fn directory_views(directories: Seq<OutputDirectory>) -> Seq<OutputDirectoryView> {
    Seq::new(directories.len(), |i: int| directories[i]@)
}

impl View for ResultManifest {
    type V = Manifest;

    open spec fn view(&self) -> Manifest {
        Manifest {
            exit_code: self.exit_code,
            stdout_digest: self.stdout_digest,
            stderr_digest: self.stderr_digest,
            execution_metadata: self.execution_metadata,
            output_files: file_views(self.output_files@),
            output_directories: directory_views(self.output_directories@),
        }
    }
}

/// The records of those of `paths` that lead to a file, in the order of `paths`.
pub open spec fn files_in(entries: Seq<Entry>, paths: Seq<Seq<Seq<char>>>) -> Seq<OutputFileView>
    decreases paths.len(),
{
    if paths.len() == 0 {
        Seq::empty()
    } else {
        let before = files_in(entries, paths.drop_last());
        if found_at(entries, paths.last()) == Some(Found::File) {
            before.push(
                OutputFileView {
                    path: join(paths.last()),
                    digest: Some(file_at(entries, paths.last()).0),
                    is_executable: file_at(entries, paths.last()).1,
                },
            )
        } else {
            before
        }
    }
}

/// The digests of those of `paths` that lead to a file, in the order of `paths`.
pub open spec fn file_digests_in(entries: Seq<Entry>, paths: Seq<Seq<Seq<char>>>) -> Seq<Digest>
    decreases paths.len(),
{
    if paths.len() == 0 {
        Seq::empty()
    } else {
        let before = file_digests_in(entries, paths.drop_last());
        if found_at(entries, paths.last()) == Some(Found::File) {
            before.push(file_at(entries, paths.last()).0)
        } else {
            before
        }
    }
}

/// The records of the stored trees, in order.
pub open spec fn directories_in(stored: Seq<StoredTree>) -> Seq<OutputDirectoryView> {
    Seq::new(
        stored.len(),
        |i: int| OutputDirectoryView { path: stored[i].path@, tree_digest: Some(stored[i].tree_digest) },
    )
}

/// For each stored tree in order: the digest of the tree, then the digests of its files.
pub open spec fn tree_digests_in(stored: Seq<StoredTree>) -> Seq<Digest>
    decreases stored.len(),
{
    if stored.len() == 0 {
        Seq::empty()
    } else {
        tree_digests_in(stored.drop_last()) + seq![stored.last().tree_digest]
            + stored.last().file_digests@
    }
}

/// The manifest for `result`, with the given output directories and the declared output
/// files that `entries` holds.
pub open spec fn manifest_of(
    result: ExecutionResult,
    stored: Seq<StoredTree>,
    entries: Seq<Entry>,
    file_paths: Seq<Seq<Seq<char>>>,
) -> Manifest {
    Manifest {
        exit_code: result.exit_code,
        stdout_digest: Some(result.stdout_digest),
        stderr_digest: Some(result.stderr_digest),
        execution_metadata: Some(
            ManifestMetadata { total_elapsed_nanos: result.metadata.total_elapsed_nanos },
        ),
        output_files: files_in(entries, file_paths),
        output_directories: directories_in(stored),
    }
}

/// Every digest that the manifest for `result` refers to, directly or through an output
/// tree, in the order in which the manifest is built: standard output and error, then
/// tree by tree, then file by file.
pub open spec fn referenced(
    result: ExecutionResult,
    stored: Seq<StoredTree>,
    entries: Seq<Entry>,
    file_paths: Seq<Seq<Seq<char>>>,
) -> Seq<Digest> {
    seq![result.stdout_digest, result.stderr_digest] + tree_digests_in(stored) + file_digests_in(
        entries,
        file_paths,
    )
}

/// Builds the manifest for `result` and the closure of digests it refers to: every digest
/// once, in order of first reference. The output directories are those of `stored`, in
/// order; the output files are the declared ones that the trie holds, in declared
/// order. A declared file that is absent is skipped; the first one that leads to anything
/// but a file is an error.
pub fn make_action_result(
    command: &Command,
    result: &ExecutionResult,
    root_trie: &DirectoryTrie,
    stored: &Vec<StoredTree>,
) -> (r: Result<(ResultManifest, Vec<Digest>), ManifestError>)
    ensures
        match first_wrong(root_trie.entries@, paths_of(command.output_files@), OutputKind::File) {
            Some(i) => r is Err && r->Err_0.says(
                OutputKind::File,
                found_at(root_trie.entries@, command.output_files@[i]@)->0,
                command.output_files@[i]@,
                root_trie.digest,
            ),
            None => {
                &&& r matches Ok(built)
                &&& built.0@ == manifest_of(
                    *result,
                    stored@,
                    root_trie.entries@,
                    paths_of(command.output_files@),
                )
                &&& built.1@ == unique(
                    referenced(
                        *result,
                        stored@,
                        root_trie.entries@,
                        paths_of(command.output_files@),
                    ),
                )
            },
        },
{
    let ghost entries = root_trie.entries@;
    let ghost paths = paths_of(command.output_files@);
    let ghost streams = seq![result.stdout_digest, result.stderr_digest];
    let mut digests: Vec<Digest> = Vec::new();
    insert(&mut digests, result.stdout_digest);
    insert(&mut digests, result.stderr_digest);
    proof {
        lemma_absorb_concat(
            Seq::empty(),
            seq![result.stdout_digest],
            seq![result.stderr_digest],
        );
        assert(seq![result.stdout_digest] + seq![result.stderr_digest] =~= streams);
    }
    let mut output_directories: Vec<OutputDirectory> = Vec::new();
    let mut i: usize = 0;
    assert(stored@.take(0) =~= Seq::<StoredTree>::empty());
    assert(streams + tree_digests_in(stored@.take(0)) =~= streams);
    assert(directory_views(output_directories@) =~= directories_in(stored@.take(0)));
    while i < stored.len()
        invariant
            i <= stored@.len(),
            digests@ == unique(streams + tree_digests_in(stored@.take(i as int))),
            directory_views(output_directories@) == directories_in(stored@.take(i as int)),
        decreases stored@.len() - i,
    {
        let ghost before = streams + tree_digests_in(stored@.take(i as int));
        let ghost listed = output_directories@;
        proof {
            assert(stored@.take(i + 1).drop_last() =~= stored@.take(i as int));
            assert(stored@.take(i + 1).last() == stored@[i as int]);
            lemma_absorb_concat(Seq::empty(), before, seq![stored@[i as int].tree_digest]);
            lemma_absorb_concat(
                Seq::empty(),
                before + seq![stored@[i as int].tree_digest],
                stored@[i as int].file_digests@,
            );
            assert(before + seq![stored@[i as int].tree_digest] + stored@[i as int].file_digests@
                =~= streams + tree_digests_in(stored@.take(i + 1)));
        }
        let tree = &stored[i];
        insert(&mut digests, tree.tree_digest);
        extend(&mut digests, &tree.file_digests);
        output_directories.push(
            OutputDirectory { path: tree.path.clone(), tree_digest: Some(tree.tree_digest) },
        );
        proof {
            let grown = directory_views(listed).push(output_directories@.last()@);
            assert(directory_views(output_directories@) =~= grown);
            assert(directories_in(stored@.take(i + 1)) =~= directories_in(
                stored@.take(i as int),
            ).push(output_directories@.last()@));
        }
        i += 1;
    }
    assert(stored@.take(stored@.len() as int) =~= stored@);
    let ghost upper = streams + tree_digests_in(stored@);
    let mut output_files: Vec<OutputFile> = Vec::new();
    let mut k: usize = 0;
    assert(paths.take(0) =~= Seq::<Seq<Seq<char>>>::empty());
    assert(upper + file_digests_in(entries, paths.take(0)) =~= upper);
    assert(file_views(output_files@) =~= files_in(entries, paths.take(0)));
    while k < command.output_files.len()
        invariant
            entries == root_trie.entries@,
            paths == paths_of(command.output_files@),
            k <= command.output_files@.len(),
            first_wrong(entries, paths.take(k as int), OutputKind::File) is None,
            digests@ == unique(upper + file_digests_in(entries, paths.take(k as int))),
            file_views(output_files@) == files_in(entries, paths.take(k as int)),
        decreases command.output_files@.len() - k,
    {
        proof {
            assert(paths.take(k + 1).drop_last() =~= paths.take(k as int));
            assert(paths.take(k + 1).last() == command.output_files@[k as int]@);
        }
        match extract_output_file(root_trie, &command.output_files[k]) {
            Err(e) => {
                proof {
                    lemma_first_wrong_stays(entries, paths, OutputKind::File, k + 1);
                }
                return Err(e);
            },
            Ok(None) => {},
            Ok(Some(file)) => {
                let ghost before = upper + file_digests_in(entries, paths.take(k as int));
                let ghost listed = output_files@;
                match file.digest {
                    Some(digest) => {
                        proof {
                            lemma_absorb_concat(Seq::empty(), before, seq![digest]);
                            assert(before + seq![digest] =~= upper + file_digests_in(
                                entries,
                                paths.take(k + 1),
                            ));
                        }
                        insert(&mut digests, digest);
                    },
                    None => {},
                }
                output_files.push(file);
                assert(file_views(output_files@) =~= file_views(listed).push(file@));
            },
        }
        k += 1;
    }
    assert(paths.take(paths.len() as int) =~= paths);
    let manifest = ResultManifest {
        exit_code: result.exit_code,
        stdout_digest: Some(result.stdout_digest),
        stderr_digest: Some(result.stderr_digest),
        execution_metadata: Some(
            ManifestMetadata { total_elapsed_nanos: result.metadata.total_elapsed_nanos },
        ),
        output_files,
        output_directories,
    };
    Ok((manifest, digests))
}

/// A digest that a manifest should hold and does not.
#[derive(Clone, Copy, Debug, PartialEq, Eq, Structural)]
pub enum MissingDigest {
    Stdout,
    Stderr,
    /// The output file at this position.
    OutputFile(usize),
    /// The output directory at this position.
    OutputDirectory(usize),
}

/// The position of the first output file without a digest.
pub open spec fn first_file_without_digest(files: Seq<OutputFileView>) -> Option<int>
    decreases files.len(),
{
    if files.len() == 0 {
        None
    } else {
        match first_file_without_digest(files.drop_last()) {
            Some(i) => Some(i),
            None => if files.last().digest is None {
                Some(files.len() - 1)
            } else {
                None
            },
        }
    }
}

/// The position of the first output directory without a tree digest.
pub open spec fn first_directory_without_digest(directories: Seq<OutputDirectoryView>) -> Option<
    int,
>
    decreases directories.len(),
{
    if directories.len() == 0 {
        None
    } else {
        match first_directory_without_digest(directories.drop_last()) {
            Some(i) => Some(i),
            None => if directories.last().tree_digest is None {
                Some(directories.len() - 1)
            } else {
                None
            },
        }
    }
}

/// The first digest that `manifest` lacks: standard output, standard error, the output
/// files in order, then the output directories in order.
pub open spec fn first_missing(manifest: Manifest) -> Option<MissingDigest> {
    if manifest.stdout_digest is None {
        Some(MissingDigest::Stdout)
    } else if manifest.stderr_digest is None {
        Some(MissingDigest::Stderr)
    } else {
        match first_file_without_digest(manifest.output_files) {
            Some(i) => Some(MissingDigest::OutputFile(i as usize)),
            None => match first_directory_without_digest(manifest.output_directories) {
                Some(i) => Some(MissingDigest::OutputDirectory(i as usize)),
                None => None,
            },
        }
    }
}

/// The result that `manifest` stands for, as a hit in the remote cache: nothing where the
/// manifest lacks a digest.
pub open spec fn reified(manifest: Manifest, output_directory: Digest, platform: Platform)
    -> Result<ExecutionResult, MissingDigest> {
    match first_missing(manifest) {
        Some(missing) => Err(missing),
        None => Ok(
            ExecutionResult {
                exit_code: manifest.exit_code,
                stdout_digest: manifest.stdout_digest->0,
                stderr_digest: manifest.stderr_digest->0,
                output_directory,
                metadata: ExecutionMetadata {
                    total_elapsed_nanos: match manifest.execution_metadata {
                        Some(metadata) => metadata.total_elapsed_nanos,
                        None => None,
                    },
                    platform,
                    source: ResultSource::HitRemotely,
                },
            },
        ),
    }
}

proof fn lemma_file_without_digest_stays(files: Seq<OutputFileView>, k: int)
    requires
        0 <= k <= files.len(),
        first_file_without_digest(files.take(k)) is Some,
    ensures
        first_file_without_digest(files) == first_file_without_digest(files.take(k)),
    decreases files.len() - k,
{
    if k == files.len() {
        assert(files.take(k) =~= files);
    } else {
        assert(files.take(k + 1).drop_last() =~= files.take(k));
        lemma_file_without_digest_stays(files, k + 1);
    }
}

proof fn lemma_directory_without_digest_stays(directories: Seq<OutputDirectoryView>, k: int)
    requires
        0 <= k <= directories.len(),
        first_directory_without_digest(directories.take(k)) is Some,
    ensures
        first_directory_without_digest(directories) == first_directory_without_digest(
            directories.take(k),
        ),
    decreases directories.len() - k,
{
    if k == directories.len() {
        assert(directories.take(k) =~= directories);
    } else {
        assert(directories.take(k + 1).drop_last() =~= directories.take(k));
        lemma_directory_without_digest_stays(directories, k + 1);
    }
}

impl ResultManifest {
    /// The first digest that the manifest lacks, if it lacks one.
    pub fn missing_digest(&self) -> (missing: Option<MissingDigest>)
        ensures
            missing == first_missing(self@),
    {
        if self.stdout_digest.is_none() {
            return Some(MissingDigest::Stdout);
        }
        if self.stderr_digest.is_none() {
            return Some(MissingDigest::Stderr);
        }
        let ghost files = file_views(self.output_files@);
        let mut i: usize = 0;
        assert(files.take(0) =~= Seq::<OutputFileView>::empty());
        while i < self.output_files.len()
            invariant
                files == file_views(self.output_files@),
                self.stdout_digest is Some,
                self.stderr_digest is Some,
                i <= self.output_files@.len(),
                first_file_without_digest(files.take(i as int)) is None,
            decreases self.output_files@.len() - i,
        {
            proof {
                assert(files.take(i + 1).drop_last() =~= files.take(i as int));
                assert(files.take(i + 1).last() == self.output_files@[i as int]@);
            }
            if self.output_files[i].digest.is_none() {
                proof {
                    lemma_file_without_digest_stays(files, i + 1);
                }
                return Some(MissingDigest::OutputFile(i));
            }
            i += 1;
        }
        assert(files.take(files.len() as int) =~= files);
        let ghost directories = directory_views(self.output_directories@);
        let mut k: usize = 0;
        assert(directories.take(0) =~= Seq::<OutputDirectoryView>::empty());
        while k < self.output_directories.len()
            invariant
                directories == directory_views(self.output_directories@),
                self.stdout_digest is Some,
                self.stderr_digest is Some,
                first_file_without_digest(file_views(self.output_files@)) is None,
                k <= self.output_directories@.len(),
                first_directory_without_digest(directories.take(k as int)) is None,
            decreases self.output_directories@.len() - k,
        {
            proof {
                assert(directories.take(k + 1).drop_last() =~= directories.take(k as int));
                assert(directories.take(k + 1).last() == self.output_directories@[k as int]@);
            }
            if self.output_directories[k].tree_digest.is_none() {
                proof {
                    lemma_directory_without_digest_stays(directories, k + 1);
                }
                return Some(MissingDigest::OutputDirectory(k));
            }
            k += 1;
        }
        assert(directories.take(directories.len() as int) =~= directories);
        None
    }

    /// Turns the manifest into the result it stands for, tagged as a hit in the remote
    /// cache. `output_directory` is the root digest of the trie that holds the manifest's
    /// outputs.
    pub fn reify(&self, output_directory: Digest, platform: Platform) -> (r: Result<
        ExecutionResult,
        MissingDigest,
    >)
        ensures
            r == reified(self@, output_directory, platform),
    {
        match self.missing_digest() {
            Some(missing) => Err(missing),
            None => {
                let total_elapsed_nanos = match self.execution_metadata {
                    Some(metadata) => metadata.total_elapsed_nanos,
                    None => None,
                };
                match (self.stdout_digest, self.stderr_digest) {
                    (Some(stdout_digest), Some(stderr_digest)) => Ok(
                        ExecutionResult {
                            exit_code: self.exit_code,
                            stdout_digest,
                            stderr_digest,
                            output_directory,
                            metadata: ExecutionMetadata {
                                total_elapsed_nanos,
                                platform,
                                source: ResultSource::HitRemotely,
                            },
                        },
                    ),
                    (None, _) => Err(MissingDigest::Stdout),
                    (_, None) => Err(MissingDigest::Stderr),
                }
            },
        }
    }
}

/// The manifest refers to `digest` directly: as its standard output or error, as an
/// output file, or as the tree of an output directory.
pub open spec fn refers_to(manifest: Manifest, digest: Digest) -> bool {
    ||| manifest.stdout_digest == Some(digest)
    ||| manifest.stderr_digest == Some(digest)
    ||| exists|i: int|
        0 <= i < manifest.output_files.len() && (#[trigger] manifest.output_files[i]).digest
            == Some(digest)
    ||| exists|i: int|
        0 <= i < manifest.output_directories.len() && (
        #[trigger] manifest.output_directories[i]).tree_digest == Some(digest)
}

proof fn lemma_files_in(entries: Seq<Entry>, paths: Seq<Seq<Seq<char>>>)
    ensures
        files_in(entries, paths).len() == file_digests_in(entries, paths).len(),
        forall|i: int|
            0 <= i < files_in(entries, paths).len() ==> (#[trigger] files_in(
                entries,
                paths,
            )[i]).digest == Some(file_digests_in(entries, paths)[i]),
        first_file_without_digest(files_in(entries, paths)) is None,
    decreases paths.len(),
{
    if paths.len() > 0 {
        lemma_files_in(entries, paths.drop_last());
        let before = files_in(entries, paths.drop_last());
        if found_at(entries, paths.last()) == Some(Found::File) {
            assert(files_in(entries, paths).drop_last() =~= before);
        }
    }
}

proof fn lemma_directories_in(stored: Seq<StoredTree>, k: int)
    requires
        0 <= k <= stored.len(),
    ensures
        first_directory_without_digest(directories_in(stored).take(k)) is None,
    decreases k,
{
    if k > 0 {
        lemma_directories_in(stored, k - 1);
        assert(directories_in(stored).take(k).drop_last() =~= directories_in(stored).take(k - 1));
    }
}

proof fn lemma_tree_digests_in(stored: Seq<StoredTree>, i: int, d: Digest)
    requires
        0 <= i < stored.len(),
        stored[i].tree_digest == d || stored[i].file_digests@.contains(d),
    ensures
        tree_digests_in(stored).contains(d),
    decreases stored.len(),
{
    let before = tree_digests_in(stored.drop_last());
    let own = seq![stored.last().tree_digest];
    let files = stored.last().file_digests@;
    lemma_concat_contains(before + own, files, d);
    lemma_concat_contains(before, own, d);
    if i < stored.len() - 1 {
        lemma_tree_digests_in(stored.drop_last(), i, d);
    } else if stored[i].tree_digest == d {
        assert(own[0] == d);
    }
}

/// A manifest built for a result lacks no digest, and turning it back into a result
/// yields the result it was built for, tagged as a hit in the remote cache.
pub proof fn law_manifest_round_trip(
    result: ExecutionResult,
    stored: Seq<StoredTree>,
    entries: Seq<Entry>,
    file_paths: Seq<Seq<Seq<char>>>,
)
    ensures
        reified(
            manifest_of(result, stored, entries, file_paths),
            result.output_directory,
            result.metadata.platform,
        ) == Ok::<ExecutionResult, MissingDigest>(result.with_source(ResultSource::HitRemotely)),
{
    lemma_files_in(entries, file_paths);
    lemma_directories_in(stored, stored.len() as int);
    assert(directories_in(stored).take(stored.len() as int) =~= directories_in(stored));
}

/// The closure built with a manifest holds every digest once, and holds exactly what the
/// manifest refers to and what its output trees hold: the digest of every file in and
/// below every output directory.
pub proof fn law_closure_complete(
    result: ExecutionResult,
    stored: Seq<StoredTree>,
    entries: Seq<Entry>,
    file_paths: Seq<Seq<Seq<char>>>,
)
    ensures
        ({
            let manifest = manifest_of(result, stored, entries, file_paths);
            let closure = unique(referenced(result, stored, entries, file_paths));
            &&& closure.no_duplicates()
            &&& forall|d: Digest| refers_to(manifest, d) ==> closure.contains(d)
            &&& forall|i: int, d: Digest|
                0 <= i < stored.len() && #[trigger] stored[i].file_digests@.contains(d)
                    ==> closure.contains(d)
            &&& forall|d: Digest| #[trigger]
                closure.contains(d) ==> refers_to(manifest, d) || exists|i: int|
                    0 <= i < stored.len() && (#[trigger] stored[i]).file_digests@.contains(d)
        }),
{
    let manifest = manifest_of(result, stored, entries, file_paths);
    let streams = seq![result.stdout_digest, result.stderr_digest];
    let trees = tree_digests_in(stored);
    let files = file_digests_in(entries, file_paths);
    let all = referenced(result, stored, entries, file_paths);
    let closure = unique(all);
    lemma_unique_contents(all);
    lemma_files_in(entries, file_paths);
    assert forall|d: Digest| all.contains(d) <==> streams.contains(d) || trees.contains(d)
        || files.contains(d) by {
        lemma_concat_contains(streams + trees, files, d);
        lemma_concat_contains(streams, trees, d);
    }
    assert forall|d: Digest| refers_to(manifest, d) implies closure.contains(d) by {
        if manifest.stdout_digest == Some(d) {
            assert(streams[0] == d);
        } else if manifest.stderr_digest == Some(d) {
            assert(streams[1] == d);
        } else if exists|i: int|
            0 <= i < manifest.output_files.len() && (#[trigger] manifest.output_files[i]).digest
                == Some(d) {
            let i = choose|i: int|
                0 <= i < manifest.output_files.len() && (
                #[trigger] manifest.output_files[i]).digest == Some(d);
            assert(files[i] == d);
        } else {
            let i = choose|i: int|
                0 <= i < manifest.output_directories.len() && (
                #[trigger] manifest.output_directories[i]).tree_digest == Some(d);
            lemma_tree_digests_in(stored, i, d);
        }
    }
    assert forall|i: int, d: Digest|
        0 <= i < stored.len() && #[trigger] stored[i].file_digests@.contains(
            d,
        ) implies closure.contains(d) by {
        lemma_tree_digests_in(stored, i, d);
    }
    assert forall|d: Digest| #[trigger] closure.contains(d) implies refers_to(manifest, d)
        || exists|i: int|
        0 <= i < stored.len() && (#[trigger] stored[i]).file_digests@.contains(d) by {
        if streams.contains(d) {
            let i = choose|i: int| 0 <= i < streams.len() && streams[i] == d;
            assert(i == 0 || i == 1);
        } else if files.contains(d) {
            let i = choose|i: int| 0 <= i < files.len() && files[i] == d;
            assert(manifest.output_files[i].digest == Some(d));
        } else {
            lemma_tree_digests_source(stored, d);
            if exists|i: int| 0 <= i < stored.len() && (#[trigger] stored[i]).tree_digest == d {
                let i = choose|i: int|
                    0 <= i < stored.len() && (#[trigger] stored[i]).tree_digest == d;
                assert(manifest.output_directories[i].tree_digest == Some(d));
            }
        }
    }
}

proof fn lemma_tree_digests_source(stored: Seq<StoredTree>, d: Digest)
    requires
        tree_digests_in(stored).contains(d),
    ensures
        (exists|i: int| 0 <= i < stored.len() && (#[trigger] stored[i]).tree_digest == d) || (
        exists|i: int| 0 <= i < stored.len() && (#[trigger] stored[i]).file_digests@.contains(d)),
    decreases stored.len(),
{
    if stored.len() > 0 {
        let before = tree_digests_in(stored.drop_last());
        let own = seq![stored.last().tree_digest];
        let files = stored.last().file_digests@;
        lemma_concat_contains(before + own, files, d);
        lemma_concat_contains(before, own, d);
        let last = stored.len() - 1;
        if files.contains(d) {
            assert(stored[last].file_digests@.contains(d));
        } else if own.contains(d) {
            assert(stored[last].tree_digest == d);
        } else {
            lemma_tree_digests_source(stored.drop_last(), d);
            if exists|i: int|
                0 <= i < stored.drop_last().len() && (#[trigger] stored.drop_last()[i]).tree_digest
                    == d {
                let i = choose|i: int|
                    0 <= i < stored.drop_last().len() && (
                    #[trigger] stored.drop_last()[i]).tree_digest == d;
                assert(stored[i].tree_digest == d);
            } else {
                let i = choose|i: int|
                    0 <= i < stored.drop_last().len() && (
                    #[trigger] stored.drop_last()[i]).file_digests@.contains(d);
                assert(stored[i].file_digests@.contains(d));
            }
        }
    }
}

} // verus!
