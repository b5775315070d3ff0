//! Packaging a project tree into an archive, and unpacking one.
//!
//! Nothing here touches the file system. The functions lay out the cache,
//! choose the files that an archive carries and the names under which it
//! stores them, and describe what is to be unpacked where. The caller walks
//! the tree, reads the clock, and writes and reads the files.

pub mod exclusion;
pub mod file_handler_error;

pub use crate::file_handler::file_handler_error::FileHandlerError;

use vstd::prelude::*;
use crate::file_handler::exclusion::{kept_paths, patterns_compile, texts, Exclusions};
use crate::paths::{file_name, is_absolute, join, join_path, path_file_name, path_is_absolute};
use crate::text::{decimal, lemma_decimal_digits, lemma_decimal_injective, to_decimal};

verus! {

/// The name of the cache directory below the platform's cache root.
pub open spec fn cache_name() -> Seq<char> {
    seq!['r', 'r', 'c']
}

/// The extension of an archive file, with its dot.
pub open spec fn archive_extension() -> Seq<char> {
    seq!['.', 'r', 'r', 'c']
}

/// The directory under which archives are re-rooted.
pub open spec fn synthetic_root() -> Seq<char> {
    seq!['.', '/']
}

/// The cache directory below `cache_root`.
pub open spec fn cache_dir(cache_root: Seq<char>) -> Seq<char> {
    join(cache_root, cache_name())
}

/// The archive file that is created at `timestamp`.
pub open spec fn archive_file(cache_root: Seq<char>, timestamp: nat) -> Seq<char> {
    join(cache_dir(cache_root), decimal(timestamp) + archive_extension())
}

/// The build directory of the job that is created at `timestamp`.
pub open spec fn build_dir(cache_root: Seq<char>, timestamp: nat) -> Seq<char> {
    join(cache_dir(cache_root), decimal(timestamp))
}

/// Whether every path of `files` is absolute. This holds of no paths at all.
pub open spec fn all_absolute(files: Seq<Seq<char>>) -> bool {
    forall|i: int| 0 <= i < files.len() ==> is_absolute(#[trigger] files[i])
}

/// The name under which an archive stores `file`: the file's final component
/// below the synthetic root where the archive is re-rooted, the path as it
/// is given otherwise. A path without a final component cannot be re-rooted.
pub open spec fn stored_name(file: Seq<char>, rerooted: bool) -> Option<Seq<char>> {
    if rerooted {
        match file_name(file) {
            Some(name) => Some(join(synthetic_root(), name)),
            None => None,
        }
    } else {
        Some(file)
    }
}

/// Whether `files[index]` is the first path of `files` that cannot be
/// re-rooted.
pub open spec fn first_unnamed(files: Seq<Seq<char>>, index: int) -> bool {
    &&& 0 <= index < files.len()
    &&& file_name(files[index]) is None
    &&& forall|j: int| 0 <= j < index ==> (#[trigger] file_name(files[j])) is Some
}

/// Whether every path of `files` can be stored in an archive.
pub open spec fn can_store(files: Seq<Seq<char>>) -> bool {
    all_absolute(files) ==> forall|i: int|
        0 <= i < files.len() ==> (#[trigger] file_name(files[i])) is Some
}

/// One file of an archive: where its contents are read, and the name under
/// which the archive stores them.
#[derive(Debug)]
pub struct ArchiveEntry {
    pub source: String,
    pub name: String,
}

/// An archive that is to be written: the file in the cache that receives
/// it, the millisecond at which it is created, which names the file, and its
/// entries in the order in which they are appended.
#[derive(Debug)]
pub struct ProjectFile {
    pub path: String,
    pub created: u128,
    pub entries: Vec<ArchiveEntry>,
}

/// An archive that is to be unpacked, and the directory that receives its
/// files.
#[derive(Debug)]
pub struct Unpack {
    pub archive: Vec<u8>,
    pub dest: String,
}

/// Whether `entries` store `files`, one entry for each file and in the same
/// order, re-rooted exactly when all of the files are given by absolute
/// paths.
pub open spec fn entries_store(entries: Seq<ArchiveEntry>, files: Seq<Seq<char>>) -> bool {
    &&& entries.len() == files.len()
    &&& forall|i: int|
        0 <= i < files.len() ==> (#[trigger] entries[i]).source@ == files[i] && Some(
            entries[i].name@,
        ) == stored_name(files[i], all_absolute(files))
}

/// Appending different texts to one text gives different texts.
proof fn lemma_same_prefix(prefix: Seq<char>, first: Seq<char>, second: Seq<char>)
    requires
        prefix + first == prefix + second,
    ensures
        first == second,
{
    let a = prefix + first;
    let b = prefix + second;
    assert(first =~= a.subrange(prefix.len() as int, a.len() as int));
    assert(second =~= b.subrange(prefix.len() as int, b.len() as int));
}

/// Joining a name that is not absolute appends it to a text that depends on
/// the base alone.
proof fn lemma_join_appends(base: Seq<char>, name: Seq<char>)
    requires
        !is_absolute(name),
    ensures
        join(base, name) == join(base, Seq::empty()) + name,
{
    assert(join(base, name) =~= join(base, Seq::empty()) + name);
}

/// A numeral is not an absolute path, and neither is a numeral with an
/// extension.
proof fn lemma_decimal_relative(timestamp: nat, extension: Seq<char>)
    ensures
        !is_absolute(decimal(timestamp) + extension),
{
    lemma_decimal_digits(timestamp);
    let numeral = decimal(timestamp);
    assert(crate::text::is_digit(numeral[0]));
    assert((numeral + extension)[0] == numeral[0]);
}

/// Job isolation: jobs that are created at different milliseconds unpack and
/// build in different directories.
pub proof fn lemma_build_dirs_distinct(cache_root: Seq<char>, first: nat, second: nat)
    requires
        first != second,
    ensures
        build_dir(cache_root, first) != build_dir(cache_root, second),
{
    let dir = cache_dir(cache_root);
    lemma_decimal_relative(first, Seq::empty());
    lemma_decimal_relative(second, Seq::empty());
    assert(decimal(first) + Seq::<char>::empty() =~= decimal(first));
    assert(decimal(second) + Seq::<char>::empty() =~= decimal(second));
    lemma_join_appends(dir, decimal(first));
    lemma_join_appends(dir, decimal(second));
    if build_dir(cache_root, first) == build_dir(cache_root, second) {
        lemma_same_prefix(join(dir, Seq::empty()), decimal(first), decimal(second));
        lemma_decimal_injective(first, second);
    }
}

/// Archives that are created at different milliseconds are written to
/// different files.
pub proof fn lemma_archive_files_distinct(cache_root: Seq<char>, first: nat, second: nat)
    requires
        first != second,
    ensures
        archive_file(cache_root, first) != archive_file(cache_root, second),
{
    let dir = cache_dir(cache_root);
    let a = decimal(first) + archive_extension();
    let b = decimal(second) + archive_extension();
    lemma_decimal_relative(first, archive_extension());
    lemma_decimal_relative(second, archive_extension());
    lemma_join_appends(dir, a);
    lemma_join_appends(dir, b);
    if archive_file(cache_root, first) == archive_file(cache_root, second) {
        lemma_same_prefix(join(dir, Seq::empty()), a, b);
        assert(decimal(first) =~= a.subrange(0, a.len() - 4));
        assert(decimal(second) =~= b.subrange(0, b.len() - 4));
        lemma_decimal_injective(first, second);
    }
}

/// No build directory is an archive file, whenever the two were created.
pub proof fn lemma_build_dir_is_no_archive(cache_root: Seq<char>, job: nat, archive: nat)
    ensures
        build_dir(cache_root, job) != archive_file(cache_root, archive),
{
    let dir = cache_dir(cache_root);
    let name = decimal(archive) + archive_extension();
    lemma_decimal_relative(job, Seq::empty());
    assert(decimal(job) + Seq::<char>::empty() =~= decimal(job));
    lemma_decimal_relative(archive, archive_extension());
    lemma_join_appends(dir, decimal(job));
    lemma_join_appends(dir, name);
    lemma_decimal_digits(job);
    assert(crate::text::is_digit(decimal(job).last()));
    assert(build_dir(cache_root, job).last() == decimal(job).last());
    assert(archive_file(cache_root, archive).last() == name.last());
    assert(name.last() == 'c');
}

/// The cache directory below the platform's cache root.
pub fn get_cache_dir(cache_root: &str) -> (r: String)
    ensures
        r@ == cache_dir(cache_root@),
{
    proof {
        reveal_strlit("rrc");
    }
    assert("rrc"@ =~= cache_name());
    join_path(cache_root, "rrc")
}

/// The path of the archive file that is created at `timestamp`.
pub fn archive_file_path(cache_root: &str, timestamp: u128) -> (r: String)
    ensures
        r@ == archive_file(cache_root@, timestamp as nat),
{
    let dir = get_cache_dir(cache_root);
    let mut name = to_decimal(timestamp);
    proof {
        reveal_strlit(".rrc");
    }
    assert(".rrc"@ =~= archive_extension());
    name.append(".rrc");
    join_path(dir.as_str(), name.as_str())
}

/// The path of the build directory of the job that is created at
/// `timestamp`.
pub fn build_dir_path(cache_root: &str, timestamp: u128) -> (r: String)
    ensures
        r@ == build_dir(cache_root@, timestamp as nat),
{
    let dir = get_cache_dir(cache_root);
    let name = to_decimal(timestamp);
    join_path(dir.as_str(), name.as_str())
}

/// Drops the paths that match at least one of the exclusion patterns and
/// keeps the others in their order. Fails exactly when the patterns do not
/// compile.
pub fn filter_paths(paths: Vec<String>, exclusions: &Vec<String>) -> (r: Result<
    Vec<String>,
    FileHandlerError,
>)
    ensures
        match r {
            Ok(kept) => patterns_compile(texts(exclusions@)) && texts(kept@) == kept_paths(
                texts(paths@),
                texts(exclusions@),
            ),
            Err(e) => !patterns_compile(texts(exclusions@)) && e is Regex,
        },
{
    match Exclusions::new(exclusions) {
        Ok(rules) => Ok(rules.filter(&paths)),
        Err(e) => Err(e),
    }
}

/// Whether every path of `files` is absolute.
fn every_path_absolute(files: &Vec<String>) -> (r: bool)
    ensures
        r == all_absolute(texts(files@)),
{
    let mut i: usize = 0;
    while i < files.len()
        invariant
            i <= files.len(),
            forall|j: int| 0 <= j < i ==> is_absolute(#[trigger] texts(files@)[j]),
        decreases files.len() - i,
    {
        if !path_is_absolute(files[i].as_str()) {
            assert(!is_absolute(texts(files@)[i as int]));
            return false;
        }
        i = i + 1;
    }
    true
}

/// Decides under which name an archive stores each of `files`. Where every
/// path is absolute the entries are re-rooted: each is stored under its final
/// component below `./`, so that the archive does not carry the layout of the
/// machine it was made on. Otherwise each path is stored as it is given.
///
/// Fails, with the first offending path, exactly when the entries are
/// re-rooted and a path has no final component.
pub fn archive_entries(files: &Vec<String>) -> (r: Result<
    Vec<ArchiveEntry>,
    FileHandlerError,
>)
    ensures
        match r {
            Ok(entries) => can_store(texts(files@)) && entries_store(entries@, texts(files@)),
            Err(e) => all_absolute(texts(files@)) && exists|i: int|
                first_unnamed(texts(files@), i) && e == FileHandlerError::Unnamed(
                    #[trigger] files@[i],
                ),
        },
{
    let ghost all = texts(files@);
    let rerooted = every_path_absolute(files);
    let mut entries: Vec<ArchiveEntry> = Vec::new();
    let mut i: usize = 0;
    while i < files.len()
        invariant
            i <= files.len(),
            all == texts(files@),
            rerooted == all_absolute(all),
            entries@.len() == i,
            forall|j: int|
                0 <= j < i ==> (#[trigger] entries@[j]).source@ == all[j] && Some(
                    entries@[j].name@,
                ) == stored_name(all[j], rerooted),
            rerooted ==> forall|j: int| 0 <= j < i ==> (#[trigger] file_name(all[j])) is Some,
        decreases files.len() - i,
    {
        let file = &files[i];
        assert(file@ == all[i as int]);
        let name = if rerooted {
            match path_file_name(file.as_str()) {
                Some(last) => {
                    proof {
                        reveal_strlit("./");
                    }
                    assert("./"@ =~= synthetic_root());
                    join_path("./", last.as_str())
                },
                None => {
                    assert(first_unnamed(all, i as int));
                    return Err(FileHandlerError::Unnamed(file.clone()));
                },
            }
        } else {
            file.clone()
        };
        entries.push(ArchiveEntry { source: file.clone(), name });
        i = i + 1;
    }
    Ok(entries)
}

/// Plans the archive of a project: the file in the cache that receives it,
/// named by `timestamp`, and the entries for those of `files` that no
/// exclusion pattern matches.
///
/// Fails with `Regex` exactly when the patterns do not compile, and with
/// `Unnamed` exactly when they compile and one of the files that are kept
/// cannot be stored; the error then names the first such file.
pub fn get_project_file(
    cache_root: &str,
    timestamp: u128,
    files: Vec<String>,
    exclusions: &Vec<String>,
) -> (r: Result<ProjectFile, FileHandlerError>)
    ensures
        match r {
            Ok(project) => {
                &&& patterns_compile(texts(exclusions@))
                &&& can_store(kept_paths(texts(files@), texts(exclusions@)))
                &&& project.path@ == archive_file(cache_root@, timestamp as nat)
                &&& project.created == timestamp
                &&& entries_store(
                    project.entries@,
                    kept_paths(texts(files@), texts(exclusions@)),
                )
            },
            Err(FileHandlerError::Regex(_)) => !patterns_compile(texts(exclusions@)),
            Err(FileHandlerError::Unnamed(path)) => {
                &&& patterns_compile(texts(exclusions@))
                &&& all_absolute(kept_paths(texts(files@), texts(exclusions@)))
                &&& exists|i: int|
                    first_unnamed(kept_paths(texts(files@), texts(exclusions@)), i) && path@
                        == #[trigger] kept_paths(texts(files@), texts(exclusions@))[i]
            },
            Err(_) => false,
        },
{
    let path = archive_file_path(cache_root, timestamp);
    let kept = match filter_paths(files, exclusions) {
        Ok(kept) => kept,
        Err(e) => {
            return Err(e);
        },
    };
    match archive_entries(&kept) {
        Ok(entries) => Ok(ProjectFile { path, created: timestamp, entries }),
        Err(e) => Err(e),
    }
}

/// Plans the archive that carries the produced binaries back: the file in
/// the cache that receives it, named by `timestamp`, and one entry for each
/// of `executables`.
///
/// Fails with `Unnamed` exactly when one of the executables cannot be
/// stored; the error then names the first such executable.
pub fn create_return_file(cache_root: &str, timestamp: u128, executables: Vec<String>) -> (r:
    Result<ProjectFile, FileHandlerError>)
    ensures
        match r {
            Ok(project) => {
                &&& can_store(texts(executables@))
                &&& project.path@ == archive_file(cache_root@, timestamp as nat)
                &&& project.created == timestamp
                &&& entries_store(project.entries@, texts(executables@))
            },
            Err(FileHandlerError::Unnamed(path)) => {
                &&& all_absolute(texts(executables@))
                &&& exists|i: int|
                    first_unnamed(texts(executables@), i) && path == #[trigger] executables@[i]
            },
            Err(_) => false,
        },
{
    let path = archive_file_path(cache_root, timestamp);
    match archive_entries(&executables) {
        Ok(entries) => Ok(ProjectFile { path, created: timestamp, entries }),
        Err(e) => Err(e),
    }
}

/// Describes the unpacking of an inbound project archive: it goes to the
/// build directory of the job that is created at `timestamp`.
pub fn process(cache_root: &str, timestamp: u128, source: Vec<u8>) -> (r: Unpack)
    ensures
        r.archive@ == source@,
        r.dest@ == build_dir(cache_root@, timestamp as nat),
{
    Unpack { archive: source, dest: build_dir_path(cache_root, timestamp) }
}

/// Describes the unpacking of the archive of binaries that came back.
pub fn unzip_executables(archive: Vec<u8>, dest: String) -> (r: Unpack)
    ensures
        r.archive@ == archive@,
        r.dest@ == dest@,
{
    Unpack { archive, dest }
}

} // verus!
