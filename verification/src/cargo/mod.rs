//! Planning a cross-compilation and judging what it produced.
//!
//! The toolchain is run by the caller. This module says how: which target
//! is installed first, with which arguments the build runs and where, and
//! at which paths the binaries that the manifest declares are expected.

use vstd::prelude::*;
use crate::file_handler::exclusion::texts;
use crate::file_handler::file_handler_error::FileHandlerError;
use crate::file_handler::{all_absolute, can_store, entries_store, synthetic_root, ArchiveEntry};
use crate::paths::{is_absolute, is_plain_name, join, join_path, lemma_file_name_of_join};

verus! {

/// The extension that marks an executable where the target platform asks
/// for one.
pub open spec fn executable_extension() -> Seq<char> {
    ".exe"@
}

/// The name of the manifest file of a project.
pub open spec fn manifest_name() -> Seq<char> {
    "Cargo.toml"@
}

/// The manifest file of the project in `build_dir`.
pub open spec fn manifest_file(build_dir: Seq<char>) -> Seq<char> {
    join(build_dir, manifest_name())
}

/// The directory in which the toolchain leaves the binaries of a build.
pub open spec fn output_dir(build_dir: Seq<char>, release: bool) -> Seq<char> {
    join(
        join(build_dir, "target"@),
        if release {
            "release"@
        } else {
            "debug"@
        },
    )
}

/// The file name of the binary `name`, with the executable extension where
/// `exe` asks for it.
pub open spec fn binary_file(name: Seq<char>, exe: bool) -> Seq<char> {
    if exe {
        name + executable_extension()
    } else {
        name
    }
}

/// The path at which the binary `name` is expected after a build.
pub open spec fn executable(build_dir: Seq<char>, release: bool, exe: bool, name: Seq<char>) -> Seq<
    char,
> {
    join(output_dir(build_dir, release), binary_file(name, exe))
}

/// The paths at which the binaries `names` are expected, in their order.
pub open spec fn executables(
    build_dir: Seq<char>,
    release: bool,
    exe: bool,
    names: Seq<Seq<char>>,
) -> Seq<Seq<char>> {
    Seq::new(names.len(), |i: int| executable(build_dir, release, exe, names[i]))
}

/// The arguments with which the toolchain manager installs `toolchain`.
pub open spec fn install_arguments(toolchain: Seq<char>) -> Seq<Seq<char>> {
    seq!["target"@, "add"@, toolchain]
}

/// The arguments with which the build runs.
pub open spec fn build_arguments(toolchain: Seq<char>, release: bool) -> Seq<Seq<char>> {
    if release {
        seq!["build"@, "--target"@, toolchain, "--release"@]
    } else {
        seq!["build"@, "--target"@, toolchain]
    }
}

/// The names of the declared binaries, where each has one.
pub open spec fn declared_names(bins: Seq<Option<String>>) -> Seq<Seq<char>> {
    Seq::new(bins.len(), |i: int| bins[i]->0@)
}

/// Whether `bins[index]` is the first declared binary without a name.
pub open spec fn first_unnamed_binary(bins: Seq<Option<String>>, index: int) -> bool {
    &&& 0 <= index < bins.len()
    &&& bins[index] is None
    &&& forall|j: int| 0 <= j < index ==> (#[trigger] bins[j]) is Some
}

/// Whether `index` is the position of the first binary that was not
/// produced.
pub open spec fn first_missing(produced: Seq<bool>, index: int) -> bool {
    &&& 0 <= index < produced.len()
    &&& !produced[index]
    &&& forall|j: int| 0 <= j < index ==> #[trigger] produced[j]
}

/// The file name of a binary with a plain name is a plain name.
proof fn lemma_binary_file_is_plain(name: Seq<char>, exe: bool)
    requires
        is_plain_name(name),
    ensures
        is_plain_name(binary_file(name, exe)),
{
    if exe {
        reveal_strlit(".exe");
        let file = binary_file(name, exe);
        assert(file.len() == name.len() + 4);
        assert forall|i: int| 0 <= i < file.len() implies file[i] != '/' by {
            if i < name.len() {
                assert(file[i] == name[i]);
            } else {
                assert(file[i] == ".exe"@[i - name.len()]);
            }
        }
    }
}

/// The output directory lies below the build directory: it is absolute
/// exactly when the build directory is, and it is not empty.
proof fn lemma_output_dir(build_dir: Seq<char>, release: bool)
    ensures
        output_dir(build_dir, release).len() > 0,
        is_absolute(output_dir(build_dir, release)) == is_absolute(build_dir),
{
    reveal_strlit("target");
    reveal_strlit("release");
    reveal_strlit("debug");
    let target = join(build_dir, "target"@);
    assert(!is_absolute("target"@));
    assert(target.len() > 0);
    assert(is_absolute(target) == is_absolute(build_dir)) by {
        if build_dir.len() > 0 {
            assert(target[0] == build_dir[0]);
        } else {
            assert(target =~= "target"@);
        }
    }
    let profile = if release {
        "release"@
    } else {
        "debug"@
    };
    assert(!is_absolute(profile));
    assert(output_dir(build_dir, release)[0] == target[0]);
}

/// Completeness of the reply: where the manifest declares binaries with
/// plain names, the archive of the reply holds one entry for each of them
/// and no other, in their order. The entry of a binary is read at the path
/// at which the binary is expected. Under an absolute build directory it is
/// stored below `./` under the name of the binary, with the executable
/// extension where that is asked for; under a relative one it is stored
/// under the path at which it is read.
pub proof fn lemma_reply_is_complete(
    build_dir: Seq<char>,
    release: bool,
    exe: bool,
    names: Seq<Seq<char>>,
    entries: Seq<ArchiveEntry>,
)
    requires
        forall|i: int| 0 <= i < names.len() ==> is_plain_name(#[trigger] names[i]),
        entries_store(entries, executables(build_dir, release, exe, names)),
    ensures
        can_store(executables(build_dir, release, exe, names)),
        entries.len() == names.len(),
        forall|i: int|
            0 <= i < names.len() ==> (#[trigger] entries[i]).source@ == executable(
                build_dir,
                release,
                exe,
                names[i],
            ),
        forall|i: int|
            0 <= i < names.len() ==> (#[trigger] entries[i]).name@ == if is_absolute(build_dir) {
                synthetic_root() + binary_file(names[i], exe)
            } else {
                executable(build_dir, release, exe, names[i])
            },
{
    let files = executables(build_dir, release, exe, names);
    let output = output_dir(build_dir, release);
    lemma_output_dir(build_dir, release);
    assert forall|i: int| 0 <= i < names.len() implies is_absolute(#[trigger] files[i])
        == is_absolute(build_dir) && crate::paths::file_name(files[i]) == Some(
        binary_file(names[i], exe),
    ) && join(synthetic_root(), binary_file(names[i], exe)) == synthetic_root() + binary_file(
        names[i],
        exe,
    ) by {
        let file = binary_file(names[i], exe);
        lemma_binary_file_is_plain(names[i], exe);
        lemma_file_name_of_join(output, file);
        assert(!is_absolute(file));
        assert(files[i][0] == output[0]);
        assert(synthetic_root().last() == '/');
    }
    if is_absolute(build_dir) {
        assert(all_absolute(files));
    } else if names.len() > 0 {
        assert(!is_absolute(files[0]));
        assert(!all_absolute(files));
    }
    assert forall|i: int| 0 <= i < names.len() implies (#[trigger] entries[i]).name@
        == if is_absolute(build_dir) {
        synthetic_root() + binary_file(names[i], exe)
    } else {
        executable(build_dir, release, exe, names[i])
    } by {
        assert(Some(entries[i].name@) == crate::file_handler::stored_name(
            files[i],
            all_absolute(files),
        ));
    }
}

/// Why a job did not lead to a reply.
#[derive(Debug)]
pub enum BuildError {
    /// Unpacking the project or packaging the binaries failed.
    Files(FileHandlerError),
    /// The manifest is missing or cannot be read.
    Manifest,
    /// The manifest declares a binary without a name, at this position.
    UnnamedBinary(usize),
    /// The toolchain could not be run, or it reported failure.
    Toolchain,
    /// The manifest declares a binary that the build did not produce.
    MissingBinary(String),
    /// The toolchain reported on another number of binaries than expected.
    Mismatch,
}

/// A program that is to be run: its name, its arguments, and the directory
/// in which it runs (the caller's own where there is none).
#[derive(Debug)]
pub struct Invocation {
    pub program: String,
    pub arguments: Vec<String>,
    pub directory: Option<String>,
}

/// How one project is built: the installation of the target, the build, and
/// the binaries that the build is expected to leave behind.
#[derive(Debug)]
pub struct BuildPlan {
    pub install: Invocation,
    pub build: Invocation,
    pub executables: Vec<String>,
}

/// The path of the manifest of the project in `builddir`.
pub fn manifest_path(builddir: &str) -> (r: String)
    ensures
        r@ == manifest_file(builddir@),
{
    join_path(builddir, "Cargo.toml")
}

/// The invocation that makes sure that `toolchain` is installed. Installing
/// a target that is present already changes nothing.
pub fn target_add(toolchain: &str) -> (r: Invocation)
    ensures
        r.program@ == "rustup"@,
        texts(r.arguments@) == install_arguments(toolchain@),
        r.directory is None,
{
    let mut arguments: Vec<String> = Vec::new();
    arguments.push(String::from_str("target"));
    arguments.push(String::from_str("add"));
    arguments.push(String::from_str(toolchain));
    assert(texts(arguments@) =~= install_arguments(toolchain@));
    Invocation { program: String::from_str("rustup"), arguments, directory: None }
}

/// The invocation that builds the project in `builddir` for `toolchain`.
pub fn build_command(builddir: &str, toolchain: &str, release: bool) -> (r: Invocation)
    ensures
        r.program@ == "cargo"@,
        texts(r.arguments@) == build_arguments(toolchain@, release),
        r.directory matches Some(dir) && dir@ == builddir@,
{
    let mut arguments: Vec<String> = Vec::new();
    arguments.push(String::from_str("build"));
    arguments.push(String::from_str("--target"));
    arguments.push(String::from_str(toolchain));
    if release {
        arguments.push(String::from_str("--release"));
    }
    assert(texts(arguments@) =~= build_arguments(toolchain@, release));
    Invocation {
        program: String::from_str("cargo"),
        arguments,
        directory: Some(String::from_str(builddir)),
    }
}

/// The path at which the binary `name` is expected after a build.
pub fn executable_path(builddir: &str, release: bool, exe: bool, name: &str) -> (r: String)
    ensures
        r@ == executable(builddir@, release, exe, name@),
{
    let target = join_path(builddir, "target");
    let output = join_path(
        target.as_str(),
        if release {
            "release"
        } else {
            "debug"
        },
    );
    let mut file = String::from_str(name);
    if exe {
        file.append(".exe");
    }
    join_path(output.as_str(), file.as_str())
}

/// Plans the build of the project in `builddir` for `toolchain`, whose
/// manifest declares the binaries `bins`: the target is installed, the build
/// runs in `builddir`, in release mode if `release` says so, and each
/// declared binary is expected in the output directory under its name, with
/// the executable extension if `exe` says so.
///
/// Fails exactly when a declared binary has no name, with the position of
/// the first such binary.
pub fn cargo_build(
    builddir: &str,
    toolchain: &str,
    release: bool,
    exe: bool,
    bins: &Vec<Option<String>>,
) -> (r: Result<BuildPlan, BuildError>)
    ensures
        match r {
            Ok(plan) => {
                &&& forall|i: int| 0 <= i < bins@.len() ==> (#[trigger] bins@[i]) is Some
                &&& plan.install.program@ == "rustup"@
                &&& texts(plan.install.arguments@) == install_arguments(toolchain@)
                &&& plan.install.directory is None
                &&& plan.build.program@ == "cargo"@
                &&& texts(plan.build.arguments@) == build_arguments(toolchain@, release)
                &&& plan.build.directory matches Some(dir) && dir@ == builddir@
                &&& texts(plan.executables@) == executables(
                    builddir@,
                    release,
                    exe,
                    declared_names(bins@),
                )
            },
            Err(e) => exists|i: int|
                first_unnamed_binary(bins@, i) && e == BuildError::UnnamedBinary(i as usize),
        },
{
    let mut paths: Vec<String> = Vec::new();
    let mut i: usize = 0;
    while i < bins.len()
        invariant
            i <= bins.len(),
            paths@.len() == i,
            forall|j: int| 0 <= j < i ==> (#[trigger] bins@[j]) is Some,
            forall|j: int|
                0 <= j < i ==> (#[trigger] paths@[j])@ == executable(
                    builddir@,
                    release,
                    exe,
                    bins@[j]->0@,
                ),
        decreases bins.len() - i,
    {
        match &bins[i] {
            Some(name) => {
                paths.push(executable_path(builddir, release, exe, name.as_str()));
            },
            None => {
                assert(first_unnamed_binary(bins@, i as int));
                return Err(BuildError::UnnamedBinary(i));
            },
        }
        i = i + 1;
    }
    assert(texts(paths@) =~= executables(builddir@, release, exe, declared_names(bins@)));
    Ok(
        BuildPlan {
            install: target_add(toolchain),
            build: build_command(builddir, toolchain, release),
            executables: paths,
        },
    )
}

/// Judges a finished build: `succeeded` says whether the toolchain ran and
/// reported success, and `produced[i]` whether the file `expected[i]` is
/// there. Gives the binaries back when all of them were produced.
///
/// Fails with `Toolchain` exactly when the toolchain did not succeed;
/// otherwise with `Mismatch` exactly when the report is about another
/// number of binaries; otherwise with `MissingBinary` and the first binary
/// that is not there, exactly when there is one.
pub fn produced_binaries(expected: Vec<String>, succeeded: bool, produced: &Vec<bool>) -> (r:
    Result<Vec<String>, BuildError>)
    ensures
        match r {
            Ok(binaries) => {
                &&& succeeded
                &&& produced@.len() == expected@.len()
                &&& forall|i: int| 0 <= i < produced@.len() ==> #[trigger] produced@[i]
                &&& binaries == expected
            },
            Err(BuildError::Toolchain) => !succeeded,
            Err(BuildError::Mismatch) => succeeded && produced@.len() != expected@.len(),
            Err(BuildError::MissingBinary(path)) => {
                &&& succeeded
                &&& produced@.len() == expected@.len()
                &&& exists|i: int| first_missing(produced@, i) && path == #[trigger] expected@[i]
            },
            Err(_) => false,
        },
{
    if !succeeded {
        return Err(BuildError::Toolchain);
    }
    if produced.len() != expected.len() {
        return Err(BuildError::Mismatch);
    }
    let mut i: usize = 0;
    while i < produced.len()
        invariant
            i <= produced.len(),
            succeeded,
            produced@.len() == expected@.len(),
            forall|j: int| 0 <= j < i ==> #[trigger] produced@[j],
        decreases produced.len() - i,
    {
        if !produced[i] {
            assert(first_missing(produced@, i as int));
            return Err(BuildError::MissingBinary(expected[i].clone()));
        }
        i = i + 1;
    }
    Ok(expected)
}

} // verus!
