use remoterc::cargo::{
    build_command, cargo_build, executable_path, manifest_path, produced_binaries, target_add,
    BuildError,
};
use remoterc::file_handler::create_return_file;

fn names(items: &[&str]) -> Vec<Option<String>> {
    items.iter().map(|item| Some(item.to_string())).collect()
}

fn owned(items: &[&str]) -> Vec<String> {
    items.iter().map(|item| item.to_string()).collect()
}

#[test]
fn manifest_lies_in_the_build_dir() {
    assert_eq!(manifest_path("/cache/rrc/5"), "/cache/rrc/5/Cargo.toml");
    assert_eq!(manifest_path("./"), "./Cargo.toml");
}

#[test]
fn target_add_installs_the_requested_target() {
    let install = target_add("x86_64-pc-windows-gnu");
    assert_eq!(install.program, "rustup");
    assert_eq!(install.arguments, owned(&["target", "add", "x86_64-pc-windows-gnu"]));
    assert_eq!(install.directory, None);
}

#[test]
fn debug_build_has_no_release_flag() {
    let build = build_command("/cache/rrc/5", "x86_64-pc-windows-gnu", false);
    assert_eq!(build.program, "cargo");
    assert_eq!(build.arguments, owned(&["build", "--target", "x86_64-pc-windows-gnu"]));
    assert_eq!(build.directory, Some(String::from("/cache/rrc/5")));
}

#[test]
fn release_build_has_the_release_flag() {
    let build = build_command("/cache/rrc/5", "aarch64-unknown-linux-gnu", true);
    assert_eq!(build.program, "cargo");
    assert_eq!(
        build.arguments,
        owned(&["build", "--target", "aarch64-unknown-linux-gnu", "--release"])
    );
    assert_eq!(build.directory, Some(String::from("/cache/rrc/5")));
}

#[test]
fn executable_of_a_debug_build() {
    assert_eq!(executable_path("/b", false, false, "app"), "/b/target/debug/app");
    assert_eq!(executable_path("/b", false, true, "app"), "/b/target/debug/app.exe");
}

#[test]
fn executable_of_a_release_build() {
    assert_eq!(executable_path("/b", true, false, "app"), "/b/target/release/app");
    assert_eq!(executable_path("/b", true, true, "app"), "/b/target/release/app.exe");
}

#[test]
fn executable_below_a_relative_build_dir() {
    assert_eq!(executable_path("rel/dir", false, true, "tool"), "rel/dir/target/debug/tool.exe");
    assert_eq!(executable_path("", true, false, "tool"), "target/release/tool");
}

#[test]
fn cargo_build_plans_every_declared_binary() {
    let plan = cargo_build(
        "/cache/rrc/5",
        "x86_64-pc-windows-gnu",
        false,
        true,
        &names(&["rrc", "remoterc"]),
    )
    .unwrap();
    assert_eq!(plan.install.program, "rustup");
    assert_eq!(plan.install.arguments, owned(&["target", "add", "x86_64-pc-windows-gnu"]));
    assert_eq!(plan.install.directory, None);
    assert_eq!(plan.build.program, "cargo");
    assert_eq!(plan.build.arguments, owned(&["build", "--target", "x86_64-pc-windows-gnu"]));
    assert_eq!(plan.build.directory, Some(String::from("/cache/rrc/5")));
    assert_eq!(
        plan.executables,
        owned(&["/cache/rrc/5/target/debug/rrc.exe", "/cache/rrc/5/target/debug/remoterc.exe"])
    );
}

#[test]
fn cargo_build_for_a_release_without_extension() {
    let plan = cargo_build("/b", "aarch64-unknown-linux-gnu", true, false, &names(&["tool"]))
        .unwrap();
    assert_eq!(
        plan.build.arguments,
        owned(&["build", "--target", "aarch64-unknown-linux-gnu", "--release"])
    );
    assert_eq!(plan.executables, owned(&["/b/target/release/tool"]));
}

#[test]
fn cargo_build_without_binaries_expects_none() {
    let plan = cargo_build("/b", "t", false, true, &Vec::new()).unwrap();
    assert!(plan.executables.is_empty());
    assert_eq!(plan.build.arguments, owned(&["build", "--target", "t"]));
}

#[test]
fn cargo_build_fails_on_the_first_binary_without_a_name() {
    let bins = vec![Some(String::from("a")), None, Some(String::from("b")), None];
    match cargo_build("/b", "t", false, true, &bins) {
        Err(BuildError::UnnamedBinary(index)) => assert_eq!(index, 1),
        other => panic!("unexpected: {:?}", other),
    }
}

#[test]
fn produced_binaries_are_handed_back() {
    let expected = owned(&["/b/target/debug/a.exe", "/b/target/debug/b.exe"]);
    let binaries = produced_binaries(expected.clone(), true, &vec![true, true]).unwrap();
    assert_eq!(binaries, expected);
}

#[test]
fn no_expected_binaries_are_no_failure() {
    let binaries = produced_binaries(Vec::new(), true, &Vec::new()).unwrap();
    assert!(binaries.is_empty());
}

#[test]
fn a_failed_toolchain_is_a_failure() {
    let expected = owned(&["/b/target/debug/a.exe"]);
    let result = produced_binaries(expected, false, &vec![true]);
    assert!(matches!(result, Err(BuildError::Toolchain)));
}

#[test]
fn a_failed_toolchain_comes_before_a_missing_binary() {
    let expected = owned(&["/b/target/debug/a.exe"]);
    let result = produced_binaries(expected, false, &vec![false]);
    assert!(matches!(result, Err(BuildError::Toolchain)));
}

#[test]
fn a_missing_binary_is_a_failure() {
    let expected = owned(&["/b/a.exe", "/b/b.exe", "/b/c.exe"]);
    match produced_binaries(expected, true, &vec![true, false, false]) {
        Err(BuildError::MissingBinary(path)) => assert_eq!(path, "/b/b.exe"),
        other => panic!("unexpected: {:?}", other),
    }
}

#[test]
fn a_report_of_another_length_is_a_failure() {
    let expected = owned(&["/b/a.exe", "/b/b.exe"]);
    let result = produced_binaries(expected, true, &vec![true]);
    assert!(matches!(result, Err(BuildError::Mismatch)));
}

#[test]
fn the_reply_holds_exactly_the_declared_binaries() {
    let plan = cargo_build("/cache/rrc/5", "x86_64-pc-windows-gnu", false, true, &names(&["a", "b"]))
        .unwrap();
    let binaries = produced_binaries(plan.executables, true, &vec![true, true]).unwrap();
    let reply = create_return_file("/cache", 6, binaries).unwrap();
    let stored: Vec<&str> = reply.entries.iter().map(|entry| entry.name.as_str()).collect();
    let read: Vec<&str> = reply.entries.iter().map(|entry| entry.source.as_str()).collect();
    assert_eq!(stored, vec!["./a.exe", "./b.exe"]);
    assert_eq!(read, vec!["/cache/rrc/5/target/debug/a.exe", "/cache/rrc/5/target/debug/b.exe"]);
}

#[test]
fn the_reply_has_no_extension_where_none_is_asked_for() {
    let plan = cargo_build("/cache/rrc/5", "t", true, false, &names(&["a", "b"])).unwrap();
    let binaries = produced_binaries(plan.executables, true, &vec![true, true]).unwrap();
    let reply = create_return_file("/cache", 6, binaries).unwrap();
    let stored: Vec<&str> = reply.entries.iter().map(|entry| entry.name.as_str()).collect();
    assert_eq!(stored, vec!["./a", "./b"]);
}

#[test]
fn the_reply_below_a_relative_build_dir_keeps_the_paths() {
    let plan = cargo_build("rel/5", "t", false, true, &names(&["a"])).unwrap();
    let binaries = produced_binaries(plan.executables, true, &vec![true]).unwrap();
    let reply = create_return_file("rel", 6, binaries).unwrap();
    assert_eq!(reply.entries.len(), 1);
    assert_eq!(reply.entries[0].name, "rel/5/target/debug/a.exe");
    assert_eq!(reply.entries[0].source, "rel/5/target/debug/a.exe");
}
