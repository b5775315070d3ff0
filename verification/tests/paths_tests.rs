use remoterc::paths::{chars_of, join_path, path_file_name, path_is_absolute};

#[test]
fn absolute_paths_start_with_the_separator() {
    assert!(path_is_absolute("/"));
    assert!(path_is_absolute("/home/user/project"));
    assert!(path_is_absolute("//double"));
}

#[test]
fn relative_paths_are_not_absolute() {
    assert!(!path_is_absolute(""));
    assert!(!path_is_absolute("src/main.rs"));
    assert!(!path_is_absolute("./src"));
    assert!(!path_is_absolute("../up"));
    assert!(!path_is_absolute("a/"));
}

#[test]
fn join_puts_one_separator_between_base_and_name() {
    assert_eq!(join_path("a", "b"), "a/b");
    assert_eq!(join_path("/cache", "rrc"), "/cache/rrc");
    assert_eq!(join_path("a/b", "c/d"), "a/b/c/d");
}

#[test]
fn join_adds_no_separator_after_one() {
    assert_eq!(join_path("a/", "b"), "a/b");
    assert_eq!(join_path("/", "b"), "/b");
    assert_eq!(join_path("./", "app.exe"), "./app.exe");
}

#[test]
fn join_onto_the_empty_path_is_the_name() {
    assert_eq!(join_path("", "b"), "b");
    assert_eq!(join_path("", ""), "");
}

#[test]
fn join_of_an_absolute_name_replaces_the_base() {
    assert_eq!(join_path("a", "/b"), "/b");
    assert_eq!(join_path("/x/y", "/"), "/");
}

#[test]
fn join_of_the_empty_name_ends_in_a_separator() {
    assert_eq!(join_path("a", ""), "a/");
    assert_eq!(join_path("a/", ""), "a/");
}

#[test]
fn join_agrees_with_the_standard_library() {
    let bases = ["", "a", "a/", "/", "/x/y", "./", "../z"];
    let names = ["", "b", "b/c", "/b", "./b", "name.exe"];
    for base in bases {
        for name in names {
            let expected = std::path::Path::new(base).join(name);
            assert_eq!(join_path(base, name), expected.to_str().unwrap());
        }
    }
}

#[test]
fn absolute_agrees_with_the_standard_library() {
    let paths = ["", "/", "a", "/a", "./a", "a/b", "//a", "../a"];
    for path in paths {
        assert_eq!(path_is_absolute(path), std::path::Path::new(path).is_absolute());
    }
}

#[test]
fn file_name_is_the_final_component() {
    assert_eq!(path_file_name("tmp/foo.txt"), Some(String::from("foo.txt")));
    assert_eq!(path_file_name("/usr/bin/cargo"), Some(String::from("cargo")));
    assert_eq!(path_file_name("plain"), Some(String::from("plain")));
    assert_eq!(path_file_name("a//b"), Some(String::from("b")));
}

#[test]
fn file_name_ignores_trailing_separators() {
    assert_eq!(path_file_name("/usr/bin/"), Some(String::from("bin")));
    assert_eq!(path_file_name("a///"), Some(String::from("a")));
}

#[test]
fn file_name_ignores_trailing_current_directory() {
    assert_eq!(path_file_name("foo.txt/."), Some(String::from("foo.txt")));
    assert_eq!(path_file_name("foo.txt/.//"), Some(String::from("foo.txt")));
    assert_eq!(path_file_name("/home/user/project/."), Some(String::from("project")));
}

#[test]
fn file_name_of_a_path_without_one_is_none() {
    assert_eq!(path_file_name(""), None);
    assert_eq!(path_file_name("/"), None);
    assert_eq!(path_file_name("//"), None);
    assert_eq!(path_file_name("."), None);
    assert_eq!(path_file_name("./"), None);
    assert_eq!(path_file_name("/."), None);
    assert_eq!(path_file_name(".."), None);
    assert_eq!(path_file_name("foo.txt/.."), None);
    assert_eq!(path_file_name("a/../"), None);
}

#[test]
fn file_name_keeps_dots_that_belong_to_a_name() {
    assert_eq!(path_file_name(".hidden"), Some(String::from(".hidden")));
    assert_eq!(path_file_name("a/.b"), Some(String::from(".b")));
    assert_eq!(path_file_name("..."), Some(String::from("...")));
    assert_eq!(path_file_name("a."), Some(String::from("a.")));
    assert_eq!(path_file_name("a/b.."), Some(String::from("b..")));
}

#[test]
fn file_name_handles_characters_of_several_bytes() {
    assert_eq!(path_file_name("/données/é.rs"), Some(String::from("é.rs")));
    assert_eq!(path_file_name("日本/語/"), Some(String::from("語")));
}

#[test]
fn file_name_agrees_with_the_standard_library() {
    let paths = [
        "", "/", ".", "..", "./", "a", "a/", "a/b", "/a/b/", "a/.", "a/./", "a/..", "a//b", ".a",
        "a/.b", "...", "/.", "./.", "a/b/.//", "/usr/bin/cargo", "./src/main.rs",
    ];
    for path in paths {
        let expected = std::path::Path::new(path)
            .file_name()
            .map(|name| name.to_str().unwrap().to_string());
        assert_eq!(path_file_name(path), expected, "for {}", path);
    }
}

#[test]
fn file_name_of_a_joined_plain_name_is_that_name() {
    let bases = ["", "a", "a/", "/", "/x/y", "./"];
    let names = ["b", "app.exe", ".hidden", "..."];
    for base in bases {
        for name in names {
            let joined = join_path(base, name);
            assert_eq!(path_file_name(joined.as_str()), Some(String::from(name)));
        }
    }
}

#[test]
fn chars_of_gives_every_character() {
    assert_eq!(chars_of(""), Vec::<char>::new());
    assert_eq!(chars_of("a/b"), vec!['a', '/', 'b']);
    assert_eq!(chars_of("é語"), vec!['é', '語']);
}
