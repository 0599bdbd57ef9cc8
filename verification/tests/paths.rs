use trasher::paths::{FsPath, TRASH_DIR_NAME, TRASH_TRANSFER_DIRNAME};

fn p(text: &str) -> FsPath {
    FsPath {
        absolute: text.starts_with('/'),
        components: text.split('/').filter(|c| !c.is_empty()).map(|c| c.to_string()).collect(),
    }
}

#[test]
fn the_directory_names_are_fixed() {
    assert_eq!(TRASH_DIR_NAME, ".trasher");
    assert_eq!(TRASH_TRANSFER_DIRNAME, ".#PARTIAL");
}

#[test]
fn the_root_has_no_components() {
    assert_eq!(FsPath::root(), p("/"));
    assert_eq!(FsPath::root().depth(), 0);
    assert_eq!(p("/a/b/c").depth(), 3);
}

#[test]
fn join_adds_one_component() {
    assert_eq!(p("/home").join("alice"), p("/home/alice"));
    assert_eq!(FsPath::root().join(".trasher"), p("/.trasher"));
    assert_eq!(p("rel").join("x"), p("rel/x"));
}

#[test]
fn join_path_takes_relative_paths_from_the_base() {
    assert_eq!(p("/home/alice").join_path(&p("docs/x")), p("/home/alice/docs/x"));
    assert_eq!(p("/home/alice").join_path(&p("/tmp/x")), p("/tmp/x"));
    assert_eq!(p("/home/alice").join_path(&p("")), p("/home/alice"));
}

#[test]
fn parent_drops_the_last_component() {
    assert_eq!(p("/home/alice").parent(), Some(p("/home")));
    assert_eq!(p("/home").parent(), Some(p("/")));
    assert_eq!(p("/").parent(), None);
    assert_eq!(p("").parent(), None);
}

#[test]
fn starts_with_compares_whole_components() {
    assert!(p("/home/alice/x").starts_with(&p("/home/alice")));
    assert!(p("/home/alice/x").starts_with(&p("/home")));
    assert!(p("/home/alice/x").starts_with(&p("/")));
    assert!(p("/home/alice").starts_with(&p("/home/alice")));
    assert!(!p("/home/alice").starts_with(&p("/home/alice/x")));
    assert!(!p("/home/alicia").starts_with(&p("/home/alic")));
    assert!(!p("/home/alice").starts_with(&p("/var")));
    assert!(!p("/home/alice").starts_with(&p("home")));
    assert!(!p("home/alice").starts_with(&p("/home")));
    assert!(p("home/alice").starts_with(&p("home")));
    assert!(p("/home/alice").starts_with(&p("")));
}

#[test]
fn starts_with_any_looks_at_every_base() {
    let bases = vec![p("/proc"), p("/sys"), p("/var/lib/docker")];
    assert!(p("/var/lib/docker/x").starts_with_any(&bases));
    assert!(p("/sys").starts_with_any(&bases));
    assert!(!p("/var/lib").starts_with_any(&bases));
    assert!(!p("/var/lib").starts_with_any(&Vec::new()));
}

#[test]
fn same_as_compares_root_marker_and_components() {
    assert!(p("/a/b").same_as(&p("/a/b")));
    assert!(!p("/a/b").same_as(&p("a/b")));
    assert!(!p("/a/b").same_as(&p("/a/c")));
    assert!(!p("/a/b").same_as(&p("/a")));
}

#[test]
fn paths_are_ordered_component_by_component() {
    let in_order = [
        p(""),
        p("/"),
        p("/.trasher"),
        p("/a"),
        p("/a/b"),
        p("/a/b/c"),
        p("/a/c"),
        p("/a b"),
        p("/a-b"),
        p("/ab"),
        p("/b"),
        p("/\u{e9}"),
        p("./a"),
        p("../a"),
        p("!a"),
        p("a"),
        p("a/b"),
        p("b"),
    ];
    for (i, first) in in_order.iter().enumerate() {
        for (j, second) in in_order.iter().enumerate() {
            assert_eq!(first.comes_before(second), i < j, "{:?} {:?}", first, second);
        }
    }
}

#[test]
fn the_order_of_paths_is_that_of_the_operating_system() {
    let texts = [
        "", "/", "/.trasher", "/a", "/a/b", "/a/b/c", "/a/c", "/a b", "/a-b", "/ab", "/b",
        "/home/alice/.trasher", "/home/.trasher", "/mnt/disk/.trasher", "../a", "!a", "a", "a/b",
    ];
    for first in texts {
        for second in texts {
            let by_the_system = std::path::Path::new(first) < std::path::Path::new(second);
            assert_eq!(p(first).comes_before(&p(second)), by_the_system, "{first} {second}");
        }
    }
}

#[test]
fn a_clone_is_the_same_path() {
    let path = p("/home/alice/x");
    assert_eq!(path.clone(), path);
}
