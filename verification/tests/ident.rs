use indexer::ident::identify;
use std::collections::hash_map::DefaultHasher;
use std::hash::{Hash, Hasher};

fn std_hash(path: &str) -> u64 {
    let mut hasher = DefaultHasher::new();
    path.hash(&mut hasher);
    hasher.finish()
}

#[test]
fn same_path_same_identifier() {
    assert_eq!(identify("/data/a"), identify("/data/a"));
    let owned = String::from("/data/a");
    assert_eq!(identify(owned.as_str()), identify("/data/a"));
}

#[test]
fn identifier_is_the_standard_hash_of_the_string() {
    for path in ["", "/", "/data", "/data/a", "/data/a/x.txt", "/données/été.txt"] {
        assert_eq!(identify(path), std_hash(path));
    }
}

#[test]
fn identifiers_do_not_change_between_runs() {
    assert_eq!(identify("/data/a"), 14889914091810279799);
    assert_eq!(identify("/data/b"), 12869918471598471462);
    assert_eq!(identify("/data/a/x.txt"), 9099756103087819064);
    assert_eq!(identify("/data"), 16025056444091707540);
    assert_eq!(identify(""), 3476900567878811119);
}

#[test]
fn different_paths_get_different_identifiers() {
    assert_ne!(identify("/data/a"), identify("/data/b"));
    assert_ne!(identify("/data/a"), identify("/data/a/"));
    assert_ne!(identify(""), identify("/"));
}
