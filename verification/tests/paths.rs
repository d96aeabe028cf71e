//! Absolute paths: construction, parents, joining and identity.
use path_facts::abs_path::{
    components_of, file_name, same_place, try_readlink, AbsPath, AbsPathError,
};
use path_facts::canonical_path::CanonicalPath;
use path_facts::probe::ProbeError;
use path_facts::resolved_metadata::{ResolvedMetadata, ResolvedType};

fn no_cwd() -> Result<AbsPath, ProbeError> {
    Err(ProbeError::new("permission denied"))
}

fn abs(path: &str) -> AbsPath {
    AbsPath::from_rooted(path).unwrap()
}

#[test]
fn empty_path_is_rejected() {
    match AbsPath::new("", &Ok(abs("/home"))) {
        Err(AbsPathError::PathIsEmpty(given)) => assert_eq!(given, ""),
        other => panic!("{:?}", other),
    }
}

#[test]
fn absolute_path_is_kept_as_spelled() {
    let path = AbsPath::new("/a//b/./c/", &no_cwd()).unwrap();
    assert_eq!(path.as_str(), "/a//b/./c/");
    assert_eq!(path.display(), "`/a//b/./c/`");
}

#[test]
fn relative_path_needs_the_working_directory() {
    match AbsPath::new("a/b", &no_cwd()) {
        Err(error) => {
            assert_eq!(error.path(), "a/b");
            match error {
                AbsPathError::CannotReadCWD(given, why) => {
                    assert_eq!(given, "a/b");
                    assert_eq!(why.message(), "permission denied");
                }
                other => panic!("{:?}", other),
            }
        }
        other => panic!("{:?}", other),
    }
}

#[test]
fn relative_path_is_appended_to_the_working_directory() {
    let cwd = Ok(abs("/home/user"));
    assert_eq!(AbsPath::new("a/b", &cwd).unwrap().as_str(), "/home/user/a/b");
    assert_eq!(AbsPath::new("./a/./b", &cwd).unwrap().as_str(), "/home/user/a/b");
    assert_eq!(AbsPath::new("a//b/", &cwd).unwrap().as_str(), "/home/user/a/b/");
    assert_eq!(AbsPath::new("../a", &cwd).unwrap().as_str(), "/home/user/../a");
    assert_eq!(AbsPath::new(".", &cwd).unwrap().as_str(), "/home/user");
    assert_eq!(AbsPath::new("a", &Ok(abs("/"))).unwrap().as_str(), "/a");
}

#[test]
fn from_rooted_takes_only_rooted_paths() {
    assert!(AbsPath::from_rooted("/").is_some());
    assert!(AbsPath::from_rooted("/a").is_some());
    assert!(AbsPath::from_rooted("a").is_none());
    assert!(AbsPath::from_rooted("").is_none());
}

#[test]
fn parent_drops_the_last_component() {
    assert_eq!(abs("/a/b").parent().unwrap().as_str(), "/a");
    assert_eq!(abs("/a").parent().unwrap().as_str(), "/");
    assert_eq!(abs("/a/b/").parent().unwrap().as_str(), "/a");
    assert_eq!(abs("/a//b").parent().unwrap().as_str(), "/a");
    assert_eq!(abs("/a/./b/.").parent().unwrap().as_str(), "/a");
    assert_eq!(abs("/a/..").parent().unwrap().as_str(), "/a");
    assert_eq!(abs("//a").parent().unwrap().as_str(), "/");
}

#[test]
fn root_has_no_parent() {
    assert!(abs("/").parent().is_none());
    assert!(abs("//").parent().is_none());
    assert!(abs("/.").parent().is_none());
}

#[test]
fn parents_end_at_the_root() {
    let mut walk = abs("/a/b/c").each_parent();
    assert_eq!(walk.next().unwrap().as_str(), "/a/b");
    assert_eq!(walk.next().unwrap().as_str(), "/a");
    assert_eq!(walk.next().unwrap().as_str(), "/");
    assert!(walk.next().is_none());
    assert!(walk.next().is_none());
}

#[test]
fn parent_chain_is_as_long_as_the_path_is_deep() {
    let mut current = abs("/one/two/three/four/five");
    let mut steps = 0;
    while let Some(parent) = current.parent() {
        assert!(parent.as_str().len() < current.as_str().len());
        current = parent;
        steps += 1;
    }
    assert_eq!(steps, 5);
    assert_eq!(current.as_str(), "/");
}

#[test]
fn root_is_the_last_parent() {
    assert_eq!(abs("/a/b/c").root().as_str(), "/");
    assert_eq!(abs("/").root().as_str(), "/");
}

#[test]
fn join_appends_after_one_separator() {
    assert_eq!(abs("/a").join("b").as_str(), "/a/b");
    assert_eq!(abs("/a/").join("b").as_str(), "/a/b");
    assert_eq!(abs("/").join("b").as_str(), "/b");
    assert_eq!(abs("/a").join("").as_str(), "/a/");
    assert_eq!(abs("/a").join("/b").as_str(), "/b");
}

#[test]
fn components_skip_empty_and_dot() {
    assert_eq!(components_of("/a//b/./c/"), vec!["a", "b", "c"]);
    assert_eq!(components_of("a/../b"), vec!["a", "..", "b"]);
    assert!(components_of("/").is_empty());
    assert!(components_of("").is_empty());
    assert!(components_of("./.").is_empty());
}

#[test]
fn paths_are_equal_when_their_components_are() {
    assert!(same_place("/a/b", "/a//b/"));
    assert!(same_place("/a/./b", "/a/b"));
    assert!(!same_place("/a/b", "/a/c"));
    assert!(!same_place("/a/b", "/a"));
    assert!(abs("/x/y/") == abs("/x/./y"));
    assert!(abs("/x/y") != abs("/x/z"));
}

#[test]
fn file_name_is_the_last_component() {
    assert_eq!(file_name("/a/b.txt"), Some("b.txt".to_string()));
    assert_eq!(file_name("a/b/"), Some("b".to_string()));
    assert_eq!(file_name("name"), Some("name".to_string()));
    assert_eq!(file_name("/a/.."), None);
    assert_eq!(file_name("/"), None);
    assert_eq!(file_name(""), None);
    assert_eq!(abs("/dir/file").file_name(), Some("file".to_string()));
}

#[test]
fn read_dir_joins_each_name_to_the_directory() {
    let dir = abs("/dir");
    let entries = dir.read_dir(Ok(vec!["a".to_string(), "b".to_string()])).unwrap();
    assert_eq!(entries.len(), 2);
    assert_eq!(entries[0].as_str(), "/dir/a");
    assert_eq!(entries[1].as_str(), "/dir/b");
    let failed = dir.read_dir(Err(ProbeError::new("not a directory")));
    assert_eq!(failed.unwrap_err().message(), "not a directory");
}

#[test]
fn readlink_resolves_relative_targets() {
    let link = abs("/dir/link");
    assert!(try_readlink(&link, None).unwrap().is_none());
    let relative = try_readlink(&link, Some(Ok("target".to_string()))).unwrap().unwrap();
    assert_eq!(relative.as_str(), "/dir/link/target");
    let absolute = try_readlink(&link, Some(Ok("/else/where".to_string()))).unwrap().unwrap();
    assert_eq!(absolute.as_str(), "/else/where");
    let failed = try_readlink(&link, Some(Err(ProbeError::new("gone"))));
    assert_eq!(failed.unwrap_err().message(), "gone");
}

#[test]
fn canonical_path_takes_the_outcome_of_canonicalizing() {
    let canonical = CanonicalPath::new(Ok("/real/path".to_string())).unwrap();
    assert_eq!(canonical.as_str(), "/real/path");
    assert_eq!(canonical.display(), "`/real/path`");
    let failed = CanonicalPath::new(Err(ProbeError::new("no such file")));
    assert_eq!(failed.unwrap_err().message(), "no such file");
}

#[test]
fn metadata_tells_directories_from_everything_else() {
    assert_eq!(ResolvedMetadata::new(Ok(true)).unwrap().resolved_type(), ResolvedType::Dir);
    assert_eq!(ResolvedMetadata::new(Ok(false)).unwrap().resolved_type(), ResolvedType::File);
    assert_eq!(ResolvedType::Dir.as_str(), "directory");
    assert_eq!(ResolvedType::File.as_str(), "file");
    let failed = ResolvedMetadata::new(Err(ProbeError::new("denied")));
    assert_eq!(failed.unwrap_err().message(), "denied");
}
