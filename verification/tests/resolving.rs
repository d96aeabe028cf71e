//! Resolutions run on scripted answers: every outcome, and the report on it.
use path_facts::abs_path::{AbsPath, AbsPathError};
use path_facts::happy_path::UnhappyPath;
use path_facts::probe::{AccessMode, Answer, Probe, ProbeError};
use path_facts::resolution::state;
use path_facts::resolved_metadata::ResolvedType;
use path_facts::PathFacts;

fn denied() -> ProbeError {
    ProbeError::new("Permission denied (os error 13)")
}

fn names(list: &[&str]) -> Vec<String> {
    list.iter().map(|name| name.to_string()).collect()
}

fn listed(dir: &str, list: &[&str], write: bool, execute: bool) -> Vec<(String, Answer)> {
    vec![
        (format!("Canonicalize({:?})", dir), Answer::Canonical(Ok(dir.to_string()))),
        (format!("ListDirectory({:?})", dir), Answer::Listing(Ok(names(list)))),
        (format!("Access({:?}, Write)", dir), Answer::Access(write)),
        (format!("Access({:?}, Execute)", dir), Answer::Access(execute)),
    ]
}

/// Feeds the answers in order, checking before each that the probe of the
/// given description is the one wanted.
fn play(path: &str, script: Vec<(String, Answer)>) -> PathFacts {
    let mut facts = PathFacts::new(path);
    for (wanted, answer) in script {
        let probe = facts.pending().expect("a probe is wanted");
        assert_eq!(format!("{:?}", probe), wanted);
        facts = facts.observe(answer);
    }
    assert!(facts.pending().is_none(), "{:?}", facts.pending());
    facts
}

#[test]
fn empty_path_needs_no_observation() {
    let facts = PathFacts::new("");
    assert_eq!(facts.path(), "");
    assert!(facts.pending().is_none());
    match facts.outcome() {
        Some(Err(UnhappyPath::AbsPathError(AbsPathError::PathIsEmpty(given)))) => {
            assert_eq!(given, "")
        }
        other => panic!("{:?}", other),
    }
    assert_eq!(facts.report().unwrap(), "path `` is empty\n");
}

#[test]
fn root_is_root() {
    let facts = PathFacts::new("/");
    assert!(facts.pending().is_none());
    assert!(matches!(facts.outcome(), Some(Err(UnhappyPath::IsRoot(_)))));
    assert_eq!(facts.report().unwrap(), "is root `/`\n");
}

#[test]
fn report_waits_for_the_facts() {
    let facts = PathFacts::new("/dir/file");
    assert!(facts.pending().is_some());
    assert!(facts.outcome().is_none());
    assert!(facts.report().is_none());
}

#[test]
fn unreadable_working_directory() {
    let facts = play(
        "some/file",
        vec![("WorkingDirectory".to_string(), Answer::WorkingDirectory(Err(denied())))],
    );
    match facts.outcome() {
        Some(Err(UnhappyPath::AbsPathError(AbsPathError::CannotReadCWD(given, error)))) => {
            assert_eq!(given, "some/file");
            assert_eq!(error.message(), "Permission denied (os error 13)");
        }
        other => panic!("{:?}", other),
    }
    assert_eq!(
        facts.report().unwrap(),
        "`some/file`\n - Cannot read current working directory: Permission denied (os error 13)\n"
    );
}

#[test]
fn answer_of_another_kind_is_dropped() {
    let facts = PathFacts::new("/dir/file");
    let facts = facts.observe(Answer::Access(true));
    let facts = facts.observe(Answer::IsSymlink(true));
    let facts = facts.observe(Answer::Metadata(Ok(true)));
    assert_eq!(format!("{:?}", facts.pending().unwrap()), "Canonicalize(\"/dir\")");
    let done = PathFacts::new("/").observe(Answer::Access(true));
    assert_eq!(done.report().unwrap(), "is root `/`\n");
}

#[test]
fn plain_file_with_all_probes() {
    let mut script = listed("/dir", &["other", "file"], true, true);
    script.extend(vec![
        ("Canonicalize(\"/dir/file\")".to_string(), Answer::Canonical(Ok("/dir/file".into()))),
        ("Metadata(\"/dir/file\")".to_string(), Answer::Metadata(Ok(false))),
        ("IsSymlink(\"/dir/file\")".to_string(), Answer::IsSymlink(false)),
        ("Access(\"/dir/file\", Read)".to_string(), Answer::Access(true)),
        ("Access(\"/dir/file\", Write)".to_string(), Answer::Access(false)),
        ("Access(\"/dir/file\", Execute)".to_string(), Answer::Access(true)),
    ]);
    let facts = play("/dir/file", script);
    match facts.outcome() {
        Some(Ok(found)) => {
            assert_eq!(found.absolute().as_str(), "/dir/file");
            assert_eq!(found.canonical().as_str(), "/dir/file");
            assert_eq!(found.resolved_type(), ResolvedType::File);
            assert!(found.symlink_target().is_none());
            assert_eq!((found.read(), found.write(), found.execute()), (true, false, true));
            assert_eq!(found.parent().absolute().as_str(), "/dir");
            assert_eq!(found.parent().entries().len(), 2);
        }
        other => panic!("{:?}", other),
    }
    assert_eq!(
        facts.report().unwrap(),
        "exists `/dir/file`\n - `/dir`\n     ├── `other`\n     └── `file` (file: ✅ read, ❌ write, ✅ execute)\n\n"
    );
}

#[test]
fn symlink_to_a_directory_given_relative() {
    let mut script = vec![(
        "WorkingDirectory".to_string(),
        Answer::WorkingDirectory(Ok(AbsPath::from_rooted("/home").unwrap())),
    )];
    script.extend(listed("/home", &["link"], true, true));
    script.extend(vec![
        ("Canonicalize(\"/home/link\")".to_string(), Answer::Canonical(Ok("/data".into()))),
        ("Metadata(\"/home/link\")".to_string(), Answer::Metadata(Ok(true))),
        ("IsSymlink(\"/home/link\")".to_string(), Answer::IsSymlink(true)),
        ("ReadLink(\"/home/link\")".to_string(), Answer::LinkTarget(Ok("/data".into()))),
        ("Access(\"/data\", Read)".to_string(), Answer::Access(true)),
        ("Access(\"/data\", Write)".to_string(), Answer::Access(true)),
        ("Access(\"/data\", Execute)".to_string(), Answer::Access(true)),
    ]);
    let facts = play("link", script);
    match facts.outcome() {
        Some(Ok(found)) => {
            assert_eq!(found.resolved_type(), ResolvedType::Dir);
            assert_eq!(found.symlink_target().as_ref().unwrap().as_str(), "/data");
        }
        other => panic!("{:?}", other),
    }
    assert_eq!(
        facts.report().unwrap(),
        "exists `link`\n - Absolute: `/home/link`\n - Canonical: `/data`\n - Symlink target: `/data`\n - `/home`\n     └── `link` (directory)\n\n"
    );
}

#[test]
fn absent_entry_does_not_exist() {
    let mut script = listed("/dir", &["other"], false, true);
    script.push((
        "Canonicalize(\"/dir/file\")".to_string(),
        Answer::Canonical(Err(ProbeError::new("No such file or directory (os error 2)"))),
    ));
    let facts = play("/dir/file", script);
    match facts.outcome() {
        Some(Err(UnhappyPath::DoesNotExist { absolute, parent })) => {
            assert_eq!(absolute.as_str(), "/dir/file");
            assert!(!parent.has_entry(absolute));
            assert!(!parent.write());
        }
        other => panic!("{:?}", other),
    }
    assert_eq!(
        facts.report().unwrap(),
        "does not exist `/dir/file`\n - Missing `file` from parent directory:\n   `/dir` ✅ read, ❌ write, ✅ execute\n     └── `other`\n\n - Parent directory is missing write permissions (cannot create, delete, or modify files)\n"
    );
}

#[test]
fn listed_entry_that_cannot_be_canonicalized() {
    let mut script = listed("/dir", &["file"], true, true);
    script.push((
        "Canonicalize(\"/dir/file\")".to_string(),
        Answer::Canonical(Err(ProbeError::new("Too many levels of symbolic links"))),
    ));
    let facts = play("/dir/file", script);
    match facts.outcome() {
        Some(Err(UnhappyPath::CannotCanonicalize { absolute, parent, error })) => {
            assert!(parent.has_entry(absolute));
            assert_eq!(error.message(), "Too many levels of symbolic links");
        }
        other => panic!("{:?}", other),
    }
    assert_eq!(
        facts.report().unwrap(),
        "exists `/dir/file`\n - Cannot canonicalize due to error `Too many levels of symbolic links`\n - `/dir`\n     └── `file` (exists)\n\n"
    );
}

#[test]
fn directory_without_execute_hides_metadata() {
    let mut script = listed("/dir", &["exists.txt"], true, false);
    script.extend(vec![
        (
            "Canonicalize(\"/dir/exists.txt\")".to_string(),
            Answer::Canonical(Ok("/dir/exists.txt".into())),
        ),
        ("Metadata(\"/dir/exists.txt\")".to_string(), Answer::Metadata(Err(denied()))),
    ]);
    let facts = play("/dir/exists.txt", script);
    match facts.outcome() {
        Some(Err(UnhappyPath::CannotMetadata { absolute, canonical, parent, error })) => {
            assert!(parent.has_entry(absolute));
            assert_eq!(canonical.as_str(), "/dir/exists.txt");
            assert!(!parent.execute());
            assert_eq!(error.message(), "Permission denied (os error 13)");
        }
        other => panic!("{:?}", other),
    }
    assert_eq!(
        facts.report().unwrap(),
        "exists `/dir/exists.txt`\n - Canonical: `/dir/exists.txt`\n - Cannot read metadata due to error `Permission denied (os error 13)`\n - `/dir` ✅ read, ✅ write, ❌ execute\n     └── `exists.txt` (exists)\n\n"
    );
}

#[test]
fn symlink_that_changed_before_it_was_read() {
    let mut script = listed("/dir", &[], true, true);
    script.extend(vec![
        ("Canonicalize(\"/dir/link\")".to_string(), Answer::Canonical(Ok("/dir/real".into()))),
        ("Metadata(\"/dir/link\")".to_string(), Answer::Metadata(Ok(false))),
        ("IsSymlink(\"/dir/link\")".to_string(), Answer::IsSymlink(true)),
        (
            "ReadLink(\"/dir/link\")".to_string(),
            Answer::LinkTarget(Err(ProbeError::new("Invalid argument"))),
        ),
    ]);
    let facts = play("/dir/link", script);
    assert!(matches!(facts.outcome(), Some(Err(UnhappyPath::CannotReadLink { .. }))));
    assert_eq!(
        facts.report().unwrap(),
        "does not exist `/dir/link`\n - Canonical: `/dir/real`\n - Cannot readlink due to error `Invalid argument`\n - `/dir`\n      └── (empty)\n"
    );
}

#[test]
fn ancestors_are_looked_at_until_one_gives_a_diagnosis() {
    let missing = || ProbeError::new("No such file or directory (os error 2)");
    let mut script = vec![
        ("Canonicalize(\"/t/a/b\")".to_string(), Answer::Canonical(Err(missing()))),
        ("Canonicalize(\"/t/a\")".to_string(), Answer::Canonical(Err(missing()))),
    ];
    script.extend(listed("/t", &[], true, true));
    script.push(("Canonicalize(\"/t/a\")".to_string(), Answer::Canonical(Err(missing()))));
    let facts = play("/t/a/b/c", script);
    match facts.outcome() {
        Some(Err(UnhappyPath::ParentProblem { absolute, parent, error })) => {
            assert_eq!(absolute.as_str(), "/t/a/b/c");
            assert_eq!(parent.as_str(), "/t/a/b");
            assert_eq!(error.message(), "No such file or directory (os error 2)");
        }
        other => panic!("{:?}", other),
    }
    assert_eq!(
        facts.report().unwrap(),
        "cannot access `/t/a/b/c`\n - Prior directory does not exist `/t/a`\n    - Missing `a` from parent directory:\n      `/t`\n         └── (empty)\n\n"
    );
}

#[test]
fn parent_that_lists_as_not_a_directory() {
    let script = vec![
        ("Canonicalize(\"/t/a\")".to_string(), Answer::Canonical(Ok("/t/a".into()))),
        (
            "ListDirectory(\"/t/a\")".to_string(),
            Answer::Listing(Err(ProbeError::new("Not a directory (os error 20)"))),
        ),
    ];
    let mut script: Vec<(String, Answer)> = script;
    script.extend(listed("/t", &["a"], true, true));
    script.extend(vec![
        ("Canonicalize(\"/t/a\")".to_string(), Answer::Canonical(Ok("/t/a".into()))),
        ("Metadata(\"/t/a\")".to_string(), Answer::Metadata(Ok(false))),
        ("IsSymlink(\"/t/a\")".to_string(), Answer::IsSymlink(false)),
        ("Access(\"/t/a\", Read)".to_string(), Answer::Access(true)),
        ("Access(\"/t/a\", Write)".to_string(), Answer::Access(true)),
        ("Access(\"/t/a\", Execute)".to_string(), Answer::Access(false)),
    ]);
    let facts = play("/t/a/file", script);
    assert_eq!(
        facts.report().unwrap(),
        "cannot access `/t/a/file`\n - Prior path is not a directory\n - Prior path exists `/t/a`\n    - `/t`\n        └── `a` (file: ✅ read, ✅ write, ❌ execute)\n   \n\n"
    );
}

#[test]
fn walk_up_ends_at_the_root() {
    let gone = || Answer::Canonical(Err(ProbeError::new("gone")));
    let script = vec![
        ("Canonicalize(\"/a/b\")".to_string(), gone()),
        ("Canonicalize(\"/a\")".to_string(), gone()),
        ("Canonicalize(\"/\")".to_string(), gone()),
    ];
    let facts = play("/a/b/c", script);
    assert_eq!(
        facts.report().unwrap(),
        "cannot access `/a/b/c`\n - Prior directory is root `/`\n\n"
    );
}

#[test]
fn resolution_asks_each_probe_once_and_in_order() {
    let mut resolution = state("/dir/file");
    let answers = vec![
        Answer::Canonical(Ok("/dir".into())),
        Answer::Listing(Ok(names(&["file"]))),
        Answer::Access(true),
        Answer::Access(true),
        Answer::Canonical(Ok("/dir/file".into())),
        Answer::Metadata(Ok(false)),
        Answer::IsSymlink(false),
        Answer::Access(true),
        Answer::Access(true),
        Answer::Access(true),
    ];
    let mut asked = Vec::new();
    for answer in answers {
        assert!(resolution.outcome().is_none());
        asked.push(format!("{:?}", resolution.probe().unwrap()));
        resolution = resolution.advance(answer);
    }
    assert!(resolution.probe().is_none());
    assert!(matches!(resolution.outcome(), Some(Ok(_))));
    assert_eq!(asked.len(), 10);
    assert_eq!(asked[0], "Canonicalize(\"/dir\")");
    assert_eq!(asked[9], "Access(\"/dir/file\", Execute)");
    assert!(matches!(Probe::Access("/x".into(), AccessMode::Read), Probe::Access(_, _)));
}

#[test]
fn start_of_a_resolution() {
    assert!(matches!(state("rel").probe(), Some(Probe::WorkingDirectory)));
    assert!(matches!(
        state("").outcome(),
        Some(Err(UnhappyPath::AbsPathError(AbsPathError::PathIsEmpty(_))))
    ));
    assert!(matches!(state("//").outcome(), Some(Err(UnhappyPath::IsRoot(_)))));
    assert!(matches!(state("/a").probe(), Some(Probe::Canonicalize(_))));
}
