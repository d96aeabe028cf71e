//! Facts gathered from the real filesystem.
use faccess::{AccessMode as Mode, PathExt};
use path_facts::abs_path::AbsPath;
use path_facts::happy_path::{DirOk, UnhappyPath};
use path_facts::probe::{AccessMode, Answer, Probe, ProbeError};
use path_facts::resolved_metadata::ResolvedType;
use path_facts::PathFacts;
use std::path::Path;

fn failure(error: std::io::Error) -> ProbeError {
    ProbeError::new(&error.to_string())
}

fn text(path: &Path) -> String {
    path.to_str().unwrap().to_string()
}

fn look(probe: &Probe) -> Answer {
    match probe {
        Probe::WorkingDirectory => Answer::WorkingDirectory(
            std::path::absolute(".")
                .map_err(failure)
                .map(|dir| AbsPath::from_rooted(&text(&dir)).unwrap()),
        ),
        Probe::Canonicalize(path) => Answer::Canonical(
            Path::new(path).canonicalize().map(|p| text(&p)).map_err(failure),
        ),
        Probe::ListDirectory(path) => {
            let mut names = Vec::new();
            let mut outcome = Ok(());
            match Path::new(path).read_dir() {
                Ok(entries) => {
                    for entry in entries {
                        match entry {
                            Ok(entry) => names.push(entry.file_name().to_str().unwrap().to_string()),
                            Err(error) => outcome = Err(failure(error)),
                        }
                    }
                }
                Err(error) => outcome = Err(failure(error)),
            }
            Answer::Listing(outcome.map(|_| names))
        }
        Probe::Metadata(path) => Answer::Metadata(
            Path::new(path).metadata().map(|m| m.is_dir()).map_err(failure),
        ),
        Probe::IsSymlink(path) => Answer::IsSymlink(Path::new(path).is_symlink()),
        Probe::ReadLink(path) => Answer::LinkTarget(
            Path::new(path).read_link().map(|p| text(&p)).map_err(failure),
        ),
        Probe::Access(path, mode) => Answer::Access(
            Path::new(path)
                .access(match mode {
                    AccessMode::Read => Mode::READ,
                    AccessMode::Write => Mode::WRITE,
                    AccessMode::Execute => Mode::EXECUTE,
                })
                .is_ok(),
        ),
    }
}

fn gather(path: &Path) -> PathFacts {
    let mut facts = PathFacts::new(path.to_str().unwrap());
    let mut asked = 0;
    while let Some(probe) = facts.pending() {
        asked += 1;
        assert!(asked < 10_000);
        facts = facts.observe(look(&probe));
    }
    facts
}

fn create(dir: &Path, name: &str) -> tempfile::NamedTempFile {
    tempfile::Builder::new().prefix(name).suffix("").rand_bytes(0).tempfile_in(dir).unwrap()
}

#[test]
fn test_prior_dir_problem_is_file() {
    let tempdir = tempfile::tempdir().unwrap();
    let path = tempdir.path().join("a").join("b").join("c").join("does_not_exist.txt");

    let _file = create(tempdir.path(), "a");
    let expected = "cannot access `/path/to/directory/a/b/c/does_not_exist.txt`
 - Prior path is not a directory
 - Prior path exists `/path/to/directory/a`
    - `/path/to/directory`
        └── `a` (file: ✅ read, ✅ write, ❌ execute)
"
    .replace("/path/to/directory", format!("{}", tempdir.path().display()).as_str());
    let facts = gather(&path);

    println!("{:?}", expected.trim());
    println!("{:?}", facts.report().unwrap().trim());
    assert_eq!(expected.trim(), facts.report().unwrap().trim());
}

#[test]
fn test_prior_dir_problem_does_not_exist() {
    let tempdir = tempfile::tempdir().unwrap();
    let path = tempdir.path().join("a").join("b").join("c").join("does_not_exist.txt");
    let expected = "cannot access `/path/to/directory/a/b/c/does_not_exist.txt`
 - Prior directory does not exist `/path/to/directory/a`
    - Missing `a` from parent directory:
      `/path/to/directory`
         └── (empty)
"
    .replace("/path/to/directory", format!("{}", tempdir.path().display()).as_str());

    let facts = gather(&path);
    println!("{:?}", expected.trim());
    println!("{:?}", facts.report().unwrap().trim());
    assert_eq!(expected.trim(), facts.report().unwrap().trim());
}

#[test]
fn test_file_exists_is_file() {
    let tempdir = tempfile::tempdir().unwrap();
    let path = tempdir.path().join("exists.txt");
    let _file = create(tempdir.path(), "exists.txt");

    let expected = "exists `/path/to/directory/exists.txt`
 - `/path/to/directory`
     └── `exists.txt` (file: ✅ read, ✅ write, ❌ execute)
"
    .replace("/path/to/directory", format!("{}", tempdir.path().display()).as_str());
    let facts = gather(&path);
    assert_eq!(expected.trim(), facts.report().unwrap().trim());
}

#[test]
fn test_parent_exists_missing_file() {
    let tempdir = tempfile::tempdir().unwrap();
    let path = tempdir.path().join("does_not_exist.txt");
    let expected = "does not exist `/path/to/directory/does_not_exist.txt`
 - Missing `does_not_exist.txt` from parent directory:
   `/path/to/directory`
      └── (empty)
"
    .replace("/path/to/directory", format!("{}", tempdir.path().display()).as_str());
    let facts = gather(&path);
    assert_eq!(expected.trim(), facts.report().unwrap().trim());
}

#[test]
fn listed_file_is_found_under_its_own_path() {
    let tempdir = tempfile::tempdir().unwrap();
    let _file = create(tempdir.path(), "exists.txt");
    let dir = AbsPath::from_rooted(tempdir.path().to_str().unwrap()).unwrap();
    let names = match look(&Probe::ListDirectory(dir.as_str().to_string())) {
        Answer::Listing(Ok(names)) => names,
        other => panic!("{:?}", other),
    };
    let canonical = path_facts::canonical_path::CanonicalPath::new(Ok(dir.as_str().to_string()))
        .unwrap();
    let listed = DirOk::new(dir, canonical, &names, true, true);
    let cwd = Err(ProbeError::new("unused"));
    let child = AbsPath::new(tempdir.path().join("exists.txt").to_str().unwrap(), &cwd).unwrap();
    assert!(listed.has_entry(&child));
    let other = AbsPath::new(tempdir.path().join("other.txt").to_str().unwrap(), &cwd).unwrap();
    assert!(!listed.has_entry(&other));
}

#[test]
fn existing_file_resolves_with_its_directory() {
    let tempdir = tempfile::tempdir().unwrap();
    let _file = create(tempdir.path(), "exists.txt");
    let facts = gather(&tempdir.path().join("exists.txt"));
    match facts.outcome() {
        Some(Ok(found)) => {
            assert_eq!(found.resolved_type(), ResolvedType::File);
            assert!(found.symlink_target().is_none());
            assert!(found.parent().read());
            assert_eq!(found.parent().entries().len(), 1);
            assert!(found.parent().has_entry(found.absolute()));
            assert!(found.read());
            assert!(found.write());
            assert!(!found.execute());
        }
        other => panic!("{:?}", other),
    }
}

#[test]
fn missing_file_does_not_exist_with_the_listing_attached() {
    let tempdir = tempfile::tempdir().unwrap();
    let _file = create(tempdir.path(), "neighbour");
    let facts = gather(&tempdir.path().join("does_not_exist.txt"));
    match facts.outcome() {
        Some(Err(UnhappyPath::DoesNotExist { absolute, parent })) => {
            assert!(!parent.has_entry(absolute));
            assert_eq!(parent.entries().len(), 1);
            assert_eq!(parent.absolute().as_str(), tempdir.path().to_str().unwrap());
        }
        other => panic!("{:?}", other),
    }
}

#[test]
fn directory_resolves_as_directory() {
    let tempdir = tempfile::tempdir().unwrap();
    let inner = tempfile::Builder::new().prefix("inner").rand_bytes(0).tempdir_in(tempdir.path()).unwrap();
    let facts = gather(inner.path());
    match facts.outcome() {
        Some(Ok(found)) => assert_eq!(found.resolved_type(), ResolvedType::Dir),
        other => panic!("{:?}", other),
    }
    let expected = "exists `/path/to/directory/inner`
 - `/path/to/directory`
     └── `inner` (directory)

"
    .replace("/path/to/directory", format!("{}", tempdir.path().display()).as_str());
    assert_eq!(expected, facts.report().unwrap());
}

#[test]
fn relative_path_is_resolved_against_the_working_directory() {
    let facts = gather(Path::new("surely/not/there.txt"));
    let cwd = text(&std::path::absolute(".").unwrap());
    let report = facts.report().unwrap();
    assert!(report.starts_with("cannot access `surely/not/there.txt`\n"));
    assert!(report.contains(&format!(" - Absolute: `{}/surely/not/there.txt`\n", cwd)));
}
