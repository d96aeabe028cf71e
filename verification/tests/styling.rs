//! Bullets, permission caveats and directory listings.
use path_facts::abs_path::AbsPath;
use path_facts::canonical_path::CanonicalPath;
use path_facts::happy_path::DirOk;
use path_facts::style::{
    append_if, bullet, conditional_perms, filename, filename_or_path, fmt_dir,
    fmt_dir_entries_annotate, prefix_first_rest_lines, prefix_lines,
};
use path_facts::text::{chars_of, quote};

fn dir(names: &[&str], write: bool, execute: bool) -> DirOk {
    let names: Vec<String> = names.iter().map(|name| name.to_string()).collect();
    DirOk::new(
        AbsPath::from_rooted("/dir").unwrap(),
        CanonicalPath::new(Ok("/dir".to_string())).unwrap(),
        &names,
        write,
        execute,
    )
}

#[test]
fn all_permissions_render_no_caveat() {
    assert_eq!(conditional_perms(true, true, true), "");
}

#[test]
fn missing_permission_renders_all_three() {
    assert_eq!(conditional_perms(true, false, true), "✅ read, ❌ write, ✅ execute");
    assert_eq!(conditional_perms(true, true, false), "✅ read, ✅ write, ❌ execute");
    assert_eq!(conditional_perms(false, false, false), "❌ read, ❌ write, ❌ execute");
}

#[test]
fn append_if_skips_empty_contents() {
    assert_eq!(append_if(": ", ""), "");
    assert_eq!(append_if(": ", "x"), ": x");
}

#[test]
fn prefix_first_rest_lines_prefixes_every_line() {
    assert_eq!(prefix_first_rest_lines("- ", "  ", "a\nb\nc"), "- a\n  b\n  c");
    assert_eq!(prefix_first_rest_lines("- ", "  ", "a\n"), "- a\n");
    assert_eq!(prefix_first_rest_lines("- ", "  ", "\n\n"), "- \n  \n");
}

#[test]
fn empty_contents_still_get_the_first_prefix() {
    assert_eq!(prefix_first_rest_lines("- ", "  ", ""), "- ");
    assert_eq!(bullet(""), " - ");
}

#[test]
fn prefix_lines_hands_out_index_and_line() {
    let out = prefix_lines("x\nyy\nzzz", |index, line| format!("{}:{}>", index, line.trim().len()));
    assert_eq!(out, "0:1>x\n1:2>yy\n2:3>zzz");
    assert_eq!(prefix_lines("", |index, line| format!("{}{}!", index, line)), "0!");
}

#[test]
fn bullet_aligns_following_lines() {
    assert_eq!(bullet("one\ntwo"), " - one\n   two");
}

#[test]
fn quote_and_chars() {
    assert_eq!(quote("a b"), "`a b`");
    assert_eq!(chars_of("a└b"), vec!['a', '└', 'b']);
}

#[test]
fn filename_or_path_falls_back_to_the_path() {
    assert_eq!(filename("/a/b"), Some("b".to_string()));
    assert_eq!(filename(".."), None);
    assert_eq!(filename_or_path("dir/file.txt"), "file.txt");
    assert_eq!(filename_or_path(".."), "..");
    assert_eq!(filename_or_path("/"), "/");
}

#[test]
fn empty_directory_renders_a_marker() {
    let listed = dir(&[], true, true);
    assert_eq!(fmt_dir_entries_annotate(listed.entries(), |_| None), "   └── (empty)");
    assert_eq!(fmt_dir(&listed, |_| None), "`/dir`\n   └── (empty)");
}

#[test]
fn last_entry_gets_the_closing_branch() {
    let listed = dir(&["a", "b", "c"], true, true);
    assert_eq!(
        fmt_dir_entries_annotate(listed.entries(), |_| None),
        "  ├── `a`\n  ├── `b`\n  └── `c`\n"
    );
}

#[test]
fn annotation_follows_the_entry_it_is_about() {
    let listed = dir(&["a", "b"], true, true);
    let marked = AbsPath::from_rooted("/dir/./b/").unwrap();
    let out = fmt_dir(&listed, |entry| {
        if *entry == marked {
            Some("(here)".to_string())
        } else {
            None
        }
    });
    assert_eq!(out, "`/dir`\n  ├── `a`\n  └── `b` (here)\n");
}

#[test]
fn read_only_directory_shows_its_caveat() {
    let listed = dir(&["a"], false, true);
    assert!(listed.read());
    assert!(!listed.write());
    assert!(listed.execute());
    assert_eq!(fmt_dir(&listed, |_| None), "`/dir` ✅ read, ❌ write, ✅ execute\n  └── `a`\n");
}

#[test]
fn entry_without_a_file_name_has_no_line() {
    let listed = dir(&["a", ".."], true, true);
    assert_eq!(fmt_dir_entries_annotate(listed.entries(), |_| None), "  ├── `a`\n");
}

#[test]
fn directory_finds_entries_however_spelled() {
    let listed = dir(&["a", "b"], true, true);
    assert_eq!(listed.absolute().as_str(), "/dir");
    assert_eq!(listed.canonical().as_str(), "/dir");
    assert!(listed.has_entry(&AbsPath::from_rooted("/dir/a").unwrap()));
    assert!(listed.has_entry(&AbsPath::from_rooted("//dir/./b/").unwrap()));
    assert!(!listed.has_entry(&AbsPath::from_rooted("/dir/c").unwrap()));
    assert!(!listed.has_entry(&AbsPath::from_rooted("/dir").unwrap()));
    let copy = listed.clone();
    assert_eq!(copy.entries().len(), 2);
    assert!(!copy.with_write(false).with_execute(false).execute());
}
