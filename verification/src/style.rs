//! The wording and layout of reports: bullets, permission caveats and
//! directory listings.
use vstd::prelude::*;
use crate::abs_path::{file_name, file_name_of, AbsPath};
use crate::happy_path::{DirOk, DirView};
use crate::text::{chars_of, quote, quoted};

verus! {

/// The caveat shown for a set of permissions: nothing where all three are
/// granted, else each of them with a mark.
pub open spec fn permissions_text(read: bool, write: bool, execute: bool) -> Seq<char> {
    if read && write && execute {
        Seq::empty()
    } else {
        (if read {
            "✅ read"@
        } else {
            "❌ read"@
        }) + ", "@ + (if write {
            "✅ write"@
        } else {
            "❌ write"@
        }) + ", "@ + (if execute {
            "✅ execute"@
        } else {
            "❌ execute"@
        })
    }
}

/// Shows permissions if any are disabled.
pub fn conditional_perms(read: bool, write: bool, execute: bool) -> (out: String)
    ensures
        out@ == permissions_text(read, write, execute),
{
    let mut out = String::new();
    if !(read && write && execute) {
        out.append(
            if read {
                "✅ read"
            } else {
                "❌ read"
            },
        );
        out.append(", ");
        out.append(
            if write {
                "✅ write"
            } else {
                "❌ write"
            },
        );
        out.append(", ");
        out.append(
            if execute {
                "✅ execute"
            } else {
                "❌ execute"
            },
        );
    }
    out
}

/// `contents` after `append`, or nothing where `contents` is empty.
pub open spec fn appended_if(append: Seq<char>, contents: Seq<char>) -> Seq<char> {
    if contents.len() == 0 {
        contents
    } else {
        append + contents
    }
}

/// Puts `append` before `contents` unless `contents` is empty.
pub fn append_if(append: &str, contents: &str) -> (out: String)
    ensures
        out@ == appended_if(append@, contents@),
{
    if contents.is_empty() {
        contents.to_owned()
    } else {
        let mut out = append.to_owned();
        out.append(contents);
        out
    }
}

/// Length of the first line of `text`, its line break included.
pub open spec fn first_line_len(text: Seq<char>) -> nat
    decreases text.len(),
{
    if text.len() == 0 {
        0
    } else if text[0] == '\n' {
        1
    } else {
        1 + first_line_len(text.skip(1))
    }
}

/// The lines of `text`, each with the line break that ends it.
pub open spec fn lines(text: Seq<char>) -> Seq<Seq<char>>
    decreases text.len(),
    via lines_decreases
{
    if text.len() == 0 {
        Seq::empty()
    } else {
        let n = first_line_len(text) as int;
        seq![text.take(n)] + lines(text.skip(n))
    }
}

#[via_fn]
proof fn lines_decreases(text: Seq<char>) {
    lemma_first_line_len(text);
}

/// The first line of a text that is not empty has a character, and no more
/// than the text.
pub proof fn lemma_first_line_len(text: Seq<char>)
    ensures
        first_line_len(text) <= text.len(),
        text.len() > 0 ==> first_line_len(text) >= 1,
    decreases text.len(),
{
    if text.len() > 0 && text[0] != '\n' {
        lemma_first_line_len(text.skip(1));
    }
}

/// The lines that get a prefix: those of `text`, or one empty line where
/// `text` is empty.
pub open spec fn lines_or_blank(text: Seq<char>) -> Seq<Seq<char>> {
    if text.len() == 0 {
        seq![Seq::empty()]
    } else {
        lines(text)
    }
}

/// Each line behind its prefix, in order, as one text.
pub open spec fn interleaved(prefixes: Seq<Seq<char>>, lines: Seq<Seq<char>>) -> Seq<char>
    decreases lines.len(),
{
    if lines.len() == 0 || prefixes.len() == 0 {
        Seq::empty()
    } else {
        interleaved(prefixes.drop_last(), lines.drop_last()) + prefixes.last() + lines.last()
    }
}

/// `prefix` is what `f` may return for the line `line` at `index`.
pub open spec fn produced<F: Fn(usize, &str) -> String>(
    f: F,
    index: usize,
    line: Seq<char>,
    prefix: Seq<char>,
) -> bool {
    exists|l: &str, p: String| l@ == line && p@ == prefix && #[trigger] call_ensures(f, (index, l), p)
}

/// `prefixes` are what `f` may return for the lines of `text`, one each.
pub open spec fn prefixes_of<F: Fn(usize, &str) -> String>(
    f: F,
    text: Seq<char>,
    prefixes: Seq<Seq<char>>,
) -> bool {
    &&& prefixes.len() == lines_or_blank(text).len()
    &&& prefixes.len() <= usize::MAX
    &&& forall|i: usize|
        i < prefixes.len() ==> #[trigger] produced(
            f,
            i,
            lines_or_blank(text)[i as int],
            prefixes[i as int],
        )
}

/// Prefixes each line of input.
///
/// Each line of `contents` is passed to `f` along with the index of the
/// line, and what `f` returns is put before the line. For empty contents `f`
/// is still asked once, for a prefix to an empty line.
pub fn prefix_lines<F: Fn(usize, &str) -> String>(contents: &str, f: F) -> (out: String)
    requires
        forall|i: usize, line: &str|
            i < lines_or_blank(contents@).len() && line@ == lines_or_blank(contents@)[i as int]
                ==> call_requires(f, (i, line)),
    ensures
        exists|prefixes: Seq<Seq<char>>| #[trigger]
            prefixes_of(f, contents@, prefixes) && out@ == interleaved(
                prefixes,
                lines_or_blank(contents@),
            ),
{
    if contents.is_empty() {
        proof {
            reveal_strlit("");
            assert(""@ =~= Seq::<char>::empty());
        }
        let prefix = f(0, "");
        proof {
            let prefixes = seq![prefix@];
            let blank = lines_or_blank(contents@);
            assert(produced(f, 0, blank[0], prefixes[0]));
            assert(blank =~= seq![Seq::<char>::empty()]);
            assert(prefixes.drop_last() =~= Seq::<Seq<char>>::empty());
            assert(interleaved(prefixes.drop_last(), blank.drop_last()) =~= Seq::<char>::empty());
            assert(interleaved(prefixes, blank) =~= prefix@);
            assert(prefixes_of(f, contents@, prefixes));
        }
        return prefix;
    }
    let chars = chars_of(contents);
    let n = chars.len();
    let mut out = String::new();
    let mut start: usize = 0;
    let mut index: usize = 0;
    let ghost mut prefixes: Seq<Seq<char>> = Seq::empty();
    let ghost mut done: Seq<Seq<char>> = Seq::empty();
    proof {
        assert(contents@.skip(0) =~= contents@);
        assert(done + lines(contents@) =~= lines(contents@));
    }
    while start < n
        invariant
            chars@ == contents@,
            n == chars.len(),
            n > 0,
            start <= n,
            index <= start,
            index == done.len(),
            index == prefixes.len(),
            lines(contents@) == done + lines(contents@.skip(start as int)),
            forall|i: usize|
                i < index ==> #[trigger] produced(f, i, done[i as int], prefixes[i as int]),
            out@ == interleaved(prefixes, done),
            forall|i: usize, line: &str|
                i < lines(contents@).len() && line@ == lines(contents@)[i as int] ==> call_requires(
                    f,
                    (i, line),
                ),
        decreases n - start,
    {
        let ghost rest = contents@.skip(start as int);
        let mut end: usize = start;
        while end < n && chars[end] != '\n'
            invariant
                chars@ == contents@,
                n == chars.len(),
                start <= end <= n,
                first_line_len(contents@.skip(start as int)) == (end - start) + first_line_len(
                    contents@.skip(end as int),
                ),
            decreases n - end,
        {
            assert(contents@.skip(end as int).skip(1) =~= contents@.skip(end + 1));
            end = end + 1;
        }
        if end < n {
            assert(contents@.skip(end as int)[0] == '\n');
            end = end + 1;
        }
        let line = contents.substring_char(start, end);
        proof {
            assert(end - start == first_line_len(rest));
            assert(rest.take(end - start) =~= line@);
            assert(rest.skip(end - start) =~= contents@.skip(end as int));
            assert(lines(rest) == seq![line@] + lines(contents@.skip(end as int)));
            assert(lines(contents@)[index as int] == line@);
        }
        let prefix = f(index, line);
        out.append(prefix.as_str());
        out.append(line);
        proof {
            assert(produced(f, index, line@, prefix@));
            let more_prefixes = prefixes.push(prefix@);
            let more_done = done.push(line@);
            assert(more_prefixes.drop_last() =~= prefixes);
            assert(more_done.drop_last() =~= done);
            assert(lines(contents@) =~= more_done + lines(contents@.skip(end as int)));
            prefixes = more_prefixes;
            done = more_done;
        }
        start = end;
        index = index + 1;
    }
    proof {
        assert(lines(contents@.skip(start as int)) =~= Seq::<Seq<char>>::empty());
        assert(done =~= lines(contents@));
        assert(prefixes_of(f, contents@, prefixes));
    }
    out
}

/// Each line of `text` behind a prefix: `first` for the first line, `rest`
/// for the others. Empty text still gets the first prefix.
pub open spec fn prefixed(first: Seq<char>, rest: Seq<char>, text: Seq<char>) -> Seq<char> {
    interleaved(
        Seq::new(
            lines_or_blank(text).len(),
            |i: int|
                if i == 0 {
                    first
                } else {
                    rest
                },
        ),
        lines_or_blank(text),
    )
}

/// Applies a prefix to the first line and a different prefix to the rest of
/// the lines.
///
/// The primary use is to align indentation with the prefix of the first
/// line, as in bullet point lists. The first prefix is always applied, even
/// when the contents are empty, so that a nested bullet point always follows
/// a parent bullet point.
pub fn prefix_first_rest_lines(first_prefix: &str, rest_prefix: &str, contents: &str) -> (out:
    String)
    ensures
        out@ == prefixed(first_prefix@, rest_prefix@, contents@),
{
    let f = |index: usize, line: &str| -> (prefix: String)
        ensures
            prefix@ == (if index == 0 {
                first_prefix@
            } else {
                rest_prefix@
            }),
        {
            if index == 0 {
                first_prefix.to_owned()
            } else {
                rest_prefix.to_owned()
            }
        };
    let out = prefix_lines(contents, f);
    proof {
        let all = lines_or_blank(contents@);
        let prefixes = choose|prefixes: Seq<Seq<char>>| #[trigger]
            prefixes_of(f, contents@, prefixes) && out@ == interleaved(prefixes, all);
        assert(prefixes =~= Seq::new(
            all.len(),
            |i: int|
                if i == 0 {
                    first_prefix@
                } else {
                    rest_prefix@
                },
        )) by {
            assert forall|i: int| 0 <= i < prefixes.len() implies prefixes[i] == (if i == 0 {
                first_prefix@
            } else {
                rest_prefix@
            }) by {
                let k = i as usize;
                assert(produced(f, k, all[k as int], prefixes[k as int]));
            }
        }
    }
    out
}

/// `contents` as a bullet point: ` - ` before its first line, three spaces
/// before the others.
pub open spec fn bulleted(contents: Seq<char>) -> Seq<char> {
    prefixed(" - "@, "   "@, contents)
}

/// Formats `contents` as a bullet point.
pub fn bullet(contents: &str) -> (out: String)
    ensures
        out@ == bulleted(contents@),
{
    prefix_first_rest_lines(" - ", "   ", contents)
}

/// One line of a listing: behind the branch glyph, which differs for the
/// last entry, the name between backticks and then the note, if there is
/// one.
pub open spec fn entry_line(name: Seq<char>, note: Option<Seq<char>>, last: bool) -> Seq<char> {
    (if last {
        "  └── "@
    } else {
        "  ├── "@
    }) + quoted(name) + (match note {
        Some(text) => " "@ + text,
        None => Seq::empty(),
    }) + "\n"@
}

/// The lines of the first `upto` entries. An entry without a file name has
/// no line.
pub open spec fn entry_lines(
    entries: Seq<Seq<char>>,
    notes: Seq<Option<Seq<char>>>,
    upto: nat,
) -> Seq<char>
    decreases upto,
{
    if upto == 0 {
        Seq::empty()
    } else {
        let i = upto - 1;
        entry_lines(entries, notes, i as nat) + (match file_name_of(entries[i]) {
            Some(name) => entry_line(name, notes[i], i == entries.len() - 1),
            None => Seq::empty(),
        })
    }
}

/// The lines of the first entries depend on the notes of those among them
/// that have a file name, and on no other.
pub proof fn lemma_entry_lines_agree(
    entries: Seq<Seq<char>>,
    a: Seq<Option<Seq<char>>>,
    b: Seq<Option<Seq<char>>>,
    upto: nat,
)
    requires
        forall|j: int| 0 <= j < upto && file_name_of(entries[j]) is Some ==> a[j] == b[j],
    ensures
        entry_lines(entries, a, upto) == entry_lines(entries, b, upto),
    decreases upto,
{
    if upto > 0 {
        lemma_entry_lines_agree(entries, a, b, (upto - 1) as nat);
    }
}

/// The entries of a directory as a tree, or a marker where there are none.
pub open spec fn listing_text(entries: Seq<Seq<char>>, notes: Seq<Option<Seq<char>>>) -> Seq<
    char,
> {
    if entries.len() == 0 {
        "   └── (empty)"@
    } else {
        entry_lines(entries, notes, entries.len())
    }
}

/// A directory as reports show it: its path and the caveat on its
/// permissions on one line, then its entries.
pub open spec fn directory_text(dir: DirView, notes: Seq<Option<Seq<char>>>) -> Seq<char> {
    quoted(dir.absolute) + appended_if(" "@, permissions_text(dir.read, dir.write, dir.execute))
        + "\n"@ + listing_text(dir.entries, notes)
}

/// A directory that may be read and entered but not written to is shown
/// with exactly that caveat behind its path, and a directory with every
/// permission is shown with none.
pub proof fn law_permission_caveats(dir: DirView, notes: Seq<Option<Seq<char>>>)
    ensures
        permissions_text(true, true, true) == Seq::<char>::empty(),
        permissions_text(true, false, true) == "✅ read, ❌ write, ✅ execute"@,
        dir.read && dir.write && dir.execute ==> directory_text(dir, notes) == quoted(dir.absolute)
            + "\n"@ + listing_text(dir.entries, notes),
        dir.read && !dir.write && dir.execute ==> directory_text(dir, notes) == quoted(
            dir.absolute,
        ) + " ✅ read, ❌ write, ✅ execute"@ + "\n"@ + listing_text(dir.entries, notes),
{
    reveal_strlit("✅ read");
    reveal_strlit("❌ write");
    reveal_strlit("✅ execute");
    reveal_strlit(", ");
    reveal_strlit(" ");
    reveal_strlit("✅ read, ❌ write, ✅ execute");
    reveal_strlit(" ✅ read, ❌ write, ✅ execute");
    assert(permissions_text(true, false, true) =~= "✅ read, ❌ write, ✅ execute"@);
    assert(" "@ + "✅ read, ❌ write, ✅ execute"@ =~= " ✅ read, ❌ write, ✅ execute"@);
    assert(quoted(dir.absolute) + Seq::<char>::empty() =~= quoted(dir.absolute));
}

/// `note` is what `annotate` may return for the entry at `entry`.
pub open spec fn noted<F: Fn(&AbsPath) -> Option<String>>(
    annotate: F,
    entry: Seq<char>,
    note: Option<Seq<char>>,
) -> bool {
    exists|e: &AbsPath, n: Option<String>|
        e@ == entry && n.deep_view() == note && #[trigger] call_ensures(annotate, (e,), n)
}

/// `notes` are what `annotate` may return for `entries`, one each. Only
/// entries with a file name are annotated.
pub open spec fn notes_of<F: Fn(&AbsPath) -> Option<String>>(
    annotate: F,
    entries: Seq<Seq<char>>,
    notes: Seq<Option<Seq<char>>>,
) -> bool {
    &&& notes.len() == entries.len()
    &&& forall|i: int|
        0 <= i < entries.len() && file_name_of(entries[i]) is Some ==> #[trigger] noted(
            annotate,
            entries[i],
            notes[i],
        )
}

/// Formats a directory: its path, its permissions if any are disabled, and
/// its entries, each with what `annotate` says of it.
pub fn fmt_dir<F>(dir: &DirOk, annotate: F) -> (out: String) where
    F: Fn(&AbsPath) -> Option<String>,

    requires
        forall|e: &AbsPath| dir@.entries.contains(e@) ==> call_requires(annotate, (e,)),
    ensures
        exists|notes: Seq<Option<Seq<char>>>| #[trigger]
            notes_of(annotate, dir@.entries, notes) && out@ == directory_text(dir@, notes),
{
    let mut out = dir.absolute.display();
    let permissions = append_if(
        " ",
        conditional_perms(dir.read, dir.write, dir.execute).as_str(),
    );
    out.append(permissions.as_str());
    out.append("\n");
    let listing = fmt_dir_entries_annotate(&dir.entries, annotate);
    out.append(listing.as_str());
    proof {
        let notes = choose|notes: Seq<Option<Seq<char>>>| #[trigger]
            notes_of(annotate, dir.entries.deep_view(), notes) && listing@ == listing_text(
                dir.entries.deep_view(),
                notes,
            );
        assert(notes_of(annotate, dir@.entries, notes) && out@ == directory_text(dir@, notes));
    }
    out
}

/// Formats the entries of a directory as a tree, each with what `annotate`
/// says of it.
pub fn fmt_dir_entries_annotate<F>(entries: &Vec<AbsPath>, annotate: F) -> (out: String) where
    F: Fn(&AbsPath) -> Option<String>,

    requires
        forall|e: &AbsPath| entries.deep_view().contains(e@) ==> call_requires(annotate, (e,)),
    ensures
        exists|notes: Seq<Option<Seq<char>>>| #[trigger]
            notes_of(annotate, entries.deep_view(), notes) && out@ == listing_text(
                entries.deep_view(),
                notes,
            ),
{
    let mut out = String::new();
    let ghost paths = entries.deep_view();
    if entries.is_empty() {
        out.append("   └── (empty)");
        proof {
            let notes = Seq::<Option<Seq<char>>>::empty();
            assert(notes_of(annotate, paths, notes) && out@ == listing_text(paths, notes));
        }
        return out;
    }
    let ghost mut notes: Seq<Option<Seq<char>>> = Seq::empty();
    let mut i: usize = 0;
    while i < entries.len()
        invariant
            i <= entries.len(),
            paths == entries.deep_view(),
            notes.len() == i,
            forall|j: int|
                0 <= j < i && file_name_of(paths[j]) is Some ==> #[trigger] noted(
                    annotate,
                    paths[j],
                    notes[j],
                ),
            out@ == entry_lines(paths, notes, i as nat),
            forall|e: &AbsPath| paths.contains(e@) ==> call_requires(annotate, (e,)),
        decreases entries.len() - i,
    {
        let subpath = &entries[i];
        let ghost before = out@;
        let ghost mut note: Option<Seq<char>> = None;
        match subpath.file_name() {
            Some(name) => {
                let mut entry = quote(name.as_str());
                assert(paths[i as int] == subpath@ && paths.contains(subpath@));
                let annotation = annotate(subpath);
                proof {
                    note = annotation.deep_view();
                    assert(noted(annotate, paths[i as int], note));
                }
                match annotation {
                    Some(text) => {
                        entry.append(" ");
                        entry.append(text.as_str());
                    },
                    None => {},
                }
                if i + 1 < entries.len() {
                    out.append("  ├── ");
                } else {
                    out.append("  └── ");
                }
                out.append(entry.as_str());
                out.append("\n");
                assert(out@ =~= before + entry_line(name@, note, i == entries.len() - 1));
            },
            None => {},
        }
        proof {
            let more = notes.push(note);
            lemma_entry_lines_agree(paths, notes, more, i as nat);
            notes = more;
        }
        i = i + 1;
    }
    proof {
        assert(notes_of(annotate, paths, notes) && out@ == listing_text(paths, notes));
    }
    out
}

/// The last component of `path`, unless it is `..` or missing.
pub fn filename(path: &str) -> (out: Option<String>)
    ensures
        out.deep_view() == file_name_of(path@),
{
    file_name(path)
}

/// The last component of `path`, or all of `path` where it has none to
/// show.
pub open spec fn file_name_or_path(path: Seq<char>) -> Seq<char> {
    match file_name_of(path) {
        Some(name) => name,
        None => path,
    }
}

/// The last component of `path`, or all of `path` where it has none to
/// show.
pub fn filename_or_path(path: &str) -> (out: String)
    ensures
        out@ == file_name_or_path(path@),
{
    match filename(path) {
        Some(name) => name,
        None => path.to_owned(),
    }
}

} // verus!
